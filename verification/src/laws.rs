//! What holds of every board and of every game.

use vstd::prelude::*;
use crate::display::{cells, square_at, squares};
use crate::torus::{after, alive_at, all_dead, before, generations, neighbours, one_if, step,
    well_formed, wrap};

verus! {

/// Birth and survival by three: a cell with exactly three live neighbours is
/// alive in the next generation, whether it is alive now or not.
pub proof fn lemma_three_neighbours_alive(board: Seq<Seq<bool>>, x: int, y: int)
    requires
        well_formed(board),
        0 <= x < 100,
        0 <= y < 100,
        neighbours(board, x, y) == 3,
    ensures
        step(board)[x][y],
{
}

/// The fate of a cell in full: in the next generation it is alive exactly if
/// it has three live neighbours, or is alive now and has two.
pub proof fn lemma_fate(board: Seq<Seq<bool>>, x: int, y: int)
    requires
        well_formed(board),
        0 <= x < 100,
        0 <= y < 100,
    ensures
        step(board)[x][y] <==> (neighbours(board, x, y) == 3 || (board[x][y] && neighbours(
            board,
            x,
            y,
        ) == 2)),
{
}

/// A cell of a dead board has no live neighbour.
pub proof fn lemma_dead_board_no_neighbours(board: Seq<Seq<bool>>, x: int, y: int)
    requires
        well_formed(board),
        all_dead(board),
    ensures
        neighbours(board, x, y) == 0,
{
    assert forall|i: int, j: int| !alive_at(board, i, j) by {
        assert(!board[wrap(i)][wrap(j)]);
    }
}

/// A board without a live cell stays without one, however many generations
/// pass.
pub proof fn lemma_dead_stays_dead(board: Seq<Seq<bool>>, n: nat)
    requires
        well_formed(board),
        all_dead(board),
    ensures
        well_formed(generations(board, n)),
        all_dead(generations(board, n)),
    decreases n,
{
    if n > 0 {
        let earlier = generations(board, (n - 1) as nat);
        lemma_dead_stays_dead(board, (n - 1) as nat);
        assert forall|x: int, y: int| 0 <= x < 100 && 0 <= y < 100 implies !(
        #[trigger] step(earlier)[x][y]) by {
            lemma_dead_board_no_neighbours(earlier, x, y);
        }
    }
}

/// The neighbours of a cell across the edges of the board: the count reads
/// the cells before and after it in both directions, where the last
/// coordinate comes before the first and the first after the last. This
/// holds of the cells in the middle, on the four edges and in the four
/// corners alike.
pub proof fn lemma_neighbours_wrap(board: Seq<Seq<bool>>, x: int, y: int)
    requires
        well_formed(board),
        0 <= x < 100,
        0 <= y < 100,
    ensures
        neighbours(board, x, y) == one_if(board[x][before(y)]) + one_if(board[x][after(y)])
            + one_if(board[before(x)][before(y)]) + one_if(board[before(x)][y]) + one_if(
            board[before(x)][after(y)],
        ) + one_if(board[after(x)][before(y)]) + one_if(board[after(x)][y]) + one_if(
            board[after(x)][after(y)],
        ),
{
    assert(wrap(x - 1) == before(x) && wrap(x + 1) == after(x) && wrap(x) == x);
    assert(wrap(y - 1) == before(y) && wrap(y + 1) == after(y) && wrap(y) == y);
}

/// Two coordinates denote the same place on the torus exactly if they
/// differ by a multiple of 100, and every coordinate denotes a place on the
/// board.
pub proof fn lemma_wrap_period(i: int, turns: int)
    ensures
        0 <= wrap(i) < 100,
        wrap(i + 100 * turns) == wrap(i),
{
    assert((i + 100 * turns) % 100 == i % 100) by (nonlinear_arith);
}

/// The count of live neighbours is the same wherever on the torus the cell
/// is named from: going once round the board in either direction changes
/// nothing.
pub proof fn lemma_neighbours_period(board: Seq<Seq<bool>>, x: int, y: int, turns_x: int, turns_y: int)
    ensures
        neighbours(board, x + 100 * turns_x, y + 100 * turns_y) == neighbours(board, x, y),
{
    lemma_wrap_period(x - 1, turns_x);
    lemma_wrap_period(x, turns_x);
    lemma_wrap_period(x + 1, turns_x);
    lemma_wrap_period(y - 1, turns_y);
    lemma_wrap_period(y, turns_y);
    lemma_wrap_period(y + 1, turns_y);
    assert(x + 100 * turns_x - 1 == x - 1 + 100 * turns_x);
    assert(x + 100 * turns_x + 1 == x + 1 + 100 * turns_x);
    assert(y + 100 * turns_y - 1 == y - 1 + 100 * turns_y);
    assert(y + 100 * turns_y + 1 == y + 1 + 100 * turns_y);
}

/// The picture shows the live cells and nothing else: the square of a cell
/// is in the picture exactly if the cell is alive.
pub proof fn lemma_picture_shows_live_cells(board: Seq<Seq<bool>>, x: int, y: int)
    requires
        well_formed(board),
        0 <= x < 100,
        0 <= y < 100,
    ensures
        squares(board).contains(square_at(x, y)) <==> board[x][y],
{
    let alive = |c: (int, int)| board[c.0][c.1];
    let draw = |c: (int, int)| square_at(c.0, c.1);
    let all = cells(10000);
    let live = all.filter(alive);
    let picture = live.map_values(draw);
    assert(picture == squares(board));
    if board[x][y] {
        assert(all[100 * x + y] == (x, y));
        all.lemma_filter_contains(alive, 100 * x + y);
        let j = choose|j: int| 0 <= j < live.len() && live[j] == (x, y);
        assert(picture[j] == square_at(x, y));
    }
    if picture.contains(square_at(x, y)) {
        let j = choose|j: int| 0 <= j < picture.len() && picture[j] == square_at(x, y);
        let c = live[j];
        assert(picture[j] == square_at(c.0, c.1));
        all.lemma_filter_pred(alive, j);
        assert(live.contains(c));
        all.lemma_filter_contains_rev(alive, c);
        let i = choose|i: int| 0 <= i < all.len() && all[i] == c;
        assert(c == (i / 100, i % 100));
        assert(c == (x, y));
    }
}

} // verus!
