//! Coordinates on the torus and the mathematical model of a board.

use vstd::prelude::*;

verus! {

/// Number of cells along each side of the board.
pub const SIZE: usize = 100;

/// The coordinate in `0..100` that `i` denotes once the board's edges are
/// glued together.
pub open spec fn wrap(i: int) -> int {
    i % 100
}

/// Folds a signed coordinate onto the board: the result is the one
/// coordinate in `0..100` that differs from `x` by a multiple of 100.
pub fn wrap_around(x: i8) -> (r: usize)
    ensures
        r == wrap(x as int),
        r < SIZE,
{
    if x < -100 {
        (x + 100 + 100) as usize
    } else if x < 0 {
        (x + 100) as usize
    } else {
        (x % 100) as usize
    }
}

/// A board has 100 rows of 100 cells each.
pub open spec fn well_formed(board: Seq<Seq<bool>>) -> bool {
    &&& board.len() == 100
    &&& forall|x: int| 0 <= x < 100 ==> (#[trigger] board[x]).len() == 100
}

/// Whether the cell that `(x, y)` denotes on the torus is alive.
pub open spec fn alive_at(board: Seq<Seq<bool>>, x: int, y: int) -> bool {
    board[wrap(x)][wrap(y)]
}

/// One for a live cell, zero for a dead one.
pub open spec fn one_if(alive: bool) -> nat {
    if alive {
        1
    } else {
        0
    }
}

/// The `k`-th of the eight steps that lead from a cell to its neighbours.
pub open spec fn offset(k: int) -> (int, int) {
    if k == 0 {
        (0, -1)
    } else if k == 1 {
        (0, 1)
    } else if k == 2 {
        (-1, -1)
    } else if k == 3 {
        (-1, 0)
    } else if k == 4 {
        (-1, 1)
    } else if k == 5 {
        (1, -1)
    } else if k == 6 {
        (1, 0)
    } else {
        (1, 1)
    }
}

/// How many of the first `k` neighbours of `(x, y)` are alive.
pub open spec fn neighbours_among(board: Seq<Seq<bool>>, x: int, y: int, k: nat) -> nat
    decreases k,
{
    if k == 0 {
        0
    } else {
        let d = offset(k - 1);
        neighbours_among(board, x, y, (k - 1) as nat) + one_if(alive_at(board, x + d.0, y + d.1))
    }
}

/// How many of the eight cells around `(x, y)` are alive, the board's edges
/// being glued to the opposite side.
pub open spec fn neighbours(board: Seq<Seq<bool>>, x: int, y: int) -> nat {
    one_if(alive_at(board, x, y - 1)) + one_if(alive_at(board, x, y + 1))
        + one_if(alive_at(board, x - 1, y - 1)) + one_if(alive_at(board, x - 1, y))
        + one_if(alive_at(board, x - 1, y + 1)) + one_if(alive_at(board, x + 1, y - 1))
        + one_if(alive_at(board, x + 1, y)) + one_if(alive_at(board, x + 1, y + 1))
}

/// The fate of a cell: it is alive in the next generation if it has exactly
/// three live neighbours, or if it is alive and has exactly two.
pub open spec fn rule(alive: bool, live_neighbours: nat) -> bool {
    live_neighbours == 3 || (alive && live_neighbours == 2)
}

/// The board one generation after `board`: the rule applied to every cell of
/// `board` at once.
pub open spec fn step(board: Seq<Seq<bool>>) -> Seq<Seq<bool>> {
    Seq::new(100, |x: int| Seq::new(100, |y: int| rule(board[x][y], neighbours(board, x, y))))
}

/// The board `n` generations after `board`.
pub open spec fn generations(board: Seq<Seq<bool>>, n: nat) -> Seq<Seq<bool>>
    decreases n,
{
    if n == 0 {
        board
    } else {
        step(generations(board, (n - 1) as nat))
    }
}

/// No cell of the board is alive.
pub open spec fn all_dead(board: Seq<Seq<bool>>) -> bool {
    forall|x: int, y: int| 0 <= x < 100 && 0 <= y < 100 ==> !(#[trigger] board[x][y])
}

/// The coordinate before `i` on the torus: the last one comes before the
/// first.
pub open spec fn before(i: int) -> int {
    if i == 0 {
        99
    } else {
        i - 1
    }
}

/// The coordinate after `i` on the torus: the first one comes after the
/// last.
pub open spec fn after(i: int) -> int {
    if i == 99 {
        0
    } else {
        i + 1
    }
}

/// Counting the eight neighbours one after the other gives `neighbours`.
pub proof fn lemma_neighbours_among_all(board: Seq<Seq<bool>>, x: int, y: int)
    ensures
        neighbours_among(board, x, y, 8) == neighbours(board, x, y),
{
    reveal_with_fuel(neighbours_among, 9);
}

} // verus!
