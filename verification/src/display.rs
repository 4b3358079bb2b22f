//! What a game looks like on its 800 by 800 pixel canvas: one filled square
//! for every live cell.

use vstd::prelude::*;
use crate::game::Game;
use crate::torus::SIZE;

verus! {

/// Width and height, in pixels, of the patch of canvas that belongs to one
/// cell.
pub const OUTER_CELLSIZE: u32 = 8;

/// Side, in pixels, of the square drawn for a live cell. It is smaller than
/// the cell's patch, so that neighbouring squares do not touch.
pub const INNER_CELLSIZE: u32 = 6;

/// A filled square on the canvas, in pixels. `left` and `top` are the
/// distances of its upper left corner from the canvas's upper left corner.
#[derive(Clone, Copy, Debug, PartialEq, Eq, Structural)]
pub struct Square {
    pub left: u32,
    pub top: u32,
    pub side: u32,
}

/// The square drawn for the cell at `(x, y)` when it is alive: it lies one
/// pixel inside the cell's patch on every side.
pub open spec fn square_at(x: int, y: int) -> Square {
    Square { left: (8 * x + 1) as u32, top: (8 * y + 1) as u32, side: 6 }
}

/// The first `n` cells of the board in drawing order: `x` by `x`, and for
/// each `x` from `y = 0` upwards.
pub open spec fn cells(n: nat) -> Seq<(int, int)> {
    Seq::new(n, |i: int| (i / 100, i % 100))
}

/// The squares drawn for the first `n` cells of `board`: one for each live
/// cell among them, in drawing order.
pub open spec fn squares_among(board: Seq<Seq<bool>>, n: nat) -> Seq<Square> {
    cells(n).filter(|c: (int, int)| board[c.0][c.1]).map_values(|c: (int, int)| square_at(c.0, c.1))
}

/// The picture of `board`: one square for each live cell, in drawing order.
pub open spec fn squares(board: Seq<Seq<bool>>) -> Seq<Square> {
    squares_among(board, 10000)
}

/// Taking one more cell into the picture adds its square if the cell is
/// alive, and nothing if it is dead.
pub proof fn lemma_squares_among_next(board: Seq<Seq<bool>>, n: nat)
    ensures
        squares_among(board, n + 1) == if board[n as int / 100][n as int % 100] {
            squares_among(board, n).push(square_at(n as int / 100, n as int % 100))
        } else {
            squares_among(board, n)
        },
{
    let alive = |c: (int, int)| board[c.0][c.1];
    let draw = |c: (int, int)| square_at(c.0, c.1);
    let more = cells(n + 1);
    assert(more.drop_last() =~= cells(n));
    assert(more.last() == (n as int / 100, n as int % 100));
    reveal(Seq::filter);
    if board[n as int / 100][n as int % 100] {
        assert(more.filter(alive) == cells(n).filter(alive).push(more.last()));
        assert(more.filter(alive).map_values(draw) =~= cells(n).filter(alive).map_values(
            draw,
        ).push(square_at(n as int / 100, n as int % 100)));
    } else {
        assert(more.filter(alive) == cells(n).filter(alive));
    }
}

impl Game {
    /// Lists what is to be drawn: the square of every live cell, in drawing
    /// order.
    pub fn render(&self) -> (picture: Vec<Square>)
        ensures
            picture@ == squares(self@),
    {
        let mut picture: Vec<Square> = Vec::new();
        assert(squares_among(self@, 0) =~= Seq::<Square>::empty()) by {
            reveal(Seq::filter);
        }
        for x in 0..100usize
            invariant
                picture@ == squares_among(self@, (x * 100) as nat),
        {
            for y in 0..100usize
                invariant
                    x < 100,
                    picture@ == squares_among(self@, (x * 100 + y) as nat),
            {
                proof {
                    lemma_squares_among_next(self@, (x * 100 + y) as nat);
                }
                if self.is_alive(x, y) {
                    let left: u32 = x as u32 * OUTER_CELLSIZE + 1;
                    let top: u32 = y as u32 * OUTER_CELLSIZE + 1;
                    picture.push(Square { left, top, side: INNER_CELLSIZE });
                }
            }
        }
        picture
    }
}

} // verus!
