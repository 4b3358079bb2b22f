//! The game: a board, the scratch board on which the next generation is
//! staged, and the step from one generation to the next.

use vstd::prelude::*;
use crate::random::{gen_range, thread_rng};
use crate::torus::{all_dead, lemma_neighbours_among_all, neighbours, neighbours_among, offset,
    rule, step, well_formed, wrap_around, SIZE};

verus! {

/// The steps from a cell to its eight neighbours.
pub const OFFSETS: [(i8, i8); 8] = [
    (0, -1),
    (0, 1),
    (-1, -1),
    (-1, 0),
    (-1, 1),
    (1, -1),
    (1, 0),
    (1, 1),
];

/// A key of the keyboard, as far as the game tells keys apart.
#[derive(Clone, Copy, Debug, PartialEq, Eq, Structural)]
pub enum Key {
    /// The key that seeds the board anew.
    R,
    /// The key that places a glider.
    S,
    /// Any other key.
    Other,
}

/// Whether `(x, y)` is one of the five cells of the glider that a key press
/// places.
pub open spec fn glider_cell(x: int, y: int) -> bool {
    ||| (x == 54 && y == 53)
    ||| (x == 55 && y == 54)
    ||| (x == 53 && y == 55)
    ||| (x == 54 && y == 55)
    ||| (x == 55 && y == 55)
}

/// `board` with the glider's five cells alive.
pub open spec fn with_glider(board: Seq<Seq<bool>>) -> Seq<Seq<bool>> {
    Seq::new(100, |x: int| Seq::new(100, |y: int| board[x][y] || glider_cell(x, y)))
}

/// A game in progress.
pub struct Game {
    state: [[bool; 100]; 100],
    next: [[bool; 100]; 100],
}

impl View for Game {
    type V = Seq<Seq<bool>>;

    /// The board: the entry at `[x][y]` says whether the cell at `(x, y)` is
    /// alive.
    closed spec fn view(&self) -> Seq<Seq<bool>> {
        Seq::new(100, |x: int| self.state[x]@)
    }
}

impl Game {
    /// The scratch board, on which the next generation is staged cell by
    /// cell.
    pub closed spec fn staged(&self) -> Seq<Seq<bool>> {
        Seq::new(100, |x: int| self.next[x]@)
    }

    /// Both boards of a game have the full 100 by 100 cells, whatever has
    /// been done to the game.
    pub proof fn lemma_well_formed(&self)
        ensures
            well_formed(self@),
            well_formed(self.staged()),
    {
    }

    /// A game whose cells are all dead.
    pub fn new() -> (game: Game)
        ensures
            well_formed(game@),
            well_formed(game.staged()),
            all_dead(game@),
            all_dead(game.staged()),
    {
        Game { state: [[false; 100]; 100], next: [[false; 100]; 100] }
    }

    /// Whether the cell at `(x, y)` is alive.
    pub fn is_alive(&self, x: usize, y: usize) -> (alive: bool)
        requires
            x < SIZE,
            y < SIZE,
        ensures
            alive == self@[x as int][y as int],
    {
        self.state[x][y]
    }

    /// Whether the cell at `(x, y)` of the scratch board is alive.
    pub fn is_staged(&self, x: usize, y: usize) -> (alive: bool)
        requires
            x < SIZE,
            y < SIZE,
        ensures
            alive == self.staged()[x as int][y as int],
    {
        self.next[x][y]
    }

    /// Counts the live cells among the eight around `(x, y)`, across the
    /// edges of the board where the cell lies on one.
    pub fn live_neighbours(&self, x: usize, y: usize) -> (count: u8)
        requires
            x < SIZE,
            y < SIZE,
        ensures
            count == neighbours(self@, x as int, y as int),
    {
        let mut count: u8 = 0;
        for k in 0..8usize
            invariant
                x < SIZE,
                y < SIZE,
                count == neighbours_among(self@, x as int, y as int, k as nat),
                count <= k,
        {
            let (dx, dy) = OFFSETS[k];
            assert((dx as int, dy as int) == offset(k as int));
            let x2: usize = wrap_around(x as i8 + dx);
            let y2: usize = wrap_around(y as i8 + dy);
            if self.state[x2][y2] {
                count += 1;
            }
        }
        proof {
            lemma_neighbours_among_all(self@, x as int, y as int);
        }
        count
    }

    /// Makes the cell at `(x, y)` alive or dead and leaves every other cell
    /// as it is.
    pub fn set_cell(&mut self, x: usize, y: usize, alive: bool)
        requires
            x < SIZE,
            y < SIZE,
        ensures
            final(self)@ == old(self)@.update(
                x as int,
                old(self)@[x as int].update(y as int, alive),
            ),
            final(self).staged() == old(self).staged(),
    {
        self.state[x][y] = alive;
        assert(self@ =~~= old(self)@.update(
            x as int,
            old(self)@[x as int].update(y as int, alive),
        ));
        assert(self.staged() =~~= old(self).staged());
    }

    /// Stages the fate of one cell: writes to the scratch board whether the
    /// cell at `(x, y)` is alive in the next generation. The board itself is
    /// only read.
    pub fn update_cell(&mut self, x: usize, y: usize)
        requires
            x < SIZE,
            y < SIZE,
        ensures
            final(self)@ == old(self)@,
            final(self).staged() == old(self).staged().update(
                x as int,
                old(self).staged()[x as int].update(
                    y as int,
                    rule(old(self)@[x as int][y as int], neighbours(old(self)@, x as int, y as int)),
                ),
            ),
    {
        let count: u8 = self.live_neighbours(x, y);
        if self.state[x][y] {
            self.next[x][y] = count == 2 || count == 3;
        } else {
            self.next[x][y] = count == 3;
        }
        assert(self@ =~~= old(self)@);
        assert(self.staged() =~~= old(self).staged().update(
            x as int,
            old(self).staged()[x as int].update(
                y as int,
                rule(old(self)@[x as int][y as int], neighbours(old(self)@, x as int, y as int)),
            ),
        ));
    }

    /// Advances the game by one generation: every cell meets its fate at
    /// once, judged by the board as it was before the call. The scratch board
    /// is left equal to the new board.
    pub fn update(&mut self)
        ensures
            final(self)@ == step(old(self)@),
            final(self).staged() == final(self)@,
            forall|x: int, y: int|
                0 <= x < 100 && 0 <= y < 100 && neighbours(old(self)@, x, y) == 3
                    ==> final(self)@[x][y],
    {
        self.next = [[false; 100]; 100];
        for x in 0..100usize
            invariant
                self@ == old(self)@,
                forall|i: int, j: int|
                    0 <= i < x && 0 <= j < 100 ==> self.staged()[i][j] == rule(
                        old(self)@[i][j],
                        neighbours(old(self)@, i, j),
                    ),
        {
            for y in 0..100usize
                invariant
                    x < 100,
                    self@ == old(self)@,
                    forall|i: int, j: int|
                        0 <= i < x && 0 <= j < 100 ==> self.staged()[i][j] == rule(
                            old(self)@[i][j],
                            neighbours(old(self)@, i, j),
                        ),
                    forall|j: int|
                        0 <= j < y ==> self.staged()[x as int][j] == rule(
                            old(self)@[x as int][j],
                            neighbours(old(self)@, x as int, j),
                        ),
            {
                proof {
                    self.lemma_well_formed();
                }
                self.update_cell(x, y);
            }
        }
        self.state = self.next;
        proof {
            self.lemma_well_formed();
        }
        assert(self@ =~~= step(old(self)@));
        assert(self.staged() =~~= self@);
    }

    /// Seeds one cell from a number drawn for it: the cell at `(x, y)` is
    /// alive if the number is 0, and dead otherwise. Of three equally likely
    /// numbers, one makes it alive.
    pub fn seed_cell(&mut self, x: usize, y: usize, draw: i32)
        requires
            x < SIZE,
            y < SIZE,
        ensures
            final(self)@ == old(self)@.update(
                x as int,
                old(self)@[x as int].update(y as int, draw == 0),
            ),
            final(self).staged() == old(self).staged(),
    {
        self.set_cell(x, y, draw == 0);
    }

    /// Seeds the whole board at random: for each cell one of the numbers 0,
    /// 1 and 2 is drawn from the thread's generator, and the cell is seeded
    /// from it. What the board holds afterwards is up to chance; the scratch
    /// board is untouched.
    pub fn initialise(&mut self)
        ensures
            well_formed(final(self)@),
            final(self).staged() == old(self).staged(),
    {
        let mut rng = thread_rng();
        for x in 0..100usize
            invariant
                self.staged() == old(self).staged(),
        {
            for y in 0..100usize
                invariant
                    x < 100,
                    self.staged() == old(self).staged(),
            {
                let draw: i32 = gen_range(&mut rng, 0, 3);
                self.seed_cell(x, y, draw);
            }
        }
    }

    /// Places a glider in the middle of the board: its five cells become
    /// alive, and every other cell stays as it is.
    pub fn glider(&mut self)
        ensures
            final(self)@ == with_glider(old(self)@),
            final(self).staged() == old(self).staged(),
    {
        self.state[54][53] = true;
        self.state[55][54] = true;
        self.state[53][55] = true;
        self.state[54][55] = true;
        self.state[55][55] = true;
        assert(self@ =~~= with_glider(old(self)@));
        assert(self.staged() =~~= old(self).staged());
    }

    /// Answers a key press. `R` seeds the board anew at random, `S` places a
    /// glider, and any other key changes nothing. The result says whether the
    /// board was seeded anew.
    pub fn press(&mut self, key: Key) -> (reset: bool)
        ensures
            reset == (key == Key::R),
            key == Key::S ==> final(self)@ == with_glider(old(self)@),
            key == Key::Other ==> final(self)@ == old(self)@,
            well_formed(final(self)@),
            final(self).staged() == old(self).staged(),
    {
        proof {
            self.lemma_well_formed();
        }
        match key {
            Key::R => {
                self.initialise();
                true
            },
            Key::S => {
                self.glider();
                false
            },
            Key::Other => false,
        }
    }
}

} // verus!
