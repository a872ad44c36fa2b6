//! The mathematical model of a plane: a bounded Life board, the generation
//! before it, and the rule that leads from one generation to the next.

use vstd::prelude::*;
use crate::layout::in_grid;
use crate::seed::seeded_bool;

verus! {

/// A colour with eight bits for each of red, green and blue.
#[derive(Clone, Copy, Debug, PartialEq, Eq, Structural)]
pub struct Rgb {
    pub r: u8,
    pub g: u8,
    pub b: u8,
}

/// What a plane stands for. `now[y][x]` tells whether cell `(x, y)` is alive;
/// `before[y][x]` tells whether it was alive in the generation that the last
/// advance started from. Outside the grid every cell is dead.
pub struct Board {
    pub width: nat,
    pub height: nat,
    pub now: Seq<Seq<bool>>,
    pub before: Seq<Seq<bool>>,
    pub magnification: int,
    pub color: Rgb,
}

/// The rule B3/S23: a live cell stays alive with two or three live
/// neighbours, a dead cell comes alive with exactly three.
pub open spec fn survives(live: bool, around: int) -> bool {
    if live {
        around == 2 || around == 3
    } else {
        around == 3
    }
}

/// The horizontal offset of the `k`-th neighbour of a cell. The neighbours
/// are counted row by row, from the upper left to the lower right.
pub open spec fn ring_dx(k: int) -> int {
    if k == 0 || k == 3 || k == 5 {
        -1
    } else if k == 1 || k == 6 {
        0
    } else {
        1
    }
}

/// The vertical offset of the `k`-th neighbour of a cell.
pub open spec fn ring_dy(k: int) -> int {
    if k < 3 {
        -1
    } else if k < 5 {
        0
    } else {
        1
    }
}

/// A grid of `height` rows of `width` cells.
pub open spec fn is_grid(cells: Seq<Seq<bool>>, width: nat, height: nat) -> bool {
    &&& cells.len() == height
    &&& forall|y: int| 0 <= y < height ==> (#[trigger] cells[y]).len() == width
}

impl Board {
    /// Both generations have the shape of the grid.
    pub open spec fn wf(self) -> bool {
        &&& is_grid(self.now, self.width, self.height)
        &&& is_grid(self.before, self.width, self.height)
    }

    /// Whether `(x, y)` is a cell of the grid.
    pub open spec fn has(self, x: int, y: int) -> bool {
        in_grid(self.width as int, self.height as int, x, y)
    }

    /// Whether `(x, y)` is a live cell. Outside the grid nothing lives.
    pub open spec fn live(self, x: int, y: int) -> bool {
        self.has(x, y) && self.now[y][x]
    }

    /// Whether `(x, y)` was a live cell in the generation before.
    pub open spec fn was_live(self, x: int, y: int) -> bool {
        self.has(x, y) && self.before[y][x]
    }

    /// One if the `k`-th neighbour of `(x, y)` is alive, zero if not.
    pub open spec fn neighbour(self, x: int, y: int, k: int) -> int {
        if self.live(x + ring_dx(k), y + ring_dy(k)) {
            1
        } else {
            0
        }
    }

    /// The number of live cells among the first `k` neighbours of `(x, y)`.
    pub open spec fn tally(self, x: int, y: int, k: int) -> int {
        (if k > 0 { self.neighbour(x, y, 0) } else { 0 })
        + (if k > 1 { self.neighbour(x, y, 1) } else { 0 })
        + (if k > 2 { self.neighbour(x, y, 2) } else { 0 })
        + (if k > 3 { self.neighbour(x, y, 3) } else { 0 })
        + (if k > 4 { self.neighbour(x, y, 4) } else { 0 })
        + (if k > 5 { self.neighbour(x, y, 5) } else { 0 })
        + (if k > 6 { self.neighbour(x, y, 6) } else { 0 })
        + (if k > 7 { self.neighbour(x, y, 7) } else { 0 })
    }

    /// The number of live cells among the eight neighbours of `(x, y)`.
    pub open spec fn around(self, x: int, y: int) -> int {
        self.tally(x, y, 8)
    }

    /// Whether `(x, y)` is a live cell of the next generation.
    pub open spec fn lives_on(self, x: int, y: int) -> bool {
        self.has(x, y) && survives(self.live(x, y), self.around(x, y))
    }

    /// The board after one advance: every cell follows the rule, read from
    /// this generation alone, and this generation becomes the one before.
    pub open spec fn step(self) -> Board {
        Board {
            now: Seq::new(
                self.height,
                |y: int| Seq::new(self.width, |x: int| self.lives_on(x, y)),
            ),
            before: self.now,
            ..self
        }
    }

    /// The board with cell `(x, y)` set to `value`; the same board if
    /// `(x, y)` is no cell of the grid.
    pub open spec fn with_cell(self, x: int, y: int, value: bool) -> Board {
        if self.has(x, y) {
            Board { now: self.now.update(y, self.now[y].update(x, value)), ..self }
        } else {
            self
        }
    }

    /// What there is to redraw at `(x, y)`: nothing where the cell is as it
    /// was in the generation before, else the cell's new state. Outside the
    /// grid the answer is always "dead".
    pub open spec fn change(self, x: int, y: int) -> Option<bool> {
        if !self.has(x, y) {
            Some(false)
        } else if self.live(x, y) == self.was_live(x, y) {
            None
        } else {
            Some(self.live(x, y))
        }
    }

    /// The board seeded with `seed`: the cells are filled row by row, each
    /// row from left to right, with the booleans that belong to the seed.
    /// The generation before stays.
    pub open spec fn seeded(self, seed: u64) -> Board {
        Board {
            now: Seq::new(
                self.height,
                |y: int|
                    Seq::new(
                        self.width,
                        |x: int| seeded_bool(seed, (y * self.width + x) as nat),
                    ),
            ),
            ..self
        }
    }

    /// The board of the given size on which nothing lives or ever lived.
    pub open spec fn blank(width: nat, height: nat, magnification: int, color: Rgb) -> Board {
        Board {
            width,
            height,
            now: Seq::new(height, |y: int| Seq::new(width, |x: int| false)),
            before: Seq::new(height, |y: int| Seq::new(width, |x: int| false)),
            magnification,
            color,
        }
    }
}

/// The rule reads the cells of this generation and the size of the grid,
/// and nothing else of a board.
pub proof fn lemma_lives_on_reads_now(a: Board, b: Board, x: int, y: int)
    requires
        a.now == b.now,
        a.width == b.width,
        a.height == b.height,
    ensures
        a.lives_on(x, y) == b.lives_on(x, y),
{
}

} // verus!
