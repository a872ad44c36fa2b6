//! The count of live neighbours, tagged with the state of the cell itself.

use vstd::prelude::*;
use crate::board::survives;

verus! {

/// How many live neighbours a cell has been found to have so far, and
/// whether the cell itself is alive.
#[derive(Clone, Copy, Debug)]
pub enum Around {
    Live(usize),
    Dead(usize),
}

impl Around {
    /// The number of live neighbours counted so far.
    pub open spec fn count(self) -> int {
        match self {
            Around::Live(n) => n as int,
            Around::Dead(n) => n as int,
        }
    }

    /// Whether the cell in the middle is alive.
    pub open spec fn alive(self) -> bool {
        self is Live
    }

    /// The count for a cell of the given state with no neighbour seen yet.
    pub fn start(alive: bool) -> (none: Self)
        ensures
            none.count() == 0,
            none.alive() == alive,
    {
        if alive {
            Around::Live(0)
        } else {
            Around::Dead(0)
        }
    }

    /// One live neighbour more.
    pub fn incr(self) -> (more: Self)
        requires
            self.count() < usize::MAX,
        ensures
            more.count() == self.count() + 1,
            more.alive() == self.alive(),
    {
        match self {
            Around::Live(i) => Around::Live(i + 1),
            Around::Dead(i) => Around::Dead(i + 1),
        }
    }

    /// Whether the cell is alive in the next generation, once all its
    /// neighbours are counted.
    pub fn verdict(self) -> (lives: bool)
        ensures
            lives == survives(self.alive(), self.count()),
    {
        match self {
            Around::Live(i) => match i {
                2 | 3 => true,
                _ => false,
            },
            Around::Dead(i) => match i {
                3 => true,
                _ => false,
            },
        }
    }
}

} // verus!
