//! The plane: two fixed-capacity buffers of cells, each a grid inside a ring
//! of border slots that are always dead.

use vstd::prelude::*;
use crate::board::{lemma_lives_on_reads_now, ring_dx, ring_dy, Board, Rgb};
use crate::layout::{
    border_dead, in_frame, lemma_cell_slot, lemma_slot_in_storage, lemma_slot_shift,
    lemma_store_update, lemma_write_next, ring_slot, slot, slots, stored_grid, written,
};
use crate::rule::Around;

verus! {

/// A Life board of `width` by `height` cells in storage of `N` slots.
pub struct Plane<const N: usize> {
    board: [bool; N],
    next: [bool; N],
    width: usize,
    height: usize,
    color: Rgb,
    magnification: i32,
}

/// The capacity that a plane must have to be made: one slot more than the
/// grid in each direction.
pub open spec fn fits(width: int, height: int, capacity: int) -> bool {
    (width + 1) * (height + 1) <= capacity
}

impl<const N: usize> View for Plane<N> {
    type V = Board;

    closed spec fn view(&self) -> Board {
        Board {
            width: self.width as nat,
            height: self.height as nat,
            now: stored_grid(self.board@, self.width as nat, self.height as nat),
            before: stored_grid(self.next@, self.width as nat, self.height as nat),
            magnification: self.magnification as int,
            color: self.color,
        }
    }
}

impl<const N: usize> Plane<N> {
    /// The buffer of the generation that lives now, slot by slot.
    pub closed spec fn current(&self) -> Seq<bool> {
        self.board@
    }

    /// The other buffer, slot by slot: the generation that the last advance
    /// started from.
    pub closed spec fn spare(&self) -> Seq<bool> {
        self.next@
    }

    /// A plane is well formed if its capacity is one that it can be made
    /// with, each buffer has `N` slots and holds its generation of the
    /// board, each cell in its slot, and every other slot of both buffers
    /// is dead.
    pub open spec fn wf(&self) -> bool {
        &&& self@.wf()
        &&& fits(self@.width as int, self@.height as int, N as int)
        &&& self.current().len() == N
        &&& self.spare().len() == N
        &&& self@.now == stored_grid(self.current(), self@.width, self@.height)
        &&& self@.before == stored_grid(self.spare(), self@.width, self@.height)
        &&& border_dead(self.current(), self@.width, self@.height)
        &&& border_dead(self.spare(), self@.width, self@.height)
    }

    /// Whether every cell and every slot of the border lies inside the
    /// storage. A grid without cells needs no storage.
    pub open spec fn padded(&self) -> bool {
        self@.width == 0 || self@.height == 0 || slots(self@.width as int, self@.height as int)
            <= N
    }

    /// A plane of `width` by `height` dead cells, drawn with one pixel to the
    /// cell, if `N` slots are enough for it.
    pub fn new(width: usize, height: usize) -> (made: Option<Self>)
        ensures
            made is Some <==> fits(width as int, height as int, N as int),
            made matches Some(plane) ==> plane.wf() && plane@ == Board::blank(
                width as nat,
                height as nat,
                1,
                Rgb { r: 0, g: 255, b: 0 },
            ),
            made matches Some(plane) ==> forall|i: int|
                0 <= i < N ==> !plane.current()[i] && !plane.spare()[i],
    {
        Self::from_magnification(width, height, 1)
    }

    /// A plane of `width` by `height` dead cells, drawn with `magnification`
    /// pixels to the side of a cell, if `N` slots are enough for it.
    pub fn from_magnification(width: usize, height: usize, magnification: i32) -> (made: Option<
        Self,
    >)
        ensures
            made is Some <==> fits(width as int, height as int, N as int),
            made matches Some(plane) ==> plane.wf() && plane@ == Board::blank(
                width as nat,
                height as nat,
                magnification as int,
                Rgb { r: 0, g: 255, b: 0 },
            ),
            made matches Some(plane) ==> forall|i: int|
                0 <= i < N ==> !plane.current()[i] && !plane.spare()[i],
    {
        if !Self::has_room(width, height) {
            return None;
        }
        let plane = Plane {
            board: [false;N],
            next: [false;N],
            width,
            height,
            color: Rgb { r: 0, g: 255, b: 0 },
            magnification,
        };
        proof {
            let blank = Board::blank(
                width as nat,
                height as nat,
                magnification as int,
                Rgb { r: 0, g: 255, b: 0 },
            );
            assert(plane@.now =~~= blank.now);
            assert(plane@.before =~~= blank.before);
        }
        Some(plane)
    }

    /// The number of cells in a row.
    pub fn width(&self) -> (width: usize)
        ensures
            width == self@.width,
    {
        self.width
    }

    /// The number of rows.
    pub fn height(&self) -> (height: usize)
        ensures
            height == self@.height,
    {
        self.height
    }

    /// The number of pixels to the side of a cell.
    pub fn magnification(&self) -> (magnification: i32)
        ensures
            magnification == self@.magnification,
    {
        self.magnification
    }

    /// The colour of a live cell.
    pub fn color(&self) -> (color: Rgb)
        ensures
            color == self@.color,
    {
        self.color
    }

    /// Whether the storage holds every cell and the whole border, as the
    /// operations on cells need it.
    pub fn is_padded(&self) -> (padded: bool)
        ensures
            padded == self.padded(),
    {
        if self.width == 0 || self.height == 0 {
            return true;
        }
        let need = match (self.width.checked_add(2), self.height.checked_add(2)) {
            (Some(columns), Some(rows)) => columns.checked_mul(rows),
            _ => None,
        };
        proof {
            assert((self.width + 2) * (self.height + 2) >= self.width + 2 && (self.width + 2) * (
            self.height + 2) >= self.height + 2) by (nonlinear_arith)
                requires
                    self.width >= 0,
                    self.height >= 0,
            ;
        }
        match need {
            Some(need) => need <= N,
            None => false,
        }
    }

    /// The storage slot of cell `(x, y)`.
    pub fn index(&self, x: usize, y: usize) -> (i: usize)
        requires
            self.wf(),
            self.padded(),
            self@.has(x as int, y as int),
        ensures
            i == slot(self@.width as int, x as int, y as int),
            i < N,
    {
        proof {
            self.lemma_frame_stored(x as int, y as int);
            self.lemma_row_stored();
            assert(0 <= (1 + y) * (self.width + 2) <= slot(
                self.width as int,
                x as int,
                y as int,
            )) by (nonlinear_arith)
                requires
                    0 <= y,
                    0 <= x,
                    0 <= self.width,
            ;
        }
        (1 + y) * (self.width + 2) + 1 + x
    }

    /// Whether cell `(x, y)` is alive. Outside the grid every cell is dead.
    pub fn point(&self, x: usize, y: usize) -> (live: bool)
        requires
            self.wf(),
            self@.has(x as int, y as int) ==> self.padded(),
        ensures
            live == self@.live(x as int, y as int),
            !self@.has(x as int, y as int) ==> !live,
            self@.has(x as int, y as int) ==> live == self.current()[slot(
                self@.width as int,
                x as int,
                y as int,
            )],
    {
        if x >= self.width || y >= self.height {
            return false;
        }
        self.board[self.index(x, y)]
    }

    /// What there is to redraw at `(x, y)` since the last advance: `None`
    /// where the cell is as it was before, else the cell's state now.
    /// Outside the grid the answer is `Some(false)`.
    pub fn changed(&self, x: usize, y: usize) -> (change: Option<bool>)
        requires
            self.wf(),
            self@.has(x as int, y as int) ==> self.padded(),
        ensures
            change == self@.change(x as int, y as int),
    {
        if x >= self.width || y >= self.height {
            return Some(false);
        }
        let index = self.index(x, y);
        if self.board[index] != self.next[index] {
            return Some(self.board[index]);
        }
        None
    }

    /// Sets cell `(x, y)` to `value`. Outside the grid nothing changes.
    pub fn set(&mut self, x: usize, y: usize, value: bool)
        requires
            old(self).wf(),
            old(self)@.has(x as int, y as int) ==> old(self).padded(),
        ensures
            final(self).wf(),
            final(self)@ == old(self)@.with_cell(x as int, y as int, value),
            !old(self)@.has(x as int, y as int) ==> *final(self) == *old(self),
            old(self)@.has(x as int, y as int) ==> final(self).current() == old(
                self,
            ).current().update(slot(old(self)@.width as int, x as int, y as int), value),
            final(self).spare() == old(self).spare(),
    {
        if x >= self.width || y >= self.height {
            return ;
        }
        let index = self.index(x, y);
        self.board[index] = value;
        proof {
            let width = self.width as nat;
            let height = self.height as nat;
            lemma_cell_slot(width as int, height as int, x as int, y as int);
            lemma_store_update(old(self).board@, width, height, x as int, y as int, value);
        }
    }

    /// The storage slots of the eight neighbours of cell `(x, y)`, row by
    /// row from the upper left to the lower right. The border makes each of
    /// them a slot of the storage, also for a cell at the edge of the grid.
    pub fn around_indices(&self, x: usize, y: usize) -> (around: [usize; 8])
        requires
            self.wf(),
            self.padded(),
            self@.has(x as int, y as int),
        ensures
            forall|k: int|
                0 <= k < 8 ==> {
                    &&& #[trigger] around[k] == ring_slot(self@.width as int, x as int, y as int, k)
                    &&& around[k] == slot(self@.width as int, x + ring_dx(k), y + ring_dy(k))
                    &&& around[k] < N
                },
    {
        let index = self.index(x, y);
        proof {
            self.lemma_row_stored();
            self.lemma_ring_slot(x as int, y as int, 0);
            self.lemma_ring_slot(x as int, y as int, 1);
            self.lemma_ring_slot(x as int, y as int, 2);
            self.lemma_ring_slot(x as int, y as int, 3);
            self.lemma_ring_slot(x as int, y as int, 4);
            self.lemma_ring_slot(x as int, y as int, 5);
            self.lemma_ring_slot(x as int, y as int, 6);
            self.lemma_ring_slot(x as int, y as int, 7);
        }
        let b1 = index - (self.width + 2);
        let a1 = index + (self.width + 2);
        [b1 - 1, b1, b1 + 1, index - 1, index + 1, a1 - 1, a1, a1 + 1]
    }

    /// Whether cell `(x, y)` is alive in the next generation: a live cell
    /// with two or three live neighbours, or a dead one with exactly three.
    pub fn is_live(&self, x: usize, y: usize) -> (lives: bool)
        requires
            self.wf(),
            self.padded(),
            self@.has(x as int, y as int),
        ensures
            lives == self@.lives_on(x as int, y as int),
    {
        let now = self.point(x, y);
        let mut live_count = Around::start(now);
        let around_indices = self.around_indices(x, y);
        proof {
            assert forall|k: int| 0 <= k < 8 implies (#[trigger] around_indices[k]) < N
                && self.board@[around_indices[k] as int] == self@.live(
                x + ring_dx(k),
                y + ring_dy(k),
            ) by {
                self.lemma_ring_slot(x as int, y as int, k);
            }
        }
        for i in 0..8
            invariant
                self.wf(),
                live_count.alive() == now,
                live_count.count() == self@.tally(x as int, y as int, i as int),
                forall|k: int|
                    0 <= k < 8 ==> (#[trigger] around_indices[k]) < N
                        && self.board@[around_indices[k] as int] == self@.live(
                        x + ring_dx(k),
                        y + ring_dy(k),
                    ),
        {
            let index = around_indices[i];
            if self.board[index] {
                live_count = live_count.incr();
            }
        }
        live_count.verdict()
    }

    /// Advances the plane by one generation. Every cell follows the rule,
    /// read from the generation before the call alone; that generation is
    /// kept as the one before.
    pub fn tick(&mut self)
        requires
            old(self).wf(),
            old(self).padded(),
        ensures
            final(self).wf(),
            final(self)@ == old(self)@.step(),
            final(self).spare() == old(self).current(),
    {
        let width = self.width;
        let height = self.height;
        let ghost want = old(self)@.step().now;
        for y in 0..height
            invariant
                self.wf(),
                self.padded(),
                self.width == width == old(self).width,
                self.height == height == old(self).height,
                self.board == old(self).board,
                self.color == old(self).color,
                self.magnification == old(self).magnification,
                want == old(self)@.step().now,
                written(self.next@, want, width as int, width as int, y as int),
        {
            for x in 0..width
                invariant
                    y < height,
                    self.wf(),
                    self.padded(),
                    self.width == width == old(self).width,
                    self.height == height == old(self).height,
                    self.board == old(self).board,
                    self.color == old(self).color,
                    self.magnification == old(self).magnification,
                    want == old(self)@.step().now,
                    written(self.next@, want, width as int, width as int, y as int),
                    written(self.next@, want, width as int, x as int, y + 1),
            {
                let index = self.index(x, y);
                let lives = self.is_live(x, y);
                let ghost held = self.next@;
                proof {
                    lemma_lives_on_reads_now(self@, old(self)@, x as int, y as int);
                    lemma_cell_slot(width as int, height as int, x as int, y as int);
                }
                self.next[index] = lives;
                proof {
                    lemma_write_next(held, want, width as int, height as int, x as int, y as int);
                }
            }
        }
        core::mem::swap(&mut self.board, &mut self.next);
        proof {
            assert forall|b: int| 0 <= b < height implies #[trigger] self@.now[b] =~= want[b] by {
                assert forall|a: int| 0 <= a < width implies self@.now[b][a] == want[b][a] by {
                    lemma_slot_in_storage(width as int, height as int, a, b);
                    assert(self.board@[slot(width as int, a, b)] == want[b][a]);
                }
            }
            assert(self@.now =~= want);
            assert(self@.before == old(self)@.now);
        }
    }

    /// In a padded plane the slot of every cell of the frame holds whether
    /// that cell is alive: the border is dead, as is all that lies outside
    /// the grid.
    proof fn lemma_slot_holds_cell(&self, x: int, y: int)
        requires
            self.wf(),
            self.padded(),
            self.width > 0,
            self.height > 0,
            in_frame(self.width as int, self.height as int, x, y),
        ensures
            0 <= slot(self.width as int, x, y) < N,
            self.board@[slot(self.width as int, x, y)] == self@.live(x, y),
    {
        self.lemma_frame_stored(x, y);
        lemma_cell_slot(self.width as int, self.height as int, x, y);
    }

    /// The slot of the `k`-th neighbour of a cell lies `ring_dy(k)` rows and
    /// `ring_dx(k)` columns from the slot of the cell, inside the storage,
    /// and holds whether that neighbour is alive.
    proof fn lemma_ring_slot(&self, x: int, y: int, k: int)
        requires
            self.wf(),
            self.padded(),
            self@.has(x, y),
            0 <= k < 8,
        ensures
            0 <= slot(self.width as int, x + ring_dx(k), y + ring_dy(k)) < N,
            slot(self.width as int, x + ring_dx(k), y + ring_dy(k)) == ring_slot(
                self.width as int,
                x,
                y,
                k,
            ),
            self.board@[slot(self.width as int, x + ring_dx(k), y + ring_dy(k))] == self@.live(
                x + ring_dx(k),
                y + ring_dy(k),
            ),
    {
        self.lemma_slot_holds_cell(x + ring_dx(k), y + ring_dy(k));
        lemma_slot_shift(self.width as int, x, y, ring_dx(k), ring_dy(k));
    }

    /// A padded plane with cells stores at least one whole row.
    proof fn lemma_row_stored(&self)
        requires
            self.padded(),
            self.width > 0,
            self.height > 0,
        ensures
            self.width + 2 <= N,
    {
        assert(self.width + 2 <= slots(self.width as int, self.height as int))
            by (nonlinear_arith)
            requires
                0 <= self.width,
                0 <= self.height,
        ;
    }

    /// Every cell and every slot of the border of a padded plane lies
    /// inside the storage.
    proof fn lemma_frame_stored(&self, x: int, y: int)
        requires
            self.wf(),
            self.padded(),
            -1 <= x <= self.width,
            -1 <= y <= self.height,
            self.width > 0,
            self.height > 0,
        ensures
            0 <= slot(self.width as int, x, y) < N,
    {
        lemma_slot_in_storage(self.width as int, self.height as int, x, y);
    }

    /// Whether `N` slots are enough to make a plane of `width` by `height`
    /// cells.
    fn has_room(width: usize, height: usize) -> (enough: bool)
        ensures
            enough == fits(width as int, height as int, N as int),
    {
        let need = match (width.checked_add(1), height.checked_add(1)) {
            (Some(columns), Some(rows)) => columns.checked_mul(rows),
            _ => None,
        };
        proof {
            assert((width + 1) * (height + 1) >= width + 1 && (width + 1) * (height + 1) >= height
                + 1) by (nonlinear_arith)
                requires
                    width >= 0,
                    height >= 0,
            ;
        }
        match need {
            Some(need) => need <= N,
            None => false,
        }
    }
}

} // verus!
