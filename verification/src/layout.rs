//! The storage layout: a grid of `width` by `height` cells laid out row by
//! row inside a ring of border slots, one slot wide on every side.

use vstd::prelude::*;
use vstd::arithmetic::div_mod::lemma_fundamental_div_mod_converse;

verus! {

/// The storage slot of cell `(x, y)` in a grid `width` cells wide.
pub open spec fn slot(width: int, x: int, y: int) -> int {
    (y + 1) * (width + 2) + (x + 1)
}

/// The number of slots that a grid with its border takes.
pub open spec fn slots(width: int, height: int) -> int {
    (width + 2) * (height + 2)
}

/// Whether `(x, y)` is a cell of the grid.
pub open spec fn in_grid(width: int, height: int, x: int, y: int) -> bool {
    0 <= x < width && 0 <= y < height
}

/// Whether `(x, y)` is a cell of the grid or a slot of its border.
pub open spec fn in_frame(width: int, height: int, x: int, y: int) -> bool {
    -1 <= x <= width && -1 <= y <= height
}

/// Whether slot `i` holds a cell of the grid, and not a piece of the border
/// or of the unused tail of the storage.
pub open spec fn is_cell_slot(width: int, height: int, i: int) -> bool {
    let row = i / (width + 2);
    let col = i % (width + 2);
    1 <= row <= height && 1 <= col <= width
}

/// A slot of the frame lies in the stored row `y + 1`, at column `x + 1`.
pub proof fn lemma_slot_place(width: int, x: int, y: int)
    requires
        0 <= width,
        -1 <= x <= width,
    ensures
        slot(width, x, y) / (width + 2) == y + 1,
        slot(width, x, y) % (width + 2) == x + 1,
{
    lemma_fundamental_div_mod_converse(slot(width, x, y), width + 2, y + 1, x + 1);
}

/// Every slot of the frame lies inside the first `slots(width, height)`
/// slots of the storage.
pub proof fn lemma_slot_in_storage(width: int, height: int, x: int, y: int)
    requires
        0 <= width,
        0 <= height,
        in_frame(width, height, x, y),
    ensures
        0 <= slot(width, x, y) < slots(width, height),
{
    assert(0 <= (y + 1) * (width + 2) <= (height + 1) * (width + 2)) by (nonlinear_arith)
        requires
            0 <= y + 1 <= height + 1,
            0 <= width,
    ;
    assert((width + 2) * (height + 2) == (height + 1) * (width + 2) + (width + 2))
        by (nonlinear_arith);
}

/// Among the slots of the frame, exactly the cells of the grid have a cell
/// slot: the border has none.
pub proof fn lemma_cell_slot(width: int, height: int, x: int, y: int)
    requires
        0 <= width,
        in_frame(width, height, x, y),
    ensures
        is_cell_slot(width, height, slot(width, x, y)) == in_grid(width, height, x, y),
{
    lemma_slot_place(width, x, y);
}

/// Two cells of the frame share a slot only if they are the same cell.
pub proof fn lemma_slot_injective(width: int, x1: int, y1: int, x2: int, y2: int)
    requires
        0 <= width,
        -1 <= x1 <= width,
        -1 <= x2 <= width,
        slot(width, x1, y1) == slot(width, x2, y2),
    ensures
        x1 == x2,
        y1 == y2,
{
    lemma_slot_place(width, x1, y1);
    lemma_slot_place(width, x2, y2);
}

/// Moving by `(dx, dy)` on the grid moves the slot by `dy` rows and `dx`
/// columns of the storage.
pub proof fn lemma_slot_shift(width: int, x: int, y: int, dx: int, dy: int)
    ensures
        slot(width, x + dx, y + dy) == slot(width, x, y) + dy * (width + 2) + dx,
{
    assert((y + dy + 1) * (width + 2) == (y + 1) * (width + 2) + dy * (width + 2))
        by (nonlinear_arith);
}

/// The slot of the `k`-th of the eight neighbours of cell `(x, y)`, counted
/// row by row from the upper left to the lower right: a row of the storage
/// above the slot of the cell, beside it or a row below, and one slot to the
/// left, at the same column or one slot to the right.
pub open spec fn ring_slot(width: int, x: int, y: int, k: int) -> int {
    let row = if k < 3 {
        slot(width, x, y) - (width + 2)
    } else if k < 5 {
        slot(width, x, y)
    } else {
        slot(width, x, y) + (width + 2)
    };
    if k == 0 || k == 3 || k == 5 {
        row - 1
    } else if k == 1 || k == 6 {
        row
    } else {
        row + 1
    }
}

/// What the storage holds for cell `(x, y)`: a cell whose slot lies beyond
/// the storage is dead.
pub open spec fn stored_cell(store: Seq<bool>, width: nat, x: int, y: int) -> bool {
    let i = slot(width as int, x, y);
    0 <= i < store.len() && store[i]
}

/// The grid that the storage holds.
pub open spec fn stored_grid(store: Seq<bool>, width: nat, height: nat) -> Seq<Seq<bool>> {
    Seq::new(height, |y: int| Seq::new(width, |x: int| stored_cell(store, width, x, y)))
}

/// Every slot of the storage that holds no cell of the grid is dead.
pub open spec fn border_dead(store: Seq<bool>, width: nat, height: nat) -> bool {
    forall|i: int|
        0 <= i < store.len() && !is_cell_slot(width as int, height as int, i) ==> !(
        #[trigger] store[i])
}

/// Writing the slot of one cell changes that cell of the stored grid and no
/// other.
pub proof fn lemma_store_update(
    store: Seq<bool>,
    width: nat,
    height: nat,
    x: int,
    y: int,
    value: bool,
)
    requires
        in_grid(width as int, height as int, x, y),
        0 <= slot(width as int, x, y) < store.len(),
    ensures
        stored_grid(store.update(slot(width as int, x, y), value), width, height) == stored_grid(
            store,
            width,
            height,
        ).update(y, stored_grid(store, width, height)[y].update(x, value)),
{
    let i = slot(width as int, x, y);
    let after = stored_grid(store.update(i, value), width, height);
    let grid = stored_grid(store, width, height);
    let want = grid.update(y, grid[y].update(x, value));
    assert forall|b: int| 0 <= b < height implies #[trigger] after[b] =~= want[b] by {
        assert forall|a: int| 0 <= a < width implies after[b][a] == want[b][a] by {
            if slot(width as int, a, b) == i {
                lemma_slot_injective(width as int, a, b, x, y);
            }
        }
    }
    assert(after =~= want);
}

/// The buffer holds the wanted cell in the slot of every cell of the rows
/// before row `rows`, as far as column `columns`.
pub open spec fn written(
    store: Seq<bool>,
    want: Seq<Seq<bool>>,
    width: int,
    columns: int,
    rows: int,
) -> bool {
    forall|a: int, b: int|
        0 <= a < columns && 0 <= b < rows ==> store[#[trigger] slot(width, a, b)] == want[b][a]
}

/// Writing the wanted cell into the slot of `(x, y)` adds that cell to what
/// is written and keeps the rest.
pub proof fn lemma_write_next(
    store: Seq<bool>,
    want: Seq<Seq<bool>>,
    width: int,
    height: int,
    x: int,
    y: int,
)
    requires
        0 <= x < width,
        0 <= y < height,
        slots(width, height) <= store.len(),
        written(store, want, width, width, y),
        written(store, want, width, x, y + 1),
    ensures
        written(store.update(slot(width, x, y), want[y][x]), want, width, width, y),
        written(store.update(slot(width, x, y), want[y][x]), want, width, x + 1, y + 1),
{
    lemma_slot_in_storage(width, height, x, y);
    let after = store.update(slot(width, x, y), want[y][x]);
    assert forall|a: int, b: int| 0 <= a < width && 0 <= b < y implies after[#[trigger] slot(
        width,
        a,
        b,
    )] == want[b][a] by {
        if slot(width, a, b) == slot(width, x, y) {
            lemma_slot_injective(width, a, b, x, y);
        }
        lemma_slot_in_storage(width, height, a, b);
    }
    assert forall|a: int, b: int| 0 <= a < x + 1 && 0 <= b < y + 1 implies after[#[trigger] slot(
        width,
        a,
        b,
    )] == want[b][a] by {
        if slot(width, a, b) == slot(width, x, y) {
            lemma_slot_injective(width, a, b, x, y);
        } else {
            lemma_slot_in_storage(width, height, a, b);
            assert(store[slot(width, a, b)] == want[b][a]);
        }
    }
}


} // verus!
