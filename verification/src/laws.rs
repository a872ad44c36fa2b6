//! What holds of every board and every plane.

use vstd::prelude::*;
use crate::board::Board;
use crate::plane::fits;

verus! {

/// The smallest capacity with which a plane of `width` by `height` cells is
/// made has one slot more than the grid in each direction: that capacity
/// is enough, and one slot less is not.
pub proof fn lemma_capacity_threshold(width: nat, height: nat)
    ensures
        fits(width as int, height as int, ((width + 1) * (height + 1)) as int),
        !fits(width as int, height as int, (width + 1) * (height + 1) - 1),
{
}

/// Outside the grid every cell is dead and was dead.
pub proof fn lemma_outside_is_dead(board: Board, x: int, y: int)
    requires
        !(0 <= x < board.width && 0 <= y < board.height),
    ensures
        !board.live(x, y),
        !board.was_live(x, y),
        !board.lives_on(x, y),
{
}

/// Whether the live cells of the board are the four cells of the square
/// whose upper left corner is `(x, y)`, and no others.
pub open spec fn is_block(board: Board, x: int, y: int) -> bool {
    forall|a: int, b: int| #[trigger] board.live(a, b) <==> (x <= a <= x + 1 && y <= b <= y + 1)
}

/// A block is a still life: if a square of four cells inside the grid is
/// all that lives, an advance leaves every cell as it is.
pub proof fn lemma_block_is_still(board: Board, x: int, y: int)
    requires
        board.wf(),
        board.has(x, y),
        board.has(x + 1, y + 1),
        is_block(board, x, y),
    ensures
        board.step().now == board.now,
        is_block(board.step(), x, y),
{
    let after = board.step();
    assert forall|a: int, b: int| board.has(a, b) implies board.lives_on(a, b) == board.live(
        a,
        b,
    ) by {
        lemma_around_block(board, x, y, a, b);
    }
    assert forall|b: int| 0 <= b < board.height implies #[trigger] after.now[b]
        =~= board.now[b] by {
        assert forall|a: int| 0 <= a < board.width implies after.now[b][a] == board.now[b][a] by {
            assert(board.has(a, b));
            assert(board.live(a, b) == board.now[b][a]);
        }
    }
    assert(after.now =~= board.now);
    assert forall|a: int, b: int| #[trigger] after.live(a, b) <==> (x <= a <= x + 1 && y <= b <= y
        + 1) by {
        assert(after.live(a, b) == board.live(a, b));
    }
}

/// Around a block, the number of live neighbours of a cell is three on the
/// block and never three off it.
proof fn lemma_around_block(board: Board, x: int, y: int, a: int, b: int)
    requires
        is_block(board, x, y),
    ensures
        x <= a <= x + 1 && y <= b <= y + 1 ==> board.around(a, b) == 3,
        !(x <= a <= x + 1 && y <= b <= y + 1) ==> board.around(a, b) != 3,
{
    assert(board.live(a - 1, b - 1) <==> (x <= a - 1 <= x + 1 && y <= b - 1 <= y + 1));
    assert(board.live(a, b - 1) <==> (x <= a <= x + 1 && y <= b - 1 <= y + 1));
    assert(board.live(a + 1, b - 1) <==> (x <= a + 1 <= x + 1 && y <= b - 1 <= y + 1));
    assert(board.live(a - 1, b) <==> (x <= a - 1 <= x + 1 && y <= b <= y + 1));
    assert(board.live(a + 1, b) <==> (x <= a + 1 <= x + 1 && y <= b <= y + 1));
    assert(board.live(a - 1, b + 1) <==> (x <= a - 1 <= x + 1 && y <= b + 1 <= y + 1));
    assert(board.live(a, b + 1) <==> (x <= a <= x + 1 && y <= b + 1 <= y + 1));
    assert(board.live(a + 1, b + 1) <==> (x <= a + 1 <= x + 1 && y <= b + 1 <= y + 1));
}

/// Whether the live cells of the board are the three cells of row `y` with
/// `(x, y)` in the middle, and no others.
pub open spec fn is_bar(board: Board, x: int, y: int) -> bool {
    forall|a: int, b: int| #[trigger] board.live(a, b) <==> (x - 1 <= a <= x + 1 && b == y)
}

/// Whether the live cells of the board are the three cells of column `x`
/// with `(x, y)` in the middle, and no others.
pub open spec fn is_pole(board: Board, x: int, y: int) -> bool {
    forall|a: int, b: int| #[trigger] board.live(a, b) <==> (a == x && y - 1 <= b <= y + 1)
}

/// After an advance a cell lives if and only if the rule says so.
pub proof fn lemma_step_follows_rule(board: Board, x: int, y: int)
    requires
        board.wf(),
    ensures
        board.step().live(x, y) == board.lives_on(x, y),
{
}

/// A blinker turns: if a line of three cells in a row is all that lives,
/// and the grid holds the square of nine cells around its middle, then
/// after an advance the line of three cells in the column through the
/// middle is all that lives.
pub proof fn lemma_bar_turns(board: Board, x: int, y: int)
    requires
        board.wf(),
        board.has(x - 1, y - 1),
        board.has(x + 1, y + 1),
        is_bar(board, x, y),
    ensures
        is_pole(board.step(), x, y),
{
    let after = board.step();
    assert forall|a: int, b: int| #[trigger] after.live(a, b) <==> (a == x && y - 1 <= b <= y
        + 1) by {
        lemma_step_follows_rule(board, a, b);
        assert(board.live(a - 1, b - 1) <==> (x - 1 <= a - 1 <= x + 1 && b - 1 == y));
        assert(board.live(a, b - 1) <==> (x - 1 <= a <= x + 1 && b - 1 == y));
        assert(board.live(a + 1, b - 1) <==> (x - 1 <= a + 1 <= x + 1 && b - 1 == y));
        assert(board.live(a - 1, b) <==> (x - 1 <= a - 1 <= x + 1 && b == y));
        assert(board.live(a, b) <==> (x - 1 <= a <= x + 1 && b == y));
        assert(board.live(a + 1, b) <==> (x - 1 <= a + 1 <= x + 1 && b == y));
        assert(board.live(a - 1, b + 1) <==> (x - 1 <= a - 1 <= x + 1 && b + 1 == y));
        assert(board.live(a, b + 1) <==> (x - 1 <= a <= x + 1 && b + 1 == y));
        assert(board.live(a + 1, b + 1) <==> (x - 1 <= a + 1 <= x + 1 && b + 1 == y));
    }
}

/// A blinker turns back: a line of three cells in a column becomes the line
/// of three cells in the row through its middle.
pub proof fn lemma_pole_turns(board: Board, x: int, y: int)
    requires
        board.wf(),
        board.has(x - 1, y - 1),
        board.has(x + 1, y + 1),
        is_pole(board, x, y),
    ensures
        is_bar(board.step(), x, y),
{
    let after = board.step();
    assert forall|a: int, b: int| #[trigger] after.live(a, b) <==> (x - 1 <= a <= x + 1 && b
        == y) by {
        lemma_step_follows_rule(board, a, b);
        assert(board.live(a - 1, b - 1) <==> (a - 1 == x && y - 1 <= b - 1 <= y + 1));
        assert(board.live(a, b - 1) <==> (a == x && y - 1 <= b - 1 <= y + 1));
        assert(board.live(a + 1, b - 1) <==> (a + 1 == x && y - 1 <= b - 1 <= y + 1));
        assert(board.live(a - 1, b) <==> (a - 1 == x && y - 1 <= b <= y + 1));
        assert(board.live(a, b) <==> (a == x && y - 1 <= b <= y + 1));
        assert(board.live(a + 1, b) <==> (a + 1 == x && y - 1 <= b <= y + 1));
        assert(board.live(a - 1, b + 1) <==> (a - 1 == x && y - 1 <= b + 1 <= y + 1));
        assert(board.live(a, b + 1) <==> (a == x && y - 1 <= b + 1 <= y + 1));
        assert(board.live(a + 1, b + 1) <==> (a + 1 == x && y - 1 <= b + 1 <= y + 1));
    }
}

/// A blinker has period two: two advances bring every cell of the line of
/// three back to where it was.
pub proof fn lemma_blinker_period(board: Board, x: int, y: int)
    requires
        board.wf(),
        board.has(x - 1, y - 1),
        board.has(x + 1, y + 1),
        is_bar(board, x, y),
    ensures
        board.step().step().now == board.now,
{
    let once = board.step();
    let twice = once.step();
    lemma_bar_turns(board, x, y);
    lemma_pole_turns(once, x, y);
    assert forall|b: int| 0 <= b < board.height implies #[trigger] twice.now[b]
        =~= board.now[b] by {
        assert forall|a: int| 0 <= a < board.width implies twice.now[b][a] == board.now[b][a] by {
            assert(board.has(a, b));
            assert(twice.live(a, b) == board.live(a, b));
        }
    }
    assert(twice.now =~= board.now);
}

/// Seeding is determined by the seed and the size of the grid: two boards
/// of one size, seeded with one seed, hold the same cells, whatever they
/// held before.
pub proof fn lemma_seeding_is_determined(first: Board, second: Board, seed: u64)
    requires
        first.width == second.width,
        first.height == second.height,
    ensures
        first.seeded(seed).now == second.seeded(seed).now,
        forall|x: int, y: int| first.seeded(seed).live(x, y) == second.seeded(seed).live(x, y),
{
    assert(first.seeded(seed).now =~~= second.seeded(seed).now);
}

/// After an advance the change at a cell of the grid tells what the advance
/// did to it: nothing to redraw where the cell is as it was, and the new
/// state of the cell where it flipped.
pub proof fn lemma_change_after_step(board: Board, x: int, y: int)
    requires
        board.wf(),
        board.has(x, y),
    ensures
        board.step().live(x, y) == board.live(x, y) ==> board.step().change(x, y) is None,
        board.step().live(x, y) != board.live(x, y) ==> board.step().change(x, y) == Some(
            board.step().live(x, y),
        ),
        board.step().live(x, y) == board.lives_on(x, y),
{
}

/// An advance keeps the size of the grid and the shape of the board.
pub proof fn lemma_step_keeps_shape(board: Board)
    requires
        board.wf(),
    ensures
        board.step().wf(),
        board.step().width == board.width,
        board.step().height == board.height,
        board.step().before == board.now,
{
}

} // verus!
