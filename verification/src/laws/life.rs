//! What the rule of life makes of a board.

use vstd::prelude::*;

use crate::board::{lemma_sides, lemma_torus_within, Board};
use crate::cell::Cell;
use crate::laws::symmetry::step_obeys_rule;

verus! {

/// A step keeps the size of the board.
pub proof fn step_keeps_size(board: Board)
    ensures
        board.step().wf(),
        board.step().width == board.width,
        board.step().height == board.height,
{
}

/// A cell is alive in the next generation exactly if it has three living
/// neighbours, or is alive and has two.
pub proof fn alive_next(board: Board, x: int, y: int)
    requires
        0 < board.width,
        0 < board.height,
    ensures
        board.step().torus(x, y).alive() <==> board.neighbors(x, y) == 3 || (board.torus(
            x,
            y,
        ).alive() && board.neighbors(x, y) == 2),
{
    step_obeys_rule(board, x, y);
}

/// Life does not come from nothing: a board without a living cell stays so.
pub proof fn dead_stays_dead(width: nat, height: nat, generations: nat)
    ensures
        Board::empty(width, height).after(generations) == Board::empty(width, height),
    decreases generations,
{
    let board = Board::empty(width, height);
    if generations > 0 {
        dead_stays_dead(width, height, (generations - 1) as nat);
        assert forall|i: int| 0 <= i < width * height implies #[trigger] board.step().cells[i]
            == Cell::Dead by {
            lemma_sides(board, i);
            assert forall|x: int, y: int| #[trigger] board.torus(x, y) == Cell::Dead by {
                lemma_torus_within(board, x, y);
            }
        }
        assert(board.step() =~= board);
    }
}

/// The next generation of a cell depends on nothing but the cell and its eight
/// neighbours.
pub proof fn life_is_local(one: Board, other: Board, x: int, y: int)
    requires
        0 < one.width,
        0 < one.height,
        0 < other.width,
        0 < other.height,
        forall|dx: int, dy: int|
            -1 <= dx <= 1 && -1 <= dy <= 1 ==> #[trigger] one.torus(x + dx, y + dy) == other.torus(
                x + dx,
                y + dy,
            ),
    ensures
        one.step().torus(x, y) == other.step().torus(x, y),
{
    step_obeys_rule(one, x, y);
    step_obeys_rule(other, x, y);
    assert(one.torus(x + 0, y + 0) == other.torus(x + 0, y + 0));
    assert(one.torus(x + (-1), y + (-1)) == other.torus(x + (-1), y + (-1)));
    assert(one.torus(x + 0, y + (-1)) == other.torus(x + 0, y + (-1)));
    assert(one.torus(x + 1, y + (-1)) == other.torus(x + 1, y + (-1)));
    assert(one.torus(x + (-1), y + 0) == other.torus(x + (-1), y + 0));
    assert(one.torus(x + 1, y + 0) == other.torus(x + 1, y + 0));
    assert(one.torus(x + (-1), y + 1) == other.torus(x + (-1), y + 1));
    assert(one.torus(x + 0, y + 1) == other.torus(x + 0, y + 1));
    assert(one.torus(x + 1, y + 1) == other.torus(x + 1, y + 1));
}

} // verus!
