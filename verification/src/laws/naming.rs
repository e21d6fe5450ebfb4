//! How `at`, `flip`, `set_alive` and `set_dead` name cells, and what they do to
//! the cell they name and to the others.

use vstd::prelude::*;

use crate::board::{lemma_cell_place, life_rule, Board};
use crate::cell::{cell_of, Cell};
use crate::glider::Heading;
use crate::laws::symmetry::step_obeys_rule;

verus! {

/// Turning a cell over twice changes nothing.
pub proof fn flip_undoes_flip(board: Board, x: int, y: int)
    ensures
        board.flip(x, y).flip(x, y) == board,
{
    assert(board.flip(x, y).flip(x, y).cells =~= board.cells);
}

/// Turning a cell over changes what is read there, and nothing that is read
/// under a name of another cell.
pub proof fn flip_touches_one_cell(board: Board, x: int, y: int, slot: int)
    requires
        board.addresses(x, y),
        0 <= slot < board.cells.len(),
    ensures
        board.flip(x, y).addresses(x, y),
        board.flip(x, y).cells[board.slot(x, y)] != board.cells[board.slot(x, y)],
        slot != board.slot(x, y) ==> board.flip(x, y).cells[slot] == board.cells[slot],
{
}

/// What is set is read back, and nothing else changes.
pub proof fn put_is_read_back(board: Board, x: int, y: int, cell: Cell, slot: int)
    requires
        board.addresses(x, y),
        0 <= slot < board.cells.len(),
    ensures
        board.put(x, y, cell).addresses(x, y),
        board.put(x, y, cell).cells[board.slot(x, y)] == cell,
        slot != board.slot(x, y) ==> board.put(x, y, cell).cells[slot] == board.cells[slot],
{
}

/// Of two settings of one cell the later one counts.
pub proof fn last_put_counts(board: Board, x: int, y: int, first: Cell, second: Cell)
    ensures
        board.put(x, y, first).put(x, y, second) == board.put(x, y, second),
{
    assert(board.put(x, y, first).put(x, y, second).cells =~= board.put(x, y, second).cells);
}

/// Changing cells keeps the size of the board.
pub proof fn changes_keep_size(board: Board, x: int, y: int, cell: Cell, heading: Heading)
    requires
        board.wf(),
    ensures
        board.put(x, y, cell).wf(),
        board.put(x, y, cell).width == board.width,
        board.put(x, y, cell).height == board.height,
        board.flip(x, y).wf(),
        board.flip(x, y).width == board.width,
        board.flip(x, y).height == board.height,
        board.with_glider(x, y, heading).wf(),
        board.with_glider(x, y, heading).width == board.width,
        board.with_glider(x, y, heading).height == board.height,
{
}

/// On a square board, and in the first row of any board, `(x, y)` names column
/// `x` of row `y`.
pub proof fn names_are_places(board: Board, x: int, y: int)
    requires
        board.wf(),
        0 <= x < board.width,
        0 <= y < board.height,
        board.width == board.height || y == 0,
    ensures
        board.addresses(x, y),
        board.cells[board.slot(x, y)] == board.torus(x, y),
{
    lemma_cell_place(board, x, y);
    assert(y * board.height == y * board.width) by (nonlinear_arith)
        requires
            board.width == board.height || y == 0,
    ;
}

/// On a square board what is read at `(x, y)` after a step is what the rule of
/// life makes of what was read there before.
pub proof fn step_as_read(board: Board, x: int, y: int)
    requires
        board.wf(),
        board.width == board.height,
        0 <= x < board.width,
        0 <= y < board.height,
    ensures
        board.step().cells[board.slot(x, y)] == life_rule(
            board.cells[board.slot(x, y)],
            board.neighbors(x, y),
        ),
{
    names_are_places(board, x, y);
    names_are_places(board.step(), x, y);
    step_obeys_rule(board, x, y);
}

/// The next column is the next place, and the next row is one height further;
/// what has a place among the cells is named.
pub proof fn names_are_evenly_spaced(board: Board, x: int, y: int)
    ensures
        board.slot(0, 0) == 0,
        board.slot(x + 1, y) == board.slot(x, y) + 1,
        board.slot(x, y + 1) == board.slot(x, y) + board.height,
        board.slot(x, y) == x + y * board.height,
        board.addresses(x, y) <==> 0 <= x + y * board.height < board.cells.len(),
{
    assert((y + 1) * board.height == y * board.height + board.height) by (nonlinear_arith);
}

/// What names no cell changes nothing when it is set or turned over.
pub proof fn unnamed_changes_nothing(board: Board, x: int, y: int, cell: Cell)
    requires
        !(0 <= x + y * board.height < board.cells.len()),
    ensures
        board.put(x, y, cell) == board,
        board.flip(x, y) == board,
{
}

/// Of all cells, setting one changes it alone, and turning one over makes a
/// living cell dead, a dead one alive, and changes it alone.
pub proof fn changes_cell_by_cell(board: Board, x: int, y: int, cell: Cell, i: int)
    requires
        0 <= i < board.cells.len(),
    ensures
        ({
            let named = i == x + y * board.height;
            let before = board.cells[i];
            &&& board.put(x, y, cell).cells[i] == (if named { cell } else { before })
            &&& board.flip(x, y).cells[i] == Cell::Alive <==> (before == Cell::Alive) != named
            &&& board.put(x, y, cell).cells.len() == board.cells.len()
            &&& board.flip(x, y).cells.len() == board.cells.len()
        }),
{
}

/// On an empty board of a size there are as many cells as that, all dead.
pub proof fn empty_board_is_dead(width: nat, height: nat, i: int)
    ensures
        Board::empty(width, height).width == width,
        Board::empty(width, height).height == height,
        Board::empty(width, height).cells.len() == width * height,
        0 <= i < width * height ==> Board::empty(width, height).cells[i] == Cell::Dead,
{
}

/// A cell is alive or dead, and a truth value stands for one of them.
pub proof fn cells_are_truth_values(cell: Cell, value: bool)
    ensures
        cell.alive() <==> cell == Cell::Alive,
        cell.alive() <==> cell != Cell::Dead,
        cell_of(value) == Cell::Alive <==> value,
        cell_of(cell.alive()) == cell,
        cell.flipped() != cell,
{
}

} // verus!
