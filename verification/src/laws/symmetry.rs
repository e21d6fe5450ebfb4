//! The board has no borders and no preferred direction: moving, mirroring or
//! turning it first and stepping then is the same as stepping first.

use vstd::prelude::*;

use crate::board::{lemma_cell_place, lemma_reduce, lemma_sides, Board};

verus! {

impl Board {
    /// The board as seen from column `dx`, row `dy`.
    pub open spec fn shifted(self, dx: int, dy: int) -> Board {
        Board {
            cells: Seq::new(
                self.width * self.height,
                |i: int| self.torus(i % (self.width as int) + dx, i / (self.width as int) + dy),
            ),
            ..self
        }
    }

    /// The board with left and right exchanged.
    pub open spec fn mirrored(self) -> Board {
        Board {
            cells: Seq::new(
                self.width * self.height,
                |i: int| self.torus(-1 - i % (self.width as int), i / (self.width as int)),
            ),
            ..self
        }
    }

    /// The board with columns and rows exchanged.
    pub open spec fn transposed(self) -> Board {
        Board {
            width: self.height,
            height: self.width,
            cells: Seq::new(
                self.height * self.width,
                |i: int| self.torus(i / (self.height as int), i % (self.height as int)),
            ),
        }
    }
}

/// Where column `x` of row `y` of the torus is kept.
proof fn lemma_torus_place(board: Board, x: int, y: int)
    requires
        0 < board.width,
        0 < board.height,
    ensures
        ({
            let w = board.width as int;
            let i = x % w + (y % (board.height as int)) * w;
            &&& 0 <= i < board.width * board.height
            &&& i % w == x % w
            &&& i / w == y % (board.height as int)
        }),
{
    lemma_reduce(x, 0, board.width as int);
    lemma_reduce(y, 0, board.height as int);
    lemma_cell_place(board, x % (board.width as int), y % (board.height as int));
}

/// The torus repeats itself.
proof fn lemma_torus_repeats(board: Board, x: int, y: int, dx: int, dy: int)
    requires
        0 < board.width,
        0 < board.height,
    ensures
        board.torus(x % (board.width as int) + dx, y % (board.height as int) + dy) == board.torus(
            x + dx,
            y + dy,
        ),
{
    lemma_reduce(x, dx, board.width as int);
    lemma_reduce(y, dy, board.height as int);
}

/// The rule of life repeats itself with the torus.
proof fn lemma_next_repeats(board: Board, x: int, y: int)
    requires
        0 < board.width,
        0 < board.height,
    ensures
        board.next_cell(x % (board.width as int), y % (board.height as int)) == board.next_cell(
            x,
            y,
        ),
{
    assert forall|dx: int, dy: int| #[trigger]
        board.torus(
            x % (board.width as int) + dx,
            y % (board.height as int) + dy,
        ) == board.torus(x + dx, y + dy) by {
        lemma_torus_repeats(board, x, y, dx, dy);
    }
    let a = x % (board.width as int);
    let b = y % (board.height as int);
    assert(board.torus(a + 0, b + 0) == board.torus(x + 0, y + 0));
    assert(board.torus(a + (-1), b + (-1)) == board.torus(x + (-1), y + (-1)));
    assert(board.torus(a + 0, b + (-1)) == board.torus(x + 0, y + (-1)));
    assert(board.torus(a + 1, b + (-1)) == board.torus(x + 1, y + (-1)));
    assert(board.torus(a + (-1), b + 0) == board.torus(x + (-1), y + 0));
    assert(board.torus(a + 1, b + 0) == board.torus(x + 1, y + 0));
    assert(board.torus(a + (-1), b + 1) == board.torus(x + (-1), y + 1));
    assert(board.torus(a + 0, b + 1) == board.torus(x + 0, y + 1));
    assert(board.torus(a + 1, b + 1) == board.torus(x + 1, y + 1));
}

/// The rule of life holds everywhere on the torus: what a step leaves in any
/// column and row, counted modulo the size of the board, is what the rule makes
/// of the cell there and its eight neighbours.
pub proof fn step_obeys_rule(board: Board, x: int, y: int)
    requires
        0 < board.width,
        0 < board.height,
    ensures
        board.step().torus(x, y) == board.next_cell(x, y),
{
    lemma_torus_place(board, x, y);
    lemma_next_repeats(board, x, y);
}

/// A shifted board holds in each column and row what the board holds `dx`
/// columns and `dy` rows on.
pub proof fn shifted_reads(board: Board, dx: int, dy: int, x: int, y: int)
    requires
        0 < board.width,
        0 < board.height,
    ensures
        board.shifted(dx, dy).torus(x, y) == board.torus(x + dx, y + dy),
{
    lemma_torus_place(board, x, y);
    lemma_torus_repeats(board, x, y, dx, dy);
}

/// The rule of life on a shifted board.
proof fn lemma_shifted_next(board: Board, dx: int, dy: int, x: int, y: int)
    requires
        0 < board.width,
        0 < board.height,
    ensures
        board.shifted(dx, dy).next_cell(x, y) == board.next_cell(x + dx, y + dy),
{
    shifted_reads(board, dx, dy, x - 1, y - 1);
    shifted_reads(board, dx, dy, x, y - 1);
    shifted_reads(board, dx, dy, x + 1, y - 1);
    shifted_reads(board, dx, dy, x - 1, y);
    shifted_reads(board, dx, dy, x, y);
    shifted_reads(board, dx, dy, x + 1, y);
    shifted_reads(board, dx, dy, x - 1, y + 1);
    shifted_reads(board, dx, dy, x, y + 1);
    shifted_reads(board, dx, dy, x + 1, y + 1);
    assert((x - 1) + dx == (x + dx) - 1);
    assert((x + 1) + dx == (x + dx) + 1);
    assert((y - 1) + dy == (y + dy) - 1);
    assert((y + 1) + dy == (y + dy) + 1);
}

/// Shifting and stepping can be exchanged: the grid wraps at its borders, so no
/// place on it is special.
pub proof fn step_commutes_with_shift(board: Board, dx: int, dy: int)
    ensures
        board.shifted(dx, dy).step() == board.step().shifted(dx, dy),
{
    let moved = board.shifted(dx, dy);
    let w = board.width as int;
    assert forall|i: int| 0 <= i < board.width * board.height implies #[trigger]
        moved.step().cells[i] == board.step().shifted(dx, dy).cells[i] by {
        lemma_sides(board, i);
        let (x, y) = (i % w, i / w);
        lemma_shifted_next(board, dx, dy, x, y);
        step_obeys_rule(board, x + dx, y + dy);
    }
    assert(moved.step() =~= board.step().shifted(dx, dy));
}

/// A mirrored board holds in each column and row what the board holds as far
/// from its other side.
pub proof fn mirrored_reads(board: Board, x: int, y: int)
    requires
        0 < board.width,
        0 < board.height,
    ensures
        board.mirrored().torus(x, y) == board.torus(-1 - x, y),
{
    lemma_torus_place(board, x, y);
    lemma_reduce(x, -1, board.width as int);
    lemma_reduce(y, 0, board.height as int);
}

/// The rule of life on a mirrored board.
proof fn lemma_mirrored_next(board: Board, x: int, y: int)
    requires
        0 < board.width,
        0 < board.height,
    ensures
        board.mirrored().next_cell(x, y) == board.next_cell(-1 - x, y),
{
    mirrored_reads(board, x - 1, y - 1);
    mirrored_reads(board, x, y - 1);
    mirrored_reads(board, x + 1, y - 1);
    mirrored_reads(board, x - 1, y);
    mirrored_reads(board, x, y);
    mirrored_reads(board, x + 1, y);
    mirrored_reads(board, x - 1, y + 1);
    mirrored_reads(board, x, y + 1);
    mirrored_reads(board, x + 1, y + 1);
    assert(-1 - (x - 1) == (-1 - x) + 1);
    assert(-1 - (x + 1) == (-1 - x) - 1);
}

/// Mirroring and stepping can be exchanged.
pub proof fn step_commutes_with_mirror(board: Board)
    ensures
        board.mirrored().step() == board.step().mirrored(),
{
    let moved = board.mirrored();
    let w = board.width as int;
    assert forall|i: int| 0 <= i < board.width * board.height implies #[trigger]
        moved.step().cells[i] == board.step().mirrored().cells[i] by {
        lemma_sides(board, i);
        let (x, y) = (i % w, i / w);
        lemma_mirrored_next(board, x, y);
        step_obeys_rule(board, -1 - x, y);
    }
    assert(moved.step() =~= board.step().mirrored());
}

/// A transposed board holds in each column and row what the board holds in that
/// row and column.
pub proof fn transposed_reads(board: Board, x: int, y: int)
    requires
        0 < board.width,
        0 < board.height,
    ensures
        board.transposed().torus(x, y) == board.torus(y, x),
{
    lemma_torus_place(board.transposed(), x, y);
    lemma_reduce(y, 0, board.width as int);
    lemma_reduce(x, 0, board.height as int);
}

/// The rule of life on a transposed board.
proof fn lemma_transposed_next(board: Board, x: int, y: int)
    requires
        0 < board.width,
        0 < board.height,
    ensures
        board.transposed().next_cell(x, y) == board.next_cell(y, x),
{
    transposed_reads(board, x - 1, y - 1);
    transposed_reads(board, x, y - 1);
    transposed_reads(board, x + 1, y - 1);
    transposed_reads(board, x - 1, y);
    transposed_reads(board, x, y);
    transposed_reads(board, x + 1, y);
    transposed_reads(board, x - 1, y + 1);
    transposed_reads(board, x, y + 1);
    transposed_reads(board, x + 1, y + 1);
}

/// Exchanging columns and rows, and stepping, can be exchanged.
pub proof fn step_commutes_with_transpose(board: Board)
    ensures
        board.transposed().step() == board.step().transposed(),
{
    let moved = board.transposed();
    let h = board.height as int;
    assert forall|i: int| 0 <= i < board.height * board.width implies #[trigger]
        moved.step().cells[i] == board.step().transposed().cells[i] by {
        lemma_sides(moved, i);
        let (x, y) = (i % h, i / h);
        lemma_transposed_next(board, x, y);
        step_obeys_rule(board, y, x);
    }
    assert(moved.step() =~= board.step().transposed());
}

} // verus!
