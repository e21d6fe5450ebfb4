//! The mathematical model of a game: a board of cells in row-major order, read
//! as a torus by the rule of life.

use vstd::arithmetic::div_mod::{
    lemma_add_mod_noop_right, lemma_div_pos_is_pos, lemma_fundamental_div_mod,
    lemma_fundamental_div_mod_converse, lemma_mod_bound, lemma_mod_twice, lemma_multiply_divide_lt,
    lemma_small_mod, lemma_sub_mod_noop_right,
};
use vstd::arithmetic::mul::lemma_mul_is_commutative;
use vstd::prelude::*;

use crate::cell::Cell;

verus! {

#[verifier::ext_equal]
pub struct Board {
    pub width: nat,
    pub height: nat,
    pub cells: Seq<Cell>,
}

impl Board {
    pub open spec fn wf(self) -> bool {
        self.cells.len() == self.width * self.height
    }

    /// The board of that size on which no cell is alive.
    pub open spec fn empty(width: nat, height: nat) -> Board {
        Board { width, height, cells: Seq::new(width * height, |i: int| Cell::Dead) }
    }

    /// The place in `cells` of what callers name `(x, y)`. The row pitch of
    /// this addressing is the height of the board, so on a square board, and
    /// on the first row of any board, it is column `x` of row `y`.
    pub open spec fn slot(self, x: int, y: int) -> int {
        y * self.height + x
    }

    /// Whether `(x, y)` names a cell.
    pub open spec fn addresses(self, x: int, y: int) -> bool {
        0 <= self.slot(x, y) < self.cells.len()
    }

    /// The board with the cell named `(x, y)` replaced, if there is one.
    pub open spec fn put(self, x: int, y: int, cell: Cell) -> Board {
        if self.addresses(x, y) {
            Board { cells: self.cells.update(self.slot(x, y), cell), ..self }
        } else {
            self
        }
    }

    /// The board with the cell named `(x, y)` turned over, if there is one.
    pub open spec fn flip(self, x: int, y: int) -> Board {
        if self.addresses(x, y) {
            self.put(x, y, self.cells[self.slot(x, y)].flipped())
        } else {
            self
        }
    }

    /// The cell at column `x` of row `y` on the torus: columns are counted
    /// modulo the width, rows modulo the height.
    pub open spec fn torus(self, x: int, y: int) -> Cell {
        self.cells[x % (self.width as int) + (y % (self.height as int)) * self.width]
    }

    /// 1 where the torus holds a living cell, else 0.
    pub open spec fn weight(self, x: int, y: int) -> nat {
        if self.torus(x, y).alive() {
            1
        } else {
            0
        }
    }

    /// How many of the eight neighbours of column `x`, row `y` are alive.
    pub open spec fn neighbors(self, x: int, y: int) -> nat {
        self.weight(x - 1, y - 1) + self.weight(x, y - 1) + self.weight(x + 1, y - 1)
            + self.weight(x - 1, y) + self.weight(x + 1, y)
            + self.weight(x - 1, y + 1) + self.weight(x, y + 1) + self.weight(x + 1, y + 1)
    }

    /// The rule of life at column `x`, row `y`: a living cell survives with two
    /// or three living neighbours, a dead one comes to life with three.
    pub open spec fn next_cell(self, x: int, y: int) -> Cell {
        life_rule(self.torus(x, y), self.neighbors(x, y))
    }

    /// Whether a step can be computed: where there are cells, going once past
    /// the last column or row from anywhere must not leave the range of `isize`.
    pub open spec fn steppable(self) -> bool {
        self.cells.len() > 0 ==> 2 * self.width <= isize::MAX && 2 * self.height <= isize::MAX
    }

    /// The next generation.
    pub open spec fn step(self) -> Board {
        Board {
            cells: Seq::new(
                self.width * self.height,
                |i: int| self.next_cell(i % (self.width as int), i / (self.width as int)),
            ),
            ..self
        }
    }

    /// The board `generations` steps on.
    pub open spec fn after(self, generations: nat) -> Board
        decreases generations,
    {
        if generations == 0 {
            self
        } else {
            self.after((generations - 1) as nat).step()
        }
    }
}

pub open spec fn life_rule(cell: Cell, neighbors: nat) -> Cell {
    match cell {
        Cell::Alive => if 2 <= neighbors <= 3 {
            Cell::Alive
        } else {
            Cell::Dead
        },
        Cell::Dead => if neighbors == 3 {
            Cell::Alive
        } else {
            Cell::Dead
        },
    }
}

/// A board without columns or without rows holds no cell.
pub(crate) proof fn lemma_no_area(board: Board)
    requires
        board.width == 0 || board.height == 0,
    ensures
        board.width * board.height == 0,
{
    assert(board.width * board.height == 0) by (nonlinear_arith)
        requires
            board.width == 0 || board.height == 0,
    ;
}

/// A board with columns and rows holds a cell.
pub(crate) proof fn lemma_area(board: Board)
    requires
        board.width > 0,
        board.height > 0,
    ensures
        board.width * board.height >= board.width,
        board.width * board.height >= board.height,
{
    assert(board.width * board.height >= board.width && board.width * board.height
        >= board.height) by (nonlinear_arith)
        requires
            board.width > 0,
            board.height > 0,
    ;
}

/// Nothing is named by a column or a row that no `usize` holds.
pub(crate) proof fn lemma_far_away(board: Board, x: int, y: int)
    requires
        board.wf(),
        board.cells.len() <= isize::MAX,
        0 <= x,
        0 <= y,
        x > usize::MAX || y > usize::MAX,
    ensures
        !board.addresses(x, y),
{
    let h = board.height as int;
    if h > 0 {
        assert(y * h >= y) by (nonlinear_arith)
            requires
                0 <= y,
                h > 0,
        ;
    } else {
        lemma_no_area(board);
    }
}

/// Column `x` of row `y`, both within the board, is at `x + y * width`.
pub(crate) proof fn lemma_cell_place(board: Board, x: int, y: int)
    requires
        0 <= x < board.width,
        0 <= y < board.height,
    ensures
        0 <= y * board.width,
        0 <= x + y * board.width < board.width * board.height,
        (x + y * board.width) % (board.width as int) == x,
        (x + y * board.width) / (board.width as int) == y,
        x % (board.width as int) == x,
        y % (board.height as int) == y,
        board.torus(x, y) == board.cells[x + y * board.width],
{
    let w = board.width as int;
    let h = board.height as int;
    assert(0 <= y * w && x + y * w < w * h) by (nonlinear_arith)
        requires
            0 <= x < w,
            0 <= y < h,
    ;
    lemma_fundamental_div_mod_converse(x + y * w, w, y, x);
    lemma_small_mod(x as nat, board.width);
    lemma_small_mod(y as nat, board.height);
}

/// A board that holds a cell has columns and rows.
pub(crate) proof fn lemma_sides(board: Board, i: int)
    requires
        0 <= i < board.width * board.height,
    ensures
        0 < board.width,
        0 < board.height,
{
    assert(0 < board.width && 0 < board.height) by (nonlinear_arith)
        requires
            0 < board.width * board.height,
            0 <= board.width,
            0 <= board.height,
    ;
}

/// Every cell of a board is in one of its columns and rows.
pub(crate) proof fn lemma_place_of(board: Board, i: int)
    requires
        0 <= i < board.width * board.height,
    ensures
        0 <= i % (board.width as int) < board.width,
        0 <= i / (board.width as int) < board.height,
        i == i % (board.width as int) + (i / (board.width as int)) * board.width,
{
    lemma_sides(board, i);
    let (w, h) = (board.width as int, board.height as int);
    lemma_fundamental_div_mod(i, w);
    lemma_mod_bound(i, w);
    lemma_div_pos_is_pos(i, w);
    lemma_mul_is_commutative(w, i / w);
    lemma_mul_is_commutative(w, h);
    lemma_multiply_divide_lt(i, w, h);
}

/// A column or row may be reduced before another is counted from it.
pub(crate) proof fn lemma_reduce(a: int, b: int, m: int)
    requires
        0 < m,
    ensures
        (a % m + b) % m == (a + b) % m,
        (b - a % m) % m == (b - a) % m,
        0 <= a % m < m,
        (a % m) % m == a % m,
{
    lemma_add_mod_noop_right(b, a, m);
    lemma_sub_mod_noop_right(b, a, m);
    lemma_mod_bound(a, m);
    lemma_mod_twice(a, m);
}

/// Every column and row of the torus is a cell of the board.
pub(crate) proof fn lemma_torus_within(board: Board, x: int, y: int)
    requires
        0 < board.width,
        0 < board.height,
    ensures
        0 <= x % (board.width as int) + (y % (board.height as int)) * board.width < board.width
            * board.height,
{
    lemma_cell_place(board, x % (board.width as int), y % (board.height as int));
}

} // verus!
