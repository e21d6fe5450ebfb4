use vstd::arithmetic::div_mod::lemma_mod_add_multiples_vanish;
use vstd::prelude::*;

use crate::board::{lemma_area, lemma_cell_place, lemma_far_away, lemma_no_area, Board};
use crate::cell::Cell;
use crate::glider::Heading;

verus! {

/// A game: the current grid and the one before it.
#[derive(Debug)]
pub struct GameOfLife {
    grid: Vec<Cell>,
    last: Vec<Cell>,
    width: usize,
    height: usize,
}

impl View for GameOfLife {
    type V = Board;

    closed spec fn view(&self) -> Board {
        Board { width: self.width as nat, height: self.height as nat, cells: self.grid@ }
    }
}

impl GameOfLife {
    /// Both generations fill the board, which is no larger than a vector can be.
    pub open spec fn wf(&self) -> bool {
        &&& self@.wf()
        &&& self@.cells.len() <= isize::MAX
        &&& self.previous().len() == self@.cells.len()
    }

    /// The cells of the generation before the current one (all dead at first).
    pub closed spec fn previous(&self) -> Seq<Cell> {
        self.last@
    }

    /// A game of that size with every cell dead. A cell takes a byte, so there
    /// may be as many as a vector can hold bytes.
    pub fn new(width: usize, height: usize) -> (game: Self)
        requires
            width * height <= isize::MAX,
        ensures
            game.wf(),
            game@ == Board::empty(width as nat, height as nat),
            game.previous() == game@.cells,
    {
        let grid: Vec<Cell> = vec![Cell::Dead; width * height];
        let last: Vec<Cell> = grid.clone();
        proof {
            assert(grid@ =~= Board::empty(width as nat, height as nat).cells);
            assert(last@ =~= grid@);
        }
        GameOfLife { grid, last, width, height }
    }

    /// The cell named `(x, y)`, if there is one.
    pub fn at(&self, x: usize, y: usize) -> (cell: Option<Cell>)
        requires
            self.wf(),
            self@.slot(x as int, y as int) <= usize::MAX,
        ensures
            cell == (if self@.addresses(x as int, y as int) {
                Some(self@.cells[self@.slot(x as int, y as int)])
            } else {
                None
            }),
    {
        match self.slot_of(x, y) {
            Some(slot) => Some(self.grid[slot]),
            None => None,
        }
    }

    /// Turns the cell named `(x, y)` over, if there is one.
    pub fn flip(&mut self, x: usize, y: usize)
        requires
            old(self).wf(),
            old(self)@.slot(x as int, y as int) <= usize::MAX,
        ensures
            final(self).wf(),
            final(self)@ == old(self)@.flip(x as int, y as int),
            final(self).previous() == old(self).previous(),
    {
        match self.slot_of(x, y) {
            Some(slot) => {
                let cell: Cell = if self.grid[slot].is_alive() {
                    Cell::Dead
                } else {
                    Cell::Alive
                };
                self.grid[slot] = cell;
            },
            None => {},
        }
    }

    /// Brings the cell named `(x, y)` to life, if there is one.
    pub fn set_alive(&mut self, x: usize, y: usize)
        requires
            old(self).wf(),
        ensures
            final(self).wf(),
            final(self)@ == old(self)@.put(x as int, y as int, Cell::Alive),
            final(self).previous() == old(self).previous(),
    {
        self.put(x, y, Cell::Alive);
    }

    /// Kills the cell named `(x, y)`, if there is one.
    pub fn set_dead(&mut self, x: usize, y: usize)
        requires
            old(self).wf(),
        ensures
            final(self).wf(),
            final(self)@ == old(self)@.put(x as int, y as int, Cell::Dead),
            final(self).previous() == old(self).previous(),
    {
        self.put(x, y, Cell::Dead);
    }

    /// Kills every cell.
    pub fn clear(&mut self)
        requires
            old(self).wf(),
        ensures
            final(self).wf(),
            final(self)@ == Board::empty(old(self)@.width, old(self)@.height),
            final(self).previous() == old(self).previous(),
    {
        let len: usize = self.grid.len();
        let ghost start = *self;
        let mut i: usize = 0;
        while i < len
            invariant
                i <= len,
                len == self.grid@.len(),
                self.grid@.len() == start.grid@.len(),
                self.last == start.last,
                self.width == start.width,
                self.height == start.height,
                forall|k: int| 0 <= k < i ==> #[trigger] self.grid@[k] == Cell::Dead,
            decreases len - i,
        {
            self.grid[i] = Cell::Dead;
            i = i + 1;
        }
        proof {
            assert(self.grid@ =~= Board::empty(start@.width, start@.height).cells);
        }
    }

    /// Brings the five cells of a glider to life, in the three by three square
    /// whose first column is `x` and whose first row is `y`. A cell of it that
    /// is not on the board is left out.
    pub fn spawn_glider(&mut self, x: usize, y: usize, heading: Heading)
        requires
            old(self).wf(),
        ensures
            final(self).wf(),
            final(self)@ == old(self)@.with_glider(x as int, y as int, heading),
            final(self).previous() == old(self).previous(),
    {
        self.set_alive_near(x, y, 0, 0, heading);
        self.set_alive_near(x, y, 1, 1, heading);
        self.set_alive_near(x, y, 2, 1, heading);
        self.set_alive_near(x, y, 0, 2, heading);
        self.set_alive_near(x, y, 1, 2, heading);
    }

    pub fn get_height(&self) -> (height: usize)
        ensures
            height == self@.height,
    {
        self.height
    }

    pub fn get_width(&self) -> (width: usize)
        ensures
            width == self@.width,
    {
        self.width
    }

    /// Advances the game by one generation.
    pub fn step(&mut self)
        requires
            old(self).wf(),
            old(self)@.steppable(),
        ensures
            final(self).wf(),
            final(self)@ == old(self)@.step(),
            final(self).previous() == old(self)@.cells,
    {
        let ghost board = self@;
        let ghost next = board.step().cells;
        std::mem::swap(&mut self.grid, &mut self.last);

        if self.width == 0 || self.height == 0 {
            proof {
                lemma_no_area(board);
                assert(self.grid@ =~= next);
            }
            return;
        }
        proof {
            lemma_area(board);
        }
        let cells_w: isize = self.width as isize;
        let cells_h: isize = self.height as isize;
        let mut y: isize = 0;
        while y < cells_h
            invariant
                0 <= y <= cells_h,
                0 < cells_w,
                2 * cells_w <= isize::MAX,
                2 * cells_h <= isize::MAX,
                cells_w == board.width,
                cells_h == board.height,
                self.width == board.width,
                self.height == board.height,
                board.wf(),
                board.cells.len() <= isize::MAX,
                self.last@ == board.cells,
                self.grid@.len() == board.cells.len(),
                next == board.step().cells,
                forall|k: int| 0 <= k < y * cells_w ==> #[trigger] self.grid@[k] == next[k],
            decreases cells_h - y,
        {
            let mut x: isize = 0;
            proof {
                assert(y * cells_w <= board.cells.len() && (y + 1) * cells_w <= board.cells.len())
                    by (nonlinear_arith)
                    requires
                        0 <= y < cells_h,
                        0 < cells_w,
                        board.cells.len() == cells_w * cells_h,
                ;
                assert((y + 1) * cells_w == y * cells_w + cells_w) by (nonlinear_arith);
            }
            while x < cells_w
                invariant
                    0 <= x <= cells_w,
                    0 <= y < cells_h,
                    y * cells_w + cells_w <= board.cells.len(),
                    2 * cells_w <= isize::MAX,
                    2 * cells_h <= isize::MAX,
                    cells_w == board.width,
                    cells_h == board.height,
                    self.width == board.width,
                    self.height == board.height,
                    board.wf(),
                    board.cells.len() <= isize::MAX,
                    self.last@ == board.cells,
                    self.grid@.len() == board.cells.len(),
                    next == board.step().cells,
                    forall|k: int| 0 <= k < y * cells_w + x ==> #[trigger] self.grid@[k] == next[k],
                decreases cells_w - x,
            {
                let alive_neighbors: u8 = self.count_neighbors(x, y);
                proof {
                    lemma_cell_place(board, x as int, y as int);
                    assert(y * cells_w >= 0) by (nonlinear_arith)
                        requires
                            y >= 0,
                            cells_w >= 0,
                    ;
                }
                let idx: usize = (x + y * cells_w) as usize;
                let alive: bool = match self.last[idx] {
                    Cell::Alive => 2 <= alive_neighbors && alive_neighbors <= 3,
                    Cell::Dead => alive_neighbors == 3,
                };
                self.grid[idx] = Cell::from(alive);
                x = x + 1;
            }
            y = y + 1;
        }
        proof {
            assert(cells_h * cells_w == cells_w * cells_h) by (nonlinear_arith);
            assert(self.grid@ =~= next);
        }
    }

    fn put(&mut self, x: usize, y: usize, cell: Cell)
        requires
            old(self).wf(),
        ensures
            final(self).wf(),
            final(self)@ == old(self)@.put(x as int, y as int, cell),
            final(self).previous() == old(self).previous(),
    {
        match self.slot_of(x, y) {
            Some(slot) => {
                self.grid[slot] = cell;
            },
            None => {},
        }
    }

    /// Brings to life the cell `dx` columns and `dy` rows from the first of a
    /// three by three square, seen in the given heading.
    fn set_alive_near(&mut self, x: usize, y: usize, dx: usize, dy: usize, heading: Heading)
        requires
            old(self).wf(),
            dx <= 2,
            dy <= 2,
        ensures
            final(self).wf(),
            final(self)@ == old(self)@.with_glider_cell(
                x as int,
                y as int,
                dx as int,
                dy as int,
                heading,
            ),
            final(self).previous() == old(self).previous(),
    {
        let dx: usize = match heading {
            Heading::SouthEast | Heading::NorthEast => dx,
            Heading::SouthWest | Heading::NorthWest => 2 - dx,
        };
        let dy: usize = match heading {
            Heading::SouthEast | Heading::SouthWest => dy,
            Heading::NorthEast | Heading::NorthWest => 2 - dy,
        };
        match (x.checked_add(dx), y.checked_add(dy)) {
            (Some(column), Some(row)) => {
                self.set_alive(column, row);
            },
            _ => {
                proof {
                    lemma_far_away(self@, x + dx, y + dy);
                }
            },
        }
    }

    /// The place in the grid of the cell named `(x, y)`, if there is one.
    fn slot_of(&self, x: usize, y: usize) -> (slot: Option<usize>)
        requires
            self.wf(),
        ensures
            match slot {
                Some(slot) => self@.addresses(x as int, y as int) && slot == self@.slot(
                    x as int,
                    y as int,
                ),
                None => !self@.addresses(x as int, y as int),
            },
    {
        match y.checked_mul(self.height) {
            Some(row) => match row.checked_add(x) {
                Some(slot) => if slot < self.grid.len() {
                    Some(slot)
                } else {
                    None
                },
                None => None,
            },
            None => None,
        }
    }

    /// How many of the eight neighbours of column `x`, row `y` were alive in
    /// the last generation.
    fn count_neighbors(&self, x: isize, y: isize) -> (count: u8)
        requires
            self.last_board().wf(),
            self.last@.len() <= isize::MAX,
            2 * self.width <= isize::MAX,
            2 * self.height <= isize::MAX,
            0 <= x < self.width,
            0 <= y < self.height,
        ensures
            count == self.last_board().neighbors(x as int, y as int),
    {
        self.weight(x, y, -1, -1) + self.weight(x, y, 0, -1) + self.weight(x, y, 1, -1)
            + self.weight(x, y, -1, 0) + self.weight(x, y, 1, 0)
            + self.weight(x, y, -1, 1) + self.weight(x, y, 0, 1) + self.weight(x, y, 1, 1)
    }

    /// 1 if the cell `dx` columns and `dy` rows from column `x`, row `y` was
    /// alive in the last generation, else 0. The grid wraps at its borders.
    fn weight(&self, x: isize, y: isize, dx: isize, dy: isize) -> (weight: u8)
        requires
            self.last_board().wf(),
            self.last@.len() <= isize::MAX,
            2 * self.width <= isize::MAX,
            2 * self.height <= isize::MAX,
            0 <= x < self.width,
            0 <= y < self.height,
            -1 <= dx <= 1,
            -1 <= dy <= 1,
        ensures
            weight == self.last_board().weight(x + dx, y + dy),
            weight <= 1,
    {
        let cells_w: isize = self.width as isize;
        let cells_h: isize = self.height as isize;
        let i: isize = (x + dx + cells_w) % cells_w;
        let j: isize = (y + dy + cells_h) % cells_h;
        proof {
            lemma_mod_add_multiples_vanish(x + dx, cells_w as int);
            lemma_mod_add_multiples_vanish(y + dy, cells_h as int);
            lemma_cell_place(self.last_board(), i as int, j as int);
        }
        if self.last[(i + j * cells_w) as usize].is_alive() {
            1
        } else {
            0
        }
    }

    closed spec fn last_board(&self) -> Board {
        Board { width: self.width as nat, height: self.height as nat, cells: self.last@ }
    }
}

} // verus!
