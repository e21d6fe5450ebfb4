//! The rule of life, told by counting: how many living cells there are around a
//! cell decides what becomes of it.

use vstd::prelude::*;

use crate::board::{lemma_cell_place, Board};
use crate::cell::Cell;
use crate::laws::symmetry::step_obeys_rule;

verus! {

spec fn one_if(b: bool) -> nat {
    if b {
        1
    } else {
        0
    }
}

/// The set with one more member, or not.
spec fn joined(set: Set<(int, int)>, dx: int, dy: int, joins: bool) -> Set<(int, int)> {
    if joins {
        set.insert((dx, dy))
    } else {
        set
    }
}

proof fn lemma_joined(set: Set<(int, int)>, dx: int, dy: int, joins: bool)
    requires
        set.finite(),
        !set.contains((dx, dy)),
    ensures
        joined(set, dx, dy, joins).finite(),
        joined(set, dx, dy, joins).len() == set.len() + one_if(joins),
        forall|d: (int, int)| #[trigger]
            joined(set, dx, dy, joins).contains(d) <==> set.contains(d) || (joins && d.0 == dx
                && d.1 == dy),
{
    assert forall|d: (int, int)| #[trigger] joined(set, dx, dy, joins).contains(d)
        <==> set.contains(d) || (joins && d.0 == dx && d.1 == dy) by {
        if d.0 == dx && d.1 == dy {
            assert(d == (dx, dy));
        }
    }
}

/// Some of three neighbouring places in a row join a set that holds none of
/// that row.
proof fn lemma_row(set: Set<(int, int)>, dy: int, west: bool, middle: bool, east: bool) -> (wider:
    Set<(int, int)>)
    requires
        set.finite(),
        forall|d: (int, int)| #[trigger] set.contains(d) ==> d.1 != dy,
    ensures
        wider.finite(),
        wider.len() == set.len() + one_if(west) + one_if(middle) + one_if(east),
        forall|d: (int, int)| #[trigger]
            wider.contains(d) <==> set.contains(d) || (d.1 == dy && ((d.0 == -1 && west) || (d.0
                == 0 && middle) || (d.0 == 1 && east))),
{
    lemma_joined(set, -1, dy, west);
    let first = joined(set, -1, dy, west);
    lemma_joined(first, 0, dy, middle);
    let second = joined(first, 0, dy, middle);
    lemma_joined(second, 1, dy, east);
    joined(second, 1, dy, east)
}

/// The number that the rule of life is applied to is the number of living cells
/// among the eight around a cell.
pub proof fn neighbors_are_counted(board: Board, x: int, y: int)
    ensures
        ({
            let living = Set::new(
                |d: (int, int)|
                    -1 <= d.0 <= 1 && -1 <= d.1 <= 1 && !(d.0 == 0 && d.1 == 0) && board.torus(
                        x + d.0,
                        y + d.1,
                    ) == Cell::Alive,
            );
            &&& living.finite()
            &&& board.neighbors(x, y) == living.len()
            &&& living.len() <= 8
        }),
{
    let living = Set::new(
        |d: (int, int)|
            -1 <= d.0 <= 1 && -1 <= d.1 <= 1 && !(d.0 == 0 && d.1 == 0) && board.torus(
                x + d.0,
                y + d.1,
            ) == Cell::Alive,
    );
    let north = lemma_row(
        Set::empty(),
        -1,
        board.torus(x - 1, y - 1) == Cell::Alive,
        board.torus(x, y - 1) == Cell::Alive,
        board.torus(x + 1, y - 1) == Cell::Alive,
    );
    let middle = lemma_row(
        north,
        0,
        board.torus(x - 1, y) == Cell::Alive,
        false,
        board.torus(x + 1, y) == Cell::Alive,
    );
    let south = lemma_row(
        middle,
        1,
        board.torus(x - 1, y + 1) == Cell::Alive,
        board.torus(x, y + 1) == Cell::Alive,
        board.torus(x + 1, y + 1) == Cell::Alive,
    );
    assert forall|d: (int, int)| living.contains(d) == south.contains(d) by {
        let (a, b) = (x + d.0, y + d.1);
        if -1 <= d.0 <= 1 && -1 <= d.1 <= 1 {
            assert(a == x - 1 || a == x || a == x + 1);
            assert(b == y - 1 || b == y || b == y + 1);
        }
    }
    assert(living =~= south);
}

/// The torus is the board, again and again: within the board a column and row
/// is a cell of it, and one width or one height on is the same cell.
pub proof fn torus_is_the_board_again(board: Board, x: int, y: int)
    requires
        0 < board.width,
        0 < board.height,
    ensures
        x < board.width && y < board.height && 0 <= x && 0 <= y ==> board.torus(x, y)
            == board.cells[x + y * board.width],
        board.torus(x + board.width, y) == board.torus(x, y),
        board.torus(x, y + board.height) == board.torus(x, y),
{
    if 0 <= x < board.width && 0 <= y < board.height {
        lemma_cell_place(board, x, y);
    }
    vstd::arithmetic::div_mod::lemma_mod_add_multiples_vanish(x, board.width as int);
    vstd::arithmetic::div_mod::lemma_mod_add_multiples_vanish(y, board.height as int);
}

/// A cell is alive in the next generation exactly if three of the eight around
/// it are alive, or two of them and the cell itself. The columns and rows around
/// it are counted modulo the size of the board.
pub proof fn next_generation(board: Board, x: int, y: int)
    requires
        0 <= x < board.width,
        0 <= y < board.height,
    ensures
        ({
            let w = board.width as int;
            let h = board.height as int;
            let living = Set::new(
                |d: (int, int)|
                    -1 <= d.0 <= 1 && -1 <= d.1 <= 1 && !(d.0 == 0 && d.1 == 0)
                        && board.cells[(x + d.0) % w + ((y + d.1) % h) * w] == Cell::Alive,
            );
            &&& living.finite()
            &&& board.step().cells[x + y * w] == Cell::Alive <==> living.len() == 3 || (
            living.len() == 2 && board.cells[x + y * w] == Cell::Alive)
            &&& board.step().cells.len() == w * h
            &&& board.step().width == w
            &&& board.step().height == h
        }),
{
    let w = board.width as int;
    let h = board.height as int;
    let living = Set::new(
        |d: (int, int)|
            -1 <= d.0 <= 1 && -1 <= d.1 <= 1 && !(d.0 == 0 && d.1 == 0) && board.cells[(x + d.0) % w
                + ((y + d.1) % h) * w] == Cell::Alive,
    );
    let around = Set::new(
        |d: (int, int)|
            -1 <= d.0 <= 1 && -1 <= d.1 <= 1 && !(d.0 == 0 && d.1 == 0) && board.torus(
                x + d.0,
                y + d.1,
            ) == Cell::Alive,
    );
    assert(living =~= around);
    neighbors_are_counted(board, x, y);
    step_obeys_rule(board, x, y);
    lemma_cell_place(board, x, y);
    lemma_cell_place(board.step(), x, y);
}

/// Generations add up.
pub proof fn generations_add(board: Board, first: nat, second: nat)
    ensures
        board.after(0) == board,
        board.after(1) == board.step(),
        board.after(first + second) == board.after(first).after(second),
    decreases second,
{
    reveal_with_fuel(Board::after, 2);
    if second > 0 {
        generations_add(board, first, (second - 1) as nat);
    }
}

/// A board of any size up to half of what an `isize` can count can be stepped,
/// and so can one without cells.
pub proof fn most_boards_can_be_stepped(board: Board)
    requires
        board.cells.len() == 0 || (2 * board.width <= isize::MAX && 2 * board.height <= isize::MAX),
    ensures
        board.steppable(),
{
}

} // verus!
