//! A glider glides: after four generations it is the same pattern, one column
//! and one row further on its way.

use vstd::arithmetic::div_mod::lemma_fundamental_div_mod_converse;
use vstd::prelude::*;

use crate::board::{lemma_cell_place, lemma_place_of, lemma_reduce, lemma_sides, Board};
use crate::cell::{cell_of, Cell};
use crate::glider::Heading;
use crate::laws::symmetry::step_commutes_with_shift;

verus! {

impl Heading {
    /// By how many columns a glider moves in four generations.
    pub open spec fn columns(self) -> int {
        if self.westward() {
            -1
        } else {
            1
        }
    }

    /// By how many rows a glider moves in four generations.
    pub open spec fn rows(self) -> int {
        if self.northward() {
            -1
        } else {
            1
        }
    }
}

/// Whether column `a`, row `b` of its square belongs to a glider.
pub open spec fn in_glider(heading: Heading, a: int, b: int) -> bool {
    let c = if heading.westward() { 2 - a } else { a };
    let r = if heading.northward() { 2 - b } else { b };
    ||| c == 0 && r == 0
    ||| c == 1 && r == 1
    ||| c == 2 && r == 1
    ||| c == 0 && r == 2
    ||| c == 1 && r == 2
}

/// The board on which one glider is alive and nothing else. Its square starts
/// in column `x` of row `y` and may wrap around the borders.
pub open spec fn one_glider(width: nat, height: nat, x: int, y: int, heading: Heading) -> Board {
    Board {
        width,
        height,
        cells: Seq::new(
            width * height,
            |i: int|
                cell_of(
                    in_glider(
                        heading,
                        (i % (width as int) - x) % (width as int),
                        (i / (width as int) - y) % (height as int),
                    ),
                ),
        ),
    }
}

/// The cells of a glider on its way south-east through columns and rows 1 to 4
/// of the plane, for each of the five generations from one square to the next.
spec fn phase(k: int, c: int, r: int) -> bool {
    if k == 0 {
        ||| r == 1 && c == 1
        ||| r == 2 && (c == 2 || c == 3)
        ||| r == 3 && (c == 1 || c == 2)
    } else if k == 1 {
        ||| r == 1 && c == 2
        ||| r == 2 && c == 3
        ||| r == 3 && (c == 1 || c == 2 || c == 3)
    } else if k == 2 {
        ||| r == 2 && (c == 1 || c == 3)
        ||| r == 3 && (c == 2 || c == 3)
        ||| r == 4 && c == 2
    } else if k == 3 {
        ||| r == 2 && c == 3
        ||| r == 3 && (c == 1 || c == 3)
        ||| r == 4 && (c == 2 || c == 3)
    } else {
        ||| r == 2 && c == 2
        ||| r == 3 && (c == 3 || c == 4)
        ||| r == 4 && (c == 2 || c == 3)
    }
}

/// The same for every heading.
spec fn mark(heading: Heading, k: int, x: int, y: int) -> bool {
    phase(
        k,
        if heading.westward() { 5 - x } else { x },
        if heading.northward() { 5 - y } else { y },
    )
}

spec fn bit(b: bool) -> nat {
    if b {
        1
    } else {
        0
    }
}

spec fn marks_around(heading: Heading, k: int, x: int, y: int) -> nat {
    bit(mark(heading, k, x - 1, y - 1)) + bit(mark(heading, k, x, y - 1)) + bit(
        mark(heading, k, x + 1, y - 1),
    ) + bit(mark(heading, k, x - 1, y)) + bit(mark(heading, k, x + 1, y)) + bit(
        mark(heading, k, x - 1, y + 1),
    ) + bit(mark(heading, k, x, y + 1)) + bit(mark(heading, k, x + 1, y + 1))
}

spec fn marked_board(width: nat, height: nat, heading: Heading, k: int) -> Board {
    Board {
        width,
        height,
        cells: Seq::new(
            width * height,
            |i: int| cell_of(mark(heading, k, i % (width as int), i / (width as int))),
        ),
    }
}

spec fn phases_around(k: int, c: int, r: int) -> nat {
    bit(phase(k, c - 1, r - 1)) + bit(phase(k, c, r - 1)) + bit(phase(k, c + 1, r - 1)) + bit(
        phase(k, c - 1, r),
    ) + bit(phase(k, c + 1, r)) + bit(phase(k, c - 1, r + 1)) + bit(phase(k, c, r + 1)) + bit(
        phase(k, c + 1, r + 1),
    )
}

/// The rule of life takes each generation on the plane to the next.
proof fn lemma_phase_next(k: int, c: int, r: int)
    requires
        0 <= k < 4,
    ensures
        phase(k + 1, c, r) <==> phases_around(k, c, r) == 3 || (phase(k, c, r) && phases_around(
            k,
            c,
            r,
        ) == 2),
{
}

proof fn lemma_mark_next(heading: Heading, k: int, x: int, y: int)
    requires
        0 <= k < 4,
    ensures
        mark(heading, k + 1, x, y) <==> marks_around(heading, k, x, y) == 3 || (mark(
            heading,
            k,
            x,
            y,
        ) && marks_around(heading, k, x, y) == 2),
{
    let c = if heading.westward() {
        5 - x
    } else {
        x
    };
    let r = if heading.northward() {
        5 - y
    } else {
        y
    };
    lemma_phase_next(k, c, r);
    assert(5 - (x - 1) == (5 - x) + 1);
    assert(5 - (x + 1) == (5 - x) - 1);
    assert(5 - (y - 1) == (5 - y) + 1);
    assert(5 - (y + 1) == (5 - y) - 1);
    assert(marks_around(heading, k, x, y) == phases_around(k, c, r));
}

/// The board shows the plane up to one column and row past its borders.
proof fn lemma_marked_torus(width: nat, height: nat, heading: Heading, k: int, x: int, y: int)
    requires
        6 <= width,
        6 <= height,
        -1 <= x <= width,
        -1 <= y <= height,
    ensures
        marked_board(width, height, heading, k).torus(x, y) == cell_of(mark(heading, k, x, y)),
{
    let board = marked_board(width, height, heading, k);
    let (w, h) = (width as int, height as int);
    let a = if x == -1 {
        w - 1
    } else if x == w {
        0
    } else {
        x
    };
    let b = if y == -1 {
        h - 1
    } else if y == h {
        0
    } else {
        y
    };
    lemma_fundamental_div_mod_converse(
        x,
        w,
        if x == -1 {
            -1int
        } else if x == w {
            1int
        } else {
            0int
        },
        a,
    );
    lemma_fundamental_div_mod_converse(
        y,
        h,
        if y == -1 {
            -1int
        } else if y == h {
            1int
        } else {
            0int
        },
        b,
    );
    lemma_cell_place(board, a, b);
}

/// A step takes each generation on the board to the next.
proof fn lemma_marked_step(width: nat, height: nat, heading: Heading, k: int)
    requires
        6 <= width,
        6 <= height,
        0 <= k < 4,
    ensures
        marked_board(width, height, heading, k).step() == marked_board(
            width,
            height,
            heading,
            k + 1,
        ),
{
    let board = marked_board(width, height, heading, k);
    let next = marked_board(width, height, heading, k + 1);
    let w = width as int;
    assert forall|i: int| 0 <= i < width * height implies #[trigger] board.step().cells[i]
        == next.cells[i] by {
        let (x, y) = (i % w, i / w);
        assert(0 <= x < width && 0 <= y < height) by {
            lemma_place_of(board, i);
        }
        lemma_marked_torus(width, height, heading, k, x - 1, y - 1);
        lemma_marked_torus(width, height, heading, k, x, y - 1);
        lemma_marked_torus(width, height, heading, k, x + 1, y - 1);
        lemma_marked_torus(width, height, heading, k, x - 1, y);
        lemma_marked_torus(width, height, heading, k, x, y);
        lemma_marked_torus(width, height, heading, k, x + 1, y);
        lemma_marked_torus(width, height, heading, k, x - 1, y + 1);
        lemma_marked_torus(width, height, heading, k, x, y + 1);
        lemma_marked_torus(width, height, heading, k, x + 1, y + 1);
        lemma_mark_next(heading, k, x, y);
        assert(board.neighbors(x, y) == marks_around(heading, k, x, y));
    }
    assert(board.step() =~= next);
}

/// The first and the last generation are one glider, in the square it leaves
/// and in the one it comes to.
proof fn lemma_ends(width: nat, height: nat, heading: Heading)
    requires
        6 <= width,
        6 <= height,
    ensures
        ({
            let x: int = if heading.westward() { 2 } else { 1 };
            let y: int = if heading.northward() { 2 } else { 1 };
            &&& marked_board(width, height, heading, 0) == one_glider(width, height, x, y, heading)
            &&& marked_board(width, height, heading, 4) == one_glider(
                width,
                height,
                x + heading.columns(),
                y + heading.rows(),
                heading,
            )
        }),
{
    let x: int = if heading.westward() {
        2
    } else {
        1
    };
    let y: int = if heading.northward() {
        2
    } else {
        1
    };
    lemma_marked_glider(width, height, heading, 0, x, y);
    lemma_marked_glider(width, height, heading, 4, x + heading.columns(), y + heading.rows());
}

proof fn lemma_marked_glider(width: nat, height: nat, heading: Heading, k: int, x: int, y: int)
    requires
        6 <= width,
        6 <= height,
        1 <= x <= 2,
        1 <= y <= 2,
        forall|c: int, r: int|
            #![trigger mark(heading, k, c, r)]
            mark(heading, k, c, r) == in_glider(heading, c - x, r - y),
    ensures
        marked_board(width, height, heading, k) == one_glider(width, height, x, y, heading),
{
    let one = marked_board(width, height, heading, k);
    let two = one_glider(width, height, x, y, heading);
    let (w, h) = (width as int, height as int);
    assert forall|i: int| 0 <= i < width * height implies #[trigger] one.cells[i]
        == two.cells[i] by {
        lemma_place_of(one, i);
        let (c, r) = (i % w, i / w);
        lemma_fundamental_div_mod_converse(
            c - x,
            w,
            if c < x {
                -1int
            } else {
                0int
            },
            if c < x {
                c - x + w
            } else {
                c - x
            },
        );
        lemma_fundamental_div_mod_converse(
            r - y,
            h,
            if r < y {
                -1int
            } else {
                0int
            },
            if r < y {
                r - y + h
            } else {
                r - y
            },
        );
        assert(mark(heading, k, c, r) == in_glider(heading, c - x, r - y));
    }
    assert(one =~= two);
}

/// A glider elsewhere is the same board seen from elsewhere.
proof fn lemma_glider_shifted(
    width: nat,
    height: nat,
    x: int,
    y: int,
    dx: int,
    dy: int,
    heading: Heading,
)
    ensures
        one_glider(width, height, x, y, heading).shifted(dx, dy) == one_glider(
            width,
            height,
            x - dx,
            y - dy,
            heading,
        ),
{
    let board = one_glider(width, height, x, y, heading);
    let moved = board.shifted(dx, dy);
    let goal = one_glider(width, height, x - dx, y - dy, heading);
    let (w, h) = (width as int, height as int);
    assert forall|i: int| 0 <= i < width * height implies #[trigger] moved.cells[i]
        == goal.cells[i] by {
        lemma_sides(board, i);
        let (c, r) = (i % w + dx, i / w + dy);
        lemma_reduce(c, -x, w);
        lemma_reduce(r, -y, h);
        lemma_cell_place(board, c % w, r % h);
        assert(c - x == i % w - (x - dx));
        assert(r - y == i / w - (y - dy));
    }
    assert(moved =~= goal);
}

/// Any number of steps and a shift can be exchanged.
pub proof fn generations_commute_with_shift(board: Board, dx: int, dy: int, generations: nat)
    ensures
        board.shifted(dx, dy).after(generations) == board.after(generations).shifted(dx, dy),
    decreases generations,
{
    if generations > 0 {
        generations_commute_with_shift(board, dx, dy, (generations - 1) as nat);
        step_commutes_with_shift(board.after((generations - 1) as nat), dx, dy);
    }
}

/// Wherever it is and whichever way it heads, a glider that is alone on a board
/// of six columns and rows or more moves by one column and one row in four
/// generations, across the borders as well.
pub proof fn glider_glides(width: nat, height: nat, x: int, y: int, heading: Heading)
    requires
        6 <= width,
        6 <= height,
    ensures
        one_glider(width, height, x, y, heading).after(4) == one_glider(
            width,
            height,
            x + heading.columns(),
            y + heading.rows(),
            heading,
        ),
{
    let a: int = if heading.westward() {
        2
    } else {
        1
    };
    let b: int = if heading.northward() {
        2
    } else {
        1
    };
    let home = one_glider(width, height, a, b, heading);
    lemma_ends(width, height, heading);
    lemma_marked_step(width, height, heading, 0);
    lemma_marked_step(width, height, heading, 1);
    lemma_marked_step(width, height, heading, 2);
    lemma_marked_step(width, height, heading, 3);
    reveal_with_fuel(Board::after, 5);
    assert(home.after(4) == marked_board(width, height, heading, 4));
    generations_commute_with_shift(home, a - x, b - y, 4);
    lemma_glider_shifted(width, height, a, b, a - x, b - y, heading);
    lemma_glider_shifted(
        width,
        height,
        a + heading.columns(),
        b + heading.rows(),
        a - x,
        b - y,
        heading,
    );
}

/// On an empty square board `spawn_glider` makes that pattern, where its square
/// is within the board.
pub proof fn spawned_glider(size: nat, x: int, y: int, heading: Heading)
    requires
        0 <= x,
        x + 2 < size,
        0 <= y,
        y + 2 < size,
    ensures
        Board::empty(size, size).with_glider(x, y, heading) == one_glider(size, size, x, y, heading),
{
    let board = Board::empty(size, size);
    let spawned = board.with_glider(x, y, heading);
    let goal = one_glider(size, size, x, y, heading);
    let s = size as int;
    assert forall|i: int| 0 <= i < size * size implies #[trigger] spawned.cells[i]
        == goal.cells[i] by {
        lemma_place_of(board, i);
        let (c, r) = (i % s, i / s);
        lemma_offset(c, x, s);
        lemma_offset(r, y, s);
        assert forall|a: int, b: int|
            #![trigger board.slot(x + a, y + b)]
            0 <= a <= 2 && 0 <= b <= 2 implies 0 <= board.slot(x + a, y + b) < size * size && (
        board.slot(x + a, y + b) == i <==> c == x + a && r == y + b) by {
            lemma_cell_place(board, x + a, y + b);
        }
        lemma_glider_cells(board, x, y, heading, i, c, r);
    }
    assert(spawned =~= goal);
}

/// Counted from a column within the board, another one is less than the span of
/// a glider away only if it is no further back.
proof fn lemma_offset(c: int, x: int, s: int)
    requires
        0 <= c < s,
        0 <= x,
        x + 2 < s,
    ensures
        forall|a: int| 0 <= a <= 2 ==> ((c - x) % s == a <==> c == #[trigger] (x + a)),
{
    lemma_fundamental_div_mod_converse(
        c - x,
        s,
        if c < x {
            -1int
        } else {
            0int
        },
        if c < x {
            c - x + s
        } else {
            c - x
        },
    );
}

/// What spawning a glider leaves in a cell, given how far the cell is from the
/// square of the glider.
proof fn lemma_glider_cells(board: Board, x: int, y: int, heading: Heading, i: int, c: int, r: int)
    requires
        0 <= i < board.cells.len(),
        forall|a: int, b: int|
            #![trigger board.slot(x + a, y + b)]
            0 <= a <= 2 && 0 <= b <= 2 ==> 0 <= board.slot(x + a, y + b) < board.cells.len() && (
            board.slot(x + a, y + b) == i <==> c == x + a && r == y + b),
    ensures
        board.with_glider(x, y, heading).cells[i] == (if in_glider(heading, c - x, r - y) {
            Cell::Alive
        } else {
            board.cells[i]
        }),
{
    let west = heading.westward();
    let north = heading.northward();
    let left: int = if west {
        2
    } else {
        0
    };
    let right: int = if west {
        0
    } else {
        2
    };
    let top: int = if north {
        2
    } else {
        0
    };
    let bottom: int = if north {
        0
    } else {
        2
    };
    let first = board.with_glider_cell(x, y, 0, 0, heading);
    let second = first.with_glider_cell(x, y, 1, 1, heading);
    let third = second.with_glider_cell(x, y, 2, 1, heading);
    let fourth = third.with_glider_cell(x, y, 0, 2, heading);
    assert(first == board.put(x + left, y + top, Cell::Alive));
    assert(second == first.put(x + 1, y + 1, Cell::Alive));
    assert(third == second.put(x + right, y + 1, Cell::Alive));
    assert(fourth == third.put(x + left, y + bottom, Cell::Alive));
    assert(board.with_glider(x, y, heading) == fourth.put(x + 1, y + bottom, Cell::Alive));
    assert(first.slot(x + 1, y + 1) == board.slot(x + 1, y + 1));
    assert(second.slot(x + right, y + 1) == board.slot(x + right, y + 1));
    assert(third.slot(x + left, y + bottom) == board.slot(x + left, y + bottom));
    assert(fourth.slot(x + 1, y + bottom) == board.slot(x + 1, y + bottom));
    assert(board.slot(x + left, y + top) == i <==> c == x + left && r == y + top);
}

/// The names of the headings are the ways that gliders go: rows are counted
/// southward, columns eastward.
pub proof fn headings_are_directions()
    ensures
        Heading::SouthEast.columns() == 1,
        Heading::SouthEast.rows() == 1,
        Heading::SouthWest.columns() == -1,
        Heading::SouthWest.rows() == 1,
        Heading::NorthEast.columns() == 1,
        Heading::NorthEast.rows() == -1,
        Heading::NorthWest.columns() == -1,
        Heading::NorthWest.rows() == -1,
{
}

/// Every number stands for a heading, and it is its rest by four that decides
/// which.
pub proof fn numbers_are_headings(one: u8, other: u8)
    ensures
        Heading::spec_from_index(0) == Heading::SouthEast,
        Heading::spec_from_index(1) == Heading::SouthWest,
        Heading::spec_from_index(2) == Heading::NorthEast,
        Heading::spec_from_index(3) == Heading::NorthWest,
        Heading::spec_from_index(one) == Heading::spec_from_index(other) <==> one % 4 == other % 4,
{
}

/// On any board, whatever lives there, spawning a glider brings its five cells
/// to life and leaves every other cell as it is.
pub proof fn spawning_sets_five_cells(board: Board, x: int, y: int, heading: Heading, i: int)
    requires
        0 <= i < board.cells.len(),
    ensures
        ({
            let hit = |dx: int, dy: int| i == (x + dx) + (y + dy) * board.height;
            board.with_glider(x, y, heading).cells[i] == (if match heading {
                Heading::SouthEast => hit(0, 0) || hit(1, 1) || hit(2, 1) || hit(0, 2) || hit(1, 2),
                Heading::SouthWest => hit(2, 0) || hit(1, 1) || hit(0, 1) || hit(2, 2) || hit(1, 2),
                Heading::NorthEast => hit(0, 2) || hit(1, 1) || hit(2, 1) || hit(0, 0) || hit(1, 0),
                Heading::NorthWest => hit(2, 2) || hit(1, 1) || hit(0, 1) || hit(2, 0) || hit(1, 0),
            } {
                Cell::Alive
            } else {
                board.cells[i]
            })
        }),
        board.with_glider(x, y, heading).cells.len() == board.cells.len(),
        board.with_glider(x, y, heading).width == board.width,
        board.with_glider(x, y, heading).height == board.height,
{
}

} // verus!
