//! Drawing a game into the memory of a window: each cell is a square of
//! `CELL_SIZE` by `CELL_SIZE` pixels, each pixel four bytes (blue, green, red
//! and one that is not shown).

use vstd::arithmetic::div_mod::{
    lemma_div_by_multiple, lemma_div_is_ordered, lemma_fundamental_div_mod_converse,
};
use vstd::arithmetic::mul::lemma_mul_inequality;
use vstd::prelude::*;

use crate::board::Board;
use crate::cell::Cell;
use crate::game::GameOfLife;

verus! {

/// The side of a cell, in pixels.
pub const CELL_SIZE: usize = 12;

/// The size of a pixel, in bytes.
pub const PIXEL_SIZE: usize = 4;

pub const WHITE: [u8; 4] = [0xFF, 0xFF, 0xFF, 0xFF];

pub const BLACK: [u8; 4] = [0x00, 0x00, 0x00, 0xFF];

/// The bytes of a pixel of the cell.
pub open spec fn color(cell: Cell) -> Seq<u8> {
    match cell {
        Cell::Alive => seq![0xFFu8, 0xFFu8, 0xFFu8, 0xFFu8],
        Cell::Dead => seq![0x00u8, 0x00u8, 0x00u8, 0xFFu8],
    }
}

/// The byte that the picture of the board has at distance `p` from its start,
/// if it covers that byte. The picture is `rows` pixels high, and one row of
/// pixels starts `stride` bytes after the other; a pixel shows the cell named
/// by its column and row, both counted in squares.
pub open spec fn picture(board: Board, rows: int, stride: int, p: int) -> Option<u8> {
    let x = (p % stride) / 4;
    let y = p / stride;
    if 0 <= p && 0 < stride && y < rows && x < board.width * 12 {
        Some(color(board.cells[board.slot(x / 12, y / 12)])[(p % stride) % 4])
    } else {
        None
    }
}

/// The memory with the picture drawn into it from `offset` on, and otherwise
/// as it was.
pub open spec fn drawn(
    memory: Seq<u8>,
    offset: int,
    board: Board,
    rows: int,
    stride: int,
) -> Seq<u8> {
    Seq::new(
        memory.len(),
        |k: int|
            match picture(board, rows, stride, k - offset) {
                Some(byte) => byte,
                None => memory[k],
            },
    )
}

/// Whether the picture can be drawn: each square of it names a cell, and a row
/// of squares fits between one row of pixels and the next.
pub open spec fn drawable(board: Board, rows: int, stride: int) -> bool {
    rows > 0 && board.width > 0 ==> {
        &&& board.slot(board.width - 1, (rows - 1) / 12) < board.cells.len()
        &&& board.width * 48 <= stride
    }
}

/// The bytes of the pixel in column `x`, row `y` of the picture.
pub(crate) proof fn lemma_pixel(board: Board, rows: int, stride: int, x: int, y: int)
    requires
        0 <= y < rows,
        0 <= x < board.width * 12,
        board.width * 48 <= stride,
    ensures
        forall|c: int|
            0 <= c < 4 ==> #[trigger] picture(board, rows, stride, y * stride + x * 4 + c) == Some(
                color(board.cells[board.slot(x / 12, y / 12)])[c],
            ),
{
    assert forall|c: int| 0 <= c < 4 implies #[trigger] picture(
        board,
        rows,
        stride,
        y * stride + x * 4 + c,
    ) == Some(color(board.cells[board.slot(x / 12, y / 12)])[c]) by {
        let p = y * stride + x * 4 + c;
        assert(0 <= y * stride) by (nonlinear_arith)
            requires
                0 <= y,
                0 <= stride,
        ;
        lemma_fundamental_div_mod_converse(p, stride, y, x * 4 + c);
    }
}

/// Past its last square a row of the picture covers nothing.
proof fn lemma_margin(board: Board, rows: int, stride: int, y: int, p: int)
    requires
        0 <= y,
        board.width * 48 <= stride,
        y * stride + board.width * 48 <= p < (y + 1) * stride,
    ensures
        picture(board, rows, stride, p) is None,
{
    assert((y + 1) * stride == y * stride + stride) by (nonlinear_arith);
    lemma_fundamental_div_mod_converse(p, stride, y, p - y * stride);
}

/// Past its last row the picture covers nothing.
proof fn lemma_below(board: Board, rows: int, stride: int, p: int)
    requires
        0 <= rows,
        0 <= stride,
        rows * stride <= p,
    ensures
        picture(board, rows, stride, p) is None,
{
    if 0 < stride {
        lemma_div_is_ordered(rows * stride, p, stride);
        lemma_div_by_multiple(rows, stride);
    }
}

/// Every square of a picture that can be drawn names a cell.
proof fn lemma_square(board: Board, rows: int, stride: int, cell_x: int, y: int)
    requires
        drawable(board, rows, stride),
        0 <= y < rows,
        0 <= cell_x < board.width,
    ensures
        board.addresses(cell_x, y / 12),
{
    lemma_div_is_ordered(y, rows - 1, 12);
    lemma_mul_inequality(y / 12, (rows - 1) / 12, board.height as int);
    assert(0 <= (y / 12) * board.height) by (nonlinear_arith)
        requires
            0 <= y / 12,
            0 <= board.height,
    ;
}

/// Draws the game, `rows` pixels high, into the memory from `offset` on; one
/// row of pixels starts `stride` bytes after the other.
pub fn draw(game: &GameOfLife, rows: usize, stride: usize, memory: &mut [u8], offset: usize)
    requires
        game.wf(),
        drawable(game@, rows as int, stride as int),
        offset + rows * stride <= old(memory)@.len(),
    ensures
        final(memory)@ == drawn(old(memory)@, offset as int, game@, rows as int, stride as int),
{
    let grid_w: usize = game.get_width();
    let len: usize = memory.len();
    let ghost board = game@;
    let ghost before = memory@;
    let ghost target = drawn(before, offset as int, board, rows as int, stride as int);
    let mut y: usize = 0;
    while y < rows
        invariant
            y <= rows,
            game.wf(),
            board == game@,
            grid_w == board.width,
            drawable(board, rows as int, stride as int),
            offset + rows * stride <= before.len(),
            memory@.len() == before.len(),
            before.len() == len,
            target == drawn(before, offset as int, board, rows as int, stride as int),
            forall|k: int|
                0 <= k < before.len() ==> #[trigger] memory@[k] == (if k < offset + y * stride {
                    target[k]
                } else {
                    before[k]
                }),
        decreases rows - y,
    {
        assert(y * stride + stride <= rows * stride) by (nonlinear_arith)
            requires
                y < rows,
                0 <= stride,
        ;
        assert(y * stride >= 0) by (nonlinear_arith)
            requires
                y >= 0,
                stride >= 0,
        ;
        let start: usize = offset + y * stride;
        let cell_y: usize = y / CELL_SIZE;
        let mut cell_x: usize = 0;
        while cell_x < grid_w
            invariant
                y < rows,
                start == offset + y * stride,
                start + stride <= before.len(),
                cell_y == y / 12,
                cell_x <= grid_w,
                game.wf(),
                board == game@,
                grid_w == board.width,
                drawable(board, rows as int, stride as int),
                memory@.len() == before.len(),
                before.len() == len,
                target == drawn(before, offset as int, board, rows as int, stride as int),
                forall|k: int|
                    0 <= k < before.len() ==> #[trigger] memory@[k] == (if k < start + cell_x * 48 {
                        target[k]
                    } else {
                        before[k]
                    }),
            decreases grid_w - cell_x,
        {
            proof {
                lemma_square(board, rows as int, stride as int, cell_x as int, y as int);
            }
            let cell: Cell = game.at(cell_x, cell_y).unwrap();
            let pixel: [u8; 4] = if cell.is_alive() {
                WHITE
            } else {
                BLACK
            };
            let mut i: usize = 0;
            while i < CELL_SIZE
                invariant
                    y < rows,
                    start == offset + y * stride,
                    start + stride <= before.len(),
                    cell_x < grid_w,
                    i <= CELL_SIZE,
                    pixel@ == color(board.cells[board.slot(cell_x as int, y as int / 12)]),
                    board == game@,
                    grid_w == board.width,
                    drawable(board, rows as int, stride as int),
                    memory@.len() == before.len(),
                    before.len() == len,
                    target == drawn(before, offset as int, board, rows as int, stride as int),
                    forall|k: int|
                        0 <= k < before.len() ==> #[trigger] memory@[k] == (if k < start + (cell_x
                            * 12 + i) * 4 {
                            target[k]
                        } else {
                            before[k]
                        }),
                decreases CELL_SIZE - i,
            {
                let x0: usize = start + (cell_x * CELL_SIZE + i) * PIXEL_SIZE;
                let ghost x = cell_x * 12 + i;
                proof {
                    lemma_pixel(board, rows as int, stride as int, x, y as int);
                    assert(x / 12 == cell_x);
                    assert forall|c: int| 0 <= c < 4 implies #[trigger] target[x0 + c]
                        == pixel@[c] by {
                        assert(x0 + c - offset == y * stride + x * 4 + c);
                    }
                }
                memory[x0] = pixel[0];
                memory[x0 + 1] = pixel[1];
                memory[x0 + 2] = pixel[2];
                memory[x0 + 3] = pixel[3];
                proof {
                    assert(target[x0 + 0] == pixel@[0]);
                    assert(target[x0 + 1] == pixel@[1]);
                    assert(target[x0 + 2] == pixel@[2]);
                    assert(target[x0 + 3] == pixel@[3]);
                }
                i = i + 1;
            }
            cell_x = cell_x + 1;
        }
        proof {
            assert((y + 1) * stride == y * stride + stride) by (nonlinear_arith);
            assert forall|k: int| 0 <= k < before.len() implies #[trigger] memory@[k] == (if k
                < offset + (y + 1) * stride {
                target[k]
            } else {
                before[k]
            }) by {
                if start + grid_w * 48 <= k < start + stride {
                    lemma_margin(board, rows as int, stride as int, y as int, k - offset);
                }
            }
        }
        y = y + 1;
    }
    proof {
        assert forall|k: int| 0 <= k < before.len() implies #[trigger] memory@[k] == target[k] by {
            if offset + rows * stride <= k {
                lemma_below(board, rows as int, stride as int, k - offset);
            }
        }
        assert(memory@ =~= target);
    }
}

} // verus!
