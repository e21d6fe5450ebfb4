//! What holds of the buffers and of what is drawn into them.

use vstd::arithmetic::div_mod::{
    lemma_div_pos_is_pos, lemma_fundamental_div_mod, lemma_mod_bound,
};
use vstd::arithmetic::mul::lemma_mul_is_commutative;
use vstd::prelude::*;

use crate::board::Board;
use crate::canvas::{color, drawable, drawn, lemma_pixel, picture};
use crate::cell::Cell;
use crate::laws::naming::names_are_places;
use crate::model::AppModel;
use crate::pool::{first_free, lemma_buffer_within, PoolModel};

verus! {

proof fn lemma_first_free(busy: Seq<bool>, from: int)
    requires
        0 <= from <= busy.len(),
    ensures
        match first_free(busy, from) {
            Some(index) => {
                &&& from <= index < busy.len()
                &&& !busy[index]
                &&& forall|j: int| from <= j < index ==> #[trigger] busy[j]
            },
            None => forall|j: int| from <= j < busy.len() ==> #[trigger] busy[j],
        },
    decreases busy.len() - from,
{
    if from < busy.len() && busy[from] {
        lemma_first_free(busy, from + 1);
    }
}

/// A buffer that is handed out is free, and the ones before it are not; none is
/// handed out exactly if none is free.
pub proof fn free_buffer_is_free(pool: PoolModel)
    ensures
        match pool.free_buffer() {
            Some(index) => {
                &&& 0 <= index < pool.busy.len()
                &&& !pool.busy[index]
                &&& forall|j: int| 0 <= j < index ==> #[trigger] pool.busy[j]
            },
            None => forall|j: int| 0 <= j < pool.busy.len() ==> #[trigger] pool.busy[j],
        },
{
    lemma_first_free(pool.busy, 0);
}

/// A buffer that was handed out is not handed out again before it came back.
pub proof fn handed_out_once(pool: PoolModel, held: int)
    requires
        0 <= held < pool.busy.len(),
        pool.busy[held] || pool.free_buffer() == Some(held),
    ensures
        pool.acquire().busy[held],
        pool.acquire().free_buffer() != Some(held),
{
    free_buffer_is_free(pool);
    free_buffer_is_free(pool.acquire());
}

/// Giving back the buffer that was just handed out leaves the pool as it was.
pub proof fn release_undoes_acquire(pool: PoolModel)
    requires
        pool.free_buffer() is Some,
    ensures
        pool.acquire().release(pool.free_buffer().unwrap()) == pool,
{
    free_buffer_is_free(pool);
    assert(pool.acquire().release(pool.free_buffer().unwrap()).busy =~= pool.busy);
}

/// A pool that a buffer came back to has one to hand out.
pub proof fn released_is_free(pool: PoolModel, index: int)
    requires
        0 <= index < pool.busy.len(),
    ensures
        pool.release(index).free_buffer() is Some,
{
    free_buffer_is_free(pool.release(index));
    assert(!pool.release(index).busy[index]);
}

/// No two buffers share a byte, and together they make up the memory of the
/// pool.
pub proof fn buffers_are_apart(pool: PoolModel, one: int, other: int)
    requires
        0 <= one < other < 3,
    ensures
        pool.offset(one) + pool.buffer_size() <= pool.offset(other),
        pool.offset(0) == 0,
        pool.offset(2) + pool.buffer_size() == pool.total_size(),
        pool.offset(other) + pool.buffer_size() <= pool.total_size(),
{
    let size = pool.buffer_size() as int;
    assert(one * size + size <= other * size) by (nonlinear_arith)
        requires
            one < other,
            0 <= size,
    ;
    lemma_buffer_within(pool, other);
}

/// Where in the picture a byte of a buffer of the window is.
proof fn lemma_byte(app: AppModel, p: int)
    requires
        app.wf(),
        0 <= p < app.pool.buffer_size(),
    ensures
        0 <= p % 2400 < 2400,
        0 <= p / 2400 < 600,
        picture(app.board, 600, 2400, p) is Some,
{
}

/// Drawing changes no byte outside the buffer that was free.
pub proof fn drawing_stays_in_buffer(app: AppModel, memory: Seq<u8>, k: int)
    requires
        app.wf(),
        0 <= k < memory.len(),
        app.pool.free_buffer() matches Some(index) ==> k < app.pool.offset(index) || k
            >= app.pool.offset(index) + app.pool.buffer_size(),
    ensures
        app.frame(memory)[k] == memory[k],
{
    if let Some(index) = app.pool.free_buffer() {
        let p = k - app.pool.offset(index);
        if p >= app.pool.buffer_size() {
            assert(picture(app.board, 600, 2400, p) is None);
        }
    }
}

/// A buffer that the compositor holds is not drawn into.
pub proof fn held_buffers_are_kept(app: AppModel, memory: Seq<u8>, held: int, k: int)
    requires
        app.wf(),
        0 <= held < 3,
        app.pool.busy[held],
        app.pool.offset(held) <= k < app.pool.offset(held) + app.pool.buffer_size(),
        app.pool.total_size() <= memory.len(),
    ensures
        app.frame(memory)[k] == memory[k],
{
    free_buffer_is_free(app.pool);
    lemma_buffer_within(app.pool, held);
    if let Some(index) = app.pool.free_buffer() {
        if index < held {
            buffers_are_apart(app.pool, index, held);
        } else {
            buffers_are_apart(app.pool, held, index);
        }
    }
    drawing_stays_in_buffer(app, memory, k);
}

/// The window is drawn whole: what was in the buffer before does not show.
pub proof fn drawing_covers_window(app: AppModel, one: Seq<u8>, other: Seq<u8>, k: int)
    requires
        app.wf(),
        one.len() == other.len(),
        0 <= k < one.len(),
        app.pool.free_buffer() matches Some(index) && app.pool.offset(index) <= k
            < app.pool.offset(index) + app.pool.buffer_size(),
    ensures
        app.frame(one)[k] == app.frame(other)[k],
{
    let index = app.pool.free_buffer().unwrap();
    lemma_byte(app, k - app.pool.offset(index));
}

/// Each pixel of the window shows the cell whose square it is in: white if the
/// cell in that column and row is alive, else black.
pub proof fn pixel_shows_cell(app: AppModel, memory: Seq<u8>, x: int, y: int, c: int)
    requires
        app.wf(),
        app.pool.total_size() <= memory.len(),
        app.pool.free_buffer() is Some,
        0 <= x < 600,
        0 <= y < 600,
        0 <= c < 4,
    ensures
        app.frame(memory)[app.pool.offset(app.pool.free_buffer().unwrap()) + y
            * app.pool.stride() + x * 4 + c] == color(app.board.torus(x / 12, y / 12))[c],
{
    free_buffer_is_free(app.pool);
    let index = app.pool.free_buffer().unwrap();
    lemma_buffer_within(app.pool, index);
    lemma_pixel(app.board, 600, 2400, x, y);
    names_are_places(app.board, x / 12, y / 12);
    let p = y * 2400 + x * 4 + c;
    assert(picture(app.board, 600, 2400, p) is Some);
    assert(app.pool.offset(index) + p - app.pool.offset(index) == p);
}

/// Handing out a buffer makes the first free one held and leaves the others as
/// they are: one is held then exactly if it was, or if all before it were.
pub proof fn acquired_cell_by_cell(pool: PoolModel, index: int)
    requires
        0 <= index < pool.busy.len(),
    ensures
        pool.acquire().busy[index] <==> pool.busy[index] || (forall|j: int|
            0 <= j < index ==> #[trigger] pool.busy[j]),
        pool.acquire().busy.len() == pool.busy.len(),
        pool.acquire().width == pool.width,
        pool.acquire().height == pool.height,
{
    free_buffer_is_free(pool);
    if forall|j: int| 0 <= j < index ==> #[trigger] pool.busy[j] {
        if let Some(free) = pool.free_buffer() {
            assert(free < index ==> pool.busy[free]);
        }
    }
}

/// A buffer that comes back is free, and the others are as they were.
pub proof fn released_cell_by_cell(pool: PoolModel, index: int, other: int)
    requires
        0 <= index < pool.busy.len(),
        0 <= other < pool.busy.len(),
    ensures
        pool.release(index).busy[other] <==> pool.busy[other] && other != index,
        pool.release(index).busy.len() == pool.busy.len(),
        pool.release(index).width == pool.width,
        pool.release(index).height == pool.height,
{
}

/// A row of pixels takes four bytes for each, a buffer as many rows as the
/// picture is high, the pool three buffers, one right after the other.
pub proof fn sizes_of_a_pool(pool: PoolModel, index: int)
    ensures
        pool.stride() == pool.width + pool.width + pool.width + pool.width,
        pool.buffer_size() == pool.width * pool.height * 4,
        pool.total_size() == pool.buffer_size() + pool.buffer_size() + pool.buffer_size(),
        pool.offset(0) == 0,
        pool.offset(index + 1) == pool.offset(index) + pool.buffer_size(),
{
    assert(pool.width * 4 * pool.height == pool.width * pool.height * 4) by (nonlinear_arith);
    assert((index + 1) * pool.buffer_size() == index * pool.buffer_size() + pool.buffer_size())
        by (nonlinear_arith);
}

/// Wherever on a picture that fits its rows, a pixel is white if the cell that
/// its square names is alive; else it is black. Of a black pixel only the last
/// byte, which is not shown, is set.
pub proof fn pixels_of_any_picture(
    memory: Seq<u8>,
    offset: int,
    board: Board,
    rows: int,
    stride: int,
    x: int,
    y: int,
    c: int,
)
    requires
        0 <= x < board.width * 12,
        0 <= y < rows,
        0 <= c < 4,
        board.width * 48 <= stride,
        0 <= offset,
        offset + rows * stride <= memory.len(),
    ensures
        drawn(memory, offset, board, rows, stride)[offset + y * stride + x * 4 + c] == (if c == 3
            || board.cells[x / 12 + (y / 12) * board.height] == Cell::Alive {
            0xFFu8
        } else {
            0x00u8
        }),
{
    lemma_pixel(board, rows, stride, x, y);
    assert(0 <= y * stride && y * stride + stride <= rows * stride) by (nonlinear_arith)
        requires
            0 <= y < rows,
            0 <= stride,
    ;
    let p = y * stride + x * 4 + c;
    assert(picture(board, rows, stride, p) is Some);
    assert(offset + y * stride + x * 4 + c - offset == p);
}

/// Drawing changes no byte that belongs to no pixel of the picture, and makes
/// the memory neither longer nor shorter.
pub proof fn nothing_else_is_drawn(
    memory: Seq<u8>,
    offset: int,
    board: Board,
    rows: int,
    stride: int,
    k: int,
)
    requires
        0 <= k < memory.len(),
        forall|x: int, y: int, c: int|
            0 <= x < board.width * 12 && 0 <= y < rows && 0 <= c < 4 ==> k != #[trigger] place(
                offset,
                stride,
                x,
                y,
                c,
            ),
    ensures
        drawn(memory, offset, board, rows, stride)[k] == memory[k],
        drawn(memory, offset, board, rows, stride).len() == memory.len(),
{
    let p = k - offset;
    if picture(board, rows, stride, p) is Some {
        let x = (p % stride) / 4;
        let y = p / stride;
        let c = (p % stride) % 4;
        lemma_fundamental_div_mod(p, stride);
        lemma_mod_bound(p, stride);
        lemma_div_pos_is_pos(p, stride);
        lemma_mul_is_commutative(stride, y);
        assert(k == place(offset, stride, x, y, c));
    }
}

/// Where a byte of a pixel is.
pub open spec fn place(offset: int, stride: int, x: int, y: int, c: int) -> int {
    offset + y * stride + x * 4 + c
}

/// A picture can be drawn if each of its squares names a cell and a row of them
/// fits.
pub proof fn what_can_be_drawn(board: Board, rows: int, stride: int)
    requires
        forall|cell_x: int, y: int|
            0 <= cell_x < board.width && 0 <= y < rows ==> #[trigger] board.addresses(
                cell_x,
                y / 12,
            ),
        rows > 0 && board.width > 0 ==> board.width * 48 <= stride,
    ensures
        drawable(board, rows, stride),
{
    if rows > 0 && board.width > 0 {
        assert(board.addresses(board.width - 1, (rows - 1) / 12));
    }
}

/// Each byte of the window's picture, in the buffer that was free.
pub proof fn bytes_of_the_window(app: AppModel, memory: Seq<u8>, x: int, y: int, c: int)
    requires
        app.wf(),
        memory.len() >= 4320000,
        app.pool.free_buffer() is Some,
        0 <= x < 600,
        0 <= y < 600,
        0 <= c < 4,
    ensures
        app.frame(memory)[app.pool.free_buffer().unwrap() * 1440000 + y * 2400 + x * 4 + c] == (
        if c == 3 || app.board.cells[x / 12 + (y / 12) * 50] == Cell::Alive {
            0xFFu8
        } else {
            0x00u8
        }),
        app.frame(memory).len() == memory.len(),
{
    free_buffer_is_free(app.pool);
    let index = app.pool.free_buffer().unwrap();
    lemma_buffer_within(app.pool, index);
    pixels_of_any_picture(memory, index * 1440000, app.board, 600, 2400, x, y, c);
}

/// Without a free buffer nothing is drawn.
pub proof fn no_buffer_no_drawing(app: AppModel, memory: Seq<u8>)
    requires
        forall|j: int| 0 <= j < app.pool.busy.len() ==> #[trigger] app.pool.busy[j],
    ensures
        app.frame(memory) == memory,
        app.render() == app,
{
    free_buffer_is_free(app.pool);
}

} // verus!
