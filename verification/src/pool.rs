//! The buffers that a window is drawn into. They lie one after the other in
//! one piece of memory that the compositor reads as well.

use vstd::prelude::*;

use crate::canvas::PIXEL_SIZE;

verus! {

/// How many buffers there are.
pub const BUFFER_COUNT: usize = 3;

/// The model of a pool: the size of a picture in pixels, and for each buffer
/// whether the compositor holds it.
#[verifier::ext_equal]
pub struct PoolModel {
    pub width: nat,
    pub height: nat,
    pub busy: Seq<bool>,
}

impl PoolModel {
    /// The bytes of one row of pixels.
    pub open spec fn stride(self) -> nat {
        self.width * 4
    }

    /// The bytes of one buffer.
    pub open spec fn buffer_size(self) -> nat {
        self.stride() * self.height
    }

    /// The bytes of all buffers.
    pub open spec fn total_size(self) -> nat {
        self.buffer_size() * 3
    }

    /// Where a buffer starts.
    pub open spec fn offset(self, index: int) -> int {
        index * self.buffer_size()
    }

    /// The first buffer that the compositor does not hold.
    pub open spec fn free_buffer(self) -> Option<int> {
        first_free(self.busy, 0)
    }

    /// The pool after the first free buffer, if there is one, was handed out.
    pub open spec fn acquire(self) -> PoolModel {
        match self.free_buffer() {
            Some(index) => PoolModel { busy: self.busy.update(index, true), ..self },
            None => self,
        }
    }

    /// The pool after a buffer came back.
    pub open spec fn release(self, index: int) -> PoolModel {
        PoolModel { busy: self.busy.update(index, false), ..self }
    }
}

/// The first place from `from` on that holds `false`.
pub open spec fn first_free(busy: Seq<bool>, from: int) -> Option<int>
    decreases busy.len() - from,
{
    if from >= busy.len() {
        None
    } else if !busy[from] {
        Some(from)
    } else {
        first_free(busy, from + 1)
    }
}

/// The pool of buffers.
#[derive(Debug)]
pub struct BufferPool {
    width: usize,
    height: usize,
    stride: usize,
    buf_size: usize,
    busy: Vec<bool>,
}

impl View for BufferPool {
    type V = PoolModel;

    closed spec fn view(&self) -> PoolModel {
        PoolModel { width: self.width as nat, height: self.height as nat, busy: self.busy@ }
    }
}

impl BufferPool {
    pub closed spec fn wf(&self) -> bool {
        &&& self.stride == self@.stride()
        &&& self.buf_size == self@.buffer_size()
        &&& self@.total_size() <= usize::MAX
        &&& self@.busy.len() == BUFFER_COUNT
    }

    /// A pool for pictures of that size, in pixels, with every buffer free.
    pub fn new(width: usize, height: usize) -> (pool: Self)
        requires
            width * 4 <= usize::MAX,
            width * 4 * height * 3 <= usize::MAX,
        ensures
            pool.wf(),
            pool@ == (PoolModel {
                width: width as nat,
                height: height as nat,
                busy: Seq::new(3, |i: int| false),
            }),
    {
        let stride: usize = width * PIXEL_SIZE;
        assert(stride * height >= 0) by (nonlinear_arith)
            requires
                stride >= 0,
                height >= 0,
        ;
        let buf_size: usize = stride * height;
        let busy: Vec<bool> = vec![false; BUFFER_COUNT];
        proof {
            assert(busy@ =~= Seq::new(3, |i: int| false));
        }
        BufferPool { width, height, stride, buf_size, busy }
    }

    pub fn width(&self) -> (width: usize)
        ensures
            width == self@.width,
    {
        self.width
    }

    pub fn height(&self) -> (height: usize)
        ensures
            height == self@.height,
    {
        self.height
    }

    pub fn stride(&self) -> (stride: usize)
        requires
            self.wf(),
        ensures
            stride == self@.stride(),
    {
        self.stride
    }

    pub fn buffer_size(&self) -> (size: usize)
        requires
            self.wf(),
        ensures
            size == self@.buffer_size(),
    {
        self.buf_size
    }

    pub fn total_size(&self) -> (size: usize)
        requires
            self.wf(),
        ensures
            size == self@.total_size(),
    {
        self.buf_size * BUFFER_COUNT
    }

    /// Where buffer `index` starts in the memory of the pool.
    pub fn offset(&self, index: usize) -> (offset: usize)
        requires
            self.wf(),
            index < BUFFER_COUNT,
        ensures
            offset == self@.offset(index as int),
            offset + self@.buffer_size() <= self@.total_size(),
    {
        proof {
            lemma_buffer_within(self@, index as int);
        }
        index * self.buf_size
    }

    /// Whether the compositor holds buffer `index`.
    pub fn is_busy(&self, index: usize) -> (busy: bool)
        requires
            self.wf(),
            index < BUFFER_COUNT,
        ensures
            busy == self@.busy[index as int],
    {
        self.busy[index]
    }

    /// Hands out the first free buffer, if there is one.
    pub fn acquire(&mut self) -> (index: Option<usize>)
        requires
            old(self).wf(),
        ensures
            final(self).wf(),
            final(self)@ == old(self)@.acquire(),
            match index {
                Some(index) => old(self)@.free_buffer() == Some(index as int) && index
                    < BUFFER_COUNT,
                None => old(self)@.free_buffer() is None,
            },
    {
        let len: usize = self.busy.len();
        let ghost start = *self;
        let mut i: usize = 0;
        while i < len
            invariant
                i <= len,
                len == BUFFER_COUNT,
                *self == start,
                *old(self) == start,
                start.wf(),
                len == start@.busy.len(),
                start@.free_buffer() == first_free(start@.busy, i as int),
            decreases len - i,
        {
            if !self.busy[i] {
                self.busy[i] = true;
                return Some(i);
            }
            i = i + 1;
        }
        None
    }

    /// Takes buffer `index` back from the compositor.
    pub fn release(&mut self, index: usize)
        requires
            old(self).wf(),
            index < BUFFER_COUNT,
        ensures
            final(self).wf(),
            final(self)@ == old(self)@.release(index as int),
    {
        self.busy[index] = false;
    }
}

/// Every buffer lies within the memory of the pool.
pub(crate) proof fn lemma_buffer_within(pool: PoolModel, index: int)
    requires
        0 <= index < 3,
    ensures
        0 <= pool.offset(index),
        pool.offset(index) + pool.buffer_size() <= pool.total_size(),
{
    let size = pool.buffer_size() as int;
    assert(0 <= index * size && index * size + size <= size * 3) by (nonlinear_arith)
        requires
            0 <= index < 3,
            0 <= size,
    ;
}

} // verus!
