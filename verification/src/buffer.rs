//! The growable byte region every object is written into.
//!
//! The region is written from its high address toward its low address: the
//! write cursor starts at the high end and moves down, so the logical buffer
//! is the suffix of the backing array from the cursor to the end.  Growth is
//! a single reallocation and copy of the already written window; previously
//! written bytes never move relative to the end of the region, so an
//! end-relative offset handed out for an object stays valid for the whole
//! session.  Exceeding the configured maximum size fails the allocation
//! deterministically.

use vstd::prelude::*;
use vstd::arithmetic::div_mod::{
    lemma_fundamental_div_mod, lemma_mod_bound, lemma_mod_multiples_basic, lemma_mod_self_0,
    lemma_small_mod,
};
use vstd::arithmetic::mul::lemma_mul_is_distributive_add;
use crate::bytes::{zeros, has_bytes_at};

verus! {

/// The hard ceiling a buffer's configured maximum may not pass; it keeps all
/// position arithmetic comfortably inside `u32` and `i32`.
pub const MAX_BUFFER_LIMIT: usize = 0x1000_0000;

/// Why a build step failed.
#[derive(Clone, Copy, Debug, PartialEq, Eq, Structural)]
pub enum BuildError {
    /// An allocation would have pushed the buffer past its configured
    /// maximum size; the build in flight cannot be completed.
    CapacityExceeded,
}

/// The padding inserted below `len` fresh bytes so that the new write
/// cursor — and with it the new block's start — lands `align` bytes aligned,
/// measured from the end of the buffer.
pub open spec fn pad_len(written: int, len: int, align: int) -> int {
    (align - ((written + len) % align)) % align
}

/// The written length after a block of `len` bytes is allocated with the
/// given alignment: old length, plus the block, plus alignment padding.
/// This is also the end-relative offset of the new block's start.
pub open spec fn alloc_len(written: int, len: int, align: int) -> int {
    written + len + pad_len(written, len, align)
}

/// The padding is smaller than the alignment, and the written length after
/// an aligned allocation is a multiple of the alignment: the new block's
/// end-relative offset is aligned.
pub proof fn lemma_alloc_aligned(written: int, len: int, align: int)
    requires
        0 <= written,
        0 <= len,
        1 <= align,
    ensures
        0 <= pad_len(written, len, align) < align,
        alloc_len(written, len, align) % align == 0,
{
    let t = written + len;
    let r = t % align;
    lemma_mod_bound(t, align);
    if r == 0 {
        lemma_mod_self_0(align);
        assert(pad_len(written, len, align) == 0);
    } else {
        lemma_small_mod((align - r) as nat, align as nat);
        assert(pad_len(written, len, align) == align - r);
        lemma_fundamental_div_mod(t, align);
        lemma_mul_is_distributive_add(align, t / align, 1);
        assert(alloc_len(written, len, align) == align * (t / align + 1));
        lemma_mod_multiples_basic(t / align + 1, align);
    }
}

/// An exclusively owned byte region written back to front.
pub struct Buffer {
    data: Vec<u8>,
    head: usize,
    max_size: usize,
}

impl Buffer {
    /// The bytes written so far, in the order a reader will see them: the
    /// most recently written byte first.
    pub closed spec fn written(self) -> Seq<u8> {
        self.data@.subrange(self.head as int, self.data@.len() as int)
    }

    /// How many bytes are written.
    pub open spec fn written_len(self) -> int {
        self.written().len() as int
    }

    /// The configured maximum size the buffer may grow to.
    pub closed spec fn max(self) -> int {
        self.max_size as int
    }

    /// The buffer's internal invariant: the cursor is inside the backing
    /// array, the array never outgrows the configured maximum, and every
    /// byte below the cursor is still zero, so alignment padding need never
    /// be written explicitly.
    pub closed spec fn wf(self) -> bool {
        &&& self.head <= self.data@.len()
        &&& self.data@.len() <= self.max_size
        &&& self.max_size <= MAX_BUFFER_LIMIT
        &&& forall|i: int| 0 <= i < self.head ==> self.data@[i] == 0
    }

    /// A fresh, empty buffer with the given starting capacity and maximum.
    pub fn new(capacity: usize, max_size: usize) -> (r: Buffer)
        requires
            capacity <= max_size,
            max_size <= MAX_BUFFER_LIMIT,
        ensures
            r.wf(),
            r.written_len() == 0,
            r.max() == max_size as int,
    {
        let mut data: Vec<u8> = Vec::new();
        let mut i: usize = 0;
        while i < capacity
            invariant
                i <= capacity,
                data@.len() == i as int,
                forall|j: int| 0 <= j < i ==> data@[j] == 0,
            decreases capacity - i,
        {
            data.push(0u8);
            i = i + 1;
        }
        let head: usize = data.len();
        let r = Buffer { data, head, max_size };
        proof {
            assert(r.written() =~= Seq::<u8>::empty());
        }
        r
    }

    /// Reallocates the backing array to at least `need` bytes (amortized
    /// doubling) and copies the written window to the end of the new array.
    fn grow(&mut self, need: usize)
        requires
            old(self).wf(),
            need as int <= old(self).max(),
            old(self).written_len() <= need as int,
        ensures
            final(self).wf(),
            final(self).written() == old(self).written(),
            final(self).max() == old(self).max(),
            final(self).data@.len() >= need,
    {
        let wl: usize = self.data.len() - self.head;
        let mut nc: usize = if self.data.len() > self.max_size / 2 {
            self.max_size
        } else {
            self.data.len() * 2
        };
        if nc < need {
            nc = need;
        }
        if nc > self.max_size {
            nc = self.max_size;
        }
        let mut ndata: Vec<u8> = Vec::new();
        let mut i: usize = 0;
        while i < nc
            invariant
                i <= nc,
                ndata@.len() == i as int,
                forall|j: int| 0 <= j < i ==> ndata@[j] == 0,
            decreases nc - i,
        {
            ndata.push(0u8);
            i = i + 1;
        }
        let nh: usize = nc - wl;
        let mut j: usize = 0;
        while j < wl
            invariant
                j <= wl,
                wl <= nc,
                nh == nc - wl,
                self.head as int + wl as int == self.data@.len(),
                self.data@.len() <= MAX_BUFFER_LIMIT as int,
                self == old(self),
                ndata@.len() == nc as int,
                forall|k: int| 0 <= k < nh ==> ndata@[k] == 0,
                forall|k: int| 0 <= k < j ==> #[trigger] ndata@[nh + k] == self.data@[self.head
                    + k],
            decreases wl - j,
        {
            let b: u8 = self.data[self.head + j];
            ndata.set(nh + j, b);
            j = j + 1;
        }
        let ghost nd = ndata@;
        self.data = ndata;
        self.head = nh;
        proof {
            assert(self.written().len() == wl as int);
            assert(old(self).written().len() == wl as int);
            assert forall|i: int| 0 <= i < wl implies self.written()[i] == old(
                self,
            ).written()[i] by {
                assert(nd[nh + i] == old(self).data@[old(self).head + i]);
                assert(self.written()[i] == self.data@[nh + i]);
                assert(old(self).written()[i] == old(self).data@[old(self).head + i]);
            }
            assert(self.written() =~= old(self).written());
        }
    }

    /// Reserves space for `bytes` so that the block's start is `align`
    /// aligned relative to the buffer's end, and writes the block there.
    /// On success the new buffer reads as the block, then the alignment
    /// padding (zero bytes), then everything written before; the returned
    /// end-relative offset of the block's start is aligned and never changes
    /// again.  The allocation fails — leaving the buffer untouched — exactly
    /// when it would push the written length past the configured maximum.
    pub fn write_block(&mut self, bytes: &Vec<u8>, align: usize) -> (r: Result<usize, BuildError>)
        requires
            old(self).wf(),
            align == 1 || align == 2 || align == 4,
        ensures
            final(self).wf(),
            final(self).max() == old(self).max(),
            match r {
                Ok(off) => {
                    &&& alloc_len(old(self).written_len(), bytes@.len() as int, align as int)
                        <= old(self).max()
                    &&& off as int == alloc_len(
                        old(self).written_len(),
                        bytes@.len() as int,
                        align as int,
                    )
                    &&& off as int % align as int == 0
                    &&& final(self).written() == bytes@ + zeros(
                        pad_len(old(self).written_len(), bytes@.len() as int, align as int),
                    ) + old(self).written()
                    &&& has_bytes_at(final(self).written(), off as int, bytes@)
                },
                Err(e) => {
                    &&& alloc_len(old(self).written_len(), bytes@.len() as int, align as int)
                        > old(self).max()
                    &&& final(self).written() == old(self).written()
                    &&& e == BuildError::CapacityExceeded
                },
            },
    {
        let wl: usize = self.data.len() - self.head;
        proof {
            assert(wl as int == old(self).written_len());
            lemma_alloc_aligned(wl as int, bytes@.len() as int, align as int);
        }
        if bytes.len() > self.max_size || wl > self.max_size - bytes.len() {
            return Err(BuildError::CapacityExceeded);
        }
        let rem: usize = (wl + bytes.len()) % align;
        let pad: usize = if rem == 0 {
            0
        } else {
            align - rem
        };
        proof {
            if rem == 0 {
                lemma_mod_self_0(align as int);
            } else {
                lemma_small_mod((align - rem) as nat, align as nat);
            }
            assert(pad as int == pad_len(wl as int, bytes@.len() as int, align as int));
        }
        if pad > self.max_size - (wl + bytes.len()) {
            return Err(BuildError::CapacityExceeded);
        }
        let need: usize = wl + bytes.len() + pad;
        if need > self.data.len() {
            self.grow(need);
        }
        let ghost mid = *self;
        proof {
            assert(mid.written() == old(self).written());
        }
        let nh: usize = self.data.len() - need;
        let blen: usize = bytes.len();
        let mut j: usize = 0;
        while j < blen
            invariant
                j <= blen,
                blen == bytes@.len(),
                mid.wf(),
                need as int <= mid.data@.len(),
                self.head == mid.head,
                self.max_size == mid.max_size,
                self.data@.len() == mid.data@.len(),
                wl as int == mid.data@.len() - mid.head,
                need == wl + blen + pad,
                nh as int == mid.data@.len() - need,
                nh + blen + pad == self.head,
                forall|k: int|
                    self.head <= k < self.data@.len() ==> self.data@[k] == mid.data@[k],
                forall|k: int| 0 <= k < nh ==> self.data@[k] == 0,
                forall|k: int| nh + j <= k < self.head ==> self.data@[k] == 0,
                forall|k: int| 0 <= k < j ==> self.data@[nh + k] == bytes@[k],
            decreases blen - j,
        {
            let b: u8 = bytes[j];
            self.data.set(nh + j, b);
            j = j + 1;
        }
        self.head = nh;
        proof {
            assert forall|i: int| 0 <= i < blen implies #[trigger] self.data@[nh + i]
                == bytes@[i] by {}
            assert forall|i: int| blen <= i < blen + pad implies #[trigger] self.data@[nh + i]
                == 0 by {}
            assert forall|i: int| 0 <= i < wl implies #[trigger] self.data@[nh + blen + pad + i]
                == mid.data@[mid.head + i] by {
                assert(self.data@[nh + blen + pad + i] == mid.data@[mid.head + i]);
            }
            assert(self.written() =~= bytes@ + zeros(pad as int) + mid.written());
            assert(self.written().subrange(0, blen as int) =~= bytes@);
        }
        Ok(need)
    }

    /// The configured maximum size.
    pub fn max_value(&self) -> (r: usize)
        requires
            self.wf(),
        ensures
            r as int == self.max(),
            r <= MAX_BUFFER_LIMIT,
    {
        self.max_size
    }

    /// How many bytes are written so far.
    pub fn written_length(&self) -> (r: usize)
        requires
            self.wf(),
        ensures
            r as int == self.written_len(),
            r as int <= self.max(),
            self.max() <= MAX_BUFFER_LIMIT as int,
    {
        self.data.len() - self.head
    }

    /// A copy of everything written, front to back.
    pub fn to_vec(&self) -> (r: Vec<u8>)
        requires
            self.wf(),
        ensures
            r@ == self.written(),
    {
        let mut r: Vec<u8> = Vec::new();
        let mut i: usize = self.head;
        while i < self.data.len()
            invariant
                self.head <= i <= self.data@.len(),
                r@ == self.data@.subrange(self.head as int, i as int),
            decreases self.data@.len() - i,
        {
            let b: u8 = self.data[i];
            r.push(b);
            proof {
                assert(r@ =~= self.data@.subrange(self.head as int, i as int + 1));
            }
            i = i + 1;
        }
        proof {
            assert(r@ =~= self.written());
        }
        r
    }
}

} // verus!
