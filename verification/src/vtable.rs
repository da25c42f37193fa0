//! The per-session vtable registry.
//!
//! A table's shape — its total byte size and, per field identifier, the byte
//! offset of that field inside the table (zero meaning absent) — is described
//! on the wire by a vtable: a `u16` vtable length, a `u16` table length, and
//! one `u16` slot per field identifier.  The registry interns shapes: a shape
//! seen before yields the offset of the vtable already written, a new shape
//! writes one new vtable.  Equality is structural, so the metadata written is
//! bounded by the number of distinct shapes, not the number of tables.

use vstd::prelude::*;
use crate::bytes::{
    has_bytes_at, lemma_prepend_keeps_bytes, push_u16_le, u16_le, zeros,
};
use crate::buffer::{alloc_len, pad_len, Buffer, BuildError};

verus! {

/// The most field slots one vtable may carry.
pub const MAX_VTABLE_SLOTS: usize = 1024;

/// A shape as the specification sees it: the table's byte size, the slot
/// table, and the end-relative offset of the vtable written for it.
pub struct ShapeModel {
    pub tsize: u16,
    pub slots: Seq<u16>,
    pub rev: int,
}

/// The slot table as bytes: each slot as a little-endian `u16`, in order.
pub open spec fn slots_bytes(slots: Seq<u16>) -> Seq<u8>
    decreases slots.len(),
{
    if slots.len() == 0 {
        Seq::<u8>::empty()
    } else {
        slots_bytes(slots.drop_last()) + u16_le(slots.last())
    }
}

/// The full byte image of a vtable: its own length, the table's length, then
/// the slots.
pub open spec fn vtable_image(tsize: u16, slots: Seq<u16>) -> Seq<u8> {
    u16_le((4 + 2 * slots.len()) as u16) + u16_le(tsize) + slots_bytes(slots)
}

pub proof fn lemma_slots_bytes_len(slots: Seq<u16>)
    ensures
        slots_bytes(slots).len() == 2 * slots.len(),
    decreases slots.len(),
{
    if slots.len() > 0 {
        lemma_slots_bytes_len(slots.drop_last());
    }
}

/// Slot `k` sits at byte offset `2 * k` of the slot table.
pub proof fn lemma_slots_bytes_index(slots: Seq<u16>, k: int)
    requires
        0 <= k < slots.len(),
    ensures
        slots_bytes(slots).subrange(2 * k, 2 * k + 2) == u16_le(slots[k]),
    decreases slots.len(),
{
    lemma_slots_bytes_len(slots);
    if k == slots.len() - 1 {
        lemma_slots_bytes_len(slots.drop_last());
        assert(slots_bytes(slots).subrange(2 * k, 2 * k + 2) =~= u16_le(slots.last()));
    } else {
        lemma_slots_bytes_index(slots.drop_last(), k);
        lemma_slots_bytes_len(slots.drop_last());
        assert(slots_bytes(slots).subrange(2 * k, 2 * k + 2) =~= slots_bytes(
            slots.drop_last(),
        ).subrange(2 * k, 2 * k + 2));
    }
}

/// Whether a shape with this size and slot table is already interned.
pub open spec fn has_shape(shapes: Seq<ShapeModel>, tsize: u16, slots: Seq<u16>) -> bool {
    exists|i: int|
        0 <= i < shapes.len() && shapes[i].tsize == tsize && shapes[i].slots == slots
}

/// The offset recorded for an interned shape: that of the first — and, by
/// the registry's invariant, only — entry with this size and slot table.
pub open spec fn shape_rev(shapes: Seq<ShapeModel>, tsize: u16, slots: Seq<u16>) -> int
    decreases shapes.len(),
{
    if shapes.len() == 0 {
        0
    } else if shapes[0].tsize == tsize && shapes[0].slots == slots {
        shapes[0].rev
    } else {
        shape_rev(shapes.drop_first(), tsize, slots)
    }
}

/// If entry `i` matches and no earlier entry does, the interned offset is
/// entry `i`'s.
pub proof fn lemma_shape_rev_at(shapes: Seq<ShapeModel>, tsize: u16, slots: Seq<u16>, i: int)
    requires
        0 <= i < shapes.len(),
        shapes[i].tsize == tsize && shapes[i].slots == slots,
        forall|k: int|
            0 <= k < i ==> !((#[trigger] shapes[k]).tsize == tsize && shapes[k].slots == slots),
    ensures
        has_shape(shapes, tsize, slots),
        shape_rev(shapes, tsize, slots) == shapes[i].rev,
    decreases i,
{
    if i > 0 {
        assert(!(shapes[0].tsize == tsize && shapes[0].slots == slots));
        assert forall|k: int| 0 <= k < i - 1 implies !((#[trigger] shapes.drop_first()[k]).tsize
            == tsize && shapes.drop_first()[k].slots == slots) by {
            assert(shapes.drop_first()[k] == shapes[k + 1]);
        }
        assert(shapes.drop_first()[i - 1] == shapes[i]);
        lemma_shape_rev_at(shapes.drop_first(), tsize, slots, i - 1);
    }
}

/// One interned vtable.
struct VtEntry {
    tsize: u16,
    slots: Vec<u16>,
    rev: usize,
}

/// The content-addressed cache of vtables written in this session.
pub struct VTableRegistry {
    entries: Vec<VtEntry>,
}

impl VTableRegistry {
    /// The interned shapes, oldest first.
    pub closed spec fn shapes(self) -> Seq<ShapeModel> {
        self.entries@.map(
            |i: int, e: VtEntry| ShapeModel { tsize: e.tsize, slots: e.slots@, rev: e.rev as int },
        )
    }

    /// The registry's invariant against the buffer it writes into: every
    /// interned shape's vtable image really is in the buffer at the recorded
    /// offset, no two interned shapes are structurally equal, and every slot
    /// table is small enough for its length field.
    pub closed spec fn wf_with(self, w: Seq<u8>) -> bool {
        &&& forall|i: int|
            0 <= i < self.shapes().len() ==> has_bytes_at(
                w,
                (#[trigger] self.shapes()[i]).rev,
                vtable_image(self.shapes()[i].tsize, self.shapes()[i].slots),
            )
        &&& forall|i: int|
            0 <= i < self.shapes().len() ==> (#[trigger] self.shapes()[i]).slots.len()
                <= MAX_VTABLE_SLOTS as int
        &&& forall|i: int, j: int|
            0 <= i < j < self.shapes().len() ==> !((#[trigger] self.shapes()[i]).tsize == (
            #[trigger] self.shapes()[j]).tsize && self.shapes()[i].slots == self.shapes()[j].slots)
    }

    /// What the invariant gives for one interned shape.
    proof fn lemma_entry_placed(self, w: Seq<u8>, i: int)
        requires
            self.wf_with(w),
            0 <= i < self.shapes().len(),
        ensures
            has_bytes_at(
                w,
                self.shapes()[i].rev,
                vtable_image(self.shapes()[i].tsize, self.shapes()[i].slots),
            ),
            self.shapes()[i].slots.len() <= MAX_VTABLE_SLOTS as int,
    {
        assert(0 <= i < self.shapes().len());
        assert(has_bytes_at(
            w,
            (self.shapes()[i]).rev,
            vtable_image(self.shapes()[i].tsize, self.shapes()[i].slots),
        ));
    }

    /// Writing more bytes in front of the buffer disturbs no vtable.
    pub proof fn lemma_wf_prepend(self, pre: Seq<u8>, w: Seq<u8>)
        requires
            self.wf_with(w),
        ensures
            self.wf_with(pre + w),
    {
        assert forall|i: int| 0 <= i < self.shapes().len() implies has_bytes_at(
            pre + w,
            (#[trigger] self.shapes()[i]).rev,
            vtable_image(self.shapes()[i].tsize, self.shapes()[i].slots),
        ) by {
            self.lemma_entry_placed(w, i);
            lemma_prepend_keeps_bytes(
                pre,
                w,
                self.shapes()[i].rev,
                vtable_image(self.shapes()[i].tsize, self.shapes()[i].slots),
            );
        }
    }

    /// An empty registry: no shapes interned yet.
    pub fn new() -> (r: VTableRegistry)
        ensures
            r.shapes().len() == 0,
            forall|w: Seq<u8>| r.wf_with(w),
    {
        let r = VTableRegistry { entries: Vec::new() };
        proof {
            assert forall|w: Seq<u8>| r.wf_with(w) by {}
        }
        r
    }

    /// Returns the offset of the vtable for this shape: the one already
    /// written, if the shape was interned before; otherwise a newly written
    /// vtable, which fails only if it would overrun the buffer's maximum.
    pub fn intern(&mut self, buf: &mut Buffer, tsize: u16, slots: &Vec<u16>) -> (r: Result<
        usize,
        BuildError,
    >)
        requires
            old(self).wf_with(old(buf).written()),
            old(buf).wf(),
            slots@.len() <= MAX_VTABLE_SLOTS as int,
        ensures
            final(buf).wf(),
            final(buf).max() == old(buf).max(),
            final(self).wf_with(final(buf).written()),
            match r {
                Ok(off) => {
                    &&& (if has_shape(old(self).shapes(), tsize, slots@) {
                        &&& off as int == shape_rev(old(self).shapes(), tsize, slots@)
                        &&& final(self).shapes() == old(self).shapes()
                        &&& final(buf).written() == old(buf).written()
                    } else {
                        &&& alloc_len(
                            old(buf).written_len(),
                            vtable_image(tsize, slots@).len() as int,
                            2,
                        ) <= old(buf).max()
                        &&& off as int == alloc_len(
                            old(buf).written_len(),
                            vtable_image(tsize, slots@).len() as int,
                            2,
                        )
                        &&& final(buf).written() == vtable_image(tsize, slots@) + zeros(
                            pad_len(
                                old(buf).written_len(),
                                vtable_image(tsize, slots@).len() as int,
                                2,
                            ),
                        ) + old(buf).written()
                        &&& final(self).shapes() == old(self).shapes().push(
                            ShapeModel { tsize, slots: slots@, rev: off as int },
                        )
                    })
                    &&& has_bytes_at(final(buf).written(), off as int, vtable_image(tsize, slots@))
                },
                Err(e) => {
                    &&& !has_shape(old(self).shapes(), tsize, slots@)
                    &&& alloc_len(
                        old(buf).written_len(),
                        vtable_image(tsize, slots@).len() as int,
                        2,
                    ) > old(buf).max()
                    &&& final(self).shapes() == old(self).shapes()
                    &&& final(buf).written() == old(buf).written()
                    &&& e == BuildError::CapacityExceeded
                },
            },
    {
        let n: usize = self.entries.len();
        let mut i: usize = 0;
        while i < n
            invariant
                i <= n,
                *self == *old(self),
                *buf == *old(buf),
                old(self).wf_with(old(buf).written()),
                old(buf).wf(),
                slots@.len() <= MAX_VTABLE_SLOTS as int,
                n == self.entries@.len(),
                forall|j: int|
                    0 <= j < i ==> !((#[trigger] self.entries@[j]).tsize == tsize
                        && self.entries@[j].slots@ == slots@),
            decreases n - i,
        {
            let hit: bool = self.entries[i].tsize == tsize && slots_eq(
                &self.entries[i].slots,
                slots,
            );
            if hit {
                let off: usize = self.entries[i].rev;
                proof {
                    let shapes = old(self).shapes();
                    assert(*self == *old(self));
                    assert(shapes[i as int].tsize == tsize && shapes[i as int].slots == slots@);
                    assert forall|k: int| 0 <= k < i as int implies !((
                    #[trigger] shapes[k]).tsize == tsize && shapes[k].slots == slots@) by {
                        assert(shapes[k].tsize == self.entries@[k].tsize);
                        assert(shapes[k].slots == self.entries@[k].slots@);
                    }
                    lemma_shape_rev_at(shapes, tsize, slots@, i as int);
                    old(self).lemma_entry_placed(old(buf).written(), i as int);
                }
                return Ok(off);
            }
            i = i + 1;
        }
        proof {
            assert(*self == *old(self));
            assert forall|k: int| 0 <= k < old(self).shapes().len() implies !((#[trigger] old(
                self,
            ).shapes()[k]).tsize == tsize && old(self).shapes()[k].slots == slots@) by {
                assert(old(self).shapes()[k].tsize == self.entries@[k].tsize);
                assert(old(self).shapes()[k].slots == self.entries@[k].slots@);
            }
            assert(!has_shape(old(self).shapes(), tsize, slots@));
        }
        let vlen: u16 = 4 + 2 * (slots.len() as u16);
        let mut img: Vec<u8> = Vec::new();
        push_u16_le(&mut img, vlen);
        push_u16_le(&mut img, tsize);
        proof {
            assert(slots@.subrange(0, 0) =~= Seq::<u16>::empty());
            assert(img@ =~= u16_le(vlen) + u16_le(tsize) + slots_bytes(slots@.subrange(0, 0)));
        }
        let m: usize = slots.len();
        let mut k: usize = 0;
        while k < m
            invariant
                k <= m,
                m == slots@.len(),
                m <= MAX_VTABLE_SLOTS,
                vlen == 4 + 2 * m,
                *self == *old(self),
                *buf == *old(buf),
                old(self).wf_with(old(buf).written()),
                old(buf).wf(),
                forall|j: int|
                    0 <= j < old(self).entries@.len() ==> !((
                    #[trigger] old(self).entries@[j]).tsize == tsize
                        && old(self).entries@[j].slots@ == slots@),
                img@ == u16_le(vlen) + u16_le(tsize) + slots_bytes(slots@.subrange(0, k as int)),
            decreases m - k,
        {
            let s: u16 = slots[k];
            push_u16_le(&mut img, s);
            proof {
                assert(slots@.subrange(0, k as int + 1).drop_last() =~= slots@.subrange(
                    0,
                    k as int,
                ));
                assert(slots@.subrange(0, k as int + 1).last() == slots@[k as int]);
                assert(img@ =~= u16_le(vlen) + u16_le(tsize) + slots_bytes(
                    slots@.subrange(0, k as int + 1),
                ));
            }
            k = k + 1;
        }
        proof {
            assert(slots@.subrange(0, m as int) =~= slots@);
            assert(img@ == vtable_image(tsize, slots@));
        }
        let ghost oldw = buf.written();
        let ghost oldshapes = self.shapes();
        match buf.write_block(&img, 2) {
            Ok(off) => {
                let slots_copy: Vec<u16> = copy_u16s(slots);
                self.entries.push(VtEntry { tsize, slots: slots_copy, rev: off });
                proof {
                    let ghost pre = img@ + zeros(
                        pad_len(oldw.len() as int, img@.len() as int, 2),
                    );
                    assert(buf.written() =~= pre + oldw);
                    assert(self.shapes() =~= oldshapes.push(
                        ShapeModel { tsize, slots: slots@, rev: off as int },
                    ));
                    assert forall|j: int| 0 <= j < self.shapes().len() implies has_bytes_at(
                        buf.written(),
                        (#[trigger] self.shapes()[j]).rev,
                        vtable_image(self.shapes()[j].tsize, self.shapes()[j].slots),
                    ) by {
                        if j < oldshapes.len() {
                            assert(self.shapes()[j] == oldshapes[j]);
                            lemma_prepend_keeps_bytes(
                                pre,
                                oldw,
                                oldshapes[j].rev,
                                vtable_image(oldshapes[j].tsize, oldshapes[j].slots),
                            );
                        } else {
                            assert(self.shapes()[j].rev == off as int);
                        }
                    }
                }
                Ok(off)
            },
            Err(e) => Err(e),
        }
    }

    /// How many distinct shapes — hence how many vtables — this session has
    /// written.
    pub fn shape_count(&self) -> (r: usize)
        ensures
            r as int == self.shapes().len(),
    {
        self.entries.len()
    }
}

/// Element-wise equality of two slot tables.
fn slots_eq(a: &Vec<u16>, b: &Vec<u16>) -> (r: bool)
    ensures
        r <==> a@ == b@,
{
    if a.len() != b.len() {
        return false;
    }
    let mut i: usize = 0;
    while i < a.len()
        invariant
            i <= a@.len(),
            a@.len() == b@.len(),
            forall|k: int| 0 <= k < i ==> a@[k] == b@[k],
        decreases a@.len() - i,
    {
        if a[i] != b[i] {
            return false;
        }
        i = i + 1;
    }
    proof {
        assert(a@ =~= b@);
    }
    true
}

/// A fresh copy of a slot table.
fn copy_u16s(src: &Vec<u16>) -> (r: Vec<u16>)
    ensures
        r@ == src@,
{
    let mut r: Vec<u16> = Vec::new();
    let mut i: usize = 0;
    while i < src.len()
        invariant
            i <= src@.len(),
            r@ == src@.subrange(0, i as int),
        decreases src@.len() - i,
    {
        let s: u16 = src[i];
        r.push(s);
        proof {
            assert(r@ =~= src@.subrange(0, i as int + 1));
        }
        i = i + 1;
    }
    proof {
        assert(r@ =~= src@);
    }
    r
}

} // verus!
