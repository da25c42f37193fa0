//! The builder: sequences construction of strings, vectors, structs, unions
//! and tables on top of the buffer and the vtable registry.
//!
//! Objects are created children first: every `create_*` call returns the new
//! object's end-relative offset, and only offsets handed out earlier in the
//! same session may be stored in later objects, so a reference always points
//! at something already fully written.  A fixed-layout struct has no offset
//! of its own: its little-endian bytes — assembled with the push functions
//! of the `bytes` module — are stored inline, as a table field through
//! `add_struct_field` or as vector elements through `create_inline_vector`.
//! Every operation's outcome is a function of the builder's model and the
//! call's arguments alone — two sessions fed the same values produce
//! byte-identical buffers.

use vstd::prelude::*;
use crate::bytes::{
    append_bytes, has_bytes_at, i32_le, lemma_prepend_keeps_bytes, push_u32_le, u16_le, u32_le,
    zeros,
};
use crate::buffer::{alloc_len, pad_len, Buffer, BuildError, MAX_BUFFER_LIMIT};
use crate::vtable::{
    has_shape, shape_rev, vtable_image, ShapeModel, VTableRegistry,
};

verus! {

/// The most fields one table may carry: together with the struct bound it
/// keeps every table size inside the `u16` a vtable stores it in.
pub const MAX_TABLE_FIELDS: usize = 255;

/// The largest field identifier a table may use.
pub const MAX_FIELD_ID: u16 = 1023;

/// The largest fixed-layout struct a field or vector element may hold.
pub const MAX_INLINE_BYTES: usize = 256;

/// A pending table field as the specification sees it.
pub struct FieldModel {
    pub id: u16,
    pub val: FieldValModel,
}

/// What a pending table field holds.
pub enum FieldValModel {
    /// A scalar, stored inline as its little-endian image.
    Scalar { bytes: Seq<u8> },
    /// A reference to an already written object, stored inline as a relative
    /// offset to `target`, the object's end-relative offset.
    Child { target: int },
    /// A fixed-layout struct, stored inline byte for byte.
    Inline { bytes: Seq<u8> },
}

/// One pending table field.
pub struct PendingField {
    id: u16,
    val: FieldVal,
}

enum FieldVal {
    Scalar { bytes: Vec<u8> },
    Child { target: usize },
    Inline { bytes: Vec<u8> },
}

impl PendingField {
    pub closed spec fn model(self) -> FieldModel {
        FieldModel {
            id: self.id,
            val: match self.val {
                FieldVal::Scalar { bytes } => FieldValModel::Scalar { bytes: bytes@ },
                FieldVal::Child { target } => FieldValModel::Child { target: target as int },
                FieldVal::Inline { bytes } => FieldValModel::Inline { bytes: bytes@ },
            },
        }
    }
}

/// The byte size a field occupies inline in its table.
pub open spec fn fsize(f: FieldModel) -> int {
    match f.val {
        FieldValModel::Scalar { bytes } => bytes.len() as int,
        FieldValModel::Child { .. } => 4,
        FieldValModel::Inline { bytes } => bytes.len() as int,
    }
}

/// A single field's validity: scalar sizes are 1, 2 or 4 bytes; struct
/// sizes are a positive multiple of four bytes, bounded; references point
/// at least four bytes into the buffer.
pub open spec fn field_wf(f: FieldModel) -> bool {
    &&& f.id <= MAX_FIELD_ID
    &&& match f.val {
        FieldValModel::Scalar { bytes } => bytes.len() == 1 || bytes.len() == 2 || bytes.len()
            == 4,
        FieldValModel::Child { target } => 4 <= target,
        FieldValModel::Inline { bytes } => 4 <= bytes.len() <= MAX_INLINE_BYTES && bytes.len()
            as int % 4 == 0,
    }
}

/// No field identifier repeats.
pub open spec fn ids_distinct(fs: Seq<FieldModel>) -> bool {
    forall|i: int, j: int|
        0 <= i < j < fs.len() ==> (#[trigger] fs[i]).id != (#[trigger] fs[j]).id
}

/// All fields valid, identifiers distinct, count bounded.
pub open spec fn fields_wf(fs: Seq<FieldModel>) -> bool {
    &&& fs.len() <= MAX_TABLE_FIELDS as int
    &&& forall|i: int| 0 <= i < fs.len() ==> field_wf(#[trigger] fs[i])
    &&& ids_distinct(fs)
}

/// The bytes a field's cell occupies inline: its value padded up to a
/// multiple of four, so every field starts four-byte aligned.
pub open spec fn cell(f: FieldModel) -> int {
    if fsize(f) < 4 {
        4
    } else {
        fsize(f)
    }
}

/// The bytes occupied by the cells of the first `n` fields.
pub open spec fn cells(fs: Seq<FieldModel>, n: int) -> int
    decreases n,
{
    if n <= 0 {
        0
    } else {
        cells(fs, n - 1) + cell(fs[n - 1])
    }
}

/// The byte offset of field `i` inside its table: after the four-byte
/// back-reference to the vtable and the cells of the earlier fields.
pub open spec fn slot_pos(fs: Seq<FieldModel>, i: int) -> int {
    4 + cells(fs, i)
}

/// The table's total inline size.
pub open spec fn tbl_size(fs: Seq<FieldModel>) -> int {
    4 + cells(fs, fs.len() as int)
}

/// Cell sizes are positive multiples of four, bounded by the largest
/// struct, so positions stay inside a `u16`.
pub proof fn lemma_cells_bounds(fs: Seq<FieldModel>, n: int)
    requires
        0 <= n <= fs.len(),
        fields_wf(fs),
    ensures
        0 <= cells(fs, n) <= n * (MAX_INLINE_BYTES as int),
        cells(fs, n) % 4 == 0,
        forall|m: int| 0 <= m <= n ==> #[trigger] cells(fs, m) <= cells(fs, n),
    decreases n,
{
    if n > 0 {
        lemma_cells_bounds(fs, n - 1);
        assert(field_wf(fs[n - 1]));
        assert(4 <= cell(fs[n - 1]) <= MAX_INLINE_BYTES as int);
        assert(cell(fs[n - 1]) % 4 == 0);
        assert(n * (MAX_INLINE_BYTES as int) == (n - 1) * (MAX_INLINE_BYTES as int)
            + MAX_INLINE_BYTES as int) by (nonlinear_arith);
    }
}

/// How many slots the vtable needs: one past the largest identifier used by
/// the first `n` fields.
pub open spec fn num_slots(fs: Seq<FieldModel>, n: int) -> int
    decreases n,
{
    if n <= 0 {
        0
    } else if num_slots(fs, n - 1) >= fs[n - 1].id + 1 {
        num_slots(fs, n - 1)
    } else {
        fs[n - 1].id + 1
    }
}

/// Every field's identifier is inside the slot table, and the slot table is
/// never larger than the largest identifier allows.
pub proof fn lemma_num_slots_bounds(fs: Seq<FieldModel>, n: int)
    requires
        0 <= n <= fs.len(),
        fields_wf(fs),
    ensures
        0 <= num_slots(fs, n) <= MAX_FIELD_ID + 1,
        forall|k: int| 0 <= k < n ==> (#[trigger] fs[k]).id < num_slots(fs, n),
        forall|m: int| 0 <= m <= n ==> #[trigger] num_slots(fs, m) <= num_slots(fs, n),
    decreases n,
{
    if n > 0 {
        lemma_num_slots_bounds(fs, n - 1);
        assert(field_wf(fs[n - 1]));
    }
}

/// The slot table after the first `n` fields are placed: absent identifiers
/// keep slot zero.
pub open spec fn slots_upto(fs: Seq<FieldModel>, total: int, n: int) -> Seq<u16>
    decreases n,
{
    if n <= 0 {
        Seq::new(total as nat, |i: int| 0u16)
    } else {
        slots_upto(fs, total, n - 1).update(fs[n - 1].id as int, slot_pos(fs, n - 1) as u16)
    }
}

/// The finished slot table for these fields.
pub open spec fn slots_of(fs: Seq<FieldModel>) -> Seq<u16> {
    slots_upto(fs, num_slots(fs, fs.len() as int), fs.len() as int)
}

pub proof fn lemma_slots_upto_len(fs: Seq<FieldModel>, total: int, n: int)
    requires
        0 <= n <= fs.len(),
        0 <= total,
        forall|k: int| 0 <= k < n ==> 0 <= (#[trigger] fs[k]).id < total,
    ensures
        slots_upto(fs, total, n).len() == total,
    decreases n,
{
    if n > 0 {
        lemma_slots_upto_len(fs, total, n - 1);
    }
}

/// A slot belonging to no field stays zero; the slot of field `k` holds its
/// position.  Distinct identifiers make the placement final.
pub proof fn lemma_slots_upto_at(fs: Seq<FieldModel>, total: int, n: int, id: int)
    requires
        0 <= n <= fs.len(),
        0 <= id < total,
        fields_wf(fs),
        forall|k: int| 0 <= k < n ==> 0 <= (#[trigger] fs[k]).id < total,
    ensures
        (forall|k: int| 0 <= k < n ==> (#[trigger] fs[k]).id != id) ==> slots_upto(
            fs,
            total,
            n,
        )[id] == 0,
        forall|k: int|
            0 <= k < n && (#[trigger] fs[k]).id == id ==> slots_upto(fs, total, n)[id]
                == slot_pos(fs, k) as u16,
    decreases n,
{
    lemma_slots_upto_len(fs, total, n);
    if n > 0 {
        lemma_slots_upto_len(fs, total, n - 1);
        lemma_slots_upto_at(fs, total, n - 1, id);
        assert forall|k: int|
            0 <= k < n && (#[trigger] fs[k]).id == id implies slots_upto(fs, total, n)[id]
            == slot_pos(fs, k) as u16 by {
            if k == n - 1 {
            } else {
                assert(fs[k].id != fs[n - 1].id);
            }
        }
    }
}

/// The bytes a field stores inline, given the end-relative offset of the
/// byte where they start: a reference becomes the relative distance forward
/// to its target.
pub open spec fn field_bytes(f: FieldModel, loc_rev: int) -> Seq<u8> {
    match f.val {
        FieldValModel::Scalar { bytes } => bytes,
        FieldValModel::Inline { bytes } => bytes,
        FieldValModel::Child { target } => u32_le((loc_rev - target) as u32),
    }
}

/// The table body after the first `n` fields: the `i32` back-reference to
/// the vtable, then each field's cell in order.  `trev` is the table's
/// end-relative offset, `vtrev` the vtable's.
pub open spec fn body_upto(fs: Seq<FieldModel>, trev: int, vtrev: int, n: int) -> Seq<u8>
    decreases n,
{
    if n <= 0 {
        i32_le((vtrev - trev) as i32)
    } else {
        body_upto(fs, trev, vtrev, n - 1) + field_bytes(fs[n - 1], trev - slot_pos(fs, n - 1))
            + zeros(cell(fs[n - 1]) - fsize(fs[n - 1]))
    }
}

/// A field's stored bytes are as long as its size says.
pub proof fn lemma_field_bytes_len(f: FieldModel, loc_rev: int)
    ensures
        field_bytes(f, loc_rev).len() == fsize(f),
{
}

/// The body of the first `n` fields ends exactly at field `n`'s slot.
pub proof fn lemma_body_upto_len(fs: Seq<FieldModel>, trev: int, vtrev: int, n: int)
    requires
        0 <= n <= fs.len(),
        fields_wf(fs),
    ensures
        body_upto(fs, trev, vtrev, n).len() == slot_pos(fs, n),
    decreases n,
{
    if n > 0 {
        lemma_body_upto_len(fs, trev, vtrev, n - 1);
        lemma_field_bytes_len(fs[n - 1], trev - slot_pos(fs, n - 1));
        assert(field_wf(fs[n - 1]));
    }
}

/// The complete byte image of a table body.
pub open spec fn table_image(fs: Seq<FieldModel>, trev: int, vtrev: int) -> Seq<u8> {
    body_upto(fs, trev, vtrev, fs.len() as int)
}

/// The byte image of a string: length, bytes, terminating zero.
pub open spec fn string_image(s: Seq<u8>) -> Seq<u8> {
    u32_le(s.len() as u32) + s + seq![0u8]
}

/// The byte image of a vector of inline elements: length prefix, then the
/// elements' bytes as supplied.
pub open spec fn inline_vector_image(count: int, data: Seq<u8>) -> Seq<u8> {
    u32_le(count as u32) + data
}

/// The elements of a vector of references: element `k` stores the relative
/// distance from its own position to its target.
pub open spec fn ref_elems_upto(targets: Seq<usize>, vec_rev: int, n: int) -> Seq<u8>
    decreases n,
{
    if n <= 0 {
        Seq::<u8>::empty()
    } else {
        ref_elems_upto(targets, vec_rev, n - 1) + u32_le(
            ((vec_rev - 4 - 4 * (n - 1)) - targets[n - 1]) as u32,
        )
    }
}

/// The byte image of a vector of references, given its own end-relative
/// offset.
pub open spec fn ref_vector_image(targets: Seq<usize>, vec_rev: int) -> Seq<u8> {
    u32_le(targets.len() as u32) + ref_elems_upto(targets, vec_rev, targets.len() as int)
}

/// Reference vector elements occupy four bytes each.
pub proof fn lemma_ref_elems_len(targets: Seq<usize>, vec_rev: int, n: int)
    requires
        0 <= n,
    ensures
        ref_elems_upto(targets, vec_rev, n).len() == 4 * n,
    decreases n,
{
    if n > 0 {
        lemma_ref_elems_len(targets, vec_rev, n - 1);
    }
}

/// Everything observable about a builder: the bytes written, the shapes
/// interned, the fields of the table under construction, the session flags,
/// the configured maximum, and the offsets handed out.
#[verifier::ext_equal]
pub struct BuilderModel {
    pub written: Seq<u8>,
    pub shapes: Seq<ShapeModel>,
    pub fields: Seq<FieldModel>,
    pub table_open: bool,
    pub finished: bool,
    pub failed: bool,
    pub max: int,
    pub issued: Set<int>,
}

/// Whether a block of `len` bytes still fits under the configured maximum.
pub open spec fn write_fits(m: BuilderModel, len: int, align: int) -> bool {
    alloc_len(m.written.len() as int, len, align) <= m.max
}

/// The end-relative offset a block of `len` bytes would get.
pub open spec fn write_rev(m: BuilderModel, len: int, align: int) -> int {
    alloc_len(m.written.len() as int, len, align)
}

/// The model after one block is written: the image lands in front of
/// everything written so far, and its offset is handed out; if the block
/// does not fit, the build fails and nothing changes.
pub open spec fn step_write(m: BuilderModel, img: Seq<u8>, align: int) -> BuilderModel {
    if write_fits(m, img.len() as int, align) {
        BuilderModel {
            written: img + zeros(pad_len(m.written.len() as int, img.len() as int, align))
                + m.written,
            issued: m.issued.insert(write_rev(m, img.len() as int, align)),
            ..m
        }
    } else {
        BuilderModel { failed: true, ..m }
    }
}

/// The model after a string is created.
pub open spec fn step_string(m: BuilderModel, s: Seq<u8>) -> BuilderModel {
    step_write(m, string_image(s), 4)
}

/// The model after a vector of inline elements is created.
pub open spec fn step_inline_vector(m: BuilderModel, count: int, data: Seq<u8>) -> BuilderModel {
    step_write(m, inline_vector_image(count, data), 4)
}

/// The model after a vector of references is created.
pub open spec fn step_ref_vector(m: BuilderModel, targets: Seq<usize>) -> BuilderModel {
    step_write(
        m,
        ref_vector_image(targets, write_rev(m, 4 + 4 * targets.len() as int, 4)),
        4,
    )
}

/// The model after the session is finished: the root's position, measured
/// from the front of the final buffer, lands in the first four bytes,
/// followed by the optional identifier.
pub open spec fn step_finish(m: BuilderModel, root: int, ident: Seq<u8>) -> BuilderModel {
    let len = 4 + ident.len() as int;
    if write_fits(m, len, 4) {
        BuilderModel {
            written: u32_le((write_rev(m, len, 4) - root) as u32) + ident + zeros(
                pad_len(m.written.len() as int, len, 4),
            ) + m.written,
            finished: true,
            ..m
        }
    } else {
        BuilderModel { failed: true, ..m }
    }
}


/// The model after a table is opened.
pub open spec fn step_start(m: BuilderModel) -> BuilderModel {
    BuilderModel { table_open: true, ..m }
}

/// The model after one field is added to the open table.
pub open spec fn step_add(m: BuilderModel, f: FieldModel) -> BuilderModel {
    BuilderModel { fields: m.fields.push(f), ..m }
}

/// Whether the vtable for the pending table's shape fits: it always does
/// when the shape was interned before.
pub open spec fn end_vt_fits(m: BuilderModel) -> bool {
    has_shape(m.shapes, tbl_size(m.fields) as u16, slots_of(m.fields)) || alloc_len(
        m.written.len() as int,
        vtable_image(tbl_size(m.fields) as u16, slots_of(m.fields)).len() as int,
        2,
    ) <= m.max
}

/// The buffer after the pending table's vtable is interned.
pub open spec fn end_vt_written(m: BuilderModel) -> Seq<u8> {
    let ts = tbl_size(m.fields) as u16;
    let sl = slots_of(m.fields);
    if has_shape(m.shapes, ts, sl) {
        m.written
    } else {
        vtable_image(ts, sl) + zeros(
            pad_len(m.written.len() as int, vtable_image(ts, sl).len() as int, 2),
        ) + m.written
    }
}

/// The registry after the pending table's vtable is interned.
pub open spec fn end_vt_shapes(m: BuilderModel) -> Seq<ShapeModel> {
    let ts = tbl_size(m.fields) as u16;
    let sl = slots_of(m.fields);
    if has_shape(m.shapes, ts, sl) {
        m.shapes
    } else {
        m.shapes.push(ShapeModel { tsize: ts, slots: sl, rev: end_vt_rev(m) })
    }
}

/// The vtable offset the pending table will reference.
pub open spec fn end_vt_rev(m: BuilderModel) -> int {
    let ts = tbl_size(m.fields) as u16;
    let sl = slots_of(m.fields);
    if has_shape(m.shapes, ts, sl) {
        shape_rev(m.shapes, ts, sl)
    } else {
        alloc_len(m.written.len() as int, vtable_image(ts, sl).len() as int, 2)
    }
}

/// The end-relative offset the finished table will get.
pub open spec fn end_rev(m: BuilderModel) -> int {
    alloc_len(end_vt_written(m).len() as int, tbl_size(m.fields), 4)
}

/// Whether vtable and table body both fit under the configured maximum.
pub open spec fn end_fits(m: BuilderModel) -> bool {
    end_vt_fits(m) && end_rev(m) <= m.max
}

/// The model after the open table is closed: its vtable interned, its body
/// written, its offset handed out; a capacity overrun fails the build.
pub open spec fn step_end(m: BuilderModel) -> BuilderModel {
    if !end_vt_fits(m) {
        BuilderModel { failed: true, ..m }
    } else if end_rev(m) > m.max {
        BuilderModel {
            failed: true,
            written: end_vt_written(m),
            shapes: end_vt_shapes(m),
            ..m
        }
    } else {
        BuilderModel {
            written: table_image(m.fields, end_rev(m), end_vt_rev(m)) + zeros(
                pad_len(end_vt_written(m).len() as int, tbl_size(m.fields), 4),
            ) + end_vt_written(m),
            shapes: end_vt_shapes(m),
            fields: Seq::<FieldModel>::empty(),
            table_open: false,
            issued: m.issued.insert(end_rev(m)),
            ..m
        }
    }
}

/// A fresh session's model: nothing written, no shapes, no pending table,
/// no offsets handed out, the given maximum.
pub open spec fn initial_model(max: int) -> BuilderModel {
    BuilderModel {
        written: Seq::<u8>::empty(),
        shapes: Seq::<ShapeModel>::empty(),
        fields: Seq::<FieldModel>::empty(),
        table_open: false,
        finished: false,
        failed: false,
        max,
        issued: Set::<int>::empty(),
    }
}

/// A single-session builder over one buffer and one vtable registry.
pub struct Builder {
    buf: Buffer,
    registry: VTableRegistry,
    pending: Vec<PendingField>,
    table_open: bool,
    finished: bool,
    failed: bool,
    issued: Ghost<Set<int>>,
}

impl Builder {
    /// The builder's model.
    pub closed spec fn model(self) -> BuilderModel {
        BuilderModel {
            written: self.buf.written(),
            shapes: self.registry.shapes(),
            fields: self.pending@.map(|i: int, f: PendingField| f.model()),
            table_open: self.table_open,
            finished: self.finished,
            failed: self.failed,
            max: self.buf.max(),
            issued: self.issued@,
        }
    }

    /// The builder's invariant: buffer and registry are sound, every offset
    /// handed out points inside the written bytes, pending fields are valid
    /// and reference only offsets handed out, and no table is open unless a
    /// table is actually under construction.
    pub closed spec fn wf(self) -> bool {
        &&& self.buf.wf()
        &&& self.registry.wf_with(self.buf.written())
        &&& forall|o: int|
            self.issued@.contains(o) ==> 4 <= o <= self.buf.written_len()
        &&& fields_wf(self.model().fields)
        &&& forall|k: int|
            0 <= k < self.model().fields.len() ==> match (#[trigger] self.model().fields[k]).val {
                FieldValModel::Child { target } => self.issued@.contains(target),
                _ => true,
            }
        &&& !self.table_open ==> self.pending@.len() == 0
        &&& self.finished ==> !self.table_open
    }

    /// While no table is open, no field is pending.
    pub proof fn lemma_no_open_table_no_fields(self)
        requires
            self.wf(),
            !self.model().table_open,
        ensures
            self.model().fields =~= Seq::<FieldModel>::empty(),
    {
    }

    /// A fresh builder: empty buffer with the given starting capacity,
    /// growable to `max_size`; no shapes, no pending table, nothing issued.
    pub fn new(capacity: usize, max_size: usize) -> (r: Builder)
        requires
            capacity <= max_size,
            max_size <= MAX_BUFFER_LIMIT,
        ensures
            r.wf(),
            r.model() == initial_model(max_size as int),
    {
        let r = Builder {
            buf: Buffer::new(capacity, max_size),
            registry: VTableRegistry::new(),
            pending: Vec::new(),
            table_open: false,
            finished: false,
            failed: false,
            issued: Ghost(Set::empty()),
        };
        proof {
            assert(r.buf.written() =~= Seq::<u8>::empty());
            assert(r.model().fields =~= Seq::<FieldModel>::empty());
            assert(r.model() =~= initial_model(max_size as int));
        }
        r
    }

    /// Hands a finished image to the buffer and settles the bookkeeping
    /// shared by every `create_*` operation.
    fn write_object(&mut self, img: &Vec<u8>) -> (r: Result<usize, BuildError>)
        requires
            old(self).wf(),
            !old(self).model().finished,
            !old(self).model().table_open,
            !old(self).model().failed,
            img@.len() >= 4,
        ensures
            final(self).wf(),
            final(self).model() == step_write(old(self).model(), img@, 4),
            match r {
                Ok(off) => {
                    &&& write_fits(old(self).model(), img@.len() as int, 4)
                    &&& off as int == write_rev(old(self).model(), img@.len() as int, 4)
                    &&& off as int % 4 == 0
                    &&& has_bytes_at(final(self).model().written, off as int, img@)
                    &&& !final(self).model().failed
                },
                Err(e) => {
                    &&& !write_fits(old(self).model(), img@.len() as int, 4)
                    &&& final(self).model().failed
                    &&& e == BuildError::CapacityExceeded
                },
            },
    {
        let ghost oldw = self.buf.written();
        match self.buf.write_block(img, 4) {
            Ok(off) => {
                proof {
                    self.issued@ = self.issued@.insert(off as int);
                }
                proof {
                    let pre = img@ + zeros(
                        pad_len(oldw.len() as int, img@.len() as int, 4),
                    );
                    assert(self.buf.written() =~= pre + oldw);
                    self.registry.lemma_wf_prepend(pre, oldw);
                    assert(self.model() =~= step_write(old(self).model(), img@, 4));
                }
                Ok(off)
            },
            Err(e) => {
                self.failed = true;
                proof {
                    assert(self.model() =~= step_write(old(self).model(), img@, 4));
                }
                Err(e)
            },
        }
    }

    /// Writes `text` as a length-prefixed, zero-terminated string and
    /// returns its offset.
    pub fn create_string(&mut self, text: &Vec<u8>) -> (r: Result<usize, BuildError>)
        requires
            old(self).wf(),
            !old(self).model().finished,
            !old(self).model().table_open,
            !old(self).model().failed,
            text@.len() <= MAX_BUFFER_LIMIT as int,
        ensures
            final(self).wf(),
            final(self).model() == step_string(old(self).model(), text@),
            match r {
                Ok(off) => {
                    &&& write_fits(old(self).model(), string_image(text@).len() as int, 4)
                    &&& off as int == write_rev(
                        old(self).model(),
                        string_image(text@).len() as int,
                        4,
                    )
                    &&& has_bytes_at(final(self).model().written, off as int, string_image(text@))
                    &&& !final(self).model().failed
                },
                Err(e) => {
                    &&& !write_fits(old(self).model(), string_image(text@).len() as int, 4)
                    &&& final(self).model().failed
                    &&& e == BuildError::CapacityExceeded
                },
            },
    {
        let mut img: Vec<u8> = Vec::new();
        push_u32_le(&mut img, text.len() as u32);
        append_bytes(&mut img, text);
        img.push(0u8);
        proof {
            assert(img@ =~= string_image(text@));
        }
        self.write_object(&img)
    }

    /// Writes a length-prefixed vector of `count` inline elements of
    /// `elem_size` bytes each, whose concatenated little-endian bytes are
    /// `data`, and returns its offset.  This covers vectors of scalars and
    /// vectors of fixed-layout structs: element count and element size are
    /// fixed here, and the elements land contiguously in the order supplied.
    pub fn create_inline_vector(&mut self, count: usize, elem_size: usize, data: &Vec<u8>) -> (r:
        Result<usize, BuildError>)
        requires
            old(self).wf(),
            !old(self).model().finished,
            !old(self).model().table_open,
            !old(self).model().failed,
            1 <= elem_size,
            elem_size <= 4 || elem_size % 4 == 0,
            data@.len() == count * elem_size,
            data@.len() <= MAX_BUFFER_LIMIT as int,
            count <= MAX_BUFFER_LIMIT,
        ensures
            final(self).wf(),
            final(self).model() == step_inline_vector(old(self).model(), count as int, data@),
            match r {
                Ok(off) => {
                    &&& write_fits(
                        old(self).model(),
                        inline_vector_image(count as int, data@).len() as int,
                        4,
                    )
                    &&& off as int == write_rev(
                        old(self).model(),
                        inline_vector_image(count as int, data@).len() as int,
                        4,
                    )
                    &&& has_bytes_at(
                        final(self).model().written,
                        off as int,
                        inline_vector_image(count as int, data@),
                    )
                    &&& !final(self).model().failed
                },
                Err(e) => {
                    &&& !write_fits(
                        old(self).model(),
                        inline_vector_image(count as int, data@).len() as int,
                        4,
                    )
                    &&& final(self).model().failed
                    &&& e == BuildError::CapacityExceeded
                },
            },
    {
        let mut img: Vec<u8> = Vec::new();
        push_u32_le(&mut img, count as u32);
        append_bytes(&mut img, data);
        proof {
            assert(img@ =~= inline_vector_image(count as int, data@));
        }
        self.write_object(&img)
    }

    /// Writes a length-prefixed vector whose elements are references to
    /// objects already written, and returns its offset.
    pub fn create_ref_vector(&mut self, targets: &Vec<usize>) -> (r: Result<usize, BuildError>)
        requires
            old(self).wf(),
            !old(self).model().finished,
            !old(self).model().table_open,
            !old(self).model().failed,
            4 + 4 * targets@.len() <= MAX_BUFFER_LIMIT as int,
            forall|k: int|
                0 <= k < targets@.len() ==> old(self).model().issued.contains(
                    #[trigger] targets@[k] as int,
                ),
        ensures
            final(self).wf(),
            final(self).model() == step_ref_vector(old(self).model(), targets@),
            match r {
                Ok(off) => {
                    &&& write_fits(old(self).model(), 4 + 4 * targets@.len() as int, 4)
                    &&& off as int == write_rev(old(self).model(), 4 + 4 * targets@.len() as int, 4)
                    &&& has_bytes_at(
                        final(self).model().written,
                        off as int,
                        ref_vector_image(targets@, off as int),
                    )
                    &&& !final(self).model().failed
                },
                Err(e) => {
                    &&& !write_fits(old(self).model(), 4 + 4 * targets@.len() as int, 4)
                    &&& final(self).model().failed
                    &&& e == BuildError::CapacityExceeded
                },
            },
    {
        let wl: usize = self.buf.written_length();
        let n: usize = targets.len();
        let img_len: usize = 4 + 4 * n;
        let rem: usize = (wl + img_len) % 4;
        let pad: usize = if rem == 0 {
            0
        } else {
            4 - rem
        };
        proof {
            crate::buffer::lemma_alloc_aligned(wl as int, img_len as int, 4);
            if rem == 0 {
                vstd::arithmetic::div_mod::lemma_mod_self_0(4int);
            } else {
                vstd::arithmetic::div_mod::lemma_small_mod((4 - rem) as nat, 4nat);
            }
            assert(pad as int == pad_len(wl as int, img_len as int, 4));
        }
        let vec_rev: usize = wl + img_len + pad;
        proof {
            lemma_ref_elems_len(targets@, vec_rev as int, targets@.len() as int);
        }
        if vec_rev > self.max_size_ref() {
            self.failed = true;
            proof {
                assert(self.model() =~= step_ref_vector(old(self).model(), targets@));
            }
            return Err(BuildError::CapacityExceeded);
        }
        let mut img: Vec<u8> = Vec::new();
        push_u32_le(&mut img, n as u32);
        let mut k: usize = 0;
        while k < n
            invariant
                k <= n,
                n == targets@.len(),
                *self == *old(self),
                old(self).wf(),
                wl as int == old(self).model().written.len(),
                img_len == 4 + 4 * n,
                vec_rev == wl + img_len + pad,
                vec_rev <= MAX_BUFFER_LIMIT,
                forall|j: int|
                    0 <= j < targets@.len() ==> old(self).model().issued.contains(
                        #[trigger] targets@[j] as int,
                    ),
                img@ == u32_le(n as u32) + ref_elems_upto(targets@, vec_rev as int, k as int),
            decreases n - k,
        {
            let t: usize = targets[k];
            proof {
                assert(old(self).model().issued.contains(targets@[k as int] as int));
                assert(4 <= t as int <= wl as int);
            }
            let stored: u32 = ((vec_rev - 4 - 4 * k) - t) as u32;
            push_u32_le(&mut img, stored);
            proof {
                assert(img@ =~= u32_le(n as u32) + ref_elems_upto(
                    targets@,
                    vec_rev as int,
                    k as int + 1,
                ));
            }
            k = k + 1;
        }
        proof {
            assert(img@ == ref_vector_image(targets@, vec_rev as int));
        }
        let r = self.write_object(&img);
        proof {
            assert(r is Ok);
            assert(self.model() =~= step_ref_vector(old(self).model(), targets@));
        }
        r
    }

    /// Opens a table: fields added next belong to it until `end_table`.
    pub fn start_table(&mut self)
        requires
            old(self).wf(),
            !old(self).model().finished,
            !old(self).model().table_open,
            !old(self).model().failed,
        ensures
            final(self).wf(),
            final(self).model() == step_start(old(self).model()),
    {
        self.table_open = true;
        proof {
            assert(self.model() =~= step_start(old(self).model()));
        }
    }

    /// Appends one pending field to the open table.
    fn push_pending(&mut self, f: PendingField)
        requires
            old(self).wf(),
            old(self).model().table_open,
            !old(self).model().failed,
            field_wf(f.model()),
            old(self).model().fields.len() < MAX_TABLE_FIELDS as int,
            forall|j: int|
                0 <= j < old(self).model().fields.len() ==> (#[trigger] old(
                    self,
                ).model().fields[j]).id != f.model().id,
            match f.model().val {
                FieldValModel::Child { target } => old(self).model().issued.contains(target),
                _ => true,
            },
        ensures
            final(self).wf(),
            final(self).model() == step_add(old(self).model(), f.model()),
    {
        let ghost fm = f.model();
        self.pending.push(f);
        proof {
            assert(self.model().fields =~= old(self).model().fields.push(fm));
            assert(self.model() =~= step_add(old(self).model(), fm));
        }
    }

    /// Adds a `u8` scalar field; a value equal to its schema default is
    /// omitted and costs no space.
    pub fn add_u8_field(&mut self, id: u16, x: u8, default: u8)
        requires
            old(self).wf(),
            old(self).model().table_open,
            !old(self).model().failed,
            id <= MAX_FIELD_ID,
            old(self).model().fields.len() < MAX_TABLE_FIELDS as int,
            forall|j: int|
                0 <= j < old(self).model().fields.len() ==> (#[trigger] old(
                    self,
                ).model().fields[j]).id != id,
        ensures
            final(self).wf(),
            final(self).model() == (if x == default {
                old(self).model()
            } else {
                step_add(
                    old(self).model(),
                    (FieldModel { id, val: FieldValModel::Scalar { bytes: seq![x] } }),
                )
            }),
    {
        if x != default {
            let mut b: Vec<u8> = Vec::new();
            b.push(x);
            proof {
                assert(b@ =~= seq![x]);
            }
            self.push_pending(PendingField { id, val: FieldVal::Scalar { bytes: b } });
        }
    }

    /// Adds an `i8` scalar field; the schema default is omitted.
    pub fn add_i8_field(&mut self, id: u16, x: i8, default: i8)
        requires
            old(self).wf(),
            old(self).model().table_open,
            !old(self).model().failed,
            id <= MAX_FIELD_ID,
            old(self).model().fields.len() < MAX_TABLE_FIELDS as int,
            forall|j: int|
                0 <= j < old(self).model().fields.len() ==> (#[trigger] old(
                    self,
                ).model().fields[j]).id != id,
        ensures
            final(self).wf(),
            final(self).model() == (if x == default {
                old(self).model()
            } else {
                step_add(
                    old(self).model(),
                    (FieldModel { id, val: FieldValModel::Scalar { bytes: seq![x as u8] } }),
                )
            }),
    {
        if x != default {
            let mut b: Vec<u8> = Vec::new();
            b.push(x as u8);
            proof {
                assert(b@ =~= seq![x as u8]);
            }
            self.push_pending(PendingField { id, val: FieldVal::Scalar { bytes: b } });
        }
    }

    /// Adds a `u16` scalar field; the schema default is omitted.
    pub fn add_u16_field(&mut self, id: u16, x: u16, default: u16)
        requires
            old(self).wf(),
            old(self).model().table_open,
            !old(self).model().failed,
            id <= MAX_FIELD_ID,
            old(self).model().fields.len() < MAX_TABLE_FIELDS as int,
            forall|j: int|
                0 <= j < old(self).model().fields.len() ==> (#[trigger] old(
                    self,
                ).model().fields[j]).id != id,
        ensures
            final(self).wf(),
            final(self).model() == (if x == default {
                old(self).model()
            } else {
                step_add(
                    old(self).model(),
                    (FieldModel { id, val: FieldValModel::Scalar { bytes: u16_le(x) } }),
                )
            }),
    {
        if x != default {
            let mut b: Vec<u8> = Vec::new();
            crate::bytes::push_u16_le(&mut b, x);
            self.push_pending(PendingField { id, val: FieldVal::Scalar { bytes: b } });
        }
    }

    /// Adds an `i16` scalar field; the schema default is omitted.
    pub fn add_i16_field(&mut self, id: u16, x: i16, default: i16)
        requires
            old(self).wf(),
            old(self).model().table_open,
            !old(self).model().failed,
            id <= MAX_FIELD_ID,
            old(self).model().fields.len() < MAX_TABLE_FIELDS as int,
            forall|j: int|
                0 <= j < old(self).model().fields.len() ==> (#[trigger] old(
                    self,
                ).model().fields[j]).id != id,
        ensures
            final(self).wf(),
            final(self).model() == (if x == default {
                old(self).model()
            } else {
                step_add(
                    old(self).model(),
                    (FieldModel { id, val: FieldValModel::Scalar { bytes: u16_le(x as u16) } }),
                )
            }),
    {
        if x != default {
            let mut b: Vec<u8> = Vec::new();
            crate::bytes::push_u16_le(&mut b, x as u16);
            self.push_pending(PendingField { id, val: FieldVal::Scalar { bytes: b } });
        }
    }

    /// Adds a `u32` scalar field; the schema default is omitted.
    pub fn add_u32_field(&mut self, id: u16, x: u32, default: u32)
        requires
            old(self).wf(),
            old(self).model().table_open,
            !old(self).model().failed,
            id <= MAX_FIELD_ID,
            old(self).model().fields.len() < MAX_TABLE_FIELDS as int,
            forall|j: int|
                0 <= j < old(self).model().fields.len() ==> (#[trigger] old(
                    self,
                ).model().fields[j]).id != id,
        ensures
            final(self).wf(),
            final(self).model() == (if x == default {
                old(self).model()
            } else {
                step_add(
                    old(self).model(),
                    (FieldModel { id, val: FieldValModel::Scalar { bytes: u32_le(x) } }),
                )
            }),
    {
        if x != default {
            let mut b: Vec<u8> = Vec::new();
            push_u32_le(&mut b, x);
            self.push_pending(PendingField { id, val: FieldVal::Scalar { bytes: b } });
        }
    }

    /// Adds an `i32` scalar field; the schema default is omitted.
    pub fn add_i32_field(&mut self, id: u16, x: i32, default: i32)
        requires
            old(self).wf(),
            old(self).model().table_open,
            !old(self).model().failed,
            id <= MAX_FIELD_ID,
            old(self).model().fields.len() < MAX_TABLE_FIELDS as int,
            forall|j: int|
                0 <= j < old(self).model().fields.len() ==> (#[trigger] old(
                    self,
                ).model().fields[j]).id != id,
        ensures
            final(self).wf(),
            final(self).model() == (if x == default {
                old(self).model()
            } else {
                step_add(
                    old(self).model(),
                    (FieldModel { id, val: FieldValModel::Scalar { bytes: i32_le(x) } }),
                )
            }),
    {
        if x != default {
            let mut b: Vec<u8> = Vec::new();
            crate::bytes::push_i32_le(&mut b, x);
            self.push_pending(PendingField { id, val: FieldVal::Scalar { bytes: b } });
        }
    }

    /// Adds a reference field pointing at an object this session created.
    pub fn add_ref_field(&mut self, id: u16, target: usize)
        requires
            old(self).wf(),
            old(self).model().table_open,
            !old(self).model().failed,
            id <= MAX_FIELD_ID,
            old(self).model().fields.len() < MAX_TABLE_FIELDS as int,
            forall|j: int|
                0 <= j < old(self).model().fields.len() ==> (#[trigger] old(
                    self,
                ).model().fields[j]).id != id,
            old(self).model().issued.contains(target as int),
        ensures
            final(self).wf(),
            final(self).model() == step_add(
                old(self).model(),
                (FieldModel { id, val: FieldValModel::Child { target: target as int } }),
            ),
    {
        proof {
            assert(4 <= target as int);
        }
        self.push_pending(PendingField { id, val: FieldVal::Child { target } });
    }

    /// Adds a fixed-layout struct field, stored inline byte for byte.
    pub fn add_struct_field(&mut self, id: u16, bytes: &Vec<u8>)
        requires
            old(self).wf(),
            old(self).model().table_open,
            !old(self).model().failed,
            id <= MAX_FIELD_ID,
            old(self).model().fields.len() < MAX_TABLE_FIELDS as int,
            forall|j: int|
                0 <= j < old(self).model().fields.len() ==> (#[trigger] old(
                    self,
                ).model().fields[j]).id != id,
            4 <= bytes@.len() <= MAX_INLINE_BYTES as int,
            bytes@.len() as int % 4 == 0,
        ensures
            final(self).wf(),
            final(self).model() == step_add(
                old(self).model(),
                (FieldModel { id, val: FieldValModel::Inline { bytes: bytes@ } }),
            ),
    {
        let mut b: Vec<u8> = Vec::new();
        append_bytes(&mut b, bytes);
        self.push_pending(PendingField { id, val: FieldVal::Inline { bytes: b } });
    }

    /// Adds a union field: the discriminant scalar and the reference to the
    /// chosen variant are written as a pair, or — for a zero discriminant,
    /// the union's default — both are absent.
    pub fn add_union_field(&mut self, tag_id: u16, tag: u8, value_id: u16, target: usize)
        requires
            old(self).wf(),
            old(self).model().table_open,
            !old(self).model().failed,
            tag_id <= MAX_FIELD_ID,
            value_id <= MAX_FIELD_ID,
            tag_id != value_id,
            old(self).model().fields.len() + 2 <= MAX_TABLE_FIELDS as int,
            forall|j: int|
                0 <= j < old(self).model().fields.len() ==> (#[trigger] old(
                    self,
                ).model().fields[j]).id != tag_id && old(self).model().fields[j].id != value_id,
            tag != 0 ==> old(self).model().issued.contains(target as int),
        ensures
            final(self).wf(),
            final(self).model() == (if tag == 0 {
                old(self).model()
            } else {
                step_add(
                    step_add(
                        old(self).model(),
                        (FieldModel { id: tag_id, val: FieldValModel::Scalar { bytes: seq![tag] } }),
                    ),
                    (FieldModel {
                        id: value_id,
                        val: FieldValModel::Child { target: target as int },
                    }),
                )
            }),
    {
        if tag != 0 {
            let mut b: Vec<u8> = Vec::new();
            b.push(tag);
            proof {
                assert(b@ =~= seq![tag]);
            }
            self.push_pending(PendingField { id: tag_id, val: FieldVal::Scalar { bytes: b } });
            proof {
                assert(4 <= target as int);
            }
            self.push_pending(PendingField { id: value_id, val: FieldVal::Child { target } });
        }
    }

    /// Closes the open table: computes its layout, interns its shape in the
    /// vtable registry — reusing any identical vtable written before — and
    /// writes the table body, whose first four bytes reference the vtable.
    /// Returns the finished table's offset.
    pub fn end_table(&mut self) -> (r: Result<usize, BuildError>)
        requires
            old(self).wf(),
            old(self).model().table_open,
            !old(self).model().failed,
        ensures
            final(self).wf(),
            final(self).model() == step_end(old(self).model()),
            match r {
                Ok(off) => {
                    &&& end_fits(old(self).model())
                    &&& off as int == end_rev(old(self).model())
                    &&& end_vt_rev(old(self).model()) < off as int
                    &&& has_bytes_at(
                        final(self).model().written,
                        off as int,
                        table_image(
                            old(self).model().fields,
                            off as int,
                            end_vt_rev(old(self).model()),
                        ),
                    )
                    &&& has_bytes_at(
                        final(self).model().written,
                        end_vt_rev(old(self).model()),
                        vtable_image(
                            tbl_size(old(self).model().fields) as u16,
                            slots_of(old(self).model().fields),
                        ),
                    )
                    &&& !final(self).model().failed
                },
                Err(e) => {
                    &&& !end_fits(old(self).model())
                    &&& final(self).model().failed
                    &&& e == BuildError::CapacityExceeded
                },
            },
    {
        let ghost m0 = old(self).model();
        let ghost fs = m0.fields;
        let nf: usize = self.pending.len();
        proof {
            assert(nf as int == fs.len());
            assert(fields_wf(fs));
            lemma_cells_bounds(fs, nf as int);
            lemma_num_slots_bounds(fs, nf as int);
        }
        // Slot count: one past the largest identifier used.
        let mut ns: usize = 0;
        let mut k: usize = 0;
        while k < nf
            invariant
                k <= nf,
                *self == *old(self),
                old(self).wf(),
                fs == old(self).model().fields,
                nf as int == fs.len(),
                fields_wf(fs),
                ns as int == num_slots(fs, k as int),
                ns <= MAX_FIELD_ID as usize + 1,
            decreases nf - k,
        {
            proof {
                assert(fs[k as int] == self.pending@[k as int].model());
                assert(field_wf(fs[k as int]));
            }
            let id: u16 = self.pending[k].id;
            if (id as usize) + 1 > ns {
                ns = id as usize + 1;
            }
            k = k + 1;
        }
        // Field positions and total table size.
        let mut positions: Vec<u16> = Vec::new();
        let mut cur: usize = 4;
        k = 0;
        while k < nf
            invariant
                k <= nf,
                *self == *old(self),
                old(self).wf(),
                fs == old(self).model().fields,
                nf as int == fs.len(),
                fields_wf(fs),
                positions@.len() == k as int,
                forall|j: int| 0 <= j < k ==> #[trigger] positions@[j] as int == slot_pos(fs, j),
                cur as int == 4 + cells(fs, k as int),
                cur as int <= 4 + 256 * (k as int),
            decreases nf - k,
        {
            proof {
                assert(fs[k as int] == self.pending@[k as int].model());
                assert(field_wf(fs[k as int]));
            }
            positions.push(cur as u16);
            let sz: usize = match &self.pending[k].val {
                FieldVal::Scalar { bytes } => bytes.len(),
                FieldVal::Child { .. } => 4,
                FieldVal::Inline { bytes } => bytes.len(),
            };
            let c: usize = if sz < 4 {
                4
            } else {
                sz
            };
            proof {
                assert(sz as int == fsize(fs[k as int]));
                assert(c as int == cell(fs[k as int]));
            }
            cur = cur + c;
            k = k + 1;
        }
        let tsize: usize = cur;
        let ts16: u16 = tsize as u16;
        proof {
            assert(tsize as int == tbl_size(fs));
            assert(tsize <= 4 + 256 * MAX_TABLE_FIELDS);
        }
        // The slot table.
        let mut slots: Vec<u16> = Vec::new();
        let mut z: usize = 0;
        while z < ns
            invariant
                z <= ns,
                slots@.len() == z as int,
                forall|j: int| 0 <= j < z ==> slots@[j] == 0u16,
            decreases ns - z,
        {
            slots.push(0u16);
            z = z + 1;
        }
        proof {
            assert(slots@ =~= slots_upto(fs, ns as int, 0));
        }
        k = 0;
        while k < nf
            invariant
                k <= nf,
                *self == *old(self),
                old(self).wf(),
                fs == old(self).model().fields,
                nf as int == fs.len(),
                fields_wf(fs),
                ns as int == num_slots(fs, nf as int),
                positions@.len() == nf as int,
                forall|j: int| 0 <= j < nf ==> #[trigger] positions@[j] as int == slot_pos(fs, j),
                slots@ == slots_upto(fs, ns as int, k as int),
                slots@.len() == ns as int,
            decreases nf - k,
        {
            proof {
                lemma_num_slots_bounds(fs, nf as int);
                lemma_slots_upto_len(fs, ns as int, k as int);
                assert(fs[k as int] == self.pending@[k as int].model());
                assert(fs[k as int].id < ns as int);
            }
            let id: usize = self.pending[k].id as usize;
            let p: u16 = positions[k];
            slots.set(id, p);
            proof {
                assert(slots@ =~= slots_upto(fs, ns as int, k as int + 1));
            }
            k = k + 1;
        }
        proof {
            assert(slots@ == slots_of(fs));
        }
        // Intern the shape; reuse a structurally equal vtable if one exists.
        let vt = self.registry.intern(&mut self.buf, ts16, &slots);
        let vtrev: usize = match vt {
            Ok(v) => v,
            Err(e) => {
                self.failed = true;
                proof {
                    assert(!end_vt_fits(m0));
                    assert(self.model() =~= step_end(m0));
                }
                return Err(e);
            },
        };
        proof {
            assert(self.buf.written() == end_vt_written(m0));
            assert(vtrev as int == end_vt_rev(m0));
            assert(self.registry.shapes() == end_vt_shapes(m0));
            assert(has_bytes_at(
                self.buf.written(),
                vtrev as int,
                vtable_image(ts16, slots@),
            ));
        }
        let ghost w1 = self.buf.written();
        // Place the table body.
        let wl2: usize = self.buf.written_length();
        let rem: usize = (wl2 + tsize) % 4;
        let pad: usize = if rem == 0 {
            0
        } else {
            4 - rem
        };
        proof {
            crate::buffer::lemma_alloc_aligned(wl2 as int, tsize as int, 4);
            if rem == 0 {
                vstd::arithmetic::div_mod::lemma_mod_self_0(4int);
            } else {
                vstd::arithmetic::div_mod::lemma_small_mod((4 - rem) as nat, 4nat);
            }
            assert(pad as int == pad_len(wl2 as int, tsize as int, 4));
        }
        let trev: usize = wl2 + tsize + pad;
        proof {
            assert(trev as int == end_rev(m0));
        }
        if trev > self.max_size_ref() {
            self.failed = true;
            proof {
                assert(self.model() =~= step_end(m0));
            }
            return Err(BuildError::CapacityExceeded);
        }
        let ghost s1 = *self;
        let mut body: Vec<u8> = Vec::new();
        let so: i32 = (vtrev as i32) - (trev as i32);
        crate::bytes::push_i32_le(&mut body, so);
        proof {
            assert(so as int == (end_vt_rev(m0) - end_rev(m0)));
            assert(so == ((vtrev as int - trev as int) as i32));
            assert(body@ =~= body_upto(fs, trev as int, vtrev as int, 0));
        }
        k = 0;
        while k < nf
            invariant
                k <= nf,
                *self == s1,
                s1.wf(),
                fs == s1.model().fields,
                nf as int == fs.len(),
                fields_wf(fs),
                positions@.len() == nf as int,
                forall|j: int| 0 <= j < nf ==> #[trigger] positions@[j] as int == slot_pos(fs, j),
                tsize as int == tbl_size(fs),
                trev == wl2 + tsize + pad,
                trev <= MAX_BUFFER_LIMIT,
                vtrev <= wl2,
                m0.written.len() <= wl2 as int,
                forall|o: int| m0.issued.contains(o) ==> 4 <= o <= m0.written.len(),
                forall|j: int|
                    0 <= j < nf ==> match (#[trigger] fs[j]).val {
                        FieldValModel::Child { target } => m0.issued.contains(target),
                        _ => true,
                    },
                body@ == body_upto(fs, trev as int, vtrev as int, k as int),
            decreases nf - k,
        {
            proof {
                lemma_cells_bounds(fs, nf as int);
                lemma_body_upto_len(fs, trev as int, vtrev as int, k as int);
                assert(fs[k as int] == self.pending@[k as int].model());
                assert(field_wf(fs[k as int]));
                assert(body@.len() == slot_pos(fs, k as int));
                assert(cells(fs, k as int + 1) <= cells(fs, nf as int));
            }
            let pos: usize = positions[k] as usize;
            let sz: usize = match &self.pending[k].val {
                FieldVal::Scalar { bytes } => bytes.len(),
                FieldVal::Child { .. } => 4,
                FieldVal::Inline { bytes } => bytes.len(),
            };
            let c: usize = if sz < 4 {
                4
            } else {
                sz
            };
            proof {
                assert(sz as int == fsize(fs[k as int]));
                assert(c as int == cell(fs[k as int]));
                assert(pos + sz <= tsize);
            }
            match &self.pending[k].val {
                FieldVal::Scalar { bytes } => {
                    append_bytes(&mut body, bytes);
                },
                FieldVal::Inline { bytes } => {
                    append_bytes(&mut body, bytes);
                },
                FieldVal::Child { target } => {
                    let t: usize = *target;
                    proof {
                        assert(m0.issued.contains(t as int));
                        assert(4 <= t as int <= m0.written.len());
                        assert(t < trev - pos);
                    }
                    let stored: u32 = ((trev - pos) - t) as u32;
                    push_u32_le(&mut body, stored);
                },
            }
            proof {
                assert(body@ =~= body_upto(fs, trev as int, vtrev as int, k as int)
                    + field_bytes(fs[k as int], trev as int - slot_pos(fs, k as int)));
            }
            let mut zc: usize = sz;
            while zc < c
                invariant
                    sz <= zc <= c,
                    body@ == body_upto(fs, trev as int, vtrev as int, k as int) + field_bytes(
                        fs[k as int],
                        trev as int - slot_pos(fs, k as int),
                    ) + zeros(zc as int - sz as int),
                decreases c - zc,
            {
                body.push(0u8);
                proof {
                    assert(body@ =~= body_upto(fs, trev as int, vtrev as int, k as int)
                        + field_bytes(fs[k as int], trev as int - slot_pos(fs, k as int)) + zeros(
                        zc as int + 1 - sz as int,
                    ));
                }
                zc = zc + 1;
            }
            proof {
                assert(body@ =~= body_upto(fs, trev as int, vtrev as int, k as int + 1));
            }
            k = k + 1;
        }
        proof {
            lemma_body_upto_len(fs, trev as int, vtrev as int, nf as int);
            assert(body@ == table_image(fs, trev as int, vtrev as int));
            assert(body@.len() == tsize);
        }
        match self.buf.write_block(&body, 4) {
            Ok(off) => {
                self.pending = Vec::new();
                self.table_open = false;
                proof {
                    self.issued@ = self.issued@.insert(trev as int);
                }
                proof {
                    assert(off == trev);
                    let pre = body@ + zeros(pad_len(w1.len() as int, body@.len() as int, 4));
                    assert(self.buf.written() =~= pre + w1);
                    self.registry.lemma_wf_prepend(pre, w1);
                    lemma_prepend_keeps_bytes(pre, w1, vtrev as int, vtable_image(ts16, slots@));
                    assert(self.model().fields =~= Seq::<FieldModel>::empty());
                    assert(self.model() =~= step_end(m0));
                }
                Ok(off)
            },
            Err(_) => {
                // unreachable: the capacity check above showed the body fits
                proof {
                    assert(false);
                }
                Err(BuildError::CapacityExceeded)
            },
        }
    }

    /// Seals the session: writes the root object's offset — and, if given,
    /// the four-byte identifier — at the very front of the buffer.  After
    /// this no further object may be created.
    pub fn finish(&mut self, root: usize, identifier: Option<&Vec<u8>>) -> (r: Result<
        (),
        BuildError,
    >)
        requires
            old(self).wf(),
            !old(self).model().finished,
            !old(self).model().table_open,
            !old(self).model().failed,
            old(self).model().issued.contains(root as int),
            match identifier {
                Some(id) => id@.len() == 4,
                None => true,
            },
        ensures
            final(self).wf(),
            final(self).model() == step_finish(
                old(self).model(),
                root as int,
                match identifier {
                    Some(id) => id@,
                    None => Seq::<u8>::empty(),
                },
            ),
            match r {
                Ok(_) => final(self).model().finished && !final(self).model().failed,
                Err(e) => {
                    &&& final(self).model().failed
                    &&& !final(self).model().finished
                    &&& e == BuildError::CapacityExceeded
                },
            },
    {
        let ghost ident = match identifier {
            Some(id) => id@,
            None => Seq::<u8>::empty(),
        };
        let ilen: usize = match identifier {
            Some(_) => 4,
            None => 0,
        };
        let wl: usize = self.buf.written_length();
        proof {
            assert(4 <= root as int <= wl as int);
        }
        let img_len: usize = 4 + ilen;
        let rem: usize = (wl + img_len) % 4;
        let pad: usize = if rem == 0 {
            0
        } else {
            4 - rem
        };
        proof {
            crate::buffer::lemma_alloc_aligned(wl as int, img_len as int, 4);
            if rem == 0 {
                vstd::arithmetic::div_mod::lemma_mod_self_0(4int);
            } else {
                vstd::arithmetic::div_mod::lemma_small_mod((4 - rem) as nat, 4nat);
            }
            assert(pad as int == pad_len(wl as int, img_len as int, 4));
        }
        let total: usize = wl + img_len + pad;
        if total > self.max_size_ref() {
            self.failed = true;
            proof {
                assert(self.model() =~= step_finish(old(self).model(), root as int, ident));
            }
            return Err(BuildError::CapacityExceeded);
        }
        let mut img: Vec<u8> = Vec::new();
        push_u32_le(&mut img, (total - root) as u32);
        match identifier {
            Some(id) => {
                append_bytes(&mut img, id);
            },
            None => {},
        }
        proof {
            assert(img@ =~= u32_le((total - root) as u32) + ident);
        }
        let ghost oldw = self.buf.written();
        match self.buf.write_block(&img, 4) {
            Ok(_) => {
                self.finished = true;
                proof {
                    let pre = img@ + zeros(pad_len(oldw.len() as int, img@.len() as int, 4));
                    assert(self.buf.written() =~= pre + oldw);
                    self.registry.lemma_wf_prepend(pre, oldw);
                    assert(self.model() =~= step_finish(old(self).model(), root as int, ident));
                }
                Ok(())
            },
            Err(e) => {
                // unreachable: the capacity check above showed the block fits
                proof {
                    assert(false);
                }
                Err(e)
            },
        }
    }

    /// The finished buffer, front to back: the first four bytes locate the
    /// root object.
    pub fn finished_data(&self) -> (r: Vec<u8>)
        requires
            self.wf(),
            self.model().finished,
        ensures
            r@ == self.model().written,
    {
        self.buf.to_vec()
    }

    /// How many distinct vtables this session has written.
    pub fn vtable_count(&self) -> (r: usize)
        ensures
            r as int == self.model().shapes.len(),
    {
        self.registry.shape_count()
    }

    /// The configured maximum buffer size.
    fn max_size_ref(&self) -> (r: usize)
        requires
            self.wf(),
        ensures
            r as int == self.model().max,
    {
        self.buf.max_value()
    }
}

} // verus!
