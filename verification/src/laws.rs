//! The properties the library guarantees, stated and proved once.
//!
//! Round trip: what each constructor wrote reads back unchanged through the
//! reader's spec functions, wherever the buffer has grown to meanwhile.
//! Children before parents: every stored relative offset is strictly
//! positive, so a reference always points at an object written earlier.
//! Vtable dedup: a shape interned before adds no vtable; a new one adds
//! exactly one.  Isolation: a session's outcome is a function of its inputs
//! alone, so concurrent sessions with equal inputs yield identical bytes.
//! Exhaustion: an allocation past the configured maximum fails the build
//! and leaves the buffer as it was.

use vstd::prelude::*;
use crate::bytes::{
    has_bytes_at, lemma_bytes_at_index, lemma_bytes_at_subrange, lemma_rd_i32_le, lemma_rd_u16_le,
    lemma_rd_u32_le, rd_u16, rd_u32, u16_le, u32_le,
};
use crate::buffer::{pad_len, MAX_BUFFER_LIMIT};
use crate::builder::{
    body_upto, cells, end_vt_shapes, field_bytes, fields_wf, fsize,
    inline_vector_image, lemma_body_upto_len, lemma_cells_bounds, lemma_field_bytes_len,
    lemma_num_slots_bounds, lemma_slots_upto_at, lemma_slots_upto_len, num_slots, ref_elems_upto,
    ref_vector_image, slot_pos, slots_of, step_add, step_end, step_finish, step_inline_vector,
    step_ref_vector, step_start, step_string, step_write, string_image, table_image, tbl_size,
    write_fits, write_rev, BuilderModel, FieldModel, FieldValModel,
};
use crate::reader::{spec_root_pos, spec_string_bytes, spec_voffset, spec_vtable_pos};
use crate::vtable::{
    has_shape, lemma_slots_bytes_index, lemma_slots_bytes_len, slots_bytes, vtable_image,
};

verus! {

/// A string reads back as the bytes that were written: its length prefix is
/// the text's length, the bytes follow, and a zero terminator closes it.
pub proof fn lemma_string_read_back(v: Seq<u8>, r: int, s: Seq<u8>)
    requires
        has_bytes_at(v, r, string_image(s)),
        s.len() <= MAX_BUFFER_LIMIT as int,
    ensures
        rd_u32(v, v.len() - r) as int == s.len(),
        spec_string_bytes(v, v.len() - r) == s,
        v[v.len() - r + 4 + s.len()] == 0,
{
    let p = v.len() - r;
    let img = string_image(s);
    lemma_bytes_at_subrange(v, r, img, 0, 4);
    assert(img.subrange(0, 4) =~= u32_le(s.len() as u32));
    lemma_rd_u32_le(v, p, s.len() as u32);
    lemma_bytes_at_subrange(v, r, img, 4, 4 + s.len() as int);
    assert(img.subrange(4, 4 + s.len() as int) =~= s);
    assert(spec_string_bytes(v, p) == s);
    lemma_bytes_at_index(v, r, img, 4 + s.len() as int);
    assert(img[4 + s.len() as int] == 0);
}

/// A vector of inline elements reads back as its element count and the
/// element bytes that were supplied.
pub proof fn lemma_inline_vector_read_back(v: Seq<u8>, r: int, count: int, data: Seq<u8>)
    requires
        has_bytes_at(v, r, inline_vector_image(count, data)),
        0 <= count <= MAX_BUFFER_LIMIT as int,
    ensures
        rd_u32(v, v.len() - r) as int == count,
        v.subrange(v.len() - r + 4, v.len() - r + 4 + data.len()) == data,
{
    let p = v.len() - r;
    let img = inline_vector_image(count, data);
    lemma_bytes_at_subrange(v, r, img, 0, 4);
    assert(img.subrange(0, 4) =~= u32_le(count as u32));
    lemma_rd_u32_le(v, p, count as u32);
    lemma_bytes_at_subrange(v, r, img, 4, 4 + data.len() as int);
    assert(img.subrange(4, 4 + data.len() as int) =~= data);
}

/// Element `k` of a reference vector occupies bytes `4 k` to `4 k + 4` of
/// the element region.
proof fn lemma_ref_elems_index(targets: Seq<usize>, vec_rev: int, n: int, k: int)
    requires
        0 <= k < n <= targets.len(),
    ensures
        ref_elems_upto(targets, vec_rev, n).subrange(4 * k, 4 * k + 4) == u32_le(
            ((vec_rev - 4 - 4 * k) - targets[k]) as u32,
        ),
    decreases n,
{
    crate::builder::lemma_ref_elems_len(targets, vec_rev, n);
    crate::builder::lemma_ref_elems_len(targets, vec_rev, n - 1);
    if k == n - 1 {
        assert(ref_elems_upto(targets, vec_rev, n).subrange(4 * k, 4 * k + 4) =~= u32_le(
            ((vec_rev - 4 - 4 * k) - targets[k]) as u32,
        ));
    } else {
        lemma_ref_elems_index(targets, vec_rev, n - 1, k);
        assert(ref_elems_upto(targets, vec_rev, n).subrange(4 * k, 4 * k + 4) =~= ref_elems_upto(
            targets,
            vec_rev,
            n - 1,
        ).subrange(4 * k, 4 * k + 4));
    }
}

/// A reference vector reads back as its element count, and each stored
/// element is a strictly positive relative offset that resolves to exactly
/// the target the caller supplied: children always lie behind the vector.
pub proof fn lemma_ref_vector_read_back(v: Seq<u8>, r: int, targets: Seq<usize>)
    requires
        has_bytes_at(v, r, ref_vector_image(targets, r)),
        r <= MAX_BUFFER_LIMIT as int,
        targets.len() <= MAX_BUFFER_LIMIT as int,
        forall|j: int|
            0 <= j < targets.len() ==> 4 <= #[trigger] targets[j] as int <= r - 4 - 4
                * targets.len(),
    ensures
        rd_u32(v, v.len() - r) as int == targets.len(),
        forall|k: int|
            0 <= k < targets.len() ==> #[trigger] rd_u32(v, v.len() - r + 4 + 4 * k) as int == (r
                - 4 - 4 * k) - targets[k] as int,
        forall|k: int|
            0 <= k < targets.len() ==> 0 < #[trigger] rd_u32(v, v.len() - r + 4 + 4 * k) as int,
{
    let p = v.len() - r;
    let img = ref_vector_image(targets, r);
    let n = targets.len() as int;
    crate::builder::lemma_ref_elems_len(targets, r, n);
    lemma_bytes_at_subrange(v, r, img, 0, 4);
    assert(img.subrange(0, 4) =~= u32_le(targets.len() as u32));
    lemma_rd_u32_le(v, p, targets.len() as u32);
    assert forall|k: int| 0 <= k < targets.len() implies #[trigger] rd_u32(
        v,
        v.len() - r + 4 + 4 * k,
    ) as int == (r - 4 - 4 * k) - targets[k] as int && 0 < rd_u32(
        v,
        v.len() - r + 4 + 4 * k,
    ) as int by {
        lemma_ref_elems_index(targets, r, n, k);
        lemma_bytes_at_subrange(v, r, img, 4 + 4 * k, 4 + 4 * k + 4);
        assert(img.subrange(4 + 4 * k, 4 + 4 * k + 4) =~= ref_elems_upto(
            targets,
            r,
            n,
        ).subrange(4 * k, 4 * k + 4));
        lemma_rd_u32_le(v, p + 4 + 4 * k, ((r - 4 - 4 * k) - targets[k]) as u32);
    }
}

/// The first `i` cells of a table body are a prefix of the first `j`.
proof fn lemma_body_prefix(fs: Seq<FieldModel>, trev: int, vtrev: int, i: int, j: int)
    requires
        fields_wf(fs),
        0 <= i <= j <= fs.len(),
    ensures
        body_upto(fs, trev, vtrev, j).take(body_upto(fs, trev, vtrev, i).len() as int)
            == body_upto(fs, trev, vtrev, i),
    decreases j - i,
{
    lemma_body_upto_len(fs, trev, vtrev, i);
    if i < j {
        lemma_body_prefix(fs, trev, vtrev, i, j - 1);
        lemma_body_upto_len(fs, trev, vtrev, j - 1);
        lemma_cells_bounds(fs, j - 1);
        lemma_cells_bounds(fs, j);
        assert(cells(fs, i) <= cells(fs, j - 1));
        assert(body_upto(fs, trev, vtrev, j).take(body_upto(fs, trev, vtrev, i).len() as int)
            =~= body_upto(fs, trev, vtrev, j - 1).take(
            body_upto(fs, trev, vtrev, i).len() as int,
        ));
    }
}

/// Reading a table the builder wrote: the vtable is found through the
/// table's back-reference, the field's slot is its layout position, and the
/// field's content reads back as what was added — a scalar or struct byte
/// for byte, a reference as a strictly positive relative offset resolving
/// to exactly the child object written earlier.
pub proof fn lemma_table_read_back(v: Seq<u8>, trev: int, vtrev: int, fs: Seq<FieldModel>, k: int)
    requires
        fields_wf(fs),
        has_bytes_at(v, trev, table_image(fs, trev, vtrev)),
        has_bytes_at(v, vtrev, vtable_image(tbl_size(fs) as u16, slots_of(fs))),
        4 <= vtrev < trev <= MAX_BUFFER_LIMIT as int,
        0 <= k < fs.len(),
        match fs[k].val {
            FieldValModel::Child { target } => target <= trev - tbl_size(fs),
            _ => true,
        },
    ensures
        spec_vtable_pos(v, v.len() - trev) == v.len() - vtrev,
        spec_voffset(v, v.len() - trev, fs[k].id as int) == slot_pos(fs, k),
        match fs[k].val {
            FieldValModel::Scalar { bytes } => v.subrange(
                v.len() - trev + slot_pos(fs, k),
                v.len() - trev + slot_pos(fs, k) + bytes.len(),
            ) == bytes,
            FieldValModel::Inline { bytes } => v.subrange(
                v.len() - trev + slot_pos(fs, k),
                v.len() - trev + slot_pos(fs, k) + bytes.len(),
            ) == bytes,
            FieldValModel::Child { target } => {
                let stored = rd_u32(v, v.len() - trev + slot_pos(fs, k)) as int;
                &&& stored == (trev - slot_pos(fs, k)) - target
                &&& 0 < stored
                &&& v.len() - trev + slot_pos(fs, k) + stored == v.len() - target
            },
        },
{
    let tpos = v.len() - trev;
    let timg = table_image(fs, trev, vtrev);
    let n = fs.len() as int;
    let ns = num_slots(fs, n);
    let sl = slots_of(fs);
    let ts16 = tbl_size(fs) as u16;
    lemma_cells_bounds(fs, n);
    lemma_cells_bounds(fs, k);
    lemma_num_slots_bounds(fs, n);
    lemma_body_upto_len(fs, trev, vtrev, n);
    // the back-reference to the vtable
    lemma_body_prefix(fs, trev, vtrev, 0, n);
    assert(timg.subrange(0, 4) =~= body_upto(fs, trev, vtrev, 0));
    lemma_bytes_at_subrange(v, trev, timg, 0, 4);
    lemma_rd_i32_le(v, tpos, (vtrev - trev) as i32);
    assert(spec_vtable_pos(v, tpos) == v.len() - vtrev);
    // the slot, read from the vtable
    let vtimg = vtable_image(ts16, sl);
    let vtpos = v.len() - vtrev;
    lemma_slots_upto_len(fs, ns, n);
    assert(sl.len() == ns);
    lemma_slots_bytes_len(sl);
    let vtlen16 = (4 + 2 * sl.len()) as u16;
    lemma_bytes_at_subrange(v, vtrev, vtimg, 0, 2);
    assert(vtimg.subrange(0, 2) =~= u16_le(vtlen16));
    lemma_rd_u16_le(v, vtpos, vtlen16);
    let id = fs[k].id as int;
    assert(id < ns);
    lemma_bytes_at_subrange(v, vtrev, vtimg, 4 + 2 * id, 4 + 2 * id + 2);
    assert(vtimg.subrange(4 + 2 * id, 4 + 2 * id + 2) =~= slots_bytes(sl).subrange(
        2 * id,
        2 * id + 2,
    ));
    lemma_slots_bytes_index(sl, id);
    lemma_rd_u16_le(v, vtpos + 4 + 2 * id, sl[id]);
    lemma_slots_upto_at(fs, ns, n, id);
    assert(sl[id] == slot_pos(fs, k) as u16);
    assert(slot_pos(fs, k) <= tbl_size(fs) < 65536);
    assert(vtlen16 as int == 4 + 2 * ns);
    assert(rd_u16(v, spec_vtable_pos(v, tpos)) == vtlen16);
    assert(4 + 2 * id + 2 <= vtlen16 as int);
    assert(rd_u16(v, spec_vtable_pos(v, tpos) + 4 + 2 * id) == sl[id]);
    assert(spec_voffset(v, tpos, id) == slot_pos(fs, k));
    // the field's content
    let slot = slot_pos(fs, k);
    lemma_body_upto_len(fs, trev, vtrev, k);
    lemma_body_upto_len(fs, trev, vtrev, k + 1);
    lemma_field_bytes_len(fs[k], trev - slot);
    lemma_body_prefix(fs, trev, vtrev, k + 1, n);
    let fb = field_bytes(fs[k], trev - slot);
    assert(body_upto(fs, trev, vtrev, k + 1).subrange(slot, slot + fsize(fs[k])) =~= fb);
    lemma_cells_bounds(fs, k + 1);
    assert(timg.subrange(slot, slot + fsize(fs[k])) =~= body_upto(
        fs,
        trev,
        vtrev,
        k + 1,
    ).subrange(slot, slot + fsize(fs[k])));
    lemma_bytes_at_subrange(v, trev, timg, slot, slot + fsize(fs[k]));
    match fs[k].val {
        FieldValModel::Scalar { .. } => {},
        FieldValModel::Inline { .. } => {},
        FieldValModel::Child { target } => {
            lemma_rd_u32_le(v, tpos + slot, ((trev - slot) - target) as u32);
        },
    }
}

/// A field never added to the table — in particular one left at its schema
/// default — is absent: its vtable slot is zero, so a reader falls back to
/// the default value, and the table body spends no space on it.
pub proof fn lemma_absent_field_reads_default(
    v: Seq<u8>,
    trev: int,
    vtrev: int,
    fs: Seq<FieldModel>,
    id: int,
)
    requires
        fields_wf(fs),
        has_bytes_at(v, trev, table_image(fs, trev, vtrev)),
        has_bytes_at(v, vtrev, vtable_image(tbl_size(fs) as u16, slots_of(fs))),
        4 <= vtrev < trev <= MAX_BUFFER_LIMIT as int,
        0 <= id,
        forall|j: int| 0 <= j < fs.len() ==> (#[trigger] fs[j]).id != id,
    ensures
        spec_voffset(v, v.len() - trev, id) == 0,
{
    let tpos = v.len() - trev;
    let timg = table_image(fs, trev, vtrev);
    let n = fs.len() as int;
    let ns = num_slots(fs, n);
    let sl = slots_of(fs);
    let ts16 = tbl_size(fs) as u16;
    lemma_cells_bounds(fs, n);
    lemma_num_slots_bounds(fs, n);
    lemma_body_upto_len(fs, trev, vtrev, n);
    lemma_body_prefix(fs, trev, vtrev, 0, n);
    assert(timg.subrange(0, 4) =~= body_upto(fs, trev, vtrev, 0));
    lemma_bytes_at_subrange(v, trev, timg, 0, 4);
    lemma_rd_i32_le(v, tpos, (vtrev - trev) as i32);
    assert(spec_vtable_pos(v, tpos) == v.len() - vtrev);
    let vtimg = vtable_image(ts16, sl);
    let vtpos = v.len() - vtrev;
    lemma_slots_upto_len(fs, ns, n);
    lemma_slots_bytes_len(sl);
    let vtlen16 = (4 + 2 * sl.len()) as u16;
    lemma_bytes_at_subrange(v, vtrev, vtimg, 0, 2);
    assert(vtimg.subrange(0, 2) =~= u16_le(vtlen16));
    lemma_rd_u16_le(v, vtpos, vtlen16);
    if id < ns {
        lemma_bytes_at_subrange(v, vtrev, vtimg, 4 + 2 * id, 4 + 2 * id + 2);
        assert(vtimg.subrange(4 + 2 * id, 4 + 2 * id + 2) =~= slots_bytes(sl).subrange(
            2 * id,
            2 * id + 2,
        ));
        lemma_slots_bytes_index(sl, id);
        lemma_rd_u16_le(v, vtpos + 4 + 2 * id, sl[id]);
        lemma_slots_upto_at(fs, ns, n, id);
        assert(sl[id] == 0);
    }
}

/// After `finish`, the buffer's first four bytes locate the root object:
/// its position is the buffer's length minus the root's end-relative
/// offset.
pub proof fn lemma_root_read_back(m: BuilderModel, root: int, ident: Seq<u8>)
    requires
        write_fits(m, 4 + ident.len() as int, 4),
        4 <= root <= m.written.len(),
        m.max <= MAX_BUFFER_LIMIT as int,
    ensures
        step_finish(m, root, ident).written.len() == write_rev(m, 4 + ident.len() as int, 4),
        spec_root_pos(step_finish(m, root, ident).written) == step_finish(
            m,
            root,
            ident,
        ).written.len() - root,
{
    let lnew = write_rev(m, 4 + ident.len() as int, 4);
    let v = step_finish(m, root, ident).written;
    assert(v.len() == lnew);
    assert(v.subrange(0, 4) =~= u32_le((lnew - root) as u32));
    lemma_rd_u32_le(v, 0, (lnew - root) as u32);
}

/// A finished buffer's length is a multiple of four, and every object
/// offset the builder hands out is too: since positions are measured from
/// the buffer's front, every four-byte-aligned object — tables, strings,
/// vectors, and each scalar inside a table cell — lands on an address
/// aligned to its size, wherever the buffer is later placed.
pub proof fn lemma_finished_alignment(m: BuilderModel, root: int, ident: Seq<u8>)
    requires
        write_fits(m, 4 + ident.len() as int, 4),
    ensures
        step_finish(m, root, ident).written.len() % 4 == 0,
{
    crate::buffer::lemma_alloc_aligned(m.written.len() as int, 4 + ident.len() as int, 4);
    assert(step_finish(m, root, ident).written =~= u32_le(
        (write_rev(m, 4 + ident.len() as int, 4) - root) as u32,
    ) + ident + crate::bytes::zeros(pad_len(m.written.len() as int, 4 + ident.len() as int, 4))
        + m.written);
}

/// Closing a table whose shape was interned before adds no vtable; closing
/// one of a new shape adds exactly one.  So a session that builds any
/// number of tables of one shape writes one vtable, and one that builds
/// tables of several distinct shapes writes one vtable per shape.
pub proof fn lemma_vtable_dedup(m: BuilderModel)
    ensures
        has_shape(m.shapes, tbl_size(m.fields) as u16, slots_of(m.fields)) ==> end_vt_shapes(m)
            == m.shapes,
        !has_shape(m.shapes, tbl_size(m.fields) as u16, slots_of(m.fields)) ==> end_vt_shapes(
            m,
        ).len() == m.shapes.len() + 1,
{
}

/// One build step, as a value: the argument of each builder operation.
pub enum BuildOp {
    Str { text: Seq<u8> },
    InlineVec { count: int, data: Seq<u8> },
    RefVec { targets: Seq<usize> },
    OpenTable,
    AddField { f: FieldModel },
    CloseTable,
    Seal { root: int, ident: Seq<u8> },
}

/// What one step does to a builder's model — the same transition functions
/// the executable operations are specified by.
pub open spec fn apply_op(m: BuilderModel, op: BuildOp) -> BuilderModel {
    match op {
        BuildOp::Str { text } => step_string(m, text),
        BuildOp::InlineVec { count, data } => step_inline_vector(m, count, data),
        BuildOp::RefVec { targets } => step_ref_vector(m, targets),
        BuildOp::OpenTable => step_start(m),
        BuildOp::AddField { f } => step_add(m, f),
        BuildOp::CloseTable => step_end(m),
        BuildOp::Seal { root, ident } => step_finish(m, root, ident),
    }
}

/// A whole session: the steps applied in order.
pub open spec fn run_ops(m: BuilderModel, ops: Seq<BuildOp>) -> BuilderModel
    decreases ops.len(),
{
    if ops.len() == 0 {
        m
    } else {
        run_ops(apply_op(m, ops[0]), ops.subrange(1, ops.len() as int))
    }
}

/// Isolation: a session's outcome — in particular every byte of its buffer
/// — is a function of its starting model and its operations alone.  Each
/// executable operation ensures its new model is the corresponding
/// transition of the old one, and no state is shared between builders, so
/// two sessions fed identical logical input produce byte-identical output,
/// independent of how they interleave.
pub proof fn lemma_sessions_agree(m1: BuilderModel, m2: BuilderModel, ops: Seq<BuildOp>)
    requires
        m1 == m2,
    ensures
        run_ops(m1, ops) == run_ops(m2, ops),
        run_ops(m1, ops).written == run_ops(m2, ops).written,
{
}

/// Exhaustion is fatal and deterministic: a block past the configured
/// maximum fails the build — exactly then — and leaves the buffer exactly
/// as it was, so no truncated object is ever written.
pub proof fn lemma_exhaustion_fatal(m: BuilderModel, img: Seq<u8>, align: int)
    requires
        !m.failed,
    ensures
        step_write(m, img, align).failed <==> !write_fits(m, img.len() as int, align),
        !write_fits(m, img.len() as int, align) ==> step_write(m, img, align).written
            == m.written,
{
}

} // verus!
