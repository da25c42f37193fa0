//! The reader: the contract counterpart of the builder.
//!
//! Given a finished buffer, these functions navigate to any field by
//! following offsets alone — no decoding pass, no second representation.
//! The spec functions define what each access means; the lemmas prove that
//! reading a buffer the builder produced yields exactly the values that
//! were put in, and that a field left at its default is absent yet reads
//! back as the default.

use vstd::prelude::*;
use crate::bytes::{
    has_bytes_at, lemma_bytes_at_index, lemma_bytes_at_subrange, lemma_rd_i32_le, lemma_rd_u16_le,
    lemma_rd_u32_le, rd_i16, rd_i32, rd_u16, rd_u32, read_i16_at, read_i32_at, read_u16_at,
    read_u32_at, u16_le, u32_le,
};
use crate::buffer::MAX_BUFFER_LIMIT;
use crate::builder::{
    body_upto, cell, cells, field_bytes, field_wf, fields_wf, fsize, num_slots, slot_pos, slots_of,
    string_image, inline_vector_image, ref_elems_upto, ref_vector_image, table_image, tbl_size,
    lemma_body_upto_len, lemma_cells_bounds, lemma_field_bytes_len, lemma_num_slots_bounds,
    lemma_slots_upto_len, lemma_slots_upto_at, FieldModel, FieldValModel,
};
use crate::vtable::{lemma_slots_bytes_index, lemma_slots_bytes_len, slots_bytes, vtable_image};

verus! {

/// The position of the root table: the buffer's first four bytes hold its
/// distance from the front.
pub open spec fn spec_root_pos(v: Seq<u8>) -> int {
    rd_u32(v, 0) as int
}

/// The position of a table's vtable: the table's first four bytes hold the
/// signed distance back to it.
pub open spec fn spec_vtable_pos(v: Seq<u8>, tpos: int) -> int {
    tpos - rd_i32(v, tpos) as int
}

/// The byte offset of field `id` inside the table at `tpos`, read from its
/// vtable; zero means the field is absent.
pub open spec fn spec_voffset(v: Seq<u8>, tpos: int, id: int) -> int {
    let vt = spec_vtable_pos(v, tpos);
    if 4 + 2 * id + 2 <= rd_u16(v, vt) as int {
        rd_u16(v, vt + 4 + 2 * id) as int
    } else {
        0
    }
}

/// The bytes of the string at `p`: its length prefix, then that many bytes.
pub open spec fn spec_string_bytes(v: Seq<u8>, p: int) -> Seq<u8> {
    v.subrange(p + 4, p + 4 + rd_u32(v, p) as int)
}

/// Reads the root table's position from a finished buffer.
pub fn root_table_pos(v: &Vec<u8>) -> (r: usize)
    requires
        4 <= v@.len(),
        spec_root_pos(v@) <= v@.len(),
    ensures
        r as int == spec_root_pos(v@),
{
    read_u32_at(v, 0) as usize
}

/// Reads the position of the vtable of the table at `tpos`.
pub fn table_vtable_pos(v: &Vec<u8>, tpos: usize) -> (r: usize)
    requires
        tpos + 4 <= v@.len(),
        0 <= spec_vtable_pos(v@, tpos as int) <= v@.len(),
    ensures
        r as int == spec_vtable_pos(v@, tpos as int),
{
    let _n: usize = v.len();
    let s: i32 = read_i32_at(v, tpos);
    if s >= 0 {
        tpos - (s as usize)
    } else {
        tpos + ((-(s as i64)) as usize)
    }
}

/// Reads field `id`'s byte offset inside the table at `tpos`; zero means
/// the field is absent from this table.
pub fn field_voffset(v: &Vec<u8>, tpos: usize, id: u16) -> (r: u16)
    requires
        tpos + 4 <= v@.len(),
        0 <= spec_vtable_pos(v@, tpos as int),
        spec_vtable_pos(v@, tpos as int) + 4 <= v@.len(),
        4 + 2 * (id as int) + 2 <= rd_u16(v@, spec_vtable_pos(v@, tpos as int)) as int
            ==> spec_vtable_pos(v@, tpos as int) + 4 + 2 * (id as int) + 2 <= v@.len(),
    ensures
        r as int == spec_voffset(v@, tpos as int, id as int),
{
    let _n: usize = v.len();
    let vt: usize = table_vtable_pos(v, tpos);
    let vtlen: u16 = read_u16_at(v, vt);
    if 4 + 2 * (id as usize) + 2 <= vtlen as usize {
        read_u16_at(v, vt + 4 + 2 * (id as usize))
    } else {
        0
    }
}

/// Reads a `u16` field, or the given default where it is absent.
pub fn table_u16_field(v: &Vec<u8>, tpos: usize, id: u16, default: u16) -> (r: u16)
    requires
        tpos + 4 <= v@.len(),
        0 <= spec_vtable_pos(v@, tpos as int),
        spec_vtable_pos(v@, tpos as int) + 4 <= v@.len(),
        4 + 2 * (id as int) + 2 <= rd_u16(v@, spec_vtable_pos(v@, tpos as int)) as int
            ==> spec_vtable_pos(v@, tpos as int) + 4 + 2 * (id as int) + 2 <= v@.len(),
        tpos + spec_voffset(v@, tpos as int, id as int) + 2 <= v@.len(),
    ensures
        r == (if spec_voffset(v@, tpos as int, id as int) == 0 {
            default
        } else {
            rd_u16(v@, tpos + spec_voffset(v@, tpos as int, id as int))
        }),
{
    let _n: usize = v.len();
    let vo: u16 = field_voffset(v, tpos, id);
    if vo == 0 {
        default
    } else {
        read_u16_at(v, tpos + vo as usize)
    }
}

/// Reads an `i16` field, or the given default where it is absent.
pub fn table_i16_field(v: &Vec<u8>, tpos: usize, id: u16, default: i16) -> (r: i16)
    requires
        tpos + 4 <= v@.len(),
        0 <= spec_vtable_pos(v@, tpos as int),
        spec_vtable_pos(v@, tpos as int) + 4 <= v@.len(),
        4 + 2 * (id as int) + 2 <= rd_u16(v@, spec_vtable_pos(v@, tpos as int)) as int
            ==> spec_vtable_pos(v@, tpos as int) + 4 + 2 * (id as int) + 2 <= v@.len(),
        tpos + spec_voffset(v@, tpos as int, id as int) + 2 <= v@.len(),
    ensures
        r == (if spec_voffset(v@, tpos as int, id as int) == 0 {
            default
        } else {
            rd_i16(v@, tpos + spec_voffset(v@, tpos as int, id as int))
        }),
{
    let _n: usize = v.len();
    let vo: u16 = field_voffset(v, tpos, id);
    if vo == 0 {
        default
    } else {
        read_i16_at(v, tpos + vo as usize)
    }
}

/// Reads a `u8` field, or the given default where it is absent.
pub fn table_u8_field(v: &Vec<u8>, tpos: usize, id: u16, default: u8) -> (r: u8)
    requires
        tpos + 4 <= v@.len(),
        0 <= spec_vtable_pos(v@, tpos as int),
        spec_vtable_pos(v@, tpos as int) + 4 <= v@.len(),
        4 + 2 * (id as int) + 2 <= rd_u16(v@, spec_vtable_pos(v@, tpos as int)) as int
            ==> spec_vtable_pos(v@, tpos as int) + 4 + 2 * (id as int) + 2 <= v@.len(),
        tpos + spec_voffset(v@, tpos as int, id as int) + 1 <= v@.len(),
    ensures
        r == (if spec_voffset(v@, tpos as int, id as int) == 0 {
            default
        } else {
            v@[tpos + spec_voffset(v@, tpos as int, id as int)]
        }),
{
    let _n: usize = v.len();
    let vo: u16 = field_voffset(v, tpos, id);
    if vo == 0 {
        default
    } else {
        v[tpos + vo as usize]
    }
}

/// Reads an `i8` field, or the given default where it is absent.
pub fn table_i8_field(v: &Vec<u8>, tpos: usize, id: u16, default: i8) -> (r: i8)
    requires
        tpos + 4 <= v@.len(),
        0 <= spec_vtable_pos(v@, tpos as int),
        spec_vtable_pos(v@, tpos as int) + 4 <= v@.len(),
        4 + 2 * (id as int) + 2 <= rd_u16(v@, spec_vtable_pos(v@, tpos as int)) as int
            ==> spec_vtable_pos(v@, tpos as int) + 4 + 2 * (id as int) + 2 <= v@.len(),
        tpos + spec_voffset(v@, tpos as int, id as int) + 1 <= v@.len(),
    ensures
        r == (if spec_voffset(v@, tpos as int, id as int) == 0 {
            default
        } else {
            v@[tpos + spec_voffset(v@, tpos as int, id as int)] as i8
        }),
{
    let _n: usize = v.len();
    let vo: u16 = field_voffset(v, tpos, id);
    if vo == 0 {
        default
    } else {
        v[tpos + vo as usize] as i8
    }
}

/// Resolves a reference field to the position of its target, or `None`
/// where the field is absent.
pub fn table_ref_field(v: &Vec<u8>, tpos: usize, id: u16) -> (r: Option<usize>)
    requires
        tpos + 4 <= v@.len(),
        0 <= spec_vtable_pos(v@, tpos as int),
        spec_vtable_pos(v@, tpos as int) + 4 <= v@.len(),
        4 + 2 * (id as int) + 2 <= rd_u16(v@, spec_vtable_pos(v@, tpos as int)) as int
            ==> spec_vtable_pos(v@, tpos as int) + 4 + 2 * (id as int) + 2 <= v@.len(),
        tpos + spec_voffset(v@, tpos as int, id as int) + 4 <= v@.len(),
        spec_voffset(v@, tpos as int, id as int) != 0 ==> tpos + spec_voffset(
            v@,
            tpos as int,
            id as int,
        ) + rd_u32(
            v@,
            tpos + spec_voffset(v@, tpos as int, id as int),
        ) <= v@.len(),
    ensures
        r == (if spec_voffset(v@, tpos as int, id as int) == 0 {
            Option::<usize>::None
        } else {
            Option::Some(
                (tpos + spec_voffset(v@, tpos as int, id as int) + rd_u32(
                    v@,
                    tpos + spec_voffset(v@, tpos as int, id as int),
                ) as int) as usize,
            )
        }),
{
    let _n: usize = v.len();
    let vo: u16 = field_voffset(v, tpos, id);
    if vo == 0 {
        None
    } else {
        let fp: usize = tpos + vo as usize;
        let rel: u32 = read_u32_at(v, fp);
        Some(fp + rel as usize)
    }
}

/// The position of an inline struct field's bytes, or `None` where it is
/// absent.
pub fn table_struct_pos(v: &Vec<u8>, tpos: usize, id: u16) -> (r: Option<usize>)
    requires
        tpos + 4 <= v@.len(),
        0 <= spec_vtable_pos(v@, tpos as int),
        spec_vtable_pos(v@, tpos as int) + 4 <= v@.len(),
        4 + 2 * (id as int) + 2 <= rd_u16(v@, spec_vtable_pos(v@, tpos as int)) as int
            ==> spec_vtable_pos(v@, tpos as int) + 4 + 2 * (id as int) + 2 <= v@.len(),
        tpos + spec_voffset(v@, tpos as int, id as int) <= v@.len(),
    ensures
        r == (if spec_voffset(v@, tpos as int, id as int) == 0 {
            Option::<usize>::None
        } else {
            Option::Some((tpos + spec_voffset(v@, tpos as int, id as int)) as usize)
        }),
{
    let _n: usize = v.len();
    let vo: u16 = field_voffset(v, tpos, id);
    if vo == 0 {
        None
    } else {
        Some(tpos + vo as usize)
    }
}

/// Reads the length prefix of the string or vector at `p`.
pub fn length_at(v: &Vec<u8>, p: usize) -> (r: u32)
    requires
        p + 4 <= v@.len(),
    ensures
        r == rd_u32(v@, p as int),
{
    read_u32_at(v, p)
}

/// A copy of the bytes of the string or byte vector at `p`.
pub fn bytes_at(v: &Vec<u8>, p: usize) -> (r: Vec<u8>)
    requires
        p + 4 <= v@.len(),
        p + 4 + rd_u32(v@, p as int) <= v@.len(),
    ensures
        r@ == spec_string_bytes(v@, p as int),
{
    let nn: usize = v.len();
    let n: usize = read_u32_at(v, p) as usize;
    let mut r: Vec<u8> = Vec::new();
    let mut i: usize = 0;
    while i < n
        invariant
            i <= n,
            p + 4 + n <= v@.len(),
            nn as int == v@.len(),
            r@ == v@.subrange(p as int + 4, p as int + 4 + i as int),
        decreases n - i,
    {
        let b: u8 = v[p + 4 + i];
        r.push(b);
        proof {
            assert(r@ =~= v@.subrange(p as int + 4, p as int + 4 + i as int + 1));
        }
        i = i + 1;
    }
    r
}

/// Resolves element `k` of the reference vector at `p` to the position of
/// its target.
pub fn ref_vector_target(v: &Vec<u8>, p: usize, k: usize) -> (r: usize)
    requires
        p + 4 + 4 * k + 4 <= v@.len(),
        p + 4 + 4 * k + rd_u32(v@, p as int + 4 + 4 * k as int) <= v@.len(),
    ensures
        r as int == p + 4 + 4 * k + rd_u32(v@, p as int + 4 + 4 * k as int) as int,
{
    let _n: usize = v.len();
    let ep: usize = p + 4 + 4 * k;
    let rel: u32 = read_u32_at(v, ep);
    ep + rel as usize
}

} // verus!
