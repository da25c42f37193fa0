//! The sample message the service serves: one concrete record, built and
//! pinned down end to end.
//!
//! The record is an orc named "Orc" carrying two weapons — "Sword" with
//! damage 3 and "Axe" with damage 5 — a ten-byte inventory holding zero
//! through nine, a two-point path of fixed-layout three-float points, a
//! position point, and a union equipping the axe.  `build_sample_message`
//! constructs it and its contract equates the returned bytes with
//! `sample_message_model`, the composition of the builder's transition
//! functions on these exact values.  The two fixed-layout inputs — the
//! position and the path — arrive as little-endian `f32` images assembled
//! by the caller, floats being outside the verifier.

use vstd::prelude::*;
use crate::buffer::BuildError;
use crate::builder::{
    cell, cells, end_fits, end_rev, end_vt_fits, end_vt_rev, end_vt_written, field_wf, fields_wf,
    initial_model, inline_vector_image, lemma_body_upto_len,
    lemma_num_slots_bounds, lemma_ref_elems_len, num_slots, ref_vector_image, slot_pos, slots_of,
    slots_upto, step_add, step_end, step_finish, step_inline_vector, step_ref_vector, step_start,
    step_string, string_image, tbl_size, write_fits, write_rev, Builder, BuilderModel, FieldModel,
    FieldValModel,
};
use crate::bytes::u16_le;
use crate::buffer::{alloc_len, MAX_BUFFER_LIMIT};
use crate::vtable::{has_shape, lemma_slots_bytes_len, shape_rev, vtable_image};

verus! {

/// The buffer maximum a sample-message session is configured with.
pub const SAMPLE_MESSAGE_MAX: usize = 0x100000;

/// Field identifiers of the sample schema's weapon table.
pub const WEAPON_NAME: u16 = 0;

pub const WEAPON_DAMAGE: u16 = 1;

/// Field identifiers of the sample schema's monster table.
pub const MONSTER_POS: u16 = 0;

pub const MONSTER_MANA: u16 = 1;

pub const MONSTER_HP: u16 = 2;

pub const MONSTER_NAME: u16 = 3;

pub const MONSTER_INVENTORY: u16 = 5;

pub const MONSTER_COLOR: u16 = 6;

pub const MONSTER_WEAPONS: u16 = 7;

pub const MONSTER_EQUIPPED_TYPE: u16 = 8;

pub const MONSTER_EQUIPPED: u16 = 9;

pub const MONSTER_PATH: u16 = 10;

/// "Sword", as bytes.
pub open spec fn sword_name() -> Seq<u8> {
    seq![83u8, 119u8, 111u8, 114u8, 100u8]
}

/// "Axe", as bytes.
pub open spec fn axe_name() -> Seq<u8> {
    seq![65u8, 120u8, 101u8]
}

/// "Orc", as bytes.
pub open spec fn orc_name() -> Seq<u8> {
    seq![79u8, 114u8, 99u8]
}

/// The inventory: the bytes zero through nine.
pub open spec fn inventory_bytes() -> Seq<u8> {
    seq![0u8, 1u8, 2u8, 3u8, 4u8, 5u8, 6u8, 7u8, 8u8, 9u8]
}

/// A weapon table with its fields added, just before it is closed: the name
/// string written, then the table opened, the name reference and the damage
/// scalar added.
pub open spec fn weapon_open(m: BuilderModel, name: Seq<u8>, damage: i16) -> BuilderModel {
    step_add(
        step_add(
            step_start(step_string(m, name)),
            (FieldModel {
                id: WEAPON_NAME,
                val: FieldValModel::Child {
                    target: write_rev(m, string_image(name).len() as int, 4),
                },
            }),
        ),
        (FieldModel { id: WEAPON_DAMAGE, val: FieldValModel::Scalar { bytes: u16_le(damage as u16) } }),
    )
}

/// The model after one whole weapon: its name string and its closed table.
pub open spec fn weapon_steps(m: BuilderModel, name: Seq<u8>, damage: i16) -> BuilderModel {
    step_end(weapon_open(m, name, damage))
}

/// The offset the weapon's table gets.
pub open spec fn weapon_rev(m: BuilderModel, name: Seq<u8>, damage: i16) -> int {
    end_rev(weapon_open(m, name, damage))
}

/// The monster table with its fields added, just before it is closed.  The
/// mana field is set to its schema default of 150, so it appears in no
/// transition: it is omitted from the table.
pub open spec fn monster_open(pos: Seq<u8>, path: Seq<u8>) -> BuilderModel {
    let m0 = initial_model(SAMPLE_MESSAGE_MAX as int);
    let m1 = weapon_steps(m0, sword_name(), 3);
    let sword = weapon_rev(m0, sword_name(), 3);
    let m2 = weapon_steps(m1, axe_name(), 5);
    let axe = weapon_rev(m1, axe_name(), 5);
    let m3 = step_ref_vector(m2, seq![sword as usize, axe as usize]);
    let weapons = write_rev(m2, 12, 4);
    let m4 = step_string(m3, orc_name());
    let name = write_rev(m3, string_image(orc_name()).len() as int, 4);
    let m5 = step_inline_vector(m4, 10, inventory_bytes());
    let inventory = write_rev(m4, inline_vector_image(10, inventory_bytes()).len() as int, 4);
    let m6 = step_inline_vector(m5, 2, path);
    let path_off = write_rev(m5, inline_vector_image(2, path).len() as int, 4);
    let m7 = step_start(m6);
    let m8 = step_add(m7, (FieldModel { id: MONSTER_POS, val: FieldValModel::Inline { bytes: pos } }));
    let m9 = step_add(
        m8,
        (FieldModel { id: MONSTER_HP, val: FieldValModel::Scalar { bytes: u16_le(80u16) } }),
    );
    let m10 = step_add(m9, (FieldModel { id: MONSTER_NAME, val: FieldValModel::Child { target: name } }));
    let m11 = step_add(
        m10,
        (FieldModel { id: MONSTER_INVENTORY, val: FieldValModel::Child { target: inventory } }),
    );
    let m12 = step_add(
        m11,
        (FieldModel { id: MONSTER_COLOR, val: FieldValModel::Scalar { bytes: seq![0u8] } }),
    );
    let m13 = step_add(
        m12,
        (FieldModel { id: MONSTER_WEAPONS, val: FieldValModel::Child { target: weapons } }),
    );
    let m14 = step_add(
        m13,
        (FieldModel { id: MONSTER_EQUIPPED_TYPE, val: FieldValModel::Scalar { bytes: seq![1u8] } }),
    );
    let m15 = step_add(
        m14,
        (FieldModel { id: MONSTER_EQUIPPED, val: FieldValModel::Child { target: axe } }),
    );
    step_add(m15, (FieldModel { id: MONSTER_PATH, val: FieldValModel::Child { target: path_off } }))
}

/// The whole sample session: both weapons, the vectors and strings, the
/// monster table, and the sealed buffer with the monster as root.
pub open spec fn sample_message_model(pos: Seq<u8>, path: Seq<u8>) -> BuilderModel {
    let mo = monster_open(pos, path);
    step_finish(step_end(mo), end_rev(mo), Seq::<u8>::empty())
}

/// Whether one whole weapon — its name string, its vtable and its table —
/// fits under the session's configured maximum.
pub open spec fn weapon_fits(m: BuilderModel, name: Seq<u8>, damage: i16) -> bool {
    &&& write_fits(m, string_image(name).len() as int, 4)
    &&& end_fits(weapon_open(m, name, damage))
}

/// The two-field weapon table's layout: both cells are four bytes, the
/// table is twelve bytes long, and the slot table places the name at
/// offset four and the damage at offset eight.
proof fn lemma_weapon_table_layout(fs: Seq<FieldModel>)
    requires
        fs.len() == 2,
        fs[0].id == WEAPON_NAME,
        fs[1].id == WEAPON_DAMAGE,
        fs[0].val matches FieldValModel::Child { target } && target >= 4,
        fs[1].val matches FieldValModel::Scalar { bytes } && bytes.len() == 2,
    ensures
        fields_wf(fs),
        cells(fs, 2) == 8,
        tbl_size(fs) == 12,
        num_slots(fs, 2) == 2,
        slots_of(fs) == seq![4u16, 8u16],
        vtable_image(12u16, slots_of(fs)).len() == 8,
{
    assert(cell(fs[0]) == 4);
    assert(cell(fs[1]) == 4);
    assert(cells(fs, 0) == 0);
    assert(cells(fs, 1) == 4);
    assert(cells(fs, 2) == 8);
    assert(num_slots(fs, 0) == 0);
    assert(num_slots(fs, 1) == 1);
    assert(num_slots(fs, 2) == 2);
    assert(field_wf(fs[0]));
    assert(field_wf(fs[1]));
    assert forall|i: int| 0 <= i < fs.len() implies field_wf(#[trigger] fs[i]) by {
        if i == 0 {
        } else {
            assert(i == 1);
        }
    }
    assert forall|i: int, j: int| 0 <= i < j < fs.len() implies (#[trigger] fs[i]).id != (
    #[trigger] fs[j]).id by {
        assert(i == 0 && j == 1);
    }
    assert(slot_pos(fs, 0) == 4);
    assert(slot_pos(fs, 1) == 8);
    assert(slots_upto(fs, 2, 0) =~= seq![0u16, 0u16]);
    assert(slots_upto(fs, 2, 1) =~= seq![4u16, 0u16]);
    assert(slots_upto(fs, 2, 2) =~= seq![4u16, 8u16]);
    assert(slots_of(fs) == slots_upto(fs, 2, 2));
    lemma_slots_bytes_len(slots_of(fs));
}


/// The sample record fits its session's fixed maximum with room to spare:
/// every allocation of the construction stays under it.  The written length
/// grows stage by stage: 12 after "Sword", 32 after its table, 40 after
/// "Axe", 52 after its table (whose vtable is shared), 64 after the weapons
/// vector, 72 after "Orc", 88 after the inventory, 116 after the path, 142
/// after the monster's vtable, 192 after its table, 196 once sealed.
#[verifier::rlimit(100)]
pub proof fn lemma_sample_message_fits(pos: Seq<u8>, path: Seq<u8>)
    requires
        pos.len() == 12,
        path.len() == 24,
    ensures
        ({
            let m0 = initial_model(SAMPLE_MESSAGE_MAX as int);
            let m1 = weapon_steps(m0, sword_name(), 3);
            let m2 = weapon_steps(m1, axe_name(), 5);
            let m3 = step_ref_vector(
                m2,
                seq![
                    weapon_rev(m0, sword_name(), 3) as usize,
                    weapon_rev(m1, axe_name(), 5) as usize,
                ],
            );
            let m4 = step_string(m3, orc_name());
            let m5 = step_inline_vector(m4, 10, inventory_bytes());
            &&& weapon_fits(m0, sword_name(), 3)
            &&& weapon_fits(m1, axe_name(), 5)
            &&& write_fits(m2, 12int, 4)
            &&& write_fits(m3, string_image(orc_name()).len() as int, 4)
            &&& write_fits(m4, inline_vector_image(10, inventory_bytes()).len() as int, 4)
            &&& write_fits(m5, inline_vector_image(2, path).len() as int, 4)
            &&& end_fits(monster_open(pos, path))
            &&& write_fits(step_end(monster_open(pos, path)), 4, 4)
            &&& sample_message_model(pos, path).finished
        }),
{
    let max = SAMPLE_MESSAGE_MAX as int;
    let m0 = initial_model(max);
    // the sword: string, then table
    assert(string_image(sword_name()).len() == 10);
    assert(write_fits(m0, 10, 4));
    let w1 = weapon_open(m0, sword_name(), 3);
    let fs1 = w1.fields;
    assert(fs1.len() == 2);
    assert(write_rev(m0, 10, 4) == 12);
    assert(fs1[0] == (FieldModel { id: WEAPON_NAME, val: FieldValModel::Child { target: 12 } }));
    assert(fs1[1] == (FieldModel {
        id: WEAPON_DAMAGE,
        val: FieldValModel::Scalar { bytes: u16_le(3u16) },
    }));
    lemma_weapon_table_layout(fs1);
    assert(w1.written.len() == 12);
    assert(w1.shapes.len() == 0);
    assert(!has_shape(w1.shapes, tbl_size(fs1) as u16, slots_of(fs1)));
    assert(alloc_len(12, 8, 2) == 20);
    assert(end_vt_fits(w1));
    assert(end_vt_written(w1).len() == 20);
    assert(end_vt_rev(w1) == 20);
    assert(alloc_len(20, 12, 4) == 32);
    assert(end_rev(w1) == 32);
    assert(end_fits(w1));
    assert(weapon_fits(m0, sword_name(), 3));
    let m1 = weapon_steps(m0, sword_name(), 3);
    lemma_body_upto_len(fs1, end_rev(w1), end_vt_rev(w1), 2);
    assert(m1.written.len() == 32);
    assert(m1.shapes.len() == 1);
    assert(m1.shapes[0].tsize == 12u16);
    assert(m1.shapes[0].slots == slots_of(fs1));
    assert(m1.shapes[0].rev == 20);
    assert(!m1.failed && !m1.finished && !m1.table_open && m1.fields.len() == 0 && m1.max == max);
    // the axe: its table shares the sword table's shape, so no new vtable
    assert(string_image(axe_name()).len() == 8);
    assert(write_fits(m1, 8, 4));
    let w2 = weapon_open(m1, axe_name(), 5);
    let fs2 = w2.fields;
    assert(fs2.len() == 2);
    assert(write_rev(m1, 8, 4) == 40);
    assert(fs2[0] == (FieldModel { id: WEAPON_NAME, val: FieldValModel::Child { target: 40 } }));
    assert(fs2[1] == (FieldModel {
        id: WEAPON_DAMAGE,
        val: FieldValModel::Scalar { bytes: u16_le(5u16) },
    }));
    lemma_weapon_table_layout(fs2);
    assert(slots_of(fs2) == slots_of(fs1));
    assert(w2.written.len() == 40);
    assert(w2.shapes == m1.shapes);
    assert(tbl_size(fs2) as u16 == 12u16);
    assert(has_shape(w2.shapes, tbl_size(fs2) as u16, slots_of(fs2)));
    assert(end_vt_fits(w2));
    assert(shape_rev(m1.shapes, tbl_size(fs2) as u16, slots_of(fs2)) == 20);
    assert(end_vt_rev(w2) == 20);
    assert(end_vt_written(w2).len() == 40);
    assert(alloc_len(40, 12, 4) == 52);
    assert(end_rev(w2) == 52);
    assert(end_fits(w2));
    assert(weapon_fits(m1, axe_name(), 5));
    let m2 = weapon_steps(m1, axe_name(), 5);
    lemma_body_upto_len(fs2, end_rev(w2), end_vt_rev(w2), 2);
    assert(m2.written.len() == 52);
    assert(m2.shapes == m1.shapes);
    assert(!m2.failed && !m2.finished && !m2.table_open && m2.fields.len() == 0 && m2.max == max);
    // the weapons vector, the name, the inventory, the path
    let tg = seq![
        weapon_rev(m0, sword_name(), 3) as usize,
        weapon_rev(m1, axe_name(), 5) as usize,
    ];
    assert(tg.len() == 2);
    assert(write_fits(m2, 12, 4));
    lemma_ref_elems_len(tg, write_rev(m2, 4 + 4 * tg.len() as int, 4), tg.len() as int);
    assert(ref_vector_image(tg, write_rev(m2, 4 + 4 * tg.len() as int, 4)).len() == 12);
    let m3 = step_ref_vector(m2, tg);
    assert(write_rev(m2, 12, 4) == 64);
    assert(m3.written.len() == 64);
    assert(string_image(orc_name()).len() == 8);
    assert(write_fits(m3, 8, 4));
    let m4 = step_string(m3, orc_name());
    assert(write_rev(m3, 8, 4) == 72);
    assert(m4.written.len() == 72);
    assert(inline_vector_image(10, inventory_bytes()).len() == 14);
    assert(write_fits(m4, 14, 4));
    let m5 = step_inline_vector(m4, 10, inventory_bytes());
    assert(write_rev(m4, 14, 4) == 88);
    assert(m5.written.len() == 88);
    assert(inline_vector_image(2, path).len() == 28);
    assert(write_fits(m5, 28, 4));
    let m6 = step_inline_vector(m5, 2, path);
    assert(write_rev(m5, 28, 4) == 116);
    assert(m6.written.len() == 116);
    assert(m6.shapes == m1.shapes);
    assert(!m6.failed && !m6.finished && !m6.table_open && m6.fields.len() == 0 && m6.max == max);
    // the monster table
    let mo = monster_open(pos, path);
    let fsm = mo.fields;
    assert(fsm.len() == 9);
    assert(fsm[0] == (FieldModel { id: MONSTER_POS, val: FieldValModel::Inline { bytes: pos } }));
    assert(fsm[1] == (FieldModel {
        id: MONSTER_HP,
        val: FieldValModel::Scalar { bytes: u16_le(80u16) },
    }));
    assert(fsm[2] == (FieldModel { id: MONSTER_NAME, val: FieldValModel::Child { target: 72 } }));
    assert(fsm[3] == (FieldModel {
        id: MONSTER_INVENTORY,
        val: FieldValModel::Child { target: 88 },
    }));
    assert(fsm[4] == (FieldModel {
        id: MONSTER_COLOR,
        val: FieldValModel::Scalar { bytes: seq![0u8] },
    }));
    assert(fsm[5] == (FieldModel {
        id: MONSTER_WEAPONS,
        val: FieldValModel::Child { target: 64 },
    }));
    assert(fsm[6] == (FieldModel {
        id: MONSTER_EQUIPPED_TYPE,
        val: FieldValModel::Scalar { bytes: seq![1u8] },
    }));
    assert(fsm[7] == (FieldModel {
        id: MONSTER_EQUIPPED,
        val: FieldValModel::Child { target: 52 },
    }));
    assert(fsm[8] == (FieldModel { id: MONSTER_PATH, val: FieldValModel::Child { target: 116 } }));
    assert(field_wf(fsm[0]));
    assert(field_wf(fsm[1]));
    assert(field_wf(fsm[2]));
    assert(field_wf(fsm[3]));
    assert(field_wf(fsm[4]));
    assert(field_wf(fsm[5]));
    assert(field_wf(fsm[6]));
    assert(field_wf(fsm[7]));
    assert(field_wf(fsm[8]));
    assert(fields_wf(fsm));
    assert(cells(fsm, 0) == 0);
    assert(cells(fsm, 1) == 12);
    assert(cells(fsm, 2) == 16);
    assert(cells(fsm, 3) == 20);
    assert(cells(fsm, 4) == 24);
    assert(cells(fsm, 5) == 28);
    assert(cells(fsm, 6) == 32);
    assert(cells(fsm, 7) == 36);
    assert(cells(fsm, 8) == 40);
    assert(cells(fsm, 9) == 44);
    assert(tbl_size(fsm) == 48);
    assert(num_slots(fsm, 0) == 0);
    assert(num_slots(fsm, 1) == 1);
    assert(num_slots(fsm, 2) == 3);
    assert(num_slots(fsm, 3) == 4);
    assert(num_slots(fsm, 4) == 6);
    assert(num_slots(fsm, 5) == 7);
    assert(num_slots(fsm, 6) == 8);
    assert(num_slots(fsm, 7) == 9);
    assert(num_slots(fsm, 8) == 10);
    assert(num_slots(fsm, 9) == 11);
    lemma_num_slots_bounds(fsm, 9);
    crate::builder::lemma_slots_upto_len(fsm, 11, 9);
    assert(slots_of(fsm).len() == 11);
    lemma_slots_bytes_len(slots_of(fsm));
    assert(vtable_image(tbl_size(fsm) as u16, slots_of(fsm)).len() == 26);
    assert(mo.written.len() == 116);
    assert(mo.shapes == m1.shapes);
    assert(mo.max == max);
    assert(tbl_size(fsm) as u16 == 48u16);
    assert forall|i: int| 0 <= i < mo.shapes.len() implies !((#[trigger] mo.shapes[i]).tsize
        == 48u16 && mo.shapes[i].slots == slots_of(fsm)) by {
        assert(i == 0);
        assert(mo.shapes[0].tsize == 12u16);
    }
    assert(!has_shape(mo.shapes, tbl_size(fsm) as u16, slots_of(fsm)));
    assert(alloc_len(116, 26, 2) == 142);
    assert(end_vt_fits(mo));
    assert(end_vt_written(mo).len() == 142);
    assert(alloc_len(142, 48, 4) == 192);
    assert(end_rev(mo) == 192);
    assert(end_fits(mo));
    let me = step_end(mo);
    lemma_body_upto_len(fsm, end_rev(mo), end_vt_rev(mo), 9);
    assert(me.written.len() == 192);
    assert(me.max == max);
    assert(write_fits(me, 4, 4));
    assert(sample_message_model(pos, path).finished);
}

/// Writes one weapon: its name string, then its table with the name
/// reference and the damage value.
fn create_weapon(b: &mut Builder, text: &Vec<u8>, damage: i16) -> (r: Result<usize, BuildError>)
    requires
        old(b).wf(),
        !old(b).model().finished,
        !old(b).model().table_open,
        !old(b).model().failed,
        text@.len() <= MAX_BUFFER_LIMIT as int,
        damage != 0,
    ensures
        final(b).wf(),
        match r {
            Ok(off) => {
                &&& weapon_fits(old(b).model(), text@, damage)
                &&& final(b).model() == weapon_steps(old(b).model(), text@, damage)
                &&& off as int == weapon_rev(old(b).model(), text@, damage)
                &&& !final(b).model().failed
                &&& !final(b).model().finished
                &&& !final(b).model().table_open
            },
            Err(e) => {
                &&& !weapon_fits(old(b).model(), text@, damage)
                &&& final(b).model().failed
                &&& e == BuildError::CapacityExceeded
            },
        },
{
    proof {
        b.lemma_no_open_table_no_fields();
    }
    let name_off = match b.create_string(text) {
        Ok(off) => off,
        Err(e) => {
            return Err(e);
        },
    };
    b.start_table();
    b.add_ref_field(WEAPON_NAME, name_off);
    b.add_i16_field(WEAPON_DAMAGE, damage, 0);
    proof {
        assert(b.model() == weapon_open(old(b).model(), text@, damage));
    }
    b.end_table()
}

/// Builds the sample message.  `pos` is the position point and `path` the
/// two path points, each point three little-endian `f32` images; the
/// returned bytes are exactly the composed transitions' output.  The record
/// fits its session's fixed maximum (`lemma_sample_message_fits`), so the
/// build always succeeds.
#[verifier::rlimit(100)]
pub fn build_sample_message(pos: &Vec<u8>, path: &Vec<u8>) -> (r: Result<Vec<u8>, BuildError>)
    requires
        pos@.len() == 12,
        path@.len() == 24,
    ensures
        r is Ok,
        r matches Ok(bytes) ==> {
            &&& bytes@ == sample_message_model(pos@, path@).written
            &&& sample_message_model(pos@, path@).finished
        },
{
    let mut b = Builder::new(1024, SAMPLE_MESSAGE_MAX);
    let ghost m0 = initial_model(SAMPLE_MESSAGE_MAX as int);
    proof {
        lemma_sample_message_fits(pos@, path@);
    }

    let mut sword_text: Vec<u8> = Vec::new();
    sword_text.push(83u8);
    sword_text.push(119u8);
    sword_text.push(111u8);
    sword_text.push(114u8);
    sword_text.push(100u8);
    proof {
        assert(sword_text@ =~= sword_name());
    }
    let sword = match create_weapon(&mut b, &sword_text, 3) {
        Ok(off) => off,
        Err(e) => {
            // unreachable: the sword fits (lemma_sample_message_fits)
            proof {
                assert(false);
            }
            return Err(e);
        },
    };
    let ghost m1 = weapon_steps(m0, sword_name(), 3);

    let mut axe_text: Vec<u8> = Vec::new();
    axe_text.push(65u8);
    axe_text.push(120u8);
    axe_text.push(101u8);
    proof {
        assert(axe_text@ =~= axe_name());
    }
    let axe = match create_weapon(&mut b, &axe_text, 5) {
        Ok(off) => off,
        Err(e) => {
            // unreachable: the axe fits
            proof {
                assert(false);
            }
            return Err(e);
        },
    };
    let ghost m2 = weapon_steps(m1, axe_name(), 5);

    let mut weapon_offs: Vec<usize> = Vec::new();
    weapon_offs.push(sword);
    weapon_offs.push(axe);
    proof {
        assert(weapon_offs@ =~= seq![
            weapon_rev(m0, sword_name(), 3) as usize,
            weapon_rev(m1, axe_name(), 5) as usize,
        ]);
    }
    let weapons = match b.create_ref_vector(&weapon_offs) {
        Ok(off) => off,
        Err(e) => {
            // unreachable: the weapons vector fits
            proof {
                assert(false);
            }
            return Err(e);
        },
    };
    let ghost m3 = step_ref_vector(m2, weapon_offs@);
    proof {
        crate::builder::lemma_ref_elems_len(
            weapon_offs@,
            write_rev(m2, 4 + 4 * weapon_offs@.len() as int, 4),
            weapon_offs@.len() as int,
        );
    }

    let mut orc_text: Vec<u8> = Vec::new();
    orc_text.push(79u8);
    orc_text.push(114u8);
    orc_text.push(99u8);
    proof {
        assert(orc_text@ =~= orc_name());
    }
    let name = match b.create_string(&orc_text) {
        Ok(off) => off,
        Err(e) => {
            // unreachable: the name fits
            proof {
                assert(false);
            }
            return Err(e);
        },
    };
    let ghost m4 = step_string(m3, orc_name());

    let mut inv: Vec<u8> = Vec::new();
    let mut i: u8 = 0;
    while i < 10
        invariant
            i <= 10,
            inv@.len() == i as int,
            forall|j: int| 0 <= j < i ==> inv@[j] == j as u8,
        decreases 10 - i,
    {
        inv.push(i);
        i = i + 1;
    }
    proof {
        assert(inv@ =~= inventory_bytes());
    }
    let inventory = match b.create_inline_vector(10, 1, &inv) {
        Ok(off) => off,
        Err(e) => {
            // unreachable: the inventory fits
            proof {
                assert(false);
            }
            return Err(e);
        },
    };
    let ghost m5 = step_inline_vector(m4, 10, inventory_bytes());

    let path_off = match b.create_inline_vector(2, 12, path) {
        Ok(off) => off,
        Err(e) => {
            // unreachable: the path fits
            proof {
                assert(false);
            }
            return Err(e);
        },
    };
    let ghost m6 = step_inline_vector(m5, 2, path@);

    proof {
        b.lemma_no_open_table_no_fields();
    }
    b.start_table();
    let ghost m7 = step_start(m6);
    b.add_struct_field(MONSTER_POS, pos);
    let ghost m8 = step_add(
        m7,
        (FieldModel { id: MONSTER_POS, val: FieldValModel::Inline { bytes: pos@ } }),
    );
    proof {
        assert(b.model() == m8);
    }
    b.add_i16_field(MONSTER_MANA, 150, 150);
    proof {
        assert(b.model() == m8);
    }
    b.add_i16_field(MONSTER_HP, 80, 100);
    let ghost m9 = step_add(
        m8,
        (FieldModel { id: MONSTER_HP, val: FieldValModel::Scalar { bytes: u16_le(80u16) } }),
    );
    proof {
        assert(b.model() == m9);
    }
    b.add_ref_field(MONSTER_NAME, name);
    let ghost m10 = step_add(
        m9,
        (FieldModel { id: MONSTER_NAME, val: FieldValModel::Child { target: name as int } }),
    );
    proof {
        assert(b.model() == m10);
    }
    b.add_ref_field(MONSTER_INVENTORY, inventory);
    let ghost m11 = step_add(
        m10,
        (FieldModel { id: MONSTER_INVENTORY, val: FieldValModel::Child { target: inventory as int } }),
    );
    proof {
        assert(b.model() == m11);
    }
    b.add_i8_field(MONSTER_COLOR, 0, 2);
    let ghost m12 = step_add(
        m11,
        (FieldModel { id: MONSTER_COLOR, val: FieldValModel::Scalar { bytes: seq![0u8] } }),
    );
    proof {
        assert(b.model() == m12);
    }
    b.add_ref_field(MONSTER_WEAPONS, weapons);
    let ghost m13 = step_add(
        m12,
        (FieldModel { id: MONSTER_WEAPONS, val: FieldValModel::Child { target: weapons as int } }),
    );
    proof {
        assert(b.model() == m13);
    }
    b.add_union_field(MONSTER_EQUIPPED_TYPE, 1, MONSTER_EQUIPPED, axe);
    let ghost m15 = step_add(
        step_add(
            m13,
            (FieldModel { id: MONSTER_EQUIPPED_TYPE, val: FieldValModel::Scalar { bytes: seq![1u8] } }),
        ),
        (FieldModel { id: MONSTER_EQUIPPED, val: FieldValModel::Child { target: axe as int } }),
    );
    proof {
        assert(b.model() == m15);
    }
    b.add_ref_field(MONSTER_PATH, path_off);
    let ghost m16 = step_add(
        m15,
        (FieldModel { id: MONSTER_PATH, val: FieldValModel::Child { target: path_off as int } }),
    );
    proof {
        assert(b.model() == m16);
        assert(m16 == monster_open(pos@, path@));
    }
    let orc = match b.end_table() {
        Ok(off) => off,
        Err(e) => {
            // unreachable: vtable and table body fit
            proof {
                assert(false);
            }
            return Err(e);
        },
    };
    match b.finish(orc, None) {
        Ok(_) => {
            proof {
                assert(b.model() == sample_message_model(pos@, path@));
            }
            Ok(b.finished_data())
        },
        Err(e) => {
            // unreachable: the sealed buffer fits
            proof {
                assert(write_fits(step_end(monster_open(pos@, path@)), 4, 4));
                assert(false);
            }
            Err(e)
        },
    }
}

} // verus!
