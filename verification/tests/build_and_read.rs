use flatbuilder::builder::Builder;
use flatbuilder::buffer::BuildError;
use flatbuilder::bytes::push_u32_le;
use flatbuilder::reader::{
    bytes_at, field_voffset, length_at, ref_vector_target, root_table_pos, table_i16_field,
    table_i8_field, table_ref_field, table_struct_pos, table_u8_field, table_vtable_pos,
};
use flatbuilder::sample::{
    build_sample_message, MONSTER_COLOR, MONSTER_EQUIPPED, MONSTER_EQUIPPED_TYPE, MONSTER_HP,
    MONSTER_INVENTORY, MONSTER_MANA, MONSTER_NAME, MONSTER_PATH, MONSTER_POS, MONSTER_WEAPONS,
    WEAPON_DAMAGE, WEAPON_NAME,
};

fn vec3_bytes(x: f32, y: f32, z: f32) -> Vec<u8> {
    let mut b: Vec<u8> = Vec::new();
    push_u32_le(&mut b, x.to_bits());
    push_u32_le(&mut b, y.to_bits());
    push_u32_le(&mut b, z.to_bits());
    b
}

fn create_weapon(b: &mut Builder, name: &str, damage: i16) -> usize {
    let name_off = b.create_string(&name.as_bytes().to_vec()).unwrap();
    b.start_table();
    b.add_ref_field(WEAPON_NAME, name_off);
    b.add_i16_field(WEAPON_DAMAGE, damage, 0);
    b.end_table().unwrap()
}

/// The sample monster, built by the library's verified construction.
fn build_orc() -> Vec<u8> {
    let pos = vec3_bytes(1.0, 2.0, 3.0);
    let mut path = vec3_bytes(1.0, 2.0, 3.0);
    path.extend_from_slice(&vec3_bytes(4.0, 5.0, 6.0));
    build_sample_message(&pos, &path).unwrap()
}

#[test]
fn orc_scenario_reads_back_exactly() {
    let v = build_orc();
    let root = root_table_pos(&v);

    // name
    let name_pos = table_ref_field(&v, root, MONSTER_NAME).unwrap();
    assert_eq!(bytes_at(&v, name_pos), b"Orc".to_vec());

    // scalars: hp present, mana at its default, colour overridden
    assert_eq!(table_i16_field(&v, root, MONSTER_HP, 100), 80);
    assert_eq!(table_i16_field(&v, root, MONSTER_MANA, 150), 150);
    assert_eq!(table_i8_field(&v, root, MONSTER_COLOR, 2), 0);

    // inventory: ten bytes, zero through nine
    let inv_pos = table_ref_field(&v, root, MONSTER_INVENTORY).unwrap();
    assert_eq!(length_at(&v, inv_pos), 10);
    assert_eq!(bytes_at(&v, inv_pos), vec![0u8, 1, 2, 3, 4, 5, 6, 7, 8, 9]);

    // weapons: two of them, each reading back name and damage
    let weapons_pos = table_ref_field(&v, root, MONSTER_WEAPONS).unwrap();
    assert_eq!(length_at(&v, weapons_pos), 2);
    let sword_pos = ref_vector_target(&v, weapons_pos, 0);
    let axe_pos = ref_vector_target(&v, weapons_pos, 1);
    let sword_name = table_ref_field(&v, sword_pos, WEAPON_NAME).unwrap();
    assert_eq!(bytes_at(&v, sword_name), b"Sword".to_vec());
    assert_eq!(table_i16_field(&v, sword_pos, WEAPON_DAMAGE, 0), 3);
    let axe_name = table_ref_field(&v, axe_pos, WEAPON_NAME).unwrap();
    assert_eq!(bytes_at(&v, axe_name), b"Axe".to_vec());
    assert_eq!(table_i16_field(&v, axe_pos, WEAPON_DAMAGE, 0), 5);

    // the union resolves to the axe, not the sword
    assert_eq!(table_u8_field(&v, root, MONSTER_EQUIPPED_TYPE, 0), 1);
    let equipped_pos = table_ref_field(&v, root, MONSTER_EQUIPPED).unwrap();
    assert_eq!(equipped_pos, axe_pos);
    assert_ne!(equipped_pos, sword_pos);
    let equipped_name = table_ref_field(&v, equipped_pos, WEAPON_NAME).unwrap();
    assert_eq!(bytes_at(&v, equipped_name), b"Axe".to_vec());
    assert_eq!(table_i16_field(&v, equipped_pos, WEAPON_DAMAGE, 0), 5);

    // the path: two points of three floats each, byte for byte
    let path_pos = table_ref_field(&v, root, MONSTER_PATH).unwrap();
    assert_eq!(length_at(&v, path_pos), 2);
    let mut expected = vec3_bytes(1.0, 2.0, 3.0);
    expected.extend_from_slice(&vec3_bytes(4.0, 5.0, 6.0));
    assert_eq!(v[path_pos + 4..path_pos + 4 + 24].to_vec(), expected);
    assert_eq!(f32::from_bits(u32::from_le_bytes([
        v[path_pos + 4],
        v[path_pos + 5],
        v[path_pos + 6],
        v[path_pos + 7],
    ])), 1.0);

    // the position struct, stored inline in the table
    let pos_pos = table_struct_pos(&v, root, MONSTER_POS).unwrap();
    assert_eq!(v[pos_pos..pos_pos + 12].to_vec(), vec3_bytes(1.0, 2.0, 3.0));
}

#[test]
fn default_valued_field_is_absent_yet_reads_as_default() {
    let v = build_orc();
    let root = root_table_pos(&v);
    // mana was set to its schema default: no vtable slot, no table space
    assert_eq!(field_voffset(&v, root, MONSTER_MANA), 0);
    assert_eq!(table_i16_field(&v, root, MONSTER_MANA, 150), 150);
    // hp differs from its default: present
    assert_ne!(field_voffset(&v, root, MONSTER_HP), 0);
}

#[test]
fn references_point_strictly_behind_their_holder() {
    let v = build_orc();
    let root = root_table_pos(&v);
    // every reference stored in the root table resolves strictly forward in
    // the file, i.e. to an object written before the table
    for id in [
        MONSTER_NAME,
        MONSTER_INVENTORY,
        MONSTER_WEAPONS,
        MONSTER_EQUIPPED,
        MONSTER_PATH,
    ] {
        let vo = field_voffset(&v, root, id) as usize;
        assert!(vo != 0);
        let rel = u32::from_le_bytes([
            v[root + vo],
            v[root + vo + 1],
            v[root + vo + 2],
            v[root + vo + 3],
        ]);
        assert!(rel > 0);
    }
    // and the same holds inside the weapons vector
    let weapons_pos = table_ref_field(&v, root, MONSTER_WEAPONS).unwrap();
    for k in 0..2 {
        let p = weapons_pos + 4 + 4 * k;
        let rel = u32::from_le_bytes([v[p], v[p + 1], v[p + 2], v[p + 3]]);
        assert!(rel > 0);
    }
}

#[test]
fn vtables_deduplicate_per_shape() {
    let mut b = Builder::new(1024, 0x100000);
    let _w1 = create_weapon(&mut b, "Sword", 3);
    assert_eq!(b.vtable_count(), 1);
    let _w2 = create_weapon(&mut b, "Axe", 5);
    // same shape: still one vtable
    assert_eq!(b.vtable_count(), 1);
    let _w3 = create_weapon(&mut b, "Club", 1);
    assert_eq!(b.vtable_count(), 1);
    // a weapon without a name has a different presence shape: a second vtable
    b.start_table();
    b.add_i16_field(WEAPON_DAMAGE, 7, 0);
    let _bare = b.end_table().unwrap();
    assert_eq!(b.vtable_count(), 2);
}

#[test]
fn identical_sessions_give_identical_bytes() {
    let a = build_orc();
    let b = build_orc();
    assert_eq!(a, b);
}

#[test]
fn exhaustion_fails_the_build_deterministically() {
    let mut b = Builder::new(16, 64);
    let big = vec![7u8; 1000];
    let r = b.create_string(&big);
    assert_eq!(r, Err(BuildError::CapacityExceeded));
    // a fresh builder with room enough succeeds on the same input
    let mut b2 = Builder::new(16, 4096);
    assert!(b2.create_string(&big).is_ok());
}

#[test]
fn growth_preserves_earlier_objects() {
    // start with a tiny capacity so several reallocation-and-copy growths
    // happen, then check the first object is still intact
    let mut b = Builder::new(8, 0x10000);
    let s1 = b.create_string(&b"first".to_vec()).unwrap();
    let mut offs: Vec<usize> = Vec::new();
    for i in 0..50 {
        let text = format!("filler-{}", i);
        offs.push(b.create_string(&text.as_bytes().to_vec()).unwrap());
    }
    b.start_table();
    b.add_ref_field(0, s1);
    let t = b.end_table().unwrap();
    b.finish(t, None).unwrap();
    let v = b.finished_data();
    let root = root_table_pos(&v);
    let p1 = table_ref_field(&v, root, 0).unwrap();
    assert_eq!(bytes_at(&v, p1), b"first".to_vec());
}

#[test]
fn finish_with_identifier_places_it_after_the_root_offset() {
    let mut b = Builder::new(64, 4096);
    b.start_table();
    b.add_i16_field(0, 9, 0);
    let t = b.end_table().unwrap();
    b.finish(t, Some(&b"MONS".to_vec())).unwrap();
    let v = b.finished_data();
    assert_eq!(&v[4..8], b"MONS");
    let root = root_table_pos(&v);
    assert_eq!(table_i16_field(&v, root, 0, 0), 9);
}

#[test]
fn empty_table_and_empty_string_round_trip() {
    let mut b = Builder::new(64, 4096);
    let empty = b.create_string(&Vec::new()).unwrap();
    b.start_table();
    b.add_ref_field(0, empty);
    let t = b.end_table().unwrap();
    b.finish(t, None).unwrap();
    let v = b.finished_data();
    let root = root_table_pos(&v);
    let sp = table_ref_field(&v, root, 0).unwrap();
    assert_eq!(length_at(&v, sp), 0);
    assert_eq!(bytes_at(&v, sp), Vec::<u8>::new());
    // the terminator is there
    assert_eq!(v[sp + 4], 0);
    // an absent field of the same table reads as its default
    assert_eq!(table_u8_field(&v, root, 1, 42), 42);
}

#[test]
fn vtable_is_shared_across_tables_of_one_shape() {
    let mut b = Builder::new(1024, 0x100000);
    let w1 = create_weapon(&mut b, "Sword", 3);
    let w2 = create_weapon(&mut b, "Axe", 5);
    b.start_table();
    b.add_ref_field(0, w1);
    b.add_ref_field(1, w2);
    let t = b.end_table().unwrap();
    b.finish(t, None).unwrap();
    let v = b.finished_data();
    let root = root_table_pos(&v);
    let p1 = table_ref_field(&v, root, 0).unwrap();
    let p2 = table_ref_field(&v, root, 1).unwrap();
    // both weapon tables reference the same vtable bytes
    assert_eq!(table_vtable_pos(&v, p1), table_vtable_pos(&v, p2));
}
