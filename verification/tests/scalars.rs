use flatbuilder::builder::Builder;
use flatbuilder::bytes::{
    push_i16_le, push_i32_le, push_u16_le, push_u32_le, read_i16_at, read_i32_at, read_u16_at,
    read_u32_at,
};
use flatbuilder::reader::{root_table_pos, table_ref_field, table_u16_field, length_at};

#[test]
fn little_endian_scalars_round_trip() {
    let mut b: Vec<u8> = Vec::new();
    push_u16_le(&mut b, 0xBEEF);
    push_u32_le(&mut b, 0xDEAD_BEEF);
    push_i16_le(&mut b, -2);
    push_i32_le(&mut b, -100_000);
    assert_eq!(b[0], 0xEF);
    assert_eq!(b[1], 0xBE);
    assert_eq!(read_u16_at(&b, 0), 0xBEEF);
    assert_eq!(read_u32_at(&b, 2), 0xDEAD_BEEF);
    assert_eq!(read_i16_at(&b, 6), -2);
    assert_eq!(read_i32_at(&b, 8), -100_000);
}

#[test]
fn u16_and_u32_fields_round_trip() {
    let mut b = Builder::new(64, 4096);
    b.start_table();
    b.add_u16_field(0, 700, 0);
    b.add_u32_field(1, 123_456_789, 0);
    b.add_u8_field(2, 0, 0);  // equal to its default: omitted
    let t = b.end_table().unwrap();
    b.finish(t, None).unwrap();
    let v = b.finished_data();
    let root = root_table_pos(&v);
    assert_eq!(table_u16_field(&v, root, 0, 0), 700);
    let vo = flatbuilder::reader::field_voffset(&v, root, 1) as usize;
    assert!(vo != 0);
    assert_eq!(read_u32_at(&v, root + vo), 123_456_789);
    assert_eq!(flatbuilder::reader::field_voffset(&v, root, 2), 0);
}

#[test]
fn reference_vector_length_and_targets() {
    let mut b = Builder::new(256, 4096);
    let s1 = b.create_string(&b"one".to_vec()).unwrap();
    let s2 = b.create_string(&b"two".to_vec()).unwrap();
    let s3 = b.create_string(&b"three".to_vec()).unwrap();
    let vecoff = b.create_ref_vector(&vec![s1, s2, s3]).unwrap();
    b.start_table();
    b.add_ref_field(0, vecoff);
    let t = b.end_table().unwrap();
    b.finish(t, None).unwrap();
    let v = b.finished_data();
    let root = root_table_pos(&v);
    let vp = table_ref_field(&v, root, 0).unwrap();
    assert_eq!(length_at(&v, vp), 3);
    let p2 = flatbuilder::reader::ref_vector_target(&v, vp, 1);
    assert_eq!(flatbuilder::reader::bytes_at(&v, p2), b"two".to_vec());
}

#[test]
fn absent_union_consumes_nothing() {
    let mut b = Builder::new(128, 4096);
    let s = b.create_string(&b"x".to_vec()).unwrap();
    b.start_table();
    b.add_ref_field(0, s);
    // a zero discriminant means no union value: neither field is added
    b.add_union_field(1, 0, 2, s);
    let t = b.end_table().unwrap();
    b.finish(t, None).unwrap();
    let v = b.finished_data();
    let root = root_table_pos(&v);
    assert_eq!(flatbuilder::reader::field_voffset(&v, root, 1), 0);
    assert_eq!(flatbuilder::reader::field_voffset(&v, root, 2), 0);
    assert!(table_ref_field(&v, root, 2).is_none());
}
