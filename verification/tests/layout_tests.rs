//! Tests for struct layout resolution: packed sizes, offsets, field reads.

use cerialize::abstractions::{FieldDescriptor, TypeRegistry};
use cerialize::cstruct::{CStruct, FieldValue};
use cerialize::errors::LayoutError;
use cerialize::primitives::PrimitiveKind;
use cerialize::sentinels::Endianness;

fn field(name: &str, ty: usize) -> FieldDescriptor {
    FieldDescriptor { name: name.to_string(), ty }
}

/// A struct with fields [f0: u8, f1: u32, f2: u16] and its registry.
fn three_field_struct() -> (TypeRegistry, usize) {
    let mut reg = TypeRegistry::new();
    let u8_id = reg.register_primitive(PrimitiveKind::U8);
    let u32_id = reg.register_primitive(PrimitiveKind::U32);
    let u16_id = reg.register_primitive(PrimitiveKind::U16);
    let fields = vec![field("f0", u8_id), field("f1", u32_id), field("f2", u16_id)];
    let sid = reg.register_struct(fields).unwrap();
    (reg, sid)
}

#[test]
fn offset_monotonicity() {
    // No padding is ever inserted: offsets are exactly the running sums of
    // the preceding packed sizes.
    let (reg, sid) = three_field_struct();
    assert_eq!(reg.packed_size_of(sid), 7);

    let inst = CStruct::new(&reg, sid, vec![0; 7], Endianness::Native).unwrap();
    assert_eq!(inst.packed_size(&reg), 7);
    assert_eq!(inst.offset_of(&reg, &"f0".to_string()).unwrap(), 0);
    assert_eq!(inst.offset_of(&reg, &"f1".to_string()).unwrap(), 1);
    assert_eq!(inst.offset_of(&reg, &"f2".to_string()).unwrap(), 5);
}

#[test]
fn field_not_found() {
    let (reg, sid) = three_field_struct();
    match reg.offset_and_type_of(sid, &"nonexistent".to_string()) {
        Err(LayoutError::FieldNotFound) => {},
        _ => panic!("an unknown field name must fail with FieldNotFound"),
    }
}

#[test]
fn field_not_found_empty_struct() {
    // A zero-field struct has packed size 0 and every lookup fails: an empty
    // walk can never match.
    let mut reg = TypeRegistry::new();
    let sid = reg.register_struct(vec![]).unwrap();
    assert_eq!(reg.packed_size_of(sid), 0);
    match reg.offset_and_type_of(sid, &"anything".to_string()) {
        Err(LayoutError::FieldNotFound) => {},
        _ => panic!("lookups on the empty descriptor must fail with FieldNotFound"),
    }
}

#[test]
fn type_of_resolves_field_types() {
    let (reg, sid) = three_field_struct();
    let inst = CStruct::new(&reg, sid, vec![0; 7], Endianness::Native).unwrap();
    let (fty, off) = inst.offset_and_type_of(&reg, &"f1".to_string()).unwrap();
    assert_eq!(off, 1);
    assert_eq!(reg.packed_size_of(fty), 4);
    assert_eq!(inst.type_of(&reg, &"f1".to_string()).unwrap(), fty);
}

#[test]
fn struct_buffer_mismatch() {
    let (reg, sid) = three_field_struct();
    match CStruct::new(&reg, sid, vec![0; 6], Endianness::Native) {
        Err(LayoutError::BufferLengthMismatch) => {},
        _ => panic!("a six-byte buffer must be rejected for a seven-byte struct"),
    }
    assert!(CStruct::new(&reg, sid, vec![0; 7], Endianness::Native).is_ok());
}

#[test]
fn read_field_decodes_at_offsets() {
    let (reg, sid) = three_field_struct();
    // Buffer laid out big-endian: f0 = 0xab, f1 = 0x01020304, f2 = 0x0506.
    let buffer = vec![0xab, 0x01, 0x02, 0x03, 0x04, 0x05, 0x06];
    let inst = CStruct::new(&reg, sid, buffer, Endianness::Big).unwrap();

    match inst.read_field(&reg, &"f0".to_string()).unwrap() {
        FieldValue::Uint8(c) => assert_eq!(c.value(), 0xab),
        _ => panic!("f0 must read as a u8 cell"),
    }
    match inst.read_field(&reg, &"f1".to_string()).unwrap() {
        FieldValue::Uint32(c) => assert_eq!(c.value(), 0x01020304),
        _ => panic!("f1 must read as a u32 cell"),
    }
    match inst.read_field(&reg, &"f2".to_string()).unwrap() {
        FieldValue::Uint16(c) => assert_eq!(c.value(), 0x0506),
        _ => panic!("f2 must read as a u16 cell"),
    }
    match inst.read_field(&reg, &"f3".to_string()) {
        Err(LayoutError::FieldNotFound) => {},
        _ => panic!("an unknown field read must fail with FieldNotFound"),
    }
}

#[test]
fn read_field_uses_instance_endianness() {
    let (reg, sid) = three_field_struct();
    let buffer = vec![0xab, 0x04, 0x03, 0x02, 0x01, 0x06, 0x05];
    let inst = CStruct::new(&reg, sid, buffer, Endianness::Little).unwrap();
    match inst.read_field(&reg, &"f1".to_string()).unwrap() {
        FieldValue::Uint32(c) => assert_eq!(c.value(), 0x01020304),
        _ => panic!("f1 must read as a u32 cell"),
    }
}

#[test]
fn nested_struct_field() {
    let mut reg = TypeRegistry::new();
    let u16_id = reg.register_primitive(PrimitiveKind::U16);
    let inner = reg.register_struct(vec![field("lo", u16_id), field("hi", u16_id)]).unwrap();
    let u8_id = reg.register_primitive(PrimitiveKind::U8);
    let outer = reg.register_struct(vec![field("tag", u8_id), field("pair", inner)]).unwrap();
    assert_eq!(reg.packed_size_of(inner), 4);
    assert_eq!(reg.packed_size_of(outer), 5);

    let buffer = vec![0x7f, 0x11, 0x22, 0x33, 0x44];
    let inst = CStruct::new(&reg, outer, buffer, Endianness::Big).unwrap();
    match inst.read_field(&reg, &"pair".to_string()).unwrap() {
        FieldValue::Struct(sub) => {
            // The nested instance inherits the outer endianness and views
            // the inner byte range.
            assert_eq!(sub.buffer, vec![0x11, 0x22, 0x33, 0x44]);
            match sub.read_field(&reg, &"hi".to_string()).unwrap() {
                FieldValue::Uint16(c) => assert_eq!(c.value(), 0x3344),
                _ => panic!("hi must read as a u16 cell"),
            }
        },
        _ => panic!("pair must read as a nested struct"),
    }
}

#[test]
fn duplicate_field_names_resolve_to_first() {
    // The walk stops at the first match, so a duplicated name resolves to
    // the earliest field.
    let mut reg = TypeRegistry::new();
    let u8_id = reg.register_primitive(PrimitiveKind::U8);
    let u32_id = reg.register_primitive(PrimitiveKind::U32);
    let sid = reg.register_struct(vec![field("x", u8_id), field("x", u32_id)]).unwrap();
    let inst = CStruct::new(&reg, sid, vec![9, 0, 0, 0, 1], Endianness::Big).unwrap();
    assert_eq!(inst.offset_of(&reg, &"x".to_string()).unwrap(), 0);
    match inst.read_field(&reg, &"x".to_string()).unwrap() {
        FieldValue::Uint8(c) => assert_eq!(c.value(), 9),
        _ => panic!("x must resolve to the first field"),
    }
}

#[test]
fn declaration_order_is_layout() {
    // The same field set in a different declared order has a different
    // layout.
    let mut reg = TypeRegistry::new();
    let u8_id = reg.register_primitive(PrimitiveKind::U8);
    let u32_id = reg.register_primitive(PrimitiveKind::U32);
    let ab = reg.register_struct(vec![field("a", u8_id), field("b", u32_id)]).unwrap();
    let ba = reg.register_struct(vec![field("b", u32_id), field("a", u8_id)]).unwrap();
    let inst_ab = CStruct::new(&reg, ab, vec![0; 5], Endianness::Native).unwrap();
    let inst_ba = CStruct::new(&reg, ba, vec![0; 5], Endianness::Native).unwrap();
    assert_eq!(inst_ab.offset_of(&reg, &"b".to_string()).unwrap(), 1);
    assert_eq!(inst_ba.offset_of(&reg, &"b".to_string()).unwrap(), 0);
    assert_eq!(inst_ab.offset_of(&reg, &"a".to_string()).unwrap(), 0);
    assert_eq!(inst_ba.offset_of(&reg, &"a".to_string()).unwrap(), 4);
}

#[test]
fn float_field_reads_as_bits() {
    let mut reg = TypeRegistry::new();
    let f32_id = reg.register_primitive(PrimitiveKind::F32);
    let sid = reg.register_struct(vec![field("ratio", f32_id)]).unwrap();
    let bits = 2.5f32.to_bits();
    let inst = CStruct::new(&reg, sid, bits.to_be_bytes().to_vec(), Endianness::Big).unwrap();
    match inst.read_field(&reg, &"ratio".to_string()).unwrap() {
        FieldValue::Float32(c) => assert_eq!(f32::from_bits(c.bits()), 2.5),
        _ => panic!("ratio must read as an f32 cell"),
    }
}
