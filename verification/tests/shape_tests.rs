//! Tests for shaped-array derivation and its memoization.

use cerialize::abstractions::{FieldDescriptor, TypeRegistry};
use cerialize::cstruct::{CStruct, FieldValue};
use cerialize::errors::LayoutError;
use cerialize::primitives::PrimitiveKind;
use cerialize::sentinels::Endianness;

#[test]
fn shape_derivation_sizes() {
    let mut reg = TypeRegistry::new();
    let u32_id = reg.register_primitive(PrimitiveKind::U32);
    let one_dim = reg.derive(u32_id, vec![4]).unwrap();
    assert_eq!(reg.packed_size_of(one_dim), 16);
    let two_dim = reg.derive(u32_id, vec![2, 3]).unwrap();
    assert_eq!(reg.packed_size_of(two_dim), 24);
}

#[test]
fn derivation_is_memoized() {
    // Two derivations with an identical (origin, shape) key return the
    // identical descriptor, and the registry gains no second entry.
    let mut reg = TypeRegistry::new();
    let u32_id = reg.register_primitive(PrimitiveKind::U32);
    let first = reg.derive(u32_id, vec![2, 3]).unwrap();
    let len_after_first = reg.entries.len();
    let second = reg.derive(u32_id, vec![2, 3]).unwrap();
    assert_eq!(first, second);
    assert_eq!(reg.entries.len(), len_after_first);
    assert_eq!(reg.lookup_derived(u32_id, &vec![2, 3]), Some(first));
}

#[test]
fn different_shapes_never_collide() {
    let mut reg = TypeRegistry::new();
    let u32_id = reg.register_primitive(PrimitiveKind::U32);
    let a = reg.derive(u32_id, vec![4]).unwrap();
    let b = reg.derive(u32_id, vec![2, 2]).unwrap();
    let c = reg.derive(u32_id, vec![2]).unwrap();
    assert_ne!(a, b);
    assert_ne!(a, c);
    assert_ne!(b, c);
    // Same element count, different shape: sizes agree, identities do not.
    assert_eq!(reg.packed_size_of(a), reg.packed_size_of(b));
}

#[test]
fn different_origins_never_collide() {
    let mut reg = TypeRegistry::new();
    let u32_id = reg.register_primitive(PrimitiveKind::U32);
    let i32_id = reg.register_primitive(PrimitiveKind::I32);
    let a = reg.derive(u32_id, vec![4]).unwrap();
    let b = reg.derive(i32_id, vec![4]).unwrap();
    assert_ne!(a, b);
}

#[test]
fn invalid_shape_rejection() {
    let mut reg = TypeRegistry::new();
    let u32_id = reg.register_primitive(PrimitiveKind::U32);
    match reg.derive(u32_id, vec![0]) {
        Err(LayoutError::InvalidShape) => {},
        _ => panic!("a zero dimension must be rejected with InvalidShape"),
    }
    match reg.derive(u32_id, vec![]) {
        Err(LayoutError::InvalidShape) => {},
        _ => panic!("an empty shape must be rejected with InvalidShape"),
    }
    match reg.derive(u32_id, vec![2, 0, 3]) {
        Err(LayoutError::InvalidShape) => {},
        _ => panic!("any zero dimension must be rejected with InvalidShape"),
    }
    // A failed derivation leaves the registry unchanged.
    assert_eq!(reg.entries.len(), 1);
}

#[test]
fn oversized_shape_rejection() {
    let mut reg = TypeRegistry::new();
    let u32_id = reg.register_primitive(PrimitiveKind::U32);
    match reg.derive(u32_id, vec![usize::MAX, 2]) {
        Err(LayoutError::SizeOverflow) => {},
        _ => panic!("a packed size beyond the machine's range must be rejected"),
    }
}

#[test]
fn derivation_composes() {
    // Deriving on top of a derived type multiplies the sizes again.
    let mut reg = TypeRegistry::new();
    let u16_id = reg.register_primitive(PrimitiveKind::U16);
    let row = reg.derive(u16_id, vec![3]).unwrap();
    let grid = reg.derive(row, vec![5]).unwrap();
    assert_eq!(reg.packed_size_of(row), 6);
    assert_eq!(reg.packed_size_of(grid), 30);
}

#[test]
fn struct_origin_derivation() {
    let mut reg = TypeRegistry::new();
    let u8_id = reg.register_primitive(PrimitiveKind::U8);
    let u32_id = reg.register_primitive(PrimitiveKind::U32);
    let sid = reg
        .register_struct(vec![
            FieldDescriptor { name: "tag".to_string(), ty: u8_id },
            FieldDescriptor { name: "count".to_string(), ty: u32_id },
        ])
        .unwrap();
    let arr = reg.derive(sid, vec![4]).unwrap();
    assert_eq!(reg.packed_size_of(arr), 20);
}

#[test]
fn shaped_field_reads_as_view() {
    let mut reg = TypeRegistry::new();
    let u16_id = reg.register_primitive(PrimitiveKind::U16);
    let pair = reg.derive(u16_id, vec![2]).unwrap();
    let u8_id = reg.register_primitive(PrimitiveKind::U8);
    let sid = reg
        .register_struct(vec![
            FieldDescriptor { name: "tag".to_string(), ty: u8_id },
            FieldDescriptor { name: "pair".to_string(), ty: pair },
        ])
        .unwrap();
    let inst = CStruct::new(&reg, sid, vec![0x7f, 1, 2, 3, 4], Endianness::Big).unwrap();
    match inst.read_field(&reg, &"pair".to_string()).unwrap() {
        FieldValue::Shaped(v) => {
            assert_eq!(v.ty, pair);
            assert_eq!(v.buffer, vec![1, 2, 3, 4]);
        },
        _ => panic!("pair must read as a shaped view"),
    }
}

#[test]
fn existing_instances_survive_derivation() {
    // The registry is append-only, so instances built before a derivation
    // stay readable after it.
    let mut reg = TypeRegistry::new();
    let u16_id = reg.register_primitive(PrimitiveKind::U16);
    let sid = reg
        .register_struct(vec![FieldDescriptor { name: "v".to_string(), ty: u16_id }])
        .unwrap();
    let inst = CStruct::new(&reg, sid, vec![0x12, 0x34], Endianness::Big).unwrap();
    let _ = reg.derive(u16_id, vec![8]).unwrap();
    match inst.read_field(&reg, &"v".to_string()).unwrap() {
        FieldValue::Uint16(c) => assert_eq!(c.value(), 0x1234),
        _ => panic!("v must read as a u16 cell"),
    }
}

#[test]
fn struct_size_overflow_rejection() {
    // A field table whose packed sizes sum past the machine's range is
    // rejected at registration.
    let mut reg = TypeRegistry::new();
    let u32_id = reg.register_primitive(PrimitiveKind::U32);
    let huge = reg.derive(u32_id, vec![usize::MAX / 4]).unwrap();
    let fields = vec![
        FieldDescriptor { name: "a".to_string(), ty: huge },
        FieldDescriptor { name: "b".to_string(), ty: huge },
    ];
    match reg.register_struct(fields) {
        Err(LayoutError::SizeOverflow) => {},
        _ => panic!("an overflowing field table must be rejected"),
    }
}
