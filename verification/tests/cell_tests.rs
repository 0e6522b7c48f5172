//! Tests for typed-cell construction, defaults, buffers and comparison.

use cerialize::errors::LayoutError;
use cerialize::primitives::{Bool, Float16, Int128, Int64, Int8, Uint16, Uint32, Uint8};
use cerialize::sentinels::{
    BigEndian, CompareOp, Endianness, LittleEndian, NativeEndian,
};
use half::f16;

#[test]
fn buffer_mismatch_i64() {
    // Seven bytes for an eight-byte kind must fail; eight bytes succeed.
    let seven = [0u8; 7];
    match Int64::from_buffer(&seven, Endianness::Native) {
        Err(LayoutError::BufferLengthMismatch) => {},
        _ => panic!("a seven-byte buffer must be rejected"),
    }
    let eight = [0u8; 8];
    let cell = Int64::from_buffer(&eight, Endianness::Native).unwrap();
    assert_eq!(cell.value(), 0);
    let nine = [0u8; 9];
    assert!(Int64::from_buffer(&nine, Endianness::Native).is_err());
}

#[test]
fn buffer_mismatch_other_kinds() {
    assert!(Bool::from_buffer(&[], Endianness::Native).is_err());
    assert!(Uint16::from_buffer(&[1], Endianness::Native).is_err());
    assert!(Uint16::from_buffer(&[1, 2, 3], Endianness::Native).is_err());
    assert!(Float16::from_buffer(&[1, 2, 3], Endianness::Native).is_err());
    assert!(Uint32::from_buffer(&[1, 2, 3, 4], Endianness::Native).is_ok());
}

#[test]
fn from_buffer_keeps_bytes() {
    let cell = Uint32::from_buffer(&[0xef, 0xbe, 0xad, 0xde], Endianness::Little).unwrap();
    assert_eq!(cell.value(), 0xdead_beef);
    let cell = Uint32::from_buffer(&[0xde, 0xad, 0xbe, 0xef], Endianness::Big).unwrap();
    assert_eq!(cell.value(), 0xdead_beef);
}

#[test]
fn defaults_are_zero() {
    for e in [Endianness::Native, Endianness::Big, Endianness::Little] {
        assert_eq!(Bool::new_default(e).value(), false);
        assert_eq!(Uint32::new_default(e).value(), 0);
        assert_eq!(Int64::new_default(e).value(), 0);
        assert_eq!(Float16::new_default(e).bits(), 0);
    }
}

#[test]
fn packed_sizes() {
    assert_eq!(Bool::packed_size(), 1);
    assert_eq!(Uint16::packed_size(), 2);
    assert_eq!(Uint32::packed_size(), 4);
    assert_eq!(Int64::packed_size(), 8);
    assert_eq!(Float16::packed_size(), 2);
}

#[test]
fn comparison_decodes_across_endianness() {
    // Equality compares decoded values, not raw bytes: the same value stored
    // under opposite byte orders compares equal.
    let a = Uint32::new(0x01020304, Endianness::Big);
    let b = Uint32::new(0x01020304, Endianness::Little);
    assert_ne!(a.buffer, b.buffer);
    assert!(a.richcmp(&b, CompareOp::Eq));
    assert!(!a.richcmp(&b, CompareOp::Ne));
    assert!(a.richcmp(&b, CompareOp::Le));
    assert!(a.richcmp(&b, CompareOp::Ge));
    assert!(!a.richcmp(&b, CompareOp::Lt));
    assert!(!a.richcmp(&b, CompareOp::Gt));
}

#[test]
fn comparison_orders_values() {
    let small = Int64::new(-5, Endianness::Big);
    let large = Int64::new(3, Endianness::Little);
    assert!(small.richcmp(&large, CompareOp::Lt));
    assert!(small.richcmp(&large, CompareOp::Le));
    assert!(small.richcmp(&large, CompareOp::Ne));
    assert!(!small.richcmp(&large, CompareOp::Eq));
    assert!(!small.richcmp(&large, CompareOp::Gt));
    assert!(large.richcmp(&small, CompareOp::Gt));
}

#[test]
fn bool_comparison_false_below_true() {
    let f = Bool::new(false, Endianness::Native);
    let t = Bool::new(true, Endianness::Big);
    assert!(f.richcmp(&t, CompareOp::Lt));
    assert!(!t.richcmp(&f, CompareOp::Lt));
    assert!(t.richcmp(&t, CompareOp::Eq));
}

#[test]
fn bool_nonzero_byte_decodes_true() {
    // A raw buffer holding a nonzero pattern other than one is coerced to
    // true on decode.
    let cell = Bool::from_buffer(&[7], Endianness::Native).unwrap();
    assert_eq!(cell.value(), true);
    let cell = Bool::from_buffer(&[0], Endianness::Native).unwrap();
    assert_eq!(cell.value(), false);
}

#[test]
fn sentinels_trivially_equal() {
    let ops_true = [CompareOp::Le, CompareOp::Eq, CompareOp::Ge];
    let ops_false = [CompareOp::Lt, CompareOp::Ne, CompareOp::Gt];
    for op in ops_true {
        assert!(NativeEndian().richcmp(&NativeEndian(), op));
        assert!(BigEndian().richcmp(&BigEndian(), op));
        assert!(LittleEndian().richcmp(&LittleEndian(), op));
    }
    for op in ops_false {
        assert!(!NativeEndian().richcmp(&NativeEndian(), op));
        assert!(!BigEndian().richcmp(&BigEndian(), op));
        assert!(!LittleEndian().richcmp(&LittleEndian(), op));
    }
}

#[test]
fn sentinel_names() {
    assert_eq!(NativeEndian().repr(), "NativeEndian");
    assert_eq!(BigEndian().repr(), "BigEndian");
    assert_eq!(LittleEndian().repr(), "LittleEndian");
}

#[test]
fn float16_bits_agree_with_ieee() {
    // The bit pattern of 1.0 in IEEE binary16 is 0x3c00; the cell transports
    // exactly that pattern.
    let one = f16::from_f32(1.0);
    assert_eq!(one.to_bits(), 0x3c00);
    let cell = Float16::from_bits(one.to_bits(), Endianness::Big);
    assert_eq!(cell.buffer, vec![0x3c, 0x00]);
    assert_eq!(f16::from_bits(cell.bits()).to_f32(), 1.0);

    let cell = Float16::from_bits(one.to_bits(), Endianness::Little);
    assert_eq!(cell.buffer, vec![0x00, 0x3c]);
}

#[test]
fn error_descriptions() {
    assert_eq!(LayoutError::FieldNotFound.describe(), "field not found");
    assert_eq!(LayoutError::InvalidShape.describe(), "invalid shape");
    assert_eq!(LayoutError::BufferLengthMismatch.describe(), "buffer length mismatch");
    assert_eq!(LayoutError::SizeOverflow.describe(), "size overflow");
}

#[test]
fn sentinel_selectors() {
    assert_eq!(NativeEndian().selector(), Endianness::Native);
    assert_eq!(BigEndian().selector(), Endianness::Big);
    assert_eq!(LittleEndian().selector(), Endianness::Little);
}

#[test]
fn cell_reprs() {
    let e = Endianness::Big;
    assert_eq!(Uint32::new(3, e).repr(), "u32(3)");
    assert_eq!(Uint32::new(u32::MAX, e).repr(), "u32(4294967295)");
    assert_eq!(Uint8::new(0, e).repr(), "u8(0)");
    assert_eq!(Uint16::new(1000, Endianness::Little).repr(), "u16(1000)");
    assert_eq!(Int64::new(-17, e).repr(), "i64(-17)");
    assert_eq!(Int8::new(i8::MIN, e).repr(), "i8(-128)");
    assert_eq!(Int128::new(i128::MIN, e).repr(), "i128(-170141183460469231731687303715884105728)");
    assert_eq!(Bool::new(true, e).repr(), "boolean(true)");
    assert_eq!(Bool::new(false, e).repr(), "boolean(false)");
}
