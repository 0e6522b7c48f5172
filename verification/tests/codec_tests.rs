//! Round-trip and byte-order tests for the primitive codecs.

use cerialize::primitives::{
    Bool, Float16, Float32, Float64, Int128, Int16, Int32, Int64, Int8, Uint128, Uint16, Uint32,
    Uint64, Uint8,
};
use cerialize::sentinels::Endianness;

const ENDIANNESSES: [Endianness; 3] = [Endianness::Native, Endianness::Big, Endianness::Little];

#[test]
fn round_trip_bool_exhaustive() {
    for e in ENDIANNESSES {
        for v in [false, true] {
            let bytes = Bool::to_bytes(e, v);
            assert_eq!(Bool::from_bytes(e, &bytes), v);
            assert_eq!(Bool::new(v, e).value(), v);
        }
    }
}

#[test]
fn round_trip_u8_exhaustive() {
    for e in ENDIANNESSES {
        for v in 0..=u8::MAX {
            let bytes = Uint8::to_bytes(e, v);
            assert_eq!(Uint8::from_bytes(e, &bytes), v);
        }
    }
}

#[test]
fn round_trip_i8_exhaustive() {
    for e in ENDIANNESSES {
        for v in i8::MIN..=i8::MAX {
            let bytes = Int8::to_bytes(e, v);
            assert_eq!(Int8::from_bytes(e, &bytes), v);
        }
    }
}

#[test]
fn round_trip_u16_exhaustive() {
    for e in ENDIANNESSES {
        for v in 0..=u16::MAX {
            let bytes = Uint16::to_bytes(e, v);
            assert_eq!(Uint16::from_bytes(e, &bytes), v);
        }
    }
}

#[test]
fn round_trip_i16_exhaustive() {
    for e in ENDIANNESSES {
        for v in i16::MIN..=i16::MAX {
            let bytes = Int16::to_bytes(e, v);
            assert_eq!(Int16::from_bytes(e, &bytes), v);
        }
    }
}

#[test]
fn round_trip_u32_sampled() {
    let samples = [0u32, 1, 0xff, 0x100, 0x01020304, 0xdead_beef, u32::MAX - 1, u32::MAX];
    for e in ENDIANNESSES {
        for v in samples {
            let bytes = Uint32::to_bytes(e, v);
            assert_eq!(Uint32::from_bytes(e, &bytes), v);
            assert_eq!(Uint32::new(v, e).value(), v);
        }
    }
}

#[test]
fn round_trip_i32_sampled() {
    let samples = [i32::MIN, i32::MIN + 1, -0x01020304, -1, 0, 1, 0x01020304, i32::MAX];
    for e in ENDIANNESSES {
        for v in samples {
            let bytes = Int32::to_bytes(e, v);
            assert_eq!(Int32::from_bytes(e, &bytes), v);
            assert_eq!(Int32::new(v, e).value(), v);
        }
    }
}

#[test]
fn round_trip_u64_sampled() {
    let samples = [0u64, 1, 0x0102030405060708, u64::MAX - 1, u64::MAX];
    for e in ENDIANNESSES {
        for v in samples {
            let bytes = Uint64::to_bytes(e, v);
            assert_eq!(Uint64::from_bytes(e, &bytes), v);
        }
    }
}

#[test]
fn round_trip_i64_sampled() {
    let samples = [i64::MIN, -0x0102030405060708, -1, 0, 1, i64::MAX];
    for e in ENDIANNESSES {
        for v in samples {
            let bytes = Int64::to_bytes(e, v);
            assert_eq!(Int64::from_bytes(e, &bytes), v);
        }
    }
}

#[test]
fn round_trip_u128_sampled() {
    let samples = [0u128, 1, 0x0102030405060708090a0b0c0d0e0f10, u128::MAX - 1, u128::MAX];
    for e in ENDIANNESSES {
        for v in samples {
            let bytes = Uint128::to_bytes(e, v);
            assert_eq!(Uint128::from_bytes(e, &bytes), v);
        }
    }
}

#[test]
fn round_trip_i128_sampled() {
    let samples = [i128::MIN, i128::MIN + 1, -1, 0, 1, i128::MAX - 1, i128::MAX];
    for e in ENDIANNESSES {
        for v in samples {
            let bytes = Int128::to_bytes(e, v);
            assert_eq!(Int128::from_bytes(e, &bytes), v);
        }
    }
}

#[test]
fn round_trip_float_bits_sampled() {
    for e in ENDIANNESSES {
        for bits in [0u16, 0x3c00, 0xbc00, 0x7e00, u16::MAX] {
            let bytes = Float16::to_bytes(e, bits);
            assert_eq!(Float16::from_bytes(e, &bytes), bits);
            assert_eq!(Float16::from_bits(bits, e).bits(), bits);
        }
        for bits in [0u32, 1.0f32.to_bits(), (-2.5f32).to_bits(), f32::NAN.to_bits(), u32::MAX] {
            let bytes = Float32::to_bytes(e, bits);
            assert_eq!(Float32::from_bytes(e, &bytes), bits);
        }
        for bits in [0u64, 1.0f64.to_bits(), (-2.5f64).to_bits(), f64::NAN.to_bits(), u64::MAX] {
            let bytes = Float64::to_bytes(e, bits);
            assert_eq!(Float64::from_bytes(e, &bytes), bits);
        }
    }
}

#[test]
fn exact_encodings_u32() {
    assert_eq!(Uint32::to_bytes(Endianness::Big, 0x01020304), vec![1, 2, 3, 4]);
    assert_eq!(Uint32::to_bytes(Endianness::Little, 0x01020304), vec![4, 3, 2, 1]);
    assert_eq!(Uint32::from_bytes(Endianness::Big, &[0xde, 0xad, 0xbe, 0xef]), 0xdead_beef);
    assert_eq!(Uint32::from_bytes(Endianness::Little, &[0xef, 0xbe, 0xad, 0xde]), 0xdead_beef);
}

#[test]
fn exact_encodings_signed() {
    // -2 in two's complement is all ones but the lowest bit.
    assert_eq!(Int16::to_bytes(Endianness::Big, -2), vec![0xff, 0xfe]);
    assert_eq!(Int16::to_bytes(Endianness::Little, -2), vec![0xfe, 0xff]);
    assert_eq!(Int32::from_bytes(Endianness::Big, &[0xff, 0xff, 0xff, 0xff]), -1);
    assert_eq!(Int8::to_bytes(Endianness::Big, i8::MIN), vec![0x80]);
}

#[test]
fn endianness_distinctness() {
    // A non-palindromic value encodes to byte-reversed arrays under the two
    // explicit byte orders.
    let v = 0x01020304u32;
    let big = Uint32::to_bytes(Endianness::Big, v);
    let little = Uint32::to_bytes(Endianness::Little, v);
    let mut reversed = little.clone();
    reversed.reverse();
    assert_eq!(big, reversed);
    assert_ne!(big, little);

    // The native selector coincides with exactly one of the two; this
    // library fixes it to the little-endian layout of its reference
    // platforms.
    let native = Uint32::to_bytes(Endianness::Native, v);
    assert_eq!(native, little);
    assert_eq!(native, v.to_le_bytes().to_vec());
}

#[test]
fn bool_encoding_is_order_free() {
    for e in ENDIANNESSES {
        assert_eq!(Bool::to_bytes(e, true), vec![1]);
        assert_eq!(Bool::to_bytes(e, false), vec![0]);
    }
}
