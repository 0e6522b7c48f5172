//! Typed cells for the primitive kinds.
//!
//! A cell owns a byte buffer of exactly its kind's packed size together with
//! the endianness it was constructed with; the buffer is never resized after
//! construction. A cell is created from a logical value, from a raw byte
//! buffer of the exact length, or defaulted to the zero value. Decoding is
//! pure, and comparison operates on decoded values, never on raw bytes: two
//! cells whose byte patterns differ under different endianness settings but
//! decode to the same value compare equal.

use vstd::prelude::*;
use vstd::slice::slice_to_vec;
use crate::sentinels::{CompareOp, Endianness};
use crate::errors::LayoutError;
use crate::decimal::{decimal_int, i128_to_decimal, u128_to_decimal};
use crate::codec::{
    encoded_bytes, decoded_value, unsigned_of, signed_of,
    encode_unsigned, decode_unsigned,
    lemma_codec_round_trip, lemma_decoded_bound, lemma_pow256_values, lemma_signed_round_trip,
    i8_to_repr, repr_to_i8, i16_to_repr, repr_to_i16, i32_to_repr, repr_to_i32,
    i64_to_repr, repr_to_i64, i128_to_repr, repr_to_i128,
};

verus! {

/// The closed set of scalar kinds the codec supports.
#[derive(Clone, Copy, PartialEq, Eq, Structural, Debug)]
pub enum PrimitiveKind {
    Bool,
    I8,
    I16,
    I32,
    I64,
    I128,
    U8,
    U16,
    U32,
    U64,
    U128,
    F16,
    F32,
    F64,
}

impl PrimitiveKind {
    /// The packed size of the kind in bytes: a fixed constant of the kind,
    /// never computed from an instance.
    pub open spec fn spec_packed_size(self) -> nat {
        match self {
            PrimitiveKind::Bool => 1,
            PrimitiveKind::I8 => 1,
            PrimitiveKind::I16 => 2,
            PrimitiveKind::I32 => 4,
            PrimitiveKind::I64 => 8,
            PrimitiveKind::I128 => 16,
            PrimitiveKind::U8 => 1,
            PrimitiveKind::U16 => 2,
            PrimitiveKind::U32 => 4,
            PrimitiveKind::U64 => 8,
            PrimitiveKind::U128 => 16,
            PrimitiveKind::F16 => 2,
            PrimitiveKind::F32 => 4,
            PrimitiveKind::F64 => 8,
        }
    }

    /// Executable counterpart of [`Self::spec_packed_size`].
    pub fn packed_size(&self) -> (n: usize)
        ensures
            n as nat == self.spec_packed_size(),
    {
        match self {
            PrimitiveKind::Bool => 1,
            PrimitiveKind::I8 => 1,
            PrimitiveKind::I16 => 2,
            PrimitiveKind::I32 => 4,
            PrimitiveKind::I64 => 8,
            PrimitiveKind::I128 => 16,
            PrimitiveKind::U8 => 1,
            PrimitiveKind::U16 => 2,
            PrimitiveKind::U32 => 4,
            PrimitiveKind::U64 => 8,
            PrimitiveKind::U128 => 16,
            PrimitiveKind::F16 => 2,
            PrimitiveKind::F32 => 4,
            PrimitiveKind::F64 => 8,
        }
    }
}

/// The meaning of one rich-comparison operation on two decoded values.
pub open spec fn compare_values(a: int, b: int, op: CompareOp) -> bool {
    match op {
        CompareOp::Lt => a < b,
        CompareOp::Le => a <= b,
        CompareOp::Eq => a == b,
        CompareOp::Ne => a != b,
        CompareOp::Gt => a > b,
        CompareOp::Ge => a >= b,
    }
}

/// The numeral a boolean decodes to, for comparison purposes.
pub open spec fn bool_as_int(b: bool) -> int {
    if b {
        1
    } else {
        0
    }
}

/// A one-byte boolean cell. The encoding stores one for true and zero for
/// false; decoding treats any nonzero byte as true (a raw buffer may carry a
/// nonzero pattern other than one, which is deliberately coerced rather than
/// rejected).
pub struct Bool {
    pub buffer: Vec<u8>,
    pub endianness: Endianness,
}

impl Bool {
    /// The buffer has exactly the packed size of the kind.
    pub open spec fn wf(self) -> bool {
        self.buffer@.len() == 1
    }

    /// The logical value stored in the cell.
    pub open spec fn decoded(self) -> bool {
        self.buffer@[0] != 0
    }

    /// Encodes a boolean as a single byte: one for true, zero for false. A
    /// one-byte value has no byte-order ambiguity, so the endianness is
    /// irrelevant to the encoding.
    pub fn to_bytes(_endianness: Endianness, value: bool) -> (r: Vec<u8>)
        ensures
            r@ == seq![if value { 1u8 } else { 0u8 }],
    {
        let byte: u8 = if value {
            1
        } else {
            0
        };
        let mut out: Vec<u8> = Vec::new();
        out.push(byte);
        proof {
            assert(out@ =~= seq![if value { 1u8 } else { 0u8 }]);
        }
        out
    }

    /// Decodes a single byte: zero is false, any nonzero byte is true.
    pub fn from_bytes(_endianness: Endianness, buffer: &[u8]) -> (r: bool)
        requires
            buffer@.len() == 1,
        ensures
            r == (buffer@[0] != 0),
    {
        let byte = buffer[0];
        byte != 0
    }

    /// A cell holding the given value.
    pub fn new(value: bool, endianness: Endianness) -> (r: Self)
        ensures
            r.wf(),
            r.endianness == endianness,
            r.decoded() == value,
    {
        Bool { buffer: Self::to_bytes(endianness, value), endianness }
    }

    /// A cell over a raw buffer, which must have exactly the packed size.
    pub fn from_buffer(buffer: &[u8], endianness: Endianness) -> (r: Result<Self, LayoutError>)
        ensures
            match r {
                Ok(c) => buffer@.len() == 1 && c.wf() && c.buffer@ == buffer@ && c.endianness
                    == endianness,
                Err(e) => buffer@.len() != 1 && e == LayoutError::BufferLengthMismatch,
            },
    {
        if buffer.len() == 1 {
            Ok(Bool { buffer: slice_to_vec(buffer), endianness })
        } else {
            Err(LayoutError::BufferLengthMismatch)
        }
    }

    /// A cell holding the default (false) value.
    pub fn new_default(endianness: Endianness) -> (r: Self)
        ensures
            r.wf(),
            r.endianness == endianness,
            r.decoded() == false,
    {
        Self::new(false, endianness)
    }

    /// The decoded value; pure and deterministic given the buffer contents.
    pub fn value(&self) -> (r: bool)
        requires
            self.wf(),
        ensures
            r == self.decoded(),
    {
        Self::from_bytes(self.endianness, self.buffer.as_slice())
    }

    /// The packed size of the kind.
    pub fn packed_size() -> (n: usize)
        ensures
            n as nat == PrimitiveKind::Bool.spec_packed_size(),
    {
        1
    }

    /// The printable form of the cell: the kind's name around the decoded
    /// value.
    pub fn repr(&self) -> (r: String)
        requires
            self.wf(),
        ensures
            self.decoded() ==> r@ == "boolean(true)"@,
            !self.decoded() ==> r@ == "boolean(false)"@,
    {
        if self.value() {
            String::from_str("boolean(true)")
        } else {
            String::from_str("boolean(false)")
        }
    }

    /// Rich comparison by decoded value, with false below true.
    pub fn richcmp(&self, other: &Self, op: CompareOp) -> (r: bool)
        requires
            self.wf(),
            other.wf(),
        ensures
            r == compare_values(bool_as_int(self.decoded()), bool_as_int(other.decoded()), op),
    {
        let a: u8 = if self.value() {
            1
        } else {
            0
        };
        let b: u8 = if other.value() {
            1
        } else {
            0
        };
        match op {
            CompareOp::Lt => a < b,
            CompareOp::Le => a <= b,
            CompareOp::Eq => a == b,
            CompareOp::Ne => a != b,
            CompareOp::Gt => a > b,
            CompareOp::Ge => a >= b,
        }
    }
}

/// A one-byte signed integer cell, stored in two's complement.
pub struct Int8 {
    pub buffer: Vec<u8>,
    pub endianness: Endianness,
}

impl Int8 {
    /// The buffer has exactly the packed size of the kind.
    pub open spec fn wf(self) -> bool {
        self.buffer@.len() == 1
    }

    /// The logical value stored in the cell.
    pub open spec fn decoded(self) -> int {
        signed_of(decoded_value(self.endianness, self.buffer@), 1)
    }

    /// Encodes a value into its one-byte two's-complement
    /// representation under the given endianness.
    pub fn to_bytes(endianness: Endianness, value: i8) -> (r: Vec<u8>)
        ensures
            r@ == encoded_bytes(endianness, unsigned_of(value as int, 1) as nat, 1),
            r@.len() == 1,
    {
        encode_unsigned(endianness, i8_to_repr(value) as u128, 1)
    }

    /// Decodes a one-byte two's-complement representation under
    /// the given endianness.
    pub fn from_bytes(endianness: Endianness, buffer: &[u8]) -> (r: i8)
        requires
            buffer@.len() == 1,
        ensures
            r as int == signed_of(decoded_value(endianness, buffer@), 1),
    {
        proof {
            lemma_decoded_bound(endianness, buffer@);
            lemma_pow256_values();
        }
        let v = decode_unsigned(endianness, buffer);
        repr_to_i8(v as u8)
    }

    /// A cell holding the given value.
    pub fn new(value: i8, endianness: Endianness) -> (r: Self)
        ensures
            r.wf(),
            r.endianness == endianness,
            r.decoded() == value as int,
    {
        proof {
            lemma_pow256_values();
            lemma_signed_round_trip(value as int, 1);
            lemma_codec_round_trip(endianness, unsigned_of(value as int, 1) as nat, 1);
        }
        Int8 { buffer: Self::to_bytes(endianness, value), endianness }
    }

    /// A cell over a raw buffer, which must have exactly the packed size.
    pub fn from_buffer(buffer: &[u8], endianness: Endianness) -> (r: Result<Self, LayoutError>)
        ensures
            match r {
                Ok(c) => buffer@.len() == 1 && c.wf() && c.buffer@ == buffer@ && c.endianness
                    == endianness,
                Err(e) => buffer@.len() != 1 && e == LayoutError::BufferLengthMismatch,
            },
    {
        if buffer.len() == 1 {
            Ok(Int8 { buffer: slice_to_vec(buffer), endianness })
        } else {
            Err(LayoutError::BufferLengthMismatch)
        }
    }

    /// A cell holding the default (zero) value.
    pub fn new_default(endianness: Endianness) -> (r: Self)
        ensures
            r.wf(),
            r.endianness == endianness,
            r.decoded() == 0,
    {
        Self::new(0, endianness)
    }

    /// The decoded value; pure and deterministic given the buffer contents
    /// and endianness.
    pub fn value(&self) -> (r: i8)
        requires
            self.wf(),
        ensures
            r as int == self.decoded(),
    {
        Self::from_bytes(self.endianness, self.buffer.as_slice())
    }

    /// The packed size of the kind.
    pub fn packed_size() -> (n: usize)
        ensures
            n as nat == PrimitiveKind::I8.spec_packed_size(),
    {
        1
    }

    /// The printable form of the cell: the kind's name around the decoded
    /// value.
    pub fn repr(&self) -> (r: String)
        requires
            self.wf(),
        ensures
            r@ == "i8("@ + decimal_int(self.decoded()) + ")"@,
    {
        let mut s = String::from_str("i8(");
        let v = self.value();
        let digits = i128_to_decimal(v as i128);
        s.append(digits.as_str());
        s.append(")");
        s
    }

    /// Rich comparison by decoded value: cells with different endianness but
    /// equal decoded values compare equal.
    pub fn richcmp(&self, other: &Self, op: CompareOp) -> (r: bool)
        requires
            self.wf(),
            other.wf(),
        ensures
            r == compare_values(self.decoded(), other.decoded(), op),
    {
        let a = self.value();
        let b = other.value();
        match op {
            CompareOp::Lt => a < b,
            CompareOp::Le => a <= b,
            CompareOp::Eq => a == b,
            CompareOp::Ne => a != b,
            CompareOp::Gt => a > b,
            CompareOp::Ge => a >= b,
        }
    }
}

/// A two-byte signed integer cell, stored in two's complement.
pub struct Int16 {
    pub buffer: Vec<u8>,
    pub endianness: Endianness,
}

impl Int16 {
    /// The buffer has exactly the packed size of the kind.
    pub open spec fn wf(self) -> bool {
        self.buffer@.len() == 2
    }

    /// The logical value stored in the cell.
    pub open spec fn decoded(self) -> int {
        signed_of(decoded_value(self.endianness, self.buffer@), 2)
    }

    /// Encodes a value into its two-byte two's-complement
    /// representation under the given endianness.
    pub fn to_bytes(endianness: Endianness, value: i16) -> (r: Vec<u8>)
        ensures
            r@ == encoded_bytes(endianness, unsigned_of(value as int, 2) as nat, 2),
            r@.len() == 2,
    {
        encode_unsigned(endianness, i16_to_repr(value) as u128, 2)
    }

    /// Decodes a two-byte two's-complement representation under
    /// the given endianness.
    pub fn from_bytes(endianness: Endianness, buffer: &[u8]) -> (r: i16)
        requires
            buffer@.len() == 2,
        ensures
            r as int == signed_of(decoded_value(endianness, buffer@), 2),
    {
        proof {
            lemma_decoded_bound(endianness, buffer@);
            lemma_pow256_values();
        }
        let v = decode_unsigned(endianness, buffer);
        repr_to_i16(v as u16)
    }

    /// A cell holding the given value.
    pub fn new(value: i16, endianness: Endianness) -> (r: Self)
        ensures
            r.wf(),
            r.endianness == endianness,
            r.decoded() == value as int,
    {
        proof {
            lemma_pow256_values();
            lemma_signed_round_trip(value as int, 2);
            lemma_codec_round_trip(endianness, unsigned_of(value as int, 2) as nat, 2);
        }
        Int16 { buffer: Self::to_bytes(endianness, value), endianness }
    }

    /// A cell over a raw buffer, which must have exactly the packed size.
    pub fn from_buffer(buffer: &[u8], endianness: Endianness) -> (r: Result<Self, LayoutError>)
        ensures
            match r {
                Ok(c) => buffer@.len() == 2 && c.wf() && c.buffer@ == buffer@ && c.endianness
                    == endianness,
                Err(e) => buffer@.len() != 2 && e == LayoutError::BufferLengthMismatch,
            },
    {
        if buffer.len() == 2 {
            Ok(Int16 { buffer: slice_to_vec(buffer), endianness })
        } else {
            Err(LayoutError::BufferLengthMismatch)
        }
    }

    /// A cell holding the default (zero) value.
    pub fn new_default(endianness: Endianness) -> (r: Self)
        ensures
            r.wf(),
            r.endianness == endianness,
            r.decoded() == 0,
    {
        Self::new(0, endianness)
    }

    /// The decoded value; pure and deterministic given the buffer contents
    /// and endianness.
    pub fn value(&self) -> (r: i16)
        requires
            self.wf(),
        ensures
            r as int == self.decoded(),
    {
        Self::from_bytes(self.endianness, self.buffer.as_slice())
    }

    /// The packed size of the kind.
    pub fn packed_size() -> (n: usize)
        ensures
            n as nat == PrimitiveKind::I16.spec_packed_size(),
    {
        2
    }

    /// The printable form of the cell: the kind's name around the decoded
    /// value.
    pub fn repr(&self) -> (r: String)
        requires
            self.wf(),
        ensures
            r@ == "i16("@ + decimal_int(self.decoded()) + ")"@,
    {
        let mut s = String::from_str("i16(");
        let v = self.value();
        let digits = i128_to_decimal(v as i128);
        s.append(digits.as_str());
        s.append(")");
        s
    }

    /// Rich comparison by decoded value: cells with different endianness but
    /// equal decoded values compare equal.
    pub fn richcmp(&self, other: &Self, op: CompareOp) -> (r: bool)
        requires
            self.wf(),
            other.wf(),
        ensures
            r == compare_values(self.decoded(), other.decoded(), op),
    {
        let a = self.value();
        let b = other.value();
        match op {
            CompareOp::Lt => a < b,
            CompareOp::Le => a <= b,
            CompareOp::Eq => a == b,
            CompareOp::Ne => a != b,
            CompareOp::Gt => a > b,
            CompareOp::Ge => a >= b,
        }
    }
}

/// A four-byte signed integer cell, stored in two's complement.
pub struct Int32 {
    pub buffer: Vec<u8>,
    pub endianness: Endianness,
}

impl Int32 {
    /// The buffer has exactly the packed size of the kind.
    pub open spec fn wf(self) -> bool {
        self.buffer@.len() == 4
    }

    /// The logical value stored in the cell.
    pub open spec fn decoded(self) -> int {
        signed_of(decoded_value(self.endianness, self.buffer@), 4)
    }

    /// Encodes a value into its four-byte two's-complement representation
    /// under the given endianness.
    pub fn to_bytes(endianness: Endianness, value: i32) -> (r: Vec<u8>)
        ensures
            r@ == encoded_bytes(endianness, unsigned_of(value as int, 4) as nat, 4),
            r@.len() == 4,
    {
        encode_unsigned(endianness, i32_to_repr(value) as u128, 4)
    }

    /// Decodes a four-byte two's-complement representation under the given
    /// endianness.
    pub fn from_bytes(endianness: Endianness, buffer: &[u8]) -> (r: i32)
        requires
            buffer@.len() == 4,
        ensures
            r as int == signed_of(decoded_value(endianness, buffer@), 4),
    {
        proof {
            lemma_decoded_bound(endianness, buffer@);
            lemma_pow256_values();
        }
        let v = decode_unsigned(endianness, buffer);
        repr_to_i32(v as u32)
    }

    /// A cell holding the given value.
    pub fn new(value: i32, endianness: Endianness) -> (r: Self)
        ensures
            r.wf(),
            r.endianness == endianness,
            r.decoded() == value as int,
    {
        proof {
            lemma_pow256_values();
            lemma_signed_round_trip(value as int, 4);
            lemma_codec_round_trip(endianness, unsigned_of(value as int, 4) as nat, 4);
        }
        Int32 { buffer: Self::to_bytes(endianness, value), endianness }
    }

    /// A cell over a raw buffer, which must have exactly the packed size.
    pub fn from_buffer(buffer: &[u8], endianness: Endianness) -> (r: Result<Self, LayoutError>)
        ensures
            match r {
                Ok(c) => buffer@.len() == 4 && c.wf() && c.buffer@ == buffer@ && c.endianness
                    == endianness,
                Err(e) => buffer@.len() != 4 && e == LayoutError::BufferLengthMismatch,
            },
    {
        if buffer.len() == 4 {
            Ok(Int32 { buffer: slice_to_vec(buffer), endianness })
        } else {
            Err(LayoutError::BufferLengthMismatch)
        }
    }

    /// A cell holding the default (zero) value.
    pub fn new_default(endianness: Endianness) -> (r: Self)
        ensures
            r.wf(),
            r.endianness == endianness,
            r.decoded() == 0,
    {
        Self::new(0, endianness)
    }

    /// The decoded value; pure and deterministic given the buffer contents
    /// and endianness.
    pub fn value(&self) -> (r: i32)
        requires
            self.wf(),
        ensures
            r as int == self.decoded(),
    {
        Self::from_bytes(self.endianness, self.buffer.as_slice())
    }

    /// The packed size of the kind.
    pub fn packed_size() -> (n: usize)
        ensures
            n as nat == PrimitiveKind::I32.spec_packed_size(),
    {
        4
    }

    /// The printable form of the cell: the kind's name around the decoded
    /// value.
    pub fn repr(&self) -> (r: String)
        requires
            self.wf(),
        ensures
            r@ == "i32("@ + decimal_int(self.decoded()) + ")"@,
    {
        let mut s = String::from_str("i32(");
        let v = self.value();
        let digits = i128_to_decimal(v as i128);
        s.append(digits.as_str());
        s.append(")");
        s
    }

    /// Rich comparison by decoded value: cells with different endianness but
    /// equal decoded values compare equal.
    pub fn richcmp(&self, other: &Self, op: CompareOp) -> (r: bool)
        requires
            self.wf(),
            other.wf(),
        ensures
            r == compare_values(self.decoded(), other.decoded(), op),
    {
        let a = self.value();
        let b = other.value();
        match op {
            CompareOp::Lt => a < b,
            CompareOp::Le => a <= b,
            CompareOp::Eq => a == b,
            CompareOp::Ne => a != b,
            CompareOp::Gt => a > b,
            CompareOp::Ge => a >= b,
        }
    }
}

/// An eight-byte signed integer cell, stored in two's complement.
pub struct Int64 {
    pub buffer: Vec<u8>,
    pub endianness: Endianness,
}

impl Int64 {
    /// The buffer has exactly the packed size of the kind.
    pub open spec fn wf(self) -> bool {
        self.buffer@.len() == 8
    }

    /// The logical value stored in the cell.
    pub open spec fn decoded(self) -> int {
        signed_of(decoded_value(self.endianness, self.buffer@), 8)
    }

    /// Encodes a value into an eight-byte two's-complement
    /// representation under the given endianness.
    pub fn to_bytes(endianness: Endianness, value: i64) -> (r: Vec<u8>)
        ensures
            r@ == encoded_bytes(endianness, unsigned_of(value as int, 8) as nat, 8),
            r@.len() == 8,
    {
        encode_unsigned(endianness, i64_to_repr(value) as u128, 8)
    }

    /// Decodes an eight-byte two's-complement representation under
    /// the given endianness.
    pub fn from_bytes(endianness: Endianness, buffer: &[u8]) -> (r: i64)
        requires
            buffer@.len() == 8,
        ensures
            r as int == signed_of(decoded_value(endianness, buffer@), 8),
    {
        proof {
            lemma_decoded_bound(endianness, buffer@);
            lemma_pow256_values();
        }
        let v = decode_unsigned(endianness, buffer);
        repr_to_i64(v as u64)
    }

    /// A cell holding the given value.
    pub fn new(value: i64, endianness: Endianness) -> (r: Self)
        ensures
            r.wf(),
            r.endianness == endianness,
            r.decoded() == value as int,
    {
        proof {
            lemma_pow256_values();
            lemma_signed_round_trip(value as int, 8);
            lemma_codec_round_trip(endianness, unsigned_of(value as int, 8) as nat, 8);
        }
        Int64 { buffer: Self::to_bytes(endianness, value), endianness }
    }

    /// A cell over a raw buffer, which must have exactly the packed size.
    pub fn from_buffer(buffer: &[u8], endianness: Endianness) -> (r: Result<Self, LayoutError>)
        ensures
            match r {
                Ok(c) => buffer@.len() == 8 && c.wf() && c.buffer@ == buffer@ && c.endianness
                    == endianness,
                Err(e) => buffer@.len() != 8 && e == LayoutError::BufferLengthMismatch,
            },
    {
        if buffer.len() == 8 {
            Ok(Int64 { buffer: slice_to_vec(buffer), endianness })
        } else {
            Err(LayoutError::BufferLengthMismatch)
        }
    }

    /// A cell holding the default (zero) value.
    pub fn new_default(endianness: Endianness) -> (r: Self)
        ensures
            r.wf(),
            r.endianness == endianness,
            r.decoded() == 0,
    {
        Self::new(0, endianness)
    }

    /// The decoded value; pure and deterministic given the buffer contents
    /// and endianness.
    pub fn value(&self) -> (r: i64)
        requires
            self.wf(),
        ensures
            r as int == self.decoded(),
    {
        Self::from_bytes(self.endianness, self.buffer.as_slice())
    }

    /// The packed size of the kind.
    pub fn packed_size() -> (n: usize)
        ensures
            n as nat == PrimitiveKind::I64.spec_packed_size(),
    {
        8
    }

    /// The printable form of the cell: the kind's name around the decoded
    /// value.
    pub fn repr(&self) -> (r: String)
        requires
            self.wf(),
        ensures
            r@ == "i64("@ + decimal_int(self.decoded()) + ")"@,
    {
        let mut s = String::from_str("i64(");
        let v = self.value();
        let digits = i128_to_decimal(v as i128);
        s.append(digits.as_str());
        s.append(")");
        s
    }

    /// Rich comparison by decoded value: cells with different endianness but
    /// equal decoded values compare equal.
    pub fn richcmp(&self, other: &Self, op: CompareOp) -> (r: bool)
        requires
            self.wf(),
            other.wf(),
        ensures
            r == compare_values(self.decoded(), other.decoded(), op),
    {
        let a = self.value();
        let b = other.value();
        match op {
            CompareOp::Lt => a < b,
            CompareOp::Le => a <= b,
            CompareOp::Eq => a == b,
            CompareOp::Ne => a != b,
            CompareOp::Gt => a > b,
            CompareOp::Ge => a >= b,
        }
    }
}

/// A sixteen-byte signed integer cell, stored in two's complement.
pub struct Int128 {
    pub buffer: Vec<u8>,
    pub endianness: Endianness,
}

impl Int128 {
    /// The buffer has exactly the packed size of the kind.
    pub open spec fn wf(self) -> bool {
        self.buffer@.len() == 16
    }

    /// The logical value stored in the cell.
    pub open spec fn decoded(self) -> int {
        signed_of(decoded_value(self.endianness, self.buffer@), 16)
    }

    /// Encodes a value into its sixteen-byte two's-complement
    /// representation under the given endianness.
    pub fn to_bytes(endianness: Endianness, value: i128) -> (r: Vec<u8>)
        ensures
            r@ == encoded_bytes(endianness, unsigned_of(value as int, 16) as nat, 16),
            r@.len() == 16,
    {
        encode_unsigned(endianness, i128_to_repr(value) as u128, 16)
    }

    /// Decodes a sixteen-byte two's-complement representation under
    /// the given endianness.
    pub fn from_bytes(endianness: Endianness, buffer: &[u8]) -> (r: i128)
        requires
            buffer@.len() == 16,
        ensures
            r as int == signed_of(decoded_value(endianness, buffer@), 16),
    {
        proof {
            lemma_decoded_bound(endianness, buffer@);
            lemma_pow256_values();
        }
        let v = decode_unsigned(endianness, buffer);
        repr_to_i128(v)
    }

    /// A cell holding the given value.
    pub fn new(value: i128, endianness: Endianness) -> (r: Self)
        ensures
            r.wf(),
            r.endianness == endianness,
            r.decoded() == value as int,
    {
        proof {
            lemma_pow256_values();
            lemma_signed_round_trip(value as int, 16);
            lemma_codec_round_trip(endianness, unsigned_of(value as int, 16) as nat, 16);
        }
        Int128 { buffer: Self::to_bytes(endianness, value), endianness }
    }

    /// A cell over a raw buffer, which must have exactly the packed size.
    pub fn from_buffer(buffer: &[u8], endianness: Endianness) -> (r: Result<Self, LayoutError>)
        ensures
            match r {
                Ok(c) => buffer@.len() == 16 && c.wf() && c.buffer@ == buffer@ && c.endianness
                    == endianness,
                Err(e) => buffer@.len() != 16 && e == LayoutError::BufferLengthMismatch,
            },
    {
        if buffer.len() == 16 {
            Ok(Int128 { buffer: slice_to_vec(buffer), endianness })
        } else {
            Err(LayoutError::BufferLengthMismatch)
        }
    }

    /// A cell holding the default (zero) value.
    pub fn new_default(endianness: Endianness) -> (r: Self)
        ensures
            r.wf(),
            r.endianness == endianness,
            r.decoded() == 0,
    {
        Self::new(0, endianness)
    }

    /// The decoded value; pure and deterministic given the buffer contents
    /// and endianness.
    pub fn value(&self) -> (r: i128)
        requires
            self.wf(),
        ensures
            r as int == self.decoded(),
    {
        Self::from_bytes(self.endianness, self.buffer.as_slice())
    }

    /// The packed size of the kind.
    pub fn packed_size() -> (n: usize)
        ensures
            n as nat == PrimitiveKind::I128.spec_packed_size(),
    {
        16
    }

    /// The printable form of the cell: the kind's name around the decoded
    /// value.
    pub fn repr(&self) -> (r: String)
        requires
            self.wf(),
        ensures
            r@ == "i128("@ + decimal_int(self.decoded()) + ")"@,
    {
        let mut s = String::from_str("i128(");
        let v = self.value();
        let digits = i128_to_decimal(v as i128);
        s.append(digits.as_str());
        s.append(")");
        s
    }

    /// Rich comparison by decoded value: cells with different endianness but
    /// equal decoded values compare equal.
    pub fn richcmp(&self, other: &Self, op: CompareOp) -> (r: bool)
        requires
            self.wf(),
            other.wf(),
        ensures
            r == compare_values(self.decoded(), other.decoded(), op),
    {
        let a = self.value();
        let b = other.value();
        match op {
            CompareOp::Lt => a < b,
            CompareOp::Le => a <= b,
            CompareOp::Eq => a == b,
            CompareOp::Ne => a != b,
            CompareOp::Gt => a > b,
            CompareOp::Ge => a >= b,
        }
    }
}

/// A one-byte unsigned integer cell.
pub struct Uint8 {
    pub buffer: Vec<u8>,
    pub endianness: Endianness,
}

impl Uint8 {
    /// The buffer has exactly the packed size of the kind.
    pub open spec fn wf(self) -> bool {
        self.buffer@.len() == 1
    }

    /// The logical value stored in the cell.
    pub open spec fn decoded(self) -> int {
        decoded_value(self.endianness, self.buffer@) as int
    }

    /// Encodes a value into its one-byte representation under the
    /// given endianness.
    pub fn to_bytes(endianness: Endianness, value: u8) -> (r: Vec<u8>)
        ensures
            r@ == encoded_bytes(endianness, value as nat, 1),
            r@.len() == 1,
    {
        encode_unsigned(endianness, value as u128, 1)
    }

    /// Decodes a one-byte representation under the given
    /// endianness.
    pub fn from_bytes(endianness: Endianness, buffer: &[u8]) -> (r: u8)
        requires
            buffer@.len() == 1,
        ensures
            r as nat == decoded_value(endianness, buffer@),
    {
        proof {
            lemma_decoded_bound(endianness, buffer@);
            lemma_pow256_values();
        }
        let v = decode_unsigned(endianness, buffer);
        v as u8
    }

    /// A cell holding the given value.
    pub fn new(value: u8, endianness: Endianness) -> (r: Self)
        ensures
            r.wf(),
            r.endianness == endianness,
            r.decoded() == value as int,
    {
        proof {
            lemma_pow256_values();
            lemma_codec_round_trip(endianness, value as nat, 1);
        }
        Uint8 { buffer: Self::to_bytes(endianness, value), endianness }
    }

    /// A cell over a raw buffer, which must have exactly the packed size.
    pub fn from_buffer(buffer: &[u8], endianness: Endianness) -> (r: Result<Self, LayoutError>)
        ensures
            match r {
                Ok(c) => buffer@.len() == 1 && c.wf() && c.buffer@ == buffer@ && c.endianness
                    == endianness,
                Err(e) => buffer@.len() != 1 && e == LayoutError::BufferLengthMismatch,
            },
    {
        if buffer.len() == 1 {
            Ok(Uint8 { buffer: slice_to_vec(buffer), endianness })
        } else {
            Err(LayoutError::BufferLengthMismatch)
        }
    }

    /// A cell holding the default (zero) value.
    pub fn new_default(endianness: Endianness) -> (r: Self)
        ensures
            r.wf(),
            r.endianness == endianness,
            r.decoded() == 0,
    {
        Self::new(0, endianness)
    }

    /// The decoded value; pure and deterministic given the buffer contents
    /// and endianness.
    pub fn value(&self) -> (r: u8)
        requires
            self.wf(),
        ensures
            r as int == self.decoded(),
    {
        Self::from_bytes(self.endianness, self.buffer.as_slice())
    }

    /// The packed size of the kind.
    pub fn packed_size() -> (n: usize)
        ensures
            n as nat == PrimitiveKind::U8.spec_packed_size(),
    {
        1
    }

    /// The printable form of the cell: the kind's name around the decoded
    /// value.
    pub fn repr(&self) -> (r: String)
        requires
            self.wf(),
        ensures
            r@ == "u8("@ + decimal_int(self.decoded()) + ")"@,
    {
        let mut s = String::from_str("u8(");
        let v = self.value();
        let digits = u128_to_decimal(v as u128);
        s.append(digits.as_str());
        s.append(")");
        s
    }

    /// Rich comparison by decoded value: cells with different endianness but
    /// equal decoded values compare equal.
    pub fn richcmp(&self, other: &Self, op: CompareOp) -> (r: bool)
        requires
            self.wf(),
            other.wf(),
        ensures
            r == compare_values(self.decoded(), other.decoded(), op),
    {
        let a = self.value();
        let b = other.value();
        match op {
            CompareOp::Lt => a < b,
            CompareOp::Le => a <= b,
            CompareOp::Eq => a == b,
            CompareOp::Ne => a != b,
            CompareOp::Gt => a > b,
            CompareOp::Ge => a >= b,
        }
    }
}

/// A two-byte unsigned integer cell.
pub struct Uint16 {
    pub buffer: Vec<u8>,
    pub endianness: Endianness,
}

impl Uint16 {
    /// The buffer has exactly the packed size of the kind.
    pub open spec fn wf(self) -> bool {
        self.buffer@.len() == 2
    }

    /// The logical value stored in the cell.
    pub open spec fn decoded(self) -> int {
        decoded_value(self.endianness, self.buffer@) as int
    }

    /// Encodes a value into its two-byte representation under the
    /// given endianness.
    pub fn to_bytes(endianness: Endianness, value: u16) -> (r: Vec<u8>)
        ensures
            r@ == encoded_bytes(endianness, value as nat, 2),
            r@.len() == 2,
    {
        encode_unsigned(endianness, value as u128, 2)
    }

    /// Decodes a two-byte representation under the given
    /// endianness.
    pub fn from_bytes(endianness: Endianness, buffer: &[u8]) -> (r: u16)
        requires
            buffer@.len() == 2,
        ensures
            r as nat == decoded_value(endianness, buffer@),
    {
        proof {
            lemma_decoded_bound(endianness, buffer@);
            lemma_pow256_values();
        }
        let v = decode_unsigned(endianness, buffer);
        v as u16
    }

    /// A cell holding the given value.
    pub fn new(value: u16, endianness: Endianness) -> (r: Self)
        ensures
            r.wf(),
            r.endianness == endianness,
            r.decoded() == value as int,
    {
        proof {
            lemma_pow256_values();
            lemma_codec_round_trip(endianness, value as nat, 2);
        }
        Uint16 { buffer: Self::to_bytes(endianness, value), endianness }
    }

    /// A cell over a raw buffer, which must have exactly the packed size.
    pub fn from_buffer(buffer: &[u8], endianness: Endianness) -> (r: Result<Self, LayoutError>)
        ensures
            match r {
                Ok(c) => buffer@.len() == 2 && c.wf() && c.buffer@ == buffer@ && c.endianness
                    == endianness,
                Err(e) => buffer@.len() != 2 && e == LayoutError::BufferLengthMismatch,
            },
    {
        if buffer.len() == 2 {
            Ok(Uint16 { buffer: slice_to_vec(buffer), endianness })
        } else {
            Err(LayoutError::BufferLengthMismatch)
        }
    }

    /// A cell holding the default (zero) value.
    pub fn new_default(endianness: Endianness) -> (r: Self)
        ensures
            r.wf(),
            r.endianness == endianness,
            r.decoded() == 0,
    {
        Self::new(0, endianness)
    }

    /// The decoded value; pure and deterministic given the buffer contents
    /// and endianness.
    pub fn value(&self) -> (r: u16)
        requires
            self.wf(),
        ensures
            r as int == self.decoded(),
    {
        Self::from_bytes(self.endianness, self.buffer.as_slice())
    }

    /// The packed size of the kind.
    pub fn packed_size() -> (n: usize)
        ensures
            n as nat == PrimitiveKind::U16.spec_packed_size(),
    {
        2
    }

    /// The printable form of the cell: the kind's name around the decoded
    /// value.
    pub fn repr(&self) -> (r: String)
        requires
            self.wf(),
        ensures
            r@ == "u16("@ + decimal_int(self.decoded()) + ")"@,
    {
        let mut s = String::from_str("u16(");
        let v = self.value();
        let digits = u128_to_decimal(v as u128);
        s.append(digits.as_str());
        s.append(")");
        s
    }

    /// Rich comparison by decoded value: cells with different endianness but
    /// equal decoded values compare equal.
    pub fn richcmp(&self, other: &Self, op: CompareOp) -> (r: bool)
        requires
            self.wf(),
            other.wf(),
        ensures
            r == compare_values(self.decoded(), other.decoded(), op),
    {
        let a = self.value();
        let b = other.value();
        match op {
            CompareOp::Lt => a < b,
            CompareOp::Le => a <= b,
            CompareOp::Eq => a == b,
            CompareOp::Ne => a != b,
            CompareOp::Gt => a > b,
            CompareOp::Ge => a >= b,
        }
    }
}

/// A four-byte unsigned integer cell.
pub struct Uint32 {
    pub buffer: Vec<u8>,
    pub endianness: Endianness,
}

impl Uint32 {
    /// The buffer has exactly the packed size of the kind.
    pub open spec fn wf(self) -> bool {
        self.buffer@.len() == 4
    }

    /// The logical value stored in the cell.
    pub open spec fn decoded(self) -> int {
        decoded_value(self.endianness, self.buffer@) as int
    }

    /// Encodes a value into its four-byte representation under the given
    /// endianness.
    pub fn to_bytes(endianness: Endianness, value: u32) -> (r: Vec<u8>)
        ensures
            r@ == encoded_bytes(endianness, value as nat, 4),
            r@.len() == 4,
    {
        encode_unsigned(endianness, value as u128, 4)
    }

    /// Decodes a four-byte representation under the given endianness.
    pub fn from_bytes(endianness: Endianness, buffer: &[u8]) -> (r: u32)
        requires
            buffer@.len() == 4,
        ensures
            r as nat == decoded_value(endianness, buffer@),
    {
        proof {
            lemma_decoded_bound(endianness, buffer@);
            lemma_pow256_values();
        }
        let v = decode_unsigned(endianness, buffer);
        v as u32
    }

    /// A cell holding the given value.
    pub fn new(value: u32, endianness: Endianness) -> (r: Self)
        ensures
            r.wf(),
            r.endianness == endianness,
            r.decoded() == value as int,
    {
        proof {
            lemma_pow256_values();
            lemma_codec_round_trip(endianness, value as nat, 4);
        }
        Uint32 { buffer: Self::to_bytes(endianness, value), endianness }
    }

    /// A cell over a raw buffer, which must have exactly the packed size.
    pub fn from_buffer(buffer: &[u8], endianness: Endianness) -> (r: Result<Self, LayoutError>)
        ensures
            match r {
                Ok(c) => buffer@.len() == 4 && c.wf() && c.buffer@ == buffer@ && c.endianness
                    == endianness,
                Err(e) => buffer@.len() != 4 && e == LayoutError::BufferLengthMismatch,
            },
    {
        if buffer.len() == 4 {
            Ok(Uint32 { buffer: slice_to_vec(buffer), endianness })
        } else {
            Err(LayoutError::BufferLengthMismatch)
        }
    }

    /// A cell holding the default (zero) value.
    pub fn new_default(endianness: Endianness) -> (r: Self)
        ensures
            r.wf(),
            r.endianness == endianness,
            r.decoded() == 0,
    {
        Self::new(0, endianness)
    }

    /// The decoded value; pure and deterministic given the buffer contents
    /// and endianness.
    pub fn value(&self) -> (r: u32)
        requires
            self.wf(),
        ensures
            r as int == self.decoded(),
    {
        Self::from_bytes(self.endianness, self.buffer.as_slice())
    }

    /// The packed size of the kind.
    pub fn packed_size() -> (n: usize)
        ensures
            n as nat == PrimitiveKind::U32.spec_packed_size(),
    {
        4
    }

    /// The printable form of the cell: the kind's name around the decoded
    /// value.
    pub fn repr(&self) -> (r: String)
        requires
            self.wf(),
        ensures
            r@ == "u32("@ + decimal_int(self.decoded()) + ")"@,
    {
        let mut s = String::from_str("u32(");
        let v = self.value();
        let digits = u128_to_decimal(v as u128);
        s.append(digits.as_str());
        s.append(")");
        s
    }

    /// Rich comparison by decoded value: cells with different endianness but
    /// equal decoded values compare equal.
    pub fn richcmp(&self, other: &Self, op: CompareOp) -> (r: bool)
        requires
            self.wf(),
            other.wf(),
        ensures
            r == compare_values(self.decoded(), other.decoded(), op),
    {
        let a = self.value();
        let b = other.value();
        match op {
            CompareOp::Lt => a < b,
            CompareOp::Le => a <= b,
            CompareOp::Eq => a == b,
            CompareOp::Ne => a != b,
            CompareOp::Gt => a > b,
            CompareOp::Ge => a >= b,
        }
    }
}

/// An eight-byte unsigned integer cell.
pub struct Uint64 {
    pub buffer: Vec<u8>,
    pub endianness: Endianness,
}

impl Uint64 {
    /// The buffer has exactly the packed size of the kind.
    pub open spec fn wf(self) -> bool {
        self.buffer@.len() == 8
    }

    /// The logical value stored in the cell.
    pub open spec fn decoded(self) -> int {
        decoded_value(self.endianness, self.buffer@) as int
    }

    /// Encodes a value into an eight-byte representation under the
    /// given endianness.
    pub fn to_bytes(endianness: Endianness, value: u64) -> (r: Vec<u8>)
        ensures
            r@ == encoded_bytes(endianness, value as nat, 8),
            r@.len() == 8,
    {
        encode_unsigned(endianness, value as u128, 8)
    }

    /// Decodes an eight-byte representation under the given
    /// endianness.
    pub fn from_bytes(endianness: Endianness, buffer: &[u8]) -> (r: u64)
        requires
            buffer@.len() == 8,
        ensures
            r as nat == decoded_value(endianness, buffer@),
    {
        proof {
            lemma_decoded_bound(endianness, buffer@);
            lemma_pow256_values();
        }
        let v = decode_unsigned(endianness, buffer);
        v as u64
    }

    /// A cell holding the given value.
    pub fn new(value: u64, endianness: Endianness) -> (r: Self)
        ensures
            r.wf(),
            r.endianness == endianness,
            r.decoded() == value as int,
    {
        proof {
            lemma_pow256_values();
            lemma_codec_round_trip(endianness, value as nat, 8);
        }
        Uint64 { buffer: Self::to_bytes(endianness, value), endianness }
    }

    /// A cell over a raw buffer, which must have exactly the packed size.
    pub fn from_buffer(buffer: &[u8], endianness: Endianness) -> (r: Result<Self, LayoutError>)
        ensures
            match r {
                Ok(c) => buffer@.len() == 8 && c.wf() && c.buffer@ == buffer@ && c.endianness
                    == endianness,
                Err(e) => buffer@.len() != 8 && e == LayoutError::BufferLengthMismatch,
            },
    {
        if buffer.len() == 8 {
            Ok(Uint64 { buffer: slice_to_vec(buffer), endianness })
        } else {
            Err(LayoutError::BufferLengthMismatch)
        }
    }

    /// A cell holding the default (zero) value.
    pub fn new_default(endianness: Endianness) -> (r: Self)
        ensures
            r.wf(),
            r.endianness == endianness,
            r.decoded() == 0,
    {
        Self::new(0, endianness)
    }

    /// The decoded value; pure and deterministic given the buffer contents
    /// and endianness.
    pub fn value(&self) -> (r: u64)
        requires
            self.wf(),
        ensures
            r as int == self.decoded(),
    {
        Self::from_bytes(self.endianness, self.buffer.as_slice())
    }

    /// The packed size of the kind.
    pub fn packed_size() -> (n: usize)
        ensures
            n as nat == PrimitiveKind::U64.spec_packed_size(),
    {
        8
    }

    /// The printable form of the cell: the kind's name around the decoded
    /// value.
    pub fn repr(&self) -> (r: String)
        requires
            self.wf(),
        ensures
            r@ == "u64("@ + decimal_int(self.decoded()) + ")"@,
    {
        let mut s = String::from_str("u64(");
        let v = self.value();
        let digits = u128_to_decimal(v as u128);
        s.append(digits.as_str());
        s.append(")");
        s
    }

    /// Rich comparison by decoded value: cells with different endianness but
    /// equal decoded values compare equal.
    pub fn richcmp(&self, other: &Self, op: CompareOp) -> (r: bool)
        requires
            self.wf(),
            other.wf(),
        ensures
            r == compare_values(self.decoded(), other.decoded(), op),
    {
        let a = self.value();
        let b = other.value();
        match op {
            CompareOp::Lt => a < b,
            CompareOp::Le => a <= b,
            CompareOp::Eq => a == b,
            CompareOp::Ne => a != b,
            CompareOp::Gt => a > b,
            CompareOp::Ge => a >= b,
        }
    }
}

/// A sixteen-byte unsigned integer cell.
pub struct Uint128 {
    pub buffer: Vec<u8>,
    pub endianness: Endianness,
}

impl Uint128 {
    /// The buffer has exactly the packed size of the kind.
    pub open spec fn wf(self) -> bool {
        self.buffer@.len() == 16
    }

    /// The logical value stored in the cell.
    pub open spec fn decoded(self) -> int {
        decoded_value(self.endianness, self.buffer@) as int
    }

    /// Encodes a value into its sixteen-byte representation under the
    /// given endianness.
    pub fn to_bytes(endianness: Endianness, value: u128) -> (r: Vec<u8>)
        ensures
            r@ == encoded_bytes(endianness, value as nat, 16),
            r@.len() == 16,
    {
        encode_unsigned(endianness, value as u128, 16)
    }

    /// Decodes a sixteen-byte representation under the given
    /// endianness.
    pub fn from_bytes(endianness: Endianness, buffer: &[u8]) -> (r: u128)
        requires
            buffer@.len() == 16,
        ensures
            r as nat == decoded_value(endianness, buffer@),
    {
        proof {
            lemma_decoded_bound(endianness, buffer@);
            lemma_pow256_values();
        }
        let v = decode_unsigned(endianness, buffer);
        v
    }

    /// A cell holding the given value.
    pub fn new(value: u128, endianness: Endianness) -> (r: Self)
        ensures
            r.wf(),
            r.endianness == endianness,
            r.decoded() == value as int,
    {
        proof {
            lemma_pow256_values();
            lemma_codec_round_trip(endianness, value as nat, 16);
        }
        Uint128 { buffer: Self::to_bytes(endianness, value), endianness }
    }

    /// A cell over a raw buffer, which must have exactly the packed size.
    pub fn from_buffer(buffer: &[u8], endianness: Endianness) -> (r: Result<Self, LayoutError>)
        ensures
            match r {
                Ok(c) => buffer@.len() == 16 && c.wf() && c.buffer@ == buffer@ && c.endianness
                    == endianness,
                Err(e) => buffer@.len() != 16 && e == LayoutError::BufferLengthMismatch,
            },
    {
        if buffer.len() == 16 {
            Ok(Uint128 { buffer: slice_to_vec(buffer), endianness })
        } else {
            Err(LayoutError::BufferLengthMismatch)
        }
    }

    /// A cell holding the default (zero) value.
    pub fn new_default(endianness: Endianness) -> (r: Self)
        ensures
            r.wf(),
            r.endianness == endianness,
            r.decoded() == 0,
    {
        Self::new(0, endianness)
    }

    /// The decoded value; pure and deterministic given the buffer contents
    /// and endianness.
    pub fn value(&self) -> (r: u128)
        requires
            self.wf(),
        ensures
            r as int == self.decoded(),
    {
        Self::from_bytes(self.endianness, self.buffer.as_slice())
    }

    /// The packed size of the kind.
    pub fn packed_size() -> (n: usize)
        ensures
            n as nat == PrimitiveKind::U128.spec_packed_size(),
    {
        16
    }

    /// The printable form of the cell: the kind's name around the decoded
    /// value.
    pub fn repr(&self) -> (r: String)
        requires
            self.wf(),
        ensures
            r@ == "u128("@ + decimal_int(self.decoded()) + ")"@,
    {
        let mut s = String::from_str("u128(");
        let v = self.value();
        let digits = u128_to_decimal(v as u128);
        s.append(digits.as_str());
        s.append(")");
        s
    }

    /// Rich comparison by decoded value: cells with different endianness but
    /// equal decoded values compare equal.
    pub fn richcmp(&self, other: &Self, op: CompareOp) -> (r: bool)
        requires
            self.wf(),
            other.wf(),
        ensures
            r == compare_values(self.decoded(), other.decoded(), op),
    {
        let a = self.value();
        let b = other.value();
        match op {
            CompareOp::Lt => a < b,
            CompareOp::Le => a <= b,
            CompareOp::Eq => a == b,
            CompareOp::Ne => a != b,
            CompareOp::Gt => a > b,
            CompareOp::Ge => a >= b,
        }
    }
}

/// A two-byte IEEE floating-point cell.
///
/// The verified core stores and transports the IEEE bit pattern as a
/// u16; interpreting the pattern as a floating value, and ordering by
/// that value, are floating-point operations that live outside the verified
/// core (a host layer converts with the platform's float support).
pub struct Float16 {
    pub buffer: Vec<u8>,
    pub endianness: Endianness,
}

impl Float16 {
    /// The buffer has exactly the packed size of the kind.
    pub open spec fn wf(self) -> bool {
        self.buffer@.len() == 2
    }

    /// The bit pattern stored in the cell.
    pub open spec fn decoded(self) -> int {
        decoded_value(self.endianness, self.buffer@) as int
    }

    /// Encodes a bit pattern into its two-byte representation
    /// under the given endianness.
    pub fn to_bytes(endianness: Endianness, bits: u16) -> (r: Vec<u8>)
        ensures
            r@ == encoded_bytes(endianness, bits as nat, 2),
            r@.len() == 2,
    {
        encode_unsigned(endianness, bits as u128, 2)
    }

    /// Decodes a two-byte representation into its bit pattern
    /// under the given endianness.
    pub fn from_bytes(endianness: Endianness, buffer: &[u8]) -> (r: u16)
        requires
            buffer@.len() == 2,
        ensures
            r as nat == decoded_value(endianness, buffer@),
    {
        proof {
            lemma_decoded_bound(endianness, buffer@);
            lemma_pow256_values();
        }
        let v = decode_unsigned(endianness, buffer);
        v as u16
    }

    /// A cell holding the given bit pattern.
    pub fn from_bits(bits: u16, endianness: Endianness) -> (r: Self)
        ensures
            r.wf(),
            r.endianness == endianness,
            r.decoded() == bits as int,
    {
        proof {
            lemma_pow256_values();
            lemma_codec_round_trip(endianness, bits as nat, 2);
        }
        Float16 { buffer: Self::to_bytes(endianness, bits), endianness }
    }

    /// A cell over a raw buffer, which must have exactly the packed size.
    pub fn from_buffer(buffer: &[u8], endianness: Endianness) -> (r: Result<Self, LayoutError>)
        ensures
            match r {
                Ok(c) => buffer@.len() == 2 && c.wf() && c.buffer@ == buffer@ && c.endianness
                    == endianness,
                Err(e) => buffer@.len() != 2 && e == LayoutError::BufferLengthMismatch,
            },
    {
        if buffer.len() == 2 {
            Ok(Float16 { buffer: slice_to_vec(buffer), endianness })
        } else {
            Err(LayoutError::BufferLengthMismatch)
        }
    }

    /// A cell holding the default (all-zero) bit pattern, which is the
    /// floating-point zero.
    pub fn new_default(endianness: Endianness) -> (r: Self)
        ensures
            r.wf(),
            r.endianness == endianness,
            r.decoded() == 0,
    {
        Self::from_bits(0, endianness)
    }

    /// The decoded bit pattern; pure and deterministic given the buffer
    /// contents and endianness.
    pub fn bits(&self) -> (r: u16)
        requires
            self.wf(),
        ensures
            r as int == self.decoded(),
    {
        Self::from_bytes(self.endianness, self.buffer.as_slice())
    }

    /// The packed size of the kind.
    pub fn packed_size() -> (n: usize)
        ensures
            n as nat == PrimitiveKind::F16.spec_packed_size(),
    {
        2
    }
}

/// A four-byte IEEE floating-point cell.
///
/// The verified core stores and transports the IEEE bit pattern as a
/// u32; interpreting the pattern as a floating value, and ordering by
/// that value, are floating-point operations that live outside the verified
/// core (a host layer converts with the platform's float support).
pub struct Float32 {
    pub buffer: Vec<u8>,
    pub endianness: Endianness,
}

impl Float32 {
    /// The buffer has exactly the packed size of the kind.
    pub open spec fn wf(self) -> bool {
        self.buffer@.len() == 4
    }

    /// The bit pattern stored in the cell.
    pub open spec fn decoded(self) -> int {
        decoded_value(self.endianness, self.buffer@) as int
    }

    /// Encodes a bit pattern into its four-byte representation
    /// under the given endianness.
    pub fn to_bytes(endianness: Endianness, bits: u32) -> (r: Vec<u8>)
        ensures
            r@ == encoded_bytes(endianness, bits as nat, 4),
            r@.len() == 4,
    {
        encode_unsigned(endianness, bits as u128, 4)
    }

    /// Decodes a four-byte representation into its bit pattern
    /// under the given endianness.
    pub fn from_bytes(endianness: Endianness, buffer: &[u8]) -> (r: u32)
        requires
            buffer@.len() == 4,
        ensures
            r as nat == decoded_value(endianness, buffer@),
    {
        proof {
            lemma_decoded_bound(endianness, buffer@);
            lemma_pow256_values();
        }
        let v = decode_unsigned(endianness, buffer);
        v as u32
    }

    /// A cell holding the given bit pattern.
    pub fn from_bits(bits: u32, endianness: Endianness) -> (r: Self)
        ensures
            r.wf(),
            r.endianness == endianness,
            r.decoded() == bits as int,
    {
        proof {
            lemma_pow256_values();
            lemma_codec_round_trip(endianness, bits as nat, 4);
        }
        Float32 { buffer: Self::to_bytes(endianness, bits), endianness }
    }

    /// A cell over a raw buffer, which must have exactly the packed size.
    pub fn from_buffer(buffer: &[u8], endianness: Endianness) -> (r: Result<Self, LayoutError>)
        ensures
            match r {
                Ok(c) => buffer@.len() == 4 && c.wf() && c.buffer@ == buffer@ && c.endianness
                    == endianness,
                Err(e) => buffer@.len() != 4 && e == LayoutError::BufferLengthMismatch,
            },
    {
        if buffer.len() == 4 {
            Ok(Float32 { buffer: slice_to_vec(buffer), endianness })
        } else {
            Err(LayoutError::BufferLengthMismatch)
        }
    }

    /// A cell holding the default (all-zero) bit pattern, which is the
    /// floating-point zero.
    pub fn new_default(endianness: Endianness) -> (r: Self)
        ensures
            r.wf(),
            r.endianness == endianness,
            r.decoded() == 0,
    {
        Self::from_bits(0, endianness)
    }

    /// The decoded bit pattern; pure and deterministic given the buffer
    /// contents and endianness.
    pub fn bits(&self) -> (r: u32)
        requires
            self.wf(),
        ensures
            r as int == self.decoded(),
    {
        Self::from_bytes(self.endianness, self.buffer.as_slice())
    }

    /// The packed size of the kind.
    pub fn packed_size() -> (n: usize)
        ensures
            n as nat == PrimitiveKind::F32.spec_packed_size(),
    {
        4
    }
}

/// An eight-byte IEEE floating-point cell.
///
/// The verified core stores and transports the IEEE bit pattern as a
/// u64; interpreting the pattern as a floating value, and ordering by
/// that value, are floating-point operations that live outside the verified
/// core (a host layer converts with the platform's float support).
pub struct Float64 {
    pub buffer: Vec<u8>,
    pub endianness: Endianness,
}

impl Float64 {
    /// The buffer has exactly the packed size of the kind.
    pub open spec fn wf(self) -> bool {
        self.buffer@.len() == 8
    }

    /// The bit pattern stored in the cell.
    pub open spec fn decoded(self) -> int {
        decoded_value(self.endianness, self.buffer@) as int
    }

    /// Encodes a bit pattern into its eight-byte representation
    /// under the given endianness.
    pub fn to_bytes(endianness: Endianness, bits: u64) -> (r: Vec<u8>)
        ensures
            r@ == encoded_bytes(endianness, bits as nat, 8),
            r@.len() == 8,
    {
        encode_unsigned(endianness, bits as u128, 8)
    }

    /// Decodes an eight-byte representation into its bit pattern
    /// under the given endianness.
    pub fn from_bytes(endianness: Endianness, buffer: &[u8]) -> (r: u64)
        requires
            buffer@.len() == 8,
        ensures
            r as nat == decoded_value(endianness, buffer@),
    {
        proof {
            lemma_decoded_bound(endianness, buffer@);
            lemma_pow256_values();
        }
        let v = decode_unsigned(endianness, buffer);
        v as u64
    }

    /// A cell holding the given bit pattern.
    pub fn from_bits(bits: u64, endianness: Endianness) -> (r: Self)
        ensures
            r.wf(),
            r.endianness == endianness,
            r.decoded() == bits as int,
    {
        proof {
            lemma_pow256_values();
            lemma_codec_round_trip(endianness, bits as nat, 8);
        }
        Float64 { buffer: Self::to_bytes(endianness, bits), endianness }
    }

    /// A cell over a raw buffer, which must have exactly the packed size.
    pub fn from_buffer(buffer: &[u8], endianness: Endianness) -> (r: Result<Self, LayoutError>)
        ensures
            match r {
                Ok(c) => buffer@.len() == 8 && c.wf() && c.buffer@ == buffer@ && c.endianness
                    == endianness,
                Err(e) => buffer@.len() != 8 && e == LayoutError::BufferLengthMismatch,
            },
    {
        if buffer.len() == 8 {
            Ok(Float64 { buffer: slice_to_vec(buffer), endianness })
        } else {
            Err(LayoutError::BufferLengthMismatch)
        }
    }

    /// A cell holding the default (all-zero) bit pattern, which is the
    /// floating-point zero.
    pub fn new_default(endianness: Endianness) -> (r: Self)
        ensures
            r.wf(),
            r.endianness == endianness,
            r.decoded() == 0,
    {
        Self::from_bits(0, endianness)
    }

    /// The decoded bit pattern; pure and deterministic given the buffer
    /// contents and endianness.
    pub fn bits(&self) -> (r: u64)
        requires
            self.wf(),
        ensures
            r as int == self.decoded(),
    {
        Self::from_bytes(self.endianness, self.buffer.as_slice())
    }

    /// The packed size of the kind.
    pub fn packed_size() -> (n: usize)
        ensures
            n as nat == PrimitiveKind::F64.spec_packed_size(),
    {
        8
    }
}

} // verus!
