//! Struct instances and field access.
//!
//! A [`CStruct`] owns a byte buffer whose length equals the packed size of
//! its struct descriptor, together with a struct-wide endianness. Reads are
//! always mediated through offset computation against that buffer: resolving
//! a field name yields the field's type and byte offset, and reading a field
//! constructs the field type's value over the bytes at
//! `[offset, offset + size)`, using the instance's endianness (endianness
//! never varies per field).

use vstd::prelude::*;
use vstd::slice::{slice_subrange, slice_to_vec};
use crate::abstractions::{
    field_lookup, sum_packed, lemma_field_lookup_valid, lemma_sum_packed_nonneg,
    lemma_sum_packed_prefix_le, lemma_sum_packed_take_step, TypeKind, TypeRegistry,
};
use crate::errors::LayoutError;
use crate::primitives::{
    Bool, Float16, Float32, Float64, Int128, Int16, Int32, Int64, Int8, PrimitiveKind, Uint128,
    Uint16, Uint32, Uint64, Uint8,
};
use crate::sentinels::Endianness;

verus! {

/// A struct instance: a backing buffer of exactly the descriptor's packed
/// size, read through offsets, with one endianness for every field.
pub struct CStruct {
    /// The registry identity of the instance's struct descriptor.
    pub ty: usize,
    /// The backing buffer; its length equals the descriptor's packed size
    /// at all times.
    pub buffer: Vec<u8>,
    /// The byte order every field of this instance decodes with.
    pub endianness: Endianness,
}

/// A view over the bytes of a shaped-array field: the derived type's
/// identity and a copy of the field's byte range. Element access goes back
/// through the origin descriptor.
pub struct ShapedView {
    /// The registry identity of the shaped descriptor.
    pub ty: usize,
    /// The field's bytes: the origin's packed bytes repeated as many times
    /// as the product of the shape.
    pub buffer: Vec<u8>,
    /// The byte order inherited from the containing instance.
    pub endianness: Endianness,
}

/// The value read out of a field: a typed cell for a primitive field, a
/// nested instance for a struct field, a raw view for a shaped field.
pub enum FieldValue {
    Bool(Bool),
    Int8(Int8),
    Int16(Int16),
    Int32(Int32),
    Int64(Int64),
    Int128(Int128),
    Uint8(Uint8),
    Uint16(Uint16),
    Uint32(Uint32),
    Uint64(Uint64),
    Uint128(Uint128),
    Float16(Float16),
    Float32(Float32),
    Float64(Float64),
    Struct(CStruct),
    Shaped(ShapedView),
}

/// True when `fv` is the value that reading bytes `bytes` at a field of
/// type `fty` with endianness `e` must produce: the variant matches the
/// field's kind, and the value carries exactly those bytes and that
/// endianness.
pub open spec fn field_value_matches(
    fv: FieldValue,
    reg: TypeRegistry,
    fty: int,
    bytes: Seq<u8>,
    e: Endianness,
) -> bool {
    match reg.entries@[fty].kind {
        TypeKind::Primitive(k) => match k {
            PrimitiveKind::Bool => fv matches FieldValue::Bool(c) && c.wf() && c.buffer@ == bytes
                && c.endianness == e,
            PrimitiveKind::I8 => fv matches FieldValue::Int8(c) && c.wf() && c.buffer@ == bytes
                && c.endianness == e,
            PrimitiveKind::I16 => fv matches FieldValue::Int16(c) && c.wf() && c.buffer@ == bytes
                && c.endianness == e,
            PrimitiveKind::I32 => fv matches FieldValue::Int32(c) && c.wf() && c.buffer@ == bytes
                && c.endianness == e,
            PrimitiveKind::I64 => fv matches FieldValue::Int64(c) && c.wf() && c.buffer@ == bytes
                && c.endianness == e,
            PrimitiveKind::I128 => fv matches FieldValue::Int128(c) && c.wf() && c.buffer@ == bytes
                && c.endianness == e,
            PrimitiveKind::U8 => fv matches FieldValue::Uint8(c) && c.wf() && c.buffer@ == bytes
                && c.endianness == e,
            PrimitiveKind::U16 => fv matches FieldValue::Uint16(c) && c.wf() && c.buffer@ == bytes
                && c.endianness == e,
            PrimitiveKind::U32 => fv matches FieldValue::Uint32(c) && c.wf() && c.buffer@ == bytes
                && c.endianness == e,
            PrimitiveKind::U64 => fv matches FieldValue::Uint64(c) && c.wf() && c.buffer@ == bytes
                && c.endianness == e,
            PrimitiveKind::U128 => fv matches FieldValue::Uint128(c) && c.wf() && c.buffer@ == bytes
                && c.endianness == e,
            PrimitiveKind::F16 => fv matches FieldValue::Float16(c) && c.wf() && c.buffer@ == bytes
                && c.endianness == e,
            PrimitiveKind::F32 => fv matches FieldValue::Float32(c) && c.wf() && c.buffer@ == bytes
                && c.endianness == e,
            PrimitiveKind::F64 => fv matches FieldValue::Float64(c) && c.wf() && c.buffer@ == bytes
                && c.endianness == e,
        },
        TypeKind::Struct(_) => fv matches FieldValue::Struct(c) && c.valid(reg) && c.ty == fty
            && c.buffer@ == bytes && c.endianness == e,
        TypeKind::Shaped { .. } => fv matches FieldValue::Shaped(v) && v.ty == fty && v.buffer@
            == bytes && v.buffer@.len() == reg.entries@[fty].packed && v.endianness == e,
    }
}

impl CStruct {
    /// The instance agrees with the registry: its descriptor is a struct
    /// descriptor and the buffer has exactly the descriptor's packed size.
    pub open spec fn valid(self, reg: TypeRegistry) -> bool {
        &&& self.ty < reg.entries@.len()
        &&& reg.entries@[self.ty as int].kind is Struct
        &&& self.buffer@.len() == reg.entries@[self.ty as int].packed
    }

    /// An instance over a raw buffer, which must have exactly the
    /// descriptor's packed size. Construction is atomic: it fully succeeds
    /// or the instance never comes into existence.
    pub fn new(reg: &TypeRegistry, ty: usize, buffer: Vec<u8>, endianness: Endianness) -> (r:
        Result<Self, LayoutError>)
        requires
            reg.wf(),
            ty < reg.entries@.len(),
            reg.entries@[ty as int].kind is Struct,
        ensures
            match r {
                Ok(c) => {
                    &&& buffer@.len() == reg.entries@[ty as int].packed
                    &&& c.valid(*reg)
                    &&& c.ty == ty
                    &&& c.buffer@ == buffer@
                    &&& c.endianness == endianness
                },
                Err(e) => {
                    &&& e == LayoutError::BufferLengthMismatch
                    &&& buffer@.len() != reg.entries@[ty as int].packed
                },
            },
    {
        if buffer.len() == reg.packed_size_of(ty) {
            Ok(CStruct { ty, buffer, endianness })
        } else {
            Err(LayoutError::BufferLengthMismatch)
        }
    }

    /// The packed size of the instance's descriptor: the sum of its fields'
    /// packed sizes, in declared order, with no padding bytes inserted
    /// between fields (a documented limitation, matching an on-wire format
    /// rather than host memory alignment).
    pub fn packed_size(&self, reg: &TypeRegistry) -> (n: usize)
        requires
            self.valid(*reg),
        ensures
            n == reg.entries@[self.ty as int].packed,
    {
        reg.packed_size_of(self.ty)
    }

    /// Resolves a field name to the field's type and byte offset; see
    /// [`TypeRegistry::offset_and_type_of`].
    pub fn offset_and_type_of(&self, reg: &TypeRegistry, name: &String) -> (r: Result<
        (usize, usize),
        LayoutError,
    >)
        requires
            reg.wf(),
            self.valid(*reg),
        ensures
            ({
                let fields = reg.entries@[self.ty as int].kind->Struct_0@;
                match r {
                    Ok((fty, off)) => {
                        &&& field_lookup(fields, name@) >= 0
                        &&& fty == fields[field_lookup(fields, name@)].ty
                        &&& fty < reg.entries@.len()
                        &&& off == sum_packed(reg.entries@, fields.take(field_lookup(fields, name@)))
                    },
                    Err(e) => {
                        &&& e == LayoutError::FieldNotFound
                        &&& field_lookup(fields, name@) == -1
                    },
                }
            }),
    {
        reg.offset_and_type_of(self.ty, name)
    }

    /// The byte offset of a named field within the backing buffer.
    pub fn offset_of(&self, reg: &TypeRegistry, name: &String) -> (r: Result<usize, LayoutError>)
        requires
            reg.wf(),
            self.valid(*reg),
        ensures
            ({
                let fields = reg.entries@[self.ty as int].kind->Struct_0@;
                match r {
                    Ok(off) => {
                        &&& field_lookup(fields, name@) >= 0
                        &&& off == sum_packed(reg.entries@, fields.take(field_lookup(fields, name@)))
                    },
                    Err(e) => {
                        &&& e == LayoutError::FieldNotFound
                        &&& field_lookup(fields, name@) == -1
                    },
                }
            }),
    {
        match self.offset_and_type_of(reg, name) {
            Ok((_fty, off)) => Ok(off),
            Err(e) => Err(e),
        }
    }

    /// The type of a named field, as its registry identity.
    pub fn type_of(&self, reg: &TypeRegistry, name: &String) -> (r: Result<usize, LayoutError>)
        requires
            reg.wf(),
            self.valid(*reg),
        ensures
            ({
                let fields = reg.entries@[self.ty as int].kind->Struct_0@;
                match r {
                    Ok(fty) => {
                        &&& field_lookup(fields, name@) >= 0
                        &&& fty == fields[field_lookup(fields, name@)].ty
                    },
                    Err(e) => {
                        &&& e == LayoutError::FieldNotFound
                        &&& field_lookup(fields, name@) == -1
                    },
                }
            }),
    {
        match self.offset_and_type_of(reg, name) {
            Ok((fty, _off)) => Ok(fty),
            Err(e) => Err(e),
        }
    }

    /// Reads a named field: resolves its type and offset, takes the
    /// `packed_size(type)` bytes starting at the offset, and constructs the
    /// field type's value over them with the instance's endianness. The
    /// bytes are copied into the returned value, which therefore has a
    /// lifetime of its own.
    pub fn read_field(&self, reg: &TypeRegistry, name: &String) -> (r: Result<
        FieldValue,
        LayoutError,
    >)
        requires
            reg.wf(),
            self.valid(*reg),
        ensures
            ({
                let fields = reg.entries@[self.ty as int].kind->Struct_0@;
                let idx = field_lookup(fields, name@);
                match r {
                    Ok(fv) => {
                        &&& idx >= 0
                        &&& ({
                            let fty = fields[idx].ty as int;
                            let off = sum_packed(reg.entries@, fields.take(idx));
                            let size = reg.entries@[fty].packed as int;
                            field_value_matches(
                                fv,
                                *reg,
                                fty,
                                self.buffer@.subrange(off, off + size),
                                self.endianness,
                            )
                        })
                    },
                    Err(e) => {
                        &&& e == LayoutError::FieldNotFound
                        &&& idx == -1
                    },
                }
            }),
    {
        let (fty, off) = match self.offset_and_type_of(reg, name) {
            Ok(p) => p,
            Err(e) => {
                return Err(e);
            },
        };
        let size = reg.packed_size_of(fty);
        proof {
            let fields = reg.entries@[self.ty as int].kind->Struct_0@;
            let idx = field_lookup(fields, name@);
            assert(TypeRegistry::entry_wf(reg.entries@, self.ty as int));
            lemma_field_lookup_valid(fields, name@);
            lemma_sum_packed_nonneg(reg.entries@, fields.take(idx));
            lemma_sum_packed_take_step(reg.entries@, fields, idx);
            lemma_sum_packed_prefix_le(reg.entries@, fields, idx + 1);
        }
        let bytes = slice_subrange(self.buffer.as_slice(), off, off + size);
        let entry = &reg.entries[fty];
        proof {
            assert(TypeRegistry::entry_wf(reg.entries@, fty as int));
        }
        match &entry.kind {
            TypeKind::Primitive(k) => match k {
                PrimitiveKind::Bool => Ok(
                    FieldValue::Bool(Bool { buffer: slice_to_vec(bytes), endianness: self.endianness }),
                ),
                PrimitiveKind::I8 => Ok(
                    FieldValue::Int8(Int8 { buffer: slice_to_vec(bytes), endianness: self.endianness }),
                ),
                PrimitiveKind::I16 => Ok(
                    FieldValue::Int16(
                        Int16 { buffer: slice_to_vec(bytes), endianness: self.endianness },
                    ),
                ),
                PrimitiveKind::I32 => Ok(
                    FieldValue::Int32(
                        Int32 { buffer: slice_to_vec(bytes), endianness: self.endianness },
                    ),
                ),
                PrimitiveKind::I64 => Ok(
                    FieldValue::Int64(
                        Int64 { buffer: slice_to_vec(bytes), endianness: self.endianness },
                    ),
                ),
                PrimitiveKind::I128 => Ok(
                    FieldValue::Int128(
                        Int128 { buffer: slice_to_vec(bytes), endianness: self.endianness },
                    ),
                ),
                PrimitiveKind::U8 => Ok(
                    FieldValue::Uint8(
                        Uint8 { buffer: slice_to_vec(bytes), endianness: self.endianness },
                    ),
                ),
                PrimitiveKind::U16 => Ok(
                    FieldValue::Uint16(
                        Uint16 { buffer: slice_to_vec(bytes), endianness: self.endianness },
                    ),
                ),
                PrimitiveKind::U32 => Ok(
                    FieldValue::Uint32(
                        Uint32 { buffer: slice_to_vec(bytes), endianness: self.endianness },
                    ),
                ),
                PrimitiveKind::U64 => Ok(
                    FieldValue::Uint64(
                        Uint64 { buffer: slice_to_vec(bytes), endianness: self.endianness },
                    ),
                ),
                PrimitiveKind::U128 => Ok(
                    FieldValue::Uint128(
                        Uint128 { buffer: slice_to_vec(bytes), endianness: self.endianness },
                    ),
                ),
                PrimitiveKind::F16 => Ok(
                    FieldValue::Float16(
                        Float16 { buffer: slice_to_vec(bytes), endianness: self.endianness },
                    ),
                ),
                PrimitiveKind::F32 => Ok(
                    FieldValue::Float32(
                        Float32 { buffer: slice_to_vec(bytes), endianness: self.endianness },
                    ),
                ),
                PrimitiveKind::F64 => Ok(
                    FieldValue::Float64(
                        Float64 { buffer: slice_to_vec(bytes), endianness: self.endianness },
                    ),
                ),
            },
            TypeKind::Struct(_) => Ok(
                FieldValue::Struct(
                    CStruct { ty: fty, buffer: slice_to_vec(bytes), endianness: self.endianness },
                ),
            ),
            TypeKind::Shaped { .. } => Ok(
                FieldValue::Shaped(
                    ShapedView { ty: fty, buffer: slice_to_vec(bytes), endianness: self.endianness },
                ),
            ),
        }
    }
}

/// Growing the registry never invalidates an existing instance: the arena
/// is append-only and entries are never mutated, so an instance stays valid
/// against every later state of the registry it was built against.
pub proof fn lemma_valid_preserved_by_extension(c: CStruct, reg1: TypeRegistry, reg2: TypeRegistry)
    requires
        c.valid(reg1),
        reg1.entries@.len() <= reg2.entries@.len(),
        forall|i: int| 0 <= i < reg1.entries@.len() ==> reg2.entries@[i] == reg1.entries@[i],
    ensures
        c.valid(reg2),
{
}

} // verus!
