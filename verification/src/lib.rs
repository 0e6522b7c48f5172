//! A binary struct-layout engine.
//!
//! Given a declarative description of a record's fields (name, type,
//! declaration order) the library computes byte offsets, encodes and decodes
//! primitive values to and from a fixed-endianness byte representation, and
//! derives array ("shaped") variants of any type, memoized so that the same
//! (origin, shape) pair always yields the canonical descriptor.

pub mod abstractions;
pub mod codec;
pub mod cstruct;
pub mod decimal;
pub mod errors;
pub mod primitives;
pub mod sentinels;
