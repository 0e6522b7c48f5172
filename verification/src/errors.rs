//! The error taxonomy.
//!
//! Every failure is local, synchronous and scoped to the single operation
//! that raised it: the library never retries, never partially applies a
//! write, and never leaves an instance half-initialized.

use vstd::prelude::*;

verus! {

/// The ways a layout or codec operation can fail.
#[derive(Clone, Copy, PartialEq, Eq, Structural, Debug)]
pub enum LayoutError {
    /// A field name did not resolve against a struct descriptor: the walk
    /// over the field table exhausted it without a match.
    FieldNotFound,
    /// A shape was empty or contained a dimension below one.
    InvalidShape,
    /// A raw-byte constructor was given a buffer whose length differs from
    /// the declared packed size.
    BufferLengthMismatch,
    /// A packed size would exceed the machine's addressable range. This is a
    /// machine limit, not part of the logical model: packed sizes are stored
    /// as `usize`.
    SizeOverflow,
}

impl LayoutError {
    /// A short printable name for the error.
    pub fn describe(&self) -> (r: String)
        ensures
            self is FieldNotFound ==> r@ == "field not found"@,
            self is InvalidShape ==> r@ == "invalid shape"@,
            self is BufferLengthMismatch ==> r@ == "buffer length mismatch"@,
            self is SizeOverflow ==> r@ == "size overflow"@,
    {
        match self {
            LayoutError::FieldNotFound => "field not found".to_owned(),
            LayoutError::InvalidShape => "invalid shape".to_owned(),
            LayoutError::BufferLengthMismatch => "buffer length mismatch".to_owned(),
            LayoutError::SizeOverflow => "size overflow".to_owned(),
        }
    }
}

} // verus!
