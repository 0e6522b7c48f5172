//! Endianness selectors.
//!
//! The byte-order selector is a closed three-way choice: native, big or
//! little. The three sentinel marker types mirror the selector objects that a
//! host binding hands around; every instance of one sentinel kind equals every
//! other instance of the same kind, so the sentinels carry a trivial total
//! order where `Lt` and `Gt` are always false.

use vstd::prelude::*;

verus! {

/// The six comparison operations of a rich comparison protocol.
#[derive(Clone, Copy, PartialEq, Eq, Structural, Debug)]
pub enum CompareOp {
    Lt,
    Le,
    Eq,
    Ne,
    Gt,
    Ge,
}

/// The outcome of comparing two values that are always equal: only the
/// reflexive operations hold.
pub open spec fn trivial_order(op: CompareOp) -> bool {
    match op {
        CompareOp::Lt => false,
        CompareOp::Le => true,
        CompareOp::Eq => true,
        CompareOp::Ne => false,
        CompareOp::Gt => false,
        CompareOp::Ge => true,
    }
}

/// Sentinel for the platform's native byte order.
#[derive(Clone, Copy, PartialEq, Eq, Structural, Debug)]
pub struct NativeEndian();

impl NativeEndian {
    /// All native-endian sentinels are indistinguishable, so comparison
    /// follows the trivial total order.
    pub fn richcmp(&self, _other: &Self, op: CompareOp) -> (r: bool)
        ensures
            r == trivial_order(op),
    {
        match op {
            CompareOp::Lt => false,
            CompareOp::Le => true,
            CompareOp::Eq => true,
            CompareOp::Ne => false,
            CompareOp::Gt => false,
            CompareOp::Ge => true,
        }
    }

    /// The sentinel's printable name.
    pub fn repr(&self) -> (r: String)
        ensures
            r@ == "NativeEndian"@,
    {
        "NativeEndian".to_owned()
    }

    /// The selector this sentinel stands for.
    pub fn selector(&self) -> (r: Endianness)
        ensures
            r == Endianness::Native,
    {
        Endianness::Native
    }
}

/// Sentinel for big-endian byte order.
#[derive(Clone, Copy, PartialEq, Eq, Structural, Debug)]
pub struct BigEndian();

impl BigEndian {
    /// All big-endian sentinels are indistinguishable, so comparison follows
    /// the trivial total order.
    pub fn richcmp(&self, _other: &Self, op: CompareOp) -> (r: bool)
        ensures
            r == trivial_order(op),
    {
        match op {
            CompareOp::Lt => false,
            CompareOp::Le => true,
            CompareOp::Eq => true,
            CompareOp::Ne => false,
            CompareOp::Gt => false,
            CompareOp::Ge => true,
        }
    }

    /// The sentinel's printable name.
    pub fn repr(&self) -> (r: String)
        ensures
            r@ == "BigEndian"@,
    {
        "BigEndian".to_owned()
    }

    /// The selector this sentinel stands for.
    pub fn selector(&self) -> (r: Endianness)
        ensures
            r == Endianness::Big,
    {
        Endianness::Big
    }
}

/// Sentinel for little-endian byte order.
#[derive(Clone, Copy, PartialEq, Eq, Structural, Debug)]
pub struct LittleEndian();

impl LittleEndian {
    /// All little-endian sentinels are indistinguishable, so comparison
    /// follows the trivial total order.
    pub fn richcmp(&self, _other: &Self, op: CompareOp) -> (r: bool)
        ensures
            r == trivial_order(op),
    {
        match op {
            CompareOp::Lt => false,
            CompareOp::Le => true,
            CompareOp::Eq => true,
            CompareOp::Ne => false,
            CompareOp::Gt => false,
            CompareOp::Ge => true,
        }
    }

    /// The sentinel's printable name.
    pub fn repr(&self) -> (r: String)
        ensures
            r@ == "LittleEndian"@,
    {
        "LittleEndian".to_owned()
    }

    /// The selector this sentinel stands for.
    pub fn selector(&self) -> (r: Endianness)
        ensures
            r == Endianness::Little,
    {
        Endianness::Little
    }
}

/// The three-way byte-order selector that every codec consumes.
///
/// `Native` is interpreted with little-endian byte order: the convention of
/// the platforms this library targets. That choice is a documented
/// implementation convention, not a portability guarantee.
#[derive(Clone, Copy, PartialEq, Eq, Structural, Debug)]
pub enum Endianness {
    Native,
    Big,
    Little,
}

impl Endianness {
    /// True when multi-byte values under this selector are laid out most
    /// significant byte first. `Native` resolves to little-endian by the
    /// documented convention above.
    pub open spec fn spec_is_big(self) -> bool {
        self == Endianness::Big
    }

    /// Executable counterpart of [`Self::spec_is_big`].
    pub fn is_big(&self) -> (r: bool)
        ensures
            r == self.spec_is_big(),
    {
        match self {
            Endianness::Big => true,
            Endianness::Native => false,
            Endianness::Little => false,
        }
    }
}

} // verus!
