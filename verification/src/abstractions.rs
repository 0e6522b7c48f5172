//! The type descriptor registry and the shape/array derivation cache.
//!
//! A descriptor describes a type: a primitive kind, a struct (an ordered
//! field table; the declaration order is load-bearing, since it fixes both
//! the packed size summation and the byte layout), or a shaped array (an
//! origin type repeated as many times as the product of the shape's
//! dimension extents).
//!
//! Descriptors live in an append-only arena and are referred to by index, so
//! the index is the descriptor's identity: deriving the same (origin, shape)
//! pair twice returns the identical descriptor, not merely an equal one. The
//! registry is the explicit, injectable counterpart of a process-wide
//! memoization table; entries are created once and never evicted or mutated.
//! The well-formedness invariant carries both the exactness of every cached
//! packed size and the uniqueness of every (origin, shape) key, so the
//! re-check a concurrent caller performs before inserting can never create a
//! duplicate entry.

use vstd::prelude::*;
use vstd::arithmetic::mul::{
    lemma_mul_is_associative, lemma_mul_is_commutative, lemma_mul_inequality,
    lemma_mul_left_inequality,
};
use crate::errors::LayoutError;
use crate::primitives::PrimitiveKind;

verus! {

/// One named field of a struct descriptor: the field's name and the
/// registry index of the field's type.
pub struct FieldDescriptor {
    pub name: String,
    pub ty: usize,
}

/// What a registered type is.
pub enum TypeKind {
    /// A scalar of the given kind.
    Primitive(PrimitiveKind),
    /// An ordered field table. Two structs with the same field set in
    /// different declared order have different byte layouts.
    Struct(Vec<FieldDescriptor>),
    /// `origin` repeated `product(shape)` times, contiguously and without
    /// padding.
    Shaped { origin: usize, shape: Vec<usize> },
}

/// An arena slot: the kind together with its packed size, cached at
/// registration and exact by the registry invariant.
pub struct TypeEntry {
    pub kind: TypeKind,
    pub packed: usize,
}

/// The product of a shape's dimension extents: the element count of the
/// shaped array the shape describes.
pub open spec fn product_of(shape: Seq<usize>) -> int
    decreases shape.len(),
{
    if shape.len() == 0 {
        1
    } else {
        product_of(shape.drop_last()) * shape.last()
    }
}

/// A shape is valid when it has at least one dimension and every dimension
/// extent is at least one.
pub open spec fn shape_ok(shape: Seq<usize>) -> bool {
    shape.len() > 0 && (forall|j: int| 0 <= j < shape.len() ==> #[trigger] shape[j] >= 1)
}

/// The packed size of a field table: the sum of the packed sizes of its
/// fields' types, in declared order and with no padding.
pub open spec fn sum_packed(entries: Seq<TypeEntry>, fields: Seq<FieldDescriptor>) -> int
    decreases fields.len(),
{
    if fields.len() == 0 {
        0
    } else {
        sum_packed(entries, fields.drop_last()) + entries[fields.last().ty as int].packed
    }
}

/// The index of the first field named `name`, or -1 when no field matches.
pub open spec fn field_lookup(fields: Seq<FieldDescriptor>, name: Seq<char>) -> int
    decreases fields.len(),
{
    if fields.len() == 0 {
        -1
    } else if fields[0].name@ == name {
        0
    } else {
        let r = field_lookup(fields.drop_first(), name);
        if r < 0 {
            -1
        } else {
            r + 1
        }
    }
}

/// True when `e` is the shaped descriptor derived from exactly this
/// (origin, shape) key.
pub open spec fn is_shaped_entry(e: TypeEntry, origin: usize, shape: Seq<usize>) -> bool {
    &&& e.kind is Shaped
    &&& e.kind->origin == origin
    &&& e.kind->shape@ == shape
}

/// The index of the first shaped entry with the given (origin, shape) key,
/// or -1 when the key was never derived.
pub open spec fn shaped_lookup(entries: Seq<TypeEntry>, origin: usize, shape: Seq<usize>) -> int
    decreases entries.len(),
{
    if entries.len() == 0 {
        -1
    } else if is_shaped_entry(entries[0], origin, shape) {
        0
    } else {
        let r = shaped_lookup(entries.drop_first(), origin, shape);
        if r < 0 {
            -1
        } else {
            r + 1
        }
    }
}

/// The registry of type descriptors: an append-only arena in which an index
/// is a descriptor's identity.
pub struct TypeRegistry {
    pub entries: Vec<TypeEntry>,
}

impl TypeRegistry {
    /// Well-formedness of the slot at index `i`: every referenced index
    /// points strictly below `i` (the arena is append-only, so a descriptor
    /// can only build on descriptors that already existed), shapes are
    /// valid, and the cached packed size is exactly the size the kind
    /// defines.
    pub open spec fn entry_wf(entries: Seq<TypeEntry>, i: int) -> bool {
        match entries[i].kind {
            TypeKind::Primitive(k) => entries[i].packed == k.spec_packed_size(),
            TypeKind::Struct(fields) => {
                &&& (forall|j: int| 0 <= j < fields@.len() ==> (#[trigger] fields@[j]).ty < i)
                &&& entries[i].packed == sum_packed(entries, fields@)
            },
            TypeKind::Shaped { origin, shape } => {
                &&& origin < i
                &&& shape_ok(shape@)
                &&& entries[i].packed == entries[origin as int].packed * product_of(shape@)
            },
        }
    }

    /// The registry invariant: every slot is well-formed and no two shaped
    /// entries share an (origin, shape) key, so every key has one canonical
    /// descriptor.
    pub open spec fn wf(self) -> bool {
        &&& (forall|i: int| 0 <= i < self.entries@.len() ==> Self::entry_wf(self.entries@, i))
        &&& (forall|i: int, j: int|
            0 <= i < j < self.entries@.len() && (#[trigger] self.entries@[i]).kind is Shaped && (
            #[trigger] self.entries@[j]).kind is Shaped ==> !(self.entries@[i].kind->origin
                == self.entries@[j].kind->origin && self.entries@[i].kind->shape@
                == self.entries@[j].kind->shape@))
    }

    /// An empty registry.
    pub fn new() -> (r: Self)
        ensures
            r.wf(),
            r.entries@.len() == 0,
    {
        TypeRegistry { entries: Vec::new() }
    }

    /// The packed size of the descriptor at `id`.
    pub fn packed_size_of(&self, id: usize) -> (n: usize)
        requires
            id < self.entries@.len(),
        ensures
            n == self.entries@[id as int].packed,
    {
        self.entries[id].packed
    }

    /// Registers a primitive descriptor and returns its identity.
    pub fn register_primitive(&mut self, k: PrimitiveKind) -> (id: usize)
        requires
            old(self).wf(),
        ensures
            final(self).wf(),
            id == old(self).entries@.len(),
            final(self).entries@.len() == old(self).entries@.len() + 1,
            forall|i: int| 0 <= i < old(self).entries@.len() ==> final(self).entries@[i] == old(
                self,
            ).entries@[i],
            final(self).entries@[id as int].kind == TypeKind::Primitive(k),
            final(self).entries@[id as int].packed == k.spec_packed_size(),
    {
        let id = self.entries.len();
        let packed = k.packed_size();
        self.entries.push(TypeEntry { kind: TypeKind::Primitive(k), packed });
        proof {
            lemma_wf_extended(old(self).entries@, self.entries@);
        }
        id
    }

    /// Registers a struct descriptor over an ordered field table whose type
    /// handles must already stand in the registry. The packed size is the
    /// sum of the fields' packed sizes; a sum beyond the machine's
    /// addressable range is rejected.
    pub fn register_struct(&mut self, fields: Vec<FieldDescriptor>) -> (r: Result<
        usize,
        LayoutError,
    >)
        requires
            old(self).wf(),
            forall|j: int| 0 <= j < fields@.len() ==> (#[trigger] fields@[j]).ty < old(
                self,
            ).entries@.len(),
        ensures
            final(self).wf(),
            match r {
                Ok(id) => {
                    &&& sum_packed(old(self).entries@, fields@) <= usize::MAX
                    &&& id == old(self).entries@.len()
                    &&& final(self).entries@.len() == old(self).entries@.len() + 1
                    &&& (forall|i: int|
                        0 <= i < old(self).entries@.len() ==> final(self).entries@[i] == old(
                            self,
                        ).entries@[i])
                    &&& final(self).entries@[id as int].kind is Struct
                    &&& final(self).entries@[id as int].kind->Struct_0@ == fields@
                    &&& final(self).entries@[id as int].packed == sum_packed(old(self).entries@, fields@)
                },
                Err(e) => {
                    &&& e == LayoutError::SizeOverflow
                    &&& sum_packed(old(self).entries@, fields@) > usize::MAX
                    &&& final(self).entries@ == old(self).entries@
                },
            },
    {
        let ghost entries = self.entries@;
        let mut total: usize = 0;
        let mut i: usize = 0;
        let n = fields.len();
        while i < n
            invariant
                i <= n,
                n == fields@.len(),
                old(self).wf(),
                entries == self.entries@,
                entries == old(self).entries@,
                forall|j: int| 0 <= j < fields@.len() ==> (#[trigger] fields@[j]).ty
                    < entries.len(),
                total == sum_packed(entries, fields@.take(i as int)),
            decreases n - i,
        {
            proof {
                lemma_sum_packed_take_step(entries, fields@, i as int);
            }
            let fty = fields[i].ty;
            match total.checked_add(self.entries[fty].packed) {
                Some(t) => {
                    total = t;
                },
                None => {
                    proof {
                        lemma_sum_packed_prefix_le(entries, fields@, i + 1);
                    }
                    return Err(LayoutError::SizeOverflow);
                },
            }
            i = i + 1;
        }
        proof {
            assert(fields@.take(n as int) =~= fields@);
        }
        let id = self.entries.len();
        self.entries.push(TypeEntry { kind: TypeKind::Struct(fields), packed: total });
        proof {
            lemma_wf_extended(entries, self.entries@);
            lemma_sum_packed_same_entries(entries, self.entries@, self.entries@[id as int].kind->Struct_0@);
        }
        Ok(id)
    }
}

/// One more field extends the packed sum by exactly that field's packed
/// size.
pub proof fn lemma_sum_packed_take_step(
    entries: Seq<TypeEntry>,
    fields: Seq<FieldDescriptor>,
    i: int,
)
    requires
        0 <= i < fields.len(),
    ensures
        sum_packed(entries, fields.take(i + 1)) == sum_packed(entries, fields.take(i))
            + entries[fields[i].ty as int].packed,
{
    assert(fields.take(i + 1).drop_last() =~= fields.take(i));
    assert(fields.take(i + 1).last() == fields[i]);
}

/// Packed sums are nonnegative.
pub proof fn lemma_sum_packed_nonneg(entries: Seq<TypeEntry>, fields: Seq<FieldDescriptor>)
    ensures
        sum_packed(entries, fields) >= 0,
    decreases fields.len(),
{
    if fields.len() > 0 {
        lemma_sum_packed_nonneg(entries, fields.drop_last());
    }
}

/// A prefix of a field table never sums to more than the whole table.
pub proof fn lemma_sum_packed_prefix_le(
    entries: Seq<TypeEntry>,
    fields: Seq<FieldDescriptor>,
    i: int,
)
    requires
        0 <= i <= fields.len(),
    ensures
        sum_packed(entries, fields.take(i)) <= sum_packed(entries, fields),
    decreases fields.len() - i,
{
    if i == fields.len() {
        assert(fields.take(i) =~= fields);
    } else {
        lemma_sum_packed_take_step(entries, fields, i);
        lemma_sum_packed_prefix_le(entries, fields, i + 1);
    }
}

/// The packed sum only reads the entries the fields point at, so it is
/// unchanged when the arena is extended.
pub proof fn lemma_sum_packed_same_entries(
    e1: Seq<TypeEntry>,
    e2: Seq<TypeEntry>,
    fields: Seq<FieldDescriptor>,
)
    requires
        e1.len() <= e2.len(),
        forall|k: int| 0 <= k < e1.len() ==> e2[k] == e1[k],
        forall|j: int| 0 <= j < fields.len() ==> (#[trigger] fields[j]).ty < e1.len(),
    ensures
        sum_packed(e2, fields) == sum_packed(e1, fields),
    decreases fields.len(),
{
    if fields.len() > 0 {
        lemma_sum_packed_same_entries(e1, e2, fields.drop_last());
    }
}

/// Appending a slot to the arena leaves every existing slot well-formed,
/// because a slot only reads slots below its own index.
pub proof fn lemma_wf_extended(e1: Seq<TypeEntry>, e2: Seq<TypeEntry>)
    requires
        e1.len() <= e2.len(),
        forall|k: int| 0 <= k < e1.len() ==> e2[k] == e1[k],
        forall|i: int| 0 <= i < e1.len() ==> TypeRegistry::entry_wf(e1, i),
    ensures
        forall|i: int| 0 <= i < e1.len() ==> TypeRegistry::entry_wf(e2, i),
{
    assert forall|i: int| 0 <= i < e1.len() implies TypeRegistry::entry_wf(e2, i) by {
        assert(TypeRegistry::entry_wf(e1, i));
        match e2[i].kind {
            TypeKind::Primitive(k) => {},
            TypeKind::Struct(fields) => {
                lemma_sum_packed_same_entries(e1, e2, fields@);
            },
            TypeKind::Shaped { origin, shape } => {},
        }
    }
}

impl TypeRegistry {
    /// Resolves a field name against the struct descriptor at `id`: walks
    /// the field table in declared order, accumulating the packed sizes of
    /// all fields strictly before the named one, and returns the field's
    /// type together with that byte offset. Fails with `FieldNotFound` when
    /// the walk exhausts the table without a match; on a zero-field struct
    /// it therefore always fails.
    pub fn offset_and_type_of(&self, id: usize, name: &String) -> (r: Result<
        (usize, usize),
        LayoutError,
    >)
        requires
            self.wf(),
            id < self.entries@.len(),
            self.entries@[id as int].kind is Struct,
        ensures
            ({
                let fields = self.entries@[id as int].kind->Struct_0@;
                match r {
                    Ok((fty, off)) => {
                        &&& field_lookup(fields, name@) >= 0
                        &&& fty == fields[field_lookup(fields, name@)].ty
                        &&& fty < self.entries@.len()
                        &&& off == sum_packed(self.entries@, fields.take(field_lookup(fields, name@)))
                    },
                    Err(e) => {
                        &&& e == LayoutError::FieldNotFound
                        &&& field_lookup(fields, name@) == -1
                    },
                }
            }),
    {
        let entry = &self.entries[id];
        match &entry.kind {
            TypeKind::Struct(fields) => {
                let ghost fseq = fields@;
                let mut off: usize = 0;
                let mut i: usize = 0;
                let n = fields.len();
                while i < n
                    invariant
                        i <= n,
                        n == fseq.len(),
                        self.wf(),
                        id < self.entries@.len(),
                        self.entries@[id as int].kind is Struct,
                        fseq == self.entries@[id as int].kind->Struct_0@,
                        fseq == fields@,
                        forall|j: int| 0 <= j < i ==> (#[trigger] fseq[j]).name@ != name@,
                        off == sum_packed(self.entries@, fseq.take(i as int)),
                    decreases n - i,
                {
                    if fields[i].name == *name {
                        proof {
                            lemma_field_lookup_prefix(fseq, name@, i as int);
                            assert(TypeRegistry::entry_wf(self.entries@, id as int));
                        }
                        return Ok((fields[i].ty, off));
                    }
                    proof {
                        lemma_sum_packed_take_step(self.entries@, fseq, i as int);
                        lemma_sum_packed_prefix_le(self.entries@, fseq, i + 1);
                        assert(TypeRegistry::entry_wf(self.entries@, id as int));
                        lemma_sum_packed_nonneg(self.entries@, fseq.take(i as int));
                    }
                    let fty = fields[i].ty;
                    off = off + self.entries[fty].packed;
                    i = i + 1;
                }
                proof {
                    lemma_field_lookup_prefix(fseq, name@, n as int);
                }
                Err(LayoutError::FieldNotFound)
            },
            _ => {
                proof {
                    assert(false);
                }
                Err(LayoutError::FieldNotFound)
            },
        }
    }

    /// The read path of derivation: looks the (origin, shape) key up in the
    /// memo table without taking exclusive access, and returns the canonical
    /// descriptor identity when the key was already derived.
    pub fn lookup_derived(&self, origin: usize, shape: &Vec<usize>) -> (r: Option<usize>)
        ensures
            match r {
                Some(id) => shaped_lookup(self.entries@, origin, shape@) == id && id
                    < self.entries@.len() && is_shaped_entry(
                    self.entries@[id as int],
                    origin,
                    shape@,
                ),
                None => shaped_lookup(self.entries@, origin, shape@) == -1,
            },
    {
        let n = self.entries.len();
        let mut i: usize = 0;
        while i < n
            invariant
                i <= n,
                n == self.entries@.len(),
                forall|j: int|
                    0 <= j < i ==> !is_shaped_entry(#[trigger] self.entries@[j], origin, shape@),
            decreases n - i,
        {
            let hit = match &self.entries[i].kind {
                TypeKind::Shaped { origin: o, shape: s } => *o == origin && shape_eq(s, shape),
                _ => false,
            };
            if hit {
                proof {
                    lemma_shaped_lookup_prefix(self.entries@, origin, shape@, i as int);
                }
                return Some(i);
            }
            i = i + 1;
        }
        proof {
            lemma_shaped_lookup_prefix(self.entries@, origin, shape@, n as int);
        }
        None
    }

    /// Derives the shaped-array descriptor for `origin` repeated over
    /// `shape`, memoized on the (origin, shape) key.
    ///
    /// The shape must be non-empty with every dimension at least one, else
    /// the derivation fails with `InvalidShape`. When the key was derived
    /// before, the canonical descriptor identity is returned and the
    /// registry is unchanged; otherwise one descriptor is appended whose
    /// packed size is the origin's packed size times the product of the
    /// dimensions. A packed size beyond the machine's addressable range
    /// fails with `SizeOverflow`.
    pub fn derive(&mut self, origin: usize, shape: Vec<usize>) -> (r: Result<usize, LayoutError>)
        requires
            old(self).wf(),
            origin < old(self).entries@.len(),
        ensures
            final(self).wf(),
            match r {
                Ok(id) => {
                    &&& shape_ok(shape@)
                    &&& id < final(self).entries@.len()
                    &&& is_shaped_entry(final(self).entries@[id as int], origin, shape@)
                    &&& final(self).entries@[id as int].packed == old(self).entries@[origin as int].packed
                        * product_of(shape@)
                    &&& shaped_lookup(final(self).entries@, origin, shape@) == id
                    &&& (forall|i: int|
                        0 <= i < old(self).entries@.len() ==> final(self).entries@[i] == old(
                            self,
                        ).entries@[i])
                    &&& (shaped_lookup(old(self).entries@, origin, shape@) >= 0 ==> final(self).entries@
                        == old(self).entries@ && id == shaped_lookup(
                        old(self).entries@,
                        origin,
                        shape@,
                    ))
                    &&& (shaped_lookup(old(self).entries@, origin, shape@) == -1 ==> id == old(
                        self,
                    ).entries@.len() && final(self).entries@.len() == old(self).entries@.len() + 1)
                },
                Err(e) => {
                    &&& final(self).entries@ == old(self).entries@
                    &&& (e == LayoutError::InvalidShape <==> !shape_ok(shape@))
                    &&& (e == LayoutError::SizeOverflow <==> shape_ok(shape@) && old(
                        self,
                    ).entries@[origin as int].packed * product_of(shape@) > usize::MAX)
                },
            },
            r is Err <==> !shape_ok(shape@) || old(self).entries@[origin as int].packed
                * product_of(shape@) > usize::MAX,
    {
        let ghost entries = self.entries@;
        // Validate the shape: non-empty, every dimension at least one.
        if shape.len() == 0 {
            return Err(LayoutError::InvalidShape);
        }
        let mut i: usize = 0;
        let n = shape.len();
        while i < n
            invariant
                i <= n,
                n == shape@.len(),
                old(self).wf(),
                origin < entries.len(),
                entries == self.entries@,
                entries == old(self).entries@,
                forall|j: int| 0 <= j < i ==> #[trigger] shape@[j] >= 1,
            decreases n - i,
        {
            if shape[i] < 1 {
                return Err(LayoutError::InvalidShape);
            }
            i = i + 1;
        }
        assert(shape_ok(shape@));
        // The key may already be cached: the re-check against the table is
        // what keeps derivation idempotent.
        if let Some(id) = self.lookup_derived(origin, &shape) {
            proof {
                assert(TypeRegistry::entry_wf(self.entries@, id as int));
                lemma_product_bounded_by_stored(self, id as int, origin, shape@);
            }
            return Ok(id);
        }
        // Compute the derived packed size: the origin's packed size times
        // the product of the dimension extents.
        let origin_packed = self.entries[origin].packed;
        let mut packed: usize = origin_packed;
        let mut i: usize = 0;
        while i < n
            invariant
                i <= n,
                n == shape@.len(),
                shape_ok(shape@),
                old(self).wf(),
                origin < entries.len(),
                entries == self.entries@,
                entries == old(self).entries@,
                origin_packed == entries[origin as int].packed,
                shaped_lookup(entries, origin, shape@) == -1,
                packed == origin_packed * product_of(shape@.take(i as int)),
            decreases n - i,
        {
            proof {
                lemma_product_take_step(shape@, i as int);
                lemma_mul_is_associative(
                    origin_packed as int,
                    product_of(shape@.take(i as int)),
                    shape@[i as int] as int,
                );
            }
            match packed.checked_mul(shape[i]) {
                Some(p) => {
                    packed = p;
                },
                None => {
                    proof {
                        lemma_scaled_product_prefix_le(origin_packed as int, shape@, i + 1);
                    }
                    return Err(LayoutError::SizeOverflow);
                },
            }
            i = i + 1;
        }
        proof {
            assert(shape@.take(n as int) =~= shape@);
        }
        // Not cached: append the canonical descriptor for the key.
        let id = self.entries.len();
        proof {
            lemma_shaped_lookup_none(entries, origin, shape@);
        }
        self.entries.push(TypeEntry { kind: TypeKind::Shaped { origin, shape }, packed });
        proof {
            lemma_wf_extended(entries, self.entries@);
            assert(is_shaped_entry(self.entries@[id as int], origin, self.entries@[id as int].kind->shape@));
            lemma_shaped_lookup_prefix(self.entries@, origin, self.entries@[id as int].kind->shape@, id as int);
        }
        Ok(id)
    }
}

/// A stored shaped entry's packed size is a `usize`, so the size its key
/// denotes cannot exceed the machine's addressable range.
proof fn lemma_product_bounded_by_stored(
    reg: &TypeRegistry,
    id: int,
    origin: usize,
    shape: Seq<usize>,
)
    requires
        reg.wf(),
        0 <= id < reg.entries@.len(),
        is_shaped_entry(reg.entries@[id], origin, shape),
    ensures
        reg.entries@[origin as int].packed * product_of(shape) <= usize::MAX,
{
    assert(TypeRegistry::entry_wf(reg.entries@, id));
}

/// Element-wise comparison of two dimension vectors; vectors of different
/// lengths are never equal.
fn shape_eq(a: &Vec<usize>, b: &Vec<usize>) -> (r: bool)
    ensures
        r == (a@ == b@),
{
    if a.len() != b.len() {
        return false;
    }
    let n = a.len();
    let mut i: usize = 0;
    while i < n
        invariant
            i <= n,
            n == a@.len(),
            n == b@.len(),
            forall|j: int| 0 <= j < i ==> a@[j] == b@[j],
        decreases n - i,
    {
        if a[i] != b[i] {
            return false;
        }
        i = i + 1;
    }
    proof {
        assert(a@ =~= b@);
    }
    true
}

/// A found field index is a real index: it lies inside the table and names
/// the matching field.
pub proof fn lemma_field_lookup_valid(fields: Seq<FieldDescriptor>, name: Seq<char>)
    ensures
        field_lookup(fields, name) >= 0 ==> 0 <= field_lookup(fields, name) < fields.len()
            && fields[field_lookup(fields, name)].name@ == name,
    decreases fields.len(),
{
    if fields.len() > 0 && fields[0].name@ != name {
        lemma_field_lookup_valid(fields.drop_first(), name);
    }
}

/// When the first `i` fields do not match a name, the whole-table lookup is
/// decided by what stands at `i`: a match there makes `i` the result, and a
/// table exhausted without a match has no result.
pub proof fn lemma_field_lookup_prefix(fields: Seq<FieldDescriptor>, name: Seq<char>, i: int)
    requires
        0 <= i <= fields.len(),
        forall|j: int| 0 <= j < i ==> (#[trigger] fields[j]).name@ != name,
    ensures
        i < fields.len() && fields[i].name@ == name ==> field_lookup(fields, name) == i,
        i == fields.len() ==> field_lookup(fields, name) == -1,
    decreases fields.len(),
{
    if fields.len() > 0 && i > 0 {
        assert(fields[0].name@ != name);
        let rest = fields.drop_first();
        assert(forall|j: int| 0 <= j < i - 1 ==> (#[trigger] rest[j]).name@ != name);
        lemma_field_lookup_prefix(rest, name, i - 1);
    }
}

/// When the first `i` entries do not carry a key, the whole-table lookup is
/// decided by what stands at `i`: a match there makes `i` the result, and a
/// table exhausted without a match has no result.
pub proof fn lemma_shaped_lookup_prefix(
    entries: Seq<TypeEntry>,
    origin: usize,
    shape: Seq<usize>,
    i: int,
)
    requires
        0 <= i <= entries.len(),
        forall|j: int| 0 <= j < i ==> !is_shaped_entry(#[trigger] entries[j], origin, shape),
    ensures
        i < entries.len() && is_shaped_entry(entries[i], origin, shape) ==> shaped_lookup(
            entries,
            origin,
            shape,
        ) == i,
        i == entries.len() ==> shaped_lookup(entries, origin, shape) == -1,
    decreases entries.len(),
{
    if entries.len() > 0 && i > 0 {
        assert(!is_shaped_entry(entries[0], origin, shape));
        let rest = entries.drop_first();
        assert(forall|j: int| 0 <= j < i - 1 ==> !is_shaped_entry(#[trigger] rest[j], origin, shape));
        lemma_shaped_lookup_prefix(rest, origin, shape, i - 1);
    }
}

/// A key that the lookup does not find is carried by no entry at all.
pub proof fn lemma_shaped_lookup_none(entries: Seq<TypeEntry>, origin: usize, shape: Seq<usize>)
    requires
        shaped_lookup(entries, origin, shape) == -1,
    ensures
        forall|i: int| 0 <= i < entries.len() ==> !is_shaped_entry(#[trigger] entries[i], origin, shape),
    decreases entries.len(),
{
    if entries.len() > 0 {
        lemma_shaped_lookup_none(entries.drop_first(), origin, shape);
        assert forall|i: int| 0 <= i < entries.len() implies !is_shaped_entry(
            #[trigger] entries[i],
            origin,
            shape,
        ) by {
            if i > 0 {
                assert(entries.drop_first()[i - 1] == entries[i]);
            }
        }
    }
}

/// One more dimension extends the product by exactly that dimension.
pub proof fn lemma_product_take_step(shape: Seq<usize>, i: int)
    requires
        0 <= i < shape.len(),
    ensures
        product_of(shape.take(i + 1)) == product_of(shape.take(i)) * shape[i],
{
    assert(shape.take(i + 1).drop_last() =~= shape.take(i));
    assert(shape.take(i + 1).last() == shape[i]);
}

/// The product of a valid shape's dimensions is at least one.
pub proof fn lemma_product_pos(shape: Seq<usize>)
    requires
        forall|j: int| 0 <= j < shape.len() ==> #[trigger] shape[j] >= 1,
    ensures
        product_of(shape) >= 1,
    decreases shape.len(),
{
    if shape.len() > 0 {
        let rest = shape.drop_last();
        assert(forall|j: int| 0 <= j < rest.len() ==> #[trigger] rest[j] >= 1);
        lemma_product_pos(rest);
        lemma_mul_inequality(1, product_of(rest), shape.last() as int);
    }
}

/// Scaling a prefix product never exceeds scaling the whole product, since
/// every dimension is at least one.
pub proof fn lemma_scaled_product_prefix_le(p: int, shape: Seq<usize>, i: int)
    requires
        p >= 0,
        forall|j: int| 0 <= j < shape.len() ==> #[trigger] shape[j] >= 1,
        0 <= i <= shape.len(),
    ensures
        p * product_of(shape.take(i)) <= p * product_of(shape),
    decreases shape.len() - i,
{
    if i == shape.len() {
        assert(shape.take(i) =~= shape);
    } else {
        lemma_product_take_step(shape, i);
        let prefix = product_of(shape.take(i));
        let d = shape[i] as int;
        assert(prefix >= 1) by {
            let t = shape.take(i);
            assert(forall|j: int| 0 <= j < t.len() ==> #[trigger] t[j] >= 1);
            lemma_product_pos(t);
        }
        assert(p * prefix <= p * (prefix * d)) by {
            lemma_mul_left_inequality(prefix, 1, d);
            lemma_mul_inequality(prefix, prefix * d, p);
            lemma_mul_is_commutative(prefix, p);
            lemma_mul_is_commutative(prefix * d, p);
        }
        lemma_scaled_product_prefix_le(p, shape, i + 1);
    }
}

/// The registry holds at most one shaped descriptor per (origin, shape)
/// key: two entries carrying the same key are the same entry. Together with
/// the contract of [`TypeRegistry::derive`] this makes derivation canonical,
/// and it is what the re-check under an exclusive lock preserves.
pub proof fn lemma_canonical_derivation(
    reg: TypeRegistry,
    i: int,
    j: int,
    origin: usize,
    shape: Seq<usize>,
)
    requires
        reg.wf(),
        0 <= i < reg.entries@.len(),
        0 <= j < reg.entries@.len(),
        is_shaped_entry(reg.entries@[i], origin, shape),
        is_shaped_entry(reg.entries@[j], origin, shape),
    ensures
        i == j,
{
}

} // verus!
