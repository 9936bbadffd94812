//! Linear memory types: their limits, their validation and the subtyping
//! relation used when a memory is imported.
use vstd::prelude::*;

verus! {

/// The index type of a linear memory or table: 32-bit or 64-bit addressing.
#[derive(Clone, Copy, Debug, PartialEq, Eq, Structural)]
pub enum IndexType {
    I32,
    I64,
}

impl IndexType {
    /// Returns `true` for 64-bit addressing.
    pub fn is_64(&self) -> (r: bool)
        ensures
            r == (*self == IndexType::I64),
    {
        match self {
            IndexType::I32 => false,
            IndexType::I64 => true,
        }
    }

    /// The smaller of two index types: `i32` if either of them is `i32`.
    pub fn min(&self, other: &IndexType) -> (r: IndexType)
        ensures
            r == (if *self == IndexType::I64 && *other == IndexType::I64 {
                IndexType::I64
            } else {
                IndexType::I32
            }),
    {
        match (self, other) {
            (IndexType::I64, IndexType::I64) => IndexType::I64,
            _ => IndexType::I32,
        }
    }
}

/// Errors that can occur when building a memory type.
#[derive(Clone, Copy, Debug, PartialEq, Eq, Structural)]
pub enum MemoryError {
    /// The limits or the page size of a memory type are invalid.
    InvalidMemoryType,
}

/// The default page size of a linear memory is 64 KiB (`2^16` bytes).
pub const DEFAULT_PAGE_SIZE_LOG2: u8 = 16;

/// The type of a linear memory: its limits in pages, its page size and its
/// index type.
#[derive(Clone, Copy, Debug, PartialEq, Eq, Structural)]
pub struct MemoryType {
    pub minimum: u64,
    pub maximum: Option<u64>,
    pub page_size_log2: u8,
    pub index_type: IndexType,
}

/// The number of bits of the address space of an index type.
pub open spec fn address_bits(index_type: IndexType) -> nat {
    match index_type {
        IndexType::I32 => 32,
        IndexType::I64 => 64,
    }
}

/// The largest number of pages that a memory of the given index type and
/// page size can have: the size of its address space divided by the page size.
pub open spec fn absolute_max_pages(index_type: IndexType, page_size_log2: u8) -> int {
    vstd::arithmetic::power2::pow2(address_bits(index_type)) as int
        / page_size_bytes(page_size_log2)
}

/// The size of a page in bytes.
pub open spec fn page_size_bytes(page_size_log2: u8) -> int {
    vstd::arithmetic::power2::pow2(page_size_log2 as nat) as int
}

/// A memory type is valid if its page size is either one byte or 64 KiB,
/// its minimum does not exceed its maximum, and neither limit exceeds the
/// number of pages that its address space can hold.
pub open spec fn valid_memory_type(t: MemoryType) -> bool {
    &&& (t.page_size_log2 == 0 || t.page_size_log2 == DEFAULT_PAGE_SIZE_LOG2)
    &&& t.minimum <= absolute_max_pages(t.index_type, t.page_size_log2)
    &&& match t.maximum {
        Some(max) => t.minimum <= max && max <= absolute_max_pages(t.index_type, t.page_size_log2),
        None => true,
    }
}

/// The subtyping relation of memory types: `a` may stand where `b` is
/// expected if both agree on index type and page size, `a` has at least the
/// minimum of `b`, and `a` has a maximum no larger than that of `b` whenever
/// `b` has a maximum.
pub open spec fn spec_is_subtype_of(a: MemoryType, b: MemoryType) -> bool {
    &&& a.index_type == b.index_type
    &&& a.page_size_log2 == b.page_size_log2
    &&& a.minimum >= b.minimum
    &&& match (a.maximum, b.maximum) {
        (_, None) => true,
        (Some(max_a), Some(max_b)) => max_a <= max_b,
        (None, Some(_)) => false,
    }
}

/// The largest page count of an index type and a page size that the
/// library accepts, computed without overflow.
fn absolute_max_pages_exec(index_type: IndexType, page_size_log2: u8) -> (r: u128)
    requires
        page_size_log2 == 0 || page_size_log2 == DEFAULT_PAGE_SIZE_LOG2,
    ensures
        r == absolute_max_pages(index_type, page_size_log2),
{
    proof {
        lemma_absolute_max_pages();
    }
    let is_64 = index_type.is_64();
    if !is_64 && page_size_log2 == 0 {
        0x1_0000_0000u128
    } else if !is_64 {
        0x1_0000u128
    } else if page_size_log2 == 0 {
        0x1_0000_0000_0000_0000u128
    } else {
        0x1_0000_0000_0000u128
    }
}

/// The page limits of the two index types for the two valid page sizes.
pub proof fn lemma_absolute_max_pages()
    ensures
        absolute_max_pages(IndexType::I32, 0) == 0x1_0000_0000,
        absolute_max_pages(IndexType::I32, DEFAULT_PAGE_SIZE_LOG2) == 0x1_0000,
        absolute_max_pages(IndexType::I64, 0) == 0x1_0000_0000_0000_0000,
        absolute_max_pages(IndexType::I64, DEFAULT_PAGE_SIZE_LOG2) == 0x1_0000_0000_0000,
{
    vstd::arithmetic::power2::lemma2_to64();
    vstd::arithmetic::power2::lemma2_to64_rest();
    assert(address_bits(IndexType::I32) == 32);
    assert(address_bits(IndexType::I64) == 64);
    assert(page_size_bytes(0) == 1);
    assert(page_size_bytes(16) == 0x1_0000);
    assert(0x1_0000_0000int / 0x1_0000int == 0x1_0000int);
    assert(0x1_0000_0000_0000_0000int / 0x1_0000int == 0x1_0000_0000_0000int);
}

impl MemoryType {
    /// Starts building a memory type: no minimum, no maximum, 64 KiB pages
    /// and 32-bit addressing.
    pub fn builder() -> (b: MemoryTypeBuilder)
        ensures
            b.inner == (MemoryType {
                minimum: 0,
                maximum: None,
                page_size_log2: DEFAULT_PAGE_SIZE_LOG2,
                index_type: IndexType::I32,
            }),
    {
        MemoryTypeBuilder {
            inner: MemoryType {
                minimum: 0,
                maximum: None,
                page_size_log2: DEFAULT_PAGE_SIZE_LOG2,
                index_type: IndexType::I32,
            },
        }
    }

    /// The minimum number of pages.
    pub fn minimum(&self) -> (r: u64)
        ensures
            r == self.minimum,
    {
        self.minimum
    }

    /// The maximum number of pages, if any.
    pub fn maximum(&self) -> (r: Option<u64>)
        ensures
            r == self.maximum,
    {
        self.maximum
    }

    /// The index type of the memory.
    pub fn index_ty(&self) -> (r: IndexType)
        ensures
            r == self.index_type,
    {
        self.index_type
    }

    /// Returns `true` if the memory uses 64-bit addressing.
    pub fn is_64(&self) -> (r: bool)
        ensures
            r == (self.index_type == IndexType::I64),
    {
        self.index_type.is_64()
    }

    /// Returns `true` if `self` may be used where a memory of type `other`
    /// is expected (the import subtyping rule of Wasm).
    pub fn is_subtype_of(&self, other: &MemoryType) -> (r: bool)
        ensures
            r == spec_is_subtype_of(*self, *other),
    {
        if self.is_64() != other.is_64() {
            return false;
        }
        if self.page_size_log2 != other.page_size_log2 {
            return false;
        }
        if self.minimum < other.minimum {
            return false;
        }
        match (self.maximum, other.maximum) {
            (_, None) => true,
            (Some(max), Some(other_max)) => max <= other_max,
            _ => false,
        }
    }
}

/// Builds a [`MemoryType`] and checks its limits.
pub struct MemoryTypeBuilder {
    pub inner: MemoryType,
}

impl MemoryTypeBuilder {
    /// Sets the minimum number of pages.
    pub fn min(&mut self, minimum: u64)
        ensures
            final(self).inner == (MemoryType { minimum, ..old(self).inner }),
    {
        self.inner.minimum = minimum;
    }

    /// Sets the maximum number of pages; `None` leaves the memory unbounded.
    pub fn max(&mut self, maximum: Option<u64>)
        ensures
            final(self).inner == (MemoryType { maximum, ..old(self).inner }),
    {
        self.inner.maximum = maximum;
    }

    /// Selects 64-bit (`true`) or 32-bit (`false`) addressing.
    pub fn memory64(&mut self, memory64: bool)
        ensures
            final(self).inner == (MemoryType {
                index_type: if memory64 { IndexType::I64 } else { IndexType::I32 },
                ..old(self).inner
            }),
    {
        self.inner.index_type = if memory64 { IndexType::I64 } else { IndexType::I32 };
    }

    /// Sets the page size as a power of two.
    pub fn page_size_log2(&mut self, page_size_log2: u8)
        ensures
            final(self).inner == (MemoryType { page_size_log2, ..old(self).inner }),
    {
        self.inner.page_size_log2 = page_size_log2;
    }

    /// Finishes the memory type, or reports that its limits or page size
    /// are invalid.
    pub fn build(self) -> (r: Result<MemoryType, MemoryError>)
        ensures
            valid_memory_type(self.inner) ==> r == Ok::<MemoryType, MemoryError>(self.inner),
            !valid_memory_type(self.inner) ==> r == Err::<MemoryType, MemoryError>(
                MemoryError::InvalidMemoryType,
            ),
    {
        let t = self.inner;
        if t.page_size_log2 != 0 && t.page_size_log2 != DEFAULT_PAGE_SIZE_LOG2 {
            return Err(MemoryError::InvalidMemoryType);
        }
        let absolute_max = absolute_max_pages_exec(t.index_type, t.page_size_log2);
        if t.minimum as u128 > absolute_max {
            return Err(MemoryError::InvalidMemoryType);
        }
        match t.maximum {
            Some(max) => {
                if t.minimum > max || max as u128 > absolute_max {
                    return Err(MemoryError::InvalidMemoryType);
                }
            },
            None => {},
        }
        Ok(t)
    }
}

/// A value that can stand for the maximum of a memory type: a page count or
/// an optional page count.
pub trait IntoMaximum {
    spec fn spec_maximum(&self) -> Option<u32>;

    fn into_maximum(self) -> (r: Option<u32>)
        ensures
            r == self.spec_maximum(),
    ;
}

impl IntoMaximum for u32 {
    open spec fn spec_maximum(&self) -> Option<u32> {
        Some(*self)
    }

    fn into_maximum(self) -> (r: Option<u32>) {
        Some(self)
    }
}

impl IntoMaximum for Option<u32> {
    open spec fn spec_maximum(&self) -> Option<u32> {
        *self
    }

    fn into_maximum(self) -> (r: Option<u32>) {
        self
    }
}

/// Builds the 32-bit memory type with the given limits in 64 KiB pages.
pub fn memory_type<M: IntoMaximum>(minimum: u32, maximum: M) -> (t: MemoryType)
    requires
        match maximum.spec_maximum() {
            Some(max) => minimum <= max && max <= 0x1_0000,
            None => minimum <= 0x1_0000,
        },
    ensures
        t == (MemoryType {
            minimum: minimum as u64,
            maximum: match maximum.spec_maximum() {
                Some(max) => Some(max as u64),
                None => None,
            },
            page_size_log2: DEFAULT_PAGE_SIZE_LOG2,
            index_type: IndexType::I32,
        }),
{
    let mut b = MemoryType::builder();
    b.min(minimum as u64);
    let max = match maximum.into_maximum() {
        Some(max) => Some(max as u64),
        None => None,
    };
    b.max(max);
    proof {
        lemma_absolute_max_pages();
    }
    match b.build() {
        Ok(t) => t,
        Err(_) => {
            proof {
                assert(false);
            }
            MemoryType::builder().inner
        },
    }
}

/// Memory subtyping is reflexive: every memory type is a subtype of itself.
pub proof fn lemma_subtype_reflexive(a: MemoryType)
    ensures
        spec_is_subtype_of(a, a),
{
}

/// Memory subtyping is transitive.
pub proof fn lemma_subtype_transitive(a: MemoryType, b: MemoryType, c: MemoryType)
    requires
        spec_is_subtype_of(a, b),
        spec_is_subtype_of(b, c),
    ensures
        spec_is_subtype_of(a, c),
{
}

/// Subtyping never allows a smaller minimum or a larger maximum: a subtype
/// of `b` with a maximum lies entirely within the limits of `b`.
pub proof fn lemma_subtype_limits(a: MemoryType, b: MemoryType)
    requires
        spec_is_subtype_of(a, b),
    ensures
        a.minimum >= b.minimum,
        b.maximum is Some ==> a.maximum is Some && a.maximum->0 <= b.maximum->0,
{
}

/// Memory subtyping is antisymmetric: two memory types that are subtypes
/// of each other are the same.
pub proof fn lemma_subtype_antisymmetric(a: MemoryType, b: MemoryType)
    requires
        spec_is_subtype_of(a, b),
        spec_is_subtype_of(b, a),
    ensures
        a == b,
{
}

/// A valid memory type fits its address space: at its minimum, and at its
/// maximum when it has one, its size in bytes does not exceed the size of
/// the address space.
pub proof fn lemma_valid_memory_fits(t: MemoryType)
    requires
        valid_memory_type(t),
    ensures
        t.minimum * page_size_bytes(t.page_size_log2) <= vstd::arithmetic::power2::pow2(address_bits(t.index_type)),
        t.maximum matches Some(max) ==> max * page_size_bytes(t.page_size_log2) <= vstd::arithmetic::power2::pow2(
            address_bits(t.index_type),
        ),
{
    lemma_absolute_max_pages();
    vstd::arithmetic::power2::lemma2_to64();
    vstd::arithmetic::power2::lemma2_to64_rest();
    assert(page_size_bytes(0) == 1);
    assert(page_size_bytes(16) == 0x1_0000);
    assert(vstd::arithmetic::power2::pow2(32) == 0x1_0000_0000);
    assert(vstd::arithmetic::power2::pow2(64) == 0x1_0000_0000_0000_0000);
    let p = page_size_bytes(t.page_size_log2);
    let m = t.minimum as int;
    if t.index_type == IndexType::I32 {
        if t.page_size_log2 == 0 {
            assert(m * p <= 0x1_0000_0000 * 1) by (nonlinear_arith) requires m <= 0x1_0000_0000, p == 1;
        } else {
            assert(m * p <= 0x1_0000 * 0x1_0000) by (nonlinear_arith) requires m <= 0x1_0000, p == 0x1_0000;
        }
    } else {
        if t.page_size_log2 == 0 {
            assert(m * p <= 0x1_0000_0000_0000_0000 * 1) by (nonlinear_arith) requires m <= 0x1_0000_0000_0000_0000, p == 1;
        } else {
            assert(m * p <= 0x1_0000_0000_0000 * 0x1_0000) by (nonlinear_arith) requires m <= 0x1_0000_0000_0000, p == 0x1_0000;
        }
    }
    if let Some(max) = t.maximum {
        let x = max as int;
        if t.index_type == IndexType::I32 {
            if t.page_size_log2 == 0 {
                assert(x * p <= 0x1_0000_0000 * 1) by (nonlinear_arith) requires x <= 0x1_0000_0000, p == 1;
            } else {
                assert(x * p <= 0x1_0000 * 0x1_0000) by (nonlinear_arith) requires x <= 0x1_0000, p == 0x1_0000;
            }
        } else {
            if t.page_size_log2 == 0 {
                assert(x * p <= 0x1_0000_0000_0000_0000 * 1) by (nonlinear_arith) requires x <= 0x1_0000_0000_0000_0000, p == 1;
            } else {
                assert(x * p <= 0x1_0000_0000_0000 * 0x1_0000) by (nonlinear_arith) requires x <= 0x1_0000_0000_0000, p == 0x1_0000;
            }
        }
    }
}

} // verus!
