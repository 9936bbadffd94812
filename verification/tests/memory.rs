use wasmi::memory::{memory_type, IndexType, MemoryError, MemoryType};

#[test]
fn subtyping_works() {
    assert!(memory_type(0, 1).is_subtype_of(&memory_type(0, 1)));
    assert!(memory_type(0, 1).is_subtype_of(&memory_type(0, 2)));
    assert!(!memory_type(0, 2).is_subtype_of(&memory_type(0, 1)));
    assert!(memory_type(2, None).is_subtype_of(&memory_type(1, None)));
    assert!(memory_type(0, None).is_subtype_of(&memory_type(0, None)));
    assert!(memory_type(0, 1).is_subtype_of(&memory_type(0, None)));
    assert!(!memory_type(0, None).is_subtype_of(&memory_type(0, 1)));
}

#[test]
fn subtyping_is_reflexive_and_transitive() {
    let a = memory_type(3, 4);
    let b = memory_type(2, 5);
    let c = memory_type(1, None);
    assert!(a.is_subtype_of(&a));
    assert!(a.is_subtype_of(&b));
    assert!(b.is_subtype_of(&c));
    assert!(a.is_subtype_of(&c));
    assert!(!c.is_subtype_of(&a));
}

#[test]
fn subtyping_requires_same_index_type_and_page_size() {
    let mut b = MemoryType::builder();
    b.min(1);
    b.memory64(true);
    let m64 = b.build().unwrap();
    assert!(!m64.is_subtype_of(&memory_type(1, None)));
    assert!(!memory_type(1, None).is_subtype_of(&m64));
    let mut b = MemoryType::builder();
    b.min(1);
    b.page_size_log2(0);
    let tiny = b.build().unwrap();
    assert!(!tiny.is_subtype_of(&memory_type(1, None)));
}

#[test]
fn builder_defaults_to_32_bit_64_kib_pages() {
    let t = MemoryType::builder().build().unwrap();
    assert_eq!(t.minimum(), 0);
    assert_eq!(t.maximum(), None);
    assert_eq!(t.index_ty(), IndexType::I32);
    assert!(!t.is_64());
    assert_eq!(t.page_size_log2, 16);
}

#[test]
fn builder_rejects_minimum_above_maximum() {
    let mut b = MemoryType::builder();
    b.min(2);
    b.max(Some(1));
    assert_eq!(b.build(), Err(MemoryError::InvalidMemoryType));
}

#[test]
fn builder_rejects_limits_beyond_the_address_space() {
    let mut b = MemoryType::builder();
    b.min(0x1_0001);
    assert_eq!(b.build(), Err(MemoryError::InvalidMemoryType));
    let mut b = MemoryType::builder();
    b.max(Some(0x1_0001));
    assert_eq!(b.build(), Err(MemoryError::InvalidMemoryType));
    let mut b = MemoryType::builder();
    b.max(Some(0x1_0000));
    assert!(b.build().is_ok());
    let mut b = MemoryType::builder();
    b.memory64(true);
    b.max(Some(0x1_0000_0000_0000));
    assert!(b.build().is_ok());
    let mut b = MemoryType::builder();
    b.memory64(true);
    b.max(Some(0x1_0000_0000_0001));
    assert_eq!(b.build(), Err(MemoryError::InvalidMemoryType));
}

#[test]
fn builder_rejects_unsupported_page_sizes() {
    let mut b = MemoryType::builder();
    b.page_size_log2(12);
    assert_eq!(b.build(), Err(MemoryError::InvalidMemoryType));
    let mut b = MemoryType::builder();
    b.page_size_log2(0);
    b.max(Some(0xffff_ffff));
    assert!(b.build().is_ok());
}

#[test]
fn index_type_minimum() {
    assert_eq!(IndexType::I64.min(&IndexType::I64), IndexType::I64);
    assert_eq!(IndexType::I64.min(&IndexType::I32), IndexType::I32);
    assert_eq!(IndexType::I32.min(&IndexType::I64), IndexType::I32);
}
