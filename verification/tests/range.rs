use fuel_vm::consts::{MEM_SIZE, VM_MAX_RAM};
use fuel_vm::range::MemoryRange;

#[test]
fn test_init() {
    assert_eq!(MemoryRange::try_new(0, 0).unwrap().as_usizes(), 0..0);
    assert_eq!(MemoryRange::try_new(0, 1).unwrap().as_usizes(), 0..1);
    assert_eq!(MemoryRange::try_new(0, 2).unwrap().as_usizes(), 0..2);
    assert_eq!(MemoryRange::try_new(1, 1).unwrap().as_usizes(), 1..2);
    assert_eq!(MemoryRange::try_new(1, 2).unwrap().as_usizes(), 1..3);
    assert_eq!(MemoryRange::try_new(2, 2).unwrap().as_usizes(), 2..4);
    assert_eq!(MemoryRange::try_new(0, VM_MAX_RAM).unwrap().as_usizes(), 0..MEM_SIZE);
    assert_eq!(MemoryRange::try_new(1, VM_MAX_RAM - 1).unwrap().as_usizes(), 1..MEM_SIZE);
    assert_eq!(
        MemoryRange::try_new(VM_MAX_RAM - 1, 0).unwrap().as_usizes(),
        (MEM_SIZE - 1)..(MEM_SIZE - 1)
    );
    assert_eq!(MemoryRange::try_new(VM_MAX_RAM - 1, 1).unwrap().as_usizes(), (MEM_SIZE - 1)..MEM_SIZE);
    assert_eq!(MemoryRange::try_new(VM_MAX_RAM, 0).unwrap().as_usizes(), MEM_SIZE..MEM_SIZE);

    assert!(MemoryRange::try_new(0, VM_MAX_RAM + 1).is_err());
    assert!(MemoryRange::try_new(1, VM_MAX_RAM).is_err());
    assert!(MemoryRange::try_new(2, VM_MAX_RAM).is_err());
    assert!(MemoryRange::try_new(VM_MAX_RAM, VM_MAX_RAM).is_err());
    assert!(MemoryRange::try_new(VM_MAX_RAM, 1).is_err());
    assert!(MemoryRange::try_new(0, u64::MAX).is_err());
    assert!(MemoryRange::try_new(u64::MAX, 0).is_err());
    assert!(MemoryRange::try_new(u64::MAX, u64::MAX).is_err());

    assert!(MemoryRange::try_new_usize(0, usize::MAX).is_err());
    assert!(MemoryRange::try_new_usize(usize::MAX, 0).is_err());
    assert!(MemoryRange::try_new_usize(usize::MAX, usize::MAX).is_err());
}

#[test]
fn test_contains_range() {
    let a = MemoryRange::try_new(0, 10).unwrap();
    let b = MemoryRange::try_new(2, 4).unwrap();
    let c = MemoryRange::try_new(8, 4).unwrap();
    let d = MemoryRange::try_new(10, 10).unwrap();
    let e = MemoryRange::try_new(20, 10).unwrap();

    assert!(a.contains_range(&b));
    assert!(!a.contains_range(&c));
    assert!(!a.contains_range(&d));
    assert!(!a.contains_range(&e));
}

#[test]
fn test_overlap() {
    let a = MemoryRange::try_new(0, 10).unwrap();
    let b = MemoryRange::try_new(5, 10).unwrap();
    let c = MemoryRange::try_new(10, 10).unwrap();

    assert_eq!(a.overlap_with(&b), Some(MemoryRange::try_new(5, 5).unwrap()));
    assert_eq!(a.overlap_with(&c), None);
    assert_eq!(b.overlap_with(&c), Some(MemoryRange::try_new(10, 5).unwrap()));
}

#[test]
fn test_relative_to() {
    let a = MemoryRange::try_new(100, 100).unwrap();
    let b = MemoryRange::try_new(120, 10).unwrap();
    let c = MemoryRange::try_new(195, 10).unwrap();
    let d = MemoryRange::try_new(190, 10).unwrap();
    let e = MemoryRange::try_new(190, 11).unwrap();

    assert_eq!(a.relative_to(&b), None);
    assert_eq!(b.relative_to(&a), Some(MemoryRange::try_new(20, 10).unwrap()));
    assert_eq!(c.relative_to(&a), None);
    assert_eq!(a.relative_to(&b), None);
    assert_eq!(d.relative_to(&a), Some(MemoryRange::try_new(90, 10).unwrap()));
    assert_eq!(e.relative_to(&a), None);
}

#[test]
fn test_subrange() {
    let a = MemoryRange::try_new(100, 100).unwrap();

    assert_eq!(a.subrange(0, 0).unwrap().as_usizes(), 100..100);
    assert_eq!(a.subrange(0, 100).unwrap().as_usizes(), 100..200);
    assert_eq!(a.subrange(10, 20).unwrap().as_usizes(), 110..130);
    assert_eq!(a.subrange(10, 90).unwrap().as_usizes(), 110..200);
    assert!(a.subrange(10, 91).is_none());
    assert!(a.subrange(0, usize::MAX).is_none());
    assert!(a.subrange(usize::MAX, 0).is_none());
    assert!(a.subrange(usize::MAX, usize::MAX).is_none());
}

#[test]
fn test_split_at() {
    let a = MemoryRange::try_new(100, 100).unwrap();

    assert_eq!(
        a.split_at(0),
        Some((MemoryRange::try_new(100, 0).unwrap(), MemoryRange::try_new(100, 100).unwrap()))
    );
    assert_eq!(
        a.split_at(1),
        Some((MemoryRange::try_new(100, 1).unwrap(), MemoryRange::try_new(101, 99).unwrap()))
    );
    assert_eq!(
        a.split_at(50),
        Some((MemoryRange::try_new(100, 50).unwrap(), MemoryRange::try_new(150, 50).unwrap()))
    );
    assert_eq!(
        a.split_at(99),
        Some((MemoryRange::try_new(100, 99).unwrap(), MemoryRange::try_new(199, 1).unwrap()))
    );
    assert_eq!(
        a.split_at(100),
        Some((MemoryRange::try_new(100, 100).unwrap(), MemoryRange::try_new(200, 0).unwrap()))
    );
    assert_eq!(a.split_at(101), None);
    assert_eq!(a.split_at(MEM_SIZE), None);
    assert_eq!(a.split_at(usize::MAX), None);
}

#[test]
fn new_saturates_and_split_at_offset_splits() {
    let r = MemoryRange::new(usize::MAX - 1, 10);
    assert_eq!(r.usizes(), (usize::MAX - 1)..usize::MAX);
    let r = MemoryRange::new(10, 20);
    assert_eq!(r.start(), 10);
    assert_eq!(r.end(), 30);
    assert_eq!(r.len(), 20);
    assert!(!r.is_empty());
    assert!(MemoryRange::new(5, 0).is_empty());
    let (a, b) = r.split_at_offset(5);
    assert_eq!(a.usizes(), 10..15);
    assert_eq!(b.usizes(), 15..30);
    assert_eq!(r.words(), 10u64..30u64);
    assert_eq!(r.as_words(), 10u64..30u64);
}
