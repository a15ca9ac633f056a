use alloc_compose::{
    AllocInit, AllocRef, AllocateAll, Layout, Memory, MemoryBlock, Null, NullAlloc, Owns,
};

fn memory() -> Memory {
    Memory::new(0x1000, vec![0; 16])
}

#[test]
fn null_alloc() {
    let mut mem = memory();
    assert!(Null.allocate(&mut mem, Layout::new::<u32>()).is_err());
    assert!(Null.allocate_zeroed(&mut mem, Layout::new::<u32>()).is_err());
    assert!(Null.allocate_all(&mut mem).is_err());
    assert!(Null.allocate_all_zeroed(&mut mem).is_err());
    assert_eq!(Null.capacity(), 0);
    assert_eq!(Null.capacity_left(), 0);
    Null.deallocate_all(&mut mem);
}

#[test]
fn null_owns() {
    assert!(!Null.owns(MemoryBlock { ptr: 1, len: 0 }));
}

#[test]
fn null_debug() {
    assert_eq!(format!("{:?}", Null), "Null");
}

#[test]
fn null_zero_sized_fails() {
    let mut mem = memory();
    assert!(Null.allocate(&mut mem, Layout::new::<()>()).is_err());
    assert_eq!(mem.read_range(0x1000, 16), vec![0; 16]);
}

#[test]
fn null_alloc_alloc() {
    assert!(NullAlloc.allocate(Layout::new::<u32>(), AllocInit::Uninitialized).is_err());
    assert!(NullAlloc.allocate(Layout::new::<()>(), AllocInit::Zeroed).is_err());
}

#[test]
fn null_alloc_owns() {
    assert!(!NullAlloc.owns(MemoryBlock { ptr: 1, len: 0 }));
}

#[test]
fn null_alloc_debug() {
    assert_eq!(format!("{:?}", NullAlloc), "NullAlloc");
}
