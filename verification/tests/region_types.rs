use alloc_compose::region::raw::{RawIntrusiveRegion, RawRegion};
use alloc_compose::region::{IntrusiveRegion, Region, SharedRegion};
use alloc_compose::{AllocRef, AllocateAll, Layout, Memory, MemoryBlock, Owns};

const BASE: usize = 0x10000;

#[test]
fn stack_region_allocates_from_the_end() {
    let mut mem = Memory::new(BASE, vec![1; 32]);
    let mut region = Region::new(MemoryBlock { ptr: BASE, len: 32 });
    assert_eq!(region.capacity(), 32);
    assert!(region.is_empty());

    let block = region.allocate(&mut mem, Layout::new::<[u8; 8]>()).unwrap();
    assert_eq!(block, MemoryBlock { ptr: BASE + 24, len: 8 });
    assert_eq!(region.capacity_left(), 24);
    assert!(region.owns(block));

    // Deallocating has no effect.
    region.deallocate(&mut mem, block.ptr, Layout::new::<[u8; 8]>());
    assert_eq!(region.capacity_left(), 24);

    let rest = region.allocate_all_zeroed(&mut mem).unwrap();
    assert_eq!(rest, MemoryBlock { ptr: BASE, len: 24 });
    assert!(region.is_full());
    assert_eq!(mem.read_range(BASE, 24), vec![0; 24]);
    assert_eq!(mem.read_range(BASE + 24, 8), vec![1; 8]);

    region.deallocate_all(&mut mem);
    assert!(region.is_empty());
}

#[test]
fn stack_region_fails_when_full() {
    let mut mem = Memory::new(BASE, vec![0; 16]);
    let mut region = Region::new(MemoryBlock { ptr: BASE, len: 16 });
    assert!(region.allocate(&mut mem, Layout::new::<[u8; 17]>()).is_err());
    region.allocate(&mut mem, Layout::new::<[u8; 16]>()).unwrap();
    assert!(region.allocate(&mut mem, Layout::new::<u8>()).is_err());
}

#[test]
fn stack_region_aligns_blocks() {
    let mut mem = Memory::new(BASE, vec![0; 64]);
    let mut region = Region::new(MemoryBlock { ptr: BASE, len: 64 });
    region.allocate(&mut mem, Layout::from_size_align(3, 1).unwrap()).unwrap();
    let block = region.allocate(&mut mem, Layout::from_size_align(8, 8).unwrap()).unwrap();
    assert_eq!(block.ptr % 8, 0);
    assert_eq!(block.ptr, BASE + 48);
    assert_eq!(block.len, 13);
}

#[test]
fn shared_region_behaves_like_a_region() {
    let mut mem = Memory::new(BASE, vec![0; 32]);
    let mut region = SharedRegion::new(MemoryBlock { ptr: BASE, len: 32 });
    let block = region.allocate(&mut mem, Layout::new::<[u8; 4]>()).unwrap();
    assert_eq!(block, MemoryBlock { ptr: BASE + 28, len: 4 });
    assert_eq!(region.capacity_left(), 28);
    region.deallocate_all(&mut mem);
    assert_eq!(region.capacity_left(), 32);
}

#[test]
fn intrusive_region_stores_its_position() {
    let mut mem = Memory::new(BASE, vec![0; 64]);
    let mut region = IntrusiveRegion::new(&mut mem, MemoryBlock { ptr: BASE, len: 64 });
    let slot = BASE + 56;
    assert_eq!(region.capacity(), 56);
    let read_position = |mem: &Memory| {
        let bytes = mem.read_range(slot, 8);
        let mut array = [0u8; 8];
        array.copy_from_slice(&bytes);
        u64::from_le_bytes(array) as usize
    };
    assert_eq!(read_position(&mem), slot);

    let block = region.allocate(&mut mem, Layout::new::<[u8; 8]>()).unwrap();
    assert_eq!(block, MemoryBlock { ptr: BASE + 48, len: 8 });
    assert_eq!(read_position(&mem), BASE + 48);

    region.allocate_all(&mut mem).unwrap();
    assert_eq!(read_position(&mem), BASE);
    assert!(region.is_full());

    region.deallocate_all(&mut mem);
    assert_eq!(read_position(&mem), slot);
    assert!(region.is_empty());
}

#[test]
fn raw_regions_compare_by_memory() {
    let a = RawRegion::new(MemoryBlock { ptr: BASE, len: 32 });
    let b = RawRegion::new(MemoryBlock { ptr: BASE, len: 32 });
    let c = RawRegion::new(MemoryBlock { ptr: BASE, len: 16 });
    assert!(a == b);
    assert!(!(a == c));
    let region = Region::new(MemoryBlock { ptr: BASE, len: 32 });
    assert!(region == a);
    assert!(a == region);
}

#[test]
fn raw_intrusive_region_cannot_resize() {
    let mut mem = Memory::new(BASE, vec![0; 64]);
    let mut region = RawIntrusiveRegion::new(&mut mem, MemoryBlock { ptr: BASE, len: 64 });
    let block = region.allocate(&mut mem, Layout::new::<[u8; 8]>()).unwrap();
    assert!(region
        .grow(&mut mem, block.ptr, Layout::new::<[u8; 8]>(), Layout::new::<[u8; 16]>())
        .is_err());
    assert!(region
        .shrink(&mut mem, block.ptr, Layout::new::<[u8; 8]>(), Layout::new::<[u8; 4]>())
        .is_err());
}
