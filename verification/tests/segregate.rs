use alloc_compose::{
    AllocAll, AllocInit, AllocRef, Layout, Memory, MemoryBlock, Owns, ReallocPlacement, Region,
    Segregate, SegregateAlloc,
};

const BASE: usize = 0x10000;

fn segregate() -> (Memory, Segregate<Region, Region, 32>) {
    let mem = Memory::new(BASE, vec![0; 256]);
    let alloc: Segregate<_, _, 32> = Segregate {
        small: Region::new(MemoryBlock { ptr: BASE, len: 128 }),
        large: Region::new(MemoryBlock { ptr: BASE + 128, len: 128 }),
    };
    (mem, alloc)
}

#[test]
fn segregate_alloc() {
    let (mut mem, mut alloc) = segregate();

    assert_eq!(alloc.capacity(), 256);
    assert_eq!(alloc.capacity_left(), alloc.capacity());

    let memory = alloc
        .allocate(&mut mem, Layout::new::<[u8; 4]>())
        .expect("Could not allocate 4 bytes");
    assert_eq!(memory.len, 4);
    assert!(alloc.small.owns(memory));

    alloc.deallocate(&mut mem, memory.ptr, Layout::new::<[u8; 4]>());
    assert!(!alloc.owns(memory));

    let memory = alloc
        .allocate(&mut mem, Layout::new::<[u8; 32]>())
        .expect("Could not allocate 32 bytes");
    assert_eq!(memory.len, 32);
    assert!(alloc.small.owns(memory));

    assert_eq!(alloc.capacity(), 256);
    assert_eq!(alloc.capacity_left(), alloc.capacity() - 32);

    let memory = alloc
        .allocate(&mut mem, Layout::new::<[u8; 33]>())
        .expect("Could not allocate 33 bytes");
    assert_eq!(memory.len, 33);
    assert!(alloc.large.owns(memory));

    assert_eq!(alloc.capacity(), 256);
    assert_eq!(alloc.capacity_left(), alloc.capacity() - 32 - 33);

    alloc.deallocate(&mut mem, memory.ptr, Layout::new::<[u8; 33]>());
    assert_eq!(alloc.capacity_left(), alloc.capacity() - 32);

    alloc.dealloc_all(&mut mem);
    assert_eq!(alloc.capacity(), alloc.capacity_left());

    let memory = alloc
        .alloc_all(&mut mem, Layout::new::<[u8; 4]>())
        .expect("Could not allocate 4 bytes");
    assert!(alloc.small.owns(memory));
    assert_eq!(memory.len, 32);

    assert_eq!(alloc.capacity(), 256);
    assert_eq!(alloc.capacity_left(), 128);

    let memory = alloc
        .alloc_all(&mut mem, Layout::new::<[u8; 33]>())
        .expect("Could not allocate 33 bytes");
    assert!(alloc.large.owns(memory));
    assert_eq!(memory.len, 128);

    assert_eq!(alloc.capacity(), 256);
    assert_eq!(alloc.capacity_left(), 0);

    alloc.dealloc_all(&mut mem);

    assert_eq!(alloc.capacity_left(), alloc.capacity());
}

#[test]
fn segregate_realloc() {
    let (mut mem, mut alloc) = segregate();

    let memory = alloc.allocate(&mut mem, Layout::new::<[u8; 8]>()).unwrap();
    assert_eq!(memory.len, 8);
    assert!(alloc.small.owns(memory));
    assert!(alloc.owns(memory));

    let memory = alloc
        .grow(&mut mem, memory.ptr, Layout::new::<[u8; 8]>(), Layout::new::<[u8; 16]>())
        .unwrap();
    assert_eq!(memory.len, 16);
    assert!(alloc.small.owns(memory));
    assert!(alloc.owns(memory));

    let memory = alloc
        .grow(&mut mem, memory.ptr, Layout::new::<[u8; 8]>(), Layout::new::<[u8; 32]>())
        .unwrap();
    assert_eq!(memory.len, 32);
    assert!(alloc.small.owns(memory));
    assert!(alloc.owns(memory));

    let memory = alloc
        .grow(&mut mem, memory.ptr, Layout::new::<[u8; 32]>(), Layout::new::<[u8; 33]>())
        .unwrap();
    assert_eq!(memory.len, 33);
    assert!(!alloc.small.owns(memory));
    assert!(alloc.large.owns(memory));
    assert!(alloc.owns(memory));

    let memory = alloc
        .grow(&mut mem, memory.ptr, Layout::new::<[u8; 33]>(), Layout::new::<[u8; 64]>())
        .unwrap();
    assert_eq!(memory.len, 64);
    assert!(!alloc.small.owns(memory));
    assert!(alloc.large.owns(memory));
    assert!(alloc.owns(memory));
}

#[test]
fn segregate_small_blocks_are_cut_to_threshold() {
    let (mut mem, mut alloc) = segregate();
    let memory = alloc.alloc_all(&mut mem, Layout::new::<u8>()).unwrap();
    assert_eq!(memory.len, 32);
}

#[test]
fn segregate_shrink_moves_to_small() {
    let (mut mem, mut alloc) = segregate();
    let memory = alloc.allocate(&mut mem, Layout::new::<[u8; 64]>()).unwrap();
    mem.write_range(memory.ptr, &[7; 64]);
    assert!(alloc.large.owns(memory));
    let memory = alloc
        .shrink(&mut mem, memory.ptr, Layout::new::<[u8; 64]>(), Layout::new::<[u8; 16]>())
        .unwrap();
    assert!(alloc.small.owns(memory));
    assert_eq!(mem.read_range(memory.ptr, 16), vec![7; 16]);
}

#[test]
fn segregate_alloc_reports_what_small_allocated() {
    let mut mem = Memory::new(0x1000, vec![0; 320]);
    let mut alloc = SegregateAlloc::new(
        32,
        Region::new(MemoryBlock { ptr: 0x1000, len: 64 }),
        Region::new(MemoryBlock { ptr: 0x1040, len: 256 }),
    );
    assert_eq!(alloc.threshold(), 32);
    let small = alloc
        .allocate(&mut mem, Layout::new::<[u8; 8]>(), AllocInit::Uninitialized)
        .expect("Could not allocate 8 bytes");
    // The small region hands out 8 bytes; the block is not reported any larger.
    assert_eq!(small.len, 8);
    assert!(alloc.small.owns(small));
    let large = alloc
        .allocate(&mut mem, Layout::new::<[u8; 64]>(), AllocInit::Zeroed)
        .expect("Could not allocate 64 bytes");
    assert_eq!(large.len, 64);
    assert!(alloc.large.owns(large));

    mem.write_range(small.ptr, &[1, 2, 3, 4, 5, 6, 7, 8]);
    let grown = alloc
        .grow(&mut mem, small.ptr, Layout::new::<[u8; 8]>(), 48, ReallocPlacement::MayMove, AllocInit::Uninitialized)
        .expect("Could not grow to 48 bytes");
    assert!(alloc.large.owns(grown));
    assert_eq!(mem.read_range(grown.ptr, 8), vec![1, 2, 3, 4, 5, 6, 7, 8]);
}
