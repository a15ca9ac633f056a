use alloc_compose::{
    AllocRef, Chunk, ChunkAlloc, Fallback, FallbackAlloc, Layout, Memory, MemoryBlock, Owns,
    MemoryMarker, ReallocInPlace, Region,
};

#[test]
fn fallback_owns() {
    let mut mem = Memory::new(0x1000, vec![0; 96]);
    let mut alloc = Fallback {
        primary: Region::new(MemoryBlock { ptr: 0x1000, len: 32 }),
        secondary: Region::new(MemoryBlock { ptr: 0x1020, len: 64 }),
    };

    let memory = alloc
        .allocate(&mut mem, Layout::new::<[u8; 32]>())
        .expect("Could not allocate 32 bytes");
    assert!(alloc.primary.owns(memory));
    assert!(alloc.owns(memory));

    let memory = alloc
        .allocate(&mut mem, Layout::new::<[u8; 64]>())
        .expect("Could not allocate 64 bytes");
    assert!(alloc.secondary.owns(memory));
    assert!(alloc.owns(memory));
}

#[test]
fn fallback_alloc() {
    let mut mem = Memory::new(0x1000, vec![0; 32 + 1024]);
    let mut alloc = Fallback {
        primary: Region::new(MemoryBlock { ptr: 0x1000, len: 32 }),
        secondary: Region::new(MemoryBlock { ptr: 0x1020, len: 1024 }),
    };

    let small_memory = alloc
        .allocate(&mut mem, Layout::new::<u32>())
        .expect("Could not allocate 4 bytes");
    let big_memory = alloc
        .allocate(&mut mem, Layout::new::<[u8; 64]>())
        .expect("Could not allocate 64 bytes");

    assert!(alloc.primary.owns(small_memory));
    assert!(!alloc.primary.owns(big_memory));
    alloc.deallocate(&mut mem, small_memory.ptr, Layout::new::<u32>());
    alloc.deallocate(&mut mem, big_memory.ptr, Layout::new::<[u8; 64]>());
}

#[test]
fn fallback_grow() {
    let mut mem = Memory::new(0x1000, vec![0; 80 + 1024]);
    let mut alloc = Fallback {
        primary: Chunk::<Region, 64>(Region::new(MemoryBlock { ptr: 0x1000, len: 80 })),
        secondary: Region::new(MemoryBlock { ptr: 0x1000 + 80, len: 1024 }),
    };

    let memory = alloc
        .allocate(&mut mem, Layout::new::<[u8; 32]>())
        .expect("Could not allocate 4 bytes");
    assert!(alloc.primary.owns(memory));

    let memory = alloc
        .grow(&mut mem, memory.ptr, Layout::new::<[u8; 32]>(), Layout::new::<[u8; 64]>())
        .expect("Could not grow to 64 bytes");
    assert!(alloc.primary.owns(memory));
    assert_eq!(memory.len, 64);

    let memory = alloc
        .grow(&mut mem, memory.ptr, Layout::new::<[u8; 64]>(), Layout::new::<[u8; 128]>())
        .expect("Could not grow to 128 bytes");
    assert!(!alloc.primary.owns(memory));

    alloc.deallocate(&mut mem, memory.ptr, Layout::new::<[u8; 128]>());
}

#[test]
fn fallback_shrink() {
    let mut mem = Memory::new(0x1000, vec![0; 80 + 1024]);
    let mut alloc = Fallback {
        primary: Chunk::<Region, 64>(Region::new(MemoryBlock { ptr: 0x1000, len: 80 })),
        secondary: Region::new(MemoryBlock { ptr: 0x1000 + 80, len: 1024 }),
    };

    let memory = alloc
        .allocate(&mut mem, Layout::new::<[u8; 64]>())
        .expect("Could not allocate 64 bytes");
    assert!(alloc.primary.owns(memory));

    let memory = alloc
        .shrink(&mut mem, memory.ptr, Layout::new::<[u8; 64]>(), Layout::new::<[u8; 32]>())
        .expect("Could not shrink to 32 bytes");
    assert!(alloc.primary.owns(memory));

    let memory = alloc
        .grow(&mut mem, memory.ptr, Layout::new::<[u8; 32]>(), Layout::new::<[u8; 128]>())
        .expect("Could not grow to 128 bytes");
    assert!(!alloc.primary.owns(memory));

    let memory = alloc
        .shrink(&mut mem, memory.ptr, Layout::new::<[u8; 128]>(), Layout::new::<[u8; 96]>())
        .expect("Could not shrink to 96 bytes");
    assert!(!alloc.primary.owns(memory));

    alloc.deallocate(&mut mem, memory.ptr, Layout::new::<[u8; 96]>());
}

#[test]
fn fallback_alloc_moves_on_failure() {
    // FallbackAlloc serves a request its primary allocator cannot serve with its fallback.
    let mut mem = Memory::new(0x1000, vec![0; 96]);
    let mut alloc = FallbackAlloc {
        primary: Region::new(MemoryBlock { ptr: 0x1000, len: 32 }),
        fallback: Region::new(MemoryBlock { ptr: 0x1020, len: 64 }),
    };
    let memory = alloc.allocate(&mut mem, Layout::new::<[u8; 48]>()).unwrap();
    assert!(alloc.fallback.owns(memory));
    assert!(!alloc.primary.owns(memory));
    assert!(alloc.owns(memory));
}

#[test]
fn fallback_grow_copies_bytes() {
    let mut mem = Memory::new(0x1000, vec![0; 16 + 64]);
    let mut alloc = Fallback {
        primary: Region::new(MemoryBlock { ptr: 0x1000, len: 16 }),
        secondary: Region::new(MemoryBlock { ptr: 0x1010, len: 64 }),
    };
    let memory = alloc.allocate(&mut mem, Layout::new::<[u8; 8]>()).unwrap();
    mem.write_range(memory.ptr, &[1, 2, 3, 4, 5, 6, 7, 8]);
    let grown = alloc
        .grow(&mut mem, memory.ptr, Layout::new::<[u8; 8]>(), Layout::new::<[u8; 32]>())
        .unwrap();
    assert!(alloc.secondary.owns(grown));
    assert_eq!(mem.read_range(grown.ptr, 8), vec![1, 2, 3, 4, 5, 6, 7, 8]);
}

#[test]
fn fallback_alloc_resizes_in_place_with_the_owner() {
    let mut mem = Memory::new(0x1000, vec![0; 384]);
    let mut alloc = FallbackAlloc {
        primary: ChunkAlloc::<_, 64>(Region::new(MemoryBlock { ptr: 0x1000, len: 128 })),
        fallback: ChunkAlloc::<_, 64>(Region::new(MemoryBlock { ptr: 0x1080, len: 256 })),
    };
    let layout = Layout::from_size_align(10, 1).unwrap();
    let memory = alloc.allocate(&mut mem, layout).expect("Could not allocate 10 bytes");
    assert!(alloc.primary.owns(memory));

    let len = alloc
        .grow_in_place(&mut mem, memory.ptr, layout, Layout::from_size_align(40, 1).unwrap())
        .expect("Could not grow inside the chunk");
    assert_eq!(len, 64);
    alloc
        .grow_in_place(&mut mem, memory.ptr, layout, Layout::from_size_align(100, 1).unwrap())
        .expect_err("Could grow past the chunk in place");
    let len = alloc
        .shrink_in_place(&mut mem, memory.ptr, layout, Layout::from_size_align(5, 1).unwrap())
        .expect("Could not shrink inside the chunk");
    assert_eq!(len, 64);
    assert!(alloc.primary.owns(memory));
}

#[test]
fn fallback_grow_moves_the_bytes_to_the_secondary() {
    let mut mem = Memory::new(0x1000, vec![0; 96]);
    let mut alloc = Fallback {
        primary: MemoryMarker(Region::new(MemoryBlock { ptr: 0x1000, len: 32 })),
        secondary: Region::new(MemoryBlock { ptr: 0x1020, len: 64 }),
    };
    let layout = Layout::from_size_align(8, 1).unwrap();
    let memory = alloc.allocate(&mut mem, layout).expect("Could not allocate 8 bytes");
    assert!(alloc.primary.owns(memory));
    mem.write_range(memory.ptr, &[1, 2, 3, 4, 5, 6, 7, 8]);

    let grown = alloc
        .grow_zeroed(&mut mem, memory.ptr, layout, Layout::from_size_align(40, 1).unwrap())
        .expect("Could not grow to 40 bytes");
    assert!(alloc.secondary.owns(grown));
    assert_eq!(mem.read_range(grown.ptr, 8), vec![1, 2, 3, 4, 5, 6, 7, 8]);
    assert_eq!(mem.read_range(grown.ptr + 8, 32), vec![0; 32]);
    // The primary took the old block back, marking it.
    assert_eq!(mem.read_range(memory.ptr, 8), vec![0xDD; 8]);
}
