use alloc_compose::{
    AllocRef, Chunk, ChunkAlloc, Layout, Memory, MemoryBlock, ReallocInPlace, Region,
};

const BASE: usize = 0x10000;

fn chunk_region(len: usize) -> (Memory, Chunk<Region, 64>) {
    let mem = Memory::new(BASE, vec![0; len]);
    (mem, Chunk::<_, 64>(Region::new(MemoryBlock { ptr: BASE, len })))
}

fn chunk_alloc_region(len: usize) -> (Memory, ChunkAlloc<Region, 64>) {
    let mem = Memory::new(BASE, vec![0; len]);
    (mem, ChunkAlloc::<_, 64>(Region::new(MemoryBlock { ptr: BASE, len })))
}

#[test]
fn chunk_alloc() {
    let (mut mem, mut alloc) = chunk_region(1024);
    let memory = alloc
        .allocate(&mut mem, Layout::new::<[u8; 2]>())
        .expect("Could not allocate 64 bytes");
    assert_eq!(memory.len % 64, 0);
    assert!(memory.len >= 64);

    alloc.deallocate(&mut mem, memory.ptr, Layout::new::<u8>());
}

#[test]
fn chunk_dealloc() {
    let (mut mem, mut alloc) = chunk_region(1024);

    let memory = alloc
        .allocate(&mut mem, Layout::new::<[u8; 4]>())
        .expect("Could not allocate 4 bytes");
    assert_eq!(memory.len % 64, 0);
    alloc.deallocate(&mut mem, memory.ptr, Layout::new::<[u8; 4]>());

    let memory = alloc
        .allocate(&mut mem, Layout::new::<[u8; 8]>())
        .expect("Could not allocate 8 bytes");
    assert_eq!(memory.len % 64, 0);
    alloc.deallocate(&mut mem, memory.ptr, Layout::new::<[u8; 8]>());

    let memory = alloc
        .allocate(&mut mem, Layout::new::<[u8; 32]>())
        .expect("Could not allocate 32 bytes");
    assert_eq!(memory.len % 64, 0);
    alloc.deallocate(&mut mem, memory.ptr, Layout::new::<[u8; 32]>());

    let memory = alloc
        .allocate(&mut mem, Layout::new::<[u8; 64]>())
        .expect("Could not allocate 64 bytes");
    assert_eq!(memory.len % 64, 0);
    alloc.deallocate(&mut mem, memory.ptr, Layout::new::<[u8; 64]>());
}

#[test]
fn chunk_grow() {
    let (mut mem, mut alloc) = chunk_region(1024);

    let memory = alloc
        .allocate(&mut mem, Layout::new::<[u8; 4]>())
        .expect("Could not allocate 4 bytes");
    assert_eq!(memory.len % 64, 0);

    let len = alloc
        .grow_in_place(&mut mem, memory.ptr, Layout::new::<[u8; 4]>(), Layout::new::<[u8; 64]>())
        .expect("Could not grow to 8 bytes");
    assert_eq!(len % 64, 0);
    assert!(len >= 64);

    let len = alloc
        .grow_in_place(&mut mem, memory.ptr, Layout::new::<[u8; 8]>(), Layout::new::<[u8; 64]>())
        .expect("Could not grow to 64 bytes");
    assert_eq!(len % 64, 0);
    assert!(len >= 64);

    alloc
        .grow_in_place(&mut mem, memory.ptr, Layout::new::<[u8; 64]>(), Layout::new::<[u8; 65]>())
        .expect_err("Could grow to 65 bytes in place");

    let memory = alloc
        .grow(&mut mem, memory.ptr, Layout::new::<[u8; 64]>(), Layout::new::<[u8; 65]>())
        .expect("Could not grow to 65 bytes");

    alloc.deallocate(&mut mem, memory.ptr, Layout::new::<[u8; 65]>());
}

#[test]
fn chunk_shrink() {
    let (mut mem, mut alloc) = chunk_region(1024);

    let memory = alloc
        .allocate(&mut mem, Layout::new::<[u8; 128]>())
        .expect("Could not allocate 128 bytes");
    assert_eq!(memory.len % 64, 0);

    let len = alloc
        .shrink_in_place(&mut mem, memory.ptr, Layout::new::<[u8; 128]>(), Layout::new::<[u8; 100]>())
        .expect("Could not shrink to 100 bytes");
    assert_eq!(len % 64, 0);
    assert!(len >= 128);

    let len = alloc
        .shrink_in_place(&mut mem, memory.ptr, Layout::new::<[u8; 100]>(), Layout::new::<[u8; 65]>())
        .expect("Could not shrink to 65 bytes");
    assert_eq!(len % 64, 0);
    assert!(len >= 128);

    alloc
        .shrink_in_place(&mut mem, memory.ptr, Layout::new::<[u8; 65]>(), Layout::new::<[u8; 64]>())
        .expect_err("Could shrink to 64 bytes in place");

    let memory = alloc
        .shrink(&mut mem, memory.ptr, Layout::new::<[u8; 128]>(), Layout::new::<[u8; 64]>())
        .expect("Could not shrink to 64 bytes");

    alloc.deallocate(&mut mem, memory.ptr, Layout::new::<[u8; 64]>());
}

#[test]
fn chunk_alloc_alloc() {
    let (mut mem, mut alloc) = chunk_alloc_region(1024);
    let memory = alloc
        .allocate(&mut mem, Layout::new::<u8>())
        .expect("Could not allocate 64 bytes");
    assert_eq!(memory.len % 64, 0);
    assert!(memory.len >= 64);

    alloc.deallocate(&mut mem, memory.ptr, Layout::new::<u8>());
}

#[test]
fn chunk_alloc_dealloc() {
    let (mut mem, mut alloc) = chunk_alloc_region(1024);

    let memory = alloc
        .allocate(&mut mem, Layout::new::<[u8; 4]>())
        .expect("Could not allocate 4 bytes");
    assert_eq!(memory.len % 64, 0);
    alloc.deallocate(&mut mem, memory.ptr, Layout::new::<[u8; 4]>());

    let memory = alloc
        .allocate(&mut mem, Layout::new::<[u8; 4]>())
        .expect("Could not allocate 4 bytes");
    assert_eq!(memory.len % 64, 0);
    alloc.deallocate(&mut mem, memory.ptr, Layout::new::<[u8; 32]>());

    let memory = alloc
        .allocate(&mut mem, Layout::new::<[u8; 4]>())
        .expect("Could not allocate 4 bytes");
    assert_eq!(memory.len % 64, 0);
    alloc.deallocate(&mut mem, memory.ptr, Layout::new::<[u8; 64]>());

    let memory = alloc
        .allocate(&mut mem, Layout::new::<[u8; 4]>())
        .expect("Could not allocate 4 bytes");
    assert_eq!(memory.len % 64, 0);
    alloc.deallocate(&mut mem, memory.ptr, Layout::new::<[u8; 64]>());
}

#[test]
fn chunk_alloc_grow() {
    // The region holds a single chunk, so the block cannot grow beyond it in place.
    let (mut mem, mut alloc) = chunk_alloc_region(64);

    let memory = alloc
        .allocate(&mut mem, Layout::new::<[u8; 4]>())
        .expect("Could not allocate 4 bytes");
    assert_eq!(memory.len % 64, 0);

    let len = alloc
        .grow_in_place(&mut mem, memory.ptr, Layout::new::<[u8; 4]>(), Layout::new::<[u8; 8]>())
        .expect("Could not grow to 8 bytes");
    assert_eq!(len % 64, 0);
    assert!(len >= 64);

    let len = alloc
        .grow_in_place(&mut mem, memory.ptr, Layout::new::<[u8; 8]>(), Layout::new::<[u8; 64]>())
        .expect("Could not grow to 64 bytes");
    assert_eq!(len % 64, 0);
    assert!(len >= 64);

    alloc
        .grow_in_place(&mut mem, memory.ptr, Layout::new::<[u8; 64]>(), Layout::new::<[u8; 65]>())
        .expect_err("Could grow to 65 bytes in place");

    alloc.deallocate(&mut mem, memory.ptr, Layout::new::<[u8; 64]>());
}

#[test]
fn chunk_alloc_shrink() {
    let (mut mem, mut alloc) = chunk_alloc_region(1024);

    let memory = alloc
        .allocate(&mut mem, Layout::new::<[u8; 128]>())
        .expect("Could not allocate 128 bytes");
    assert_eq!(memory.len % 64, 0);
    // Another block after it keeps the inner region from shrinking it in place.
    alloc.0.allocate(&mut mem, Layout::new::<[u8; 8]>()).unwrap();

    let len = alloc
        .shrink_in_place(&mut mem, memory.ptr, Layout::new::<[u8; 128]>(), Layout::new::<[u8; 100]>())
        .expect("Could not shrink to 100 bytes");
    assert_eq!(len % 64, 0);
    assert!(len >= 128);

    let len = alloc
        .shrink_in_place(&mut mem, memory.ptr, Layout::new::<[u8; 100]>(), Layout::new::<[u8; 65]>())
        .expect("Could not shrink to 65 bytes");
    assert_eq!(len % 64, 0);
    assert!(len >= 128);

    alloc
        .shrink_in_place(&mut mem, memory.ptr, Layout::new::<[u8; 65]>(), Layout::new::<[u8; 64]>())
        .expect_err("Could shrink to 64 bytes in place");

    alloc.deallocate(&mut mem, memory.ptr, Layout::new::<[u8; 65]>());
}

#[test]
fn chunk_alloc_rounds_request() {
    let (mut mem, mut alloc) = chunk_alloc_region(1024);
    let memory = alloc.allocate(&mut mem, Layout::new::<[u8; 65]>()).unwrap();
    assert_eq!(memory.len, 128);
}

#[test]
fn chunk_alloc_overflowing_request_fails() {
    let (mut mem, mut alloc) = chunk_alloc_region(64);
    let layout = Layout::from_size_align(usize::MAX / 2, 1).unwrap();
    assert!(alloc.allocate(&mut mem, layout).is_err());
}

#[test]
fn chunk_shrink_hands_the_chunk_size_to_the_inner_allocator() {
    let (mut mem, mut alloc) = chunk_region(256);
    let memory = alloc
        .allocate(&mut mem, Layout::new::<[u8; 100]>())
        .expect("Could not allocate 100 bytes");
    assert_eq!(memory.ptr, BASE + 128);
    assert_eq!(memory.len, 128);

    let shrunk = alloc
        .shrink(&mut mem, memory.ptr, Layout::new::<[u8; 100]>(), Layout::new::<[u8; 10]>())
        .expect("Could not shrink to 10 bytes");
    // The inner region sees its 128-byte block shrink to 64 bytes, which keeps the block's end.
    assert_eq!(shrunk.ptr, BASE + 192);
    assert_eq!(shrunk.len, 64);
}
