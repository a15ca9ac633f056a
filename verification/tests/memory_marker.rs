use alloc_compose::{AllocRef, Layout, Memory, MemoryBlock, MemoryMarker, Region};

const BASE: usize = 0x10000;

fn marker(len: usize) -> (Memory, MemoryMarker<Region>) {
    let mem = Memory::new(BASE, vec![0; len]);
    (mem, MemoryMarker(Region::new(MemoryBlock { ptr: BASE, len })))
}

#[test]
fn memory_marker_alloc() {
    let (mut mem, mut alloc) = marker(64);
    let memory = alloc
        .allocate(&mut mem, Layout::new::<u64>())
        .expect("Could not allocate 8 bytes");
    assert_eq!(mem.read_range(memory.ptr, memory.len), vec![0xCD; 8]);
    alloc.deallocate(&mut mem, memory.ptr, Layout::new::<u64>());

    let memory = alloc
        .allocate_zeroed(&mut mem, Layout::new::<u64>())
        .expect("Could not allocate 8 bytes");
    assert_eq!(mem.read_range(memory.ptr, memory.len), vec![0; 8]);
    alloc.deallocate(&mut mem, memory.ptr, Layout::new::<u64>());
}

#[test]
fn memory_marker_dealloc() {
    let (mut mem, mut alloc) = marker(8);
    let memory = alloc
        .allocate(&mut mem, Layout::new::<[u8; 8]>())
        .expect("Could not allocate 8 bytes");
    assert_eq!(mem.read_range(memory.ptr, memory.len), vec![0xCD; 8]);
    alloc.deallocate(&mut mem, memory.ptr, Layout::new::<[u8; 8]>());
    assert_eq!(mem.read_range(BASE, 8), vec![0xDD; 8]);
}

#[test]
fn memory_marker_grow() {
    let (mut mem, mut alloc) = marker(128);
    let memory = alloc
        .allocate_zeroed(&mut mem, Layout::new::<[u64; 4]>())
        .expect("Could not allocate 32 bytes");
    let memory = alloc
        .grow(&mut mem, memory.ptr, Layout::new::<[u64; 4]>(), Layout::new::<[u64; 8]>())
        .expect("Could not grow to 64 bytes");
    assert_eq!(mem.read_range(memory.ptr, 32), vec![0; 32]);
    assert_eq!(mem.read_range(memory.ptr + 32, 32), vec![0xCD; 32]);
    alloc.deallocate(&mut mem, memory.ptr, Layout::new::<[u64; 8]>());
}

#[test]
fn memory_marker_shrink() {
    let (mut mem, mut alloc) = marker(8);
    let memory = alloc
        .allocate_zeroed(&mut mem, Layout::new::<[u8; 8]>())
        .expect("Could not allocate 8 bytes");
    let shrunk = alloc
        .shrink(&mut mem, memory.ptr, Layout::new::<[u8; 8]>(), Layout::new::<[u8; 4]>())
        .expect("Could not shrink to 4 bytes");
    // The region moves the last block up to keep its end; the marks are written before the
    // move, so the shrunk block keeps the block's first bytes.
    assert_eq!(shrunk.ptr, BASE + 4);
    assert_eq!(mem.read_range(shrunk.ptr, 4), vec![0, 0, 0, 0]);
    assert_eq!(mem.read_range(BASE, 8), vec![0; 8]);
}

#[test]
fn memory_marker_shrink_marks_the_released_bytes() {
    let (mut mem, mut alloc) = marker(16);
    let first = alloc
        .allocate_zeroed(&mut mem, Layout::new::<[u8; 8]>())
        .expect("Could not allocate 8 bytes");
    alloc
        .allocate_zeroed(&mut mem, Layout::new::<[u8; 8]>())
        .expect("Could not allocate 8 bytes");
    // Not the last block: it stays where it is, and its released bytes are marked.
    let shrunk = alloc
        .shrink(&mut mem, first.ptr, Layout::new::<[u8; 8]>(), Layout::new::<[u8; 4]>())
        .expect("Could not shrink to 4 bytes");
    assert_eq!(shrunk.ptr, first.ptr);
    assert_eq!(mem.read_range(first.ptr, 8), vec![0, 0, 0, 0, 0xDD, 0xDD, 0xDD, 0xDD]);
}
