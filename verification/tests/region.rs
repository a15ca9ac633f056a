use alloc_compose::{AllocAll, AllocRef, Layout, Memory, MemoryBlock, Owns, ReallocInPlace, Region};

const BASE: usize = 0x1000;

fn setup(len: usize, fill: u8) -> (Memory, Region) {
    let mem = Memory::new(BASE, vec![fill; len]);
    let region = Region::new(MemoryBlock { ptr: BASE, len });
    (mem, region)
}

#[test]
fn alloc_zero() {
    let (mut mem, mut region) = setup(32, 1);

    assert_eq!(region.capacity(), 32);
    assert!(region.is_empty());

    region
        .allocate(&mut mem, Layout::new::<[u8; 0]>())
        .expect("Could not allocated 0 bytes");
    assert!(region.is_empty());

    assert_eq!(mem.read_range(BASE, 32), vec![1; 32]);
}

#[test]
fn alloc_zeroed() {
    let (mut mem, mut region) = setup(32, 1);

    assert_eq!(region.capacity(), 32);
    assert!(region.is_empty());

    region
        .allocate_zeroed(&mut mem, Layout::new::<[u8; 32]>())
        .expect("Could not allocated 32 bytes");
    assert!(!region.is_empty());

    assert_eq!(mem.read_range(BASE, 32), vec![0; 32]);
}

#[test]
fn alloc_all() {
    let (mut mem, mut region) = setup(32, 1);

    assert_eq!(region.capacity(), 32);
    assert!(region.is_empty());

    let ptr = region
        .allocate(&mut mem, Layout::new::<u8>())
        .expect("Could not allocated 1 byte");
    assert_eq!(ptr.len, 1);
    assert_eq!(region.capacity_left(), 31);

    let ptr = region
        .alloc_all_zeroed(&mut mem, Layout::new::<[u8; 4]>())
        .expect("Could not allocated 4 bytes");
    assert_eq!(ptr.len, 31);
    assert!(region.is_full());

    region.dealloc_all(&mut mem);
    assert!(region.is_empty());

    region
        .allocate(&mut mem, Layout::new::<[u8; 16]>())
        .expect("Could not allocate 16 bytes");
    region
        .alloc_all(&mut mem, Layout::new::<[u8; 17]>())
        .expect_err("Could allocate more than 32 bytes");
}

#[test]
fn alloc_small() {
    let (mut mem, mut region) = setup(32, 1);

    assert_eq!(region.capacity(), 32);
    assert_eq!(region.capacity(), region.capacity_left());

    region
        .allocate_zeroed(&mut mem, Layout::new::<[u8; 16]>())
        .expect("Could not allocated 16 bytes");
    assert_eq!(region.capacity_left(), 16);

    assert_eq!(mem.read_range(BASE, 16), vec![1; 16]);
    assert_eq!(mem.read_range(BASE + 16, 16), vec![0; 16]);
}

#[test]
fn alloc_uninitialzed() {
    let (mut mem, mut region) = setup(32, 1);

    region
        .allocate(&mut mem, Layout::new::<[u8; 32]>())
        .expect("Could not allocated 32 bytes");
    assert_eq!(region.capacity_left(), 0);

    assert_eq!(mem.read_range(BASE, 32), vec![1; 32]);
}

#[test]
fn alloc_fail() {
    let (mut mem, mut region) = setup(32, 1);

    region
        .allocate(&mut mem, Layout::new::<[u8; 33]>())
        .expect_err("Could allocate 33 bytes");
}

#[test]
fn alloc_aligned() {
    // A block of 1024 bytes aligned to 64.
    let base = 64 * 1024;
    assert_eq!(base % 64, 0);
    let mut mem = Memory::new(base, vec![0; 1024]);
    let mut region = Region::new(MemoryBlock { ptr: base, len: 1024 });

    region
        .allocate(&mut mem, Layout::from_size_align(5, 1).expect("Invalid layout"))
        .expect("Could not allocate 5 Bytes");

    let memory = region
        .allocate(&mut mem, Layout::from_size_align(16, 16).expect("Invalid layout"))
        .expect("Could not allocate 16 Bytes");
    assert_eq!(memory.ptr % 16, 0);
}

#[test]
fn region_dealloc() {
    let (mut mem, mut region) = setup(32, 1);
    let layout = Layout::from_size_align(8, 1).expect("Invalid layout");

    let memory = region.allocate(&mut mem, layout).expect("Could not allocate 8 bytes");
    assert!(region.owns(memory));
    assert_eq!(region.capacity_left(), 24);

    region.deallocate(&mut mem, memory.ptr, layout);
    assert_eq!(region.capacity_left(), 32);
    assert!(!region.owns(memory));

    let memory = region.allocate(&mut mem, layout).expect("Could not allocate 8 bytes");
    assert!(region.owns(memory));
    region.allocate(&mut mem, layout).expect("Could not allocate 8 bytes");
    assert!(region.owns(memory));
    assert_eq!(memory.len, 8);
    assert_eq!(region.capacity_left(), 16);

    region.deallocate(&mut mem, memory.ptr, layout);
    // It is not possible to deallocate memory that was not allocated last.
    assert!(region.owns(memory));
    assert_eq!(region.capacity_left(), 16);
}

#[test]
fn region_realloc() {
    let (mut mem, mut region) = setup(32, 1);
    let layout = Layout::from_size_align(8, 1).expect("Invalid layout");

    let memory = region.allocate(&mut mem, layout).expect("Could not allocate 8 bytes");
    assert_eq!(memory.len, 8);
    assert_eq!(region.capacity_left(), 24);

    region.allocate(&mut mem, layout).expect("Could not allocate 8 bytes");
    assert_eq!(region.capacity_left(), 16);

    let memory = region
        .grow(&mut mem, memory.ptr, layout, Layout::from_size_align(16, 1).unwrap())
        .expect("Could not grow to 16 bytes");
    assert_eq!(memory.len, 16);
    assert_eq!(region.capacity_left(), 0);

    region.dealloc_all(&mut mem);
    let memory = region
        .allocate_zeroed(&mut mem, Layout::new::<[u8; 16]>())
        .expect("Could not allocate 16 bytes");
    region
        .allocate(&mut mem, Layout::new::<[u8; 8]>())
        .expect("Could not allocate 16 bytes");

    region
        .shrink(&mut mem, memory.ptr, Layout::new::<[u8; 16]>(), Layout::new::<[u8; 8]>())
        .expect("Could not shrink to 8 bytes");
}

#[test]
fn region_debug() {
    let test_output = |region: &Region| {
        assert_eq!(
            region.debug_string(),
            format!(
                "Region {{ capacity: {}, capacity_left: {} }}",
                region.capacity(),
                region.capacity_left()
            )
        )
    };

    let (mut mem, mut region) = setup(32, 1);
    test_output(&region);

    region
        .allocate(&mut mem, Layout::new::<[u8; 16]>())
        .expect("Could not allocate 16 bytes");
    test_output(&region);

    region
        .allocate(&mut mem, Layout::new::<[u8; 16]>())
        .expect("Could not allocate 16 bytes");
    test_output(&region);

    region.dealloc_all(&mut mem);
    test_output(&region);
}

#[test]
fn region_debug_text() {
    let (mut mem, mut region) = setup(32, 1);
    assert_eq!(region.debug_string(), "Region { capacity: 32, capacity_left: 32 }");
    region
        .allocate(&mut mem, Layout::new::<[u8; 12]>())
        .expect("Could not allocate 12 bytes");
    assert_eq!(region.debug_string(), "Region { capacity: 32, capacity_left: 20 }");
}

#[test]
fn region_grow_moves_earlier_block() {
    // Growing a block that is not the last one copies it to a new block.
    let (mut mem, mut region) = setup(32, 0);
    let layout = Layout::from_size_align(4, 1).unwrap();
    let first = region.allocate(&mut mem, layout).unwrap();
    mem.write_range(first.ptr, &[1, 2, 3, 4]);
    region.allocate(&mut mem, layout).unwrap();
    let grown = region
        .grow(&mut mem, first.ptr, layout, Layout::from_size_align(8, 1).unwrap())
        .unwrap();
    assert_ne!(grown.ptr, first.ptr);
    assert_eq!(mem.read_range(grown.ptr, 4), vec![1, 2, 3, 4]);
}

#[test]
fn region_shrink_keeps_prefix() {
    let (mut mem, mut region) = setup(32, 0);
    let layout = Layout::from_size_align(8, 1).unwrap();
    let block = region.allocate(&mut mem, layout).unwrap();
    mem.write_range(block.ptr, &[1, 2, 3, 4, 5, 6, 7, 8]);
    let small = region
        .shrink(&mut mem, block.ptr, layout, Layout::from_size_align(4, 1).unwrap())
        .unwrap();
    assert!(small.len >= 4);
    assert_eq!(mem.read_range(small.ptr, 4), vec![1, 2, 3, 4]);
}

#[test]
fn region_alloc_all_takes_an_exact_fit() {
    let (mut mem, mut region) = setup(32, 1);
    let block = region
        .alloc_all(&mut mem, Layout::new::<[u8; 32]>())
        .expect("Could not allocate all 32 bytes");
    assert_eq!(block.ptr, BASE);
    assert_eq!(block.len, 32);
    assert!(region.is_full());
    region
        .alloc_all(&mut mem, Layout::new::<[u8; 0]>())
        .expect_err("Could allocate from a full region");
}

#[test]
fn region_grow_in_place_keeps_the_last_block() {
    let (mut mem, mut region) = setup(32, 0);
    let layout = Layout::from_size_align(8, 1).unwrap();
    let block = region.allocate(&mut mem, layout).unwrap();
    mem.write_range(block.ptr, &[1, 2, 3, 4, 5, 6, 7, 8]);
    region
        .grow_in_place(&mut mem, block.ptr, layout, Layout::from_size_align(16, 1).unwrap())
        .expect_err("Could grow the last block in place");
    assert_eq!(region.capacity_left(), 24);
    assert_eq!(mem.read_range(block.ptr, 8), vec![1, 2, 3, 4, 5, 6, 7, 8]);
}

#[test]
fn region_shrink_in_place_only_where_the_block_stays() {
    let (mut mem, mut region) = setup(32, 0);
    let layout = Layout::from_size_align(8, 4).unwrap();
    let block = region.allocate(&mut mem, layout).unwrap();
    // Shrinking by less than the alignment leaves the block where it is.
    let len = region
        .shrink_in_place(&mut mem, block.ptr, layout, Layout::from_size_align(6, 4).unwrap())
        .expect("Could not shrink in place");
    assert_eq!(len, 8);
    assert_eq!(region.capacity_left(), 24);
    // Shrinking by the alignment or more would move the block.
    region
        .shrink_in_place(&mut mem, block.ptr, layout, Layout::from_size_align(4, 4).unwrap())
        .expect_err("Could shrink the last block in place by moving it");
    assert_eq!(region.capacity_left(), 24);
}
