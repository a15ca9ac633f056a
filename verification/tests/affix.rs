use alloc_compose::{Affix, AllocRef, Layout, Memory, MemoryBlock, Region};
use std::mem;

const BASE: usize = 0x10000;

fn test_alloc<Prefix, Suffix>(
    prefix: &[u8],
    layout: Layout,
    suffix: &[u8],
    offset_prefix: usize,
    offset_suffix: usize,
) {
    assert_eq!(prefix.len(), mem::size_of::<Prefix>());
    assert_eq!(suffix.len(), mem::size_of::<Suffix>());
    let mut mem = Memory::new(BASE, vec![1; 4096]);
    let mut alloc = Affix::<_, Prefix, Suffix>::new(Region::new(MemoryBlock { ptr: BASE, len: 4096 }));
    let memory = alloc
        .allocate_zeroed(&mut mem, layout)
        .unwrap_or_else(|_| panic!("Could not allocate {} bytes", layout.size()));

    let prefix_at = |ptr: usize, layout: Layout| Affix::<Region, Prefix, Suffix>::prefix(ptr, layout);
    let suffix_at = |ptr: usize, layout: Layout| Affix::<Region, Prefix, Suffix>::suffix(ptr, layout);

    if mem::size_of::<Prefix>() == 0 {
        assert_eq!(prefix_at(memory.ptr, layout), mem::align_of::<Prefix>());
    } else {
        assert_eq!(prefix_at(memory.ptr, layout), memory.ptr - offset_prefix);
    }
    if mem::size_of::<Suffix>() == 0 {
        assert_eq!(suffix_at(memory.ptr, layout), mem::align_of::<Suffix>());
    } else {
        assert_eq!(suffix_at(memory.ptr, layout), memory.ptr + offset_suffix);
    }

    if !prefix.is_empty() {
        mem.write_range(prefix_at(memory.ptr, layout), prefix);
    }
    if !suffix.is_empty() {
        mem.write_range(suffix_at(memory.ptr, layout), suffix);
    }
    let read_prefix = |mem: &Memory, ptr: usize, layout: Layout| {
        if prefix.is_empty() { Vec::new() } else { mem.read_range(prefix_at(ptr, layout), prefix.len()) }
    };
    let read_suffix = |mem: &Memory, ptr: usize, layout: Layout| {
        if suffix.is_empty() { Vec::new() } else { mem.read_range(suffix_at(ptr, layout), suffix.len()) }
    };

    assert_eq!(read_prefix(&mem, memory.ptr, layout), prefix);
    assert_eq!(read_suffix(&mem, memory.ptr, layout), suffix);

    let old_size = memory.len;
    let new_layout = Layout::from_size_align(memory.len * 2, layout.align()).expect("Invalid layout");
    let memory = alloc
        .grow_zeroed(&mut mem, memory.ptr, layout, new_layout)
        .expect("Could not grow allocation");
    let layout = Layout::from_size_align(memory.len, layout.align()).expect("Invalid layout");

    for i in old_size..memory.len {
        assert_eq!(mem.read(memory.ptr + i), 0);
    }

    assert_eq!(read_prefix(&mem, memory.ptr, layout), prefix);
    assert_eq!(read_suffix(&mem, memory.ptr, layout), suffix);

    let memory = alloc
        .shrink(&mut mem, memory.ptr, layout, layout)
        .expect("Could not shrink allocation");
    let layout = Layout::from_size_align(memory.len, layout.align()).expect("Invalid layout");

    assert_eq!(read_prefix(&mem, memory.ptr, layout), prefix);
    assert_eq!(read_suffix(&mem, memory.ptr, layout), suffix);

    alloc.deallocate(&mut mem, memory.ptr, layout);
}

#[test]
fn test_alloc_u16_u32_u16() {
    test_alloc::<u16, u16>(&0xDEDEu16.to_ne_bytes(), Layout::new::<u32>(), &0xEFEFu16.to_ne_bytes(), 4, 4)
}

#[test]
fn test_alloc_zst_u32_zst() {
    test_alloc::<(), ()>(&[], Layout::new::<u32>(), &[], 0, 0)
}

#[test]
fn test_alloc_zst_u32_u16() {
    test_alloc::<(), u16>(&[], Layout::new::<u32>(), &0xEFEFu16.to_ne_bytes(), 0, 4)
}

#[test]
fn test_alloc_u16_u64_zst() {
    test_alloc::<u16, ()>(&0xDEDEu16.to_ne_bytes(), Layout::new::<u32>(), &[], 4, 0)
}

#[test]
fn affix_offsets_u64_prefix_u8_request() {
    // A `u64` prefix followed by one byte and a `u32` suffix.
    let (layout, prefix_offset, suffix_offset) = (Layout::new::<u8>(), 8, 12);
    let mut mem = Memory::new(BASE, vec![0; 256]);
    let mut alloc = Affix::<_, u64, u32>::new(Region::new(MemoryBlock { ptr: BASE, len: 256 }));
    let memory = alloc.allocate(&mut mem, layout).unwrap();
    assert_eq!(Affix::<Region, u64, u32>::prefix(memory.ptr, layout), memory.ptr - prefix_offset);
    assert_eq!(
        Affix::<Region, u64, u32>::suffix(memory.ptr, layout),
        memory.ptr - prefix_offset + suffix_offset
    );
    assert_eq!(memory.len, suffix_offset - prefix_offset);
}

#[test]
fn affix_alloc_fails_when_parent_fails() {
    let mut mem = Memory::new(BASE, vec![0; 8]);
    let mut alloc = Affix::<_, u32, u32>::new(Region::new(MemoryBlock { ptr: BASE, len: 8 }));
    assert!(alloc.allocate(&mut mem, Layout::new::<u8>()).is_err());
}
