use alloc_compose::stats::{
    AllocInitFilter, AtomicCounter, Counter, FilteredAtomicCounter, FilteredCounter,
    ReallocPlacementFilter, ResultFilter,
};
use alloc_compose::{
    AllocInit, AllocRef, CallbackRef, Layout, Memory, MemoryBlock, Owns, Proxy, ReallocInPlace,
    ReallocPlacement, Region,
};

const BASE: usize = 0x10000;

#[test]
fn proxy_counter_example() {
    let mut counter = Counter::default();
    let mut mem = Memory::new(BASE, vec![0; 64]);
    let mut alloc = Proxy {
        alloc: Region::new(MemoryBlock { ptr: BASE, len: 64 }),
        callbacks: counter.by_ref(),
    };

    let memory = alloc.allocate(&mut mem, Layout::new::<u32>()).unwrap();
    alloc.deallocate(&mut mem, memory.ptr, Layout::new::<u32>());

    assert_eq!(counter.num_allocs(), 1);
    assert_eq!(counter.num_deallocs(), 1);
}

#[test]
fn proxy_filtered_counter_example() {
    let mut counter = FilteredCounter::default();
    let mut mem = Memory::new(BASE, vec![0; 32]);
    let mut alloc = Proxy {
        alloc: Region::new(MemoryBlock { ptr: BASE, len: 32 }),
        callbacks: counter.by_ref(),
    };

    let memory = alloc.allocate(&mut mem, Layout::new::<u32>()).unwrap();
    alloc.deallocate(&mut mem, memory.ptr, Layout::new::<u32>());
    alloc.allocate_zeroed(&mut mem, Layout::new::<[u32; 64]>()).unwrap_err();

    assert_eq!(counter.num_allocs(), 2);
    assert_eq!(counter.num_allocs_filter(AllocInitFilter::Any, ResultFilter::Success), 1);
    assert_eq!(counter.num_allocs_filter(AllocInitFilter::Zeroed, ResultFilter::Failure), 1);
}

fn run_suite(callbacks: impl CallbackRef) {
    let mut mem = Memory::new(BASE, vec![0; 32]);
    let mut alloc = Proxy { alloc: Region::new(MemoryBlock { ptr: BASE, len: 32 }), callbacks };

    assert!(alloc.allocate(&mut mem, Layout::new::<[u8; 64]>()).is_err());
    assert!(alloc.allocate_zeroed(&mut mem, Layout::new::<[u8; 64]>()).is_err());

    let memory = alloc.allocate(&mut mem, Layout::new::<[u8; 4]>()).unwrap();
    let memory_tmp = alloc.allocate_zeroed(&mut mem, Layout::new::<[u8; 28]>()).unwrap();
    // Not the last block: it cannot be shrunk in place, but it may stay where it is.
    assert!(alloc
        .shrink_in_place(&mut mem, memory.ptr, Layout::new::<[u8; 4]>(), Layout::new::<[u8; 2]>())
        .is_err());
    let memory = alloc
        .shrink(&mut mem, memory.ptr, Layout::new::<[u8; 4]>(), Layout::new::<[u8; 2]>())
        .unwrap();
    assert_eq!(memory.len, 4);
    alloc.deallocate(&mut mem, memory_tmp.ptr, Layout::new::<[u8; 28]>());

    let big = Layout::from_size_align(80, 1).unwrap();
    let four = Layout::new::<[u8; 4]>();
    assert!(alloc.grow_zeroed(&mut mem, memory.ptr, four, big).is_err());
    assert!(alloc.grow_in_place_zeroed(&mut mem, memory.ptr, four, big).is_err());
    assert!(alloc.grow(&mut mem, memory.ptr, four, big).is_err());
    assert!(alloc.grow_in_place(&mut mem, memory.ptr, four, big).is_err());

    let memory = alloc.grow_zeroed(&mut mem, memory.ptr, four, Layout::new::<[u8; 8]>()).unwrap();
    let memory = alloc
        .grow(&mut mem, memory.ptr, Layout::new::<[u8; 8]>(), Layout::new::<[u8; 16]>())
        .unwrap();
    let memory = alloc
        .shrink(&mut mem, memory.ptr, Layout::new::<[u8; 16]>(), four)
        .unwrap();
    // Growing in place keeps the pointer: a region grows a block only by moving it, so in
    // place only a request for the same size is met.
    assert_eq!(alloc.grow_in_place_zeroed(&mut mem, memory.ptr, four, four).unwrap(), 4);
    assert_eq!(alloc.grow_in_place(&mut mem, memory.ptr, four, four).unwrap(), 4);
    // Shrinking the last block by less than its alignment leaves it where it is.
    let aligned_four = Layout::from_size_align(4, 4).unwrap();
    let aligned_two = Layout::from_size_align(2, 4).unwrap();
    assert_eq!(
        alloc.shrink_in_place(&mut mem, memory.ptr, aligned_four, aligned_two).unwrap(),
        4
    );
    let memory = MemoryBlock { ptr: memory.ptr, len: 4 };

    assert!(alloc.owns(memory));
    alloc.deallocate(&mut mem, memory.ptr, four);
    assert!(!alloc.owns(memory));
}

#[test]
fn counter_counts_suite() {
    let mut counter = Counter::default();
    run_suite(counter.by_ref());

    assert_eq!(counter.num_allocs(), 4);
    assert_eq!(counter.num_grows(), 8);
    assert_eq!(counter.num_shrinks(), 4);
    assert_eq!(counter.num_owns(), 2);
    assert_eq!(counter.num_deallocs(), 2);

    let mut atomic_counter = AtomicCounter::default();
    run_suite(atomic_counter.by_ref());

    assert_eq!(atomic_counter.num_allocs(), 4);
    assert_eq!(atomic_counter.num_grows(), 8);
    assert_eq!(atomic_counter.num_shrinks(), 4);
    assert_eq!(atomic_counter.num_owns(), 2);
    assert_eq!(atomic_counter.num_deallocs(), 2);

    assert!(counter == atomic_counter);
    assert!(atomic_counter == counter);
    assert!(atomic_counter == atomic_counter);
    assert!(counter == counter);
}

#[test]
fn filtered_counter_counts_suite() {
    let mut counter = FilteredCounter::default();
    run_suite(counter.by_ref());
    let mut atomic_counter = FilteredAtomicCounter::default();
    run_suite(atomic_counter.by_ref());

    assert_eq!(counter.num_allocs_filter(AllocInitFilter::Uninitialized, ResultFilter::Failure), 1);
    assert_eq!(counter.num_allocs_filter(AllocInitFilter::Zeroed, ResultFilter::Failure), 1);
    assert_eq!(counter.num_allocs_filter(AllocInitFilter::Uninitialized, ResultFilter::Success), 1);
    assert_eq!(counter.num_allocs_filter(AllocInitFilter::Zeroed, ResultFilter::Success), 1);
    assert_eq!(counter.num_allocs(), 4);
    for p in [ReallocPlacementFilter::MayMove, ReallocPlacementFilter::InPlace] {
        for i in [AllocInitFilter::Uninitialized, AllocInitFilter::Zeroed] {
            assert_eq!(counter.num_grows_filter(p, i, ResultFilter::Failure), 1);
            assert_eq!(counter.num_grows_filter(p, i, ResultFilter::Success), 1);
            assert_eq!(atomic_counter.num_grows_filter(p, i, ResultFilter::Success), 1);
        }
    }
    assert_eq!(counter.num_grows(), 8);
    assert_eq!(counter.num_grows_filter(ReallocPlacementFilter::Any, AllocInitFilter::Any, ResultFilter::Success), 4);
    assert_eq!(counter.num_shrinks_filter(ReallocPlacementFilter::MayMove, ResultFilter::Failure), 0);
    assert_eq!(counter.num_shrinks_filter(ReallocPlacementFilter::MayMove, ResultFilter::Success), 2);
    assert_eq!(counter.num_shrinks_filter(ReallocPlacementFilter::InPlace, ResultFilter::Failure), 1);
    assert_eq!(counter.num_shrinks_filter(ReallocPlacementFilter::InPlace, ResultFilter::Success), 1);
    assert_eq!(counter.num_shrinks(), 4);
    assert_eq!(counter.num_owns_filter(true), 1);
    assert_eq!(counter.num_owns_filter(false), 1);
    assert_eq!(counter.num_owns(), 2);
    assert_eq!(counter.num_deallocs(), 2);

    assert!(counter == atomic_counter);
    assert!(atomic_counter == counter);
    assert!(atomic_counter == atomic_counter);
}

#[test]
fn filters_from_values() {
    assert_eq!(AllocInitFilter::from(AllocInit::Zeroed), AllocInitFilter::Zeroed);
    assert_eq!(AllocInitFilter::from(None::<AllocInit>), AllocInitFilter::Any);
    assert_eq!(AllocInitFilter::from(Some(AllocInit::Uninitialized)), AllocInitFilter::Uninitialized);
    assert_eq!(ReallocPlacementFilter::from(ReallocPlacement::InPlace), ReallocPlacementFilter::InPlace);
    assert_eq!(ReallocPlacementFilter::from(None::<ReallocPlacement>), ReallocPlacementFilter::Any);
    assert_eq!(ReallocPlacementFilter::from(Some(ReallocPlacement::MayMove)), ReallocPlacementFilter::MayMove);
    assert_eq!(ResultFilter::from(true), ResultFilter::Success);
    assert_eq!(ResultFilter::from(false), ResultFilter::Failure);
}

#[test]
fn counters_differ_after_a_call() {
    let mut a = Counter::default();
    let b = AtomicCounter::default();
    assert!(a == b);
    a.after_owns(true);
    assert!(!(a == b));
    assert_eq!(a.num_owns(), 1);
}
