pub mod raw;

use self::raw::{
    end_spec, valid_memory, RawIntrusiveRegion, RawRegion, RawSharedRegion,
};
use crate::{
    AllocInit, AllocRef, AllocResult, AllocateAll, Layout, MemView, Memory, MemoryBlock, Owns,
};
use vstd::prelude::*;

verus! {

/// A stack allocator over a block of addresses of a [`Memory`].
///
/// Blocks are handed out from the end of the block towards its start. Deallocating has no
/// effect; [`AllocateAll::deallocate_all`] resets the region.
#[derive(Debug)]
pub struct Region {
    raw: RawRegion,
}

impl Region {
    /// The region this one wraps.
    pub closed spec fn raw(self) -> RawRegion {
        self.raw
    }

    /// Creates a new region from the given block of addresses. The region starts empty.
    pub fn new(memory: MemoryBlock) -> (r: Self)
        requires
            valid_memory(memory),
        ensures
            r.raw().wf(),
            r.raw().spec_memory() == memory,
            r.raw().spec_current() == end_spec(memory),
    {
        Region { raw: RawRegion::new(memory) }
    }
}

impl AllocRef for Region {
    open spec fn inv(&self, lo: int, hi: int) -> bool {
        self.raw().inv(lo, hi)
    }

    open spec fn equiv(&self, other: Self) -> bool {
        self.raw().equiv(other.raw())
    }

    open spec fn alloc_rel(
        &self,
        mem: MemView,
        layout: Layout,
        init: AllocInit,
        next: Self,
        next_mem: MemView,
        r: AllocResult,
    ) -> bool {
        self.raw().alloc_rel(mem, layout, init, next.raw(), next_mem, r)
    }

    open spec fn dealloc_pre(&self, ptr: usize, layout: Layout) -> bool {
        self.raw().dealloc_pre(ptr, layout)
    }

    open spec fn dealloc_rel(
        &self,
        mem: MemView,
        ptr: usize,
        layout: Layout,
        next: Self,
        next_mem: MemView,
    ) -> bool {
        self.raw().dealloc_rel(mem, ptr, layout, next.raw(), next_mem)
    }

    open spec fn grow_pre(&self, ptr: usize, old_layout: Layout, new_layout: Layout) -> bool {
        self.raw().grow_pre(ptr, old_layout, new_layout)
    }

    open spec fn grow_rel(
        &self,
        mem: MemView,
        ptr: usize,
        old_layout: Layout,
        new_layout: Layout,
        init: AllocInit,
        next: Self,
        next_mem: MemView,
        r: AllocResult,
    ) -> bool {
        self.raw().grow_rel(mem, ptr, old_layout, new_layout, init, next.raw(), next_mem, r)
    }

    open spec fn shrink_pre(&self, ptr: usize, old_layout: Layout, new_layout: Layout) -> bool {
        self.raw().shrink_pre(ptr, old_layout, new_layout)
    }

    open spec fn shrink_rel(
        &self,
        mem: MemView,
        ptr: usize,
        old_layout: Layout,
        new_layout: Layout,
        next: Self,
        next_mem: MemView,
        r: AllocResult,
    ) -> bool {
        self.raw().shrink_rel(mem, ptr, old_layout, new_layout, next.raw(), next_mem, r)
    }

    proof fn lemma_dealloc_pre(&self, lo: int, hi: int, ptr: usize, layout: Layout) {
        self.raw().lemma_dealloc_pre(lo, hi, ptr, layout);
    }

    proof fn lemma_grow_pre(&self, ptr: usize, old_layout: Layout, new_layout: Layout) {
        self.raw().lemma_grow_pre(ptr, old_layout, new_layout);
    }

    proof fn lemma_shrink_pre(&self, ptr: usize, old_layout: Layout, new_layout: Layout) {
        self.raw().lemma_shrink_pre(ptr, old_layout, new_layout);
    }

    proof fn lemma_equiv(
        &self,
        other: Self,
        lo: int,
        hi: int,
        ptr: usize,
        l1: Layout,
        l2: Layout,
    ) {
        self.raw().lemma_equiv(other.raw(), lo, hi, ptr, l1, l2);
    }

    proof fn lemma_equiv_refl(&self) {
        self.raw().lemma_equiv_refl();
    }

    proof fn lemma_alloc_zeroed(
        &self,
        mem: MemView,
        layout: Layout,
        next: Self,
        next_mem: MemView,
        r: AllocResult,
    ) {
        self.raw().lemma_alloc_zeroed(mem, layout, next.raw(), next_mem, r);
    }

    proof fn lemma_equiv_trans(&self, b: Self, c: Self) {
        self.raw().lemma_equiv_trans(b.raw(), c.raw());
    }

    fn allocate(&mut self, mem: &mut Memory, layout: Layout) -> (r: AllocResult) {
        self.raw.allocate(mem, layout)
    }

    fn allocate_zeroed(&mut self, mem: &mut Memory, layout: Layout) -> (r: AllocResult) {
        self.raw.allocate_zeroed(mem, layout)
    }

    fn deallocate(&mut self, mem: &mut Memory, ptr: usize, layout: Layout) {
        self.raw.deallocate(mem, ptr, layout)
    }

    fn grow(&mut self, mem: &mut Memory, ptr: usize, old_layout: Layout, new_layout: Layout) -> (r:
        AllocResult) {
        self.raw.grow(mem, ptr, old_layout, new_layout)
    }

    fn grow_zeroed(
        &mut self,
        mem: &mut Memory,
        ptr: usize,
        old_layout: Layout,
        new_layout: Layout,
    ) -> (r: AllocResult) {
        self.raw.grow_zeroed(mem, ptr, old_layout, new_layout)
    }

    fn shrink(&mut self, mem: &mut Memory, ptr: usize, old_layout: Layout, new_layout: Layout) -> (r:
        AllocResult) {
        self.raw.shrink(mem, ptr, old_layout, new_layout)
    }
}

impl AllocateAll for Region {
    open spec fn allocate_all_rel(
        &self,
        mem: MemView,
        init: AllocInit,
        next: Self,
        next_mem: MemView,
        r: AllocResult,
    ) -> bool {
        self.raw().allocate_all_rel(mem, init, next.raw(), next_mem, r)
    }

    open spec fn deallocate_all_rel(&self, mem: MemView, next: Self, next_mem: MemView) -> bool {
        self.raw().deallocate_all_rel(mem, next.raw(), next_mem)
    }

    open spec fn capacity_spec(&self) -> usize {
        self.raw().capacity_spec()
    }

    open spec fn capacity_left_spec(&self) -> usize {
        self.raw().capacity_left_spec()
    }

    fn allocate_all(&mut self, mem: &mut Memory) -> (r: AllocResult) {
        self.raw.allocate_all(mem)
    }

    fn allocate_all_zeroed(&mut self, mem: &mut Memory) -> (r: AllocResult) {
        self.raw.allocate_all_zeroed(mem)
    }

    fn deallocate_all(&mut self, mem: &mut Memory) {
        self.raw.deallocate_all(mem)
    }

    fn capacity(&self) -> (r: usize) {
        self.raw.capacity()
    }

    fn capacity_left(&self) -> (r: usize) {
        self.raw.capacity_left()
    }
}

impl crate::HandsBack for Region {
    proof fn lemma_alloc_dealloc_pre(
        &self,
        mem: MemView,
        layout: Layout,
        init: AllocInit,
        next: Self,
        next_mem: MemView,
        r: AllocResult,
    ) {
        self.raw().lemma_alloc_dealloc_pre(mem, layout, init, next.raw(), next_mem, r);
    }

    proof fn lemma_resize_pre(&self, lo: int, hi: int, ptr: usize, old_layout: Layout, new_layout: Layout) {
        self.raw().lemma_resize_pre(lo, hi, ptr, old_layout, new_layout);
    }
}

impl Owns for Region {
    open spec fn owns_spec(&self, memory: MemoryBlock) -> bool {
        self.raw().owns_spec(memory)
    }

    proof fn lemma_owns_equiv(&self, other: Self, memory: MemoryBlock) {
        self.raw().lemma_owns_equiv(other.raw(), memory);
    }

    fn owns(&mut self, memory: MemoryBlock) -> (r: bool) {
        self.raw.owns(memory)
    }
}

impl PartialEq for Region {
    /// Regions are equal when they manage the same memory.
    fn eq(&self, rhs: &Self) -> (r: bool) {
        self.raw == rhs.raw
    }
}

impl vstd::std_specs::cmp::PartialEqSpecImpl for Region {
    open spec fn obeys_eq_spec() -> bool {
        true
    }

    open spec fn eq_spec(&self, other: &Self) -> bool {
        self.raw().spec_memory() == other.raw().spec_memory()
    }
}

impl PartialEq<RawRegion> for Region {
    fn eq(&self, rhs: &RawRegion) -> (r: bool) {
        &self.raw == rhs
    }
}

impl vstd::std_specs::cmp::PartialEqSpecImpl<RawRegion> for Region {
    open spec fn obeys_eq_spec() -> bool {
        true
    }

    open spec fn eq_spec(&self, other: &RawRegion) -> bool {
        self.raw().spec_memory() == other.spec_memory()
    }
}

impl PartialEq<Region> for RawRegion {
    fn eq(&self, rhs: &Region) -> (r: bool) {
        self == &rhs.raw
    }
}

impl vstd::std_specs::cmp::PartialEqSpecImpl<Region> for RawRegion {
    open spec fn obeys_eq_spec() -> bool {
        true
    }

    open spec fn eq_spec(&self, other: &Region) -> bool {
        self.spec_memory() == other.raw().spec_memory()
    }
}

/// A region allocator over a block of addresses of a [`Memory`], like [`Region`].
#[derive(Debug)]
pub struct SharedRegion {
    raw: RawSharedRegion,
}

impl SharedRegion {
    /// The region this one wraps.
    pub closed spec fn raw(self) -> RawSharedRegion {
        self.raw
    }

    /// Creates a new region from the given block of addresses. The region starts empty.
    pub fn new(memory: MemoryBlock) -> (r: Self)
        requires
            valid_memory(memory),
        ensures
            r.raw().wf(),
            r.raw().spec_memory() == memory,
            r.raw().spec_current() == end_spec(memory),
    {
        SharedRegion { raw: RawSharedRegion::new(memory) }
    }
}

impl AllocRef for SharedRegion {
    open spec fn inv(&self, lo: int, hi: int) -> bool {
        self.raw().inv(lo, hi)
    }

    open spec fn equiv(&self, other: Self) -> bool {
        self.raw().equiv(other.raw())
    }

    open spec fn alloc_rel(
        &self,
        mem: MemView,
        layout: Layout,
        init: AllocInit,
        next: Self,
        next_mem: MemView,
        r: AllocResult,
    ) -> bool {
        self.raw().alloc_rel(mem, layout, init, next.raw(), next_mem, r)
    }

    open spec fn dealloc_pre(&self, ptr: usize, layout: Layout) -> bool {
        self.raw().dealloc_pre(ptr, layout)
    }

    open spec fn dealloc_rel(
        &self,
        mem: MemView,
        ptr: usize,
        layout: Layout,
        next: Self,
        next_mem: MemView,
    ) -> bool {
        self.raw().dealloc_rel(mem, ptr, layout, next.raw(), next_mem)
    }

    open spec fn grow_pre(&self, ptr: usize, old_layout: Layout, new_layout: Layout) -> bool {
        self.raw().grow_pre(ptr, old_layout, new_layout)
    }

    open spec fn grow_rel(
        &self,
        mem: MemView,
        ptr: usize,
        old_layout: Layout,
        new_layout: Layout,
        init: AllocInit,
        next: Self,
        next_mem: MemView,
        r: AllocResult,
    ) -> bool {
        self.raw().grow_rel(mem, ptr, old_layout, new_layout, init, next.raw(), next_mem, r)
    }

    open spec fn shrink_pre(&self, ptr: usize, old_layout: Layout, new_layout: Layout) -> bool {
        self.raw().shrink_pre(ptr, old_layout, new_layout)
    }

    open spec fn shrink_rel(
        &self,
        mem: MemView,
        ptr: usize,
        old_layout: Layout,
        new_layout: Layout,
        next: Self,
        next_mem: MemView,
        r: AllocResult,
    ) -> bool {
        self.raw().shrink_rel(mem, ptr, old_layout, new_layout, next.raw(), next_mem, r)
    }

    proof fn lemma_dealloc_pre(&self, lo: int, hi: int, ptr: usize, layout: Layout) {
        self.raw().lemma_dealloc_pre(lo, hi, ptr, layout);
    }

    proof fn lemma_grow_pre(&self, ptr: usize, old_layout: Layout, new_layout: Layout) {
        self.raw().lemma_grow_pre(ptr, old_layout, new_layout);
    }

    proof fn lemma_shrink_pre(&self, ptr: usize, old_layout: Layout, new_layout: Layout) {
        self.raw().lemma_shrink_pre(ptr, old_layout, new_layout);
    }

    proof fn lemma_equiv(
        &self,
        other: Self,
        lo: int,
        hi: int,
        ptr: usize,
        l1: Layout,
        l2: Layout,
    ) {
        self.raw().lemma_equiv(other.raw(), lo, hi, ptr, l1, l2);
    }

    proof fn lemma_equiv_refl(&self) {
        self.raw().lemma_equiv_refl();
    }

    proof fn lemma_alloc_zeroed(
        &self,
        mem: MemView,
        layout: Layout,
        next: Self,
        next_mem: MemView,
        r: AllocResult,
    ) {
        self.raw().lemma_alloc_zeroed(mem, layout, next.raw(), next_mem, r);
    }

    proof fn lemma_equiv_trans(&self, b: Self, c: Self) {
        self.raw().lemma_equiv_trans(b.raw(), c.raw());
    }

    fn allocate(&mut self, mem: &mut Memory, layout: Layout) -> (r: AllocResult) {
        self.raw.allocate(mem, layout)
    }

    fn allocate_zeroed(&mut self, mem: &mut Memory, layout: Layout) -> (r: AllocResult) {
        self.raw.allocate_zeroed(mem, layout)
    }

    fn deallocate(&mut self, mem: &mut Memory, ptr: usize, layout: Layout) {
        self.raw.deallocate(mem, ptr, layout)
    }

    fn grow(&mut self, mem: &mut Memory, ptr: usize, old_layout: Layout, new_layout: Layout) -> (r:
        AllocResult) {
        self.raw.grow(mem, ptr, old_layout, new_layout)
    }

    fn grow_zeroed(
        &mut self,
        mem: &mut Memory,
        ptr: usize,
        old_layout: Layout,
        new_layout: Layout,
    ) -> (r: AllocResult) {
        self.raw.grow_zeroed(mem, ptr, old_layout, new_layout)
    }

    fn shrink(&mut self, mem: &mut Memory, ptr: usize, old_layout: Layout, new_layout: Layout) -> (r:
        AllocResult) {
        self.raw.shrink(mem, ptr, old_layout, new_layout)
    }
}

impl AllocateAll for SharedRegion {
    open spec fn allocate_all_rel(
        &self,
        mem: MemView,
        init: AllocInit,
        next: Self,
        next_mem: MemView,
        r: AllocResult,
    ) -> bool {
        self.raw().allocate_all_rel(mem, init, next.raw(), next_mem, r)
    }

    open spec fn deallocate_all_rel(&self, mem: MemView, next: Self, next_mem: MemView) -> bool {
        self.raw().deallocate_all_rel(mem, next.raw(), next_mem)
    }

    open spec fn capacity_spec(&self) -> usize {
        self.raw().capacity_spec()
    }

    open spec fn capacity_left_spec(&self) -> usize {
        self.raw().capacity_left_spec()
    }

    fn allocate_all(&mut self, mem: &mut Memory) -> (r: AllocResult) {
        self.raw.allocate_all(mem)
    }

    fn allocate_all_zeroed(&mut self, mem: &mut Memory) -> (r: AllocResult) {
        self.raw.allocate_all_zeroed(mem)
    }

    fn deallocate_all(&mut self, mem: &mut Memory) {
        self.raw.deallocate_all(mem)
    }

    fn capacity(&self) -> (r: usize) {
        self.raw.capacity()
    }

    fn capacity_left(&self) -> (r: usize) {
        self.raw.capacity_left()
    }
}

impl crate::HandsBack for SharedRegion {
    proof fn lemma_alloc_dealloc_pre(
        &self,
        mem: MemView,
        layout: Layout,
        init: AllocInit,
        next: Self,
        next_mem: MemView,
        r: AllocResult,
    ) {
        self.raw().lemma_alloc_dealloc_pre(mem, layout, init, next.raw(), next_mem, r);
    }

    proof fn lemma_resize_pre(&self, lo: int, hi: int, ptr: usize, old_layout: Layout, new_layout: Layout) {
        self.raw().lemma_resize_pre(lo, hi, ptr, old_layout, new_layout);
    }
}

impl Owns for SharedRegion {
    open spec fn owns_spec(&self, memory: MemoryBlock) -> bool {
        self.raw().owns_spec(memory)
    }

    proof fn lemma_owns_equiv(&self, other: Self, memory: MemoryBlock) {
        self.raw().lemma_owns_equiv(other.raw(), memory);
    }

    fn owns(&mut self, memory: MemoryBlock) -> (r: bool) {
        self.raw.owns(memory)
    }
}

impl PartialEq for SharedRegion {
    /// Regions are equal when they manage the same memory.
    fn eq(&self, rhs: &Self) -> (r: bool) {
        self.raw == rhs.raw
    }
}

impl vstd::std_specs::cmp::PartialEqSpecImpl for SharedRegion {
    open spec fn obeys_eq_spec() -> bool {
        true
    }

    open spec fn eq_spec(&self, other: &Self) -> bool {
        self.raw().spec_memory() == other.raw().spec_memory()
    }
}

impl PartialEq<RawSharedRegion> for SharedRegion {
    fn eq(&self, rhs: &RawSharedRegion) -> (r: bool) {
        &self.raw == rhs
    }
}

impl vstd::std_specs::cmp::PartialEqSpecImpl<RawSharedRegion> for SharedRegion {
    open spec fn obeys_eq_spec() -> bool {
        true
    }

    open spec fn eq_spec(&self, other: &RawSharedRegion) -> bool {
        self.raw().spec_memory() == other.spec_memory()
    }
}

impl PartialEq<SharedRegion> for RawSharedRegion {
    fn eq(&self, rhs: &SharedRegion) -> (r: bool) {
        self == &rhs.raw
    }
}

impl vstd::std_specs::cmp::PartialEqSpecImpl<SharedRegion> for RawSharedRegion {
    open spec fn obeys_eq_spec() -> bool {
        true
    }

    open spec fn eq_spec(&self, other: &SharedRegion) -> bool {
        self.spec_memory() == other.raw().spec_memory()
    }
}

/// A region allocator that stores its current position in the memory it manages.
#[derive(Debug)]
pub struct IntrusiveRegion {
    raw: RawIntrusiveRegion,
}

impl IntrusiveRegion {
    /// The region this one wraps.
    pub closed spec fn raw(self) -> RawIntrusiveRegion {
        self.raw
    }

    /// Creates a new region from the given block of addresses of `mem`. The last eight bytes
    /// of the block, aligned to eight, store the current position; `memory` must be large
    /// enough to hold them.
    pub fn new(mem: &mut Memory, memory: MemoryBlock) -> (r: Self)
        requires
            valid_memory(memory),
            old(mem)@.contains(memory.ptr as int, memory.len as int),
            RawIntrusiveRegion::slot_spec(memory) is Ok,
        ensures
            r.raw().wf(),
            r.raw().spec_slot() == RawIntrusiveRegion::slot_spec(memory)->Ok_0.ptr,
            r.raw().spec_memory() == (MemoryBlock {
                ptr: memory.ptr,
                len: (r.raw().spec_slot() - memory.ptr) as usize,
            }),
            r.raw().spec_current() == r.raw().spec_slot(),
            final(mem)@ == r.raw().store_position(old(mem)@, r.raw().spec_slot()),
    {
        IntrusiveRegion { raw: RawIntrusiveRegion::new(mem, memory) }
    }
}

impl AllocRef for IntrusiveRegion {
    open spec fn inv(&self, lo: int, hi: int) -> bool {
        self.raw().inv(lo, hi)
    }

    open spec fn equiv(&self, other: Self) -> bool {
        self.raw().equiv(other.raw())
    }

    open spec fn alloc_rel(
        &self,
        mem: MemView,
        layout: Layout,
        init: AllocInit,
        next: Self,
        next_mem: MemView,
        r: AllocResult,
    ) -> bool {
        self.raw().alloc_rel(mem, layout, init, next.raw(), next_mem, r)
    }

    open spec fn dealloc_pre(&self, ptr: usize, layout: Layout) -> bool {
        self.raw().dealloc_pre(ptr, layout)
    }

    open spec fn dealloc_rel(
        &self,
        mem: MemView,
        ptr: usize,
        layout: Layout,
        next: Self,
        next_mem: MemView,
    ) -> bool {
        self.raw().dealloc_rel(mem, ptr, layout, next.raw(), next_mem)
    }

    open spec fn grow_pre(&self, ptr: usize, old_layout: Layout, new_layout: Layout) -> bool {
        self.raw().grow_pre(ptr, old_layout, new_layout)
    }

    open spec fn grow_rel(
        &self,
        mem: MemView,
        ptr: usize,
        old_layout: Layout,
        new_layout: Layout,
        init: AllocInit,
        next: Self,
        next_mem: MemView,
        r: AllocResult,
    ) -> bool {
        self.raw().grow_rel(mem, ptr, old_layout, new_layout, init, next.raw(), next_mem, r)
    }

    open spec fn shrink_pre(&self, ptr: usize, old_layout: Layout, new_layout: Layout) -> bool {
        self.raw().shrink_pre(ptr, old_layout, new_layout)
    }

    open spec fn shrink_rel(
        &self,
        mem: MemView,
        ptr: usize,
        old_layout: Layout,
        new_layout: Layout,
        next: Self,
        next_mem: MemView,
        r: AllocResult,
    ) -> bool {
        self.raw().shrink_rel(mem, ptr, old_layout, new_layout, next.raw(), next_mem, r)
    }

    proof fn lemma_dealloc_pre(&self, lo: int, hi: int, ptr: usize, layout: Layout) {
        self.raw().lemma_dealloc_pre(lo, hi, ptr, layout);
    }

    proof fn lemma_grow_pre(&self, ptr: usize, old_layout: Layout, new_layout: Layout) {
        self.raw().lemma_grow_pre(ptr, old_layout, new_layout);
    }

    proof fn lemma_shrink_pre(&self, ptr: usize, old_layout: Layout, new_layout: Layout) {
        self.raw().lemma_shrink_pre(ptr, old_layout, new_layout);
    }

    proof fn lemma_equiv(
        &self,
        other: Self,
        lo: int,
        hi: int,
        ptr: usize,
        l1: Layout,
        l2: Layout,
    ) {
        self.raw().lemma_equiv(other.raw(), lo, hi, ptr, l1, l2);
    }

    proof fn lemma_equiv_refl(&self) {
        self.raw().lemma_equiv_refl();
    }

    proof fn lemma_alloc_zeroed(
        &self,
        mem: MemView,
        layout: Layout,
        next: Self,
        next_mem: MemView,
        r: AllocResult,
    ) {
        self.raw().lemma_alloc_zeroed(mem, layout, next.raw(), next_mem, r);
    }

    proof fn lemma_equiv_trans(&self, b: Self, c: Self) {
        self.raw().lemma_equiv_trans(b.raw(), c.raw());
    }

    fn allocate(&mut self, mem: &mut Memory, layout: Layout) -> (r: AllocResult) {
        self.raw.allocate(mem, layout)
    }

    fn allocate_zeroed(&mut self, mem: &mut Memory, layout: Layout) -> (r: AllocResult) {
        self.raw.allocate_zeroed(mem, layout)
    }

    fn deallocate(&mut self, mem: &mut Memory, ptr: usize, layout: Layout) {
        self.raw.deallocate(mem, ptr, layout)
    }

    fn grow(&mut self, mem: &mut Memory, ptr: usize, old_layout: Layout, new_layout: Layout) -> (r:
        AllocResult) {
        self.raw.grow(mem, ptr, old_layout, new_layout)
    }

    fn grow_zeroed(
        &mut self,
        mem: &mut Memory,
        ptr: usize,
        old_layout: Layout,
        new_layout: Layout,
    ) -> (r: AllocResult) {
        self.raw.grow_zeroed(mem, ptr, old_layout, new_layout)
    }

    fn shrink(&mut self, mem: &mut Memory, ptr: usize, old_layout: Layout, new_layout: Layout) -> (r:
        AllocResult) {
        self.raw.shrink(mem, ptr, old_layout, new_layout)
    }
}

impl AllocateAll for IntrusiveRegion {
    open spec fn allocate_all_rel(
        &self,
        mem: MemView,
        init: AllocInit,
        next: Self,
        next_mem: MemView,
        r: AllocResult,
    ) -> bool {
        self.raw().allocate_all_rel(mem, init, next.raw(), next_mem, r)
    }

    open spec fn deallocate_all_rel(&self, mem: MemView, next: Self, next_mem: MemView) -> bool {
        self.raw().deallocate_all_rel(mem, next.raw(), next_mem)
    }

    open spec fn capacity_spec(&self) -> usize {
        self.raw().capacity_spec()
    }

    open spec fn capacity_left_spec(&self) -> usize {
        self.raw().capacity_left_spec()
    }

    fn allocate_all(&mut self, mem: &mut Memory) -> (r: AllocResult) {
        self.raw.allocate_all(mem)
    }

    fn allocate_all_zeroed(&mut self, mem: &mut Memory) -> (r: AllocResult) {
        self.raw.allocate_all_zeroed(mem)
    }

    fn deallocate_all(&mut self, mem: &mut Memory) {
        self.raw.deallocate_all(mem)
    }

    fn capacity(&self) -> (r: usize) {
        self.raw.capacity()
    }

    fn capacity_left(&self) -> (r: usize) {
        self.raw.capacity_left()
    }
}

impl crate::HandsBack for IntrusiveRegion {
    proof fn lemma_alloc_dealloc_pre(
        &self,
        mem: MemView,
        layout: Layout,
        init: AllocInit,
        next: Self,
        next_mem: MemView,
        r: AllocResult,
    ) {
        self.raw().lemma_alloc_dealloc_pre(mem, layout, init, next.raw(), next_mem, r);
    }

    proof fn lemma_resize_pre(&self, lo: int, hi: int, ptr: usize, old_layout: Layout, new_layout: Layout) {
        self.raw().lemma_resize_pre(lo, hi, ptr, old_layout, new_layout);
    }
}

impl Owns for IntrusiveRegion {
    open spec fn owns_spec(&self, memory: MemoryBlock) -> bool {
        self.raw().owns_spec(memory)
    }

    proof fn lemma_owns_equiv(&self, other: Self, memory: MemoryBlock) {
        self.raw().lemma_owns_equiv(other.raw(), memory);
    }

    fn owns(&mut self, memory: MemoryBlock) -> (r: bool) {
        self.raw.owns(memory)
    }
}

impl PartialEq for IntrusiveRegion {
    /// Regions are equal when they manage the same memory.
    fn eq(&self, rhs: &Self) -> (r: bool) {
        self.raw == rhs.raw
    }
}

impl vstd::std_specs::cmp::PartialEqSpecImpl for IntrusiveRegion {
    open spec fn obeys_eq_spec() -> bool {
        true
    }

    open spec fn eq_spec(&self, other: &Self) -> bool {
        self.raw().spec_memory() == other.raw().spec_memory()
    }
}

impl PartialEq<RawIntrusiveRegion> for IntrusiveRegion {
    fn eq(&self, rhs: &RawIntrusiveRegion) -> (r: bool) {
        &self.raw == rhs
    }
}

impl vstd::std_specs::cmp::PartialEqSpecImpl<RawIntrusiveRegion> for IntrusiveRegion {
    open spec fn obeys_eq_spec() -> bool {
        true
    }

    open spec fn eq_spec(&self, other: &RawIntrusiveRegion) -> bool {
        self.raw().spec_memory() == other.spec_memory()
    }
}

impl PartialEq<IntrusiveRegion> for RawIntrusiveRegion {
    fn eq(&self, rhs: &IntrusiveRegion) -> (r: bool) {
        self == &rhs.raw
    }
}

impl vstd::std_specs::cmp::PartialEqSpecImpl<IntrusiveRegion> for RawIntrusiveRegion {
    open spec fn obeys_eq_spec() -> bool {
        true
    }

    open spec fn eq_spec(&self, other: &IntrusiveRegion) -> bool {
        self.spec_memory() == other.raw().spec_memory()
    }
}

} // verus!
