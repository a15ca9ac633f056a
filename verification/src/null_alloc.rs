use crate::{AllocError, AllocInit, AllocResult, Layout, MemoryBlock, ReallocPlacement};
use vstd::prelude::*;

verus! {

/// An emphatically empty allocator, with the allocation API that takes the initialization and
/// the placement of each request.
///
/// Although it has no direct use, it is useful as a "terminator" in composite allocators. Every
/// allocation fails, even a zero-sized one, and it owns no memory. Deallocating, growing and
/// shrinking must never be called, as allocation always fails.
#[derive(Debug, Copy, Clone)]
pub struct NullAlloc;

impl NullAlloc {
    /// The block at `ptr` described by `layout` was handed out by this allocator; no block ever
    /// is.
    pub open spec fn handed_out(&self, ptr: usize, layout: Layout) -> bool {
        false
    }

    /// Will always return `Err(AllocError)`.
    pub fn allocate(&mut self, layout: Layout, init: AllocInit) -> (r: AllocResult)
        ensures
            r == Err::<MemoryBlock, AllocError>(AllocError),
    {
        Err(AllocError)
    }

    /// Must not be called, as `allocate` always fails.
    pub fn deallocate(&mut self, ptr: usize, layout: Layout)
        requires
            old(self).handed_out(ptr, layout),
    {
    }

    /// Must not be called, as `allocate` always fails.
    pub fn grow(
        &mut self,
        ptr: usize,
        layout: Layout,
        new_size: usize,
        placement: ReallocPlacement,
        init: AllocInit,
    ) -> (r: AllocResult)
        requires
            old(self).handed_out(ptr, layout),
    {
        Err(AllocError)
    }

    /// Must not be called, as `allocate` always fails.
    pub fn shrink(
        &mut self,
        ptr: usize,
        layout: Layout,
        new_size: usize,
        placement: ReallocPlacement,
    ) -> (r: AllocResult)
        requires
            old(self).handed_out(ptr, layout),
    {
        Err(AllocError)
    }

    /// Will always return `false`.
    pub fn owns(&self, memory: MemoryBlock) -> (r: bool)
        ensures
            !r,
    {
        false
    }
}

} // verus!
