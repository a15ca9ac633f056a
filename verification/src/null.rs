use crate::{
    AllocError, AllocInit, AllocRef, AllocResult, AllocateAll, Layout, MemView, Memory,
    MemoryBlock, Owns, ReallocInPlace,
};
use vstd::prelude::*;

verus! {

/// An emphatically empty allocator.
///
/// Although it has no direct use, it is useful as a "terminator" in composite allocators. Every
/// allocation fails, even a zero-sized one, and it owns no memory. As nothing is ever
/// allocated, nothing may be handed back to it: deallocating, growing and shrinking must never
/// be called.
#[derive(Debug, Copy, Clone)]
pub struct Null;

impl AllocRef for Null {
    open spec fn inv(&self, lo: int, hi: int) -> bool {
        true
    }

    open spec fn equiv(&self, other: Self) -> bool {
        true
    }

    open spec fn alloc_rel(
        &self,
        mem: MemView,
        layout: Layout,
        init: AllocInit,
        next: Self,
        next_mem: MemView,
        r: AllocResult,
    ) -> bool {
        r is Err && next_mem == mem
    }

    open spec fn dealloc_pre(&self, ptr: usize, layout: Layout) -> bool {
        false
    }

    open spec fn dealloc_rel(
        &self,
        mem: MemView,
        ptr: usize,
        layout: Layout,
        next: Self,
        next_mem: MemView,
    ) -> bool {
        next_mem == mem
    }

    open spec fn grow_pre(&self, ptr: usize, old_layout: Layout, new_layout: Layout) -> bool {
        false
    }

    open spec fn grow_rel(
        &self,
        mem: MemView,
        ptr: usize,
        old_layout: Layout,
        new_layout: Layout,
        init: AllocInit,
        next: Self,
        next_mem: MemView,
        r: AllocResult,
    ) -> bool {
        r is Err && next_mem == mem
    }

    open spec fn shrink_pre(&self, ptr: usize, old_layout: Layout, new_layout: Layout) -> bool {
        false
    }

    open spec fn shrink_rel(
        &self,
        mem: MemView,
        ptr: usize,
        old_layout: Layout,
        new_layout: Layout,
        next: Self,
        next_mem: MemView,
        r: AllocResult,
    ) -> bool {
        r is Err && next_mem == mem
    }

    proof fn lemma_dealloc_pre(&self, lo: int, hi: int, ptr: usize, layout: Layout) {
    }

    proof fn lemma_grow_pre(&self, ptr: usize, old_layout: Layout, new_layout: Layout) {
    }

    proof fn lemma_shrink_pre(&self, ptr: usize, old_layout: Layout, new_layout: Layout) {
    }

    proof fn lemma_equiv(
        &self,
        other: Self,
        lo: int,
        hi: int,
        ptr: usize,
        l1: Layout,
        l2: Layout,
    ) {
    }

    proof fn lemma_equiv_refl(&self) {
    }

    proof fn lemma_alloc_zeroed(
        &self,
        mem: MemView,
        layout: Layout,
        next: Self,
        next_mem: MemView,
        r: AllocResult,
    ) {
    }

    proof fn lemma_equiv_trans(&self, b: Self, c: Self) {
    }

    /// Always fails.
    fn allocate(&mut self, mem: &mut Memory, layout: Layout) -> (r: AllocResult) {
        Err(AllocError)
    }

    /// Always fails.
    fn allocate_zeroed(&mut self, mem: &mut Memory, layout: Layout) -> (r: AllocResult) {
        Err(AllocError)
    }

    /// Must not be called, as allocation always fails.
    fn deallocate(&mut self, mem: &mut Memory, ptr: usize, layout: Layout) {
    }

    /// Must not be called, as allocation always fails.
    fn grow(&mut self, mem: &mut Memory, ptr: usize, old_layout: Layout, new_layout: Layout) -> (r:
        AllocResult) {
        Err(AllocError)
    }

    /// Must not be called, as allocation always fails.
    fn grow_zeroed(
        &mut self,
        mem: &mut Memory,
        ptr: usize,
        old_layout: Layout,
        new_layout: Layout,
    ) -> (r: AllocResult) {
        Err(AllocError)
    }

    /// Must not be called, as allocation always fails.
    fn shrink(&mut self, mem: &mut Memory, ptr: usize, old_layout: Layout, new_layout: Layout) -> (r:
        AllocResult) {
        Err(AllocError)
    }
}

impl crate::HandsBack for Null {
    proof fn lemma_alloc_dealloc_pre(
        &self,
        mem: MemView,
        layout: Layout,
        init: AllocInit,
        next: Self,
        next_mem: MemView,
        r: AllocResult,
    ) {
    }

    proof fn lemma_resize_pre(&self, lo: int, hi: int, ptr: usize, old_layout: Layout, new_layout: Layout) {
    }
}

impl AllocateAll for Null {
    open spec fn allocate_all_rel(
        &self,
        mem: MemView,
        init: AllocInit,
        next: Self,
        next_mem: MemView,
        r: AllocResult,
    ) -> bool {
        r is Err && next_mem == mem
    }

    open spec fn deallocate_all_rel(&self, mem: MemView, next: Self, next_mem: MemView) -> bool {
        next_mem == mem
    }

    open spec fn capacity_spec(&self) -> usize {
        0
    }

    open spec fn capacity_left_spec(&self) -> usize {
        0
    }

    /// Always fails.
    fn allocate_all(&mut self, mem: &mut Memory) -> (r: AllocResult) {
        Err(AllocError)
    }

    /// Always fails.
    fn allocate_all_zeroed(&mut self, mem: &mut Memory) -> (r: AllocResult) {
        Err(AllocError)
    }

    /// Does nothing, as nothing is ever allocated.
    fn deallocate_all(&mut self, mem: &mut Memory) {
    }

    /// Always zero.
    fn capacity(&self) -> (r: usize) {
        0
    }

    /// Always zero.
    fn capacity_left(&self) -> (r: usize) {
        0
    }
}

impl ReallocInPlace for Null {
    open spec fn grow_in_place_rel(
        &self,
        mem: MemView,
        ptr: usize,
        old_layout: Layout,
        new_layout: Layout,
        init: AllocInit,
        next: Self,
        next_mem: MemView,
        r: Result<usize, AllocError>,
    ) -> bool {
        r is Err && next_mem == mem
    }

    open spec fn shrink_in_place_rel(
        &self,
        mem: MemView,
        ptr: usize,
        old_layout: Layout,
        new_layout: Layout,
        next: Self,
        next_mem: MemView,
        r: Result<usize, AllocError>,
    ) -> bool {
        r is Err && next_mem == mem
    }

    /// Must not be called, as allocation always fails.
    fn grow_in_place(
        &mut self,
        mem: &mut Memory,
        ptr: usize,
        old_layout: Layout,
        new_layout: Layout,
    ) -> (r: Result<usize, AllocError>) {
        Err(AllocError)
    }

    /// Must not be called, as allocation always fails.
    fn grow_in_place_zeroed(
        &mut self,
        mem: &mut Memory,
        ptr: usize,
        old_layout: Layout,
        new_layout: Layout,
    ) -> (r: Result<usize, AllocError>) {
        Err(AllocError)
    }

    /// Must not be called, as allocation always fails.
    fn shrink_in_place(
        &mut self,
        mem: &mut Memory,
        ptr: usize,
        old_layout: Layout,
        new_layout: Layout,
    ) -> (r: Result<usize, AllocError>) {
        Err(AllocError)
    }
}

impl Owns for Null {
    open spec fn owns_spec(&self, memory: MemoryBlock) -> bool {
        false
    }

    proof fn lemma_owns_equiv(&self, other: Self, memory: MemoryBlock) {
    }

    /// Always `false`.
    fn owns(&mut self, memory: MemoryBlock) -> (r: bool) {
        false
    }
}

} // verus!
