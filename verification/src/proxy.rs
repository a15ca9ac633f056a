use crate::{
    check_dealloc_precondition, check_grow_precondition, check_shrink_precondition, AllocError,
    AllocInit, AllocRef, AllocResult, AllocateAll, CallbackRef, Layout, MemView, Memory,
    MemoryBlock, Owns, ReallocInPlace,
};
use vstd::prelude::*;

verus! {

/// Calls the provided callbacks when invoking methods on `AllocRef`.
///
/// A typical use case for a `Proxy` allocator is collecting statistics. `alloc-compose` provides
/// different implementations for [`CallbackRef`][]. Every operation calls the matching `before_`
/// hook, forwards to the inner allocator, and calls the matching `after_` hook with the result.
/// The callbacks observe the calls; they do not change what the inner allocator does.
#[derive(Debug, Copy, Clone, PartialEq, Eq, PartialOrd, Ord, Hash)]
pub struct Proxy<A, C> {
    /// The allocator that serves the requests
    pub alloc: A,
    /// The hooks that observe the requests
    pub callbacks: C,
}

impl<A: AllocRef, C: CallbackRef> AllocRef for Proxy<A, C> {
    open spec fn inv(&self, lo: int, hi: int) -> bool {
        self.alloc.inv(lo, hi)
    }

    /// Proxies allocate alike when their allocators do, whatever their callbacks.
    open spec fn equiv(&self, other: Self) -> bool {
        self.alloc.equiv(other.alloc)
    }

    open spec fn alloc_rel(
        &self,
        mem: MemView,
        layout: Layout,
        init: AllocInit,
        next: Self,
        next_mem: MemView,
        r: AllocResult,
    ) -> bool {
        self.alloc.alloc_rel(mem, layout, init, next.alloc, next_mem, r)
    }

    open spec fn dealloc_pre(&self, ptr: usize, layout: Layout) -> bool {
        ptr >= layout.align() && self.alloc.dealloc_pre(ptr, layout)
    }

    open spec fn dealloc_rel(
        &self,
        mem: MemView,
        ptr: usize,
        layout: Layout,
        next: Self,
        next_mem: MemView,
    ) -> bool {
        self.alloc.dealloc_rel(mem, ptr, layout, next.alloc, next_mem)
    }

    open spec fn grow_pre(&self, ptr: usize, old_layout: Layout, new_layout: Layout) -> bool {
        ptr >= old_layout.align() && self.alloc.grow_pre(ptr, old_layout, new_layout)
    }

    open spec fn grow_rel(
        &self,
        mem: MemView,
        ptr: usize,
        old_layout: Layout,
        new_layout: Layout,
        init: AllocInit,
        next: Self,
        next_mem: MemView,
        r: AllocResult,
    ) -> bool {
        self.alloc.grow_rel(mem, ptr, old_layout, new_layout, init, next.alloc, next_mem, r)
    }

    open spec fn shrink_pre(&self, ptr: usize, old_layout: Layout, new_layout: Layout) -> bool {
        ptr >= old_layout.align() && self.alloc.shrink_pre(ptr, old_layout, new_layout)
    }

    open spec fn shrink_rel(
        &self,
        mem: MemView,
        ptr: usize,
        old_layout: Layout,
        new_layout: Layout,
        next: Self,
        next_mem: MemView,
        r: AllocResult,
    ) -> bool {
        self.alloc.shrink_rel(mem, ptr, old_layout, new_layout, next.alloc, next_mem, r)
    }

    proof fn lemma_dealloc_pre(&self, lo: int, hi: int, ptr: usize, layout: Layout) {
        self.alloc.lemma_dealloc_pre(lo, hi, ptr, layout);
    }

    proof fn lemma_grow_pre(&self, ptr: usize, old_layout: Layout, new_layout: Layout) {
        self.alloc.lemma_grow_pre(ptr, old_layout, new_layout);
    }

    proof fn lemma_shrink_pre(&self, ptr: usize, old_layout: Layout, new_layout: Layout) {
        self.alloc.lemma_shrink_pre(ptr, old_layout, new_layout);
    }

    proof fn lemma_equiv(
        &self,
        other: Self,
        lo: int,
        hi: int,
        ptr: usize,
        l1: Layout,
        l2: Layout,
    ) {
        self.alloc.lemma_equiv(other.alloc, lo, hi, ptr, l1, l2);
    }

    proof fn lemma_equiv_refl(&self) {
        self.alloc.lemma_equiv_refl();
    }

    proof fn lemma_alloc_zeroed(
        &self,
        mem: MemView,
        layout: Layout,
        next: Self,
        next_mem: MemView,
        r: AllocResult,
    ) {
        self.alloc.lemma_alloc_zeroed(mem, layout, next.alloc, next_mem, r);
    }

    proof fn lemma_equiv_trans(&self, b: Self, c: Self) {
        self.alloc.lemma_equiv_trans(b.alloc, c.alloc);
    }

    fn allocate(&mut self, mem: &mut Memory, layout: Layout) -> (r: AllocResult)
        ensures
            exists|before: &mut C, after: &mut C|
                mut_ref_current(before) == old(self).callbacks
                && mut_ref_future(before) == mut_ref_current(after)
                && mut_ref_future(after) == final(self).callbacks
                && call_ensures(C::before_allocate, (before, layout), ())
                && call_ensures(C::after_allocate, (after, layout, r), ()),
    {
        self.callbacks.before_allocate(layout);
        let result = self.alloc.allocate(mem, layout);
        self.callbacks.after_allocate(layout, result);
        result
    }

    fn allocate_zeroed(&mut self, mem: &mut Memory, layout: Layout) -> (r: AllocResult)
        ensures
            exists|before: &mut C, after: &mut C|
                mut_ref_current(before) == old(self).callbacks
                && mut_ref_future(before) == mut_ref_current(after)
                && mut_ref_future(after) == final(self).callbacks
                && call_ensures(C::before_allocate_zeroed, (before, layout), ())
                && call_ensures(C::after_allocate_zeroed, (after, layout, r), ()),
    {
        self.callbacks.before_allocate_zeroed(layout);
        let result = self.alloc.allocate_zeroed(mem, layout);
        self.callbacks.after_allocate_zeroed(layout, result);
        result
    }

    fn deallocate(&mut self, mem: &mut Memory, ptr: usize, layout: Layout)
        ensures
            exists|before: &mut C, after: &mut C|
                mut_ref_current(before) == old(self).callbacks
                && mut_ref_future(before) == mut_ref_current(after)
                && mut_ref_future(after) == final(self).callbacks
                && call_ensures(C::before_deallocate, (before, ptr, layout), ())
                && call_ensures(C::after_deallocate, (after, ptr, layout), ()),
    {
        check_dealloc_precondition(ptr, layout);
        self.callbacks.before_deallocate(ptr, layout);
        self.alloc.deallocate(mem, ptr, layout);
        self.callbacks.after_deallocate(ptr, layout);
    }


    fn grow(
        &mut self,
        mem: &mut Memory,
        ptr: usize,
        old_layout: Layout,
        new_layout: Layout,
    ) -> (r: AllocResult)
        ensures
            exists|before: &mut C, after: &mut C|
                mut_ref_current(before) == old(self).callbacks
                && mut_ref_future(before) == mut_ref_current(after)
                && mut_ref_future(after) == final(self).callbacks
                && call_ensures(C::before_grow, (before, ptr, old_layout, new_layout), ())
                && call_ensures(C::after_grow, (after, ptr, old_layout, new_layout, r), ()),
    {
        proof {
            self.alloc.lemma_grow_pre(ptr, old_layout, new_layout);
        }
        check_grow_precondition(ptr, old_layout, new_layout.size());
        self.callbacks.before_grow(ptr, old_layout, new_layout);
        let result = self.alloc.grow(mem, ptr, old_layout, new_layout);
        self.callbacks.after_grow(ptr, old_layout, new_layout, result);
        result
    }

    fn grow_zeroed(
        &mut self,
        mem: &mut Memory,
        ptr: usize,
        old_layout: Layout,
        new_layout: Layout,
    ) -> (r: AllocResult)
        ensures
            exists|before: &mut C, after: &mut C|
                mut_ref_current(before) == old(self).callbacks
                && mut_ref_future(before) == mut_ref_current(after)
                && mut_ref_future(after) == final(self).callbacks
                && call_ensures(C::before_grow_zeroed, (before, ptr, old_layout, new_layout), ())
                && call_ensures(C::after_grow_zeroed, (after, ptr, old_layout, new_layout, r), ()),
    {
        proof {
            self.alloc.lemma_grow_pre(ptr, old_layout, new_layout);
        }
        check_grow_precondition(ptr, old_layout, new_layout.size());
        self.callbacks.before_grow_zeroed(ptr, old_layout, new_layout);
        let result = self.alloc.grow_zeroed(mem, ptr, old_layout, new_layout);
        self.callbacks.after_grow_zeroed(ptr, old_layout, new_layout, result);
        result
    }

    fn shrink(
        &mut self,
        mem: &mut Memory,
        ptr: usize,
        old_layout: Layout,
        new_layout: Layout,
    ) -> (r: AllocResult)
        ensures
            exists|before: &mut C, after: &mut C|
                mut_ref_current(before) == old(self).callbacks
                && mut_ref_future(before) == mut_ref_current(after)
                && mut_ref_future(after) == final(self).callbacks
                && call_ensures(C::before_shrink, (before, ptr, old_layout, new_layout), ())
                && call_ensures(C::after_shrink, (after, ptr, old_layout, new_layout, r), ()),
    {
        proof {
            self.alloc.lemma_shrink_pre(ptr, old_layout, new_layout);
        }
        check_shrink_precondition(ptr, old_layout, new_layout.size());
        self.callbacks.before_shrink(ptr, old_layout, new_layout);
        let result = self.alloc.shrink(mem, ptr, old_layout, new_layout);
        self.callbacks.after_shrink(ptr, old_layout, new_layout, result);
        result
    }
}

impl<A: AllocateAll, C: CallbackRef> AllocateAll for Proxy<A, C> {
    open spec fn allocate_all_rel(
        &self,
        mem: MemView,
        init: AllocInit,
        next: Self,
        next_mem: MemView,
        r: AllocResult,
    ) -> bool {
        self.alloc.allocate_all_rel(mem, init, next.alloc, next_mem, r)
    }

    open spec fn deallocate_all_rel(&self, mem: MemView, next: Self, next_mem: MemView) -> bool {
        self.alloc.deallocate_all_rel(mem, next.alloc, next_mem)
    }

    open spec fn capacity_spec(&self) -> usize {
        self.alloc.capacity_spec()
    }

    open spec fn capacity_left_spec(&self) -> usize {
        self.alloc.capacity_left_spec()
    }

    fn allocate_all(&mut self, mem: &mut Memory) -> (r: AllocResult)
        ensures
            exists|before: &mut C, after: &mut C|
                mut_ref_current(before) == old(self).callbacks
                && mut_ref_future(before) == mut_ref_current(after)
                && mut_ref_future(after) == final(self).callbacks
                && call_ensures(C::before_allocate_all, (before,), ())
                && call_ensures(C::after_allocate_all, (after, r), ()),
    {
        self.callbacks.before_allocate_all();
        let result = self.alloc.allocate_all(mem);
        self.callbacks.after_allocate_all(result);
        result
    }

    fn allocate_all_zeroed(&mut self, mem: &mut Memory) -> (r: AllocResult)
        ensures
            exists|before: &mut C, after: &mut C|
                mut_ref_current(before) == old(self).callbacks
                && mut_ref_future(before) == mut_ref_current(after)
                && mut_ref_future(after) == final(self).callbacks
                && call_ensures(C::before_allocate_all_zeroed, (before,), ())
                && call_ensures(C::after_allocate_all_zeroed, (after, r), ()),
    {
        self.callbacks.before_allocate_all_zeroed();
        let result = self.alloc.allocate_all_zeroed(mem);
        self.callbacks.after_allocate_all_zeroed(result);
        result
    }

    fn deallocate_all(&mut self, mem: &mut Memory)
        ensures
            exists|before: &mut C, after: &mut C|
                mut_ref_current(before) == old(self).callbacks
                && mut_ref_future(before) == mut_ref_current(after)
                && mut_ref_future(after) == final(self).callbacks
                && call_ensures(C::before_deallocate_all, (before,), ())
                && call_ensures(C::after_deallocate_all, (after,), ()),
    {
        self.callbacks.before_deallocate_all();
        self.alloc.deallocate_all(mem);
        self.callbacks.after_deallocate_all();
    }

    fn capacity(&self) -> (r: usize) {
        self.alloc.capacity()
    }

    fn capacity_left(&self) -> (r: usize) {
        self.alloc.capacity_left()
    }

    fn is_empty(&self) -> (r: bool) {
        self.alloc.is_empty()
    }

    fn is_full(&self) -> (r: bool) {
        self.alloc.is_full()
    }
}

impl<A: ReallocInPlace, C: CallbackRef> ReallocInPlace for Proxy<A, C> {
    open spec fn grow_in_place_rel(
        &self,
        mem: MemView,
        ptr: usize,
        old_layout: Layout,
        new_layout: Layout,
        init: AllocInit,
        next: Self,
        next_mem: MemView,
        r: Result<usize, AllocError>,
    ) -> bool {
        self.alloc.grow_in_place_rel(mem, ptr, old_layout, new_layout, init, next.alloc, next_mem, r)
    }

    open spec fn shrink_in_place_rel(
        &self,
        mem: MemView,
        ptr: usize,
        old_layout: Layout,
        new_layout: Layout,
        next: Self,
        next_mem: MemView,
        r: Result<usize, AllocError>,
    ) -> bool {
        self.alloc.shrink_in_place_rel(mem, ptr, old_layout, new_layout, next.alloc, next_mem, r)
    }


    fn grow_in_place(
        &mut self,
        mem: &mut Memory,
        ptr: usize,
        old_layout: Layout,
        new_layout: Layout,
    ) -> (r: Result<usize, AllocError>)
        ensures
            exists|before: &mut C, after: &mut C|
                mut_ref_current(before) == old(self).callbacks
                && mut_ref_future(before) == mut_ref_current(after)
                && mut_ref_future(after) == final(self).callbacks
                && call_ensures(C::before_grow_in_place, (before, ptr, old_layout, new_layout), ())
                && call_ensures(C::after_grow_in_place, (after, ptr, old_layout, new_layout, r), ()),
    {
        proof {
            self.alloc.lemma_grow_pre(ptr, old_layout, new_layout);
        }
        check_grow_precondition(ptr, old_layout, new_layout.size());
        self.callbacks.before_grow_in_place(ptr, old_layout, new_layout);
        let result = self.alloc.grow_in_place(mem, ptr, old_layout, new_layout);
        self.callbacks.after_grow_in_place(ptr, old_layout, new_layout, result);
        result
    }

    fn grow_in_place_zeroed(
        &mut self,
        mem: &mut Memory,
        ptr: usize,
        old_layout: Layout,
        new_layout: Layout,
    ) -> (r: Result<usize, AllocError>)
        ensures
            exists|before: &mut C, after: &mut C|
                mut_ref_current(before) == old(self).callbacks
                && mut_ref_future(before) == mut_ref_current(after)
                && mut_ref_future(after) == final(self).callbacks
                && call_ensures(C::before_grow_in_place_zeroed, (before, ptr, old_layout, new_layout), ())
                && call_ensures(C::after_grow_in_place_zeroed, (after, ptr, old_layout, new_layout, r), ()),
    {
        proof {
            self.alloc.lemma_grow_pre(ptr, old_layout, new_layout);
        }
        check_grow_precondition(ptr, old_layout, new_layout.size());
        self.callbacks.before_grow_in_place_zeroed(ptr, old_layout, new_layout);
        let result = self.alloc.grow_in_place_zeroed(mem, ptr, old_layout, new_layout);
        self.callbacks.after_grow_in_place_zeroed(ptr, old_layout, new_layout, result);
        result
    }

    fn shrink_in_place(
        &mut self,
        mem: &mut Memory,
        ptr: usize,
        old_layout: Layout,
        new_layout: Layout,
    ) -> (r: Result<usize, AllocError>)
        ensures
            exists|before: &mut C, after: &mut C|
                mut_ref_current(before) == old(self).callbacks
                && mut_ref_future(before) == mut_ref_current(after)
                && mut_ref_future(after) == final(self).callbacks
                && call_ensures(C::before_shrink_in_place, (before, ptr, old_layout, new_layout), ())
                && call_ensures(C::after_shrink_in_place, (after, ptr, old_layout, new_layout, r), ()),
    {
        proof {
            self.alloc.lemma_shrink_pre(ptr, old_layout, new_layout);
        }
        check_shrink_precondition(ptr, old_layout, new_layout.size());
        self.callbacks.before_shrink_in_place(ptr, old_layout, new_layout);
        let result = self.alloc.shrink_in_place(mem, ptr, old_layout, new_layout);
        self.callbacks.after_shrink_in_place(ptr, old_layout, new_layout, result);
        result
    }
}

impl<A: crate::HandsBack, C: CallbackRef> crate::HandsBack for Proxy<A, C> {
    proof fn lemma_alloc_dealloc_pre(
        &self,
        mem: MemView,
        layout: Layout,
        init: AllocInit,
        next: Self,
        next_mem: MemView,
        r: AllocResult,
    ) {
        self.alloc.lemma_alloc_dealloc_pre(mem, layout, init, next.alloc, next_mem, r);
    }

    proof fn lemma_resize_pre(&self, lo: int, hi: int, ptr: usize, old_layout: Layout, new_layout: Layout) {
        self.alloc.lemma_resize_pre(lo, hi, ptr, old_layout, new_layout);
    }
}

impl<A: Owns, C: CallbackRef> Owns for Proxy<A, C> {
    open spec fn owns_spec(&self, memory: MemoryBlock) -> bool {
        self.alloc.owns_spec(memory)
    }

    proof fn lemma_owns_equiv(&self, other: Self, memory: MemoryBlock) {
        self.alloc.lemma_owns_equiv(other.alloc, memory);
    }

    fn owns(&mut self, memory: MemoryBlock) -> (r: bool)
        ensures
            exists|before: &mut C, after: &mut C|
                mut_ref_current(before) == old(self).callbacks
                && mut_ref_future(before) == mut_ref_current(after)
                && mut_ref_future(after) == final(self).callbacks
                && call_ensures(C::before_owns, (before,), ())
                && call_ensures(C::after_owns, (after, r), ()),
    {
        self.callbacks.before_owns();
        let owns = self.alloc.owns(memory);
        self.callbacks.after_owns(owns);
        owns
    }
}

} // verus!
