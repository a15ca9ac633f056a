use crate::helper::{
    grow_fallback, grow_fallback_rel, shrink_fallback, shrink_fallback_rel,
};
use crate::{
    AllocAll, AllocError, AllocInit, AllocRef, AllocResult, Layout, MemView, Memory, MemoryBlock,
    Owns,
};
use vstd::prelude::*;

verus! {

/// Dispatches calls to `AllocRef` between two allocators depending on the size allocated.
///
/// All allocations smaller than or equal to `THRESHOLD` will be dispatched to `Small`. The others
/// will go to `Large`. A block handed out by `Small` is reported with a length of at most
/// `THRESHOLD`, so that it is dispatched to `Small` again when it is handed back.
#[derive(Debug, Copy, Clone)]
pub struct Segregate<Small, Large, const THRESHOLD: usize> {
    /// The allocator for sizes up to `THRESHOLD`
    pub small: Small,
    /// The allocator for sizes above `THRESHOLD`
    pub large: Large,
}

/// The block `b` with its length cut to `threshold`.
pub open spec fn clamp_block(b: MemoryBlock, threshold: usize) -> MemoryBlock {
    MemoryBlock { ptr: b.ptr, len: if b.len <= threshold { b.len } else { threshold } }
}

/// The result `r` with the length of its block cut to `threshold`.
pub open spec fn clamp_result(r: AllocResult, threshold: usize) -> AllocResult {
    match r {
        Ok(b) => Ok(clamp_block(b, threshold)),
        Err(e) => Err(e),
    }
}

impl<Small, Large, const THRESHOLD: usize> Segregate<Small, Large, THRESHOLD> {
    fn clamped(ptr: MemoryBlock) -> (r: MemoryBlock)
        ensures
            r == clamp_block(ptr, THRESHOLD),
    {
        MemoryBlock { ptr: ptr.ptr, len: if ptr.len <= THRESHOLD { ptr.len } else { THRESHOLD } }
    }

    /// Cutting a block that serves `layout`, with `layout.size() <= THRESHOLD`, keeps it serving
    /// `layout`.
    proof fn lemma_clamped_fits(b: MemoryBlock, layout: Layout, lo: int, hi: int)
        requires
            layout.size() <= THRESHOLD,
            crate::block_fits(b, layout, lo, hi),
        ensures
            crate::block_fits(clamp_block(b, THRESHOLD), layout, lo, hi),
    {
    }
}

impl<Small: AllocRef, Large: AllocRef, const THRESHOLD: usize> Segregate<Small, Large, THRESHOLD> {
    fn alloc_impl(&mut self, mem: &mut Memory, layout: Layout, init: AllocInit) -> (r: AllocResult)
        requires
            old(self).inv(old(mem).lo(), old(mem).hi()),
            old(mem).wf(),
        ensures
            final(mem)@.same_range(old(mem)@),
            final(self).inv(final(mem).lo(), final(mem).hi()),
            old(self).alloc_rel(old(mem)@, layout, init, *final(self), final(mem)@, r),
            r is Ok ==> crate::block_fits(r->Ok_0, layout, old(mem).lo(), old(mem).hi()),
            r is Err ==> final(mem)@ == old(mem)@ && old(self).equiv(*final(self)),
    {
        let ghost s0 = self.small;
        let ghost l0 = self.large;
        let ghost m0 = mem@;
        proof {
            s0.lemma_equiv_refl();
            l0.lemma_equiv_refl();
        }
        if layout.size() <= THRESHOLD {
            let r0 = match init {
                AllocInit::Uninitialized => self.small.allocate(mem, layout),
                AllocInit::Zeroed => self.small.allocate_zeroed(mem, layout),
            };
            proof {
                assert(s0.alloc_rel(m0, layout, init, self.small, mem@, r0));
            }
            match r0 {
                Ok(memory) => {
                    proof {
                        Self::lemma_clamped_fits(memory, layout, m0.lo(), m0.hi());
                    }
                    Ok(Self::clamped(memory))
                },
                Err(e) => Err(e),
            }
        } else {
            let r = match init {
                AllocInit::Uninitialized => self.large.allocate(mem, layout),
                AllocInit::Zeroed => self.large.allocate_zeroed(mem, layout),
            };
            proof {
                assert(l0.alloc_rel(m0, layout, init, self.large, mem@, r));
            }
            r
        }
    }

    fn grow_impl(
        &mut self,
        mem: &mut Memory,
        ptr: usize,
        old_layout: Layout,
        new_layout: Layout,
        init: AllocInit,
    ) -> (r: AllocResult)
        requires
            old(self).inv(old(mem).lo(), old(mem).hi()),
            old(mem).wf(),
            old(self).grow_pre(ptr, old_layout, new_layout),
        ensures
            final(mem)@.same_range(old(mem)@),
            final(self).inv(final(mem).lo(), final(mem).hi()),
            old(self).grow_rel(
                old(mem)@,
                ptr,
                old_layout,
                new_layout,
                init,
                *final(self),
                final(mem)@,
                r,
            ),
            r is Ok ==> crate::block_fits(r->Ok_0, new_layout, old(mem).lo(), old(mem).hi()),
            r is Ok ==> forall|i: int|
                0 <= i < old_layout.size() ==> #[trigger] final(mem)@.byte(r->Ok_0.ptr + i)
                    == old(mem)@.byte(ptr + i),
            r is Err ==> final(mem)@ == old(mem)@ && old(self).equiv(*final(self)),
    {
        let ghost s0 = self.small;
        let ghost l0 = self.large;
        let ghost m0 = mem@;
        proof {
            s0.lemma_equiv_refl();
            l0.lemma_equiv_refl();
        }
        if old_layout.size() <= THRESHOLD {
            if new_layout.size() > THRESHOLD {
                grow_fallback(
                    &mut self.small,
                    &mut self.large,
                    mem,
                    ptr,
                    old_layout,
                    new_layout,
                    init,
                )
            } else {
                let r0 = match init {
                    AllocInit::Uninitialized => self.small.grow(mem, ptr, old_layout, new_layout),
                    AllocInit::Zeroed => self.small.grow_zeroed(mem, ptr, old_layout, new_layout),
                };
                proof {
                    assert(s0.grow_rel(m0, ptr, old_layout, new_layout, init, self.small, mem@, r0));
                }
                match r0 {
                    Ok(memory) => {
                        proof {
                            Self::lemma_clamped_fits(memory, new_layout, m0.lo(), m0.hi());
                        }
                        Ok(Self::clamped(memory))
                    },
                    Err(e) => Err(e),
                }
            }
        } else {
            let r = match init {
                AllocInit::Uninitialized => self.large.grow(mem, ptr, old_layout, new_layout),
                AllocInit::Zeroed => self.large.grow_zeroed(mem, ptr, old_layout, new_layout),
            };
            proof {
                assert(l0.grow_rel(m0, ptr, old_layout, new_layout, init, self.large, mem@, r));
            }
            r
        }
    }
}

impl<Small: AllocRef, Large: AllocRef, const THRESHOLD: usize> AllocRef for Segregate<
    Small,
    Large,
    THRESHOLD,
> {
    open spec fn inv(&self, lo: int, hi: int) -> bool {
        self.small.inv(lo, hi) && self.large.inv(lo, hi)
    }

    open spec fn equiv(&self, other: Self) -> bool {
        self.small.equiv(other.small) && self.large.equiv(other.large)
    }

    /// Requests up to `THRESHOLD` bytes go to the small allocator, whose blocks are cut to
    /// `THRESHOLD`; larger requests go to the large allocator.
    open spec fn alloc_rel(
        &self,
        mem: MemView,
        layout: Layout,
        init: AllocInit,
        next: Self,
        next_mem: MemView,
        r: AllocResult,
    ) -> bool {
        if layout.size() <= THRESHOLD {
            &&& next.large == self.large
            &&& exists|r0: AllocResult|
                #[trigger] self.small.alloc_rel(mem, layout, init, next.small, next_mem, r0) && r
                    == clamp_result(r0, THRESHOLD)
        } else {
            &&& next.small == self.small
            &&& self.large.alloc_rel(mem, layout, init, next.large, next_mem, r)
        }
    }

    open spec fn dealloc_pre(&self, ptr: usize, layout: Layout) -> bool {
        if layout.size() <= THRESHOLD {
            self.small.dealloc_pre(ptr, layout)
        } else {
            self.large.dealloc_pre(ptr, layout)
        }
    }

    open spec fn dealloc_rel(
        &self,
        mem: MemView,
        ptr: usize,
        layout: Layout,
        next: Self,
        next_mem: MemView,
    ) -> bool {
        if layout.size() <= THRESHOLD {
            next.large == self.large && self.small.dealloc_rel(mem, ptr, layout, next.small, next_mem)
        } else {
            next.small == self.small && self.large.dealloc_rel(mem, ptr, layout, next.large, next_mem)
        }
    }

    open spec fn grow_pre(&self, ptr: usize, old_layout: Layout, new_layout: Layout) -> bool {
        if old_layout.size() <= THRESHOLD {
            &&& self.small.dealloc_pre(ptr, old_layout)
            &&& old_layout.size() <= new_layout.size()
            &&& new_layout.size() <= THRESHOLD ==> self.small.grow_pre(ptr, old_layout, new_layout)
        } else {
            self.large.grow_pre(ptr, old_layout, new_layout)
        }
    }

    /// A small block that grows beyond `THRESHOLD` moves to the large allocator.
    open spec fn grow_rel(
        &self,
        mem: MemView,
        ptr: usize,
        old_layout: Layout,
        new_layout: Layout,
        init: AllocInit,
        next: Self,
        next_mem: MemView,
        r: AllocResult,
    ) -> bool {
        if old_layout.size() <= THRESHOLD {
            if new_layout.size() > THRESHOLD {
                grow_fallback_rel(
                    self.small,
                    self.large,
                    mem,
                    ptr,
                    old_layout,
                    new_layout,
                    init,
                    next.small,
                    next.large,
                    next_mem,
                    r,
                )
            } else {
                &&& next.large == self.large
                &&& exists|r0: AllocResult|
                    #[trigger] self.small.grow_rel(
                        mem,
                        ptr,
                        old_layout,
                        new_layout,
                        init,
                        next.small,
                        next_mem,
                        r0,
                    ) && r == clamp_result(r0, THRESHOLD)
            }
        } else {
            &&& next.small == self.small
            &&& self.large.grow_rel(mem, ptr, old_layout, new_layout, init, next.large, next_mem, r)
        }
    }

    open spec fn shrink_pre(&self, ptr: usize, old_layout: Layout, new_layout: Layout) -> bool {
        if old_layout.size() <= THRESHOLD {
            self.small.shrink_pre(ptr, old_layout, new_layout)
        } else if new_layout.size() <= THRESHOLD {
            self.large.dealloc_pre(ptr, old_layout) && new_layout.size() <= old_layout.size()
        } else {
            self.large.shrink_pre(ptr, old_layout, new_layout)
        }
    }

    /// A large block that shrinks to `THRESHOLD` or less moves to the small allocator.
    open spec fn shrink_rel(
        &self,
        mem: MemView,
        ptr: usize,
        old_layout: Layout,
        new_layout: Layout,
        next: Self,
        next_mem: MemView,
        r: AllocResult,
    ) -> bool {
        if old_layout.size() <= THRESHOLD {
            &&& next.large == self.large
            &&& exists|r0: AllocResult|
                #[trigger] self.small.shrink_rel(
                    mem,
                    ptr,
                    old_layout,
                    new_layout,
                    next.small,
                    next_mem,
                    r0,
                ) && r == clamp_result(r0, THRESHOLD)
        } else if new_layout.size() <= THRESHOLD {
            exists|r0: AllocResult|
                #[trigger] shrink_fallback_rel(
                    self.large,
                    self.small,
                    mem,
                    ptr,
                    old_layout,
                    new_layout,
                    next.large,
                    next.small,
                    next_mem,
                    r0,
                ) && r == clamp_result(r0, THRESHOLD)
        } else {
            &&& next.small == self.small
            &&& self.large.shrink_rel(mem, ptr, old_layout, new_layout, next.large, next_mem, r)
        }
    }

    proof fn lemma_dealloc_pre(&self, lo: int, hi: int, ptr: usize, layout: Layout) {
        if layout.size() <= THRESHOLD {
            self.small.lemma_dealloc_pre(lo, hi, ptr, layout);
        } else {
            self.large.lemma_dealloc_pre(lo, hi, ptr, layout);
        }
    }

    proof fn lemma_grow_pre(&self, ptr: usize, old_layout: Layout, new_layout: Layout) {
        if old_layout.size() > THRESHOLD {
            self.large.lemma_grow_pre(ptr, old_layout, new_layout);
        }
    }

    proof fn lemma_shrink_pre(&self, ptr: usize, old_layout: Layout, new_layout: Layout) {
        if old_layout.size() <= THRESHOLD {
            self.small.lemma_shrink_pre(ptr, old_layout, new_layout);
        } else if new_layout.size() > THRESHOLD {
            self.large.lemma_shrink_pre(ptr, old_layout, new_layout);
        }
    }

    proof fn lemma_equiv(
        &self,
        other: Self,
        lo: int,
        hi: int,
        ptr: usize,
        l1: Layout,
        l2: Layout,
    ) {
        self.small.lemma_equiv(other.small, lo, hi, ptr, l1, l2);
        self.large.lemma_equiv(other.large, lo, hi, ptr, l1, l2);
    }

    proof fn lemma_equiv_refl(&self) {
        self.small.lemma_equiv_refl();
        self.large.lemma_equiv_refl();
    }

    proof fn lemma_alloc_zeroed(
        &self,
        mem: MemView,
        layout: Layout,
        next: Self,
        next_mem: MemView,
        r: AllocResult,
    ) {
        if layout.size() <= THRESHOLD {
            let r0 = choose|r0: AllocResult|
                #[trigger] self.small.alloc_rel(mem, layout, AllocInit::Zeroed, next.small, next_mem, r0)
                    && r == clamp_result(r0, THRESHOLD);
            self.small.lemma_alloc_zeroed(mem, layout, next.small, next_mem, r0);
        } else {
            self.large.lemma_alloc_zeroed(mem, layout, next.large, next_mem, r);
        }
    }

    proof fn lemma_equiv_trans(&self, b: Self, c: Self) {
        self.small.lemma_equiv_trans(b.small, c.small);
        self.large.lemma_equiv_trans(b.large, c.large);
    }

    fn allocate(&mut self, mem: &mut Memory, layout: Layout) -> (r: AllocResult) {
        self.alloc_impl(mem, layout, AllocInit::Uninitialized)
    }

    fn allocate_zeroed(&mut self, mem: &mut Memory, layout: Layout) -> (r: AllocResult) {
        self.alloc_impl(mem, layout, AllocInit::Zeroed)
    }

    fn deallocate(&mut self, mem: &mut Memory, ptr: usize, layout: Layout) {
        if layout.size() <= THRESHOLD {
            self.small.deallocate(mem, ptr, layout)
        } else {
            self.large.deallocate(mem, ptr, layout)
        }
    }

    fn grow(&mut self, mem: &mut Memory, ptr: usize, old_layout: Layout, new_layout: Layout) -> (r:
        AllocResult) {
        self.grow_impl(mem, ptr, old_layout, new_layout, AllocInit::Uninitialized)
    }

    fn grow_zeroed(
        &mut self,
        mem: &mut Memory,
        ptr: usize,
        old_layout: Layout,
        new_layout: Layout,
    ) -> (r: AllocResult) {
        self.grow_impl(mem, ptr, old_layout, new_layout, AllocInit::Zeroed)
    }

    fn shrink(&mut self, mem: &mut Memory, ptr: usize, old_layout: Layout, new_layout: Layout) -> (r:
        AllocResult) {
        let ghost s0 = self.small;
        let ghost l0 = self.large;
        let ghost m0 = mem@;
        proof {
            s0.lemma_equiv_refl();
            l0.lemma_equiv_refl();
        }
        if old_layout.size() <= THRESHOLD {
            proof {
                s0.lemma_shrink_pre(ptr, old_layout, new_layout);
            }
            let r0 = self.small.shrink(mem, ptr, old_layout, new_layout);
            proof {
                assert(s0.shrink_rel(m0, ptr, old_layout, new_layout, self.small, mem@, r0));
            }
            match r0 {
                Ok(memory) => {
                    proof {
                        Self::lemma_clamped_fits(memory, new_layout, m0.lo(), m0.hi());
                    }
                    Ok(Self::clamped(memory))
                },
                Err(e) => Err(e),
            }
        } else if new_layout.size() <= THRESHOLD {
            let r0 = shrink_fallback(
                &mut self.large,
                &mut self.small,
                mem,
                ptr,
                old_layout,
                new_layout,
            );
            proof {
                assert(shrink_fallback_rel(
                    l0,
                    s0,
                    m0,
                    ptr,
                    old_layout,
                    new_layout,
                    self.large,
                    self.small,
                    mem@,
                    r0,
                ));
            }
            match r0 {
                Ok(memory) => {
                    proof {
                        Self::lemma_clamped_fits(memory, new_layout, m0.lo(), m0.hi());
                    }
                    Ok(Self::clamped(memory))
                },
                Err(e) => Err(e),
            }
        } else {
            let r = self.large.shrink(mem, ptr, old_layout, new_layout);
            proof {
                assert(l0.shrink_rel(m0, ptr, old_layout, new_layout, self.large, mem@, r));
            }
            r
        }
    }
}

impl<Small: AllocAll, Large: AllocAll, const THRESHOLD: usize> Segregate<Small, Large, THRESHOLD> {
    fn alloc_all_impl(&mut self, mem: &mut Memory, layout: Layout, init: AllocInit) -> (r:
        AllocResult)
        requires
            old(self).inv(old(mem).lo(), old(mem).hi()),
            old(mem).wf(),
        ensures
            final(mem)@.same_range(old(mem)@),
            final(self).inv(final(mem).lo(), final(mem).hi()),
            old(self).alloc_all_rel(old(mem)@, layout, init, *final(self), final(mem)@, r),
            r is Ok ==> crate::block_fits(r->Ok_0, layout, old(mem).lo(), old(mem).hi()),
            r is Err ==> final(mem)@ == old(mem)@ && old(self).equiv(*final(self)),
    {
        let ghost s0 = self.small;
        let ghost l0 = self.large;
        let ghost m0 = mem@;
        proof {
            s0.lemma_equiv_refl();
            l0.lemma_equiv_refl();
        }
        if layout.size() <= THRESHOLD {
            let r0 = match init {
                AllocInit::Uninitialized => self.small.alloc_all(mem, layout),
                AllocInit::Zeroed => self.small.alloc_all_zeroed(mem, layout),
            };
            proof {
                assert(s0.alloc_all_rel(m0, layout, init, self.small, mem@, r0));
            }
            match r0 {
                Ok(memory) => {
                    proof {
                        Self::lemma_clamped_fits(memory, layout, m0.lo(), m0.hi());
                    }
                    Ok(Self::clamped(memory))
                },
                Err(e) => Err(e),
            }
        } else {
            let r = match init {
                AllocInit::Uninitialized => self.large.alloc_all(mem, layout),
                AllocInit::Zeroed => self.large.alloc_all_zeroed(mem, layout),
            };
            proof {
                assert(l0.alloc_all_rel(m0, layout, init, self.large, mem@, r));
            }
            r
        }
    }
}

impl<Small: AllocAll, Large: AllocAll, const THRESHOLD: usize> AllocAll for Segregate<
    Small,
    Large,
    THRESHOLD,
> {
    open spec fn alloc_all_rel(
        &self,
        mem: MemView,
        layout: Layout,
        init: AllocInit,
        next: Self,
        next_mem: MemView,
        r: AllocResult,
    ) -> bool {
        if layout.size() <= THRESHOLD {
            &&& next.large == self.large
            &&& exists|r0: AllocResult|
                #[trigger] self.small.alloc_all_rel(mem, layout, init, next.small, next_mem, r0)
                    && r == clamp_result(r0, THRESHOLD)
        } else {
            &&& next.small == self.small
            &&& self.large.alloc_all_rel(mem, layout, init, next.large, next_mem, r)
        }
    }

    /// Both allocators deallocate all their memory.
    open spec fn dealloc_all_rel(&self, mem: MemView, next: Self, next_mem: MemView) -> bool {
        exists|m1: MemView|
            #[trigger] self.small.dealloc_all_rel(mem, next.small, m1)
                && self.large.dealloc_all_rel(m1, next.large, next_mem)
    }

    /// The sum of the two capacities, wrapping on overflow.
    open spec fn capacity_spec(&self) -> usize {
        vstd::wrapping::usize_specs::wrapping_add(
            self.small.capacity_spec(),
            self.large.capacity_spec(),
        )
    }

    /// The sum of the two capacities left, wrapping on overflow.
    open spec fn capacity_left_spec(&self) -> usize {
        vstd::wrapping::usize_specs::wrapping_add(
            self.small.capacity_left_spec(),
            self.large.capacity_left_spec(),
        )
    }

    fn alloc_all(&mut self, mem: &mut Memory, layout: Layout) -> (r: AllocResult) {
        self.alloc_all_impl(mem, layout, AllocInit::Uninitialized)
    }

    fn alloc_all_zeroed(&mut self, mem: &mut Memory, layout: Layout) -> (r: AllocResult) {
        self.alloc_all_impl(mem, layout, AllocInit::Zeroed)
    }

    fn dealloc_all(&mut self, mem: &mut Memory) {
        let ghost s0 = self.small;
        let ghost m0 = mem@;
        self.small.dealloc_all(mem);
        let ghost m1 = mem@;
        self.large.dealloc_all(mem);
        proof {
            assert(s0.dealloc_all_rel(m0, self.small, m1));
        }
    }

    fn capacity(&self) -> (r: usize) {
        self.small.capacity().wrapping_add(self.large.capacity())
    }

    fn capacity_left(&self) -> (r: usize) {
        self.small.capacity_left().wrapping_add(self.large.capacity_left())
    }
}

impl<
    Small: crate::HandsBack,
    Large: crate::HandsBack,
    const THRESHOLD: usize,
> crate::HandsBack for Segregate<Small, Large, THRESHOLD> {
    proof fn lemma_alloc_dealloc_pre(
        &self,
        mem: MemView,
        layout: Layout,
        init: AllocInit,
        next: Self,
        next_mem: MemView,
        r: AllocResult,
    ) {
        if layout.size() <= THRESHOLD {
            let r0 = choose|r0: AllocResult|
                #[trigger] self.small.alloc_rel(mem, layout, init, next.small, next_mem, r0) && r
                    == clamp_result(r0, THRESHOLD);
            self.small.lemma_alloc_dealloc_pre(mem, layout, init, next.small, next_mem, r0);
        } else {
            self.large.lemma_alloc_dealloc_pre(mem, layout, init, next.large, next_mem, r);
        }
    }

    proof fn lemma_resize_pre(&self, lo: int, hi: int, ptr: usize, old_layout: Layout, new_layout: Layout) {
        if old_layout.size() <= THRESHOLD {
            self.small.lemma_resize_pre(lo, hi, ptr, old_layout, new_layout);
        } else {
            self.large.lemma_resize_pre(lo, hi, ptr, old_layout, new_layout);
        }
    }
}

impl<Small: Owns, Large: Owns, const THRESHOLD: usize> Owns for Segregate<Small, Large, THRESHOLD> {
    open spec fn owns_spec(&self, memory: MemoryBlock) -> bool {
        if memory.len <= THRESHOLD {
            self.small.owns_spec(memory)
        } else {
            self.large.owns_spec(memory)
        }
    }

    proof fn lemma_owns_equiv(&self, other: Self, memory: MemoryBlock) {
        self.small.lemma_owns_equiv(other.small, memory);
        self.large.lemma_owns_equiv(other.large, memory);
    }

    fn owns(&mut self, memory: MemoryBlock) -> (r: bool) {
        proof {
            self.small.lemma_equiv_refl();
            self.large.lemma_equiv_refl();
        }
        if memory.len <= THRESHOLD {
            self.small.owns(memory)
        } else {
            self.large.owns(memory)
        }
    }
}

impl<Small: AllocRef, Large: AllocRef, const THRESHOLD: usize> Segregate<Small, Large, THRESHOLD> {
    /// A request of at most `THRESHOLD` bytes is served by `Small` and leaves `Large` as it is;
    /// the block it gets is reported with at most `THRESHOLD` bytes. A larger request is served
    /// by `Large` and leaves `Small` as it is.
    pub proof fn lemma_alloc_dispatch(
        self,
        mem: MemView,
        layout: Layout,
        init: AllocInit,
        next: Self,
        next_mem: MemView,
        r: AllocResult,
    )
        requires
            self.alloc_rel(mem, layout, init, next, next_mem, r),
        ensures
            layout.size() <= THRESHOLD ==> next.large == self.large && (r is Ok ==> r->Ok_0.len
                <= THRESHOLD),
            layout.size() > THRESHOLD ==> next.small == self.small && self.large.alloc_rel(
                mem,
                layout,
                init,
                next.large,
                next_mem,
                r,
            ),
    {
        if layout.size() <= THRESHOLD {
            let r0 = choose|r0: AllocResult|
                #[trigger] self.small.alloc_rel(mem, layout, init, next.small, next_mem, r0) && r
                    == clamp_result(r0, THRESHOLD);
        }
    }
}

} // verus!
