use crate::helper::{grow_fallback, grow_fallback_rel};
use crate::{AllocInit, AllocRef, AllocResult, Layout, MemView, Memory, MemoryBlock, Owns};
use vstd::prelude::*;

verus! {

/// An allocator equivalent of an "or" operator in algebra.
///
/// An allocation request is first attempted with the `Primary` allocator. If that fails, the
/// request is forwarded to the `Secondary` allocator. All other requests are dispatched
/// appropriately to one of the two allocators: a block the primary allocator owns goes to it,
/// any other block to the secondary allocator. A block owned by the primary allocator that it
/// cannot grow is moved to the secondary allocator.
#[derive(Debug, Copy, Clone)]
pub struct Fallback<Primary, Secondary> {
    /// The primary allocator
    pub primary: Primary,
    /// The fallback allocator
    pub secondary: Secondary,
}

impl<P: AllocRef + Owns, S: AllocRef> Fallback<P, S> {
    /// The block at `ptr` described by `layout`, as it is passed to `owns`.
    pub open spec fn block_of(ptr: usize, layout: Layout) -> MemoryBlock {
        MemoryBlock { ptr, len: layout.size() }
    }

    fn grow_impl(
        &mut self,
        mem: &mut Memory,
        ptr: usize,
        old_layout: Layout,
        new_layout: Layout,
        init: AllocInit,
    ) -> (r: AllocResult)
        requires
            old(self).inv(old(mem).lo(), old(mem).hi()),
            old(mem).wf(),
            old(self).grow_pre(ptr, old_layout, new_layout),
        ensures
            final(mem)@.same_range(old(mem)@),
            final(self).inv(final(mem).lo(), final(mem).hi()),
            old(self).grow_rel(
                old(mem)@,
                ptr,
                old_layout,
                new_layout,
                init,
                *final(self),
                final(mem)@,
                r,
            ),
            r is Ok ==> crate::block_fits(r->Ok_0, new_layout, old(mem).lo(), old(mem).hi()),
            r is Ok ==> forall|i: int|
                0 <= i < old_layout.size() ==> #[trigger] final(mem)@.byte(r->Ok_0.ptr + i)
                    == old(mem)@.byte(ptr + i),
            r is Err ==> final(mem)@ == old(mem)@ && old(self).equiv(*final(self)),
    {
        let ghost p0 = self.primary;
        let ghost s0 = self.secondary;
        let ghost m0 = mem@;
        let blk = MemoryBlock { ptr, len: old_layout.size() };
        if self.primary.owns(blk) {
            let ghost p1 = self.primary;
            proof {
                p0.lemma_equiv(p1, m0.lo(), m0.hi(), ptr, old_layout, new_layout);
                s0.lemma_equiv_refl();
            }
            let r2 = match init {
                AllocInit::Uninitialized => self.primary.grow(mem, ptr, old_layout, new_layout),
                AllocInit::Zeroed => self.primary.grow_zeroed(mem, ptr, old_layout, new_layout),
            };
            let ghost p2 = self.primary;
            let ghost m2 = mem@;
            proof {
                assert(p1.grow_rel(m0, ptr, old_layout, new_layout, init, p2, m2, r2));
            }
            match r2 {
                Ok(m) => Ok(m),
                Err(_) => {
                    proof {
                        p1.lemma_grow_pre(ptr, old_layout, new_layout);
                        p1.lemma_equiv(p2, m0.lo(), m0.hi(), ptr, old_layout, new_layout);
                        p0.lemma_equiv_trans(p1, p2);
                    }
                    let r = grow_fallback(
                        &mut self.primary,
                        &mut self.secondary,
                        mem,
                        ptr,
                        old_layout,
                        new_layout,
                        init,
                    );
                    r
                },
            }
        } else {
            let ghost p1 = self.primary;
            proof {
                p0.lemma_equiv(p1, m0.lo(), m0.hi(), ptr, old_layout, new_layout);
            }
            let r = match init {
                AllocInit::Uninitialized => self.secondary.grow(mem, ptr, old_layout, new_layout),
                AllocInit::Zeroed => self.secondary.grow_zeroed(mem, ptr, old_layout, new_layout),
            };
            proof {
                assert(s0.grow_rel(m0, ptr, old_layout, new_layout, init, self.secondary, mem@, r));
            }
            r
        }
    }

    fn alloc_impl(&mut self, mem: &mut Memory, layout: Layout, init: AllocInit) -> (r: AllocResult)
        requires
            old(self).inv(old(mem).lo(), old(mem).hi()),
            old(mem).wf(),
        ensures
            final(mem)@.same_range(old(mem)@),
            final(self).inv(final(mem).lo(), final(mem).hi()),
            old(self).alloc_rel(old(mem)@, layout, init, *final(self), final(mem)@, r),
            r is Ok ==> crate::block_fits(r->Ok_0, layout, old(mem).lo(), old(mem).hi()),
            r is Err ==> final(mem)@ == old(mem)@ && old(self).equiv(*final(self)),
    {
        let ghost p0 = self.primary;
        let ghost s0 = self.secondary;
        let ghost m0 = mem@;
        let r1 = match init {
            AllocInit::Uninitialized => self.primary.allocate(mem, layout),
            AllocInit::Zeroed => self.primary.allocate_zeroed(mem, layout),
        };
        proof {
            assert(p0.alloc_rel(m0, layout, init, self.primary, mem@, r1));
        }
        match r1 {
            Ok(m) => Ok(m),
            Err(_) => {
                let r = match init {
                    AllocInit::Uninitialized => self.secondary.allocate(mem, layout),
                    AllocInit::Zeroed => self.secondary.allocate_zeroed(mem, layout),
                };
                proof {
                    assert(s0.alloc_rel(m0, layout, init, self.secondary, mem@, r));
                }
                r
            },
        }
    }
}

impl<P: AllocRef + Owns, S: AllocRef> AllocRef for Fallback<P, S> {
    open spec fn inv(&self, lo: int, hi: int) -> bool {
        self.primary.inv(lo, hi) && self.secondary.inv(lo, hi)
    }

    open spec fn equiv(&self, other: Self) -> bool {
        self.primary.equiv(other.primary) && self.secondary.equiv(other.secondary)
    }

    /// The primary allocator is tried first; when it fails, the fallback allocator serves the
    /// request.
    open spec fn alloc_rel(
        &self,
        mem: MemView,
        layout: Layout,
        init: AllocInit,
        next: Self,
        next_mem: MemView,
        r: AllocResult,
    ) -> bool {
        exists|m1: MemView, r1: AllocResult|
            #[trigger] self.primary.alloc_rel(mem, layout, init, next.primary, m1, r1) && if r1 is Ok {
                next.secondary == self.secondary && next_mem == m1 && r == r1
            } else {
                m1 == mem && self.secondary.alloc_rel(mem, layout, init, next.secondary, next_mem, r)
            }
    }

    /// A block owned by the primary allocator goes back to it, any other block to the fallback
    /// allocator.
    open spec fn dealloc_pre(&self, ptr: usize, layout: Layout) -> bool {
        if self.primary.owns_spec(Self::block_of(ptr, layout)) {
            self.primary.dealloc_pre(ptr, layout)
        } else {
            self.secondary.dealloc_pre(ptr, layout)
        }
    }

    open spec fn dealloc_rel(
        &self,
        mem: MemView,
        ptr: usize,
        layout: Layout,
        next: Self,
        next_mem: MemView,
    ) -> bool {
        exists|p1: P|
            #[trigger] self.primary.equiv(p1) && if self.primary.owns_spec(
                Self::block_of(ptr, layout),
            ) {
                p1.dealloc_rel(mem, ptr, layout, next.primary, next_mem) && next.secondary == self.secondary
            } else {
                next.primary == p1 && self.secondary.dealloc_rel(mem, ptr, layout, next.secondary, next_mem)
            }
    }

    open spec fn grow_pre(&self, ptr: usize, old_layout: Layout, new_layout: Layout) -> bool {
        if self.primary.owns_spec(Self::block_of(ptr, old_layout)) {
            self.primary.grow_pre(ptr, old_layout, new_layout)
        } else {
            self.secondary.grow_pre(ptr, old_layout, new_layout)
        }
    }

    /// A block owned by the primary allocator is grown by it; when that fails, it is moved to the
    /// fallback allocator. Any other block is grown by the fallback allocator.
    open spec fn grow_rel(
        &self,
        mem: MemView,
        ptr: usize,
        old_layout: Layout,
        new_layout: Layout,
        init: AllocInit,
        next: Self,
        next_mem: MemView,
        r: AllocResult,
    ) -> bool {
        if self.primary.owns_spec(Self::block_of(ptr, old_layout)) {
            exists|p1: P, p2: P, m2: MemView, r2: AllocResult|
                {
                    &&& self.primary.equiv(p1)
                    &&& #[trigger] p1.grow_rel(mem, ptr, old_layout, new_layout, init, p2, m2, r2)
                    &&& r2 is Ok ==> next.primary == p2 && next.secondary == self.secondary && next_mem == m2
                        && r == r2
                    &&& r2 is Err ==> grow_fallback_rel(
                        p2,
                        self.secondary,
                        m2,
                        ptr,
                        old_layout,
                        new_layout,
                        init,
                        next.primary,
                        next.secondary,
                        next_mem,
                        r,
                    )
                }
        } else {
            exists|p1: P|
                #[trigger] self.primary.equiv(p1) && next.primary == p1 && self.secondary.grow_rel(
                    mem,
                    ptr,
                    old_layout,
                    new_layout,
                    init,
                    next.secondary,
                    next_mem,
                    r,
                )
        }
    }

    open spec fn shrink_pre(&self, ptr: usize, old_layout: Layout, new_layout: Layout) -> bool {
        if self.primary.owns_spec(Self::block_of(ptr, old_layout)) {
            self.primary.shrink_pre(ptr, old_layout, new_layout)
        } else {
            self.secondary.shrink_pre(ptr, old_layout, new_layout)
        }
    }

    /// A block is shrunk by the allocator that owns it.
    open spec fn shrink_rel(
        &self,
        mem: MemView,
        ptr: usize,
        old_layout: Layout,
        new_layout: Layout,
        next: Self,
        next_mem: MemView,
        r: AllocResult,
    ) -> bool {
        exists|p1: P|
            #[trigger] self.primary.equiv(p1) && if self.primary.owns_spec(
                Self::block_of(ptr, old_layout),
            ) {
                p1.shrink_rel(mem, ptr, old_layout, new_layout, next.primary, next_mem, r)
                    && next.secondary == self.secondary
            } else {
                next.primary == p1 && self.secondary.shrink_rel(
                    mem,
                    ptr,
                    old_layout,
                    new_layout,
                    next.secondary,
                    next_mem,
                    r,
                )
            }
    }

    proof fn lemma_dealloc_pre(&self, lo: int, hi: int, ptr: usize, layout: Layout) {
        if self.primary.owns_spec(Self::block_of(ptr, layout)) {
            self.primary.lemma_dealloc_pre(lo, hi, ptr, layout);
        } else {
            self.secondary.lemma_dealloc_pre(lo, hi, ptr, layout);
        }
    }

    proof fn lemma_grow_pre(&self, ptr: usize, old_layout: Layout, new_layout: Layout) {
        if self.primary.owns_spec(Self::block_of(ptr, old_layout)) {
            self.primary.lemma_grow_pre(ptr, old_layout, new_layout);
        } else {
            self.secondary.lemma_grow_pre(ptr, old_layout, new_layout);
        }
    }

    proof fn lemma_shrink_pre(&self, ptr: usize, old_layout: Layout, new_layout: Layout) {
        if self.primary.owns_spec(Self::block_of(ptr, old_layout)) {
            self.primary.lemma_shrink_pre(ptr, old_layout, new_layout);
        } else {
            self.secondary.lemma_shrink_pre(ptr, old_layout, new_layout);
        }
    }

    proof fn lemma_equiv(
        &self,
        other: Self,
        lo: int,
        hi: int,
        ptr: usize,
        l1: Layout,
        l2: Layout,
    ) {
        self.primary.lemma_equiv(other.primary, lo, hi, ptr, l1, l2);
        self.secondary.lemma_equiv(other.secondary, lo, hi, ptr, l1, l2);
        self.primary.lemma_owns_equiv(other.primary, Self::block_of(ptr, l1));
    }

    proof fn lemma_equiv_refl(&self) {
        self.primary.lemma_equiv_refl();
        self.secondary.lemma_equiv_refl();
    }

    proof fn lemma_alloc_zeroed(
        &self,
        mem: MemView,
        layout: Layout,
        next: Self,
        next_mem: MemView,
        r: AllocResult,
    ) {
        let (m1, r1) = choose|m1: MemView, r1: AllocResult|
            #[trigger] self.primary.alloc_rel(mem, layout, AllocInit::Zeroed, next.primary, m1, r1)
                && if r1 is Ok {
                next.secondary == self.secondary && next_mem == m1 && r == r1
            } else {
                m1 == mem && self.secondary.alloc_rel(mem, layout, AllocInit::Zeroed, next.secondary, next_mem, r)
            };
        if r1 is Ok {
            self.primary.lemma_alloc_zeroed(mem, layout, next.primary, m1, r1);
        } else {
            self.secondary.lemma_alloc_zeroed(mem, layout, next.secondary, next_mem, r);
        }
    }

    proof fn lemma_equiv_trans(&self, b: Self, c: Self) {
        self.primary.lemma_equiv_trans(b.primary, c.primary);
        self.secondary.lemma_equiv_trans(b.secondary, c.secondary);
    }

    fn allocate(&mut self, mem: &mut Memory, layout: Layout) -> (r: AllocResult) {
        self.alloc_impl(mem, layout, AllocInit::Uninitialized)
    }

    fn allocate_zeroed(&mut self, mem: &mut Memory, layout: Layout) -> (r: AllocResult) {
        self.alloc_impl(mem, layout, AllocInit::Zeroed)
    }

    fn deallocate(&mut self, mem: &mut Memory, ptr: usize, layout: Layout) {
        let ghost p0 = self.primary;
        let ghost m0 = mem@;
        if self.primary.owns(MemoryBlock { ptr, len: layout.size() }) {
            let ghost p1 = self.primary;
            proof {
                p0.lemma_equiv(p1, m0.lo(), m0.hi(), ptr, layout, layout);
            }
            self.primary.deallocate(mem, ptr, layout);
            proof {
                assert(p0.equiv(p1));
            }
        } else {
            let ghost p1 = self.primary;
            proof {
                p0.lemma_equiv(p1, m0.lo(), m0.hi(), ptr, layout, layout);
            }
            self.secondary.deallocate(mem, ptr, layout);
            proof {
                assert(p0.equiv(p1));
            }
        }
    }

    fn grow(&mut self, mem: &mut Memory, ptr: usize, old_layout: Layout, new_layout: Layout) -> (r:
        AllocResult) {
        self.grow_impl(mem, ptr, old_layout, new_layout, AllocInit::Uninitialized)
    }

    fn grow_zeroed(
        &mut self,
        mem: &mut Memory,
        ptr: usize,
        old_layout: Layout,
        new_layout: Layout,
    ) -> (r: AllocResult) {
        self.grow_impl(mem, ptr, old_layout, new_layout, AllocInit::Zeroed)
    }

    fn shrink(&mut self, mem: &mut Memory, ptr: usize, old_layout: Layout, new_layout: Layout) -> (r:
        AllocResult) {
        let ghost p0 = self.primary;
        let ghost s0 = self.secondary;
        let ghost m0 = mem@;
        if self.primary.owns(MemoryBlock { ptr, len: old_layout.size() }) {
            let ghost p1 = self.primary;
            proof {
                p0.lemma_equiv(p1, m0.lo(), m0.hi(), ptr, old_layout, new_layout);
                s0.lemma_equiv_refl();
            }
            let r = self.primary.shrink(mem, ptr, old_layout, new_layout);
            proof {
                assert(p0.equiv(p1));
                if r is Err {
                    p0.lemma_equiv_trans(p1, self.primary);
                }
            }
            r
        } else {
            let ghost p1 = self.primary;
            proof {
                p0.lemma_equiv(p1, m0.lo(), m0.hi(), ptr, old_layout, new_layout);
            }
            let r = self.secondary.shrink(mem, ptr, old_layout, new_layout);
            proof {
                assert(p0.equiv(p1));
            }
            r
        }
    }
}

impl<P: AllocRef + Owns, S: AllocRef + Owns> Owns for Fallback<P, S> {
    open spec fn owns_spec(&self, memory: MemoryBlock) -> bool {
        self.primary.owns_spec(memory) || self.secondary.owns_spec(memory)
    }

    proof fn lemma_owns_equiv(&self, other: Self, memory: MemoryBlock) {
        self.primary.lemma_owns_equiv(other.primary, memory);
        self.secondary.lemma_owns_equiv(other.secondary, memory);
    }

    /// Owned by either allocator.
    fn owns(&mut self, memory: MemoryBlock) -> (r: bool) {
        let ghost s0 = self.secondary;
        proof {
            s0.lemma_equiv_refl();
        }
        self.primary.owns(memory) || self.secondary.owns(memory)
    }
}

} // verus!
