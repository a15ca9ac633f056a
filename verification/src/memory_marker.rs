use crate::{AllocInit, AllocRef, AllocResult, Layout, MemView, Memory, MemoryBlock, Owns};
use vstd::prelude::*;

verus! {

/// The byte written over newly allocated, uninitialized memory.
pub const ALLOCATED_MARK: u8 = 0xCD;

/// The byte written over memory before it is handed back.
pub const DEALLOCATED_MARK: u8 = 0xDD;

/// Marks newly allocated and deallocated memory with a byte pattern.
///
/// When allocating uninitialized memory, the block is set to `0xCD`. Before deallocating,
/// the memory is set to `0xDD`. Those values are chosen according to the Magic Debug Values to
/// match the Visual Studio Debug Heap implementation.
///
/// When a block grows without zeroing, the bytes after the old size are set to `0xCD`. Before a
/// block shrinks, the bytes of the old block after the new size are set to `0xDD`; when the
/// shrinking fails, they are put back as they were.
#[derive(Debug, Default, Copy, Clone, PartialEq, Eq)]
pub struct MemoryMarker<A>(pub A);

/// The memory after marking the `n` bytes at `addr` as freshly allocated.
pub open spec fn mark_allocated(mem: MemView, addr: int, n: int) -> MemView {
    mem.fill(addr, n, ALLOCATED_MARK)
}

/// The memory after marking the `n` bytes at `addr` as handed back.
pub open spec fn mark_deallocated(mem: MemView, addr: int, n: int) -> MemView {
    mem.fill(addr, n, DEALLOCATED_MARK)
}

impl<A: AllocRef> AllocRef for MemoryMarker<A> {
    open spec fn inv(&self, lo: int, hi: int) -> bool {
        self.0.inv(lo, hi)
    }

    open spec fn equiv(&self, other: Self) -> bool {
        self.0.equiv(other.0)
    }

    /// The inner allocator serves the request; an uninitialized block is marked.
    open spec fn alloc_rel(
        &self,
        mem: MemView,
        layout: Layout,
        init: AllocInit,
        next: Self,
        next_mem: MemView,
        r: AllocResult,
    ) -> bool {
        exists|m1: MemView|
            #[trigger] self.0.alloc_rel(mem, layout, init, next.0, m1, r) && next_mem == match r {
                Ok(b) => if init == AllocInit::Uninitialized {
                    mark_allocated(m1, b.ptr as int, b.len as int)
                } else {
                    m1
                },
                Err(_) => m1,
            }
    }

    open spec fn dealloc_pre(&self, ptr: usize, layout: Layout) -> bool {
        self.0.dealloc_pre(ptr, layout)
    }

    /// The block is marked, then the inner allocator takes it back.
    open spec fn dealloc_rel(
        &self,
        mem: MemView,
        ptr: usize,
        layout: Layout,
        next: Self,
        next_mem: MemView,
    ) -> bool {
        self.0.dealloc_rel(
            mark_deallocated(mem, ptr as int, layout.size() as int),
            ptr,
            layout,
            next.0,
            next_mem,
        )
    }

    open spec fn grow_pre(&self, ptr: usize, old_layout: Layout, new_layout: Layout) -> bool {
        self.0.grow_pre(ptr, old_layout, new_layout)
    }

    /// The inner allocator grows the block; without zeroing, the bytes after the old size are
    /// marked.
    open spec fn grow_rel(
        &self,
        mem: MemView,
        ptr: usize,
        old_layout: Layout,
        new_layout: Layout,
        init: AllocInit,
        next: Self,
        next_mem: MemView,
        r: AllocResult,
    ) -> bool {
        exists|m1: MemView|
            #[trigger] self.0.grow_rel(mem, ptr, old_layout, new_layout, init, next.0, m1, r)
                && next_mem == match r {
                Ok(b) => if init == AllocInit::Uninitialized {
                    mark_allocated(
                        m1,
                        b.ptr + old_layout.size(),
                        b.len - old_layout.size(),
                    )
                } else {
                    m1
                },
                Err(_) => m1,
            }
    }

    open spec fn shrink_pre(&self, ptr: usize, old_layout: Layout, new_layout: Layout) -> bool {
        self.0.shrink_pre(ptr, old_layout, new_layout)
    }

    /// The inner allocator shrinks the block; when it succeeds, the bytes of the old block after
    /// the new size are marked.
    open spec fn shrink_rel(
        &self,
        mem: MemView,
        ptr: usize,
        old_layout: Layout,
        new_layout: Layout,
        next: Self,
        next_mem: MemView,
        r: AllocResult,
    ) -> bool {
        exists|m1: MemView|
            #[trigger] self.0.shrink_rel(
                mark_deallocated(mem, ptr + new_layout.size(), old_layout.size() - new_layout.size()),
                ptr,
                old_layout,
                new_layout,
                next.0,
                m1,
                r,
            ) && next_mem == match r {
                Ok(_) => m1,
                Err(_) => mem,
            }
    }

    proof fn lemma_dealloc_pre(&self, lo: int, hi: int, ptr: usize, layout: Layout) {
        self.0.lemma_dealloc_pre(lo, hi, ptr, layout);
    }

    proof fn lemma_grow_pre(&self, ptr: usize, old_layout: Layout, new_layout: Layout) {
        self.0.lemma_grow_pre(ptr, old_layout, new_layout);
    }

    proof fn lemma_shrink_pre(&self, ptr: usize, old_layout: Layout, new_layout: Layout) {
        self.0.lemma_shrink_pre(ptr, old_layout, new_layout);
    }

    proof fn lemma_equiv(
        &self,
        other: Self,
        lo: int,
        hi: int,
        ptr: usize,
        l1: Layout,
        l2: Layout,
    ) {
        self.0.lemma_equiv(other.0, lo, hi, ptr, l1, l2);
    }

    proof fn lemma_equiv_refl(&self) {
        self.0.lemma_equiv_refl();
    }

    proof fn lemma_alloc_zeroed(
        &self,
        mem: MemView,
        layout: Layout,
        next: Self,
        next_mem: MemView,
        r: AllocResult,
    ) {
        let m1 = choose|m1: MemView|
            #[trigger] self.0.alloc_rel(mem, layout, AllocInit::Zeroed, next.0, m1, r) && next_mem
                == match r {
                Ok(b) => if AllocInit::Zeroed == AllocInit::Uninitialized {
                    mark_allocated(m1, b.ptr as int, b.len as int)
                } else {
                    m1
                },
                Err(_) => m1,
            };
        self.0.lemma_alloc_zeroed(mem, layout, next.0, m1, r);
    }

    proof fn lemma_equiv_trans(&self, b: Self, c: Self) {
        self.0.lemma_equiv_trans(b.0, c.0);
    }

    /// Every byte of the returned block is set to `0xCD`.
    fn allocate(&mut self, mem: &mut Memory, layout: Layout) -> (r: AllocResult)
        ensures
            r is Ok ==> forall|i: int|
                r->Ok_0.ptr <= i < r->Ok_0.ptr + r->Ok_0.len ==> #[trigger] final(mem)@.byte(i)
                    == ALLOCATED_MARK,
    {
        let ghost a0 = self.0;
        let r = self.0.allocate(mem, layout);
        let ghost m1 = mem@;
        if let Ok(memory) = r {
            mem.fill(memory.ptr, memory.len, ALLOCATED_MARK);
        }
        proof {
            assert(a0.alloc_rel(old(mem)@, layout, AllocInit::Uninitialized, self.0, m1, r));
        }
        r
    }

    fn allocate_zeroed(&mut self, mem: &mut Memory, layout: Layout) -> (r: AllocResult) {
        let ghost a0 = self.0;
        let r = self.0.allocate_zeroed(mem, layout);
        proof {
            assert(a0.alloc_rel(old(mem)@, layout, AllocInit::Zeroed, self.0, mem@, r));
        }
        r
    }

    fn deallocate(&mut self, mem: &mut Memory, ptr: usize, layout: Layout) {
        proof {
            self.0.lemma_dealloc_pre(mem@.lo(), mem@.hi(), ptr, layout);
        }
        mem.fill(ptr, layout.size(), DEALLOCATED_MARK);
        self.0.deallocate(mem, ptr, layout)
    }

    /// Every byte of the grown block after the old size is set to `0xCD`.
    fn grow(&mut self, mem: &mut Memory, ptr: usize, old_layout: Layout, new_layout: Layout) -> (r:
        AllocResult)
        ensures
            r is Ok ==> forall|i: int|
                r->Ok_0.ptr + old_layout.size() <= i < r->Ok_0.ptr + r->Ok_0.len
                    ==> #[trigger] final(mem)@.byte(i) == ALLOCATED_MARK,
    {
        let ghost a0 = self.0;
        proof {
            a0.lemma_grow_pre(ptr, old_layout, new_layout);
        }
        let r = self.0.grow(mem, ptr, old_layout, new_layout);
        let ghost m1 = mem@;
        if let Ok(memory) = r {
            mem.fill(
                memory.ptr + old_layout.size(),
                memory.len - old_layout.size(),
                ALLOCATED_MARK,
            );
            proof {
                assert forall|i: int| 0 <= i < old_layout.size() implies #[trigger] mem@.byte(
                    memory.ptr + i,
                ) == old(mem)@.byte(ptr + i) by {
                    assert(m1.byte(memory.ptr + i) == old(mem)@.byte(ptr + i));
                }
            }
        }
        proof {
            assert(a0.grow_rel(
                old(mem)@,
                ptr,
                old_layout,
                new_layout,
                AllocInit::Uninitialized,
                self.0,
                m1,
                r,
            ));
        }
        r
    }

    fn grow_zeroed(
        &mut self,
        mem: &mut Memory,
        ptr: usize,
        old_layout: Layout,
        new_layout: Layout,
    ) -> (r: AllocResult) {
        let ghost a0 = self.0;
        let r = self.0.grow_zeroed(mem, ptr, old_layout, new_layout);
        proof {
            assert(a0.grow_rel(
                old(mem)@,
                ptr,
                old_layout,
                new_layout,
                AllocInit::Zeroed,
                self.0,
                mem@,
                r,
            ));
        }
        r
    }

    fn shrink(&mut self, mem: &mut Memory, ptr: usize, old_layout: Layout, new_layout: Layout) -> (r:
        AllocResult) {
        let ghost a0 = self.0;
        proof {
            a0.lemma_shrink_pre(ptr, old_layout, new_layout);
            a0.lemma_dealloc_pre(mem@.lo(), mem@.hi(), ptr, old_layout);
        }
        let tail = ptr + new_layout.size();
        let n = old_layout.size() - new_layout.size();
        let saved = mem.read_range(tail, n);
        mem.fill(tail, n, DEALLOCATED_MARK);
        let ghost m0 = mem@;
        assert(m0 == mark_deallocated(old(mem)@, ptr + new_layout.size(), old_layout.size() - new_layout.size()));
        let r = self.0.shrink(mem, ptr, old_layout, new_layout);
        let ghost m1 = mem@;
        if r.is_err() {
            mem.write_range(tail, saved.as_slice());
            proof {
                assert(mem@.bytes =~= old(mem)@.bytes);
                assert(mem@ == old(mem)@);
            }
        }
        proof {
            assert(a0.shrink_rel(m0, ptr, old_layout, new_layout, self.0, m1, r));
        }
        r
    }
}

impl<A: crate::HandsBack> crate::HandsBack for MemoryMarker<A> {
    proof fn lemma_alloc_dealloc_pre(
        &self,
        mem: MemView,
        layout: Layout,
        init: AllocInit,
        next: Self,
        next_mem: MemView,
        r: AllocResult,
    ) {
        let m1 = choose|m1: MemView| #[trigger] self.0.alloc_rel(mem, layout, init, next.0, m1, r)
            && next_mem == match r {
                Ok(b) => if init == AllocInit::Uninitialized {
                    mark_allocated(m1, b.ptr as int, b.len as int)
                } else {
                    m1
                },
                Err(_) => m1,
            };
        self.0.lemma_alloc_dealloc_pre(mem, layout, init, next.0, m1, r);
    }

    proof fn lemma_resize_pre(&self, lo: int, hi: int, ptr: usize, old_layout: Layout, new_layout: Layout) {
        self.0.lemma_resize_pre(lo, hi, ptr, old_layout, new_layout);
    }
}

impl<A: Owns> Owns for MemoryMarker<A> {
    open spec fn owns_spec(&self, memory: MemoryBlock) -> bool {
        self.0.owns_spec(memory)
    }

    proof fn lemma_owns_equiv(&self, other: Self, memory: MemoryBlock) {
        self.0.lemma_owns_equiv(other.0, memory);
    }

    fn owns(&mut self, memory: MemoryBlock) -> (r: bool) {
        self.0.owns(memory)
    }
}

impl MemoryMarker<crate::Region> {
    /// A region takes a block back without touching the memory, so a block handed back to a
    /// `MemoryMarker` over a region is left marked with `0xDD`, and the rest of the memory is
    /// left as it was.
    pub proof fn lemma_dealloc_marked(
        self,
        mem: MemView,
        ptr: usize,
        layout: Layout,
        next: Self,
        next_mem: MemView,
    )
        requires
            self.inv(mem.lo(), mem.hi()),
            self.dealloc_pre(ptr, layout),
            self.dealloc_rel(mem, ptr, layout, next, next_mem),
        ensures
            forall|i: int|
                ptr <= i < ptr + layout.size() ==> #[trigger] next_mem.byte(i) == DEALLOCATED_MARK,
            forall|i: int|
                mem.lo() <= i < mem.hi() && !(ptr <= i < ptr + layout.size()) ==> #[trigger] next_mem.byte(
                    i,
                ) == mem.byte(i),
    {
        self.lemma_dealloc_pre(mem.lo(), mem.hi(), ptr, layout);
    }
}

} // verus!
