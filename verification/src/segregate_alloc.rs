use crate::helper::{
    grow_fallback, grow_fallback_rel, shrink_fallback, shrink_fallback_rel,
};
use crate::layout::valid_layout;
use crate::{
    AllocError, AllocInit, AllocRef, AllocResult, Layout, MemView, Memory, MemoryBlock, Owns,
    ReallocInPlace, ReallocPlacement,
};
use vstd::prelude::*;

verus! {

/// Dispatches calls between two allocators depending on the size allocated.
///
/// All allocations smaller than or equal to the threshold will be dispatched to `Small`. The
/// others will go to `Large`. A block handed out by `Small` is reported with a length of at
/// most the threshold.
///
/// Resizing takes a [`ReallocPlacement`]: with `InPlace` the block must keep its address, so a
/// block that would have to move to the other allocator cannot be resized.
#[derive(Debug, Copy, Clone)]
pub struct SegregateAlloc<Small, Large> {
    threshold: usize,
    /// The allocator for sizes up to the threshold
    pub small: Small,
    /// The allocator for sizes above the threshold
    pub large: Large,
}

/// The block `b` with its length cut down to at most `threshold`.
pub open spec fn clamp_min_block(b: MemoryBlock, threshold: usize) -> MemoryBlock {
    MemoryBlock { ptr: b.ptr, len: if b.len <= threshold { b.len } else { threshold } }
}

/// The result `r` with the length of its block cut down to at most `threshold`.
pub open spec fn clamp_min_result(r: AllocResult, threshold: usize) -> AllocResult {
    match r {
        Ok(b) => Ok(clamp_min_block(b, threshold)),
        Err(e) => Err(e),
    }
}

/// The block at `ptr` whose new size is the result `r` of an in-place resize.
pub open spec fn in_place_result(ptr: usize, r: Result<usize, AllocError>) -> AllocResult {
    match r {
        Ok(len) => Ok(MemoryBlock { ptr, len }),
        Err(e) => Err(e),
    }
}

/// `a` grows the block at `ptr`, moving it only where `placement` allows.
pub open spec fn placed_grow_rel<A: ReallocInPlace>(
    a: A,
    mem: MemView,
    ptr: usize,
    old_layout: Layout,
    new_layout: Layout,
    placement: ReallocPlacement,
    init: AllocInit,
    next: A,
    next_mem: MemView,
    r: AllocResult,
) -> bool {
    match placement {
        ReallocPlacement::MayMove => a.grow_rel(
            mem,
            ptr,
            old_layout,
            new_layout,
            init,
            next,
            next_mem,
            r,
        ),
        ReallocPlacement::InPlace => exists|r0: Result<usize, AllocError>|
            #[trigger] a.grow_in_place_rel(mem, ptr, old_layout, new_layout, init, next, next_mem, r0)
                && r == in_place_result(ptr, r0),
    }
}

/// `a` shrinks the block at `ptr`, moving it only where `placement` allows.
pub open spec fn placed_shrink_rel<A: ReallocInPlace>(
    a: A,
    mem: MemView,
    ptr: usize,
    old_layout: Layout,
    new_layout: Layout,
    placement: ReallocPlacement,
    next: A,
    next_mem: MemView,
    r: AllocResult,
) -> bool {
    match placement {
        ReallocPlacement::MayMove => a.shrink_rel(
            mem,
            ptr,
            old_layout,
            new_layout,
            next,
            next_mem,
            r,
        ),
        ReallocPlacement::InPlace => exists|r0: Result<usize, AllocError>|
            #[trigger] a.shrink_in_place_rel(mem, ptr, old_layout, new_layout, next, next_mem, r0)
                && r == in_place_result(ptr, r0),
    }
}

/// Grows the block at `ptr` with `a`, in place where `placement` asks for it.
fn placed_grow<A: ReallocInPlace>(
    a: &mut A,
    mem: &mut Memory,
    ptr: usize,
    old_layout: Layout,
    new_layout: Layout,
    placement: ReallocPlacement,
    init: AllocInit,
) -> (r: AllocResult)
    requires
        old(a).inv(old(mem).lo(), old(mem).hi()),
        old(mem).wf(),
        old(a).grow_pre(ptr, old_layout, new_layout),
    ensures
        final(mem)@.same_range(old(mem)@),
        final(a).inv(final(mem).lo(), final(mem).hi()),
        placed_grow_rel(
            *old(a),
            old(mem)@,
            ptr,
            old_layout,
            new_layout,
            placement,
            init,
            *final(a),
            final(mem)@,
            r,
        ),
        r is Ok ==> forall|i: int|
            0 <= i < old_layout.size() ==> #[trigger] final(mem)@.byte(r->Ok_0.ptr + i) == old(mem)@.byte(
                ptr + i,
            ),
        r is Err ==> final(mem)@ == old(mem)@ && old(a).equiv(*final(a)),
{
    let ghost a0 = *a;
    let ghost m0 = mem@;
    match placement {
        ReallocPlacement::MayMove => {
            let r = match init {
                AllocInit::Uninitialized => a.grow(mem, ptr, old_layout, new_layout),
                AllocInit::Zeroed => a.grow_zeroed(mem, ptr, old_layout, new_layout),
            };
            proof {
                assert(a0.grow_rel(m0, ptr, old_layout, new_layout, init, *a, mem@, r));
            }
            r
        },
        ReallocPlacement::InPlace => {
            let r0 = match init {
                AllocInit::Uninitialized => a.grow_in_place(mem, ptr, old_layout, new_layout),
                AllocInit::Zeroed => a.grow_in_place_zeroed(mem, ptr, old_layout, new_layout),
            };
            proof {
                assert(a0.grow_in_place_rel(m0, ptr, old_layout, new_layout, init, *a, mem@, r0));
            }
            match r0 {
                Ok(len) => Ok(MemoryBlock { ptr, len }),
                Err(e) => Err(e),
            }
        },
    }
}

/// Shrinks the block at `ptr` with `a`, in place where `placement` asks for it.
fn placed_shrink<A: ReallocInPlace>(
    a: &mut A,
    mem: &mut Memory,
    ptr: usize,
    old_layout: Layout,
    new_layout: Layout,
    placement: ReallocPlacement,
) -> (r: AllocResult)
    requires
        old(a).inv(old(mem).lo(), old(mem).hi()),
        old(mem).wf(),
        old(a).shrink_pre(ptr, old_layout, new_layout),
    ensures
        final(mem)@.same_range(old(mem)@),
        final(a).inv(final(mem).lo(), final(mem).hi()),
        placed_shrink_rel(
            *old(a),
            old(mem)@,
            ptr,
            old_layout,
            new_layout,
            placement,
            *final(a),
            final(mem)@,
            r,
        ),
        r is Ok ==> forall|i: int|
            0 <= i < new_layout.size() ==> #[trigger] final(mem)@.byte(r->Ok_0.ptr + i) == old(mem)@.byte(
                ptr + i,
            ),
        r is Err ==> final(mem)@ == old(mem)@ && old(a).equiv(*final(a)),
{
    let ghost a0 = *a;
    let ghost m0 = mem@;
    match placement {
        ReallocPlacement::MayMove => {
            let r = a.shrink(mem, ptr, old_layout, new_layout);
            proof {
                assert(a0.shrink_rel(m0, ptr, old_layout, new_layout, *a, mem@, r));
            }
            r
        },
        ReallocPlacement::InPlace => {
            let r0 = a.shrink_in_place(mem, ptr, old_layout, new_layout);
            proof {
                assert(a0.shrink_in_place_rel(m0, ptr, old_layout, new_layout, *a, mem@, r0));
            }
            match r0 {
                Ok(len) => Ok(MemoryBlock { ptr, len }),
                Err(e) => Err(e),
            }
        },
    }
}

impl<Small, Large> SegregateAlloc<Small, Large> {
    /// The size up to which requests go to `Small`.
    pub closed spec fn threshold_spec(&self) -> usize {
        self.threshold
    }

    /// The allocator for sizes up to the threshold.
    pub closed spec fn small_spec(&self) -> Small {
        self.small
    }

    /// The allocator for sizes above the threshold.
    pub closed spec fn large_spec(&self) -> Large {
        self.large
    }

    /// Creates an allocator that sends requests of up to `threshold` bytes to `small` and
    /// larger ones to `large`.
    pub fn new(threshold: usize, small: Small, large: Large) -> (r: Self)
        ensures
            r.threshold_spec() == threshold,
            r.small_spec() == small,
            r.large_spec() == large,
    {
        SegregateAlloc { threshold, small, large }
    }

    /// The size up to which requests go to `Small`.
    pub fn threshold(&self) -> (r: usize)
        ensures
            r == self.threshold_spec(),
    {
        self.threshold
    }

    /// The block with its length cut down to at most the threshold.
    fn clamp_memory(&self, memory: MemoryBlock) -> (r: MemoryBlock)
        ensures
            r == clamp_min_block(memory, self.threshold_spec()),
    {
        MemoryBlock {
            ptr: memory.ptr,
            len: if memory.len <= self.threshold { memory.len } else { self.threshold },
        }
    }
}

impl<Small: ReallocInPlace, Large: ReallocInPlace> SegregateAlloc<Small, Large> {
    /// Both allocators are well formed for the memory `lo..hi`.
    pub open spec fn inv(&self, lo: int, hi: int) -> bool {
        self.small_spec().inv(lo, hi) && self.large_spec().inv(lo, hi)
    }

    /// The block at `ptr` described by `layout` may be handed back.
    pub open spec fn dealloc_pre(&self, ptr: usize, layout: Layout) -> bool {
        if layout.size() <= self.threshold_spec() {
            self.small_spec().dealloc_pre(ptr, layout)
        } else {
            self.large_spec().dealloc_pre(ptr, layout)
        }
    }

    /// Attempts to allocate a block described by `layout`, initialized as `init` asks.
    pub fn allocate(&mut self, mem: &mut Memory, layout: Layout, init: AllocInit) -> (r: AllocResult)
        requires
            old(self).inv(old(mem).lo(), old(mem).hi()),
            old(mem).wf(),
        ensures
            final(mem)@.same_range(old(mem)@),
            final(self).inv(final(mem).lo(), final(mem).hi()),
            final(self).threshold_spec() == old(self).threshold_spec(),
            if layout.size() <= old(self).threshold_spec() {
                &&& final(self).large_spec() == old(self).large_spec()
                &&& exists|r0: AllocResult|
                    #[trigger] old(self).small_spec().alloc_rel(
                        old(mem)@,
                        layout,
                        init,
                        final(self).small_spec(),
                        final(mem)@,
                        r0,
                    ) && r == clamp_min_result(r0, old(self).threshold_spec())
            } else {
                &&& final(self).small_spec() == old(self).small_spec()
                &&& old(self).large_spec().alloc_rel(
                    old(mem)@,
                    layout,
                    init,
                    final(self).large_spec(),
                    final(mem)@,
                    r,
                )
            },
    {
        let ghost s0 = self.small;
        let ghost l0 = self.large;
        let ghost m0 = mem@;
        if layout.size() <= self.threshold {
            let r0 = match init {
                AllocInit::Uninitialized => self.small.allocate(mem, layout),
                AllocInit::Zeroed => self.small.allocate_zeroed(mem, layout),
            };
            proof {
                assert(s0.alloc_rel(m0, layout, init, self.small, mem@, r0));
            }
            match r0 {
                Ok(memory) => Ok(self.clamp_memory(memory)),
                Err(e) => Err(e),
            }
        } else {
            match init {
                AllocInit::Uninitialized => self.large.allocate(mem, layout),
                AllocInit::Zeroed => self.large.allocate_zeroed(mem, layout),
            }
        }
    }

    /// Deallocates the block at `ptr` described by `layout`, with the allocator its size
    /// belongs to.
    pub fn deallocate(&mut self, mem: &mut Memory, ptr: usize, layout: Layout)
        requires
            old(self).inv(old(mem).lo(), old(mem).hi()),
            old(mem).wf(),
            old(self).dealloc_pre(ptr, layout),
        ensures
            final(mem)@.same_range(old(mem)@),
            final(self).inv(final(mem).lo(), final(mem).hi()),
            final(self).threshold_spec() == old(self).threshold_spec(),
            if layout.size() <= old(self).threshold_spec() {
                &&& final(self).large_spec() == old(self).large_spec()
                &&& old(self).small_spec().dealloc_rel(old(mem)@, ptr, layout, final(self).small_spec(), final(mem)@)
            } else {
                &&& final(self).small_spec() == old(self).small_spec()
                &&& old(self).large_spec().dealloc_rel(old(mem)@, ptr, layout, final(self).large_spec(), final(mem)@)
            },
    {
        if layout.size() <= self.threshold {
            self.small.deallocate(mem, ptr, layout)
        } else {
            self.large.deallocate(mem, ptr, layout)
        }
    }

    /// Attempts to grow the block at `ptr` described by `layout` to `new_size` bytes. A small
    /// block that grows beyond the threshold moves to `Large`, when `placement` allows moving.
    pub fn grow(
        &mut self,
        mem: &mut Memory,
        ptr: usize,
        layout: Layout,
        new_size: usize,
        placement: ReallocPlacement,
        init: AllocInit,
    ) -> (r: AllocResult)
        requires
            old(self).inv(old(mem).lo(), old(mem).hi()),
            old(mem).wf(),
            valid_layout(new_size as int, layout.align() as int),
            layout.size() <= new_size,
            if layout.size() <= old(self).threshold_spec() {
                &&& old(self).small_spec().dealloc_pre(ptr, layout)
                &&& new_size <= old(self).threshold_spec() ==> old(self).small_spec().grow_pre(
                    ptr,
                    layout,
                    Layout::from_parts(new_size, layout.align()),
                )
            } else {
                old(self).large_spec().grow_pre(ptr, layout, Layout::from_parts(new_size, layout.align()))
            },
        ensures
            final(mem)@.same_range(old(mem)@),
            final(self).inv(final(mem).lo(), final(mem).hi()),
            final(self).threshold_spec() == old(self).threshold_spec(),
            r is Ok ==> forall|i: int|
                0 <= i < layout.size() ==> #[trigger] final(mem)@.byte(r->Ok_0.ptr + i) == old(mem)@.byte(
                    ptr + i,
                ),
            ({
                let t = old(self).threshold_spec();
                let new_layout = Layout::from_parts(new_size, layout.align());
                if layout.size() <= t {
                    if new_size > t {
                        exists|r0: AllocResult|
                            {
                                &&& r == #[trigger] clamp_min_result(r0, t)
                                &&& match placement {
                                    ReallocPlacement::MayMove => grow_fallback_rel(
                                        old(self).small_spec(),
                                        old(self).large_spec(),
                                        old(mem)@,
                                        ptr,
                                        layout,
                                        new_layout,
                                        init,
                                        final(self).small_spec(),
                                        final(self).large_spec(),
                                        final(mem)@,
                                        r0,
                                    ),
                                    ReallocPlacement::InPlace => r0 is Err && *final(self)
                                        == *old(self) && final(mem)@ == old(mem)@,
                                }
                            }
                    } else {
                        &&& final(self).large_spec() == old(self).large_spec()
                        &&& exists|r0: AllocResult|
                            placed_grow_rel(
                                old(self).small_spec(),
                                old(mem)@,
                                ptr,
                                layout,
                                new_layout,
                                placement,
                                init,
                                final(self).small_spec(),
                                final(mem)@,
                                r0,
                            ) && r == #[trigger] clamp_min_result(r0, t)
                    }
                } else {
                    &&& final(self).small_spec() == old(self).small_spec()
                    &&& placed_grow_rel(
                        old(self).large_spec(),
                        old(mem)@,
                        ptr,
                        layout,
                        new_layout,
                        placement,
                        init,
                        final(self).large_spec(),
                        final(mem)@,
                        r,
                    )
                }
            }),
    {
        let new_layout = Layout::from_size_align_unchecked(new_size, layout.align());
        proof {
            Layout::lemma_from_parts(new_size, layout.align());
        }
        let ghost s0 = self.small;
        let ghost l0 = self.large;
        let ghost m0 = mem@;
        if layout.size() <= self.threshold {
            let r0 = if new_size > self.threshold {
                match placement {
                    ReallocPlacement::MayMove => grow_fallback(
                        &mut self.small,
                        &mut self.large,
                        mem,
                        ptr,
                        layout,
                        new_layout,
                        init,
                    ),
                    ReallocPlacement::InPlace => Err(AllocError),
                }
            } else {
                placed_grow(&mut self.small, mem, ptr, layout, new_layout, placement, init)
            };
            let r = match r0 {
                Ok(memory) => Ok(self.clamp_memory(memory)),
                Err(e) => Err(e),
            };
            proof {
                assert(r == clamp_min_result(r0, self.threshold_spec()));
            }
            r
        } else {
            placed_grow(&mut self.large, mem, ptr, layout, new_layout, placement, init)
        }
    }

    /// Attempts to shrink the block at `ptr` described by `layout` to `new_size` bytes. A large
    /// block that shrinks to the threshold or less moves to `Small`, when `placement` allows
    /// moving.
    pub fn shrink(
        &mut self,
        mem: &mut Memory,
        ptr: usize,
        layout: Layout,
        new_size: usize,
        placement: ReallocPlacement,
    ) -> (r: AllocResult)
        requires
            old(self).inv(old(mem).lo(), old(mem).hi()),
            old(mem).wf(),
            valid_layout(new_size as int, layout.align() as int),
            new_size <= layout.size(),
            if layout.size() <= old(self).threshold_spec() {
                old(self).small_spec().shrink_pre(ptr, layout, Layout::from_parts(new_size, layout.align()))
            } else if new_size <= old(self).threshold_spec() {
                old(self).large_spec().dealloc_pre(ptr, layout)
            } else {
                old(self).large_spec().shrink_pre(
                    ptr,
                    layout,
                    Layout::from_parts(new_size, layout.align()),
                )
            },
        ensures
            final(mem)@.same_range(old(mem)@),
            final(self).inv(final(mem).lo(), final(mem).hi()),
            final(self).threshold_spec() == old(self).threshold_spec(),
            r is Ok ==> forall|i: int|
                0 <= i < new_size ==> #[trigger] final(mem)@.byte(r->Ok_0.ptr + i) == old(mem)@.byte(
                    ptr + i,
                ),
            ({
                let t = old(self).threshold_spec();
                let new_layout = Layout::from_parts(new_size, layout.align());
                if layout.size() <= t {
                    &&& final(self).large_spec() == old(self).large_spec()
                    &&& exists|r0: AllocResult|
                        placed_shrink_rel(
                            old(self).small_spec(),
                            old(mem)@,
                            ptr,
                            layout,
                            new_layout,
                            placement,
                            final(self).small_spec(),
                            final(mem)@,
                            r0,
                        ) && r == #[trigger] clamp_min_result(r0, t)
                } else if new_size <= t {
                    exists|r0: AllocResult|
                        {
                            &&& r == #[trigger] clamp_min_result(r0, t)
                            &&& match placement {
                                ReallocPlacement::MayMove => shrink_fallback_rel(
                                    old(self).large_spec(),
                                    old(self).small_spec(),
                                    old(mem)@,
                                    ptr,
                                    layout,
                                    new_layout,
                                    final(self).large_spec(),
                                    final(self).small_spec(),
                                    final(mem)@,
                                    r0,
                                ),
                                ReallocPlacement::InPlace => r0 is Err && *final(self)
                                    == *old(self) && final(mem)@ == old(mem)@,
                            }
                        }
                } else {
                    &&& final(self).small_spec() == old(self).small_spec()
                    &&& placed_shrink_rel(
                        old(self).large_spec(),
                        old(mem)@,
                        ptr,
                        layout,
                        new_layout,
                        placement,
                        final(self).large_spec(),
                        final(mem)@,
                        r,
                    )
                }
            }),
    {
        let new_layout = Layout::from_size_align_unchecked(new_size, layout.align());
        proof {
            Layout::lemma_from_parts(new_size, layout.align());
        }
        if layout.size() <= self.threshold || new_size <= self.threshold {
            let r0 = if layout.size() <= self.threshold {
                placed_shrink(&mut self.small, mem, ptr, layout, new_layout, placement)
            } else {
                match placement {
                    ReallocPlacement::MayMove => shrink_fallback(
                        &mut self.large,
                        &mut self.small,
                        mem,
                        ptr,
                        layout,
                        new_layout,
                    ),
                    ReallocPlacement::InPlace => Err(AllocError),
                }
            };
            let r = match r0 {
                Ok(memory) => Ok(self.clamp_memory(memory)),
                Err(e) => Err(e),
            };
            proof {
                assert(r == clamp_min_result(r0, self.threshold_spec()));
            }
            r
        } else {
            placed_shrink(&mut self.large, mem, ptr, layout, new_layout, placement)
        }
    }
}

impl<Small: ReallocInPlace + Owns, Large: ReallocInPlace + Owns> SegregateAlloc<Small, Large> {
    /// Whether the allocator its size belongs to owns `memory`.
    pub fn owns(&mut self, memory: MemoryBlock) -> (r: bool)
        ensures
            r == if memory.len <= old(self).threshold_spec() {
                old(self).small_spec().owns_spec(memory)
            } else {
                old(self).large_spec().owns_spec(memory)
            },
            final(self).threshold_spec() == old(self).threshold_spec(),
            old(self).small_spec().equiv(final(self).small_spec()),
            old(self).large_spec().equiv(final(self).large_spec()),
    {
        proof {
            self.small.lemma_equiv_refl();
            self.large.lemma_equiv_refl();
        }
        if memory.len <= self.threshold {
            self.small.owns(memory)
        } else {
            self.large.owns(memory)
        }
    }
}

} // verus!
