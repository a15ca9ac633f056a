//! Composable allocator structures for plugging together more powerful allocators.
//!
//! Memory is modelled explicitly: a [`Memory`] holds the bytes of an address range, and every
//! allocator hands out blocks of addresses inside it. Each operation of an allocator is
//! specified by a relation between its state before and after the call, the memory before and
//! after, and the result. Composed allocators state their relations in terms of the relations of
//! their parts.
use vstd::prelude::*;

mod affix;
mod callback_ref;
mod chunk;
mod chunk_alloc;
mod fallback;
mod fallback_alloc;
mod helper;
mod layout;
mod memory;
mod memory_marker;
mod null;
mod null_alloc;
mod proxy;
pub mod region;
mod region_alloc;
mod segregate;
mod segregate_alloc;
pub mod stats;

pub use self::affix::Affix;
pub use self::callback_ref::CallbackRef;
pub use self::chunk::{Chunk, SizeIsPowerOfTwo};
pub use self::chunk_alloc::ChunkAlloc;
pub use self::fallback::Fallback;
pub use self::fallback_alloc::FallbackAlloc;
pub use self::helper::{AllocInit, ReallocPlacement};
pub use self::layout::{AllocError, Layout, LayoutError, MemoryBlock};
pub use self::memory::{MemView, Memory};
pub use self::memory_marker::MemoryMarker;
pub use self::null::Null;
pub use self::null_alloc::NullAlloc;
pub use self::proxy::Proxy;
pub use self::region_alloc::Region;
pub use self::segregate::Segregate;
pub use self::segregate_alloc::SegregateAlloc;

verus! {

/// States the precondition of handing back the block at `ptr`: a block is never placed below
/// its alignment.
fn check_dealloc_precondition(ptr: usize, layout: Layout)
    requires
        ptr >= layout.align(),
{
}

/// States the precondition of growing the block at `ptr` to `new_size` bytes: a block is never
/// placed below its alignment, and growing does not make it smaller.
fn check_grow_precondition(ptr: usize, layout: Layout, new_size: usize)
    requires
        ptr >= layout.align(),
        new_size >= layout.size(),
{
}

/// States the precondition of shrinking the block at `ptr` to `new_size` bytes: a block is
/// never placed below its alignment, and shrinking does not make it larger.
fn check_shrink_precondition(ptr: usize, layout: Layout, new_size: usize)
    requires
        ptr >= layout.align(),
        new_size <= layout.size(),
{
}

/// The result of a request for a block of memory.
pub type AllocResult = Result<MemoryBlock, AllocError>;

/// The block `b` serves a request for `layout` inside the memory `lo..hi`: it is at least as
/// large as requested, aligned as requested, and lies inside the memory.
pub open spec fn block_fits(b: MemoryBlock, layout: Layout, lo: int, hi: int) -> bool {
    &&& b.len >= layout.size()
    &&& b.ptr as int % layout.align() as int == 0
    &&& lo <= b.ptr
    &&& b.ptr + b.len <= hi
}

/// An allocator of blocks inside a [`Memory`].
///
/// Every operation takes the memory it works on. The relations `*_rel` state what an
/// implementation does; the `*_pre` predicates state when a block may be handed back.
///
/// `equiv` relates states that allocate alike: they may differ only in state that observes the
/// calls (such as the callbacks of a [`Proxy`]).
pub trait AllocRef: Sized {
    /// The state is well formed for a memory spanning the addresses `lo..hi`.
    spec fn inv(&self, lo: int, hi: int) -> bool;

    /// `self` and `other` allocate alike.
    spec fn equiv(&self, other: Self) -> bool;

    spec fn alloc_rel(
        &self,
        mem: MemView,
        layout: Layout,
        init: AllocInit,
        next: Self,
        next_mem: MemView,
        r: AllocResult,
    ) -> bool;

    /// The block at `ptr`, described by `layout`, may be deallocated.
    spec fn dealloc_pre(&self, ptr: usize, layout: Layout) -> bool;

    spec fn dealloc_rel(
        &self,
        mem: MemView,
        ptr: usize,
        layout: Layout,
        next: Self,
        next_mem: MemView,
    ) -> bool;

    /// The block at `ptr`, described by `old_layout`, may be grown to `new_layout`.
    spec fn grow_pre(&self, ptr: usize, old_layout: Layout, new_layout: Layout) -> bool;

    spec fn grow_rel(
        &self,
        mem: MemView,
        ptr: usize,
        old_layout: Layout,
        new_layout: Layout,
        init: AllocInit,
        next: Self,
        next_mem: MemView,
        r: AllocResult,
    ) -> bool;

    /// The block at `ptr`, described by `old_layout`, may be shrunk to `new_layout`.
    spec fn shrink_pre(&self, ptr: usize, old_layout: Layout, new_layout: Layout) -> bool;

    spec fn shrink_rel(
        &self,
        mem: MemView,
        ptr: usize,
        old_layout: Layout,
        new_layout: Layout,
        next: Self,
        next_mem: MemView,
        r: AllocResult,
    ) -> bool;

    /// A block that may be deallocated lies in the memory.
    proof fn lemma_dealloc_pre(&self, lo: int, hi: int, ptr: usize, layout: Layout)
        ensures
            self.inv(lo, hi) && self.dealloc_pre(ptr, layout) ==> lo <= ptr && ptr + layout.size()
                <= hi,
    ;

    /// A block that may be grown may be deallocated, and growing does not make it smaller.
    proof fn lemma_grow_pre(&self, ptr: usize, old_layout: Layout, new_layout: Layout)
        ensures
            self.grow_pre(ptr, old_layout, new_layout) ==> self.dealloc_pre(ptr, old_layout)
                && old_layout.size() <= new_layout.size(),
    ;

    /// A block that may be shrunk may be deallocated, and shrinking does not make it larger.
    proof fn lemma_shrink_pre(&self, ptr: usize, old_layout: Layout, new_layout: Layout)
        ensures
            self.shrink_pre(ptr, old_layout, new_layout) ==> self.dealloc_pre(ptr, old_layout)
                && new_layout.size() <= old_layout.size(),
    ;

    /// States that allocate alike agree on well-formedness and on the blocks that may be
    /// handed back.
    proof fn lemma_equiv(&self, other: Self, lo: int, hi: int, ptr: usize, l1: Layout, l2: Layout)
        requires
            self.equiv(other),
        ensures
            self.inv(lo, hi) ==> other.inv(lo, hi),
            self.dealloc_pre(ptr, l1) ==> other.dealloc_pre(ptr, l1),
            self.grow_pre(ptr, l1, l2) ==> other.grow_pre(ptr, l1, l2),
            self.shrink_pre(ptr, l1, l2) ==> other.shrink_pre(ptr, l1, l2),
    ;

    proof fn lemma_equiv_refl(&self)
        ensures
            self.equiv(*self),
    ;

    proof fn lemma_equiv_trans(&self, b: Self, c: Self)
        requires
            self.equiv(b),
            b.equiv(c),
        ensures
            self.equiv(c),
    ;

    /// A block handed out for a zeroed request is at least as large as requested, fits the
    /// address space, and holds zeroes only.
    proof fn lemma_alloc_zeroed(
        &self,
        mem: MemView,
        layout: Layout,
        next: Self,
        next_mem: MemView,
        r: AllocResult,
    )
        requires
            self.inv(mem.lo(), mem.hi()),
            crate::layout::valid_layout(layout.size() as int, layout.align() as int),
            self.alloc_rel(mem, layout, AllocInit::Zeroed, next, next_mem, r),
            r is Ok,
        ensures
            r->Ok_0.len >= layout.size(),
            r->Ok_0.ptr + r->Ok_0.len <= usize::MAX,
            forall|i: int|
                r->Ok_0.ptr <= i < r->Ok_0.ptr + r->Ok_0.len ==> #[trigger] next_mem.byte(i) == 0,
    ;

    /// Attempts to allocate a block of memory described by `layout`.
    fn allocate(&mut self, mem: &mut Memory, layout: Layout) -> (r: AllocResult)
        requires
            old(self).inv(old(mem).lo(), old(mem).hi()),
            old(mem).wf(),
        ensures
            final(mem)@.same_range(old(mem)@),
            final(self).inv(final(mem).lo(), final(mem).hi()),
            old(self).alloc_rel(
                old(mem)@,
                layout,
                AllocInit::Uninitialized,
                *final(self),
                final(mem)@,
                r,
            ),
            r is Ok ==> block_fits(r->Ok_0, layout, old(mem).lo(), old(mem).hi()),
            r is Err ==> final(mem)@ == old(mem)@ && old(self).equiv(*final(self)),
    ;

    /// Behaves like `allocate`, and the returned block is zeroed.
    fn allocate_zeroed(&mut self, mem: &mut Memory, layout: Layout) -> (r: AllocResult)
        requires
            old(self).inv(old(mem).lo(), old(mem).hi()),
            old(mem).wf(),
        ensures
            final(mem)@.same_range(old(mem)@),
            final(self).inv(final(mem).lo(), final(mem).hi()),
            old(self).alloc_rel(
                old(mem)@,
                layout,
                AllocInit::Zeroed,
                *final(self),
                final(mem)@,
                r,
            ),
            r is Ok ==> block_fits(r->Ok_0, layout, old(mem).lo(), old(mem).hi()),
            r is Err ==> final(mem)@ == old(mem)@ && old(self).equiv(*final(self)),
    ;

    /// Deallocates the block at `ptr` described by `layout`.
    fn deallocate(&mut self, mem: &mut Memory, ptr: usize, layout: Layout)
        requires
            old(self).inv(old(mem).lo(), old(mem).hi()),
            old(mem).wf(),
            old(self).dealloc_pre(ptr, layout),
        ensures
            final(mem)@.same_range(old(mem)@),
            final(self).inv(final(mem).lo(), final(mem).hi()),
            old(self).dealloc_rel(old(mem)@, ptr, layout, *final(self), final(mem)@),
    ;

    /// Attempts to extend the block at `ptr` to `new_layout`. On success the new block starts with
    /// the bytes of the old one; on failure the block is left as it was.
    fn grow(&mut self, mem: &mut Memory, ptr: usize, old_layout: Layout, new_layout: Layout) -> (r:
        AllocResult)
        requires
            old(self).inv(old(mem).lo(), old(mem).hi()),
            old(mem).wf(),
            old(self).grow_pre(ptr, old_layout, new_layout),
        ensures
            final(mem)@.same_range(old(mem)@),
            final(self).inv(final(mem).lo(), final(mem).hi()),
            old(self).grow_rel(
                old(mem)@,
                ptr,
                old_layout,
                new_layout,
                AllocInit::Uninitialized,
                *final(self),
                final(mem)@,
                r,
            ),
            r is Ok ==> block_fits(r->Ok_0, new_layout, old(mem).lo(), old(mem).hi()),
            r is Ok ==> forall|i: int|
                0 <= i < old_layout.size() ==> #[trigger] final(mem)@.byte(r->Ok_0.ptr + i)
                    == old(mem)@.byte(ptr + i),
            r is Err ==> final(mem)@ == old(mem)@ && old(self).equiv(*final(self)),
    ;

    /// Behaves like `grow`, and the bytes after the old size are zeroed.
    fn grow_zeroed(
        &mut self,
        mem: &mut Memory,
        ptr: usize,
        old_layout: Layout,
        new_layout: Layout,
    ) -> (r: AllocResult)
        requires
            old(self).inv(old(mem).lo(), old(mem).hi()),
            old(mem).wf(),
            old(self).grow_pre(ptr, old_layout, new_layout),
        ensures
            final(mem)@.same_range(old(mem)@),
            final(self).inv(final(mem).lo(), final(mem).hi()),
            old(self).grow_rel(
                old(mem)@,
                ptr,
                old_layout,
                new_layout,
                AllocInit::Zeroed,
                *final(self),
                final(mem)@,
                r,
            ),
            r is Ok ==> block_fits(r->Ok_0, new_layout, old(mem).lo(), old(mem).hi()),
            r is Ok ==> forall|i: int|
                0 <= i < old_layout.size() ==> #[trigger] final(mem)@.byte(r->Ok_0.ptr + i)
                    == old(mem)@.byte(ptr + i),
            r is Err ==> final(mem)@ == old(mem)@ && old(self).equiv(*final(self)),
    ;

    /// Attempts to shrink the block at `ptr` to `new_layout`. On success the new block starts with
    /// the first bytes of the old one, as many as the new size; on failure the block is left as
    /// it was.
    fn shrink(&mut self, mem: &mut Memory, ptr: usize, old_layout: Layout, new_layout: Layout) -> (r:
        AllocResult)
        requires
            old(self).inv(old(mem).lo(), old(mem).hi()),
            old(mem).wf(),
            old(self).shrink_pre(ptr, old_layout, new_layout),
        ensures
            final(mem)@.same_range(old(mem)@),
            final(self).inv(final(mem).lo(), final(mem).hi()),
            old(self).shrink_rel(
                old(mem)@,
                ptr,
                old_layout,
                new_layout,
                *final(self),
                final(mem)@,
                r,
            ),
            r is Ok ==> block_fits(r->Ok_0, new_layout, old(mem).lo(), old(mem).hi()),
            r is Ok ==> forall|i: int|
                0 <= i < new_layout.size() ==> #[trigger] final(mem)@.byte(r->Ok_0.ptr + i)
                    == old(mem)@.byte(ptr + i),
            r is Err ==> final(mem)@ == old(mem)@ && old(self).equiv(*final(self)),
    ;
}

/// An allocator whose blocks may be handed back: a block it handed out may be deallocated with
/// the layout it was requested with, and a block that may be deallocated may be grown or shrunk
/// to a valid layout of the same alignment.
pub trait HandsBack: AllocRef {
    /// A block handed out lies at a multiple of the requested alignment, no smaller than the
    /// alignment, fits the address space, and may be deallocated with the layout it was
    /// requested with.
    proof fn lemma_alloc_dealloc_pre(
        &self,
        mem: MemView,
        layout: Layout,
        init: AllocInit,
        next: Self,
        next_mem: MemView,
        r: AllocResult,
    )
        requires
            self.inv(mem.lo(), mem.hi()),
            crate::layout::valid_layout(layout.size() as int, layout.align() as int),
            self.alloc_rel(mem, layout, init, next, next_mem, r),
            r is Ok,
        ensures
            r->Ok_0.ptr as int % layout.align() as int == 0,
            r->Ok_0.ptr >= layout.align(),
            r->Ok_0.ptr + layout.size() <= usize::MAX,
            next.dealloc_pre(r->Ok_0.ptr, layout),
    ;

    /// A block that may be deallocated may be grown to a larger valid layout of the same
    /// alignment, and, when it is not empty, shrunk to a smaller one.
    proof fn lemma_resize_pre(&self, lo: int, hi: int, ptr: usize, old_layout: Layout, new_layout: Layout)
        requires
            self.inv(lo, hi),
            self.dealloc_pre(ptr, old_layout),
            crate::layout::valid_layout(new_layout.size() as int, new_layout.align() as int),
            new_layout.align() == old_layout.align(),
        ensures
            old_layout.size() <= new_layout.size() ==> self.grow_pre(ptr, old_layout, new_layout),
            new_layout.size() <= old_layout.size() && old_layout.size() >= 1 ==> self.shrink_pre(
                ptr,
                old_layout,
                new_layout,
            ),
    ;
}

/// Trait to determine if a given block is owned by an allocator.
pub trait Owns: AllocRef {
    spec fn owns_spec(&self, memory: MemoryBlock) -> bool;

    /// States that allocate alike own the same blocks.
    proof fn lemma_owns_equiv(&self, other: Self, memory: MemoryBlock)
        requires
            self.equiv(other),
        ensures
            self.owns_spec(memory) == other.owns_spec(memory),
    ;

    /// Returns if the allocator *owns* the passed block.
    fn owns(&mut self, memory: MemoryBlock) -> (r: bool)
        ensures
            r == old(self).owns_spec(memory),
            old(self).equiv(*final(self)),
    ;
}

/// An allocator that can hand out all of its remaining memory at once.
///
/// This variant takes the layout of the request.
pub trait AllocAll: AllocRef {
    spec fn alloc_all_rel(
        &self,
        mem: MemView,
        layout: Layout,
        init: AllocInit,
        next: Self,
        next_mem: MemView,
        r: AllocResult,
    ) -> bool;

    spec fn dealloc_all_rel(&self, mem: MemView, next: Self, next_mem: MemView) -> bool;

    /// The total capacity of the allocator.
    spec fn capacity_spec(&self) -> usize;

    /// The capacity left for allocating.
    spec fn capacity_left_spec(&self) -> usize;

    /// Attempts to allocate all of the memory the allocator can provide, meeting the size and
    /// alignment of `layout`.
    fn alloc_all(&mut self, mem: &mut Memory, layout: Layout) -> (r: AllocResult)
        requires
            old(self).inv(old(mem).lo(), old(mem).hi()),
            old(mem).wf(),
        ensures
            final(mem)@.same_range(old(mem)@),
            final(self).inv(final(mem).lo(), final(mem).hi()),
            old(self).alloc_all_rel(
                old(mem)@,
                layout,
                AllocInit::Uninitialized,
                *final(self),
                final(mem)@,
                r,
            ),
            r is Ok ==> block_fits(r->Ok_0, layout, old(mem).lo(), old(mem).hi()),
            r is Err ==> final(mem)@ == old(mem)@ && old(self).equiv(*final(self)),
    ;

    /// Behaves like `alloc_all`, and the returned memory is zeroed.
    fn alloc_all_zeroed(&mut self, mem: &mut Memory, layout: Layout) -> (r: AllocResult)
        requires
            old(self).inv(old(mem).lo(), old(mem).hi()),
            old(mem).wf(),
        ensures
            final(mem)@.same_range(old(mem)@),
            final(self).inv(final(mem).lo(), final(mem).hi()),
            old(self).alloc_all_rel(
                old(mem)@,
                layout,
                AllocInit::Zeroed,
                *final(self),
                final(mem)@,
                r,
            ),
            r is Ok ==> block_fits(r->Ok_0, layout, old(mem).lo(), old(mem).hi()),
            r is Err ==> final(mem)@ == old(mem)@ && old(self).equiv(*final(self)),
    ;

    /// Deallocates all the memory the allocator had allocated.
    fn dealloc_all(&mut self, mem: &mut Memory)
        requires
            old(self).inv(old(mem).lo(), old(mem).hi()),
            old(mem).wf(),
        ensures
            final(mem)@.same_range(old(mem)@),
            final(self).inv(final(mem).lo(), final(mem).hi()),
            old(self).dealloc_all_rel(old(mem)@, *final(self), final(mem)@),
    ;

    /// Returns the total capacity available in this allocator.
    fn capacity(&self) -> (r: usize)
        ensures
            r == self.capacity_spec(),
    ;

    /// Returns the free capacity left for allocating.
    fn capacity_left(&self) -> (r: usize)
        ensures
            r == self.capacity_left_spec(),
    ;

    /// Returns if the allocator is currently not holding memory.
    fn is_empty(&self) -> (r: bool)
        ensures
            r == (self.capacity_spec() == self.capacity_left_spec()),
    {
        self.capacity() == self.capacity_left()
    }

    /// Returns if the allocator has no more capacity left.
    fn is_full(&self) -> (r: bool)
        ensures
            r == (self.capacity_left_spec() == 0),
    {
        self.capacity_left() == 0
    }
}

/// An allocator that can hand out all of its remaining memory at once.
///
/// This variant hands out whatever is left, whatever its alignment.
pub trait AllocateAll: AllocRef {
    spec fn allocate_all_rel(
        &self,
        mem: MemView,
        init: AllocInit,
        next: Self,
        next_mem: MemView,
        r: AllocResult,
    ) -> bool;

    spec fn deallocate_all_rel(&self, mem: MemView, next: Self, next_mem: MemView) -> bool;

    /// The total capacity of the allocator.
    spec fn capacity_spec(&self) -> usize;

    /// The capacity left for allocating.
    spec fn capacity_left_spec(&self) -> usize;

    /// Attempts to allocate all of the memory the allocator can provide.
    fn allocate_all(&mut self, mem: &mut Memory) -> (r: AllocResult)
        requires
            old(self).inv(old(mem).lo(), old(mem).hi()),
            old(mem).wf(),
        ensures
            final(mem)@.same_range(old(mem)@),
            final(self).inv(final(mem).lo(), final(mem).hi()),
            old(self).allocate_all_rel(
                old(mem)@,
                AllocInit::Uninitialized,
                *final(self),
                final(mem)@,
                r,
            ),
            r is Ok ==> old(mem).lo() <= r->Ok_0.ptr && r->Ok_0.end() <= old(mem).hi(),
            r is Err ==> final(mem)@ == old(mem)@ && old(self).equiv(*final(self)),
    ;

    /// Behaves like `allocate_all`, and the returned memory is zeroed.
    fn allocate_all_zeroed(&mut self, mem: &mut Memory) -> (r: AllocResult)
        requires
            old(self).inv(old(mem).lo(), old(mem).hi()),
            old(mem).wf(),
        ensures
            final(mem)@.same_range(old(mem)@),
            final(self).inv(final(mem).lo(), final(mem).hi()),
            old(self).allocate_all_rel(
                old(mem)@,
                AllocInit::Zeroed,
                *final(self),
                final(mem)@,
                r,
            ),
            r is Ok ==> old(mem).lo() <= r->Ok_0.ptr && r->Ok_0.end() <= old(mem).hi(),
            r is Err ==> final(mem)@ == old(mem)@ && old(self).equiv(*final(self)),
    ;

    /// Deallocates all the memory the allocator had allocated.
    fn deallocate_all(&mut self, mem: &mut Memory)
        requires
            old(self).inv(old(mem).lo(), old(mem).hi()),
            old(mem).wf(),
        ensures
            final(mem)@.same_range(old(mem)@),
            final(self).inv(final(mem).lo(), final(mem).hi()),
            old(self).deallocate_all_rel(old(mem)@, *final(self), final(mem)@),
    ;

    /// Returns the total capacity available in this allocator.
    fn capacity(&self) -> (r: usize)
        ensures
            r == self.capacity_spec(),
    ;

    /// Returns the free capacity left for allocating.
    fn capacity_left(&self) -> (r: usize)
        ensures
            r == self.capacity_left_spec(),
    ;

    /// Returns if the allocator is currently not holding memory.
    fn is_empty(&self) -> (r: bool)
        ensures
            r == (self.capacity_spec() == self.capacity_left_spec()),
    {
        self.capacity() == self.capacity_left()
    }

    /// Returns if the allocator has no more capacity left.
    fn is_full(&self) -> (r: bool)
        ensures
            r == (self.capacity_left_spec() == 0),
    {
        self.capacity_left() == 0
    }
}

/// An allocator that can resize a block without moving it.
pub trait ReallocInPlace: AllocRef {
    spec fn grow_in_place_rel(
        &self,
        mem: MemView,
        ptr: usize,
        old_layout: Layout,
        new_layout: Layout,
        init: AllocInit,
        next: Self,
        next_mem: MemView,
        r: Result<usize, AllocError>,
    ) -> bool;

    spec fn shrink_in_place_rel(
        &self,
        mem: MemView,
        ptr: usize,
        old_layout: Layout,
        new_layout: Layout,
        next: Self,
        next_mem: MemView,
        r: Result<usize, AllocError>,
    ) -> bool;

    /// Attempts to extend the block at `ptr` to fit `new_layout` without changing the pointer.
    /// Returns the new actual size of the block.
    fn grow_in_place(
        &mut self,
        mem: &mut Memory,
        ptr: usize,
        old_layout: Layout,
        new_layout: Layout,
    ) -> (r: Result<usize, AllocError>)
        requires
            old(self).inv(old(mem).lo(), old(mem).hi()),
            old(mem).wf(),
            old(self).grow_pre(ptr, old_layout, new_layout),
        ensures
            final(mem)@.same_range(old(mem)@),
            final(self).inv(final(mem).lo(), final(mem).hi()),
            old(self).grow_in_place_rel(
                old(mem)@,
                ptr,
                old_layout,
                new_layout,
                AllocInit::Uninitialized,
                *final(self),
                final(mem)@,
                r,
            ),
            r is Ok ==> r->Ok_0 >= new_layout.size(),
            r is Ok ==> forall|i: int|
                0 <= i < old_layout.size() ==> #[trigger] final(mem)@.byte(ptr + i) == old(mem)@.byte(
                    ptr + i,
                ),
            r is Err ==> final(mem)@ == old(mem)@ && old(self).equiv(*final(self)),
    ;

    /// Behaves like `grow_in_place`, and the bytes after the old size are zeroed.
    fn grow_in_place_zeroed(
        &mut self,
        mem: &mut Memory,
        ptr: usize,
        old_layout: Layout,
        new_layout: Layout,
    ) -> (r: Result<usize, AllocError>)
        requires
            old(self).inv(old(mem).lo(), old(mem).hi()),
            old(mem).wf(),
            old(self).grow_pre(ptr, old_layout, new_layout),
        ensures
            final(mem)@.same_range(old(mem)@),
            final(self).inv(final(mem).lo(), final(mem).hi()),
            old(self).grow_in_place_rel(
                old(mem)@,
                ptr,
                old_layout,
                new_layout,
                AllocInit::Zeroed,
                *final(self),
                final(mem)@,
                r,
            ),
            r is Ok ==> r->Ok_0 >= new_layout.size(),
            r is Ok ==> forall|i: int|
                0 <= i < old_layout.size() ==> #[trigger] final(mem)@.byte(ptr + i) == old(mem)@.byte(
                    ptr + i,
                ),
            r is Err ==> final(mem)@ == old(mem)@ && old(self).equiv(*final(self)),
    ;

    /// Attempts to shrink the block at `ptr` to `new_layout` without changing the pointer.
    /// Returns the new actual size of the block.
    fn shrink_in_place(
        &mut self,
        mem: &mut Memory,
        ptr: usize,
        old_layout: Layout,
        new_layout: Layout,
    ) -> (r: Result<usize, AllocError>)
        requires
            old(self).inv(old(mem).lo(), old(mem).hi()),
            old(mem).wf(),
            old(self).shrink_pre(ptr, old_layout, new_layout),
        ensures
            final(mem)@.same_range(old(mem)@),
            final(self).inv(final(mem).lo(), final(mem).hi()),
            old(self).shrink_in_place_rel(
                old(mem)@,
                ptr,
                old_layout,
                new_layout,
                *final(self),
                final(mem)@,
                r,
            ),
            r is Ok ==> r->Ok_0 >= new_layout.size(),
            r is Ok ==> forall|i: int|
                0 <= i < new_layout.size() ==> #[trigger] final(mem)@.byte(ptr + i) == old(mem)@.byte(
                    ptr + i,
                ),
            r is Err ==> final(mem)@ == old(mem)@ && old(self).equiv(*final(self)),
    ;
}

} // verus!
