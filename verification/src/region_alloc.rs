use crate::helper::{decimal, push_decimal, unlikely};
use crate::layout::{lemma_round_down, round_down};
use crate::{
    AllocAll, AllocError, HandsBack, AllocInit, AllocRef, AllocResult, Layout, MemView, Memory, MemoryBlock,
    Owns, ReallocInPlace, ReallocPlacement,
};
use vstd::prelude::*;
use vstd::string::StringExecFns;

verus! {

/// Allocator over a user-defined region of memory.
///
/// Blocks are handed out from the end of the region towards its start. Only the block that was
/// allocated last can be deallocated; deallocating any other block has no effect.
pub struct Region {
    start: usize,
    len: usize,
    ptr: usize,
}

impl Region {
    /// The region's bounds fit the address space, and the current position lies inside it.
    #[verifier::type_invariant]
    pub closed spec fn wf(self) -> bool {
        &&& 1 <= self.start
        &&& self.start + self.len <= usize::MAX
        &&& self.start <= self.ptr <= self.start + self.len
    }

    /// A region's start is positive, its end fits the address space, and its current position
    /// lies between the two.
    pub proof fn lemma_bounds(self)
        requires
            self.wf(),
        ensures
            1 <= self.spec_start(),
            self.spec_start() <= self.current() <= self.spec_end(),
            self.spec_end() <= usize::MAX,
    {
    }

    /// A region owns a block of positive length only while part of it is handed out: such a
    /// block lies inside that part, which is as long as the capacity less the capacity left.
    pub proof fn lemma_owns_capacity_left(self, memory: MemoryBlock)
        requires
            self.wf(),
            self.owns_spec(memory),
            memory.len > 0,
        ensures
            memory.len <= self.capacity_spec() - self.capacity_left_spec(),
            self.capacity_left_spec() < self.capacity_spec(),
    {
    }

    /// The first address of the region.
    pub closed spec fn spec_start(self) -> int {
        self.start as int
    }

    /// One past the last address of the region.
    pub closed spec fn spec_end(self) -> int {
        self.start + self.len
    }

    /// The current position: every address from here to the end is allocated.
    pub closed spec fn current(self) -> int {
        self.ptr as int
    }

    /// The same region with the current position moved to `p`.
    pub closed spec fn with_current(self, p: int) -> Region {
        Region { ptr: p as usize, ..self }
    }

    /// Moving the current position keeps the bounds of the region.
    pub proof fn lemma_with_current(self, p: int)
        requires
            self.wf(),
            self.spec_start() <= p <= self.spec_end(),
        ensures
            self.with_current(p).wf(),
            self.with_current(p).current() == p,
            self.with_current(p).spec_start() == self.spec_start(),
            self.with_current(p).spec_end() == self.spec_end(),
    {
    }

    /// Where a block of `size` bytes aligned to `align` is placed: below the current position,
    /// rounded down to the alignment, if that stays inside the region.
    pub open spec fn alloc_target(self, size: int, align: int) -> Option<int> {
        if self.current() >= size {
            let a = round_down(self.current() - size, align);
            if a >= self.spec_start() {
                Some(a)
            } else {
                None
            }
        } else {
            None
        }
    }

    /// Where the block of all remaining memory is placed: at the start of the region rounded up
    /// to the alignment, if that lies below the current position and a block of `size` bytes
    /// from there ends at or before it.
    pub open spec fn alloc_all_target(self, size: int, align: int) -> Option<int> {
        if self.spec_start() + align - 1 <= usize::MAX {
            let a = round_down(self.spec_start() + align - 1, align);
            if a >= self.current() || a + size > self.current() {
                None
            } else {
                Some(a)
            }
        } else {
            None
        }
    }

    /// Allocating the block from `target` up to the current position.
    pub open spec fn alloc_step(self, mem: MemView, target: Option<int>, init: AllocInit) -> (
        Region,
        MemView,
        AllocResult,
    ) {
        match target {
            Some(a) => {
                let block = MemoryBlock { ptr: a as usize, len: (self.current() - a) as usize };
                (self.with_current(a), init.init_offset_spec(mem, block, 0), Ok(block))
            },
            None => (self, mem, Err(AllocError)),
        }
    }

    /// Growing the block at `ptr` from `old_layout.size()` to `new_size` bytes.
    ///
    /// A block that must stay where it is cannot grow: the last block grows downwards and its
    /// bytes are moved, and another block is copied to a new block.
    pub open spec fn grow_spec(
        self,
        mem: MemView,
        ptr: usize,
        old_layout: Layout,
        new_size: int,
        placement: ReallocPlacement,
        init: AllocInit,
    ) -> (Region, MemView, AllocResult) {
        let old_size = old_layout.size() as int;
        let align = old_layout.align() as int;
        if old_size == new_size {
            (self, mem, Ok(MemoryBlock { ptr, len: old_size as usize }))
        } else if placement == ReallocPlacement::InPlace {
            (self, mem, Err(AllocError))
        } else if self.current() == ptr {
            let additional = new_size - old_size;
            if self.current() >= additional && round_down(self.current() - additional, align) >= self.spec_start() {
                let a = round_down(self.current() - additional, align);
                let block = MemoryBlock { ptr: a as usize, len: (self.current() + old_size - a) as usize };
                (
                    self.with_current(a),
                    init.init_offset_spec(mem.copy(ptr as int, a, old_size), block, old_size),
                    Ok(block),
                )
            } else {
                (self, mem, Err(AllocError))
            }
        } else {
            let (next, m, r) = self.alloc_step(mem, self.alloc_target(new_size, align), init);
            match r {
                Ok(b) => (next, m.copy(ptr as int, b.ptr as int, old_size), Ok(b)),
                Err(e) => (next, m, Err(e)),
            }
        }
    }

    /// Shrinking the block at `ptr` from `old_layout.size()` to `new_size` bytes.
    ///
    /// The last block shrinks towards the end of the region and its remaining bytes are moved,
    /// unless it must stay where it is and would move; another block is returned unchanged,
    /// unless the placement demands that it stays.
    pub open spec fn shrink_spec(
        self,
        mem: MemView,
        ptr: usize,
        old_layout: Layout,
        new_size: int,
        placement: ReallocPlacement,
    ) -> (Region, MemView, AllocResult) {
        let old_size = old_layout.size() as int;
        let align = old_layout.align() as int;
        if old_size == new_size {
            (self, mem, Ok(MemoryBlock { ptr, len: old_size as usize }))
        } else if self.current() == ptr {
            let a = round_down(self.current() + old_size - new_size, align);
            let block = MemoryBlock { ptr: a as usize, len: (self.current() + old_size - a) as usize };
            if placement == ReallocPlacement::InPlace && a != ptr {
                (self, mem, Err(AllocError))
            } else {
                (self.with_current(a), mem.copy(ptr as int, a, new_size), Ok(block))
            }
        } else if placement == ReallocPlacement::InPlace {
            (self, mem, Err(AllocError))
        } else {
            (self, mem, Ok(MemoryBlock { ptr, len: old_size as usize }))
        }
    }

    /// The block `memory` lies between the current position and the end of the region.
    pub open spec fn owns_block(self, memory: MemoryBlock) -> bool {
        memory.ptr >= self.current() && memory.ptr + memory.len <= self.spec_end()
    }

    /// The block at `ptr` described by `layout` may be handed back: the region owns it, and
    /// `ptr` is a non-zero multiple of the alignment.
    pub open spec fn handed_back_ok(self, ptr: usize, layout: Layout) -> bool {
        &&& self.owns_block(MemoryBlock { ptr, len: layout.size() })
        &&& ptr >= layout.align()
        &&& ptr as int % layout.align() as int == 0
    }

    /// Creates a region over the block `memory` of a [`Memory`]. The region starts empty.
    pub fn new(memory: MemoryBlock) -> (r: Region)
        requires
            memory.ptr >= 1,
            memory.ptr + memory.len <= usize::MAX,
        ensures
            r.wf(),
            r.spec_start() == memory.ptr,
            r.spec_end() == memory.ptr + memory.len,
            r.current() == r.spec_end(),
    {
        let region = Region { start: memory.ptr, len: memory.len, ptr: memory.ptr + memory.len };
        region
    }

    /// Checks if `memory` is the latest block which was allocated. Only that block can be
    /// deallocated.
    pub fn is_last_block(&self, memory: MemoryBlock) -> (r: bool)
        ensures
            r == (self.current() == memory.ptr),
    {
        self.ptr == memory.ptr
    }

    fn start(&self) -> (r: usize)
        ensures
            r == self.spec_start(),
    {
        self.start
    }

    fn end(&self) -> (r: usize)
        requires
            self.wf(),
        ensures
            r == self.spec_end(),
    {
        self.start + self.len
    }

    /// Hands out the block from `ptr` up to the current position, which moves to `ptr`.
    fn create_block(&mut self, ptr: usize) -> (r: MemoryBlock)
        requires
            old(self).wf(),
            old(self).start <= ptr <= old(self).ptr,
        ensures
            final(self).wf(),
            *final(self) == old(self).with_current(ptr as int),
            r == (MemoryBlock { ptr, len: (old(self).ptr - ptr) as usize }),
    {
        let memory = MemoryBlock { ptr, len: self.ptr - ptr };
        self.ptr = ptr;
        memory
    }

    #[verifier::rlimit(30)]
    fn alloc_impl(&mut self, mem: &mut Memory, layout: Layout, init: AllocInit, all: bool) -> (r:
        AllocResult)
        requires
            old(self).wf(),
            old(mem).wf(),
            old(mem).lo() <= old(self).spec_start(),
            old(self).spec_end() <= old(mem).hi(),
        ensures
            final(self).wf(),
            (*final(self), final(mem)@, r) == old(self).alloc_step(
                old(mem)@,
                if all {
                    old(self).alloc_all_target(layout.size() as int, layout.align() as int)
                } else {
                    old(self).alloc_target(layout.size() as int, layout.align() as int)
                },
                init,
            ),
            r is Ok ==> crate::block_fits(r->Ok_0, layout, old(mem).lo(), old(mem).hi()),
    {
        let size = layout.size();
        let align = layout.align();
        let aligned_ptr = if all {
            let new_ptr = self.start();
            let bumped = match new_ptr.checked_add(align - 1) {
                Some(p) => p,
                None => return Err(AllocError),
            };
            proof {
                lemma_round_down(bumped as int, align as int);
            }
            let aligned_ptr = bumped - bumped % align;
            // Some memory must be left, and the block of `size` bytes must fit into it.
            if aligned_ptr >= self.ptr || size > self.ptr - aligned_ptr {
                return Err(AllocError);
            }
            aligned_ptr
        } else {
            let new_ptr = match self.ptr.checked_sub(size) {
                Some(p) => p,
                None => return Err(AllocError),
            };
            proof {
                lemma_round_down(new_ptr as int, align as int);
            }
            let aligned_ptr = new_ptr - new_ptr % align;
            if unlikely(aligned_ptr < self.start()) {
                return Err(AllocError);
            }
            aligned_ptr
        };
        let block = self.create_block(aligned_ptr);
        init.init(mem, block);
        Ok(block)
    }

    #[verifier::rlimit(40)]
    fn grow_impl(
        &mut self,
        mem: &mut Memory,
        old_ptr: usize,
        old_layout: Layout,
        new_size: usize,
        placement: ReallocPlacement,
        init: AllocInit,
    ) -> (r: AllocResult)
        requires
            old(self).wf(),
            old(mem).wf(),
            old(mem).lo() <= old(self).spec_start(),
            old(self).spec_end() <= old(mem).hi(),
            old(self).handed_back_ok(old_ptr, old_layout),
            new_size >= old_layout.size(),
            crate::layout::valid_layout(new_size as int, old_layout.align() as int),
        ensures
            final(self).wf(),
            (*final(self), final(mem)@, r) == old(self).grow_spec(
                old(mem)@,
                old_ptr,
                old_layout,
                new_size as int,
                placement,
                init,
            ),
            r is Ok ==> crate::block_fits(
                r->Ok_0,
                Layout::from_parts(new_size, old_layout.align()),
                old(mem).lo(),
                old(mem).hi(),
            ),
    {
        let old_size = old_layout.size();
        let align = old_layout.align();
        proof {
            Layout::lemma_from_parts(new_size, align);
        }
        let old_memory = MemoryBlock { ptr: old_ptr, len: old_size };
        if old_size == new_size {
            Ok(old_memory)
        } else if placement == ReallocPlacement::InPlace {
            Err(AllocError)
        } else if self.is_last_block(old_memory) {
            let additional = new_size - old_size;
            let new_ptr = match self.ptr.checked_sub(additional) {
                Some(p) => p,
                None => return Err(AllocError),
            };
            proof {
                lemma_round_down(new_ptr as int, align as int);
            }
            let aligned_ptr = new_ptr - new_ptr % align;
            if unlikely(aligned_ptr < self.start()) {
                return Err(AllocError);
            }
            let memory = MemoryBlock { ptr: aligned_ptr, len: self.ptr + old_size - aligned_ptr };
            self.ptr = aligned_ptr;
            mem.copy(old_ptr, memory.ptr, old_size);
            init.init_offset(mem, memory, old_size);
            Ok(memory)
        } else {
            let new_layout = Layout::from_size_align_unchecked(new_size, align);
            let new_memory = match self.alloc_impl(mem, new_layout, init, false) {
                Ok(m) => m,
                Err(e) => return Err(e),
            };
            mem.copy(old_ptr, new_memory.ptr, old_size);
            Ok(new_memory)
        }
    }

    #[verifier::rlimit(30)]
    fn shrink_impl(
        &mut self,
        mem: &mut Memory,
        old_ptr: usize,
        old_layout: Layout,
        new_size: usize,
        placement: ReallocPlacement,
    ) -> (r: AllocResult)
        requires
            old(self).wf(),
            old(mem).wf(),
            old(mem).lo() <= old(self).spec_start(),
            old(self).spec_end() <= old(mem).hi(),
            old(self).handed_back_ok(old_ptr, old_layout),
            new_size <= old_layout.size(),
        ensures
            final(self).wf(),
            (*final(self), final(mem)@, r) == old(self).shrink_spec(
                old(mem)@,
                old_ptr,
                old_layout,
                new_size as int,
                placement,
            ),
            r is Ok ==> crate::block_fits(
                r->Ok_0,
                Layout::from_parts(new_size, old_layout.align()),
                old(mem).lo(),
                old(mem).hi(),
            ),
    {
        let old_size = old_layout.size();
        let align = old_layout.align();
        proof {
            Layout::lemma_from_parts(new_size, align);
        }
        let old_memory = MemoryBlock { ptr: old_ptr, len: old_size };
        if old_size == new_size {
            Ok(old_memory)
        } else if self.is_last_block(old_memory) {
            let new_ptr = self.ptr + old_size - new_size;
            proof {
                lemma_round_down(new_ptr as int, align as int);
            }
            let aligned_ptr = new_ptr - new_ptr % align;
            if placement == ReallocPlacement::InPlace && aligned_ptr != old_ptr {
                return Err(AllocError);
            }
            let new_memory = MemoryBlock {
                ptr: aligned_ptr,
                len: self.ptr + old_size - aligned_ptr,
            };
            mem.copy(old_ptr, new_memory.ptr, new_size);
            self.ptr = aligned_ptr;
            Ok(new_memory)
        } else if placement == ReallocPlacement::InPlace {
            Err(AllocError)
        } else {
            Ok(old_memory)
        }
    }
}

impl AllocRef for Region {
    open spec fn inv(&self, lo: int, hi: int) -> bool {
        &&& self.wf()
        &&& lo <= self.spec_start()
        &&& self.spec_end() <= hi
    }

    open spec fn equiv(&self, other: Self) -> bool {
        *self == other
    }

    open spec fn alloc_rel(
        &self,
        mem: MemView,
        layout: Layout,
        init: AllocInit,
        next: Self,
        next_mem: MemView,
        r: AllocResult,
    ) -> bool {
        (next, next_mem, r) == self.alloc_step(
            mem,
            self.alloc_target(layout.size() as int, layout.align() as int),
            init,
        )
    }

    open spec fn dealloc_pre(&self, ptr: usize, layout: Layout) -> bool {
        self.handed_back_ok(ptr, layout)
    }

    /// Only the last block is given back; the current position moves up by its size.
    open spec fn dealloc_rel(
        &self,
        mem: MemView,
        ptr: usize,
        layout: Layout,
        next: Self,
        next_mem: MemView,
    ) -> bool {
        &&& next_mem == mem
        &&& next == if self.current() == ptr {
            self.with_current(ptr + layout.size())
        } else {
            *self
        }
    }

    open spec fn grow_pre(&self, ptr: usize, old_layout: Layout, new_layout: Layout) -> bool {
        &&& self.handed_back_ok(ptr, old_layout)
        &&& new_layout.size() >= old_layout.size()
        &&& new_layout.align() == old_layout.align()
    }

    open spec fn grow_rel(
        &self,
        mem: MemView,
        ptr: usize,
        old_layout: Layout,
        new_layout: Layout,
        init: AllocInit,
        next: Self,
        next_mem: MemView,
        r: AllocResult,
    ) -> bool {
        (next, next_mem, r) == self.grow_spec(
            mem,
            ptr,
            old_layout,
            new_layout.size() as int,
            ReallocPlacement::MayMove,
            init,
        )
    }

    open spec fn shrink_pre(&self, ptr: usize, old_layout: Layout, new_layout: Layout) -> bool {
        &&& self.handed_back_ok(ptr, old_layout)
        &&& new_layout.size() <= old_layout.size()
        &&& new_layout.align() == old_layout.align()
    }

    open spec fn shrink_rel(
        &self,
        mem: MemView,
        ptr: usize,
        old_layout: Layout,
        new_layout: Layout,
        next: Self,
        next_mem: MemView,
        r: AllocResult,
    ) -> bool {
        (next, next_mem, r) == self.shrink_spec(
            mem,
            ptr,
            old_layout,
            new_layout.size() as int,
            ReallocPlacement::MayMove,
        )
    }

    proof fn lemma_dealloc_pre(&self, lo: int, hi: int, ptr: usize, layout: Layout) {
    }

    proof fn lemma_grow_pre(&self, ptr: usize, old_layout: Layout, new_layout: Layout) {
    }

    proof fn lemma_shrink_pre(&self, ptr: usize, old_layout: Layout, new_layout: Layout) {
    }

    proof fn lemma_equiv(
        &self,
        other: Self,
        lo: int,
        hi: int,
        ptr: usize,
        l1: Layout,
        l2: Layout,
    ) {
    }

    proof fn lemma_equiv_refl(&self) {
    }

    proof fn lemma_alloc_zeroed(
        &self,
        mem: MemView,
        layout: Layout,
        next: Self,
        next_mem: MemView,
        r: AllocResult,
    ) {
        crate::layout::lemma_power_of_two_positive(layout.align() as int);
        lemma_target_in_region(*self, layout);
        self.lemma_alloc_contents(
            mem,
            self.alloc_target(layout.size() as int, layout.align() as int),
            AllocInit::Zeroed,
        );
        if self.ptr >= layout.size() {
            lemma_round_down(self.ptr - layout.size(), layout.align() as int);
        }
    }

    proof fn lemma_equiv_trans(&self, b: Self, c: Self) {
    }

    /// The memory is left as it is.
    fn allocate(&mut self, mem: &mut Memory, layout: Layout) -> (r: AllocResult)
        ensures
            final(mem)@ == old(mem)@,
            final(self).capacity_spec() == old(self).capacity_spec(),
    {
        let _ = layout.align();
        proof {
            lemma_target_in_region(*old(self), layout);
            old(self).lemma_alloc_contents(
                old(mem)@,
                old(self).alloc_target(layout.size() as int, layout.align() as int),
                AllocInit::Uninitialized,
            );
        }
        self.alloc_impl(mem, layout, AllocInit::Uninitialized, false)
    }

    /// The returned block is zeroed.
    fn allocate_zeroed(&mut self, mem: &mut Memory, layout: Layout) -> (r: AllocResult)
        ensures
            r is Ok ==> forall|i: int|
                r->Ok_0.ptr <= i < r->Ok_0.ptr + r->Ok_0.len ==> #[trigger] final(mem)@.byte(i) == 0,
            final(self).capacity_spec() == old(self).capacity_spec(),
    {
        let _ = layout.align();
        proof {
            lemma_target_in_region(*old(self), layout);
            old(self).lemma_alloc_contents(
                old(mem)@,
                old(self).alloc_target(layout.size() as int, layout.align() as int),
                AllocInit::Zeroed,
            );
        }
        self.alloc_impl(mem, layout, AllocInit::Zeroed, false)
    }

    fn deallocate(&mut self, mem: &mut Memory, ptr: usize, layout: Layout) {
        let memory = MemoryBlock { ptr, len: layout.size() };
        if self.is_last_block(memory) {
            self.ptr = self.ptr + layout.size();
        }
    }

    /// The bytes of the old block are found at the start of the new one.
    fn grow(&mut self, mem: &mut Memory, ptr: usize, old_layout: Layout, new_layout: Layout) -> (r:
        AllocResult)
        ensures
            r is Ok ==> forall|i: int|
                0 <= i < old_layout.size() ==> #[trigger] final(mem)@.byte(r->Ok_0.ptr + i)
                    == old(mem)@.byte(ptr + i),
    {
        let new_size = new_layout.size();
        let _ = old_layout.align();
        proof {
            new_layout.lemma_parts();
            old(self).lemma_grow_contents(
                old(mem)@,
                ptr,
                old_layout,
                new_size as int,
                ReallocPlacement::MayMove,
                AllocInit::Uninitialized,
            );
        }
        self.grow_impl(
            mem,
            ptr,
            old_layout,
            new_size,
            ReallocPlacement::MayMove,
            AllocInit::Uninitialized,
        )
    }

    /// The bytes of the old block are found at the start of the new one; the rest of the new
    /// block is zero.
    fn grow_zeroed(
        &mut self,
        mem: &mut Memory,
        ptr: usize,
        old_layout: Layout,
        new_layout: Layout,
    ) -> (r: AllocResult)
        ensures
            r is Ok ==> forall|i: int|
                0 <= i < old_layout.size() ==> #[trigger] final(mem)@.byte(r->Ok_0.ptr + i)
                    == old(mem)@.byte(ptr + i),
            r is Ok ==> forall|i: int|
                old_layout.size() <= i < r->Ok_0.len ==> #[trigger] final(mem)@.byte(
                    r->Ok_0.ptr + i,
                ) == 0,
    {
        let new_size = new_layout.size();
        let _ = old_layout.align();
        proof {
            new_layout.lemma_parts();
            old(self).lemma_grow_contents(
                old(mem)@,
                ptr,
                old_layout,
                new_size as int,
                ReallocPlacement::MayMove,
                AllocInit::Zeroed,
            );
        }
        self.grow_impl(mem, ptr, old_layout, new_size, ReallocPlacement::MayMove, AllocInit::Zeroed)
    }

    /// The first bytes of the old block, as many as the new size, are found at the start of the
    /// new block.
    fn shrink(&mut self, mem: &mut Memory, ptr: usize, old_layout: Layout, new_layout: Layout) -> (r:
        AllocResult)
        ensures
            r is Ok ==> forall|i: int|
                0 <= i < new_layout.size() ==> #[trigger] final(mem)@.byte(r->Ok_0.ptr + i)
                    == old(mem)@.byte(ptr + i),
    {
        let new_size = new_layout.size();
        let _ = old_layout.align();
        proof {
            new_layout.lemma_parts();
            old(self).lemma_shrink_contents(
                old(mem)@,
                ptr,
                old_layout,
                new_size as int,
                ReallocPlacement::MayMove,
            );
        }
        self.shrink_impl(mem, ptr, old_layout, new_size, ReallocPlacement::MayMove)
    }
}

impl AllocAll for Region {
    open spec fn alloc_all_rel(
        &self,
        mem: MemView,
        layout: Layout,
        init: AllocInit,
        next: Self,
        next_mem: MemView,
        r: AllocResult,
    ) -> bool {
        (next, next_mem, r) == self.alloc_step(
            mem,
            self.alloc_all_target(layout.size() as int, layout.align() as int),
            init,
        )
    }

    open spec fn dealloc_all_rel(&self, mem: MemView, next: Self, next_mem: MemView) -> bool {
        next == self.with_current(self.spec_end()) && next_mem == mem
    }

    open spec fn capacity_spec(&self) -> usize {
        (self.spec_end() - self.spec_start()) as usize
    }

    open spec fn capacity_left_spec(&self) -> usize {
        (self.current() - self.spec_start()) as usize
    }

    fn alloc_all(&mut self, mem: &mut Memory, layout: Layout) -> (r: AllocResult) {
        self.alloc_impl(mem, layout, AllocInit::Uninitialized, true)
    }

    fn alloc_all_zeroed(&mut self, mem: &mut Memory, layout: Layout) -> (r: AllocResult) {
        self.alloc_impl(mem, layout, AllocInit::Zeroed, true)
    }

    fn dealloc_all(&mut self, mem: &mut Memory) {
        self.ptr = self.end();
    }

    fn capacity(&self) -> (r: usize) {
        self.len
    }

    fn capacity_left(&self) -> (r: usize) {
        proof {
            use_type_invariant(self);
        }
        self.ptr - self.start()
    }
}

impl ReallocInPlace for Region {
    open spec fn grow_in_place_rel(
        &self,
        mem: MemView,
        ptr: usize,
        old_layout: Layout,
        new_layout: Layout,
        init: AllocInit,
        next: Self,
        next_mem: MemView,
        r: Result<usize, AllocError>,
    ) -> bool {
        let (n, m, res) = self.grow_spec(
            mem,
            ptr,
            old_layout,
            new_layout.size() as int,
            ReallocPlacement::InPlace,
            init,
        );
        &&& next == n
        &&& next_mem == m
        &&& r == match res {
            Ok(b) => Ok(b.len),
            Err(e) => Err(e),
        }
    }

    open spec fn shrink_in_place_rel(
        &self,
        mem: MemView,
        ptr: usize,
        old_layout: Layout,
        new_layout: Layout,
        next: Self,
        next_mem: MemView,
        r: Result<usize, AllocError>,
    ) -> bool {
        let (n, m, res) = self.shrink_spec(
            mem,
            ptr,
            old_layout,
            new_layout.size() as int,
            ReallocPlacement::InPlace,
        );
        &&& next == n
        &&& next_mem == m
        &&& r == match res {
            Ok(b) => Ok(b.len),
            Err(e) => Err(e),
        }
    }

    fn grow_in_place(
        &mut self,
        mem: &mut Memory,
        ptr: usize,
        old_layout: Layout,
        new_layout: Layout,
    ) -> (r: Result<usize, AllocError>) {
        let new_size = new_layout.size();
        proof {
            new_layout.lemma_parts();
        }
        match self.grow_impl(
            mem,
            ptr,
            old_layout,
            new_size,
            ReallocPlacement::InPlace,
            AllocInit::Uninitialized,
        ) {
            Ok(b) => Ok(b.len),
            Err(e) => Err(e),
        }
    }

    fn grow_in_place_zeroed(
        &mut self,
        mem: &mut Memory,
        ptr: usize,
        old_layout: Layout,
        new_layout: Layout,
    ) -> (r: Result<usize, AllocError>) {
        let new_size = new_layout.size();
        proof {
            new_layout.lemma_parts();
        }
        match self.grow_impl(
            mem,
            ptr,
            old_layout,
            new_size,
            ReallocPlacement::InPlace,
            AllocInit::Zeroed,
        ) {
            Ok(b) => Ok(b.len),
            Err(e) => Err(e),
        }
    }

    fn shrink_in_place(
        &mut self,
        mem: &mut Memory,
        ptr: usize,
        old_layout: Layout,
        new_layout: Layout,
    ) -> (r: Result<usize, AllocError>) {
        let new_size = new_layout.size();
        proof {
            new_layout.lemma_parts();
        }
        match self.shrink_impl(mem, ptr, old_layout, new_size, ReallocPlacement::InPlace) {
            Ok(b) => Ok(b.len),
            Err(e) => Err(e),
        }
    }
}

impl HandsBack for Region {
    proof fn lemma_alloc_dealloc_pre(
        &self,
        mem: MemView,
        layout: Layout,
        init: AllocInit,
        next: Self,
        next_mem: MemView,
        r: AllocResult,
    ) {
        self.lemma_alloc_owned(mem, layout, init, next, next_mem, r);
    }

    proof fn lemma_resize_pre(&self, lo: int, hi: int, ptr: usize, old_layout: Layout, new_layout: Layout) {
    }
}

impl Owns for Region {
    open spec fn owns_spec(&self, memory: MemoryBlock) -> bool {
        self.owns_block(memory)
    }

    proof fn lemma_owns_equiv(&self, other: Self, memory: MemoryBlock) {
    }

    /// The block lies between the current position and the end of the region.
    fn owns(&mut self, memory: MemoryBlock) -> (r: bool) {
        let end = self.start as u128 + self.len as u128;
        memory.ptr >= self.ptr && memory.ptr as u128 + memory.len as u128 <= end
    }
}

impl Region {
    /// The debug representation: the capacity and the capacity left, as
    /// `Region { capacity: 32, capacity_left: 16 }`.
    pub fn debug_string(&self) -> (r: String)
        ensures
            r@ == "Region { capacity: "@ + decimal(self.capacity_spec() as nat) + ", capacity_left: "@
                + decimal(self.capacity_left_spec() as nat) + " }"@,
    {
        let mut s = String::from_str("Region { capacity: ");
        push_decimal(&mut s, self.capacity());
        s.append(", capacity_left: ");
        push_decimal(&mut s, self.capacity_left());
        s.append(" }");
        s
    }
}

/// Where a region places a block lies inside it, below the current position.
proof fn lemma_target_in_region(region: Region, layout: Layout)
    requires
        region.wf(),
        layout.align() >= 1,
    ensures
        region.alloc_target(layout.size() as int, layout.align() as int) is Some ==> region.spec_start()
            <= region.alloc_target(layout.size() as int, layout.align() as int)->Some_0
            <= region.current(),
{
    if region.ptr >= layout.size() {
        lemma_round_down(region.ptr - layout.size(), layout.align() as int);
    }
}

/// A positive multiple of `align` is at least `align`.
pub(crate) proof fn lemma_multiple_at_least(x: int, align: int)
    requires
        align >= 1,
        x >= 1,
        x % align == 0,
    ensures
        x >= align,
{
    if x < align {
        vstd::arithmetic::div_mod::lemma_small_mod(x as nat, align as nat);
    }
}

impl Region {
    /// A block handed out by a region is its last block: it lies between the new current
    /// position and the end, is owned by the region and may be handed back with the layout it
    /// was requested with. The capacity stays, and the capacity left shrinks by the block's
    /// length.
    pub proof fn lemma_alloc_owned(
        self,
        mem: MemView,
        layout: Layout,
        init: AllocInit,
        next: Region,
        next_mem: MemView,
        r: AllocResult,
    )
        requires
            self.inv(mem.lo(), mem.hi()),
            crate::layout::valid_layout(layout.size() as int, layout.align() as int),
            self.alloc_rel(mem, layout, init, next, next_mem, r),
            r is Ok,
        ensures
            next.current() == r->Ok_0.ptr,
            next.owns_spec(r->Ok_0),
            next.dealloc_pre(r->Ok_0.ptr, layout),
            next.capacity_spec() == self.capacity_spec(),
            next.capacity_left_spec() == self.capacity_left_spec() - r->Ok_0.len,
    {
        crate::layout::lemma_power_of_two_positive(layout.align() as int);
        let a = self.alloc_target(layout.size() as int, layout.align() as int)->Some_0;
        lemma_round_down(self.ptr - layout.size(), layout.align() as int);
        lemma_multiple_at_least(a, layout.align() as int);
    }

    /// Handing back the block a region handed out last returns the region to the state before
    /// the allocation, up to the padding the alignment required: the capacity left grows back by
    /// the requested size, the memory is left as it is, and a block of positive size is no
    /// longer owned.
    pub proof fn lemma_alloc_dealloc(
        self,
        mem: MemView,
        layout: Layout,
        init: AllocInit,
        next: Region,
        next_mem: MemView,
        r: AllocResult,
        last: Region,
        last_mem: MemView,
    )
        requires
            self.inv(mem.lo(), mem.hi()),
            crate::layout::valid_layout(layout.size() as int, layout.align() as int),
            self.alloc_rel(mem, layout, init, next, next_mem, r),
            r is Ok,
            next.dealloc_rel(next_mem, r->Ok_0.ptr, layout, last, last_mem),
        ensures
            last_mem == next_mem,
            last.capacity_left_spec() + r->Ok_0.len == self.capacity_left_spec() + layout.size(),
            r->Ok_0.len == layout.size() ==> last == self,
            layout.size() > 0 ==> !last.owns_spec(r->Ok_0),
    {
        self.lemma_alloc_owned(mem, layout, init, next, next_mem, r);
        crate::layout::lemma_power_of_two_positive(layout.align() as int);
        lemma_round_down(self.ptr - layout.size(), layout.align() as int);
    }

    /// After deallocating everything, a region is empty and the memory is left as it is.
    pub proof fn lemma_dealloc_all_empty(self, mem: MemView, next: Region, next_mem: MemView)
        requires
            self.inv(mem.lo(), mem.hi()),
            self.dealloc_all_rel(mem, next, next_mem),
        ensures
            next.capacity_left_spec() == next.capacity_spec(),
            next.capacity_spec() == self.capacity_spec(),
            next_mem == mem,
    {
    }

    /// Allocating all of a region's memory leaves less than the alignment of the request: a
    /// request aligned to one byte leaves the region full.
    pub proof fn lemma_alloc_all_full(
        self,
        mem: MemView,
        layout: Layout,
        init: AllocInit,
        next: Region,
        next_mem: MemView,
        r: AllocResult,
    )
        requires
            self.inv(mem.lo(), mem.hi()),
            crate::layout::valid_layout(layout.size() as int, layout.align() as int),
            self.alloc_all_rel(mem, layout, init, next, next_mem, r),
            r is Ok,
        ensures
            next.capacity_left_spec() < layout.align(),
            next.capacity_spec() == self.capacity_spec(),
            r->Ok_0.ptr + r->Ok_0.len == self.current(),
    {
        crate::layout::lemma_power_of_two_positive(layout.align() as int);
        lemma_round_down(self.start + layout.align() - 1, layout.align() as int);
    }
}

/// The address `a` is a multiple of `align` from which `size` bytes fit between `lo` and `hi`.
pub open spec fn aligned_fit(a: int, size: int, align: int, lo: int, hi: int) -> bool {
    &&& lo <= a
    &&& a % align == 0
    &&& a + size <= hi
}

impl Region {
    /// Allocating places the block as high as it fits: it succeeds exactly when some multiple of
    /// the alignment leaves room for the requested size between the start of the region and
    /// the current position; the block then starts at the highest such address and runs up to
    /// the current position, which moves down to it. On failure nothing changes.
    pub proof fn lemma_alloc_highest(
        self,
        mem: MemView,
        layout: Layout,
        init: AllocInit,
        next: Region,
        next_mem: MemView,
        r: AllocResult,
    )
        requires
            self.wf(),
            layout.align() >= 1,
            self.alloc_rel(mem, layout, init, next, next_mem, r),
        ensures
            forall|a: int|
                #[trigger] aligned_fit(
                    a,
                    layout.size() as int,
                    layout.align() as int,
                    self.spec_start(),
                    self.current(),
                ) ==> r is Ok,
            r is Ok ==> {
                &&& aligned_fit(
                    r->Ok_0.ptr as int,
                    layout.size() as int,
                    layout.align() as int,
                    self.spec_start(),
                    self.current(),
                )
                &&& r->Ok_0.ptr + r->Ok_0.len == self.current()
                &&& next.current() == r->Ok_0.ptr
                &&& forall|a: int|
                    #[trigger] aligned_fit(
                        a,
                        layout.size() as int,
                        layout.align() as int,
                        self.spec_start(),
                        self.current(),
                    ) ==> a <= r->Ok_0.ptr
            },
            r is Err ==> next == self && next_mem == mem,
    {
        if self.ptr >= layout.size() {
            lemma_round_down(self.ptr - layout.size(), layout.align() as int);
        }
        assert forall|a: int|
            #[trigger] aligned_fit(
                a,
                layout.size() as int,
                layout.align() as int,
                self.spec_start(),
                self.current(),
            ) implies r is Ok && a <= r->Ok_0.ptr by {
            assert(0 <= a <= self.ptr - layout.size());
        }
    }

    /// Growing a block that was not allocated last, when it may move, allocates a new block for
    /// the new size: it succeeds whenever some multiple of the alignment leaves room for the new
    /// size between the start of the region and the current position, and the new block then
    /// starts at the highest such address, runs up to the current position, and starts with the
    /// old block's bytes.
    pub proof fn lemma_grow_other_block(
        self,
        mem: MemView,
        ptr: usize,
        old_layout: Layout,
        new_layout: Layout,
        init: AllocInit,
        next: Region,
        next_mem: MemView,
        r: AllocResult,
    )
        requires
            self.wf(),
            mem.lo() <= self.spec_start(),
            self.spec_end() <= mem.hi(),
            self.handed_back_ok(ptr, old_layout),
            self.current() != ptr,
            old_layout.size() < new_layout.size(),
            old_layout.align() >= 1,
            self.grow_rel(mem, ptr, old_layout, new_layout, init, next, next_mem, r),
        ensures
            forall|a: int|
                #[trigger] aligned_fit(
                    a,
                    new_layout.size() as int,
                    old_layout.align() as int,
                    self.spec_start(),
                    self.current(),
                ) ==> r is Ok,
            r is Ok ==> {
                &&& aligned_fit(
                    r->Ok_0.ptr as int,
                    new_layout.size() as int,
                    old_layout.align() as int,
                    self.spec_start(),
                    self.current(),
                )
                &&& r->Ok_0.ptr + r->Ok_0.len == self.current()
                &&& next.current() == r->Ok_0.ptr
                &&& forall|a: int|
                    #[trigger] aligned_fit(
                        a,
                        new_layout.size() as int,
                        old_layout.align() as int,
                        self.spec_start(),
                        self.current(),
                    ) ==> a <= r->Ok_0.ptr
                &&& forall|i: int|
                    0 <= i < old_layout.size() ==> #[trigger] next_mem.byte(r->Ok_0.ptr + i)
                        == mem.byte(ptr + i)
            },
            r is Err ==> next == self && next_mem == mem,
    {
        if self.ptr >= new_layout.size() {
            lemma_round_down(self.ptr - new_layout.size(), old_layout.align() as int);
        }
        self.lemma_grow_contents(
            mem,
            ptr,
            old_layout,
            new_layout.size() as int,
            ReallocPlacement::MayMove,
            init,
        );
        assert forall|a: int|
            #[trigger] aligned_fit(
                a,
                new_layout.size() as int,
                old_layout.align() as int,
                self.spec_start(),
                self.current(),
            ) implies r is Ok && a <= r->Ok_0.ptr by {
            assert(0 <= a <= self.ptr - new_layout.size());
        }
    }

    /// Growing the block allocated last extends it downwards: when it may move, it succeeds
    /// whenever some multiple of the alignment leaves room for the additional bytes between the
    /// start of the region and the current position. The grown block then starts at the highest
    /// such address and ends where the old block ended; the current position moves down to it.
    pub proof fn lemma_grow_last_block(
        self,
        mem: MemView,
        ptr: usize,
        old_layout: Layout,
        new_layout: Layout,
        init: AllocInit,
        next: Region,
        next_mem: MemView,
        r: AllocResult,
    )
        requires
            self.wf(),
            self.handed_back_ok(ptr, old_layout),
            self.current() == ptr,
            old_layout.size() < new_layout.size(),
            old_layout.align() >= 1,
            self.grow_rel(mem, ptr, old_layout, new_layout, init, next, next_mem, r),
        ensures
            forall|a: int|
                #[trigger] aligned_fit(
                    a,
                    new_layout.size() - old_layout.size(),
                    old_layout.align() as int,
                    self.spec_start(),
                    self.current(),
                ) ==> r is Ok,
            r is Ok ==> {
                &&& aligned_fit(
                    r->Ok_0.ptr as int,
                    new_layout.size() - old_layout.size(),
                    old_layout.align() as int,
                    self.spec_start(),
                    self.current(),
                )
                &&& r->Ok_0.ptr + r->Ok_0.len == ptr + old_layout.size()
                &&& next.current() == r->Ok_0.ptr
                &&& forall|a: int|
                    #[trigger] aligned_fit(
                        a,
                        new_layout.size() - old_layout.size(),
                        old_layout.align() as int,
                        self.spec_start(),
                        self.current(),
                    ) ==> a <= r->Ok_0.ptr
            },
            r is Err ==> next == self && next_mem == mem,
    {
        let additional = new_layout.size() - old_layout.size();
        if self.ptr >= additional {
            lemma_round_down(self.ptr - additional, old_layout.align() as int);
        }
        assert forall|a: int|
            #[trigger] aligned_fit(
                a,
                additional,
                old_layout.align() as int,
                self.spec_start(),
                self.current(),
            ) implies r is Ok && a <= r->Ok_0.ptr by {
            assert(0 <= a <= self.ptr - additional);
        }
    }
}

impl Region {
    /// Growing a block the region handed out: to the same size it is returned as it is; a
    /// block that must stay where it is cannot grow; and when growing fails, or the size stays,
    /// the region and the memory are left as they were.
    pub proof fn lemma_grow_unchanged(
        self,
        mem: MemView,
        ptr: usize,
        old_layout: Layout,
        new_size: int,
        placement: ReallocPlacement,
        init: AllocInit,
    )
        requires
            self.wf(),
            self.handed_back_ok(ptr, old_layout),
            new_size >= old_layout.size(),
        ensures
            ({
                let (next, m, r) = self.grow_spec(mem, ptr, old_layout, new_size, placement, init);
                &&& new_size == old_layout.size() ==> r == Ok::<MemoryBlock, AllocError>(
                    MemoryBlock { ptr, len: old_layout.size() },
                )
                &&& (placement == ReallocPlacement::InPlace && new_size != old_layout.size())
                    ==> r is Err
                &&& (r is Err || new_size == old_layout.size()) ==> next == self && m == mem
            }),
    {
    }

    /// A block that grew is aligned like the old one, at least as long as the new size, owned
    /// by the region and its last block; it starts with the old block's bytes, and grown with
    /// zeroes its remaining bytes are zero.
    pub proof fn lemma_grow_ok(
        self,
        mem: MemView,
        ptr: usize,
        old_layout: Layout,
        new_size: int,
        placement: ReallocPlacement,
        init: AllocInit,
    )
        requires
            self.wf(),
            mem.lo() <= self.spec_start(),
            self.spec_end() <= mem.hi(),
            self.handed_back_ok(ptr, old_layout),
            new_size > old_layout.size(),
            old_layout.align() >= 1,
        ensures
            ({
                let (next, m, r) = self.grow_spec(mem, ptr, old_layout, new_size, placement, init);
                r is Ok ==> {
                    &&& r->Ok_0.len >= new_size
                    &&& r->Ok_0.ptr as int % old_layout.align() as int == 0
                    &&& next.wf()
                    &&& next.owns_spec(r->Ok_0)
                    &&& next.current() == r->Ok_0.ptr
                    &&& forall|i: int|
                        0 <= i < old_layout.size() ==> #[trigger] m.byte(r->Ok_0.ptr + i)
                            == mem.byte(ptr + i)
                    &&& init == AllocInit::Zeroed ==> forall|i: int|
                        old_layout.size() <= i < r->Ok_0.len ==> #[trigger] m.byte(r->Ok_0.ptr + i)
                            == 0
                }
            }),
    {
        self.lemma_grow_contents(mem, ptr, old_layout, new_size, placement, init);
        let old_size = old_layout.size() as int;
        let align = old_layout.align() as int;
        if placement != ReallocPlacement::InPlace {
            if self.ptr == ptr {
                let additional = new_size - old_size;
                if self.ptr >= additional {
                    lemma_round_down(self.ptr - additional, align);
                }
            } else if self.ptr >= new_size {
                lemma_round_down(self.ptr - new_size, align);
            }
        }
    }

    /// Shrinking the last block: it keeps its end and starts at the highest multiple of the
    /// alignment that leaves room for the new size, which becomes the current position, and it
    /// starts with the old block's first bytes. Only a block that must stay where it is and
    /// would move fails, and then nothing changes.
    pub proof fn lemma_shrink_last(
        self,
        mem: MemView,
        ptr: usize,
        old_layout: Layout,
        new_size: int,
        placement: ReallocPlacement,
    )
        requires
            self.wf(),
            mem.lo() <= self.spec_start(),
            self.spec_end() <= mem.hi(),
            self.handed_back_ok(ptr, old_layout),
            self.current() == ptr,
            0 <= new_size < old_layout.size(),
            old_layout.align() >= 1,
        ensures
            ({
                let (next, m, r) = self.shrink_spec(mem, ptr, old_layout, new_size, placement);
                let a = round_down(ptr + old_layout.size() - new_size, old_layout.align() as int);
                &&& (placement == ReallocPlacement::InPlace && a != ptr) <==> r is Err
                &&& r is Err ==> next == self && m == mem
                &&& r is Ok ==> {
                    &&& r->Ok_0.ptr == a
                    &&& r->Ok_0.ptr + r->Ok_0.len == ptr + old_layout.size()
                    &&& r->Ok_0.len >= new_size
                    &&& next.wf()
                    &&& next.current() == a
                    &&& next.capacity_left_spec() == a - self.spec_start()
                    &&& forall|i: int|
                        0 <= i < new_size ==> #[trigger] m.byte(r->Ok_0.ptr + i) == mem.byte(ptr + i)
                }
            }),
    {
        self.lemma_shrink_contents(mem, ptr, old_layout, new_size, placement);
        lemma_round_down(self.ptr + old_layout.size() - new_size, old_layout.align() as int);
    }

    /// Shrinking a block that is not the last one: a block that must stay where it is fails,
    /// another is returned as it is; the region and the memory are left as they were.
    pub proof fn lemma_shrink_not_last(
        self,
        mem: MemView,
        ptr: usize,
        old_layout: Layout,
        new_size: int,
        placement: ReallocPlacement,
    )
        requires
            self.current() != ptr,
            new_size != old_layout.size(),
        ensures
            ({
                let (next, m, r) = self.shrink_spec(mem, ptr, old_layout, new_size, placement);
                &&& placement == ReallocPlacement::InPlace ==> r is Err
                &&& placement == ReallocPlacement::MayMove ==> r == Ok::<MemoryBlock, AllocError>(
                    MemoryBlock { ptr, len: old_layout.size() },
                )
                &&& next == self
                &&& m == mem
            }),
    {
    }
}

impl Region {
    /// What allocating does to the memory: nothing for an uninitialized block, zeroes for a
    /// zeroed one.
    proof fn lemma_alloc_contents(self, mem: MemView, target: Option<int>, init: AllocInit)
        requires
            self.wf(),
            mem.lo() <= self.spec_start(),
            self.spec_end() <= mem.hi(),
            target is Some ==> self.spec_start() <= target->Some_0 <= self.ptr,
        ensures
            ({
                let (next, m, r) = self.alloc_step(mem, target, init);
                &&& init == AllocInit::Uninitialized ==> m == mem
                &&& (init == AllocInit::Zeroed && r is Ok) ==> forall|i: int|
                    r->Ok_0.ptr <= i < r->Ok_0.ptr + r->Ok_0.len ==> #[trigger] m.byte(i) == 0
            }),
    {
        let (next, m, r) = self.alloc_step(mem, target, init);
        if init == AllocInit::Uninitialized {
            assert(m.bytes =~= mem.bytes);
        }
    }

    /// What growing does to the memory: the bytes of the old block are found at the start of
    /// the new one, and for zeroed growth the rest of the new block is zero.
    proof fn lemma_grow_contents(
        self,
        mem: MemView,
        ptr: usize,
        old_layout: Layout,
        new_size: int,
        placement: ReallocPlacement,
        init: AllocInit,
    )
        requires
            self.wf(),
            mem.lo() <= self.spec_start(),
            self.spec_end() <= mem.hi(),
            self.handed_back_ok(ptr, old_layout),
            new_size >= old_layout.size(),
            old_layout.align() >= 1,
        ensures
            ({
                let (next, m, r) = self.grow_spec(mem, ptr, old_layout, new_size, placement, init);
                r is Ok ==> {
                    &&& r->Ok_0.len >= old_layout.size()
                    &&& forall|i: int|
                        0 <= i < old_layout.size() ==> #[trigger] m.byte(r->Ok_0.ptr + i)
                            == mem.byte(ptr + i)
                    &&& init == AllocInit::Zeroed ==> forall|i: int|
                        old_layout.size() <= i < r->Ok_0.len ==> #[trigger] m.byte(r->Ok_0.ptr + i)
                            == 0
                }
            }),
    {
        let old_size = old_layout.size() as int;
        let align = old_layout.align() as int;
        if old_size == new_size {
        } else if placement == ReallocPlacement::InPlace {
        } else if self.ptr == ptr {
            let additional = new_size - old_size;
            if self.ptr >= additional && round_down(self.ptr - additional, align) >= self.start {
                lemma_round_down(self.ptr - additional, align);
            }
        } else {
            let t = self.alloc_target(new_size, align);
            if t is Some {
                lemma_round_down(self.ptr - new_size, align);
            }
        }
    }

    /// What shrinking does to the memory: the first bytes of the old block, as many as the new
    /// size, are found at the start of the new block.
    proof fn lemma_shrink_contents(
        self,
        mem: MemView,
        ptr: usize,
        old_layout: Layout,
        new_size: int,
        placement: ReallocPlacement,
    )
        requires
            self.wf(),
            mem.lo() <= self.spec_start(),
            self.spec_end() <= mem.hi(),
            self.handed_back_ok(ptr, old_layout),
            0 <= new_size <= old_layout.size(),
            old_layout.align() >= 1,
        ensures
            ({
                let (next, m, r) = self.shrink_spec(mem, ptr, old_layout, new_size, placement);
                r is Ok ==> {
                    &&& r->Ok_0.len >= new_size
                    &&& forall|i: int|
                        0 <= i < new_size ==> #[trigger] m.byte(r->Ok_0.ptr + i) == mem.byte(ptr + i)
                }
            }),
    {
        let old_size = old_layout.size() as int;
        let align = old_layout.align() as int;
        if old_size != new_size && self.ptr == ptr {
            lemma_round_down(self.ptr + old_size - new_size, align);
        }
    }
}

} // verus!
