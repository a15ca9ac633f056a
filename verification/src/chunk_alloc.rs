use crate::layout::{is_power_of_two, lemma_round_down, round_down, valid_layout};
use crate::{
    AllocError, AllocInit, AllocRef, AllocResult, Layout, MemView, Memory, MemoryBlock, Owns,
    ReallocInPlace,
};
use vstd::prelude::*;

verus! {

/// Allocates memory in multiples of `SIZE`, which must be a power of two.
///
/// Every request reaches the inner allocator with its size rounded up to the next multiple of
/// `SIZE`. Growing or shrinking a block within the chunk it already has does not call the inner
/// allocator: the block is reported with the chunk's size.
#[derive(Debug, Default, Copy, Clone, PartialEq, Eq)]
pub struct ChunkAlloc<A, const SIZE: usize>(pub A);

/// `size` rounded up to the next multiple of `chunk`.
pub open spec fn next_multiple_spec(size: int, chunk: int) -> int {
    ((size + chunk - 1) / chunk) * chunk
}

/// The layout the inner allocator sees for `layout`: its size rounded up to a multiple of
/// `chunk`, when that does not overflow and is a valid layout.
pub open spec fn chunked_layout(layout: Layout, chunk: int) -> Option<Layout> {
    let n = next_multiple_spec(layout.size() as int, chunk);
    if layout.size() + chunk - 1 <= usize::MAX && valid_layout(n, layout.align() as int) {
        Some(Layout::from_parts(n as usize, layout.align()))
    } else {
        None
    }
}

/// Facts about rounding up to a multiple.
pub proof fn lemma_next_multiple(size: int, chunk: int)
    requires
        size >= 0,
        chunk >= 1,
    ensures
        next_multiple_spec(size, chunk) == round_down(size + chunk - 1, chunk),
        size <= next_multiple_spec(size, chunk) < size + chunk,
        next_multiple_spec(size, chunk) % chunk == 0,
{
    let x = size + chunk - 1;
    assert(x == chunk * (x / chunk) + x % chunk) by {
        vstd::arithmetic::div_mod::lemma_fundamental_div_mod(x, chunk);
    }
    assert((x / chunk) * chunk == chunk * (x / chunk)) by (nonlinear_arith);
    lemma_round_down(x, chunk);
}

impl<A, const SIZE: usize> ChunkAlloc<A, SIZE> {
    /// `SIZE` must be a power of two.
    fn assert_alignment()
        requires
            is_power_of_two(SIZE as int),
    {
    }

    /// `size` rounded up to the next multiple of `SIZE`.
    fn next_multiple(size: usize) -> (r: usize)
        requires
            SIZE >= 1,
            size + SIZE - 1 <= usize::MAX,
        ensures
            r == next_multiple_spec(size as int, SIZE as int),
    {
        proof {
            lemma_next_multiple(size as int, SIZE as int);
        }
        ((size + (SIZE - 1)) / SIZE) * SIZE
    }

    /// The layout the inner allocator sees for `layout`.
    fn chunked_layout(layout: Layout) -> (r: Result<Layout, AllocError>)
        requires
            SIZE >= 1,
        ensures
            match chunked_layout(layout, SIZE as int) {
                Some(l) => r == Ok::<Layout, AllocError>(l),
                None => r is Err,
            },
    {
        let size = layout.size();
        if size > usize::MAX - (SIZE - 1) {
            return Err(AllocError);
        }
        match Layout::from_size_align(Self::next_multiple(size), layout.align()) {
            Ok(l) => Ok(l),
            Err(_) => Err(AllocError),
        }
    }

    /// Facts about the layout the inner allocator sees.
    proof fn lemma_chunked_layout(layout: Layout)
        requires
            SIZE >= 1,
            chunked_layout(layout, SIZE as int) is Some,
        ensures
            ({
                let l = chunked_layout(layout, SIZE as int)->Some_0;
                &&& l.size() >= layout.size()
                &&& l.size() < layout.size() + SIZE
                &&& l.size() as int % SIZE as int == 0
                &&& l.align() == layout.align()
                &&& valid_layout(l.size() as int, l.align() as int)
            }),
    {
        lemma_next_multiple(layout.size() as int, SIZE as int);
        let n = next_multiple_spec(layout.size() as int, SIZE as int);
        Layout::lemma_from_parts(n as usize, layout.align());
    }
}

impl<A: AllocRef, const SIZE: usize> ChunkAlloc<A, SIZE> {
    /// The block at `ptr` described by `layout` is aligned as described, and the inner allocator
    /// may take back the block with the rounded-up size.
    pub open spec fn chunk_block_ok(&self, ptr: usize, layout: Layout) -> bool {
        &&& ptr as int % layout.align() as int == 0
        &&& chunked_layout(layout, SIZE as int) is Some
        &&& self.0.dealloc_pre(ptr, chunked_layout(layout, SIZE as int)->Some_0)
    }

    fn alloc_impl(&mut self, mem: &mut Memory, layout: Layout, init: AllocInit) -> (r: AllocResult)
        requires
            old(self).inv(old(mem).lo(), old(mem).hi()),
            old(mem).wf(),
        ensures
            final(mem)@.same_range(old(mem)@),
            final(self).inv(final(mem).lo(), final(mem).hi()),
            old(self).alloc_rel(old(mem)@, layout, init, *final(self), final(mem)@, r),
            r is Ok ==> crate::block_fits(r->Ok_0, layout, old(mem).lo(), old(mem).hi()),
            r is Err ==> final(mem)@ == old(mem)@ && old(self).equiv(*final(self)),
    {
        Self::assert_alignment();
        proof {
            crate::layout::lemma_power_of_two_positive(SIZE as int);
            self.0.lemma_equiv_refl();
        }
        let chunked = match Self::chunked_layout(layout) {
            Ok(l) => l,
            Err(e) => return Err(e),
        };
        proof {
            Self::lemma_chunked_layout(layout);
        }
        let ghost mem0 = mem@;
        let ghost inner0 = self.0;
        let r = match init {
            AllocInit::Uninitialized => self.0.allocate(mem, chunked),
            AllocInit::Zeroed => self.0.allocate_zeroed(mem, chunked),
        };
        proof {
            assert(inner0.alloc_rel(mem0, chunked, init, self.0, mem@, r));
        }
        r
    }

    fn grow_impl(
        &mut self,
        mem: &mut Memory,
        ptr: usize,
        old_layout: Layout,
        new_layout: Layout,
        init: AllocInit,
    ) -> (r: AllocResult)
        requires
            old(self).inv(old(mem).lo(), old(mem).hi()),
            old(mem).wf(),
            old(self).grow_pre(ptr, old_layout, new_layout),
        ensures
            final(mem)@.same_range(old(mem)@),
            final(self).inv(final(mem).lo(), final(mem).hi()),
            old(self).grow_rel(
                old(mem)@,
                ptr,
                old_layout,
                new_layout,
                init,
                *final(self),
                final(mem)@,
                r,
            ),
            r is Ok ==> crate::block_fits(r->Ok_0, new_layout, old(mem).lo(), old(mem).hi()),
            r is Ok ==> forall|i: int|
                0 <= i < old_layout.size() ==> #[trigger] final(mem)@.byte(r->Ok_0.ptr + i)
                    == old(mem)@.byte(ptr + i),
            r is Err ==> final(mem)@ == old(mem)@ && old(self).equiv(*final(self)),
    {
        proof {
            crate::layout::lemma_power_of_two_positive(SIZE as int);
            self.0.lemma_equiv_refl();
            Self::lemma_chunked_layout(old_layout);
        }
        let current = match Self::chunked_layout(old_layout) {
            Ok(l) => l,
            Err(e) => return Err(e),
        };
        let next_multiple = current.size();
        if new_layout.size() <= next_multiple {
            proof {
                self.0.lemma_dealloc_pre(mem.lo(), mem.hi(), ptr, current);
            }
            return Ok(MemoryBlock { ptr, len: next_multiple });
        }
        let target = match Self::chunked_layout(new_layout) {
            Ok(l) => l,
            Err(e) => return Err(e),
        };
        proof {
            Self::lemma_chunked_layout(new_layout);
        }
        let ghost mem0 = mem@;
        let ghost inner0 = self.0;
        let r = match init {
            AllocInit::Uninitialized => self.0.grow(mem, ptr, current, target),
            AllocInit::Zeroed => self.0.grow_zeroed(mem, ptr, current, target),
        };
        proof {
            assert(inner0.grow_rel(mem0, ptr, current, target, init, self.0, mem@, r));
        }
        r
    }
}

impl<A: AllocRef, const SIZE: usize> AllocRef for ChunkAlloc<A, SIZE> {
    open spec fn inv(&self, lo: int, hi: int) -> bool {
        &&& is_power_of_two(SIZE as int)
        &&& self.0.inv(lo, hi)
    }

    open spec fn equiv(&self, other: Self) -> bool {
        self.0.equiv(other.0)
    }

    /// The inner allocator serves the request rounded up to a multiple of `SIZE`.
    open spec fn alloc_rel(
        &self,
        mem: MemView,
        layout: Layout,
        init: AllocInit,
        next: Self,
        next_mem: MemView,
        r: AllocResult,
    ) -> bool {
        match chunked_layout(layout, SIZE as int) {
            None => r is Err && next == *self && next_mem == mem,
            Some(l) => self.0.alloc_rel(mem, l, init, next.0, next_mem, r),
        }
    }

    open spec fn dealloc_pre(&self, ptr: usize, layout: Layout) -> bool {
        self.chunk_block_ok(ptr, layout)
    }

    /// The inner allocator takes back the block with its size rounded up.
    open spec fn dealloc_rel(
        &self,
        mem: MemView,
        ptr: usize,
        layout: Layout,
        next: Self,
        next_mem: MemView,
    ) -> bool {
        self.0.dealloc_rel(mem, ptr, chunked_layout(layout, SIZE as int)->Some_0, next.0, next_mem)
    }

    open spec fn grow_pre(&self, ptr: usize, old_layout: Layout, new_layout: Layout) -> bool {
        &&& self.chunk_block_ok(ptr, old_layout)
        &&& new_layout.align() == old_layout.align()
        &&& old_layout.size() <= new_layout.size()
        &&& new_layout.size() > chunked_layout(old_layout, SIZE as int)->Some_0.size()
            ==> match chunked_layout(new_layout, SIZE as int) {
            Some(ln) => self.0.grow_pre(ptr, chunked_layout(old_layout, SIZE as int)->Some_0, ln),
            None => true,
        }
    }

    /// Within the chunk, the block keeps its address and is reported with the chunk's size;
    /// otherwise the inner allocator grows the chunk to the rounded-up new size.
    open spec fn grow_rel(
        &self,
        mem: MemView,
        ptr: usize,
        old_layout: Layout,
        new_layout: Layout,
        init: AllocInit,
        next: Self,
        next_mem: MemView,
        r: AllocResult,
    ) -> bool {
        let lc = chunked_layout(old_layout, SIZE as int)->Some_0;
        if new_layout.size() <= lc.size() {
            &&& next == *self
            &&& next_mem == mem
            &&& r == Ok::<MemoryBlock, AllocError>(MemoryBlock { ptr, len: lc.size() })
        } else {
            match chunked_layout(new_layout, SIZE as int) {
                None => r is Err && next == *self && next_mem == mem,
                Some(ln) => self.0.grow_rel(mem, ptr, lc, ln, init, next.0, next_mem, r),
            }
        }
    }

    open spec fn shrink_pre(&self, ptr: usize, old_layout: Layout, new_layout: Layout) -> bool {
        &&& self.chunk_block_ok(ptr, old_layout)
        &&& new_layout.align() == old_layout.align()
        &&& new_layout.size() <= old_layout.size()
        &&& old_layout.size() >= 1
        &&& new_layout.size() <= chunked_layout(old_layout, SIZE as int)->Some_0.size() - SIZE
            ==> match chunked_layout(new_layout, SIZE as int) {
            Some(ln) => self.0.shrink_pre(ptr, chunked_layout(old_layout, SIZE as int)->Some_0, ln),
            None => true,
        }
    }

    /// Within the chunk, the block is reported unchanged with the chunk's size; otherwise the
    /// inner allocator shrinks the chunk to the rounded-up new size.
    open spec fn shrink_rel(
        &self,
        mem: MemView,
        ptr: usize,
        old_layout: Layout,
        new_layout: Layout,
        next: Self,
        next_mem: MemView,
        r: AllocResult,
    ) -> bool {
        let lc = chunked_layout(old_layout, SIZE as int)->Some_0;
        if new_layout.size() > lc.size() - SIZE {
            &&& next == *self
            &&& next_mem == mem
            &&& r == Ok::<MemoryBlock, AllocError>(MemoryBlock { ptr, len: lc.size() })
        } else {
            match chunked_layout(new_layout, SIZE as int) {
                None => r is Err && next == *self && next_mem == mem,
                Some(ln) => self.0.shrink_rel(mem, ptr, lc, ln, next.0, next_mem, r),
            }
        }
    }

    proof fn lemma_dealloc_pre(&self, lo: int, hi: int, ptr: usize, layout: Layout) {
        if self.inv(lo, hi) && self.dealloc_pre(ptr, layout) {
            crate::layout::lemma_power_of_two_positive(SIZE as int);
            Self::lemma_chunked_layout(layout);
            self.0.lemma_dealloc_pre(lo, hi, ptr, chunked_layout(layout, SIZE as int)->Some_0);
        }
    }

    proof fn lemma_grow_pre(&self, ptr: usize, old_layout: Layout, new_layout: Layout) {
    }

    proof fn lemma_shrink_pre(&self, ptr: usize, old_layout: Layout, new_layout: Layout) {
    }

    proof fn lemma_equiv(
        &self,
        other: Self,
        lo: int,
        hi: int,
        ptr: usize,
        l1: Layout,
        l2: Layout,
    ) {
        let c1 = chunked_layout(l1, SIZE as int)->Some_0;
        let c2 = chunked_layout(l2, SIZE as int)->Some_0;
        self.0.lemma_equiv(other.0, lo, hi, ptr, c1, c2);
    }

    proof fn lemma_equiv_refl(&self) {
        self.0.lemma_equiv_refl();
    }

    proof fn lemma_alloc_zeroed(
        &self,
        mem: MemView,
        layout: Layout,
        next: Self,
        next_mem: MemView,
        r: AllocResult,
    ) {
        crate::layout::lemma_power_of_two_positive(SIZE as int);
        Self::lemma_chunked_layout(layout);
        let l = chunked_layout(layout, SIZE as int)->Some_0;
        self.0.lemma_alloc_zeroed(mem, l, next.0, next_mem, r);
    }

    proof fn lemma_equiv_trans(&self, b: Self, c: Self) {
        self.0.lemma_equiv_trans(b.0, c.0);
    }

    fn allocate(&mut self, mem: &mut Memory, layout: Layout) -> (r: AllocResult) {
        self.alloc_impl(mem, layout, AllocInit::Uninitialized)
    }

    fn allocate_zeroed(&mut self, mem: &mut Memory, layout: Layout) -> (r: AllocResult) {
        self.alloc_impl(mem, layout, AllocInit::Zeroed)
    }

    fn deallocate(&mut self, mem: &mut Memory, ptr: usize, layout: Layout) {
        proof {
            crate::layout::lemma_power_of_two_positive(SIZE as int);
        }
        let chunked = match Self::chunked_layout(layout) {
            Ok(l) => l,
            Err(_) => {
                proof {
                    assert(false);
                }
                return ;
            },
        };
        self.0.deallocate(mem, ptr, chunked)
    }

    fn grow(&mut self, mem: &mut Memory, ptr: usize, old_layout: Layout, new_layout: Layout) -> (r:
        AllocResult) {
        self.grow_impl(mem, ptr, old_layout, new_layout, AllocInit::Uninitialized)
    }

    fn grow_zeroed(
        &mut self,
        mem: &mut Memory,
        ptr: usize,
        old_layout: Layout,
        new_layout: Layout,
    ) -> (r: AllocResult) {
        self.grow_impl(mem, ptr, old_layout, new_layout, AllocInit::Zeroed)
    }

    fn shrink(&mut self, mem: &mut Memory, ptr: usize, old_layout: Layout, new_layout: Layout) -> (r:
        AllocResult) {
        proof {
            crate::layout::lemma_power_of_two_positive(SIZE as int);
            self.0.lemma_equiv_refl();
            Self::lemma_chunked_layout(old_layout);
        }
        let current = match Self::chunked_layout(old_layout) {
            Ok(l) => l,
            Err(e) => return Err(e),
        };
        let next_multiple = current.size();
        proof {
            if next_multiple < SIZE {
                vstd::arithmetic::div_mod::lemma_small_mod(next_multiple as nat, SIZE as nat);
            }
        }
        let previous_multiple = next_multiple - SIZE;
        if new_layout.size() > previous_multiple {
            proof {
                self.0.lemma_dealloc_pre(mem.lo(), mem.hi(), ptr, current);
            }
            return Ok(MemoryBlock { ptr, len: next_multiple });
        }
        let target = match Self::chunked_layout(new_layout) {
            Ok(l) => l,
            Err(e) => return Err(e),
        };
        proof {
            Self::lemma_chunked_layout(new_layout);
        }
        let ghost mem0 = mem@;
        let ghost inner0 = self.0;
        let r = self.0.shrink(mem, ptr, current, target);
        proof {
            assert(inner0.shrink_rel(mem0, ptr, current, target, self.0, mem@, r));
        }
        r
    }
}

impl<A: ReallocInPlace, const SIZE: usize> ChunkAlloc<A, SIZE> {
    fn grow_in_place_impl(
        &mut self,
        mem: &mut Memory,
        ptr: usize,
        old_layout: Layout,
        new_layout: Layout,
        init: AllocInit,
    ) -> (r: Result<usize, AllocError>)
        requires
            old(self).inv(old(mem).lo(), old(mem).hi()),
            old(mem).wf(),
            old(self).grow_pre(ptr, old_layout, new_layout),
        ensures
            final(mem)@.same_range(old(mem)@),
            final(self).inv(final(mem).lo(), final(mem).hi()),
            old(self).grow_in_place_rel(
                old(mem)@,
                ptr,
                old_layout,
                new_layout,
                init,
                *final(self),
                final(mem)@,
                r,
            ),
            r is Ok ==> r->Ok_0 >= new_layout.size(),
            r is Ok ==> forall|i: int|
                0 <= i < old_layout.size() ==> #[trigger] final(mem)@.byte(ptr + i) == old(mem)@.byte(
                    ptr + i,
                ),
            r is Err ==> final(mem)@ == old(mem)@ && old(self).equiv(*final(self)),
    {
        proof {
            crate::layout::lemma_power_of_two_positive(SIZE as int);
            self.0.lemma_equiv_refl();
            Self::lemma_chunked_layout(old_layout);
        }
        let current = match Self::chunked_layout(old_layout) {
            Ok(l) => l,
            Err(e) => return Err(e),
        };
        let next_multiple = current.size();
        if new_layout.size() <= next_multiple {
            return Ok(next_multiple);
        }
        let target = match Self::chunked_layout(new_layout) {
            Ok(l) => l,
            Err(e) => return Err(e),
        };
        proof {
            Self::lemma_chunked_layout(new_layout);
        }
        let ghost mem0 = mem@;
        let ghost inner0 = self.0;
        let r = match init {
            AllocInit::Uninitialized => self.0.grow_in_place(mem, ptr, current, target),
            AllocInit::Zeroed => self.0.grow_in_place_zeroed(mem, ptr, current, target),
        };
        proof {
            assert(inner0.grow_in_place_rel(mem0, ptr, current, target, init, self.0, mem@, r));
        }
        r
    }
}

impl<A: ReallocInPlace, const SIZE: usize> ReallocInPlace for ChunkAlloc<A, SIZE> {
    /// Within the chunk, the block is reported with the chunk's size; otherwise the inner
    /// allocator grows the chunk in place to the rounded-up new size.
    open spec fn grow_in_place_rel(
        &self,
        mem: MemView,
        ptr: usize,
        old_layout: Layout,
        new_layout: Layout,
        init: AllocInit,
        next: Self,
        next_mem: MemView,
        r: Result<usize, AllocError>,
    ) -> bool {
        let lc = chunked_layout(old_layout, SIZE as int)->Some_0;
        if new_layout.size() <= lc.size() {
            next == *self && next_mem == mem && r == Ok::<usize, AllocError>(lc.size())
        } else {
            match chunked_layout(new_layout, SIZE as int) {
                None => r is Err && next == *self && next_mem == mem,
                Some(ln) => self.0.grow_in_place_rel(mem, ptr, lc, ln, init, next.0, next_mem, r),
            }
        }
    }

    /// Within the chunk, the block is reported with the chunk's size; otherwise the inner
    /// allocator shrinks the chunk in place to the rounded-up new size.
    open spec fn shrink_in_place_rel(
        &self,
        mem: MemView,
        ptr: usize,
        old_layout: Layout,
        new_layout: Layout,
        next: Self,
        next_mem: MemView,
        r: Result<usize, AllocError>,
    ) -> bool {
        let lc = chunked_layout(old_layout, SIZE as int)->Some_0;
        if new_layout.size() > lc.size() - SIZE {
            next == *self && next_mem == mem && r == Ok::<usize, AllocError>(lc.size())
        } else {
            match chunked_layout(new_layout, SIZE as int) {
                None => r is Err && next == *self && next_mem == mem,
                Some(ln) => self.0.shrink_in_place_rel(mem, ptr, lc, ln, next.0, next_mem, r),
            }
        }
    }

    fn grow_in_place(
        &mut self,
        mem: &mut Memory,
        ptr: usize,
        old_layout: Layout,
        new_layout: Layout,
    ) -> (r: Result<usize, AllocError>) {
        self.grow_in_place_impl(mem, ptr, old_layout, new_layout, AllocInit::Uninitialized)
    }

    fn grow_in_place_zeroed(
        &mut self,
        mem: &mut Memory,
        ptr: usize,
        old_layout: Layout,
        new_layout: Layout,
    ) -> (r: Result<usize, AllocError>) {
        self.grow_in_place_impl(mem, ptr, old_layout, new_layout, AllocInit::Zeroed)
    }

    fn shrink_in_place(
        &mut self,
        mem: &mut Memory,
        ptr: usize,
        old_layout: Layout,
        new_layout: Layout,
    ) -> (r: Result<usize, AllocError>) {
        proof {
            crate::layout::lemma_power_of_two_positive(SIZE as int);
            self.0.lemma_equiv_refl();
            Self::lemma_chunked_layout(old_layout);
        }
        let current = match Self::chunked_layout(old_layout) {
            Ok(l) => l,
            Err(e) => return Err(e),
        };
        let next_multiple = current.size();
        proof {
            if next_multiple < SIZE {
                vstd::arithmetic::div_mod::lemma_small_mod(next_multiple as nat, SIZE as nat);
            }
        }
        if new_layout.size() > next_multiple - SIZE {
            return Ok(next_multiple);
        }
        let target = match Self::chunked_layout(new_layout) {
            Ok(l) => l,
            Err(e) => return Err(e),
        };
        proof {
            Self::lemma_chunked_layout(new_layout);
        }
        let ghost mem0 = mem@;
        let ghost inner0 = self.0;
        let r = self.0.shrink_in_place(mem, ptr, current, target);
        proof {
            assert(inner0.shrink_in_place_rel(mem0, ptr, current, target, self.0, mem@, r));
        }
        r
    }
}

impl<A: crate::HandsBack, const SIZE: usize> crate::HandsBack for ChunkAlloc<A, SIZE> {
    proof fn lemma_alloc_dealloc_pre(
        &self,
        mem: MemView,
        layout: Layout,
        init: AllocInit,
        next: Self,
        next_mem: MemView,
        r: AllocResult,
    ) {
        crate::layout::lemma_power_of_two_positive(SIZE as int);
        Self::lemma_chunked_layout(layout);
        let l = chunked_layout(layout, SIZE as int)->Some_0;
        self.0.lemma_alloc_dealloc_pre(mem, l, init, next.0, next_mem, r);
    }

    proof fn lemma_resize_pre(&self, lo: int, hi: int, ptr: usize, old_layout: Layout, new_layout: Layout) {
        crate::layout::lemma_power_of_two_positive(SIZE as int);
        Self::lemma_chunked_layout(old_layout);
        let lc = chunked_layout(old_layout, SIZE as int)->Some_0;
        if chunked_layout(new_layout, SIZE as int) is Some {
            Self::lemma_chunked_layout(new_layout);
            let ln = chunked_layout(new_layout, SIZE as int)->Some_0;
            self.0.lemma_resize_pre(lo, hi, ptr, lc, ln);
        }
    }
}

impl<A: Owns, const SIZE: usize> Owns for ChunkAlloc<A, SIZE> {
    open spec fn owns_spec(&self, memory: MemoryBlock) -> bool {
        self.0.owns_spec(memory)
    }

    proof fn lemma_owns_equiv(&self, other: Self, memory: MemoryBlock) {
        self.0.lemma_owns_equiv(other.0, memory);
    }

    fn owns(&mut self, memory: MemoryBlock) -> (r: bool) {
        self.0.owns(memory)
    }
}

impl<A: AllocRef, const SIZE: usize> ChunkAlloc<A, SIZE> {
    /// A request reaches the inner allocator with its size rounded up to the next multiple of
    /// `SIZE`, and the inner allocator's answer is handed out as it is.
    pub proof fn lemma_alloc_request(
        self,
        lo: int,
        hi: int,
        mem: MemView,
        layout: Layout,
        init: AllocInit,
        next: Self,
        next_mem: MemView,
        r: AllocResult,
    )
        requires
            self.inv(lo, hi),
            self.alloc_rel(mem, layout, init, next, next_mem, r),
            r is Ok,
        ensures
            exists|l: Layout|
                {
                    &&& l.size() as int % SIZE as int == 0
                    &&& layout.size() <= l.size() < layout.size() + SIZE
                    &&& l.align() == layout.align()
                    &&& #[trigger] self.0.alloc_rel(mem, l, init, next.0, next_mem, r)
                },
    {
        crate::layout::lemma_power_of_two_positive(SIZE as int);
        Self::lemma_chunked_layout(layout);
        let l = chunked_layout(layout, SIZE as int)->Some_0;
        assert(self.0.alloc_rel(mem, l, init, next.0, next_mem, r));
    }
}

} // verus!
