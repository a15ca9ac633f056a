use crate::layout::{lemma_power_of_two_divides, lemma_mod_transitive, lemma_round_down, round_down, is_power_of_two, valid_layout};
use crate::{
    AllocError, AllocInit, AllocRef, AllocResult, Layout, MemView, Memory, MemoryBlock, Owns,
    ReallocInPlace,
};
use vstd::prelude::*;

verus! {

/// Allocate memory with a multiple size of the provided chunk size.
///
/// Requests are rounded up to a multiple of `SIZE` before they reach the inner allocator, and the
/// blocks it returns are reported rounded down to a multiple of `SIZE`. When growing or
/// shrinking, `Chunk` first tries to stay inside the chunk it already has before delegating to
/// the inner allocator.
#[derive(Debug, Default, Copy, Clone, PartialEq, Eq)]
pub struct Chunk<A, const SIZE: usize>(pub A);

/// Marks the chunk sizes that are powers of two.
pub trait SizeIsPowerOfTwo {}

impl<A> SizeIsPowerOfTwo for Chunk<A, 2> {
}

impl<A> SizeIsPowerOfTwo for Chunk<A, 4> {
}

impl<A> SizeIsPowerOfTwo for Chunk<A, 8> {
}

impl<A> SizeIsPowerOfTwo for Chunk<A, 16> {
}

impl<A> SizeIsPowerOfTwo for Chunk<A, 32> {
}

impl<A> SizeIsPowerOfTwo for Chunk<A, 64> {
}

impl<A> SizeIsPowerOfTwo for Chunk<A, 128> {
}

impl<A> SizeIsPowerOfTwo for Chunk<A, 256> {
}

impl<A> SizeIsPowerOfTwo for Chunk<A, 512> {
}

impl<A> SizeIsPowerOfTwo for Chunk<A, 1024> {
}

impl<A> SizeIsPowerOfTwo for Chunk<A, 2048> {
}

impl<A> SizeIsPowerOfTwo for Chunk<A, 4096> {
}

impl<A> SizeIsPowerOfTwo for Chunk<A, 8192> {
}

impl<A> SizeIsPowerOfTwo for Chunk<A, 16384> {
}

impl<A> SizeIsPowerOfTwo for Chunk<A, 32768> {
}

impl<A> SizeIsPowerOfTwo for Chunk<A, 65536> {
}

impl<A> SizeIsPowerOfTwo for Chunk<A, 131072> {
}

impl<A> SizeIsPowerOfTwo for Chunk<A, 262144> {
}

impl<A> SizeIsPowerOfTwo for Chunk<A, 524288> {
}

impl<A> SizeIsPowerOfTwo for Chunk<A, 1048576> {
}

impl<A> SizeIsPowerOfTwo for Chunk<A, 2097152> {
}

impl<A> SizeIsPowerOfTwo for Chunk<A, 4194304> {
}

impl<A> SizeIsPowerOfTwo for Chunk<A, 8388608> {
}

impl<A> SizeIsPowerOfTwo for Chunk<A, 16777216> {
}

impl<A> SizeIsPowerOfTwo for Chunk<A, 33554432> {
}

impl<A> SizeIsPowerOfTwo for Chunk<A, 67108864> {
}

impl<A> SizeIsPowerOfTwo for Chunk<A, 134217728> {
}

impl<A> SizeIsPowerOfTwo for Chunk<A, 268435456> {
}

impl<A> SizeIsPowerOfTwo for Chunk<A, 536870912> {
}

impl<A> SizeIsPowerOfTwo for Chunk<A, 1073741824> {
}

impl<A> SizeIsPowerOfTwo for Chunk<A, 2147483648> {
}

impl<A> SizeIsPowerOfTwo for Chunk<A, 4294967296> {
}

impl<A> SizeIsPowerOfTwo for Chunk<A, 8589934592> {
}

impl<A> SizeIsPowerOfTwo for Chunk<A, 17179869184> {
}

impl<A> SizeIsPowerOfTwo for Chunk<A, 34359738368> {
}

impl<A> SizeIsPowerOfTwo for Chunk<A, 68719476736> {
}

impl<A> SizeIsPowerOfTwo for Chunk<A, 137438953472> {
}

impl<A> SizeIsPowerOfTwo for Chunk<A, 274877906944> {
}

impl<A> SizeIsPowerOfTwo for Chunk<A, 549755813888> {
}

impl<A> SizeIsPowerOfTwo for Chunk<A, 1099511627776> {
}

impl<A> SizeIsPowerOfTwo for Chunk<A, 2199023255552> {
}

impl<A> SizeIsPowerOfTwo for Chunk<A, 4398046511104> {
}

impl<A> SizeIsPowerOfTwo for Chunk<A, 8796093022208> {
}

impl<A> SizeIsPowerOfTwo for Chunk<A, 17592186044416> {
}

impl<A> SizeIsPowerOfTwo for Chunk<A, 35184372088832> {
}

impl<A> SizeIsPowerOfTwo for Chunk<A, 70368744177664> {
}

impl<A> SizeIsPowerOfTwo for Chunk<A, 140737488355328> {
}

impl<A> SizeIsPowerOfTwo for Chunk<A, 281474976710656> {
}

impl<A> SizeIsPowerOfTwo for Chunk<A, 562949953421312> {
}

impl<A> SizeIsPowerOfTwo for Chunk<A, 1125899906842624> {
}

impl<A> SizeIsPowerOfTwo for Chunk<A, 2251799813685248> {
}

impl<A> SizeIsPowerOfTwo for Chunk<A, 4503599627370496> {
}

impl<A> SizeIsPowerOfTwo for Chunk<A, 9007199254740992> {
}

impl<A> SizeIsPowerOfTwo for Chunk<A, 18014398509481984> {
}

impl<A> SizeIsPowerOfTwo for Chunk<A, 36028797018963968> {
}

impl<A> SizeIsPowerOfTwo for Chunk<A, 72057594037927936> {
}

impl<A> SizeIsPowerOfTwo for Chunk<A, 144115188075855872> {
}

impl<A> SizeIsPowerOfTwo for Chunk<A, 288230376151711744> {
}

impl<A> SizeIsPowerOfTwo for Chunk<A, 576460752303423488> {
}

impl<A> SizeIsPowerOfTwo for Chunk<A, 1152921504606846976> {
}

impl<A> SizeIsPowerOfTwo for Chunk<A, 2305843009213693952> {
}

impl<A> SizeIsPowerOfTwo for Chunk<A, 4611686018427387904> {
}

impl<A> SizeIsPowerOfTwo for Chunk<A, 9223372036854775808> {
}


/// `size` rounded up to a multiple of `chunk`, when that can be computed without overflow.
pub open spec fn chunk_round_up(size: int, chunk: int) -> Option<int> {
    if size + chunk <= usize::MAX {
        Some(round_down(size + chunk - 1, chunk))
    } else {
        None
    }
}

/// The layout the inner allocator sees for a request of `layout`: its size rounded up to a
/// multiple of `chunk`, when that is a valid layout.
pub open spec fn chunk_layout(layout: Layout, chunk: int) -> Option<Layout> {
    match chunk_round_up(layout.size() as int, chunk) {
        Some(s) => if valid_layout(s, layout.align() as int) {
            Some(Layout::from_parts(s as usize, layout.align()))
        } else {
            None
        },
        None => None,
    }
}

/// A block with its length rounded down to a multiple of `chunk`.
pub open spec fn round_down_block(b: MemoryBlock, chunk: int) -> MemoryBlock {
    MemoryBlock { ptr: b.ptr, len: round_down(b.len as int, chunk) as usize }
}

/// A result of the inner allocator as it is reported: with its length rounded down.
pub open spec fn round_down_result(r: AllocResult, chunk: int) -> AllocResult {
    match r {
        Ok(b) => Ok(round_down_block(b, chunk)),
        Err(e) => Err(e),
    }
}

proof fn lemma_chunk_round_up(size: int, chunk: int)
    requires
        size >= 0,
        chunk >= 1,
        size + chunk <= usize::MAX,
    ensures
        chunk_round_up(size, chunk) is Some,
        chunk_round_up(size, chunk)->Some_0 >= size,
        chunk_round_up(size, chunk)->Some_0 < size + chunk,
        chunk_round_up(size, chunk)->Some_0 % chunk == 0,
{
    lemma_round_down(size + chunk - 1, chunk);
}

/// A block rounded down still serves a request whose size is a multiple of the chunk size at
/// most its length.
proof fn lemma_round_down_fits(b: MemoryBlock, l2: Layout, layout: Layout, chunk: int, lo: int, hi: int)
    requires
        chunk >= 1,
        crate::block_fits(b, l2, lo, hi),
        l2.size() as int % chunk == 0,
        l2.size() >= layout.size(),
        l2.align() == layout.align(),
    ensures
        crate::block_fits(round_down_block(b, chunk), layout, lo, hi),
        round_down_block(b, chunk).len >= l2.size(),
{
    lemma_round_down(b.len as int, chunk);
    assert(l2.size() as int % chunk == 0);
}

impl<A: AllocRef, const SIZE: usize> Chunk<A, SIZE> where Self: SizeIsPowerOfTwo {
    /// `size` rounded up to a multiple of `SIZE`; fails when that overflows.
    fn round_up(size: usize) -> (r: Result<usize, AllocError>)
        requires
            SIZE >= 1,
        ensures
            match chunk_round_up(size as int, SIZE as int) {
                Some(s) => r == Ok::<usize, AllocError>(s as usize),
                None => r is Err,
            },
    {
        let bumped = match size.checked_add(SIZE) {
            Some(s) => s - 1,
            None => return Err(AllocError),
        };
        proof {
            lemma_round_down(bumped as int, SIZE as int);
        }
        Ok(bumped - bumped % SIZE)
    }

    /// `size` rounded up to a multiple of `SIZE`, for sizes where that does not overflow.
    fn round_up_unchecked(size: usize) -> (r: usize)
        requires
            SIZE >= 1,
            size + SIZE <= usize::MAX,
        ensures
            chunk_round_up(size as int, SIZE as int) == Some(r as int),
    {
        let bumped = size + SIZE - 1;
        proof {
            lemma_round_down(bumped as int, SIZE as int);
        }
        bumped - bumped % SIZE
    }

    /// `size` rounded down to a multiple of `SIZE`.
    fn round_down(size: usize) -> (r: usize)
        requires
            SIZE >= 1,
        ensures
            r == round_down(size as int, SIZE as int),
    {
        proof {
            lemma_round_down(size as int, SIZE as int);
        }
        size - size % SIZE
    }

    /// The block with its length rounded down to a multiple of `SIZE`.
    fn round_down_ptr_len(ptr: MemoryBlock) -> (r: MemoryBlock)
        requires
            SIZE >= 1,
        ensures
            r == round_down_block(ptr, SIZE as int),
    {
        MemoryBlock { ptr: ptr.ptr, len: Self::round_down(ptr.len) }
    }

    /// The layout the inner allocator sees for `layout`.
    fn chunk_layout(layout: Layout) -> (r: Result<Layout, AllocError>)
        requires
            SIZE >= 1,
        ensures
            match chunk_layout(layout, SIZE as int) {
                Some(l) => r == Ok::<Layout, AllocError>(l),
                None => r is Err,
            },
    {
        let new_size = match Self::round_up(layout.size()) {
            Ok(s) => s,
            Err(e) => return Err(e),
        };
        match Layout::from_size_align(new_size, layout.align()) {
            Ok(l) => Ok(l),
            Err(_) => Err(AllocError),
        }
    }

    /// Facts about the layout the inner allocator sees.
    proof fn lemma_chunk_layout(layout: Layout)
        requires
            SIZE >= 1,
            chunk_layout(layout, SIZE as int) is Some,
        ensures
            ({
                let l = chunk_layout(layout, SIZE as int)->Some_0;
                &&& l.size() >= layout.size()
                &&& l.size() < layout.size() + SIZE
                &&& l.size() as int % SIZE as int == 0
                &&& l.align() == layout.align()
            }),
    {
        lemma_chunk_round_up(layout.size() as int, SIZE as int);
        let s = chunk_round_up(layout.size() as int, SIZE as int)->Some_0;
        Layout::lemma_from_parts(s as usize, layout.align());
    }

    /// Growing from `old_layout` to `new_layout` stays inside the current chunk.
    pub open spec fn grows_in_chunk(old_layout: Layout, new_layout: Layout) -> bool {
        &&& chunk_layout(old_layout, SIZE as int) is Some
        &&& new_layout.align() <= old_layout.align()
        &&& new_layout.size() <= chunk_layout(old_layout, SIZE as int)->Some_0.size()
    }

    /// Shrinking from `old_layout` to `new_layout` stays inside the current chunk.
    pub open spec fn shrinks_in_chunk(old_layout: Layout, new_layout: Layout) -> bool {
        &&& chunk_layout(old_layout, SIZE as int) is Some
        &&& new_layout.align() <= old_layout.align()
        &&& new_layout.size() > chunk_layout(old_layout, SIZE as int)->Some_0.size() - SIZE
    }

    /// Growing the block at `ptr`: inside the chunk the block keeps its address and is reported
    /// with the chunk's size, the bytes after the old size being initialized; otherwise the
    /// inner allocator grows it to the rounded-up new size, unless only growing in place is
    /// allowed.
    pub open spec fn grow_step(
        &self,
        mem: MemView,
        ptr: usize,
        old_layout: Layout,
        new_layout: Layout,
        init: AllocInit,
        in_place: bool,
        next: Self,
        next_mem: MemView,
        r: AllocResult,
    ) -> bool {
        let lc = chunk_layout(old_layout, SIZE as int)->Some_0;
        if Self::grows_in_chunk(old_layout, new_layout) {
            let b = MemoryBlock { ptr, len: lc.size() };
            &&& next == *self
            &&& r == Ok::<MemoryBlock, AllocError>(b)
            &&& next_mem == init.init_offset_spec(mem, b, old_layout.size() as int)
        } else if in_place {
            r is Err && next == *self && next_mem == mem
        } else {
            match chunk_layout(new_layout, SIZE as int) {
                None => r is Err && next == *self && next_mem == mem,
                Some(ln) => exists|r0: AllocResult|
                    #[trigger] self.0.grow_rel(mem, ptr, lc, ln, init, next.0, next_mem, r0)
                        && r == round_down_result(r0, SIZE as int),
            }
        }
    }

    /// Shrinking the block at `ptr`: inside the chunk the block is reported unchanged with the
    /// chunk's size; otherwise the inner allocator shrinks it to the rounded-up new size, unless
    /// only shrinking in place is allowed.
    pub open spec fn shrink_step(
        &self,
        mem: MemView,
        ptr: usize,
        old_layout: Layout,
        new_layout: Layout,
        in_place: bool,
        next: Self,
        next_mem: MemView,
        r: AllocResult,
    ) -> bool {
        let lc = chunk_layout(old_layout, SIZE as int)->Some_0;
        if Self::shrinks_in_chunk(old_layout, new_layout) {
            &&& next == *self
            &&& r == Ok::<MemoryBlock, AllocError>(MemoryBlock { ptr, len: lc.size() })
            &&& next_mem == mem
        } else if in_place {
            r is Err && next == *self && next_mem == mem
        } else {
            match chunk_layout(new_layout, SIZE as int) {
                None => r is Err && next == *self && next_mem == mem,
                Some(ln) => exists|r0: AllocResult|
                    #[trigger] self.0.shrink_rel(mem, ptr, lc, ln, next.0, next_mem, r0)
                        && r == round_down_result(r0, SIZE as int),
            }
        }
    }

    /// The common part of the preconditions: `ptr` is a non-zero multiple of the old alignment
    /// and the inner allocator may take back the block with the rounded-up size.
    pub open spec fn chunk_block_ok(&self, ptr: usize, layout: Layout) -> bool {
        &&& ptr >= layout.align()
        &&& ptr as int % layout.align() as int == 0
        &&& chunk_layout(layout, SIZE as int) is Some
        &&& self.0.dealloc_pre(ptr, chunk_layout(layout, SIZE as int)->Some_0)
    }

    #[verifier::rlimit(40)]
    fn grow_impl(
        &mut self,
        mem: &mut Memory,
        old_ptr: usize,
        old_layout: Layout,
        new_layout: Layout,
        init: AllocInit,
        in_place: bool,
    ) -> (r: AllocResult)
        requires
            old(self).inv(old(mem).lo(), old(mem).hi()),
            old(mem).wf(),
            old(self).grow_pre(old_ptr, old_layout, new_layout),
        ensures
            final(mem)@.same_range(old(mem)@),
            final(self).inv(final(mem).lo(), final(mem).hi()),
            old(self).grow_step(
                old(mem)@,
                old_ptr,
                old_layout,
                new_layout,
                init,
                in_place,
                *final(self),
                final(mem)@,
                r,
            ),
            r is Ok ==> crate::block_fits(r->Ok_0, new_layout, old(mem).lo(), old(mem).hi()),
            r is Ok ==> forall|i: int|
                0 <= i < old_layout.size() ==> #[trigger] final(mem)@.byte(r->Ok_0.ptr + i)
                    == old(mem)@.byte(old_ptr + i),
            r is Err ==> final(mem)@ == old(mem)@ && old(self).equiv(*final(self)),
    {
        proof {
            self.0.lemma_equiv_refl();
        }
        let old_size = old_layout.size();
        let current = match Self::chunk_layout(old_layout) {
            Ok(l) => l,
            Err(e) => return Err(e),
        };
        proof {
            Self::lemma_chunk_layout(old_layout);
        }
        let current_size = current.size();
        let new_size = new_layout.size();
        if new_layout.align() <= old_layout.align() && new_size <= current_size {
            let ptr = MemoryBlock { ptr: old_ptr, len: current_size };
            proof {
                self.0.lemma_dealloc_pre(mem.lo(), mem.hi(), old_ptr, current);
                crate::layout::lemma_power_of_two_positive(new_layout.align() as int);
                lemma_power_of_two_divides(new_layout.align() as int, old_layout.align() as int);
                lemma_mod_transitive(
                    old_ptr as int,
                    old_layout.align() as int,
                    new_layout.align() as int,
                );
            }
            init.init_offset(mem, ptr, old_size);
            return Ok(ptr);
        }
        if in_place {
            return Err(AllocError);
        }
        let target = match Self::chunk_layout(new_layout) {
            Ok(l) => l,
            Err(e) => return Err(e),
        };
        proof {
            Self::lemma_chunk_layout(new_layout);
        }
        let ghost mem0 = mem@;
        let ghost inner0 = self.0;
        let r0 = match init {
            AllocInit::Uninitialized => self.0.grow(mem, old_ptr, current, target),
            AllocInit::Zeroed => self.0.grow_zeroed(mem, old_ptr, current, target),
        };
        proof {
            assert(inner0.grow_rel(mem0, old_ptr, current, target, init, self.0, mem@, r0));
            if r0 is Ok {
                lemma_round_down_fits(r0->Ok_0, target, new_layout, SIZE as int, mem0.lo(), mem0.hi());
            }
        }
        match r0 {
            Ok(b) => Ok(Self::round_down_ptr_len(b)),
            Err(e) => Err(e),
        }
    }

    #[verifier::rlimit(40)]
    fn shrink_impl(
        &mut self,
        mem: &mut Memory,
        old_ptr: usize,
        old_layout: Layout,
        new_layout: Layout,
        in_place: bool,
    ) -> (r: AllocResult)
        requires
            old(self).inv(old(mem).lo(), old(mem).hi()),
            old(mem).wf(),
            old(self).shrink_pre(old_ptr, old_layout, new_layout),
        ensures
            final(mem)@.same_range(old(mem)@),
            final(self).inv(final(mem).lo(), final(mem).hi()),
            old(self).shrink_step(
                old(mem)@,
                old_ptr,
                old_layout,
                new_layout,
                in_place,
                *final(self),
                final(mem)@,
                r,
            ),
            r is Ok ==> crate::block_fits(r->Ok_0, new_layout, old(mem).lo(), old(mem).hi()),
            r is Ok ==> forall|i: int|
                0 <= i < new_layout.size() ==> #[trigger] final(mem)@.byte(r->Ok_0.ptr + i)
                    == old(mem)@.byte(old_ptr + i),
            r is Err ==> final(mem)@ == old(mem)@ && old(self).equiv(*final(self)),
    {
        proof {
            self.0.lemma_equiv_refl();
        }
        let current = match Self::chunk_layout(old_layout) {
            Ok(l) => l,
            Err(e) => return Err(e),
        };
        proof {
            Self::lemma_chunk_layout(old_layout);
        }
        let current_size = current.size();
        assert(current_size >= SIZE) by (nonlinear_arith)
            requires
                current_size >= old_layout.size() >= 1,
                current_size as int % SIZE as int == 0,
                SIZE >= 1,
        ;
        if new_layout.align() <= old_layout.align() && new_layout.size() > current_size - SIZE {
            proof {
                self.0.lemma_dealloc_pre(mem.lo(), mem.hi(), old_ptr, current);
                crate::layout::lemma_power_of_two_positive(new_layout.align() as int);
                lemma_power_of_two_divides(new_layout.align() as int, old_layout.align() as int);
                lemma_mod_transitive(
                    old_ptr as int,
                    old_layout.align() as int,
                    new_layout.align() as int,
                );
            }
            return Ok(MemoryBlock { ptr: old_ptr, len: current_size });
        }
        if in_place {
            return Err(AllocError);
        }
        let target = match Self::chunk_layout(new_layout) {
            Ok(l) => l,
            Err(e) => return Err(e),
        };
        proof {
            Self::lemma_chunk_layout(new_layout);
        }
        let ghost mem0 = mem@;
        let ghost inner0 = self.0;
        let r0 = self.0.shrink(mem, old_ptr, current, target);
        proof {
            assert(inner0.shrink_rel(mem0, old_ptr, current, target, self.0, mem@, r0));
            if r0 is Ok {
                lemma_round_down_fits(r0->Ok_0, target, new_layout, SIZE as int, mem0.lo(), mem0.hi());
            }
        }
        match r0 {
            Ok(b) => Ok(Self::round_down_ptr_len(b)),
            Err(e) => Err(e),
        }
    }

    fn alloc_impl(&mut self, mem: &mut Memory, layout: Layout, init: AllocInit) -> (r: AllocResult)
        requires
            old(self).inv(old(mem).lo(), old(mem).hi()),
            old(mem).wf(),
        ensures
            final(mem)@.same_range(old(mem)@),
            final(self).inv(final(mem).lo(), final(mem).hi()),
            old(self).alloc_rel(old(mem)@, layout, init, *final(self), final(mem)@, r),
            r is Ok ==> crate::block_fits(r->Ok_0, layout, old(mem).lo(), old(mem).hi()),
            r is Err ==> final(mem)@ == old(mem)@ && old(self).equiv(*final(self)),
    {
        proof {
            self.0.lemma_equiv_refl();
        }
        let new_layout = match Self::chunk_layout(layout) {
            Ok(l) => l,
            Err(e) => return Err(e),
        };
        proof {
            Self::lemma_chunk_layout(layout);
        }
        let ghost mem0 = mem@;
        let ghost inner0 = self.0;
        let r0 = match init {
            AllocInit::Uninitialized => self.0.allocate(mem, new_layout),
            AllocInit::Zeroed => self.0.allocate_zeroed(mem, new_layout),
        };
        proof {
            assert(inner0.alloc_rel(mem0, new_layout, init, self.0, mem@, r0));
            if r0 is Ok {
                lemma_round_down_fits(r0->Ok_0, new_layout, layout, SIZE as int, mem0.lo(), mem0.hi());
            }
        }
        match r0 {
            Ok(b) => Ok(Self::round_down_ptr_len(b)),
            Err(e) => Err(e),
        }
    }
}

impl<A: AllocRef, const SIZE: usize> AllocRef for Chunk<A, SIZE> where Self: SizeIsPowerOfTwo {
    open spec fn inv(&self, lo: int, hi: int) -> bool {
        &&& is_power_of_two(SIZE as int)
        &&& self.0.inv(lo, hi)
    }

    open spec fn equiv(&self, other: Self) -> bool {
        self.0.equiv(other.0)
    }

    /// The inner allocator serves the request rounded up to a multiple of `SIZE`; its block is
    /// reported with the length rounded down to a multiple of `SIZE`.
    open spec fn alloc_rel(
        &self,
        mem: MemView,
        layout: Layout,
        init: AllocInit,
        next: Self,
        next_mem: MemView,
        r: AllocResult,
    ) -> bool {
        match chunk_layout(layout, SIZE as int) {
            None => r is Err && next == *self && next_mem == mem,
            Some(l) => exists|r0: AllocResult|
                #[trigger] self.0.alloc_rel(mem, l, init, next.0, next_mem, r0) && r
                    == round_down_result(r0, SIZE as int),
        }
    }

    open spec fn dealloc_pre(&self, ptr: usize, layout: Layout) -> bool {
        self.chunk_block_ok(ptr, layout)
    }

    /// The inner allocator takes back the block with its size rounded up.
    open spec fn dealloc_rel(
        &self,
        mem: MemView,
        ptr: usize,
        layout: Layout,
        next: Self,
        next_mem: MemView,
    ) -> bool {
        self.0.dealloc_rel(
            mem,
            ptr,
            chunk_layout(layout, SIZE as int)->Some_0,
            next.0,
            next_mem,
        )
    }

    open spec fn grow_pre(&self, ptr: usize, old_layout: Layout, new_layout: Layout) -> bool {
        &&& self.chunk_block_ok(ptr, old_layout)
        &&& old_layout.size() <= new_layout.size()
        &&& !Self::grows_in_chunk(old_layout, new_layout) ==> match chunk_layout(
            new_layout,
            SIZE as int,
        ) {
            Some(ln) => self.0.grow_pre(ptr, chunk_layout(old_layout, SIZE as int)->Some_0, ln),
            None => true,
        }
    }

    open spec fn grow_rel(
        &self,
        mem: MemView,
        ptr: usize,
        old_layout: Layout,
        new_layout: Layout,
        init: AllocInit,
        next: Self,
        next_mem: MemView,
        r: AllocResult,
    ) -> bool {
        self.grow_step(mem, ptr, old_layout, new_layout, init, false, next, next_mem, r)
    }

    open spec fn shrink_pre(&self, ptr: usize, old_layout: Layout, new_layout: Layout) -> bool {
        &&& self.chunk_block_ok(ptr, old_layout)
        &&& new_layout.size() <= old_layout.size()
        &&& old_layout.size() >= 1
        &&& !Self::shrinks_in_chunk(old_layout, new_layout) ==> match chunk_layout(
            new_layout,
            SIZE as int,
        ) {
            Some(ln) => self.0.shrink_pre(ptr, chunk_layout(old_layout, SIZE as int)->Some_0, ln),
            None => true,
        }
    }

    open spec fn shrink_rel(
        &self,
        mem: MemView,
        ptr: usize,
        old_layout: Layout,
        new_layout: Layout,
        next: Self,
        next_mem: MemView,
        r: AllocResult,
    ) -> bool {
        self.shrink_step(mem, ptr, old_layout, new_layout, false, next, next_mem, r)
    }

    proof fn lemma_dealloc_pre(&self, lo: int, hi: int, ptr: usize, layout: Layout) {
        if self.inv(lo, hi) && self.dealloc_pre(ptr, layout) {
            crate::layout::lemma_power_of_two_positive(SIZE as int);
            Self::lemma_chunk_layout(layout);
            self.0.lemma_dealloc_pre(lo, hi, ptr, chunk_layout(layout, SIZE as int)->Some_0);
        }
    }

    proof fn lemma_grow_pre(&self, ptr: usize, old_layout: Layout, new_layout: Layout) {
    }

    proof fn lemma_shrink_pre(&self, ptr: usize, old_layout: Layout, new_layout: Layout) {
    }

    proof fn lemma_equiv(
        &self,
        other: Self,
        lo: int,
        hi: int,
        ptr: usize,
        l1: Layout,
        l2: Layout,
    ) {
        let lc = chunk_layout(l1, SIZE as int)->Some_0;
        let ln = chunk_layout(l2, SIZE as int)->Some_0;
        self.0.lemma_equiv(other.0, lo, hi, ptr, lc, ln);
        self.0.lemma_equiv(other.0, lo, hi, ptr, l1, ln);
    }

    proof fn lemma_equiv_refl(&self) {
        self.0.lemma_equiv_refl();
    }

    proof fn lemma_alloc_zeroed(
        &self,
        mem: MemView,
        layout: Layout,
        next: Self,
        next_mem: MemView,
        r: AllocResult,
    ) {
        crate::layout::lemma_power_of_two_positive(SIZE as int);
        let l = chunk_layout(layout, SIZE as int)->Some_0;
        Self::lemma_chunk_layout(layout);
        Layout::lemma_from_parts(
            chunk_round_up(layout.size() as int, SIZE as int)->Some_0 as usize,
            layout.align(),
        );
        let r0 = choose|r0: AllocResult|
            #[trigger] self.0.alloc_rel(mem, l, AllocInit::Zeroed, next.0, next_mem, r0) && r
                == round_down_result(r0, SIZE as int);
        self.0.lemma_alloc_zeroed(mem, l, next.0, next_mem, r0);
        lemma_round_down(r0->Ok_0.len as int, SIZE as int);
    }

    proof fn lemma_equiv_trans(&self, b: Self, c: Self) {
        self.0.lemma_equiv_trans(b.0, c.0);
    }

    fn allocate(&mut self, mem: &mut Memory, layout: Layout) -> (r: AllocResult) {
        proof {
            crate::layout::lemma_power_of_two_positive(SIZE as int);
        }
        self.alloc_impl(mem, layout, AllocInit::Uninitialized)
    }

    fn allocate_zeroed(&mut self, mem: &mut Memory, layout: Layout) -> (r: AllocResult) {
        proof {
            crate::layout::lemma_power_of_two_positive(SIZE as int);
        }
        self.alloc_impl(mem, layout, AllocInit::Zeroed)
    }

    fn deallocate(&mut self, mem: &mut Memory, ptr: usize, layout: Layout) {
        proof {
            crate::layout::lemma_power_of_two_positive(SIZE as int);
            Self::lemma_chunk_layout(layout);
        }
        let size = Self::round_up_unchecked(layout.size());
        let inner_layout = Layout::from_size_align_unchecked(size, layout.align());
        self.0.deallocate(mem, ptr, inner_layout)
    }

    fn grow(&mut self, mem: &mut Memory, ptr: usize, old_layout: Layout, new_layout: Layout) -> (r:
        AllocResult) {
        proof {
            crate::layout::lemma_power_of_two_positive(SIZE as int);
        }
        self.grow_impl(mem, ptr, old_layout, new_layout, AllocInit::Uninitialized, false)
    }

    fn grow_zeroed(
        &mut self,
        mem: &mut Memory,
        ptr: usize,
        old_layout: Layout,
        new_layout: Layout,
    ) -> (r: AllocResult) {
        proof {
            crate::layout::lemma_power_of_two_positive(SIZE as int);
        }
        self.grow_impl(mem, ptr, old_layout, new_layout, AllocInit::Zeroed, false)
    }

    fn shrink(&mut self, mem: &mut Memory, ptr: usize, old_layout: Layout, new_layout: Layout) -> (r:
        AllocResult) {
        proof {
            crate::layout::lemma_power_of_two_positive(SIZE as int);
        }
        self.shrink_impl(mem, ptr, old_layout, new_layout, false)
    }
}

impl<A: AllocRef, const SIZE: usize> Chunk<A, SIZE> where Self: SizeIsPowerOfTwo {
    /// A block handed out is reported in whole chunks: its length is a multiple of `SIZE`.
    pub proof fn lemma_alloc_whole_chunks(
        self,
        mem: MemView,
        layout: Layout,
        init: AllocInit,
        next: Self,
        next_mem: MemView,
        r: AllocResult,
    )
        requires
            self.inv(mem.lo(), mem.hi()),
            self.alloc_rel(mem, layout, init, next, next_mem, r),
            r is Ok,
        ensures
            r->Ok_0.len as int % SIZE as int == 0,
    {
        crate::layout::lemma_power_of_two_positive(SIZE as int);
        let l = chunk_layout(layout, SIZE as int)->Some_0;
        let r0 = choose|r0: AllocResult|
            #[trigger] self.0.alloc_rel(mem, l, init, next.0, next_mem, r0) && r
                == round_down_result(r0, SIZE as int);
        lemma_round_down(r0->Ok_0.len as int, SIZE as int);
    }
}

impl<A: crate::HandsBack, const SIZE: usize> crate::HandsBack for Chunk<A, SIZE> where
    Self: SizeIsPowerOfTwo,
 {
    proof fn lemma_alloc_dealloc_pre(
        &self,
        mem: MemView,
        layout: Layout,
        init: AllocInit,
        next: Self,
        next_mem: MemView,
        r: AllocResult,
    ) {
        crate::layout::lemma_power_of_two_positive(SIZE as int);
        let l = chunk_layout(layout, SIZE as int)->Some_0;
        Self::lemma_chunk_layout(layout);
        Layout::lemma_from_parts(
            chunk_round_up(layout.size() as int, SIZE as int)->Some_0 as usize,
            layout.align(),
        );
        let r0 = choose|r0: AllocResult|
            #[trigger] self.0.alloc_rel(mem, l, init, next.0, next_mem, r0) && r
                == round_down_result(r0, SIZE as int);
        self.0.lemma_alloc_dealloc_pre(mem, l, init, next.0, next_mem, r0);
    }

    proof fn lemma_resize_pre(&self, lo: int, hi: int, ptr: usize, old_layout: Layout, new_layout: Layout) {
        crate::layout::lemma_power_of_two_positive(SIZE as int);
        Self::lemma_chunk_layout(old_layout);
        let lc = chunk_layout(old_layout, SIZE as int)->Some_0;
        if new_layout.size() + SIZE <= usize::MAX {
            lemma_chunk_round_up(new_layout.size() as int, SIZE as int);
            lemma_chunk_round_up(old_layout.size() as int, SIZE as int);
            lemma_round_down(new_layout.size() + SIZE - 1, SIZE as int);
            lemma_round_down(old_layout.size() + SIZE - 1, SIZE as int);
        }
        if chunk_layout(new_layout, SIZE as int) is Some {
            Self::lemma_chunk_layout(new_layout);
            let ln = chunk_layout(new_layout, SIZE as int)->Some_0;
            self.0.lemma_resize_pre(lo, hi, ptr, lc, ln);
        }
    }
}

/// Growing and shrinking in place stays inside the current chunk.
impl<A: AllocRef, const SIZE: usize> ReallocInPlace for Chunk<A, SIZE> where
    Self: SizeIsPowerOfTwo,
 {
    open spec fn grow_in_place_rel(
        &self,
        mem: MemView,
        ptr: usize,
        old_layout: Layout,
        new_layout: Layout,
        init: AllocInit,
        next: Self,
        next_mem: MemView,
        r: Result<usize, AllocError>,
    ) -> bool {
        exists|b: AllocResult|
            #[trigger] self.grow_step(mem, ptr, old_layout, new_layout, init, true, next, next_mem, b)
                && r == match b {
                Ok(m) => Ok(m.len),
                Err(e) => Err(e),
            }
    }

    open spec fn shrink_in_place_rel(
        &self,
        mem: MemView,
        ptr: usize,
        old_layout: Layout,
        new_layout: Layout,
        next: Self,
        next_mem: MemView,
        r: Result<usize, AllocError>,
    ) -> bool {
        exists|b: AllocResult|
            #[trigger] self.shrink_step(mem, ptr, old_layout, new_layout, true, next, next_mem, b)
                && r == match b {
                Ok(m) => Ok(m.len),
                Err(e) => Err(e),
            }
    }

    fn grow_in_place(
        &mut self,
        mem: &mut Memory,
        ptr: usize,
        old_layout: Layout,
        new_layout: Layout,
    ) -> (r: Result<usize, AllocError>) {
        proof {
            crate::layout::lemma_power_of_two_positive(SIZE as int);
        }
        match self.grow_impl(mem, ptr, old_layout, new_layout, AllocInit::Uninitialized, true) {
            Ok(b) => Ok(b.len),
            Err(e) => Err(e),
        }
    }

    fn grow_in_place_zeroed(
        &mut self,
        mem: &mut Memory,
        ptr: usize,
        old_layout: Layout,
        new_layout: Layout,
    ) -> (r: Result<usize, AllocError>) {
        proof {
            crate::layout::lemma_power_of_two_positive(SIZE as int);
        }
        match self.grow_impl(mem, ptr, old_layout, new_layout, AllocInit::Zeroed, true) {
            Ok(b) => Ok(b.len),
            Err(e) => Err(e),
        }
    }

    fn shrink_in_place(
        &mut self,
        mem: &mut Memory,
        ptr: usize,
        old_layout: Layout,
        new_layout: Layout,
    ) -> (r: Result<usize, AllocError>) {
        proof {
            crate::layout::lemma_power_of_two_positive(SIZE as int);
        }
        match self.shrink_impl(mem, ptr, old_layout, new_layout, true) {
            Ok(b) => Ok(b.len),
            Err(e) => Err(e),
        }
    }
}

impl<A: Owns, const SIZE: usize> Owns for Chunk<A, SIZE> where Self: SizeIsPowerOfTwo {
    open spec fn owns_spec(&self, memory: MemoryBlock) -> bool {
        self.0.owns_spec(memory)
    }

    proof fn lemma_owns_equiv(&self, other: Self, memory: MemoryBlock) {
        self.0.lemma_owns_equiv(other.0, memory);
    }

    fn owns(&mut self, memory: MemoryBlock) -> (r: bool) {
        self.0.owns(memory)
    }
}

impl<A: AllocRef, const SIZE: usize> Chunk<A, SIZE> where Self: SizeIsPowerOfTwo {
    /// Every block a `Chunk` hands out is reported with a length that is a multiple of `SIZE`,
    /// and the inner allocator saw the request rounded up to a multiple of `SIZE`.
    pub proof fn lemma_alloc_multiple(
        self,
        lo: int,
        hi: int,
        mem: MemView,
        layout: Layout,
        init: AllocInit,
        next: Self,
        next_mem: MemView,
        r: AllocResult,
    )
        requires
            self.inv(lo, hi),
            self.alloc_rel(mem, layout, init, next, next_mem, r),
            r is Ok,
        ensures
            r->Ok_0.len as int % SIZE as int == 0,
            chunk_layout(layout, SIZE as int) is Some,
            chunk_layout(layout, SIZE as int)->Some_0.size() as int % SIZE as int == 0,
    {
        crate::layout::lemma_power_of_two_positive(SIZE as int);
        Self::lemma_chunk_layout(layout);
        let r0 = choose|r0: AllocResult|
            #[trigger] self.0.alloc_rel(
                mem,
                chunk_layout(layout, SIZE as int)->Some_0,
                init,
                next.0,
                next_mem,
                r0,
            ) && r == round_down_result(r0, SIZE as int);
        lemma_round_down(r0->Ok_0.len as int, SIZE as int);
    }
}

} // verus!
