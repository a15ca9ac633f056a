use crate::layout::{
    extend_spec, is_power_of_two, lemma_mod_transitive, lemma_power_of_two_divides,
    lemma_power_of_two_positive, lemma_round_up, round_up, type_layout, valid_layout,
};
use crate::{
    AllocAll, AllocError, AllocInit, AllocRef, AllocResult, Layout, MemView, Memory,
    MemoryBlock,
};
use core::marker::PhantomData;
use vstd::prelude::*;

verus! {

/// An allocator that requests some extra memory from the parent allocator for storing
/// a prefix and/or a suffix.
///
/// The memory the parent hands out holds a value of `Prefix`, then the requested memory at the
/// first offset that meets the requested alignment, then a value of `Suffix` at the first offset
/// after it that meets the alignment of `Suffix`. The alignment of the whole block is the
/// largest of the three alignments.
///
/// The returned memory reaches up to the suffix; when `Suffix` is zero-sized it reaches to the
/// end of the parent's block. [`Affix::prefix`] and [`Affix::suffix`] give the addresses of
/// the prefix and the suffix; for a zero-sized type that address is the type's alignment.
/// When the memory is grown or shrunk, the suffix moves with it.
pub struct Affix<Alloc, Prefix = (), Suffix = ()> {
    /// The parent allocator to be used as backend
    pub parent: Alloc,
    /// Marks the type stored before each block
    pub _prefix: PhantomData<Prefix>,
    /// Marks the type stored after each block
    pub _suffix: PhantomData<Suffix>,
}

/// The size of the suffix type.
pub open spec fn suffix_size<Suffix>() -> int {
    type_layout::<Suffix>().size() as int
}

impl<Alloc, Prefix, Suffix> Affix<Alloc, Prefix, Suffix> {
    /// The layout of the parent's block for a request of `layout`, the offset of the requested
    /// memory in it and the offset of the suffix.
    pub open spec fn alloc_layout_spec(layout: Layout) -> Option<(Layout, usize, usize)> {
        match extend_spec(type_layout::<Prefix>(), layout) {
            Some((mid, prefix_offset)) => match extend_spec(mid, type_layout::<Suffix>()) {
                Some((whole, suffix_offset)) => Some((whole, prefix_offset, suffix_offset)),
                None => None,
            },
            None => None,
        }
    }

    /// The memory handed out from the parent's block `b`.
    pub open spec fn create_ptr_spec(b: MemoryBlock, prefix_offset: int, suffix_offset: int) -> MemoryBlock {
        MemoryBlock {
            ptr: (b.ptr + prefix_offset) as usize,
            len: if suffix_size::<Suffix>() == 0 {
                (b.len - prefix_offset) as usize
            } else {
                (suffix_offset - prefix_offset) as usize
            },
        }
    }

    /// The memory handed out from the parent's result `r`.
    pub open spec fn create_result(r: AllocResult, prefix_offset: int, suffix_offset: int) -> AllocResult {
        match r {
            Ok(b) => Ok(Self::create_ptr_spec(b, prefix_offset, suffix_offset)),
            Err(e) => Err(e),
        }
    }

    /// The address of the prefix of the memory at `ptr` described by `layout`.
    pub open spec fn prefix_spec(ptr: usize, layout: Layout) -> int {
        if vstd::layout::size_of::<Prefix>() == 0 {
            vstd::layout::align_of::<Prefix>() as int
        } else {
            ptr - Self::alloc_layout_spec(layout)->Some_0.1
        }
    }

    /// The address of the suffix of the memory at `ptr` described by `layout`.
    pub open spec fn suffix_spec(ptr: usize, layout: Layout) -> int {
        if suffix_size::<Suffix>() == 0 {
            vstd::layout::align_of::<Suffix>() as int
        } else {
            ptr + (Self::alloc_layout_spec(layout)->Some_0.2 - Self::alloc_layout_spec(
                layout,
            )->Some_0.1)
        }
    }

    /// The memory after zeroing the old place of the suffix, for zeroed growth.
    pub open spec fn zero_old_suffix(mem: MemView, addr: int, init: AllocInit) -> MemView {
        if init == AllocInit::Zeroed && suffix_size::<Suffix>() != 0 {
            mem.fill(addr, suffix_size::<Suffix>(), 0)
        } else {
            mem
        }
    }

    /// The memory after writing the saved suffix bytes at `addr`.
    pub open spec fn put_suffix(mem: MemView, addr: int, suffix: Seq<u8>) -> MemView {
        if suffix_size::<Suffix>() == 0 {
            mem
        } else {
            mem.write(addr, suffix)
        }
    }

    /// The layouts of `Prefix` and `Suffix` are valid, and their sizes and alignments fit
    /// `usize`.
    pub open spec fn types_valid() -> bool {
        &&& vstd::layout::size_of::<Prefix>() as usize as nat == vstd::layout::size_of::<Prefix>()
        &&& vstd::layout::align_of::<Prefix>() as usize as nat == vstd::layout::align_of::<Prefix>()
        &&& vstd::layout::size_of::<Suffix>() as usize as nat == vstd::layout::size_of::<Suffix>()
        &&& vstd::layout::align_of::<Suffix>() as usize as nat == vstd::layout::align_of::<Suffix>()
        &&& type_layout::<Prefix>().size() == vstd::layout::size_of::<Prefix>()
        &&& type_layout::<Prefix>().align() == vstd::layout::align_of::<Prefix>()
        &&& type_layout::<Suffix>().size() == vstd::layout::size_of::<Suffix>()
        &&& type_layout::<Suffix>().align() == vstd::layout::align_of::<Suffix>()
        &&& valid_layout(
            type_layout::<Prefix>().size() as int,
            type_layout::<Prefix>().align() as int,
        )
        &&& valid_layout(
            type_layout::<Suffix>().size() as int,
            type_layout::<Suffix>().align() as int,
        )
    }

    /// Establishes [`Self::types_valid`]; it does nothing at run time.
    fn check_types()
        ensures
            Self::types_valid(),
    {
        let p = Layout::new::<Prefix>();
        let s = Layout::new::<Suffix>();
        vstd::layout::layout_for_type_is_valid::<Prefix>();
        vstd::layout::layout_for_type_is_valid::<Suffix>();
    }

    /// Facts about the parent's layout for a request of `layout`.
    pub proof fn lemma_alloc_layout(layout: Layout)
        requires
            valid_layout(layout.size() as int, layout.align() as int),
            Self::types_valid(),
            Self::alloc_layout_spec(layout) is Some,
        ensures
            ({
                let (whole, prefix_offset, suffix_offset) = Self::alloc_layout_spec(layout)->Some_0;
                &&& prefix_offset as int % layout.align() as int == 0
                &&& prefix_offset + layout.size() <= suffix_offset
                &&& suffix_offset + suffix_size::<Suffix>() == whole.size()
                &&& whole.align() as int % layout.align() as int == 0
                &&& whole.align() >= 1
                &&& layout.align() >= 1
                &&& valid_layout(whole.size() as int, whole.align() as int)
                &&& prefix_offset == round_up(
                    type_layout::<Prefix>().size() as int,
                    layout.align() as int,
                )
                &&& suffix_offset == round_up(
                    prefix_offset + layout.size(),
                    type_layout::<Suffix>().align() as int,
                )
                &&& whole.align() == if type_layout::<Suffix>().align() >= (if type_layout::<
                    Prefix,
                >().align() >= layout.align() {
                    type_layout::<Prefix>().align()
                } else {
                    layout.align()
                }) {
                    type_layout::<Suffix>().align()
                } else if type_layout::<Prefix>().align() >= layout.align() {
                    type_layout::<Prefix>().align()
                } else {
                    layout.align()
                }
                &&& type_layout::<Suffix>().align() >= 1
            }),
    {
        let pl = type_layout::<Prefix>();
        let sl = type_layout::<Suffix>();
        lemma_power_of_two_positive(layout.align() as int);
        lemma_power_of_two_positive(pl.align() as int);
        lemma_power_of_two_positive(sl.align() as int);
        let (mid, prefix_offset) = extend_spec(pl, layout)->Some_0;
        let off1 = round_up(pl.size() as int, layout.align() as int);
        let a1 = if pl.align() >= layout.align() {
            pl.align()
        } else {
            layout.align()
        };
        Layout::lemma_from_parts((off1 + layout.size()) as usize, a1);
        assert(mid.size() == off1 + layout.size());
        assert(mid.align() == a1);
        assert(prefix_offset == off1);
        lemma_round_up(pl.size() as int, layout.align() as int);
        let (whole, suffix_offset) = extend_spec(mid, sl)->Some_0;
        let off2 = round_up(mid.size() as int, sl.align() as int);
        let a2 = if mid.align() >= sl.align() {
            mid.align()
        } else {
            sl.align()
        };
        Layout::lemma_from_parts((off2 + sl.size()) as usize, a2);
        assert(whole.size() == off2 + sl.size());
        assert(whole.align() == a2);
        assert(suffix_offset == off2);
        lemma_round_up(mid.size() as int, sl.align() as int);
        assert(is_power_of_two(a2 as int));
        lemma_power_of_two_divides(layout.align() as int, a2 as int);
    }

    /// Requests of the same alignment have the same prefix offset and parent alignment, and the
    /// larger request has the larger parent block.
    pub proof fn lemma_alloc_layout_monotone(l1: Layout, l2: Layout)
        requires
            valid_layout(l1.size() as int, l1.align() as int),
            valid_layout(l2.size() as int, l2.align() as int),
            Self::types_valid(),
            Self::alloc_layout_spec(l1) is Some,
            Self::alloc_layout_spec(l2) is Some,
            l1.align() == l2.align(),
        ensures
            Self::alloc_layout_spec(l1)->Some_0.1 == Self::alloc_layout_spec(l2)->Some_0.1,
            Self::alloc_layout_spec(l1)->Some_0.0.align() == Self::alloc_layout_spec(
                l2,
            )->Some_0.0.align(),
            l1.size() <= l2.size() ==> Self::alloc_layout_spec(l1)->Some_0.0.size()
                <= Self::alloc_layout_spec(l2)->Some_0.0.size(),
    {
        Self::lemma_alloc_layout(l1);
        Self::lemma_alloc_layout(l2);
        let po = Self::alloc_layout_spec(l1)->Some_0.1;
        if l1.size() <= l2.size() {
            lemma_round_up_monotone(
                po + l1.size(),
                po + l2.size(),
                type_layout::<Suffix>().align() as int,
            );
        }
    }

    /// The parent allocator.
    pub open spec fn parent_spec(&self) -> Alloc {
        self.parent
    }

    /// Creates an affix allocator over `parent`.
    pub fn new(parent: Alloc) -> (r: Self)
        ensures
            r.parent_spec() == parent,
    {
        Self { parent, _prefix: PhantomData, _suffix: PhantomData }
    }

    /// The parent's layout for a request of `layout`, the offset of the requested memory in it
    /// and the offset of the suffix; `None` when the combined layout is not valid.
    fn allocation_layout(layout: Layout) -> (r: Option<(Layout, usize, usize)>)
        ensures
            r == Self::alloc_layout_spec(layout),
    {
        let (layout, prefix_offset) = match Layout::new::<Prefix>().extend(layout) {
            Ok(t) => t,
            Err(_) => return None,
        };
        let (layout, suffix_offset) = match layout.extend(Layout::new::<Suffix>()) {
            Ok(t) => t,
            Err(_) => return None,
        };
        Some((layout, prefix_offset, suffix_offset))
    }

    /// Returns the address of the prefix of the memory at `ptr` described by `layout`.
    ///
    /// `layout` must describe the memory; for a zero-sized `Prefix` the address is the
    /// alignment of `Prefix`.
    pub fn prefix(ptr: usize, layout: Layout) -> (r: usize)
        requires
            Self::alloc_layout_spec(layout) is Some,
            ptr >= Self::alloc_layout_spec(layout)->Some_0.1,
        ensures
            r == Self::prefix_spec(ptr, layout),
    {
        if core::mem::size_of::<Prefix>() == 0 {
            core::mem::align_of::<Prefix>()
        } else {
            let (_, prefix, _) = match Self::allocation_layout(layout) {
                Some(t) => t,
                None => {
                    proof {
                        assert(false);
                    }
                    return 0;
                },
            };
            ptr - prefix
        }
    }

    /// Returns the address of the suffix of the memory at `ptr` described by `layout`.
    ///
    /// `layout` must describe the memory; for a zero-sized `Suffix` the address is the
    /// alignment of `Suffix`.
    pub fn suffix(ptr: usize, layout: Layout) -> (r: usize)
        requires
            Self::alloc_layout_spec(layout) is Some,
            ptr + (Self::alloc_layout_spec(layout)->Some_0.2 - Self::alloc_layout_spec(
                layout,
            )->Some_0.1) <= usize::MAX,
        ensures
            r == Self::suffix_spec(ptr, layout),
    {
        Self::check_types();
        let ghost l = layout;
        let _ = layout.size();
        proof {
            Self::lemma_alloc_layout(l);
        }
        if core::mem::size_of::<Suffix>() == 0 {
            core::mem::align_of::<Suffix>()
        } else {
            let (_, prefix, suffix) = match Self::allocation_layout(layout) {
                Some(t) => t,
                None => {
                    proof {
                        assert(false);
                    }
                    return 0;
                },
            };
            ptr + (suffix - prefix)
        }
    }

    /// The memory handed out from the parent's block `ptr`.
    fn create_ptr(ptr: MemoryBlock, offset_prefix: usize, offset_suffix: usize) -> (r: MemoryBlock)
        requires
            Self::types_valid(),
            offset_prefix <= offset_suffix,
            offset_prefix <= ptr.len,
            ptr.ptr + ptr.len <= usize::MAX,
        ensures
            r == Self::create_ptr_spec(ptr, offset_prefix as int, offset_suffix as int),
    {
        let len = if core::mem::size_of::<Suffix>() == 0 {
            ptr.len - offset_prefix
        } else {
            offset_suffix - offset_prefix
        };
        MemoryBlock { ptr: ptr.ptr + offset_prefix, len }
    }
}


/// `a + b` is a multiple of `m` when both are.
proof fn lemma_mod_add(a: int, b: int, m: int)
    requires
        m >= 1,
        a % m == 0,
        b % m == 0,
    ensures
        (a + b) % m == 0,
{
    vstd::arithmetic::div_mod::lemma_add_mod_noop(a, b, m);
    vstd::arithmetic::div_mod::lemma_small_mod(0nat, m as nat);
}

impl<Alloc: AllocRef, Prefix, Suffix> Affix<Alloc, Prefix, Suffix> {
    /// A parent block that serves the parent's layout yields memory that serves `layout`.
    proof fn lemma_created_fits(b: MemoryBlock, layout: Layout, lo: int, hi: int)
        requires
            valid_layout(layout.size() as int, layout.align() as int),
            Self::types_valid(),
            Self::alloc_layout_spec(layout) is Some,
            crate::block_fits(b, Self::alloc_layout_spec(layout)->Some_0.0, lo, hi),
            hi <= usize::MAX,
        ensures
            crate::block_fits(
                Self::create_ptr_spec(
                    b,
                    Self::alloc_layout_spec(layout)->Some_0.1 as int,
                    Self::alloc_layout_spec(layout)->Some_0.2 as int,
                ),
                layout,
                lo,
                hi,
            ),
            Self::alloc_layout_spec(layout)->Some_0.1 <= Self::alloc_layout_spec(layout)->Some_0.2,
            Self::alloc_layout_spec(layout)->Some_0.2 + suffix_size::<Suffix>() <= b.len,
    {
        Self::lemma_alloc_layout(layout);
        let (whole, op, os) = Self::alloc_layout_spec(layout)->Some_0;
        lemma_mod_transitive(b.ptr as int, whole.align() as int, layout.align() as int);
        lemma_mod_add(b.ptr as int, op as int, layout.align() as int);
        assert(b.ptr + op <= usize::MAX);
        let c = Self::create_ptr_spec(b, op as int, os as int);
        assert(c.ptr == b.ptr + op);
        assert(c.len >= layout.size());
        assert(c.ptr as int % layout.align() as int == 0);
        assert(c.ptr + c.len <= hi);
    }

    /// Growing the memory at `ptr`: the suffix is saved, the parent grows its block to the new
    /// parent layout, the old place of the suffix is zeroed for zeroed growth, and the suffix is
    /// written behind the new memory.
    pub open spec fn grow_step(
        &self,
        mem: MemView,
        ptr: usize,
        old_layout: Layout,
        new_layout: Layout,
        init: AllocInit,
        next: Self,
        next_mem: MemView,
        r: AllocResult,
    ) -> bool {
        match (Self::alloc_layout_spec(old_layout), Self::alloc_layout_spec(new_layout)) {
            (Some((old_whole, old_prefix, old_suffix)), Some((new_whole, new_prefix, new_suffix))) => {
                let base = (ptr - old_prefix) as usize;
                let saved = mem.range(base + old_suffix, suffix_size::<Suffix>());
                exists|m2: MemView, r2: AllocResult|
                    #[trigger] self.parent.grow_rel(
                        mem,
                        base,
                        old_whole,
                        new_whole,
                        init,
                        next.parent,
                        m2,
                        r2,
                    ) && match r2 {
                        Err(e) => r == Err::<MemoryBlock, AllocError>(e) && next_mem == m2,
                        Ok(b) => {
                            let np = Self::create_ptr_spec(b, new_prefix as int, new_suffix as int);
                            &&& r == Ok::<MemoryBlock, AllocError>(np)
                            &&& next_mem == Self::put_suffix(
                                Self::zero_old_suffix(m2, b.ptr + old_suffix, init),
                                b.ptr + new_suffix,
                                saved,
                            )
                        },
                    }
            },
            _ => r is Err && next == *self && next_mem == mem,
        }
    }

    /// Shrinking the memory at `ptr`: the suffix is saved, the parent shrinks its block to the
    /// new parent layout, and the suffix is written behind the new memory.
    pub open spec fn shrink_step(
        &self,
        mem: MemView,
        ptr: usize,
        old_layout: Layout,
        new_layout: Layout,
        next: Self,
        next_mem: MemView,
        r: AllocResult,
    ) -> bool {
        match (Self::alloc_layout_spec(old_layout), Self::alloc_layout_spec(new_layout)) {
            (Some((old_whole, old_prefix, old_suffix)), Some((new_whole, new_prefix, new_suffix))) => {
                let base = (ptr - old_prefix) as usize;
                let saved = mem.range(base + old_suffix, suffix_size::<Suffix>());
                exists|m2: MemView, r2: AllocResult|
                    #[trigger] self.parent.shrink_rel(
                        mem,
                        base,
                        old_whole,
                        new_whole,
                        next.parent,
                        m2,
                        r2,
                    ) && match r2 {
                        Err(e) => r == Err::<MemoryBlock, AllocError>(e) && next_mem == m2,
                        Ok(b) => {
                            let np = Self::create_ptr_spec(b, new_prefix as int, new_suffix as int);
                            &&& r == Ok::<MemoryBlock, AllocError>(np)
                            &&& next_mem == Self::put_suffix(m2, b.ptr + new_suffix, saved)
                        },
                    }
            },
            _ => r is Err && next == *self && next_mem == mem,
        }
    }

    /// The parent hands out all it can for the request extended by the prefix and the suffix;
    /// the memory handed out starts after the prefix.
    pub open spec fn alloc_all_step(
        &self,
        mem: MemView,
        layout: Layout,
        init: AllocInit,
        next: Self,
        next_mem: MemView,
        r: AllocResult,
    ) -> bool where Alloc: AllocAll {
        match Self::alloc_layout_spec(layout) {
            None => r is Err && next == *self && next_mem == mem,
            Some((whole, prefix_offset, suffix_offset)) => exists|r0: AllocResult|
                #[trigger] self.parent.alloc_all_rel(mem, whole, init, next.parent, next_mem, r0)
                    && r == Self::create_result(r0, prefix_offset as int, suffix_offset as int),
        }
    }

    /// The memory at `ptr` described by `layout` comes from the parent's block at
    /// `ptr - prefix offset`, which the parent may take back.
    pub open spec fn affix_block_ok(&self, ptr: usize, layout: Layout) -> bool {
        &&& Self::types_valid()
        &&& valid_layout(layout.size() as int, layout.align() as int)
        &&& Self::alloc_layout_spec(layout) is Some
        &&& ptr >= Self::alloc_layout_spec(layout)->Some_0.1
        &&& self.parent.dealloc_pre(
            (ptr - Self::alloc_layout_spec(layout)->Some_0.1) as usize,
            Self::alloc_layout_spec(layout)->Some_0.0,
        )
    }

    fn alloc_impl(&mut self, mem: &mut Memory, layout: Layout, init: AllocInit) -> (r: AllocResult)
        requires
            old(self).inv(old(mem).lo(), old(mem).hi()),
            old(mem).wf(),
        ensures
            final(mem)@.same_range(old(mem)@),
            final(self).inv(final(mem).lo(), final(mem).hi()),
            old(self).alloc_rel(old(mem)@, layout, init, *final(self), final(mem)@, r),
            r is Ok ==> crate::block_fits(r->Ok_0, layout, old(mem).lo(), old(mem).hi()),
            r is Err ==> final(mem)@ == old(mem)@ && old(self).equiv(*final(self)),
    {
        Self::check_types();
        let _ = layout.size();
        proof {
            self.parent.lemma_equiv_refl();
        }
        let (alloc_layout, offset_prefix, offset_suffix) = match Self::allocation_layout(layout) {
            Some(t) => t,
            None => return Err(AllocError),
        };
        let ghost m0 = mem@;
        let ghost p0 = self.parent;
        let r0 = match init {
            AllocInit::Uninitialized => self.parent.allocate(mem, alloc_layout),
            AllocInit::Zeroed => self.parent.allocate_zeroed(mem, alloc_layout),
        };
        proof {
            assert(p0.alloc_rel(m0, alloc_layout, init, self.parent, mem@, r0));
        }
        match r0 {
            Ok(b) => {
                proof {
                    Self::lemma_created_fits(b, layout, m0.lo(), m0.hi());
                }
                Ok(Self::create_ptr(b, offset_prefix, offset_suffix))
            },
            Err(e) => Err(e),
        }
    }

    fn alloc_all_impl(&mut self, mem: &mut Memory, layout: Layout, init: AllocInit) -> (r:
        AllocResult) where Alloc: AllocAll
        requires
            old(self).inv(old(mem).lo(), old(mem).hi()),
            old(mem).wf(),
        ensures
            final(mem)@.same_range(old(mem)@),
            final(self).inv(final(mem).lo(), final(mem).hi()),
            old(self).alloc_all_step(old(mem)@, layout, init, *final(self), final(mem)@, r),
            r is Ok ==> crate::block_fits(r->Ok_0, layout, old(mem).lo(), old(mem).hi()),
            r is Err ==> final(mem)@ == old(mem)@ && old(self).equiv(*final(self)),
    {
        Self::check_types();
        let _ = layout.size();
        proof {
            self.parent.lemma_equiv_refl();
        }
        let (alloc_layout, offset_prefix, offset_suffix) = match Self::allocation_layout(layout) {
            Some(t) => t,
            None => return Err(AllocError),
        };
        let ghost m0 = mem@;
        let ghost p0 = self.parent;
        let r0 = match init {
            AllocInit::Uninitialized => self.parent.alloc_all(mem, alloc_layout),
            AllocInit::Zeroed => self.parent.alloc_all_zeroed(mem, alloc_layout),
        };
        proof {
            assert(p0.alloc_all_rel(m0, alloc_layout, init, self.parent, mem@, r0));
        }
        match r0 {
            Ok(b) => {
                proof {
                    Self::lemma_created_fits(b, layout, m0.lo(), m0.hi());
                }
                Ok(Self::create_ptr(b, offset_prefix, offset_suffix))
            },
            Err(e) => Err(e),
        }
    }

    #[verifier::rlimit(40)]
    fn grow_impl(
        &mut self,
        mem: &mut Memory,
        old_ptr: usize,
        old_layout: Layout,
        new_layout: Layout,
        init: AllocInit,
    ) -> (r: AllocResult)
        requires
            old(self).inv(old(mem).lo(), old(mem).hi()),
            old(mem).wf(),
            old(self).grow_pre(old_ptr, old_layout, new_layout),
        ensures
            final(mem)@.same_range(old(mem)@),
            final(self).inv(final(mem).lo(), final(mem).hi()),
            old(self).grow_step(
                old(mem)@,
                old_ptr,
                old_layout,
                new_layout,
                init,
                *final(self),
                final(mem)@,
                r,
            ),
            r is Ok ==> crate::block_fits(r->Ok_0, new_layout, old(mem).lo(), old(mem).hi()),
            r is Ok && suffix_size::<Suffix>() != 0 ==> final(mem)@.range(
                Self::suffix_spec(r->Ok_0.ptr, new_layout),
                suffix_size::<Suffix>(),
            ) == old(mem)@.range(Self::suffix_spec(old_ptr, old_layout), suffix_size::<Suffix>()),
            r is Ok ==> forall|i: int|
                0 <= i < old_layout.size() ==> #[trigger] final(mem)@.byte(r->Ok_0.ptr + i)
                    == old(mem)@.byte(old_ptr + i),
            r is Err ==> final(mem)@ == old(mem)@ && old(self).equiv(*final(self)),
    {
        Self::check_types();
        let _ = old_layout.size();
        let _ = new_layout.size();
        proof {
            self.parent.lemma_equiv_refl();
        }
        let ghost m0 = mem@;
        let ghost p0 = self.parent;
        let (old_alloc_layout, old_offset_prefix, old_offset_suffix) = match Self::allocation_layout(
            old_layout,
        ) {
            Some(t) => t,
            None => return Err(AllocError),
        };
        let old_base_ptr = old_ptr - old_offset_prefix;
        proof {
            Self::lemma_alloc_layout(old_layout);
            p0.lemma_dealloc_pre(m0.lo(), m0.hi(), old_base_ptr, old_alloc_layout);
        }
        let suffix_len = core::mem::size_of::<Suffix>();
        let suffix: Vec<u8> = if suffix_len != 0 {
            mem.read_range(old_base_ptr + old_offset_suffix, suffix_len)
        } else {
            Vec::new()
        };
        let (new_alloc_layout, new_offset_prefix, new_offset_suffix) =
            match Self::allocation_layout(new_layout) {
            Some(t) => t,
            None => return Err(AllocError),
        };
        proof {
            p0.lemma_grow_pre(old_base_ptr, old_alloc_layout, new_alloc_layout);
        }
        let r2 = match init {
            AllocInit::Uninitialized => self.parent.grow(
                mem,
                old_base_ptr,
                old_alloc_layout,
                new_alloc_layout,
            ),
            AllocInit::Zeroed => self.parent.grow_zeroed(
                mem,
                old_base_ptr,
                old_alloc_layout,
                new_alloc_layout,
            ),
        };
        let ghost m2 = mem@;
        proof {
            assert(p0.grow_rel(
                m0,
                old_base_ptr,
                old_alloc_layout,
                new_alloc_layout,
                init,
                self.parent,
                m2,
                r2,
            ));
        }
        let new_base_ptr = match r2 {
            Ok(b) => b,
            Err(e) => return Err(e),
        };
        proof {
            Self::lemma_created_fits(new_base_ptr, new_layout, m0.lo(), m0.hi());
            Self::lemma_alloc_layout(new_layout);
        }
        if init == AllocInit::Zeroed && suffix_len != 0 {
            mem.fill(new_base_ptr.ptr + old_offset_suffix, suffix_len, 0);
        }
        let new_ptr = Self::create_ptr(new_base_ptr, new_offset_prefix, new_offset_suffix);
        if suffix_len != 0 {
            mem.write_range(new_base_ptr.ptr + new_offset_suffix, suffix.as_slice());
            proof {
                assert(mem@.range(
                    new_base_ptr.ptr + new_offset_suffix,
                    suffix_len as int,
                ) =~= suffix@);
            }
        }
        proof {
            assert forall|i: int| 0 <= i < old_layout.size() implies #[trigger] mem@.byte(
                new_ptr.ptr + i,
            ) == m0.byte(old_ptr + i) by {
                assert(m2.byte(new_base_ptr.ptr + (old_offset_prefix + i)) == m0.byte(
                    old_base_ptr + (old_offset_prefix + i),
                ));
            }
        }
        Ok(new_ptr)
    }

    #[verifier::rlimit(40)]
    fn shrink_impl(
        &mut self,
        mem: &mut Memory,
        old_ptr: usize,
        old_layout: Layout,
        new_layout: Layout,
    ) -> (r: AllocResult)
        requires
            old(self).inv(old(mem).lo(), old(mem).hi()),
            old(mem).wf(),
            old(self).shrink_pre(old_ptr, old_layout, new_layout),
        ensures
            final(mem)@.same_range(old(mem)@),
            final(self).inv(final(mem).lo(), final(mem).hi()),
            old(self).shrink_step(
                old(mem)@,
                old_ptr,
                old_layout,
                new_layout,
                *final(self),
                final(mem)@,
                r,
            ),
            r is Ok ==> crate::block_fits(r->Ok_0, new_layout, old(mem).lo(), old(mem).hi()),
            r is Ok && suffix_size::<Suffix>() != 0 ==> final(mem)@.range(
                Self::suffix_spec(r->Ok_0.ptr, new_layout),
                suffix_size::<Suffix>(),
            ) == old(mem)@.range(Self::suffix_spec(old_ptr, old_layout), suffix_size::<Suffix>()),
            r is Ok ==> forall|i: int|
                0 <= i < new_layout.size() ==> #[trigger] final(mem)@.byte(r->Ok_0.ptr + i)
                    == old(mem)@.byte(old_ptr + i),
            r is Err ==> final(mem)@ == old(mem)@ && old(self).equiv(*final(self)),
    {
        Self::check_types();
        let _ = old_layout.size();
        let _ = new_layout.size();
        proof {
            self.parent.lemma_equiv_refl();
        }
        let ghost m0 = mem@;
        let ghost p0 = self.parent;
        let (old_alloc_layout, old_offset_prefix, old_offset_suffix) = match Self::allocation_layout(
            old_layout,
        ) {
            Some(t) => t,
            None => return Err(AllocError),
        };
        let old_base_ptr = old_ptr - old_offset_prefix;
        proof {
            Self::lemma_alloc_layout(old_layout);
            p0.lemma_dealloc_pre(m0.lo(), m0.hi(), old_base_ptr, old_alloc_layout);
        }
        let suffix_len = core::mem::size_of::<Suffix>();
        let suffix: Vec<u8> = if suffix_len != 0 {
            mem.read_range(old_base_ptr + old_offset_suffix, suffix_len)
        } else {
            Vec::new()
        };
        let (new_alloc_layout, new_offset_prefix, new_offset_suffix) =
            match Self::allocation_layout(new_layout) {
            Some(t) => t,
            None => return Err(AllocError),
        };
        proof {
            p0.lemma_shrink_pre(old_base_ptr, old_alloc_layout, new_alloc_layout);
        }
        let r2 = self.parent.shrink(mem, old_base_ptr, old_alloc_layout, new_alloc_layout);
        let ghost m2 = mem@;
        proof {
            assert(p0.shrink_rel(
                m0,
                old_base_ptr,
                old_alloc_layout,
                new_alloc_layout,
                self.parent,
                m2,
                r2,
            ));
        }
        let new_base_ptr = match r2 {
            Ok(b) => b,
            Err(e) => return Err(e),
        };
        proof {
            Self::lemma_created_fits(new_base_ptr, new_layout, m0.lo(), m0.hi());
            Self::lemma_alloc_layout(new_layout);
        }
        let new_ptr = Self::create_ptr(new_base_ptr, new_offset_prefix, new_offset_suffix);
        if suffix_len != 0 {
            mem.write_range(new_base_ptr.ptr + new_offset_suffix, suffix.as_slice());
            proof {
                assert(mem@.range(
                    new_base_ptr.ptr + new_offset_suffix,
                    suffix_len as int,
                ) =~= suffix@);
            }
        }
        proof {
            assert forall|i: int| 0 <= i < new_layout.size() implies #[trigger] mem@.byte(
                new_ptr.ptr + i,
            ) == m0.byte(old_ptr + i) by {
                assert(m2.byte(new_base_ptr.ptr + (old_offset_prefix + i)) == m0.byte(
                    old_base_ptr + (old_offset_prefix + i),
                ));
            }
        }
        Ok(new_ptr)
    }
}

impl<Alloc: AllocRef, Prefix, Suffix> AllocRef for Affix<Alloc, Prefix, Suffix> {
    open spec fn inv(&self, lo: int, hi: int) -> bool {
        self.parent.inv(lo, hi)
    }

    open spec fn equiv(&self, other: Self) -> bool {
        self.parent.equiv(other.parent)
    }

    /// The parent serves the request extended by the prefix and the suffix; the memory handed
    /// out starts after the prefix.
    open spec fn alloc_rel(
        &self,
        mem: MemView,
        layout: Layout,
        init: AllocInit,
        next: Self,
        next_mem: MemView,
        r: AllocResult,
    ) -> bool {
        match Self::alloc_layout_spec(layout) {
            None => r is Err && next == *self && next_mem == mem,
            Some((whole, prefix_offset, suffix_offset)) => Self::types_valid() && exists|
                r0: AllocResult,
            |
                #[trigger] self.parent.alloc_rel(mem, whole, init, next.parent, next_mem, r0) && r
                    == Self::create_result(r0, prefix_offset as int, suffix_offset as int),
        }
    }

    open spec fn dealloc_pre(&self, ptr: usize, layout: Layout) -> bool {
        self.affix_block_ok(ptr, layout)
    }

    /// The parent takes back its whole block.
    open spec fn dealloc_rel(
        &self,
        mem: MemView,
        ptr: usize,
        layout: Layout,
        next: Self,
        next_mem: MemView,
    ) -> bool {
        self.parent.dealloc_rel(
            mem,
            (ptr - Self::alloc_layout_spec(layout)->Some_0.1) as usize,
            Self::alloc_layout_spec(layout)->Some_0.0,
            next.parent,
            next_mem,
        )
    }

    open spec fn grow_pre(&self, ptr: usize, old_layout: Layout, new_layout: Layout) -> bool {
        &&& self.affix_block_ok(ptr, old_layout)
        &&& new_layout.align() == old_layout.align()
        &&& old_layout.size() <= new_layout.size()
        &&& Self::alloc_layout_spec(new_layout) is Some ==> self.parent.grow_pre(
            (ptr - Self::alloc_layout_spec(old_layout)->Some_0.1) as usize,
            Self::alloc_layout_spec(old_layout)->Some_0.0,
            Self::alloc_layout_spec(new_layout)->Some_0.0,
        )
    }

    open spec fn grow_rel(
        &self,
        mem: MemView,
        ptr: usize,
        old_layout: Layout,
        new_layout: Layout,
        init: AllocInit,
        next: Self,
        next_mem: MemView,
        r: AllocResult,
    ) -> bool {
        self.grow_step(mem, ptr, old_layout, new_layout, init, next, next_mem, r)
    }

    open spec fn shrink_pre(&self, ptr: usize, old_layout: Layout, new_layout: Layout) -> bool {
        &&& self.affix_block_ok(ptr, old_layout)
        &&& new_layout.align() == old_layout.align()
        &&& new_layout.size() <= old_layout.size()
        &&& Self::alloc_layout_spec(new_layout) is Some ==> self.parent.shrink_pre(
            (ptr - Self::alloc_layout_spec(old_layout)->Some_0.1) as usize,
            Self::alloc_layout_spec(old_layout)->Some_0.0,
            Self::alloc_layout_spec(new_layout)->Some_0.0,
        )
    }

    open spec fn shrink_rel(
        &self,
        mem: MemView,
        ptr: usize,
        old_layout: Layout,
        new_layout: Layout,
        next: Self,
        next_mem: MemView,
        r: AllocResult,
    ) -> bool {
        self.shrink_step(mem, ptr, old_layout, new_layout, next, next_mem, r)
    }

    proof fn lemma_dealloc_pre(&self, lo: int, hi: int, ptr: usize, layout: Layout) {
        if self.inv(lo, hi) && self.dealloc_pre(ptr, layout) {
            let (whole, prefix_offset, suffix_offset) = Self::alloc_layout_spec(layout)->Some_0;
            self.parent.lemma_dealloc_pre(lo, hi, (ptr - prefix_offset) as usize, whole);
            Self::lemma_alloc_layout(layout);
        }
    }

    proof fn lemma_grow_pre(&self, ptr: usize, old_layout: Layout, new_layout: Layout) {
    }

    proof fn lemma_shrink_pre(&self, ptr: usize, old_layout: Layout, new_layout: Layout) {
    }

    proof fn lemma_equiv(
        &self,
        other: Self,
        lo: int,
        hi: int,
        ptr: usize,
        l1: Layout,
        l2: Layout,
    ) {
        let o1 = Self::alloc_layout_spec(l1)->Some_0;
        let o2 = Self::alloc_layout_spec(l2)->Some_0;
        self.parent.lemma_equiv(other.parent, lo, hi, (ptr - o1.1) as usize, o1.0, o2.0);
    }

    proof fn lemma_equiv_refl(&self) {
        self.parent.lemma_equiv_refl();
    }

    proof fn lemma_alloc_zeroed(
        &self,
        mem: MemView,
        layout: Layout,
        next: Self,
        next_mem: MemView,
        r: AllocResult,
    ) {
        let (whole, prefix_offset, suffix_offset) = Self::alloc_layout_spec(layout)->Some_0;
        Self::lemma_alloc_layout(layout);
        let r0 = choose|r0: AllocResult|
            #[trigger] self.parent.alloc_rel(mem, whole, AllocInit::Zeroed, next.parent, next_mem, r0)
                && r == Self::create_result(r0, prefix_offset as int, suffix_offset as int);
        self.parent.lemma_alloc_zeroed(mem, whole, next.parent, next_mem, r0);
    }

    proof fn lemma_equiv_trans(&self, b: Self, c: Self) {
        self.parent.lemma_equiv_trans(b.parent, c.parent);
    }

    fn allocate(&mut self, mem: &mut Memory, layout: Layout) -> (r: AllocResult) {
        self.alloc_impl(mem, layout, AllocInit::Uninitialized)
    }

    fn allocate_zeroed(&mut self, mem: &mut Memory, layout: Layout) -> (r: AllocResult) {
        self.alloc_impl(mem, layout, AllocInit::Zeroed)
    }

    fn deallocate(&mut self, mem: &mut Memory, ptr: usize, layout: Layout) {
        let (layout, prefix_offset, _) = match Self::allocation_layout(layout) {
            Some(t) => t,
            None => {
                proof {
                    assert(false);
                }
                return ;
            },
        };
        let base_ptr = ptr - prefix_offset;
        self.parent.deallocate(mem, base_ptr, layout)
    }

    /// The suffix is carried over to the place behind the grown memory.
    fn grow(&mut self, mem: &mut Memory, ptr: usize, old_layout: Layout, new_layout: Layout) -> (r:
        AllocResult)
        ensures
            r is Ok && suffix_size::<Suffix>() != 0 ==> final(mem)@.range(
                Self::suffix_spec(r->Ok_0.ptr, new_layout),
                suffix_size::<Suffix>(),
            ) == old(mem)@.range(Self::suffix_spec(ptr, old_layout), suffix_size::<Suffix>()),
    {
        self.grow_impl(mem, ptr, old_layout, new_layout, AllocInit::Uninitialized)
    }

    /// The suffix is carried over to the place behind the grown memory.
    fn grow_zeroed(
        &mut self,
        mem: &mut Memory,
        ptr: usize,
        old_layout: Layout,
        new_layout: Layout,
    ) -> (r: AllocResult)
        ensures
            r is Ok && suffix_size::<Suffix>() != 0 ==> final(mem)@.range(
                Self::suffix_spec(r->Ok_0.ptr, new_layout),
                suffix_size::<Suffix>(),
            ) == old(mem)@.range(Self::suffix_spec(ptr, old_layout), suffix_size::<Suffix>()),
    {
        self.grow_impl(mem, ptr, old_layout, new_layout, AllocInit::Zeroed)
    }

    /// The suffix is carried over to the place behind the shrunk memory.
    fn shrink(&mut self, mem: &mut Memory, ptr: usize, old_layout: Layout, new_layout: Layout) -> (r:
        AllocResult)
        ensures
            r is Ok && suffix_size::<Suffix>() != 0 ==> final(mem)@.range(
                Self::suffix_spec(r->Ok_0.ptr, new_layout),
                suffix_size::<Suffix>(),
            ) == old(mem)@.range(Self::suffix_spec(ptr, old_layout), suffix_size::<Suffix>()),
    {
        self.shrink_impl(mem, ptr, old_layout, new_layout)
    }
}

/// Rounding up to a multiple keeps the order.
proof fn lemma_round_up_monotone(x: int, y: int, align: int)
    requires
        0 <= x <= y,
        align >= 1,
    ensures
        round_up(x, align) <= round_up(y, align),
{
    vstd::arithmetic::div_mod::lemma_div_is_ordered(x + align - 1, y + align - 1, align);
    vstd::arithmetic::mul::lemma_mul_inequality(
        (x + align - 1) / align,
        (y + align - 1) / align,
        align,
    );
}

/// A multiple of `big`, itself a multiple of `small`, plus a multiple of `small` is a multiple
/// of `small`, and no smaller than `small`.
proof fn lemma_mod_multiple_add(b: int, offset: int, big: int, small: int)
    requires
        small >= 1,
        big >= 1,
        b >= big,
        offset >= 0,
        b % big == 0,
        big % small == 0,
        offset % small == 0,
    ensures
        (b + offset) % small == 0,
        b + offset >= small,
{
    lemma_mod_transitive(b, big, small);
    vstd::arithmetic::div_mod::lemma_add_mod_noop(b, offset, small);
    vstd::arithmetic::div_mod::lemma_small_mod(0, small as nat);
    crate::region_alloc::lemma_multiple_at_least(big, small);
}

impl<Alloc: crate::HandsBack, Prefix, Suffix> crate::HandsBack for Affix<Alloc, Prefix, Suffix> {
    proof fn lemma_alloc_dealloc_pre(
        &self,
        mem: MemView,
        layout: Layout,
        init: AllocInit,
        next: Self,
        next_mem: MemView,
        r: AllocResult,
    ) {
        let (whole, prefix_offset, suffix_offset) = Self::alloc_layout_spec(layout)->Some_0;
        Self::lemma_alloc_layout(layout);
        let r0 = choose|r0: AllocResult|
            #[trigger] self.parent.alloc_rel(mem, whole, init, next.parent, next_mem, r0) && r
                == Self::create_result(r0, prefix_offset as int, suffix_offset as int);
        self.parent.lemma_alloc_dealloc_pre(mem, whole, init, next.parent, next_mem, r0);
        let b = r0->Ok_0;
        lemma_mod_multiple_add(b.ptr as int, prefix_offset as int, whole.align() as int, layout.align() as int);
    }

    proof fn lemma_resize_pre(&self, lo: int, hi: int, ptr: usize, old_layout: Layout, new_layout: Layout) {
        let (old_whole, old_prefix, old_suffix) = Self::alloc_layout_spec(old_layout)->Some_0;
        Self::lemma_alloc_layout(old_layout);
        if Self::alloc_layout_spec(new_layout) is Some {
            let (new_whole, new_prefix, new_suffix) = Self::alloc_layout_spec(new_layout)->Some_0;
            Self::lemma_alloc_layout(new_layout);
            Self::lemma_alloc_layout_monotone(old_layout, new_layout);
            Self::lemma_alloc_layout_monotone(new_layout, old_layout);
            self.parent.lemma_resize_pre(lo, hi, (ptr - old_prefix) as usize, old_whole, new_whole);
        }
    }
}

impl<Alloc: AllocAll, Prefix, Suffix> AllocAll for Affix<Alloc, Prefix, Suffix> {
    open spec fn alloc_all_rel(
        &self,
        mem: MemView,
        layout: Layout,
        init: AllocInit,
        next: Self,
        next_mem: MemView,
        r: AllocResult,
    ) -> bool {
        self.alloc_all_step(mem, layout, init, next, next_mem, r)
    }

    open spec fn dealloc_all_rel(&self, mem: MemView, next: Self, next_mem: MemView) -> bool {
        self.parent.dealloc_all_rel(mem, next.parent, next_mem)
    }

    open spec fn capacity_spec(&self) -> usize {
        self.parent.capacity_spec()
    }

    open spec fn capacity_left_spec(&self) -> usize {
        self.parent.capacity_left_spec()
    }

    fn alloc_all(&mut self, mem: &mut Memory, layout: Layout) -> (r: AllocResult) {
        self.alloc_all_impl(mem, layout, AllocInit::Uninitialized)
    }

    fn alloc_all_zeroed(&mut self, mem: &mut Memory, layout: Layout) -> (r: AllocResult) {
        self.alloc_all_impl(mem, layout, AllocInit::Zeroed)
    }

    fn dealloc_all(&mut self, mem: &mut Memory) {
        self.parent.dealloc_all(mem)
    }

    fn capacity(&self) -> (r: usize) {
        self.parent.capacity()
    }

    fn capacity_left(&self) -> (r: usize) {
        self.parent.capacity_left()
    }
}

impl<Alloc: AllocRef, Prefix, Suffix> Affix<Alloc, Prefix, Suffix> {
    /// The memory an `Affix` hands out comes from a block the parent allocator handed out for
    /// the layout extended by the prefix and the suffix: it starts at the prefix offset of that
    /// block and reaches up to the suffix.
    pub proof fn lemma_alloc_places(
        self,
        mem: MemView,
        layout: Layout,
        init: AllocInit,
        next: Self,
        next_mem: MemView,
        r: AllocResult,
    )
        requires
            self.alloc_rel(mem, layout, init, next, next_mem, r),
            r is Ok,
        ensures
            Self::alloc_layout_spec(layout) is Some,
            exists|b: MemoryBlock|
                {
                    &&& #[trigger] self.parent_spec().alloc_rel(
                        mem,
                        Self::alloc_layout_spec(layout)->Some_0.0,
                        init,
                        next.parent_spec(),
                        next_mem,
                        Ok(b),
                    )
                    &&& r->Ok_0 == Self::create_ptr_spec(
                        b,
                        Self::alloc_layout_spec(layout)->Some_0.1 as int,
                        Self::alloc_layout_spec(layout)->Some_0.2 as int,
                    )
                },
    {
        let (whole, prefix_offset, suffix_offset) = Self::alloc_layout_spec(layout)->Some_0;
        let r0 = choose|r0: AllocResult|
            #[trigger] self.parent.alloc_rel(mem, whole, init, next.parent, next_mem, r0) && r
                == Self::create_result(r0, prefix_offset as int, suffix_offset as int);
        assert(r0 is Ok);
        let b = r0->Ok_0;
        assert(r0 == Ok::<MemoryBlock, AllocError>(b));
        assert(self.parent_spec().alloc_rel(mem, whole, init, next.parent_spec(), next_mem, Ok(b)));
        assert(r->Ok_0 == Self::create_ptr_spec(b, prefix_offset as int, suffix_offset as int));
    }
}

} // verus!
