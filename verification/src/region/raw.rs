//! Region implementations which describe their memory by address.
//!
//! The region types of the parent module wrap these.
use crate::helper::unlikely;
use crate::layout::{lemma_round_down, round_down};
use crate::{
    AllocError, AllocInit, AllocRef, AllocResult, AllocateAll, Layout, MemView, Memory,
    MemoryBlock, Owns,
};
use vstd::prelude::*;

verus! {

/// One past the last address of `memory`.
pub open spec fn end_spec(memory: MemoryBlock) -> int {
    memory.ptr + memory.len
}

/// `memory` is a block of addresses above zero that fits the address space.
pub open spec fn valid_memory(memory: MemoryBlock) -> bool {
    memory.ptr >= 1 && memory.ptr + memory.len <= usize::MAX
}

/// The block that a region over `memory` whose current position is `current` hands out for
/// `layout`: it ends at the current position and starts below it, rounded down to the
/// alignment, if that stays inside `memory`.
pub open spec fn alloc_impl_spec(memory: MemoryBlock, current: int, layout: Layout) -> Result<
    MemoryBlock,
    AllocError,
> {
    if current >= layout.size() {
        let aligned = round_down(current - layout.size(), layout.align() as int);
        if aligned < memory.ptr {
            Err(AllocError)
        } else {
            Ok(MemoryBlock { ptr: aligned as usize, len: (current - aligned) as usize })
        }
    } else {
        Err(AllocError)
    }
}

fn alloc_impl(memory: MemoryBlock, current: usize, layout: Layout) -> (r: AllocResult)
    requires
        valid_memory(memory),
        memory.ptr <= current <= end_spec(memory),
    ensures
        r == alloc_impl_spec(memory, current as int, layout),
        r is Ok ==> crate::block_fits(r->Ok_0, layout, memory.ptr as int, current as int),
{
    let size = layout.size();
    let align = layout.align();
    let new = match current.checked_sub(size) {
        Some(n) => n,
        None => return Err(AllocError),
    };
    proof {
        lemma_round_down(new as int, align as int);
    }
    let aligned = new - new % align;
    if unlikely(aligned < memory.ptr) {
        Err(AllocError)
    } else {
        Ok(MemoryBlock { ptr: aligned, len: current - aligned })
    }
}

/// The block from the start of `memory` up to the current position.
pub open spec fn alloc_all_impl_spec(memory: MemoryBlock, current: int) -> MemoryBlock {
    MemoryBlock { ptr: memory.ptr, len: (current - memory.ptr) as usize }
}

fn alloc_all_impl(memory: MemoryBlock, current: usize) -> (r: MemoryBlock)
    requires
        memory.ptr <= current,
    ensures
        r == alloc_all_impl_spec(memory, current as int),
{
    MemoryBlock { ptr: memory.ptr, len: current - memory.ptr }
}

fn end(memory: MemoryBlock) -> (r: usize)
    requires
        valid_memory(memory),
    ensures
        r == end_spec(memory),
{
    memory.ptr + memory.len
}

/// The little-endian bytes of the lowest `n` bytes of `x`.
pub open spec fn le_bytes(x: nat, n: nat) -> Seq<u8>
    decreases n,
{
    if n == 0 {
        Seq::empty()
    } else {
        seq![(x % 256) as u8] + le_bytes(x / 256, (n - 1) as nat)
    }
}

pub proof fn lemma_le_bytes_len(x: nat, n: nat)
    ensures
        le_bytes(x, n).len() == n,
    decreases n,
{
    if n > 0 {
        lemma_le_bytes_len(x / 256, (n - 1) as nat);
    }
}

/// The eight little-endian bytes that store the current position of an intrusive region.
fn position_bytes(x: usize) -> (r: Vec<u8>)
    ensures
        r@ == le_bytes(x as nat, 8),
        r@.len() == 8,
{
    proof {
        lemma_le_bytes_len(x as nat, 8);
    }
    let mut out: Vec<u8> = Vec::new();
    let mut v: usize = x;
    let mut i: usize = 0;
    while i < 8
        invariant
            i <= 8,
            out@ + le_bytes(v as nat, (8 - i) as nat) == le_bytes(x as nat, 8),
        decreases 8 - i,
    {
        let b = (v % 256) as u8;
        let ghost before = out@;
        let ghost vv = v as nat;
        out.push(b);
        v = v / 256;
        i = i + 1;
        proof {
            assert(le_bytes(vv, (8 - (i - 1)) as nat) == seq![(vv % 256) as u8] + le_bytes(
                vv / 256,
                (8 - i) as nat,
            ));
            assert(out@ == before + seq![b]);
            assert(before + le_bytes(vv, (8 - (i - 1)) as nat) == out@ + le_bytes(
                v as nat,
                (8 - i) as nat,
            ));
        }
    }
    proof {
        assert(out@ + le_bytes(v as nat, 0) == out@);
    }
    out
}

/// A stack allocator over a block of addresses.
///
/// Blocks are handed out from the end of the memory towards its start. Deallocating has no
/// effect, and blocks can be neither grown nor shrunk; [`AllocateAll::deallocate_all`] resets
/// the region.
#[derive(Debug)]
pub struct RawRegion {
    memory: MemoryBlock,
    current: usize,
}

/// A region allocator with the interface of a shared region. Each value holds its own current
/// position, so it behaves like a [`RawRegion`]; it cannot be cloned.
#[derive(Debug)]
pub struct RawSharedRegion {
    memory: MemoryBlock,
    current: usize,
}

/// An intrusive region allocator, which stores its current position in the memory it manages:
/// the last eight bytes of the given block, aligned to eight, hold the position and are no
/// longer handed out.
#[derive(Debug)]
pub struct RawIntrusiveRegion {
    memory: MemoryBlock,
    slot: usize,
    current: usize,
}

/// The layout of the slot that holds the current position of an intrusive region.
pub open spec fn slot_size() -> int {
    8
}

impl RawRegion {
    #[verifier::type_invariant]
    closed spec fn raw_inv(self) -> bool {
        &&& valid_memory(self.memory)
        &&& self.memory.ptr <= self.current <= end_spec(self.memory)
    }

    /// The block of addresses the region manages.
    pub closed spec fn spec_memory(self) -> MemoryBlock {
        self.memory
    }

    /// The current position: every address from here to the end is allocated.
    pub closed spec fn spec_current(self) -> int {
        self.current as int
    }

    /// The region with its current position moved to `p`.
    pub closed spec fn with_current(self, p: int) -> Self {
        RawRegion { current: p as usize, ..self }
    }

    /// Moving the current position keeps the memory of the region.
    pub proof fn lemma_with_current(self, p: int)
        requires
            self.wf(),
            self.spec_memory().ptr <= p <= end_spec(self.spec_memory()),
        ensures
            self.with_current(p).wf(),
            self.with_current(p).spec_current() == p,
            self.with_current(p).spec_memory() == self.spec_memory(),
    {
    }

    pub closed spec fn wf(self) -> bool {
        self.raw_inv()
    }

    /// The block of addresses is valid, and the current position lies between its start and
    /// its end.
    pub proof fn lemma_bounds(self)
        requires
            self.wf(),
        ensures
            valid_memory(self.spec_memory()),
            self.spec_memory().ptr <= self.spec_current() <= end_spec(self.spec_memory()),
    {
    }

    /// The region owns a block of positive length only while part of its memory is handed out:
    /// such a block lies inside that part, which is as long as the capacity less the capacity
    /// left.
    pub proof fn lemma_owns_capacity_left(self, memory: MemoryBlock)
        requires
            self.wf(),
            self.owns_spec(memory),
            memory.len > 0,
        ensures
            memory.len <= self.capacity_spec() - self.capacity_left_spec(),
            self.capacity_left_spec() < self.capacity_spec(),
    {
    }

    /// Creates a new region from the given block of addresses. The region starts empty.
    pub fn new(memory: MemoryBlock) -> (r: Self)
        requires
            valid_memory(memory),
        ensures
            r.wf(),
            r.spec_memory() == memory,
            r.spec_current() == end_spec(memory),
    {
        RawRegion { memory, current: end(memory) }
    }

    fn current(&self) -> (r: usize)
        ensures
            r == self.spec_current(),
    {
        self.current
    }

    fn set_current(&mut self, ptr: usize)
        requires
            old(self).spec_memory().ptr <= ptr <= end_spec(old(self).spec_memory()),
        ensures
            *final(self) == old(self).with_current(ptr as int),
    {
        proof {
            use_type_invariant(&*self);
        }
        self.current = ptr;
    }
}

impl RawSharedRegion {
    #[verifier::type_invariant]
    closed spec fn raw_inv(self) -> bool {
        &&& valid_memory(self.memory)
        &&& self.memory.ptr <= self.current <= end_spec(self.memory)
    }

    /// The block of addresses the region manages.
    pub closed spec fn spec_memory(self) -> MemoryBlock {
        self.memory
    }

    /// The current position: every address from here to the end is allocated.
    pub closed spec fn spec_current(self) -> int {
        self.current as int
    }

    /// The region with its current position moved to `p`.
    pub closed spec fn with_current(self, p: int) -> Self {
        RawSharedRegion { current: p as usize, ..self }
    }

    /// Moving the current position keeps the memory of the region.
    pub proof fn lemma_with_current(self, p: int)
        requires
            self.wf(),
            self.spec_memory().ptr <= p <= end_spec(self.spec_memory()),
        ensures
            self.with_current(p).wf(),
            self.with_current(p).spec_current() == p,
            self.with_current(p).spec_memory() == self.spec_memory(),
    {
    }

    pub closed spec fn wf(self) -> bool {
        self.raw_inv()
    }

    /// The block of addresses is valid, and the current position lies between its start and
    /// its end.
    pub proof fn lemma_bounds(self)
        requires
            self.wf(),
        ensures
            valid_memory(self.spec_memory()),
            self.spec_memory().ptr <= self.spec_current() <= end_spec(self.spec_memory()),
    {
    }

    /// The region owns a block of positive length only while part of its memory is handed out:
    /// such a block lies inside that part, which is as long as the capacity less the capacity
    /// left.
    pub proof fn lemma_owns_capacity_left(self, memory: MemoryBlock)
        requires
            self.wf(),
            self.owns_spec(memory),
            memory.len > 0,
        ensures
            memory.len <= self.capacity_spec() - self.capacity_left_spec(),
            self.capacity_left_spec() < self.capacity_spec(),
    {
    }

    /// Creates a new region from the given block of addresses. The region starts empty.
    pub fn new(memory: MemoryBlock) -> (r: Self)
        requires
            valid_memory(memory),
        ensures
            r.wf(),
            r.spec_memory() == memory,
            r.spec_current() == end_spec(memory),
    {
        RawSharedRegion { memory, current: end(memory) }
    }

    fn current(&self) -> (r: usize)
        ensures
            r == self.spec_current(),
    {
        self.current
    }

    fn set_current(&mut self, ptr: usize)
        requires
            old(self).spec_memory().ptr <= ptr <= end_spec(old(self).spec_memory()),
        ensures
            *final(self) == old(self).with_current(ptr as int),
    {
        proof {
            use_type_invariant(&*self);
        }
        self.current = ptr;
    }
}

impl RawIntrusiveRegion {
    #[verifier::type_invariant]
    closed spec fn raw_inv(self) -> bool {
        &&& valid_memory(self.memory)
        &&& self.memory.ptr <= self.current <= end_spec(self.memory)
        &&& self.slot == end_spec(self.memory)
        &&& self.slot + slot_size() <= usize::MAX
    }

    /// The block of addresses the region hands out.
    pub closed spec fn spec_memory(self) -> MemoryBlock {
        self.memory
    }

    /// The address of the eight bytes that hold the current position.
    pub closed spec fn spec_slot(self) -> int {
        self.slot as int
    }

    /// The current position: every address from here to the end is allocated.
    pub closed spec fn spec_current(self) -> int {
        self.current as int
    }

    /// The region with its current position moved to `p`.
    pub closed spec fn with_current(self, p: int) -> Self {
        RawIntrusiveRegion { current: p as usize, ..self }
    }

    /// Moving the current position keeps the memory of the region.
    pub proof fn lemma_with_current(self, p: int)
        requires
            self.wf(),
            self.spec_memory().ptr <= p <= end_spec(self.spec_memory()),
        ensures
            self.with_current(p).wf(),
            self.with_current(p).spec_current() == p,
            self.with_current(p).spec_memory() == self.spec_memory(),
            self.with_current(p).spec_slot() == self.spec_slot(),
    {
    }

    pub closed spec fn wf(self) -> bool {
        self.raw_inv()
    }

    /// The block of addresses is valid, and the current position lies between its start and
    /// its end.
    pub proof fn lemma_bounds(self)
        requires
            self.wf(),
        ensures
            valid_memory(self.spec_memory()),
            self.spec_memory().ptr <= self.spec_current() <= end_spec(self.spec_memory()),
    {
    }

    /// The region owns a block of positive length only while part of its memory is handed out:
    /// such a block lies inside that part, which is as long as the capacity less the capacity
    /// left.
    pub proof fn lemma_owns_capacity_left(self, memory: MemoryBlock)
        requires
            self.wf(),
            self.owns_spec(memory),
            memory.len > 0,
        ensures
            memory.len <= self.capacity_spec() - self.capacity_left_spec(),
            self.capacity_left_spec() < self.capacity_spec(),
    {
    }

    /// The memory after storing the position `p` in the slot of the region.
    pub open spec fn store_position(self, mem: MemView, p: int) -> MemView {
        mem.write(self.spec_slot(), le_bytes(p as nat, 8))
    }

    /// The slot of a region over `memory`: eight bytes aligned to eight at the end of it.
    pub open spec fn slot_spec(memory: MemoryBlock) -> Result<MemoryBlock, AllocError> {
        alloc_impl_spec(memory, end_spec(memory), Layout::from_parts(8, 8))
    }

    /// Creates a new region from the given block of addresses of `mem`. The last eight bytes
    /// of the block, aligned to eight, store the current position; the rest is handed out.
    /// `memory` must be large enough to hold the slot.
    pub fn new(mem: &mut Memory, memory: MemoryBlock) -> (r: Self)
        requires
            valid_memory(memory),
            old(mem)@.contains(memory.ptr as int, memory.len as int),
            Self::slot_spec(memory) is Ok,
        ensures
            r.wf(),
            r.spec_slot() == Self::slot_spec(memory)->Ok_0.ptr,
            r.spec_memory() == (MemoryBlock {
                ptr: memory.ptr,
                len: (r.spec_slot() - memory.ptr) as usize,
            }),
            r.spec_current() == r.spec_slot(),
            final(mem)@ == r.store_position(old(mem)@, r.spec_slot()),
    {
        assert(crate::layout::valid_layout(8, 8)) by {
            reveal_with_fuel(crate::layout::is_power_of_two, 5);
            assert(isize::MAX as int % 8 < 8);
            assert(isize::MAX >= 0x7fff_ffff);
        }
        let slot_layout = Layout::from_size_align_unchecked(8, 8);
        proof {
            Layout::lemma_from_parts(8, 8);
        }
        let slot = match alloc_impl(memory, end(memory), slot_layout) {
            Ok(b) => b.ptr,
            Err(_) => {
                proof {
                    assert(false);
                }
                0
            },
        };
        let bytes = position_bytes(slot);
        mem.write_range(slot, bytes.as_slice());
        let shrunk = MemoryBlock { ptr: memory.ptr, len: slot - memory.ptr };
        RawIntrusiveRegion { memory: shrunk, slot, current: slot }
    }

    fn current(&self) -> (r: usize)
        ensures
            r == self.spec_current(),
    {
        self.current
    }

    fn set_current(&mut self, mem: &mut Memory, ptr: usize)
        requires
            old(self).spec_memory().ptr <= ptr <= end_spec(old(self).spec_memory()),
            old(mem)@.contains(old(self).spec_slot(), 8),
        ensures
            *final(self) == old(self).with_current(ptr as int),
            final(mem)@ == old(self).store_position(old(mem)@, ptr as int),
    {
        proof {
            use_type_invariant(&*self);
        }
        let bytes = position_bytes(ptr);
        mem.write_range(self.slot, bytes.as_slice());
        self.current = ptr;
    }
}

impl AllocRef for RawRegion {
    open spec fn inv(&self, lo: int, hi: int) -> bool {
        &&& self.wf()
        &&& lo <= self.spec_memory().ptr
        &&& end_spec(self.spec_memory()) <= hi
    }

    open spec fn equiv(&self, other: Self) -> bool {
        *self == other
    }

    open spec fn alloc_rel(
        &self,
        mem: MemView,
        layout: Layout,
        init: AllocInit,
        next: Self,
        next_mem: MemView,
        r: AllocResult,
    ) -> bool {
        match alloc_impl_spec(self.spec_memory(), self.spec_current(), layout) {
            Ok(b) => {
                &&& r == Ok::<MemoryBlock, AllocError>(b)
                &&& next == self.with_current(b.ptr as int)
                &&& next_mem == init.init_offset_spec(mem, b, 0)
            },
            Err(_) => r is Err && next == *self && next_mem == mem,
        }
    }

    /// The block lies in the managed memory.
    open spec fn dealloc_pre(&self, ptr: usize, layout: Layout) -> bool {
        self.spec_memory().ptr <= ptr && ptr + layout.size() <= end_spec(self.spec_memory())
    }

    /// Deallocating has no effect.
    open spec fn dealloc_rel(
        &self,
        mem: MemView,
        ptr: usize,
        layout: Layout,
        next: Self,
        next_mem: MemView,
    ) -> bool {
        next == *self && next_mem == mem
    }

    open spec fn grow_pre(&self, ptr: usize, old_layout: Layout, new_layout: Layout) -> bool {
        self.dealloc_pre(ptr, old_layout) && old_layout.size() <= new_layout.size()
    }

    /// Growing always fails.
    open spec fn grow_rel(
        &self,
        mem: MemView,
        ptr: usize,
        old_layout: Layout,
        new_layout: Layout,
        init: AllocInit,
        next: Self,
        next_mem: MemView,
        r: AllocResult,
    ) -> bool {
        r is Err && next == *self && next_mem == mem
    }

    open spec fn shrink_pre(&self, ptr: usize, old_layout: Layout, new_layout: Layout) -> bool {
        self.dealloc_pre(ptr, old_layout) && new_layout.size() <= old_layout.size()
    }

    /// Shrinking always fails.
    open spec fn shrink_rel(
        &self,
        mem: MemView,
        ptr: usize,
        old_layout: Layout,
        new_layout: Layout,
        next: Self,
        next_mem: MemView,
        r: AllocResult,
    ) -> bool {
        r is Err && next == *self && next_mem == mem
    }

    proof fn lemma_dealloc_pre(&self, lo: int, hi: int, ptr: usize, layout: Layout) {
    }

    proof fn lemma_grow_pre(&self, ptr: usize, old_layout: Layout, new_layout: Layout) {
    }

    proof fn lemma_shrink_pre(&self, ptr: usize, old_layout: Layout, new_layout: Layout) {
    }

    proof fn lemma_equiv(
        &self,
        other: Self,
        lo: int,
        hi: int,
        ptr: usize,
        l1: Layout,
        l2: Layout,
    ) {
    }

    proof fn lemma_equiv_refl(&self) {
    }

    proof fn lemma_alloc_zeroed(
        &self,
        mem: MemView,
        layout: Layout,
        next: Self,
        next_mem: MemView,
        r: AllocResult,
    ) {
        self.lemma_bounds();
        crate::layout::lemma_power_of_two_positive(layout.align() as int);
        if self.spec_current() >= layout.size() {
            lemma_round_down(self.spec_current() - layout.size(), layout.align() as int);
        }
    }

    proof fn lemma_equiv_trans(&self, b: Self, c: Self) {
    }

    fn allocate(&mut self, mem: &mut Memory, layout: Layout) -> (r: AllocResult) {
        proof {
            use_type_invariant(&*self);
        }
        let new = match alloc_impl(self.memory, self.current(), layout) {
            Ok(b) => b,
            Err(e) => return Err(e),
        };
        self.set_current(new.ptr);
        Ok(new)
    }

    fn allocate_zeroed(&mut self, mem: &mut Memory, layout: Layout) -> (r: AllocResult) {
        proof {
            use_type_invariant(&*self);
        }
        let new = match alloc_impl(self.memory, self.current(), layout) {
            Ok(b) => b,
            Err(e) => return Err(e),
        };
        self.set_current(new.ptr);
        AllocInit::Zeroed.init(mem, new);
        Ok(new)
    }

    /// Has no effect.
    fn deallocate(&mut self, mem: &mut Memory, ptr: usize, layout: Layout) {
    }

    /// Always fails.
    fn grow(&mut self, mem: &mut Memory, ptr: usize, old_layout: Layout, new_layout: Layout) -> (r:
        AllocResult) {
        Err(AllocError)
    }

    /// Always fails.
    fn grow_zeroed(
        &mut self,
        mem: &mut Memory,
        ptr: usize,
        old_layout: Layout,
        new_layout: Layout,
    ) -> (r: AllocResult) {
        Err(AllocError)
    }

    /// Always fails.
    fn shrink(&mut self, mem: &mut Memory, ptr: usize, old_layout: Layout, new_layout: Layout) -> (r:
        AllocResult) {
        Err(AllocError)
    }
}

impl AllocateAll for RawRegion {
    /// Hands out everything from the start of the memory up to the current position.
    open spec fn allocate_all_rel(
        &self,
        mem: MemView,
        init: AllocInit,
        next: Self,
        next_mem: MemView,
        r: AllocResult,
    ) -> bool {
        let b = alloc_all_impl_spec(self.spec_memory(), self.spec_current());
        &&& r == Ok::<MemoryBlock, AllocError>(b)
        &&& next == self.with_current(b.ptr as int)
        &&& next_mem == init.init_offset_spec(mem, b, 0)
    }

    open spec fn deallocate_all_rel(&self, mem: MemView, next: Self, next_mem: MemView) -> bool {
        &&& next == self.with_current(end_spec(self.spec_memory()))
        &&& next_mem == mem
    }

    open spec fn capacity_spec(&self) -> usize {
        self.spec_memory().len
    }

    open spec fn capacity_left_spec(&self) -> usize {
        (self.spec_current() - self.spec_memory().ptr) as usize
    }

    fn allocate_all(&mut self, mem: &mut Memory) -> (r: AllocResult) {
        proof {
            use_type_invariant(&*self);
        }
        let new = alloc_all_impl(self.memory, self.current());
        self.set_current(new.ptr);
        Ok(new)
    }

    fn allocate_all_zeroed(&mut self, mem: &mut Memory) -> (r: AllocResult) {
        proof {
            use_type_invariant(&*self);
        }
        let new = alloc_all_impl(self.memory, self.current());
        self.set_current(new.ptr);
        AllocInit::Zeroed.init(mem, new);
        Ok(new)
    }

    fn deallocate_all(&mut self, mem: &mut Memory) {
        proof {
            use_type_invariant(&*self);
        }
        let e = end(self.memory);
        self.set_current(e);
    }

    fn capacity(&self) -> (r: usize) {
        self.memory.len
    }

    fn capacity_left(&self) -> (r: usize) {
        proof {
            use_type_invariant(&*self);
        }
        self.current() - self.memory.ptr
    }
}

impl crate::HandsBack for RawRegion {
    proof fn lemma_alloc_dealloc_pre(
        &self,
        mem: MemView,
        layout: Layout,
        init: AllocInit,
        next: Self,
        next_mem: MemView,
        r: AllocResult,
    ) {
        self.lemma_bounds();
        crate::layout::lemma_power_of_two_positive(layout.align() as int);
        lemma_round_down(self.spec_current() - layout.size(), layout.align() as int);
        crate::region_alloc::lemma_multiple_at_least(r->Ok_0.ptr as int, layout.align() as int);
        self.lemma_with_current(r->Ok_0.ptr as int);
    }

    proof fn lemma_resize_pre(&self, lo: int, hi: int, ptr: usize, old_layout: Layout, new_layout: Layout) {
    }
}

impl Owns for RawRegion {
    /// The block lies between the current position and the end of the memory.
    open spec fn owns_spec(&self, memory: MemoryBlock) -> bool {
        memory.ptr >= self.spec_current() && memory.ptr + memory.len <= end_spec(self.spec_memory())
    }

    proof fn lemma_owns_equiv(&self, other: Self, memory: MemoryBlock) {
    }

    fn owns(&mut self, memory: MemoryBlock) -> (r: bool) {
        let end = self.memory.ptr as u128 + self.memory.len as u128;
        memory.ptr >= self.current() && memory.ptr as u128 + memory.len as u128 <= end
    }
}

impl PartialEq for RawRegion {
    /// Regions are equal when they manage the same memory.
    fn eq(&self, other: &Self) -> (r: bool) {
        self.memory == other.memory
    }
}

impl vstd::std_specs::cmp::PartialEqSpecImpl for RawRegion {
    open spec fn obeys_eq_spec() -> bool {
        true
    }

    open spec fn eq_spec(&self, other: &Self) -> bool {
        self.spec_memory() == other.spec_memory()
    }
}

impl AllocRef for RawSharedRegion {
    open spec fn inv(&self, lo: int, hi: int) -> bool {
        &&& self.wf()
        &&& lo <= self.spec_memory().ptr
        &&& end_spec(self.spec_memory()) <= hi
    }

    open spec fn equiv(&self, other: Self) -> bool {
        *self == other
    }

    open spec fn alloc_rel(
        &self,
        mem: MemView,
        layout: Layout,
        init: AllocInit,
        next: Self,
        next_mem: MemView,
        r: AllocResult,
    ) -> bool {
        match alloc_impl_spec(self.spec_memory(), self.spec_current(), layout) {
            Ok(b) => {
                &&& r == Ok::<MemoryBlock, AllocError>(b)
                &&& next == self.with_current(b.ptr as int)
                &&& next_mem == init.init_offset_spec(mem, b, 0)
            },
            Err(_) => r is Err && next == *self && next_mem == mem,
        }
    }

    /// The block lies in the managed memory.
    open spec fn dealloc_pre(&self, ptr: usize, layout: Layout) -> bool {
        self.spec_memory().ptr <= ptr && ptr + layout.size() <= end_spec(self.spec_memory())
    }

    /// Deallocating has no effect.
    open spec fn dealloc_rel(
        &self,
        mem: MemView,
        ptr: usize,
        layout: Layout,
        next: Self,
        next_mem: MemView,
    ) -> bool {
        next == *self && next_mem == mem
    }

    open spec fn grow_pre(&self, ptr: usize, old_layout: Layout, new_layout: Layout) -> bool {
        self.dealloc_pre(ptr, old_layout) && old_layout.size() <= new_layout.size()
    }

    /// Growing always fails.
    open spec fn grow_rel(
        &self,
        mem: MemView,
        ptr: usize,
        old_layout: Layout,
        new_layout: Layout,
        init: AllocInit,
        next: Self,
        next_mem: MemView,
        r: AllocResult,
    ) -> bool {
        r is Err && next == *self && next_mem == mem
    }

    open spec fn shrink_pre(&self, ptr: usize, old_layout: Layout, new_layout: Layout) -> bool {
        self.dealloc_pre(ptr, old_layout) && new_layout.size() <= old_layout.size()
    }

    /// Shrinking always fails.
    open spec fn shrink_rel(
        &self,
        mem: MemView,
        ptr: usize,
        old_layout: Layout,
        new_layout: Layout,
        next: Self,
        next_mem: MemView,
        r: AllocResult,
    ) -> bool {
        r is Err && next == *self && next_mem == mem
    }

    proof fn lemma_dealloc_pre(&self, lo: int, hi: int, ptr: usize, layout: Layout) {
    }

    proof fn lemma_grow_pre(&self, ptr: usize, old_layout: Layout, new_layout: Layout) {
    }

    proof fn lemma_shrink_pre(&self, ptr: usize, old_layout: Layout, new_layout: Layout) {
    }

    proof fn lemma_equiv(
        &self,
        other: Self,
        lo: int,
        hi: int,
        ptr: usize,
        l1: Layout,
        l2: Layout,
    ) {
    }

    proof fn lemma_equiv_refl(&self) {
    }

    proof fn lemma_alloc_zeroed(
        &self,
        mem: MemView,
        layout: Layout,
        next: Self,
        next_mem: MemView,
        r: AllocResult,
    ) {
        self.lemma_bounds();
        crate::layout::lemma_power_of_two_positive(layout.align() as int);
        if self.spec_current() >= layout.size() {
            lemma_round_down(self.spec_current() - layout.size(), layout.align() as int);
        }
    }

    proof fn lemma_equiv_trans(&self, b: Self, c: Self) {
    }

    fn allocate(&mut self, mem: &mut Memory, layout: Layout) -> (r: AllocResult) {
        proof {
            use_type_invariant(&*self);
        }
        let new = match alloc_impl(self.memory, self.current(), layout) {
            Ok(b) => b,
            Err(e) => return Err(e),
        };
        self.set_current(new.ptr);
        Ok(new)
    }

    fn allocate_zeroed(&mut self, mem: &mut Memory, layout: Layout) -> (r: AllocResult) {
        proof {
            use_type_invariant(&*self);
        }
        let new = match alloc_impl(self.memory, self.current(), layout) {
            Ok(b) => b,
            Err(e) => return Err(e),
        };
        self.set_current(new.ptr);
        AllocInit::Zeroed.init(mem, new);
        Ok(new)
    }

    /// Has no effect.
    fn deallocate(&mut self, mem: &mut Memory, ptr: usize, layout: Layout) {
    }

    /// Always fails.
    fn grow(&mut self, mem: &mut Memory, ptr: usize, old_layout: Layout, new_layout: Layout) -> (r:
        AllocResult) {
        Err(AllocError)
    }

    /// Always fails.
    fn grow_zeroed(
        &mut self,
        mem: &mut Memory,
        ptr: usize,
        old_layout: Layout,
        new_layout: Layout,
    ) -> (r: AllocResult) {
        Err(AllocError)
    }

    /// Always fails.
    fn shrink(&mut self, mem: &mut Memory, ptr: usize, old_layout: Layout, new_layout: Layout) -> (r:
        AllocResult) {
        Err(AllocError)
    }
}

impl AllocateAll for RawSharedRegion {
    /// Hands out everything from the start of the memory up to the current position.
    open spec fn allocate_all_rel(
        &self,
        mem: MemView,
        init: AllocInit,
        next: Self,
        next_mem: MemView,
        r: AllocResult,
    ) -> bool {
        let b = alloc_all_impl_spec(self.spec_memory(), self.spec_current());
        &&& r == Ok::<MemoryBlock, AllocError>(b)
        &&& next == self.with_current(b.ptr as int)
        &&& next_mem == init.init_offset_spec(mem, b, 0)
    }

    open spec fn deallocate_all_rel(&self, mem: MemView, next: Self, next_mem: MemView) -> bool {
        &&& next == self.with_current(end_spec(self.spec_memory()))
        &&& next_mem == mem
    }

    open spec fn capacity_spec(&self) -> usize {
        self.spec_memory().len
    }

    open spec fn capacity_left_spec(&self) -> usize {
        (self.spec_current() - self.spec_memory().ptr) as usize
    }

    fn allocate_all(&mut self, mem: &mut Memory) -> (r: AllocResult) {
        proof {
            use_type_invariant(&*self);
        }
        let new = alloc_all_impl(self.memory, self.current());
        self.set_current(new.ptr);
        Ok(new)
    }

    fn allocate_all_zeroed(&mut self, mem: &mut Memory) -> (r: AllocResult) {
        proof {
            use_type_invariant(&*self);
        }
        let new = alloc_all_impl(self.memory, self.current());
        self.set_current(new.ptr);
        AllocInit::Zeroed.init(mem, new);
        Ok(new)
    }

    fn deallocate_all(&mut self, mem: &mut Memory) {
        proof {
            use_type_invariant(&*self);
        }
        let e = end(self.memory);
        self.set_current(e);
    }

    fn capacity(&self) -> (r: usize) {
        self.memory.len
    }

    fn capacity_left(&self) -> (r: usize) {
        proof {
            use_type_invariant(&*self);
        }
        self.current() - self.memory.ptr
    }
}

impl crate::HandsBack for RawSharedRegion {
    proof fn lemma_alloc_dealloc_pre(
        &self,
        mem: MemView,
        layout: Layout,
        init: AllocInit,
        next: Self,
        next_mem: MemView,
        r: AllocResult,
    ) {
        self.lemma_bounds();
        crate::layout::lemma_power_of_two_positive(layout.align() as int);
        lemma_round_down(self.spec_current() - layout.size(), layout.align() as int);
        crate::region_alloc::lemma_multiple_at_least(r->Ok_0.ptr as int, layout.align() as int);
        self.lemma_with_current(r->Ok_0.ptr as int);
    }

    proof fn lemma_resize_pre(&self, lo: int, hi: int, ptr: usize, old_layout: Layout, new_layout: Layout) {
    }
}

impl Owns for RawSharedRegion {
    /// The block lies between the current position and the end of the memory.
    open spec fn owns_spec(&self, memory: MemoryBlock) -> bool {
        memory.ptr >= self.spec_current() && memory.ptr + memory.len <= end_spec(self.spec_memory())
    }

    proof fn lemma_owns_equiv(&self, other: Self, memory: MemoryBlock) {
    }

    fn owns(&mut self, memory: MemoryBlock) -> (r: bool) {
        let end = self.memory.ptr as u128 + self.memory.len as u128;
        memory.ptr >= self.current() && memory.ptr as u128 + memory.len as u128 <= end
    }
}

impl PartialEq for RawSharedRegion {
    /// Regions are equal when they manage the same memory.
    fn eq(&self, other: &Self) -> (r: bool) {
        self.memory == other.memory
    }
}

impl vstd::std_specs::cmp::PartialEqSpecImpl for RawSharedRegion {
    open spec fn obeys_eq_spec() -> bool {
        true
    }

    open spec fn eq_spec(&self, other: &Self) -> bool {
        self.spec_memory() == other.spec_memory()
    }
}

impl AllocRef for RawIntrusiveRegion {
    open spec fn inv(&self, lo: int, hi: int) -> bool {
        &&& self.wf()
        &&& lo <= self.spec_memory().ptr
        &&& end_spec(self.spec_memory()) <= hi
        &&& self.spec_slot() + slot_size() <= hi
    }

    open spec fn equiv(&self, other: Self) -> bool {
        *self == other
    }

    open spec fn alloc_rel(
        &self,
        mem: MemView,
        layout: Layout,
        init: AllocInit,
        next: Self,
        next_mem: MemView,
        r: AllocResult,
    ) -> bool {
        match alloc_impl_spec(self.spec_memory(), self.spec_current(), layout) {
            Ok(b) => {
                &&& r == Ok::<MemoryBlock, AllocError>(b)
                &&& next == self.with_current(b.ptr as int)
                &&& next_mem == init.init_offset_spec(self.store_position(mem, b.ptr as int), b, 0)
            },
            Err(_) => r is Err && next == *self && next_mem == mem,
        }
    }

    /// The block lies in the managed memory.
    open spec fn dealloc_pre(&self, ptr: usize, layout: Layout) -> bool {
        self.spec_memory().ptr <= ptr && ptr + layout.size() <= end_spec(self.spec_memory())
    }

    /// Deallocating has no effect.
    open spec fn dealloc_rel(
        &self,
        mem: MemView,
        ptr: usize,
        layout: Layout,
        next: Self,
        next_mem: MemView,
    ) -> bool {
        next == *self && next_mem == mem
    }

    open spec fn grow_pre(&self, ptr: usize, old_layout: Layout, new_layout: Layout) -> bool {
        self.dealloc_pre(ptr, old_layout) && old_layout.size() <= new_layout.size()
    }

    /// Growing always fails.
    open spec fn grow_rel(
        &self,
        mem: MemView,
        ptr: usize,
        old_layout: Layout,
        new_layout: Layout,
        init: AllocInit,
        next: Self,
        next_mem: MemView,
        r: AllocResult,
    ) -> bool {
        r is Err && next == *self && next_mem == mem
    }

    open spec fn shrink_pre(&self, ptr: usize, old_layout: Layout, new_layout: Layout) -> bool {
        self.dealloc_pre(ptr, old_layout) && new_layout.size() <= old_layout.size()
    }

    /// Shrinking always fails.
    open spec fn shrink_rel(
        &self,
        mem: MemView,
        ptr: usize,
        old_layout: Layout,
        new_layout: Layout,
        next: Self,
        next_mem: MemView,
        r: AllocResult,
    ) -> bool {
        r is Err && next == *self && next_mem == mem
    }

    proof fn lemma_dealloc_pre(&self, lo: int, hi: int, ptr: usize, layout: Layout) {
    }

    proof fn lemma_grow_pre(&self, ptr: usize, old_layout: Layout, new_layout: Layout) {
    }

    proof fn lemma_shrink_pre(&self, ptr: usize, old_layout: Layout, new_layout: Layout) {
    }

    proof fn lemma_equiv(
        &self,
        other: Self,
        lo: int,
        hi: int,
        ptr: usize,
        l1: Layout,
        l2: Layout,
    ) {
    }

    proof fn lemma_equiv_refl(&self) {
    }

    proof fn lemma_alloc_zeroed(
        &self,
        mem: MemView,
        layout: Layout,
        next: Self,
        next_mem: MemView,
        r: AllocResult,
    ) {
        self.lemma_bounds();
        crate::layout::lemma_power_of_two_positive(layout.align() as int);
        if self.spec_current() >= layout.size() {
            lemma_round_down(self.spec_current() - layout.size(), layout.align() as int);
        }
    }

    proof fn lemma_equiv_trans(&self, b: Self, c: Self) {
    }

    fn allocate(&mut self, mem: &mut Memory, layout: Layout) -> (r: AllocResult) {
        proof {
            use_type_invariant(&*self);
        }
        let new = match alloc_impl(self.memory, self.current(), layout) {
            Ok(b) => b,
            Err(e) => return Err(e),
        };
        self.set_current(mem, new.ptr);
        Ok(new)
    }

    fn allocate_zeroed(&mut self, mem: &mut Memory, layout: Layout) -> (r: AllocResult) {
        proof {
            use_type_invariant(&*self);
        }
        let new = match alloc_impl(self.memory, self.current(), layout) {
            Ok(b) => b,
            Err(e) => return Err(e),
        };
        self.set_current(mem, new.ptr);
        AllocInit::Zeroed.init(mem, new);
        Ok(new)
    }

    /// Has no effect.
    fn deallocate(&mut self, mem: &mut Memory, ptr: usize, layout: Layout) {
    }

    /// Always fails.
    fn grow(&mut self, mem: &mut Memory, ptr: usize, old_layout: Layout, new_layout: Layout) -> (r:
        AllocResult) {
        Err(AllocError)
    }

    /// Always fails.
    fn grow_zeroed(
        &mut self,
        mem: &mut Memory,
        ptr: usize,
        old_layout: Layout,
        new_layout: Layout,
    ) -> (r: AllocResult) {
        Err(AllocError)
    }

    /// Always fails.
    fn shrink(&mut self, mem: &mut Memory, ptr: usize, old_layout: Layout, new_layout: Layout) -> (r:
        AllocResult) {
        Err(AllocError)
    }
}

impl AllocateAll for RawIntrusiveRegion {
    /// Hands out everything from the start of the memory up to the current position.
    open spec fn allocate_all_rel(
        &self,
        mem: MemView,
        init: AllocInit,
        next: Self,
        next_mem: MemView,
        r: AllocResult,
    ) -> bool {
        let b = alloc_all_impl_spec(self.spec_memory(), self.spec_current());
        &&& r == Ok::<MemoryBlock, AllocError>(b)
        &&& next == self.with_current(b.ptr as int)
        &&& next_mem == init.init_offset_spec(self.store_position(mem, b.ptr as int), b, 0)
    }

    open spec fn deallocate_all_rel(&self, mem: MemView, next: Self, next_mem: MemView) -> bool {
        &&& next == self.with_current(end_spec(self.spec_memory()))
        &&& next_mem == self.store_position(mem, end_spec(self.spec_memory()))
    }

    open spec fn capacity_spec(&self) -> usize {
        self.spec_memory().len
    }

    open spec fn capacity_left_spec(&self) -> usize {
        (self.spec_current() - self.spec_memory().ptr) as usize
    }

    fn allocate_all(&mut self, mem: &mut Memory) -> (r: AllocResult) {
        proof {
            use_type_invariant(&*self);
        }
        let new = alloc_all_impl(self.memory, self.current());
        self.set_current(mem, new.ptr);
        Ok(new)
    }

    fn allocate_all_zeroed(&mut self, mem: &mut Memory) -> (r: AllocResult) {
        proof {
            use_type_invariant(&*self);
        }
        let new = alloc_all_impl(self.memory, self.current());
        self.set_current(mem, new.ptr);
        AllocInit::Zeroed.init(mem, new);
        Ok(new)
    }

    fn deallocate_all(&mut self, mem: &mut Memory) {
        proof {
            use_type_invariant(&*self);
        }
        let e = end(self.memory);
        self.set_current(mem, e);
    }

    fn capacity(&self) -> (r: usize) {
        self.memory.len
    }

    fn capacity_left(&self) -> (r: usize) {
        proof {
            use_type_invariant(&*self);
        }
        self.current() - self.memory.ptr
    }
}

impl crate::HandsBack for RawIntrusiveRegion {
    proof fn lemma_alloc_dealloc_pre(
        &self,
        mem: MemView,
        layout: Layout,
        init: AllocInit,
        next: Self,
        next_mem: MemView,
        r: AllocResult,
    ) {
        self.lemma_bounds();
        crate::layout::lemma_power_of_two_positive(layout.align() as int);
        lemma_round_down(self.spec_current() - layout.size(), layout.align() as int);
        crate::region_alloc::lemma_multiple_at_least(r->Ok_0.ptr as int, layout.align() as int);
        self.lemma_with_current(r->Ok_0.ptr as int);
    }

    proof fn lemma_resize_pre(&self, lo: int, hi: int, ptr: usize, old_layout: Layout, new_layout: Layout) {
    }
}

impl Owns for RawIntrusiveRegion {
    /// The block lies between the current position and the end of the memory.
    open spec fn owns_spec(&self, memory: MemoryBlock) -> bool {
        memory.ptr >= self.spec_current() && memory.ptr + memory.len <= end_spec(self.spec_memory())
    }

    proof fn lemma_owns_equiv(&self, other: Self, memory: MemoryBlock) {
    }

    fn owns(&mut self, memory: MemoryBlock) -> (r: bool) {
        let end = self.memory.ptr as u128 + self.memory.len as u128;
        memory.ptr >= self.current() && memory.ptr as u128 + memory.len as u128 <= end
    }
}

impl PartialEq for RawIntrusiveRegion {
    /// Regions are equal when they manage the same memory.
    fn eq(&self, other: &Self) -> (r: bool) {
        self.memory == other.memory
    }
}

impl vstd::std_specs::cmp::PartialEqSpecImpl for RawIntrusiveRegion {
    open spec fn obeys_eq_spec() -> bool {
        true
    }

    open spec fn eq_spec(&self, other: &Self) -> bool {
        self.spec_memory() == other.spec_memory()
    }
}

/// The number whose little-endian bytes are `s`.
pub open spec fn from_le_bytes(s: Seq<u8>) -> nat
    decreases s.len(),
{
    if s.len() == 0 {
        0
    } else {
        s[0] as nat + 256 * from_le_bytes(s.drop_first())
    }
}

/// Reading back the little-endian bytes of a number that fits in `n` bytes gives the number.
pub proof fn lemma_le_bytes_roundtrip(x: nat, n: nat)
    requires
        x < vstd::arithmetic::power::pow(256, n),
    ensures
        from_le_bytes(le_bytes(x, n)) == x,
    decreases n,
{
    if n == 0 {
        assert(vstd::arithmetic::power::pow(256, 0) == 1) by {
            vstd::arithmetic::power::lemma_pow0(256);
        }
    } else {
        let p = vstd::arithmetic::power::pow(256, (n - 1) as nat);
        assert(vstd::arithmetic::power::pow(256, n) == 256 * p) by {
            vstd::arithmetic::power::lemma_pow_adds(256, 1, (n - 1) as nat);
            vstd::arithmetic::power::lemma_pow1(256);
        }
        let q = x / 256;
        assert(x == 256 * q + x % 256) by (nonlinear_arith)
            requires
                q == x / 256,
        ;
        assert(q < p) by (nonlinear_arith)
            requires
                x < 256 * p,
                x == 256 * q + x % 256,
                x % 256 >= 0,
        ;
        lemma_le_bytes_roundtrip(q, (n - 1) as nat);
        let s = le_bytes(x, n);
        assert(s.drop_first() =~= le_bytes(q, (n - 1) as nat));
        assert(s[0] as nat == x % 256);
    }
}

impl RawIntrusiveRegion {
    /// The slot holds the position: the memory that the intrusive region leaves after a
    /// successful allocation, after handing out all its memory, and after deallocating
    /// everything holds the new current position in its slot, and reading the slot back gives
    /// that position.
    pub proof fn lemma_position_stored(
        self,
        mem: MemView,
        layout: Layout,
        init: AllocInit,
        next: Self,
        next_mem: MemView,
        r: AllocResult,
    )
        requires
            self.inv(mem.lo(), mem.hi()),
            crate::layout::valid_layout(layout.size() as int, layout.align() as int),
            (self.alloc_rel(mem, layout, init, next, next_mem, r) && r is Ok)
                || self.allocate_all_rel(mem, init, next, next_mem, r)
                || self.deallocate_all_rel(mem, next, next_mem),
        ensures
            next.spec_slot() == self.spec_slot(),
            next_mem.range(next.spec_slot(), 8) == le_bytes(next.spec_current() as nat, 8),
            from_le_bytes(next_mem.range(next.spec_slot(), 8)) == next.spec_current(),
    {
        lemma_le_bytes_len(next.spec_current() as nat, 8);
        let w = self.store_position(mem, next.spec_current());
        assert(w.range(self.spec_slot(), 8) =~= le_bytes(next.spec_current() as nat, 8));
        if self.deallocate_all_rel(mem, next, next_mem) {
            assert(next_mem == w);
        } else {
            crate::layout::lemma_power_of_two_positive(layout.align() as int);
            let b = if self.alloc_rel(mem, layout, init, next, next_mem, r) && r is Ok {
                alloc_impl_spec(self.spec_memory(), self.spec_current(), layout)->Ok_0
            } else {
                alloc_all_impl_spec(self.spec_memory(), self.spec_current())
            };
            if self.alloc_rel(mem, layout, init, next, next_mem, r) && r is Ok {
                lemma_round_down(self.spec_current() - layout.size(), layout.align() as int);
            }
            assert(b.ptr + b.len <= self.spec_slot());
            assert(next_mem == init.init_offset_spec(w, b, 0));
            assert forall|i: int| 0 <= i < 8 implies #[trigger] next_mem.byte(self.spec_slot() + i)
                == w.byte(self.spec_slot() + i) by {}
        }
        assert(next_mem.range(next.spec_slot(), 8) =~= w.range(self.spec_slot(), 8));
        assert(vstd::arithmetic::power::pow(256, 8) == 0x1_0000_0000_0000_0000) by {
            reveal_with_fuel(vstd::arithmetic::power::pow, 9);
        }
        lemma_le_bytes_roundtrip(next.spec_current() as nat, 8);
    }
}

impl RawRegion {
    /// A block handed out by a region is owned by it until the region is reset, and the
    /// capacity left shrinks by the block's length.
    pub proof fn lemma_alloc_owned(
        self,
        mem: MemView,
        layout: Layout,
        init: AllocInit,
        next: Self,
        next_mem: MemView,
        r: AllocResult,
    )
        requires
            self.inv(mem.lo(), mem.hi()),
            crate::layout::valid_layout(layout.size() as int, layout.align() as int),
            self.alloc_rel(mem, layout, init, next, next_mem, r),
            r is Ok,
        ensures
            next.owns_spec(r->Ok_0),
            next.capacity_spec() == self.capacity_spec(),
            next.capacity_left_spec() == self.capacity_left_spec() - r->Ok_0.len,
    {
        crate::layout::lemma_power_of_two_positive(layout.align() as int);
        lemma_round_down(self.spec_current() - layout.size(), layout.align() as int);
    }

    /// Handing out all memory leaves a region full, with the block reaching from the start of
    /// the memory to the old current position; resetting it leaves it empty.
    pub proof fn lemma_all(
        self,
        mem: MemView,
        init: AllocInit,
        full: Self,
        full_mem: MemView,
        r: AllocResult,
        empty: Self,
        empty_mem: MemView,
    )
        requires
            self.inv(mem.lo(), mem.hi()),
            self.allocate_all_rel(mem, init, full, full_mem, r),
            full.deallocate_all_rel(full_mem, empty, empty_mem),
        ensures
            r is Ok,
            r->Ok_0.len == self.capacity_left_spec(),
            full.capacity_left_spec() == 0,
            empty.capacity_left_spec() == empty.capacity_spec(),
            empty.capacity_spec() == self.capacity_spec(),
            empty_mem == full_mem,
    {
    }
}

} // verus!
