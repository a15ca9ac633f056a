//! Structures to collect allocator statistics.
//!
//! Please see the [`Proxy`] documentation for examples.
//!
//! [`Proxy`]: crate::Proxy
use crate::{AllocError, AllocInit, AllocResult, CallbackRef, Layout, ReallocPlacement};
use vstd::prelude::*;

verus! {

/// The counts after adding one to the count at `slot`, wrapping on overflow.
pub open spec fn bump(counts: Seq<u64>, slot: int) -> Seq<u64> {
    counts.update(slot, vstd::wrapping::u64_specs::wrapping_add(counts[slot], 1))
}

/// Whether the two arrays of counts are equal.
fn same_counts<const N: usize>(a: &[u64; N], b: &[u64; N]) -> (r: bool)
    ensures
        r == (a@ == b@),
{
    let mut i: usize = 0;
    while i < N
        invariant
            i <= N,
            a@.len() == N,
            b@.len() == N,
            forall|j: int| 0 <= j < i ==> a@[j] == b@[j],
        decreases N - i,
    {
        if a[i] != b[i] {
            return false;
        }
        i = i + 1;
    }
    proof {
        assert(a@ =~= b@);
    }
    true
}

/// The kinds of calls a [`Counter`] counts.
#[derive(Copy, Clone, PartialEq, Eq, Structural)]
enum Stat {
    Allocs,
    Deallocs,
    Grows,
    Shrinks,
    Owns,
}

/// The slot of `stat` in the counts.
spec fn stat_slot(stat: Stat) -> int {
    match stat {
        Stat::Allocs => 0,
        Stat::Deallocs => 1,
        Stat::Grows => 2,
        Stat::Shrinks => 3,
        Stat::Owns => 4,
    }
}

fn stat_index(stat: Stat) -> (r: usize)
    ensures
        r == stat_slot(stat),
{
    match stat {
        Stat::Allocs => 0,
        Stat::Deallocs => 1,
        Stat::Grows => 2,
        Stat::Shrinks => 3,
        Stat::Owns => 4,
    }
}

/// Counts the calls made through a [`Proxy`](crate::Proxy).
///
/// Its view lists, in this order, the numbers of allocations (zeroed or not), deallocations,
/// grows (in place or not, zeroed or not), shrinks (in place or not) and ownership queries. The
/// counts wrap on overflow.
#[derive(Debug)]
pub struct Counter {
    stats: [u64; 5],
}

impl View for Counter {
    type V = Seq<u64>;

    closed spec fn view(&self) -> Seq<u64> {
        self.stats@
    }
}

impl Default for Counter {
    fn default() -> (r: Self)
        ensures
            r@ == seq![0u64, 0, 0, 0, 0],
    {
        Self { stats: [0, 0, 0, 0, 0] }
    }
}

impl Counter {
    /// There are five counts.
    pub proof fn lemma_len(&self)
        ensures
            self@.len() == 5,
    {
    }

    fn increment_stat(&mut self, stat: Stat, additional: u64)
        ensures
            final(self)@ == old(self)@.update(
                stat_slot(stat),
                vstd::wrapping::u64_specs::wrapping_add(old(self)@[stat_slot(stat)], additional),
            ),
    {
        let i = stat_index(stat);
        self.stats[i] = self.stats[i].wrapping_add(additional);
    }

    fn get(&self, stat: Stat) -> (r: u64)
        ensures
            r == self@[stat_slot(stat)],
    {
        self.stats[stat_index(stat)]
    }

    /// The number of allocations.
    pub fn num_allocs(&self) -> (r: u64)
        ensures
            r == self@[0],
    {
        self.get(Stat::Allocs)
    }

    /// The number of deallocations.
    pub fn num_deallocs(&self) -> (r: u64)
        ensures
            r == self@[1],
    {
        self.get(Stat::Deallocs)
    }

    /// The number of grows.
    pub fn num_grows(&self) -> (r: u64)
        ensures
            r == self@[2],
    {
        self.get(Stat::Grows)
    }

    /// The number of shrinks.
    pub fn num_shrinks(&self) -> (r: u64)
        ensures
            r == self@[3],
    {
        self.get(Stat::Shrinks)
    }

    /// The number of ownership queries.
    pub fn num_owns(&self) -> (r: u64)
        ensures
            r == self@[4],
    {
        self.get(Stat::Owns)
    }
}

impl CallbackRef for Counter {
    fn before_allocate(&mut self, layout: Layout)
        ensures
            *final(self) == *old(self),
    {
    }

    fn after_allocate(&mut self, layout: Layout, result: AllocResult)
        ensures
            final(self)@ == bump(old(self)@, 0),
    {
        self.increment_stat(Stat::Allocs, 1)
    }

    fn before_allocate_zeroed(&mut self, layout: Layout)
        ensures
            *final(self) == *old(self),
    {
    }

    fn after_allocate_zeroed(&mut self, layout: Layout, result: AllocResult)
        ensures
            final(self)@ == bump(old(self)@, 0),
    {
        self.increment_stat(Stat::Allocs, 1)
    }

    fn before_allocate_all(&mut self)
        ensures
            *final(self) == *old(self),
    {
    }

    fn after_allocate_all(&mut self, result: AllocResult)
        ensures
            *final(self) == *old(self),
    {
    }

    fn before_allocate_all_zeroed(&mut self)
        ensures
            *final(self) == *old(self),
    {
    }

    fn after_allocate_all_zeroed(&mut self, result: AllocResult)
        ensures
            *final(self) == *old(self),
    {
    }

    fn before_deallocate(&mut self, ptr: usize, layout: Layout)
        ensures
            final(self)@ == bump(old(self)@, 1),
    {
        self.increment_stat(Stat::Deallocs, 1)
    }

    fn after_deallocate(&mut self, ptr: usize, layout: Layout)
        ensures
            *final(self) == *old(self),
    {
    }

    fn before_deallocate_all(&mut self)
        ensures
            *final(self) == *old(self),
    {
    }

    fn after_deallocate_all(&mut self)
        ensures
            *final(self) == *old(self),
    {
    }

    fn before_grow(&mut self, ptr: usize, old_layout: Layout, new_layout: Layout)
        ensures
            *final(self) == *old(self),
    {
    }

    fn after_grow(&mut self, ptr: usize, old_layout: Layout, new_layout: Layout, result: AllocResult)
        ensures
            final(self)@ == bump(old(self)@, 2),
    {
        self.increment_stat(Stat::Grows, 1)
    }

    fn before_grow_zeroed(&mut self, ptr: usize, old_layout: Layout, new_layout: Layout)
        ensures
            *final(self) == *old(self),
    {
    }

    fn after_grow_zeroed(&mut self, ptr: usize, old_layout: Layout, new_layout: Layout, result: AllocResult)
        ensures
            final(self)@ == bump(old(self)@, 2),
    {
        self.increment_stat(Stat::Grows, 1)
    }

    fn before_grow_in_place(&mut self, ptr: usize, old_layout: Layout, new_layout: Layout)
        ensures
            *final(self) == *old(self),
    {
    }

    fn after_grow_in_place(&mut self, ptr: usize, old_layout: Layout, new_layout: Layout, result: Result<usize, AllocError>)
        ensures
            final(self)@ == bump(old(self)@, 2),
    {
        self.increment_stat(Stat::Grows, 1)
    }

    fn before_grow_in_place_zeroed(&mut self, ptr: usize, old_layout: Layout, new_layout: Layout)
        ensures
            *final(self) == *old(self),
    {
    }

    fn after_grow_in_place_zeroed(&mut self, ptr: usize, old_layout: Layout, new_layout: Layout, result: Result<usize, AllocError>)
        ensures
            final(self)@ == bump(old(self)@, 2),
    {
        self.increment_stat(Stat::Grows, 1)
    }

    fn before_shrink(&mut self, ptr: usize, old_layout: Layout, new_layout: Layout)
        ensures
            *final(self) == *old(self),
    {
    }

    fn after_shrink(&mut self, ptr: usize, old_layout: Layout, new_layout: Layout, result: AllocResult)
        ensures
            final(self)@ == bump(old(self)@, 3),
    {
        self.increment_stat(Stat::Shrinks, 1)
    }

    fn before_shrink_in_place(&mut self, ptr: usize, old_layout: Layout, new_layout: Layout)
        ensures
            *final(self) == *old(self),
    {
    }

    fn after_shrink_in_place(&mut self, ptr: usize, old_layout: Layout, new_layout: Layout, result: Result<usize, AllocError>)
        ensures
            final(self)@ == bump(old(self)@, 3),
    {
        self.increment_stat(Stat::Shrinks, 1)
    }

    fn before_owns(&mut self)
        ensures
            *final(self) == *old(self),
    {
    }

    fn after_owns(&mut self, success: bool)
        ensures
            final(self)@ == bump(old(self)@, 4),
    {
        self.increment_stat(Stat::Owns, 1)
    }
}

/// A `Counter` behind a [`Proxy`](crate::Proxy) counts an allocation: when the proxy's
/// `allocate` has called the counter's `before_allocate` and then its `after_allocate` with the
/// result, whatever that result is, the number of allocations has grown by one and the other
/// counts are as they were.
pub proof fn lemma_proxy_counts_allocation(
    counter: Counter,
    next: Counter,
    layout: Layout,
    r: AllocResult,
)
    requires
        exists|before: &mut Counter, after: &mut Counter|
            mut_ref_current(before) == counter && mut_ref_future(before) == mut_ref_current(after)
                && mut_ref_future(after) == next && call_ensures(
                Counter::before_allocate,
                (before, layout),
                (),
            ) && call_ensures(Counter::after_allocate, (after, layout, r), ()),
    ensures
        next@ == bump(counter@, 0),
{
    let (before, after) = choose|before: &mut Counter, after: &mut Counter|
        mut_ref_current(before) == counter && mut_ref_future(before) == mut_ref_current(after)
            && mut_ref_future(after) == next && call_ensures(
            Counter::before_allocate,
            (before, layout),
            (),
        ) && call_ensures(Counter::after_allocate, (after, layout, r), ());
}

/// A `Counter` behind a [`Proxy`](crate::Proxy) counts a deallocation: when the proxy's
/// `deallocate` has called the counter's `before_deallocate` and then its `after_deallocate`,
/// the number of deallocations has grown by one and the other counts are as they were.
pub proof fn lemma_proxy_counts_deallocation(
    counter: Counter,
    next: Counter,
    ptr: usize,
    layout: Layout,
)
    requires
        exists|before: &mut Counter, after: &mut Counter|
            mut_ref_current(before) == counter && mut_ref_future(before) == mut_ref_current(after)
                && mut_ref_future(after) == next && call_ensures(
                Counter::before_deallocate,
                (before, ptr, layout),
                (),
            ) && call_ensures(Counter::after_deallocate, (after, ptr, layout), ()),
    ensures
        next@ == bump(counter@, 1),
{
    let (before, after) = choose|before: &mut Counter, after: &mut Counter|
        mut_ref_current(before) == counter && mut_ref_future(before) == mut_ref_current(after)
            && mut_ref_future(after) == next && call_ensures(
            Counter::before_deallocate,
            (before, ptr, layout),
            (),
        ) && call_ensures(Counter::after_deallocate, (after, ptr, layout), ());
}

/// Counts the calls made through a [`Proxy`](crate::Proxy), like [`Counter`].
///
/// Its view lists, in this order, the numbers of allocations (zeroed or not), deallocations,
/// grows (in place or not, zeroed or not), shrinks (in place or not) and ownership queries. The
/// counts wrap on overflow.
#[derive(Debug)]
pub struct AtomicCounter {
    stats: [u64; 5],
}

impl View for AtomicCounter {
    type V = Seq<u64>;

    closed spec fn view(&self) -> Seq<u64> {
        self.stats@
    }
}

impl Default for AtomicCounter {
    fn default() -> (r: Self)
        ensures
            r@ == seq![0u64, 0, 0, 0, 0],
    {
        Self { stats: [0, 0, 0, 0, 0] }
    }
}

impl AtomicCounter {
    /// There are five counts.
    pub proof fn lemma_len(&self)
        ensures
            self@.len() == 5,
    {
    }

    fn increment_stat(&mut self, stat: Stat, additional: u64)
        ensures
            final(self)@ == old(self)@.update(
                stat_slot(stat),
                vstd::wrapping::u64_specs::wrapping_add(old(self)@[stat_slot(stat)], additional),
            ),
    {
        let i = stat_index(stat);
        self.stats[i] = self.stats[i].wrapping_add(additional);
    }

    fn get(&self, stat: Stat) -> (r: u64)
        ensures
            r == self@[stat_slot(stat)],
    {
        self.stats[stat_index(stat)]
    }

    /// The number of allocations.
    pub fn num_allocs(&self) -> (r: u64)
        ensures
            r == self@[0],
    {
        self.get(Stat::Allocs)
    }

    /// The number of deallocations.
    pub fn num_deallocs(&self) -> (r: u64)
        ensures
            r == self@[1],
    {
        self.get(Stat::Deallocs)
    }

    /// The number of grows.
    pub fn num_grows(&self) -> (r: u64)
        ensures
            r == self@[2],
    {
        self.get(Stat::Grows)
    }

    /// The number of shrinks.
    pub fn num_shrinks(&self) -> (r: u64)
        ensures
            r == self@[3],
    {
        self.get(Stat::Shrinks)
    }

    /// The number of ownership queries.
    pub fn num_owns(&self) -> (r: u64)
        ensures
            r == self@[4],
    {
        self.get(Stat::Owns)
    }
}

impl CallbackRef for AtomicCounter {
    fn before_allocate(&mut self, layout: Layout)
        ensures
            *final(self) == *old(self),
    {
    }

    fn after_allocate(&mut self, layout: Layout, result: AllocResult)
        ensures
            final(self)@ == bump(old(self)@, 0),
    {
        self.increment_stat(Stat::Allocs, 1)
    }

    fn before_allocate_zeroed(&mut self, layout: Layout)
        ensures
            *final(self) == *old(self),
    {
    }

    fn after_allocate_zeroed(&mut self, layout: Layout, result: AllocResult)
        ensures
            final(self)@ == bump(old(self)@, 0),
    {
        self.increment_stat(Stat::Allocs, 1)
    }

    fn before_allocate_all(&mut self)
        ensures
            *final(self) == *old(self),
    {
    }

    fn after_allocate_all(&mut self, result: AllocResult)
        ensures
            *final(self) == *old(self),
    {
    }

    fn before_allocate_all_zeroed(&mut self)
        ensures
            *final(self) == *old(self),
    {
    }

    fn after_allocate_all_zeroed(&mut self, result: AllocResult)
        ensures
            *final(self) == *old(self),
    {
    }

    fn before_deallocate(&mut self, ptr: usize, layout: Layout)
        ensures
            final(self)@ == bump(old(self)@, 1),
    {
        self.increment_stat(Stat::Deallocs, 1)
    }

    fn after_deallocate(&mut self, ptr: usize, layout: Layout)
        ensures
            *final(self) == *old(self),
    {
    }

    fn before_deallocate_all(&mut self)
        ensures
            *final(self) == *old(self),
    {
    }

    fn after_deallocate_all(&mut self)
        ensures
            *final(self) == *old(self),
    {
    }

    fn before_grow(&mut self, ptr: usize, old_layout: Layout, new_layout: Layout)
        ensures
            *final(self) == *old(self),
    {
    }

    fn after_grow(&mut self, ptr: usize, old_layout: Layout, new_layout: Layout, result: AllocResult)
        ensures
            final(self)@ == bump(old(self)@, 2),
    {
        self.increment_stat(Stat::Grows, 1)
    }

    fn before_grow_zeroed(&mut self, ptr: usize, old_layout: Layout, new_layout: Layout)
        ensures
            *final(self) == *old(self),
    {
    }

    fn after_grow_zeroed(&mut self, ptr: usize, old_layout: Layout, new_layout: Layout, result: AllocResult)
        ensures
            final(self)@ == bump(old(self)@, 2),
    {
        self.increment_stat(Stat::Grows, 1)
    }

    fn before_grow_in_place(&mut self, ptr: usize, old_layout: Layout, new_layout: Layout)
        ensures
            *final(self) == *old(self),
    {
    }

    fn after_grow_in_place(&mut self, ptr: usize, old_layout: Layout, new_layout: Layout, result: Result<usize, AllocError>)
        ensures
            final(self)@ == bump(old(self)@, 2),
    {
        self.increment_stat(Stat::Grows, 1)
    }

    fn before_grow_in_place_zeroed(&mut self, ptr: usize, old_layout: Layout, new_layout: Layout)
        ensures
            *final(self) == *old(self),
    {
    }

    fn after_grow_in_place_zeroed(&mut self, ptr: usize, old_layout: Layout, new_layout: Layout, result: Result<usize, AllocError>)
        ensures
            final(self)@ == bump(old(self)@, 2),
    {
        self.increment_stat(Stat::Grows, 1)
    }

    fn before_shrink(&mut self, ptr: usize, old_layout: Layout, new_layout: Layout)
        ensures
            *final(self) == *old(self),
    {
    }

    fn after_shrink(&mut self, ptr: usize, old_layout: Layout, new_layout: Layout, result: AllocResult)
        ensures
            final(self)@ == bump(old(self)@, 3),
    {
        self.increment_stat(Stat::Shrinks, 1)
    }

    fn before_shrink_in_place(&mut self, ptr: usize, old_layout: Layout, new_layout: Layout)
        ensures
            *final(self) == *old(self),
    {
    }

    fn after_shrink_in_place(&mut self, ptr: usize, old_layout: Layout, new_layout: Layout, result: Result<usize, AllocError>)
        ensures
            final(self)@ == bump(old(self)@, 3),
    {
        self.increment_stat(Stat::Shrinks, 1)
    }

    fn before_owns(&mut self)
        ensures
            *final(self) == *old(self),
    {
    }

    fn after_owns(&mut self, success: bool)
        ensures
            final(self)@ == bump(old(self)@, 4),
    {
        self.increment_stat(Stat::Owns, 1)
    }
}

impl PartialEq for Counter {
    fn eq(&self, other: &Self) -> (r: bool) {
        same_counts(&self.stats, &other.stats)
    }
}

impl vstd::std_specs::cmp::PartialEqSpecImpl for Counter {
    open spec fn obeys_eq_spec() -> bool {
        true
    }

    open spec fn eq_spec(&self, other: &Self) -> bool {
        self@ == other@
    }
}

impl PartialEq<AtomicCounter> for Counter {
    fn eq(&self, other: &AtomicCounter) -> (r: bool) {
        same_counts(&self.stats, &other.stats)
    }
}

impl vstd::std_specs::cmp::PartialEqSpecImpl<AtomicCounter> for Counter {
    open spec fn obeys_eq_spec() -> bool {
        true
    }

    open spec fn eq_spec(&self, other: &AtomicCounter) -> bool {
        self@ == other@
    }
}

impl PartialEq for AtomicCounter {
    fn eq(&self, other: &Self) -> (r: bool) {
        same_counts(&self.stats, &other.stats)
    }
}

impl vstd::std_specs::cmp::PartialEqSpecImpl for AtomicCounter {
    open spec fn obeys_eq_spec() -> bool {
        true
    }

    open spec fn eq_spec(&self, other: &Self) -> bool {
        self@ == other@
    }
}

impl PartialEq<Counter> for AtomicCounter {
    fn eq(&self, other: &Counter) -> (r: bool) {
        same_counts(&self.stats, &other.stats)
    }
}

impl vstd::std_specs::cmp::PartialEqSpecImpl<Counter> for AtomicCounter {
    open spec fn obeys_eq_spec() -> bool {
        true
    }

    open spec fn eq_spec(&self, other: &Counter) -> bool {
        self@ == other@
    }
}

/// The kinds of calls a [`FilteredCounter`] counts.
#[derive(Copy, Clone, PartialEq, Eq, Structural)]
enum FilteredStat {
    AllocsUninitializedOk,
    AllocsUninitializedErr,
    AllocsZeroedOk,
    AllocsZeroedErr,
    Deallocs,
    GrowsMayMoveUninitializedOk,
    GrowsMayMoveUninitializedErr,
    GrowsInPlaceUninitializedOk,
    GrowsInPlaceUninitializedErr,
    GrowsMayMoveZeroedOk,
    GrowsMayMoveZeroedErr,
    GrowsInPlaceZeroedOk,
    GrowsInPlaceZeroedErr,
    ShrinksMayMoveOk,
    ShrinksMayMoveErr,
    ShrinksInPlaceOk,
    ShrinksInPlaceErr,
    OwnsTrue,
    OwnsFalse,
}

/// The slot of `stat` in the counts.
spec fn filtered_slot(stat: FilteredStat) -> int {
    match stat {
        FilteredStat::AllocsUninitializedOk => 0,
        FilteredStat::AllocsUninitializedErr => 1,
        FilteredStat::AllocsZeroedOk => 2,
        FilteredStat::AllocsZeroedErr => 3,
        FilteredStat::Deallocs => 4,
        FilteredStat::GrowsMayMoveUninitializedOk => 5,
        FilteredStat::GrowsMayMoveUninitializedErr => 6,
        FilteredStat::GrowsInPlaceUninitializedOk => 7,
        FilteredStat::GrowsInPlaceUninitializedErr => 8,
        FilteredStat::GrowsMayMoveZeroedOk => 9,
        FilteredStat::GrowsMayMoveZeroedErr => 10,
        FilteredStat::GrowsInPlaceZeroedOk => 11,
        FilteredStat::GrowsInPlaceZeroedErr => 12,
        FilteredStat::ShrinksMayMoveOk => 13,
        FilteredStat::ShrinksMayMoveErr => 14,
        FilteredStat::ShrinksInPlaceOk => 15,
        FilteredStat::ShrinksInPlaceErr => 16,
        FilteredStat::OwnsTrue => 17,
        FilteredStat::OwnsFalse => 18,
    }
}

fn filtered_index(stat: FilteredStat) -> (r: usize)
    ensures
        r == filtered_slot(stat),
{
    match stat {
        FilteredStat::AllocsUninitializedOk => 0,
        FilteredStat::AllocsUninitializedErr => 1,
        FilteredStat::AllocsZeroedOk => 2,
        FilteredStat::AllocsZeroedErr => 3,
        FilteredStat::Deallocs => 4,
        FilteredStat::GrowsMayMoveUninitializedOk => 5,
        FilteredStat::GrowsMayMoveUninitializedErr => 6,
        FilteredStat::GrowsInPlaceUninitializedOk => 7,
        FilteredStat::GrowsInPlaceUninitializedErr => 8,
        FilteredStat::GrowsMayMoveZeroedOk => 9,
        FilteredStat::GrowsMayMoveZeroedErr => 10,
        FilteredStat::GrowsInPlaceZeroedOk => 11,
        FilteredStat::GrowsInPlaceZeroedErr => 12,
        FilteredStat::ShrinksMayMoveOk => 13,
        FilteredStat::ShrinksMayMoveErr => 14,
        FilteredStat::ShrinksInPlaceOk => 15,
        FilteredStat::ShrinksInPlaceErr => 16,
        FilteredStat::OwnsTrue => 17,
        FilteredStat::OwnsFalse => 18,
    }
}

/// The slot counting allocations initialized as `init` that succeeded or failed.
pub open spec fn alloc_slot(init: AllocInit, ok: bool) -> int {
    match init {
        AllocInit::Uninitialized => if ok { 0 } else { 1 },
        AllocInit::Zeroed => if ok { 2 } else { 3 },
    }
}

/// The slot counting deallocations.
pub open spec fn dealloc_slot() -> int {
    4
}

/// The slot counting grows placed as `placement`, initialized as `init`, that succeeded or
/// failed.
pub open spec fn grow_slot(placement: ReallocPlacement, init: AllocInit, ok: bool) -> int {
    match (placement, init) {
        (ReallocPlacement::MayMove, AllocInit::Uninitialized) => if ok { 5 } else { 6 },
        (ReallocPlacement::InPlace, AllocInit::Uninitialized) => if ok { 7 } else { 8 },
        (ReallocPlacement::MayMove, AllocInit::Zeroed) => if ok { 9 } else { 10 },
        (ReallocPlacement::InPlace, AllocInit::Zeroed) => if ok { 11 } else { 12 },
    }
}

/// The slot counting shrinks placed as `placement` that succeeded or failed.
pub open spec fn shrink_slot(placement: ReallocPlacement, ok: bool) -> int {
    match placement {
        ReallocPlacement::MayMove => if ok { 13 } else { 14 },
        ReallocPlacement::InPlace => if ok { 15 } else { 16 },
    }
}

/// The slot counting ownership queries that answered `success`.
pub open spec fn owns_slot(success: bool) -> int {
    if success { 17 } else { 18 }
}

/// Selects the allocations by how they were initialized; `Any` selects all.
#[derive(Debug, Copy, Clone, PartialEq, Eq, Structural)]
pub enum AllocInitFilter {
    Any,
    Uninitialized,
    Zeroed,
}

impl From<AllocInit> for AllocInitFilter {
    fn from(init: AllocInit) -> (r: Self) {
        match init {
            AllocInit::Uninitialized => Self::Uninitialized,
            AllocInit::Zeroed => Self::Zeroed,
        }
    }
}

impl vstd::std_specs::convert::FromSpecImpl<AllocInit> for AllocInitFilter {
    open spec fn obeys_from_spec() -> bool {
        true
    }

    open spec fn from_spec(init: AllocInit) -> Self {
        match init {
            AllocInit::Uninitialized => AllocInitFilter::Uninitialized,
            AllocInit::Zeroed => AllocInitFilter::Zeroed,
        }
    }
}

impl From<Option<AllocInit>> for AllocInitFilter {
    fn from(init: Option<AllocInit>) -> (r: Self) {
        if let Some(init) = init {
            Self::from(init)
        } else {
            Self::Any
        }
    }
}

impl vstd::std_specs::convert::FromSpecImpl<Option<AllocInit>> for AllocInitFilter {
    open spec fn obeys_from_spec() -> bool {
        true
    }

    open spec fn from_spec(init: Option<AllocInit>) -> Self {
        match init {
            Some(AllocInit::Uninitialized) => AllocInitFilter::Uninitialized,
            Some(AllocInit::Zeroed) => AllocInitFilter::Zeroed,
            None => AllocInitFilter::Any,
        }
    }
}

/// Selects the resizes by their placement; `Any` selects all.
#[derive(Debug, Copy, Clone, PartialEq, Eq, Structural)]
pub enum ReallocPlacementFilter {
    Any,
    MayMove,
    InPlace,
}

impl From<ReallocPlacement> for ReallocPlacementFilter {
    fn from(placement: ReallocPlacement) -> (r: Self) {
        match placement {
            ReallocPlacement::MayMove => Self::MayMove,
            ReallocPlacement::InPlace => Self::InPlace,
        }
    }
}

impl vstd::std_specs::convert::FromSpecImpl<ReallocPlacement> for ReallocPlacementFilter {
    open spec fn obeys_from_spec() -> bool {
        true
    }

    open spec fn from_spec(placement: ReallocPlacement) -> Self {
        match placement {
            ReallocPlacement::MayMove => ReallocPlacementFilter::MayMove,
            ReallocPlacement::InPlace => ReallocPlacementFilter::InPlace,
        }
    }
}

impl From<Option<ReallocPlacement>> for ReallocPlacementFilter {
    fn from(placement: Option<ReallocPlacement>) -> (r: Self) {
        if let Some(placement) = placement {
            Self::from(placement)
        } else {
            Self::Any
        }
    }
}

impl vstd::std_specs::convert::FromSpecImpl<Option<ReallocPlacement>> for ReallocPlacementFilter {
    open spec fn obeys_from_spec() -> bool {
        true
    }

    open spec fn from_spec(placement: Option<ReallocPlacement>) -> Self {
        match placement {
            Some(ReallocPlacement::MayMove) => ReallocPlacementFilter::MayMove,
            Some(ReallocPlacement::InPlace) => ReallocPlacementFilter::InPlace,
            None => ReallocPlacementFilter::Any,
        }
    }
}

/// Selects the calls by their outcome; `Any` selects all.
#[derive(Debug, Copy, Clone, PartialEq, Eq, Structural)]
pub enum ResultFilter {
    Any,
    Success,
    Failure,
}

impl From<bool> for ResultFilter {
    fn from(success: bool) -> (r: Self) {
        if success {
            Self::Success
        } else {
            Self::Failure
        }
    }
}

impl vstd::std_specs::convert::FromSpecImpl<bool> for ResultFilter {
    open spec fn obeys_from_spec() -> bool {
        true
    }

    open spec fn from_spec(success: bool) -> Self {
        if success {
            ResultFilter::Success
        } else {
            ResultFilter::Failure
        }
    }
}

/// 1 for a filter that selects all, 0 otherwise.
pub open spec fn init_weight(f: AllocInitFilter) -> nat {
    if f is Any { 1 } else { 0 }
}

/// 1 for a filter that selects all, 0 otherwise.
pub open spec fn placement_weight(f: ReallocPlacementFilter) -> nat {
    if f is Any { 1 } else { 0 }
}

/// 1 for a filter that selects all, 0 otherwise.
pub open spec fn result_weight(f: ResultFilter) -> nat {
    if f is Any { 1 } else { 0 }
}

/// The number of allocations in `counts` selected by the filters: a filter that selects all
/// adds up the counts it selects, wrapping on overflow.
pub open spec fn allocs_filter(counts: Seq<u64>, init: AllocInitFilter, result: ResultFilter) -> u64
    decreases init_weight(init) + result_weight(result),
{
    match (init, result) {
        (AllocInitFilter::Uninitialized, ResultFilter::Success) => counts[0],
        (AllocInitFilter::Uninitialized, ResultFilter::Failure) => counts[1],
        (AllocInitFilter::Zeroed, ResultFilter::Success) => counts[2],
        (AllocInitFilter::Zeroed, ResultFilter::Failure) => counts[3],
        (AllocInitFilter::Any, r) => vstd::wrapping::u64_specs::wrapping_add(
            allocs_filter(counts, AllocInitFilter::Uninitialized, r),
            allocs_filter(counts, AllocInitFilter::Zeroed, r),
        ),
        (i, ResultFilter::Any) => vstd::wrapping::u64_specs::wrapping_add(
            allocs_filter(counts, i, ResultFilter::Success),
            allocs_filter(counts, i, ResultFilter::Failure),
        ),
    }
}

/// The number of grows in `counts` selected by the filters: a filter that selects all adds up
/// the counts it selects, wrapping on overflow.
pub open spec fn grows_filter(
    counts: Seq<u64>,
    placement: ReallocPlacementFilter,
    init: AllocInitFilter,
    result: ResultFilter,
) -> u64
    decreases placement_weight(placement) + init_weight(init) + result_weight(result),
{
    match (placement, init, result) {
        (ReallocPlacementFilter::MayMove, AllocInitFilter::Uninitialized, ResultFilter::Success) => counts[5],
        (ReallocPlacementFilter::MayMove, AllocInitFilter::Uninitialized, ResultFilter::Failure) => counts[6],
        (ReallocPlacementFilter::MayMove, AllocInitFilter::Zeroed, ResultFilter::Success) => counts[9],
        (ReallocPlacementFilter::MayMove, AllocInitFilter::Zeroed, ResultFilter::Failure) => counts[10],
        (ReallocPlacementFilter::InPlace, AllocInitFilter::Uninitialized, ResultFilter::Success) => counts[7],
        (ReallocPlacementFilter::InPlace, AllocInitFilter::Uninitialized, ResultFilter::Failure) => counts[8],
        (ReallocPlacementFilter::InPlace, AllocInitFilter::Zeroed, ResultFilter::Success) => counts[11],
        (ReallocPlacementFilter::InPlace, AllocInitFilter::Zeroed, ResultFilter::Failure) => counts[12],
        (ReallocPlacementFilter::Any, i, r) => vstd::wrapping::u64_specs::wrapping_add(
            grows_filter(counts, ReallocPlacementFilter::MayMove, i, r),
            grows_filter(counts, ReallocPlacementFilter::InPlace, i, r),
        ),
        (p, AllocInitFilter::Any, r) => vstd::wrapping::u64_specs::wrapping_add(
            grows_filter(counts, p, AllocInitFilter::Uninitialized, r),
            grows_filter(counts, p, AllocInitFilter::Zeroed, r),
        ),
        (p, i, ResultFilter::Any) => vstd::wrapping::u64_specs::wrapping_add(
            grows_filter(counts, p, i, ResultFilter::Success),
            grows_filter(counts, p, i, ResultFilter::Failure),
        ),
    }
}

/// The number of shrinks in `counts` selected by the filters: a filter that selects all adds
/// up the counts it selects, wrapping on overflow.
pub open spec fn shrinks_filter(
    counts: Seq<u64>,
    placement: ReallocPlacementFilter,
    result: ResultFilter,
) -> u64
    decreases placement_weight(placement) + result_weight(result),
{
    match (placement, result) {
        (ReallocPlacementFilter::MayMove, ResultFilter::Success) => counts[13],
        (ReallocPlacementFilter::MayMove, ResultFilter::Failure) => counts[14],
        (ReallocPlacementFilter::InPlace, ResultFilter::Success) => counts[15],
        (ReallocPlacementFilter::InPlace, ResultFilter::Failure) => counts[16],
        (ReallocPlacementFilter::Any, r) => vstd::wrapping::u64_specs::wrapping_add(
            shrinks_filter(counts, ReallocPlacementFilter::MayMove, r),
            shrinks_filter(counts, ReallocPlacementFilter::InPlace, r),
        ),
        (p, ResultFilter::Any) => vstd::wrapping::u64_specs::wrapping_add(
            shrinks_filter(counts, p, ResultFilter::Success),
            shrinks_filter(counts, p, ResultFilter::Failure),
        ),
    }
}

/// Counts the calls made through a [`Proxy`](crate::Proxy), by kind of call and outcome.
///
/// Its view holds one count per kind of call and outcome; [`alloc_slot`], [`dealloc_slot`],
/// [`grow_slot`], [`shrink_slot`] and [`owns_slot`] give their places. The counts wrap on
/// overflow.
#[derive(Debug)]
pub struct FilteredCounter {
    stats: [u64; 19],
}

impl View for FilteredCounter {
    type V = Seq<u64>;

    closed spec fn view(&self) -> Seq<u64> {
        self.stats@
    }
}

impl Default for FilteredCounter {
    fn default() -> (r: Self)
        ensures
            r@ == Seq::new(19, |i: int| 0u64),
    {
        let r = Self { stats: [0, 0, 0, 0, 0, 0, 0, 0, 0, 0, 0, 0, 0, 0, 0, 0, 0, 0, 0] };
        proof {
            assert(r@ =~= Seq::new(19, |i: int| 0u64));
        }
        r
    }
}

impl FilteredCounter {
    /// There are nineteen counts.
    pub proof fn lemma_len(&self)
        ensures
            self@.len() == 19,
    {
    }

    fn increment_stat(&mut self, stat: FilteredStat, additional: u64)
        ensures
            final(self)@ == old(self)@.update(
                filtered_slot(stat),
                vstd::wrapping::u64_specs::wrapping_add(old(self)@[filtered_slot(stat)], additional),
            ),
    {
        let i = filtered_index(stat);
        self.stats[i] = self.stats[i].wrapping_add(additional);
    }

    fn get(&self, stat: FilteredStat) -> (r: u64)
        ensures
            r == self@[filtered_slot(stat)],
    {
        self.stats[filtered_index(stat)]
    }

    /// The number of allocations.
    pub fn num_allocs(&self) -> (r: u64)
        ensures
            r == allocs_filter(self@, AllocInitFilter::Any, ResultFilter::Any),
    {
        self.num_allocs_filter(AllocInitFilter::Any, ResultFilter::Any)
    }

    /// The number of allocations selected by the filters.
    pub fn num_allocs_filter(&self, init: AllocInitFilter, result: ResultFilter) -> (r: u64)
        ensures
            r == allocs_filter(self@, init, result),
        decreases init_weight(init) + result_weight(result),
    {
        match (init, result) {
            (AllocInitFilter::Uninitialized, ResultFilter::Success) => self.get(
                FilteredStat::AllocsUninitializedOk,
            ),
            (AllocInitFilter::Uninitialized, ResultFilter::Failure) => self.get(
                FilteredStat::AllocsUninitializedErr,
            ),
            (AllocInitFilter::Zeroed, ResultFilter::Success) => self.get(FilteredStat::AllocsZeroedOk),
            (AllocInitFilter::Zeroed, ResultFilter::Failure) => self.get(FilteredStat::AllocsZeroedErr),
            (AllocInitFilter::Any, result) => self.num_allocs_filter(
                AllocInitFilter::Uninitialized,
                result,
            ).wrapping_add(self.num_allocs_filter(AllocInitFilter::Zeroed, result)),
            (i, ResultFilter::Any) => self.num_allocs_filter(i, ResultFilter::Success).wrapping_add(
                self.num_allocs_filter(i, ResultFilter::Failure),
            ),
        }
    }

    /// The number of deallocations.
    pub fn num_deallocs(&self) -> (r: u64)
        ensures
            r == self@[dealloc_slot()],
    {
        self.get(FilteredStat::Deallocs)
    }

    /// The number of grows.
    pub fn num_grows(&self) -> (r: u64)
        ensures
            r == grows_filter(
                self@,
                ReallocPlacementFilter::Any,
                AllocInitFilter::Any,
                ResultFilter::Any,
            ),
    {
        self.num_grows_filter(
            ReallocPlacementFilter::Any,
            AllocInitFilter::Any,
            ResultFilter::Any,
        )
    }

    /// The number of grows selected by the filters.
    pub fn num_grows_filter(
        &self,
        placement: ReallocPlacementFilter,
        init: AllocInitFilter,
        result: ResultFilter,
    ) -> (r: u64)
        ensures
            r == grows_filter(self@, placement, init, result),
        decreases placement_weight(placement) + init_weight(init) + result_weight(result),
    {
        match (placement, init, result) {
            (
                ReallocPlacementFilter::MayMove,
                AllocInitFilter::Uninitialized,
                ResultFilter::Success,
            ) => self.get(FilteredStat::GrowsMayMoveUninitializedOk),
            (
                ReallocPlacementFilter::MayMove,
                AllocInitFilter::Uninitialized,
                ResultFilter::Failure,
            ) => self.get(FilteredStat::GrowsMayMoveUninitializedErr),
            (ReallocPlacementFilter::MayMove, AllocInitFilter::Zeroed, ResultFilter::Success) => self.get(
                FilteredStat::GrowsMayMoveZeroedOk,
            ),
            (ReallocPlacementFilter::MayMove, AllocInitFilter::Zeroed, ResultFilter::Failure) => self.get(
                FilteredStat::GrowsMayMoveZeroedErr,
            ),
            (
                ReallocPlacementFilter::InPlace,
                AllocInitFilter::Uninitialized,
                ResultFilter::Success,
            ) => self.get(FilteredStat::GrowsInPlaceUninitializedOk),
            (
                ReallocPlacementFilter::InPlace,
                AllocInitFilter::Uninitialized,
                ResultFilter::Failure,
            ) => self.get(FilteredStat::GrowsInPlaceUninitializedErr),
            (ReallocPlacementFilter::InPlace, AllocInitFilter::Zeroed, ResultFilter::Success) => self.get(
                FilteredStat::GrowsInPlaceZeroedOk,
            ),
            (ReallocPlacementFilter::InPlace, AllocInitFilter::Zeroed, ResultFilter::Failure) => self.get(
                FilteredStat::GrowsInPlaceZeroedErr,
            ),
            (ReallocPlacementFilter::Any, i, result) => self.num_grows_filter(
                ReallocPlacementFilter::MayMove,
                i,
                result,
            ).wrapping_add(self.num_grows_filter(ReallocPlacementFilter::InPlace, i, result)),
            (p, AllocInitFilter::Any, result) => self.num_grows_filter(
                p,
                AllocInitFilter::Uninitialized,
                result,
            ).wrapping_add(self.num_grows_filter(p, AllocInitFilter::Zeroed, result)),
            (p, i, ResultFilter::Any) => self.num_grows_filter(p, i, ResultFilter::Success).wrapping_add(
                self.num_grows_filter(p, i, ResultFilter::Failure),
            ),
        }
    }

    /// The number of shrinks.
    pub fn num_shrinks(&self) -> (r: u64)
        ensures
            r == shrinks_filter(self@, ReallocPlacementFilter::Any, ResultFilter::Any),
    {
        self.num_shrinks_filter(ReallocPlacementFilter::Any, ResultFilter::Any)
    }

    /// The number of shrinks selected by the filters.
    pub fn num_shrinks_filter(&self, placement: ReallocPlacementFilter, result: ResultFilter) -> (r:
        u64)
        ensures
            r == shrinks_filter(self@, placement, result),
        decreases placement_weight(placement) + result_weight(result),
    {
        match (placement, result) {
            (ReallocPlacementFilter::MayMove, ResultFilter::Success) => self.get(
                FilteredStat::ShrinksMayMoveOk,
            ),
            (ReallocPlacementFilter::MayMove, ResultFilter::Failure) => self.get(
                FilteredStat::ShrinksMayMoveErr,
            ),
            (ReallocPlacementFilter::InPlace, ResultFilter::Success) => self.get(
                FilteredStat::ShrinksInPlaceOk,
            ),
            (ReallocPlacementFilter::InPlace, ResultFilter::Failure) => self.get(
                FilteredStat::ShrinksInPlaceErr,
            ),
            (ReallocPlacementFilter::Any, result) => self.num_shrinks_filter(
                ReallocPlacementFilter::MayMove,
                result,
            ).wrapping_add(self.num_shrinks_filter(ReallocPlacementFilter::InPlace, result)),
            (p, ResultFilter::Any) => self.num_shrinks_filter(p, ResultFilter::Success).wrapping_add(
                self.num_shrinks_filter(p, ResultFilter::Failure),
            ),
        }
    }

    /// The number of ownership queries.
    pub fn num_owns(&self) -> (r: u64)
        ensures
            r == vstd::wrapping::u64_specs::wrapping_add(self@[owns_slot(true)], self@[owns_slot(false)]),
    {
        self.num_owns_filter(true).wrapping_add(self.num_owns_filter(false))
    }

    /// The number of ownership queries that answered `success`.
    pub fn num_owns_filter(&self, success: bool) -> (r: u64)
        ensures
            r == self@[owns_slot(success)],
    {
        if success {
            self.get(FilteredStat::OwnsTrue)
        } else {
            self.get(FilteredStat::OwnsFalse)
        }
    }
}

impl CallbackRef for FilteredCounter {
    fn before_allocate(&mut self, layout: Layout)
        ensures
            *final(self) == *old(self),
    {
    }

    fn after_allocate(&mut self, layout: Layout, result: AllocResult)
        ensures
            final(self)@ == bump(old(self)@, alloc_slot(AllocInit::Uninitialized, result is Ok)),
    {
        let stat = match result {
            Ok(_) => FilteredStat::AllocsUninitializedOk,
            Err(_) => FilteredStat::AllocsUninitializedErr,
        };
        self.increment_stat(stat, 1)
    }

    fn before_allocate_zeroed(&mut self, layout: Layout)
        ensures
            *final(self) == *old(self),
    {
    }

    fn after_allocate_zeroed(&mut self, layout: Layout, result: AllocResult)
        ensures
            final(self)@ == bump(old(self)@, alloc_slot(AllocInit::Zeroed, result is Ok)),
    {
        let stat = match result {
            Ok(_) => FilteredStat::AllocsZeroedOk,
            Err(_) => FilteredStat::AllocsZeroedErr,
        };
        self.increment_stat(stat, 1)
    }

    fn before_allocate_all(&mut self)
        ensures
            *final(self) == *old(self),
    {
    }

    fn after_allocate_all(&mut self, result: AllocResult)
        ensures
            *final(self) == *old(self),
    {
    }

    fn before_allocate_all_zeroed(&mut self)
        ensures
            *final(self) == *old(self),
    {
    }

    fn after_allocate_all_zeroed(&mut self, result: AllocResult)
        ensures
            *final(self) == *old(self),
    {
    }

    fn before_deallocate(&mut self, ptr: usize, layout: Layout)
        ensures
            final(self)@ == bump(old(self)@, dealloc_slot()),
    {
        let stat = FilteredStat::Deallocs;
        self.increment_stat(stat, 1)
    }

    fn after_deallocate(&mut self, ptr: usize, layout: Layout)
        ensures
            *final(self) == *old(self),
    {
    }

    fn before_deallocate_all(&mut self)
        ensures
            *final(self) == *old(self),
    {
    }

    fn after_deallocate_all(&mut self)
        ensures
            *final(self) == *old(self),
    {
    }

    fn before_grow(&mut self, ptr: usize, old_layout: Layout, new_layout: Layout)
        ensures
            *final(self) == *old(self),
    {
    }

    fn after_grow(&mut self, ptr: usize, old_layout: Layout, new_layout: Layout, result: AllocResult)
        ensures
            final(self)@ == bump(old(self)@, grow_slot(ReallocPlacement::MayMove, AllocInit::Uninitialized, result is Ok)),
    {
        let stat = match result {
            Ok(_) => FilteredStat::GrowsMayMoveUninitializedOk,
            Err(_) => FilteredStat::GrowsMayMoveUninitializedErr,
        };
        self.increment_stat(stat, 1)
    }

    fn before_grow_zeroed(&mut self, ptr: usize, old_layout: Layout, new_layout: Layout)
        ensures
            *final(self) == *old(self),
    {
    }

    fn after_grow_zeroed(&mut self, ptr: usize, old_layout: Layout, new_layout: Layout, result: AllocResult)
        ensures
            final(self)@ == bump(old(self)@, grow_slot(ReallocPlacement::MayMove, AllocInit::Zeroed, result is Ok)),
    {
        let stat = match result {
            Ok(_) => FilteredStat::GrowsMayMoveZeroedOk,
            Err(_) => FilteredStat::GrowsMayMoveZeroedErr,
        };
        self.increment_stat(stat, 1)
    }

    fn before_grow_in_place(&mut self, ptr: usize, old_layout: Layout, new_layout: Layout)
        ensures
            *final(self) == *old(self),
    {
    }

    fn after_grow_in_place(&mut self, ptr: usize, old_layout: Layout, new_layout: Layout, result: Result<usize, AllocError>)
        ensures
            final(self)@ == bump(old(self)@, grow_slot(ReallocPlacement::InPlace, AllocInit::Uninitialized, result is Ok)),
    {
        let stat = match result {
            Ok(_) => FilteredStat::GrowsInPlaceUninitializedOk,
            Err(_) => FilteredStat::GrowsInPlaceUninitializedErr,
        };
        self.increment_stat(stat, 1)
    }

    fn before_grow_in_place_zeroed(&mut self, ptr: usize, old_layout: Layout, new_layout: Layout)
        ensures
            *final(self) == *old(self),
    {
    }

    fn after_grow_in_place_zeroed(&mut self, ptr: usize, old_layout: Layout, new_layout: Layout, result: Result<usize, AllocError>)
        ensures
            final(self)@ == bump(old(self)@, grow_slot(ReallocPlacement::InPlace, AllocInit::Zeroed, result is Ok)),
    {
        let stat = match result {
            Ok(_) => FilteredStat::GrowsInPlaceZeroedOk,
            Err(_) => FilteredStat::GrowsInPlaceZeroedErr,
        };
        self.increment_stat(stat, 1)
    }

    fn before_shrink(&mut self, ptr: usize, old_layout: Layout, new_layout: Layout)
        ensures
            *final(self) == *old(self),
    {
    }

    fn after_shrink(&mut self, ptr: usize, old_layout: Layout, new_layout: Layout, result: AllocResult)
        ensures
            final(self)@ == bump(old(self)@, shrink_slot(ReallocPlacement::MayMove, result is Ok)),
    {
        let stat = match result {
            Ok(_) => FilteredStat::ShrinksMayMoveOk,
            Err(_) => FilteredStat::ShrinksMayMoveErr,
        };
        self.increment_stat(stat, 1)
    }

    fn before_shrink_in_place(&mut self, ptr: usize, old_layout: Layout, new_layout: Layout)
        ensures
            *final(self) == *old(self),
    {
    }

    fn after_shrink_in_place(&mut self, ptr: usize, old_layout: Layout, new_layout: Layout, result: Result<usize, AllocError>)
        ensures
            final(self)@ == bump(old(self)@, shrink_slot(ReallocPlacement::InPlace, result is Ok)),
    {
        let stat = match result {
            Ok(_) => FilteredStat::ShrinksInPlaceOk,
            Err(_) => FilteredStat::ShrinksInPlaceErr,
        };
        self.increment_stat(stat, 1)
    }

    fn before_owns(&mut self)
        ensures
            *final(self) == *old(self),
    {
    }

    fn after_owns(&mut self, success: bool)
        ensures
            final(self)@ == bump(old(self)@, owns_slot(success)),
    {
        let stat = if success {
            FilteredStat::OwnsTrue
        } else {
            FilteredStat::OwnsFalse
        };
        self.increment_stat(stat, 1)
    }
}

/// Counts the calls made through a [`Proxy`](crate::Proxy) by kind of call and outcome, like
/// [`FilteredCounter`].
///
/// Its view holds one count per kind of call and outcome; [`alloc_slot`], [`dealloc_slot`],
/// [`grow_slot`], [`shrink_slot`] and [`owns_slot`] give their places. The counts wrap on
/// overflow.
#[derive(Debug)]
pub struct FilteredAtomicCounter {
    stats: [u64; 19],
}

impl View for FilteredAtomicCounter {
    type V = Seq<u64>;

    closed spec fn view(&self) -> Seq<u64> {
        self.stats@
    }
}

impl Default for FilteredAtomicCounter {
    fn default() -> (r: Self)
        ensures
            r@ == Seq::new(19, |i: int| 0u64),
    {
        let r = Self { stats: [0, 0, 0, 0, 0, 0, 0, 0, 0, 0, 0, 0, 0, 0, 0, 0, 0, 0, 0] };
        proof {
            assert(r@ =~= Seq::new(19, |i: int| 0u64));
        }
        r
    }
}

impl FilteredAtomicCounter {
    /// There are nineteen counts.
    pub proof fn lemma_len(&self)
        ensures
            self@.len() == 19,
    {
    }

    fn increment_stat(&mut self, stat: FilteredStat, additional: u64)
        ensures
            final(self)@ == old(self)@.update(
                filtered_slot(stat),
                vstd::wrapping::u64_specs::wrapping_add(old(self)@[filtered_slot(stat)], additional),
            ),
    {
        let i = filtered_index(stat);
        self.stats[i] = self.stats[i].wrapping_add(additional);
    }

    fn get(&self, stat: FilteredStat) -> (r: u64)
        ensures
            r == self@[filtered_slot(stat)],
    {
        self.stats[filtered_index(stat)]
    }

    /// The number of allocations.
    pub fn num_allocs(&self) -> (r: u64)
        ensures
            r == allocs_filter(self@, AllocInitFilter::Any, ResultFilter::Any),
    {
        self.num_allocs_filter(AllocInitFilter::Any, ResultFilter::Any)
    }

    /// The number of allocations selected by the filters.
    pub fn num_allocs_filter(&self, init: AllocInitFilter, result: ResultFilter) -> (r: u64)
        ensures
            r == allocs_filter(self@, init, result),
        decreases init_weight(init) + result_weight(result),
    {
        match (init, result) {
            (AllocInitFilter::Uninitialized, ResultFilter::Success) => self.get(
                FilteredStat::AllocsUninitializedOk,
            ),
            (AllocInitFilter::Uninitialized, ResultFilter::Failure) => self.get(
                FilteredStat::AllocsUninitializedErr,
            ),
            (AllocInitFilter::Zeroed, ResultFilter::Success) => self.get(FilteredStat::AllocsZeroedOk),
            (AllocInitFilter::Zeroed, ResultFilter::Failure) => self.get(FilteredStat::AllocsZeroedErr),
            (AllocInitFilter::Any, result) => self.num_allocs_filter(
                AllocInitFilter::Uninitialized,
                result,
            ).wrapping_add(self.num_allocs_filter(AllocInitFilter::Zeroed, result)),
            (i, ResultFilter::Any) => self.num_allocs_filter(i, ResultFilter::Success).wrapping_add(
                self.num_allocs_filter(i, ResultFilter::Failure),
            ),
        }
    }

    /// The number of deallocations.
    pub fn num_deallocs(&self) -> (r: u64)
        ensures
            r == self@[dealloc_slot()],
    {
        self.get(FilteredStat::Deallocs)
    }

    /// The number of grows.
    pub fn num_grows(&self) -> (r: u64)
        ensures
            r == grows_filter(
                self@,
                ReallocPlacementFilter::Any,
                AllocInitFilter::Any,
                ResultFilter::Any,
            ),
    {
        self.num_grows_filter(
            ReallocPlacementFilter::Any,
            AllocInitFilter::Any,
            ResultFilter::Any,
        )
    }

    /// The number of grows selected by the filters.
    pub fn num_grows_filter(
        &self,
        placement: ReallocPlacementFilter,
        init: AllocInitFilter,
        result: ResultFilter,
    ) -> (r: u64)
        ensures
            r == grows_filter(self@, placement, init, result),
        decreases placement_weight(placement) + init_weight(init) + result_weight(result),
    {
        match (placement, init, result) {
            (
                ReallocPlacementFilter::MayMove,
                AllocInitFilter::Uninitialized,
                ResultFilter::Success,
            ) => self.get(FilteredStat::GrowsMayMoveUninitializedOk),
            (
                ReallocPlacementFilter::MayMove,
                AllocInitFilter::Uninitialized,
                ResultFilter::Failure,
            ) => self.get(FilteredStat::GrowsMayMoveUninitializedErr),
            (ReallocPlacementFilter::MayMove, AllocInitFilter::Zeroed, ResultFilter::Success) => self.get(
                FilteredStat::GrowsMayMoveZeroedOk,
            ),
            (ReallocPlacementFilter::MayMove, AllocInitFilter::Zeroed, ResultFilter::Failure) => self.get(
                FilteredStat::GrowsMayMoveZeroedErr,
            ),
            (
                ReallocPlacementFilter::InPlace,
                AllocInitFilter::Uninitialized,
                ResultFilter::Success,
            ) => self.get(FilteredStat::GrowsInPlaceUninitializedOk),
            (
                ReallocPlacementFilter::InPlace,
                AllocInitFilter::Uninitialized,
                ResultFilter::Failure,
            ) => self.get(FilteredStat::GrowsInPlaceUninitializedErr),
            (ReallocPlacementFilter::InPlace, AllocInitFilter::Zeroed, ResultFilter::Success) => self.get(
                FilteredStat::GrowsInPlaceZeroedOk,
            ),
            (ReallocPlacementFilter::InPlace, AllocInitFilter::Zeroed, ResultFilter::Failure) => self.get(
                FilteredStat::GrowsInPlaceZeroedErr,
            ),
            (ReallocPlacementFilter::Any, i, result) => self.num_grows_filter(
                ReallocPlacementFilter::MayMove,
                i,
                result,
            ).wrapping_add(self.num_grows_filter(ReallocPlacementFilter::InPlace, i, result)),
            (p, AllocInitFilter::Any, result) => self.num_grows_filter(
                p,
                AllocInitFilter::Uninitialized,
                result,
            ).wrapping_add(self.num_grows_filter(p, AllocInitFilter::Zeroed, result)),
            (p, i, ResultFilter::Any) => self.num_grows_filter(p, i, ResultFilter::Success).wrapping_add(
                self.num_grows_filter(p, i, ResultFilter::Failure),
            ),
        }
    }

    /// The number of shrinks.
    pub fn num_shrinks(&self) -> (r: u64)
        ensures
            r == shrinks_filter(self@, ReallocPlacementFilter::Any, ResultFilter::Any),
    {
        self.num_shrinks_filter(ReallocPlacementFilter::Any, ResultFilter::Any)
    }

    /// The number of shrinks selected by the filters.
    pub fn num_shrinks_filter(&self, placement: ReallocPlacementFilter, result: ResultFilter) -> (r:
        u64)
        ensures
            r == shrinks_filter(self@, placement, result),
        decreases placement_weight(placement) + result_weight(result),
    {
        match (placement, result) {
            (ReallocPlacementFilter::MayMove, ResultFilter::Success) => self.get(
                FilteredStat::ShrinksMayMoveOk,
            ),
            (ReallocPlacementFilter::MayMove, ResultFilter::Failure) => self.get(
                FilteredStat::ShrinksMayMoveErr,
            ),
            (ReallocPlacementFilter::InPlace, ResultFilter::Success) => self.get(
                FilteredStat::ShrinksInPlaceOk,
            ),
            (ReallocPlacementFilter::InPlace, ResultFilter::Failure) => self.get(
                FilteredStat::ShrinksInPlaceErr,
            ),
            (ReallocPlacementFilter::Any, result) => self.num_shrinks_filter(
                ReallocPlacementFilter::MayMove,
                result,
            ).wrapping_add(self.num_shrinks_filter(ReallocPlacementFilter::InPlace, result)),
            (p, ResultFilter::Any) => self.num_shrinks_filter(p, ResultFilter::Success).wrapping_add(
                self.num_shrinks_filter(p, ResultFilter::Failure),
            ),
        }
    }

    /// The number of ownership queries.
    pub fn num_owns(&self) -> (r: u64)
        ensures
            r == vstd::wrapping::u64_specs::wrapping_add(self@[owns_slot(true)], self@[owns_slot(false)]),
    {
        self.num_owns_filter(true).wrapping_add(self.num_owns_filter(false))
    }

    /// The number of ownership queries that answered `success`.
    pub fn num_owns_filter(&self, success: bool) -> (r: u64)
        ensures
            r == self@[owns_slot(success)],
    {
        if success {
            self.get(FilteredStat::OwnsTrue)
        } else {
            self.get(FilteredStat::OwnsFalse)
        }
    }
}

impl CallbackRef for FilteredAtomicCounter {
    fn before_allocate(&mut self, layout: Layout)
        ensures
            *final(self) == *old(self),
    {
    }

    fn after_allocate(&mut self, layout: Layout, result: AllocResult)
        ensures
            final(self)@ == bump(old(self)@, alloc_slot(AllocInit::Uninitialized, result is Ok)),
    {
        let stat = match result {
            Ok(_) => FilteredStat::AllocsUninitializedOk,
            Err(_) => FilteredStat::AllocsUninitializedErr,
        };
        self.increment_stat(stat, 1)
    }

    fn before_allocate_zeroed(&mut self, layout: Layout)
        ensures
            *final(self) == *old(self),
    {
    }

    fn after_allocate_zeroed(&mut self, layout: Layout, result: AllocResult)
        ensures
            final(self)@ == bump(old(self)@, alloc_slot(AllocInit::Zeroed, result is Ok)),
    {
        let stat = match result {
            Ok(_) => FilteredStat::AllocsZeroedOk,
            Err(_) => FilteredStat::AllocsZeroedErr,
        };
        self.increment_stat(stat, 1)
    }

    fn before_allocate_all(&mut self)
        ensures
            *final(self) == *old(self),
    {
    }

    fn after_allocate_all(&mut self, result: AllocResult)
        ensures
            *final(self) == *old(self),
    {
    }

    fn before_allocate_all_zeroed(&mut self)
        ensures
            *final(self) == *old(self),
    {
    }

    fn after_allocate_all_zeroed(&mut self, result: AllocResult)
        ensures
            *final(self) == *old(self),
    {
    }

    fn before_deallocate(&mut self, ptr: usize, layout: Layout)
        ensures
            final(self)@ == bump(old(self)@, dealloc_slot()),
    {
        let stat = FilteredStat::Deallocs;
        self.increment_stat(stat, 1)
    }

    fn after_deallocate(&mut self, ptr: usize, layout: Layout)
        ensures
            *final(self) == *old(self),
    {
    }

    fn before_deallocate_all(&mut self)
        ensures
            *final(self) == *old(self),
    {
    }

    fn after_deallocate_all(&mut self)
        ensures
            *final(self) == *old(self),
    {
    }

    fn before_grow(&mut self, ptr: usize, old_layout: Layout, new_layout: Layout)
        ensures
            *final(self) == *old(self),
    {
    }

    fn after_grow(&mut self, ptr: usize, old_layout: Layout, new_layout: Layout, result: AllocResult)
        ensures
            final(self)@ == bump(old(self)@, grow_slot(ReallocPlacement::MayMove, AllocInit::Uninitialized, result is Ok)),
    {
        let stat = match result {
            Ok(_) => FilteredStat::GrowsMayMoveUninitializedOk,
            Err(_) => FilteredStat::GrowsMayMoveUninitializedErr,
        };
        self.increment_stat(stat, 1)
    }

    fn before_grow_zeroed(&mut self, ptr: usize, old_layout: Layout, new_layout: Layout)
        ensures
            *final(self) == *old(self),
    {
    }

    fn after_grow_zeroed(&mut self, ptr: usize, old_layout: Layout, new_layout: Layout, result: AllocResult)
        ensures
            final(self)@ == bump(old(self)@, grow_slot(ReallocPlacement::MayMove, AllocInit::Zeroed, result is Ok)),
    {
        let stat = match result {
            Ok(_) => FilteredStat::GrowsMayMoveZeroedOk,
            Err(_) => FilteredStat::GrowsMayMoveZeroedErr,
        };
        self.increment_stat(stat, 1)
    }

    fn before_grow_in_place(&mut self, ptr: usize, old_layout: Layout, new_layout: Layout)
        ensures
            *final(self) == *old(self),
    {
    }

    fn after_grow_in_place(&mut self, ptr: usize, old_layout: Layout, new_layout: Layout, result: Result<usize, AllocError>)
        ensures
            final(self)@ == bump(old(self)@, grow_slot(ReallocPlacement::InPlace, AllocInit::Uninitialized, result is Ok)),
    {
        let stat = match result {
            Ok(_) => FilteredStat::GrowsInPlaceUninitializedOk,
            Err(_) => FilteredStat::GrowsInPlaceUninitializedErr,
        };
        self.increment_stat(stat, 1)
    }

    fn before_grow_in_place_zeroed(&mut self, ptr: usize, old_layout: Layout, new_layout: Layout)
        ensures
            *final(self) == *old(self),
    {
    }

    fn after_grow_in_place_zeroed(&mut self, ptr: usize, old_layout: Layout, new_layout: Layout, result: Result<usize, AllocError>)
        ensures
            final(self)@ == bump(old(self)@, grow_slot(ReallocPlacement::InPlace, AllocInit::Zeroed, result is Ok)),
    {
        let stat = match result {
            Ok(_) => FilteredStat::GrowsInPlaceZeroedOk,
            Err(_) => FilteredStat::GrowsInPlaceZeroedErr,
        };
        self.increment_stat(stat, 1)
    }

    fn before_shrink(&mut self, ptr: usize, old_layout: Layout, new_layout: Layout)
        ensures
            *final(self) == *old(self),
    {
    }

    fn after_shrink(&mut self, ptr: usize, old_layout: Layout, new_layout: Layout, result: AllocResult)
        ensures
            final(self)@ == bump(old(self)@, shrink_slot(ReallocPlacement::MayMove, result is Ok)),
    {
        let stat = match result {
            Ok(_) => FilteredStat::ShrinksMayMoveOk,
            Err(_) => FilteredStat::ShrinksMayMoveErr,
        };
        self.increment_stat(stat, 1)
    }

    fn before_shrink_in_place(&mut self, ptr: usize, old_layout: Layout, new_layout: Layout)
        ensures
            *final(self) == *old(self),
    {
    }

    fn after_shrink_in_place(&mut self, ptr: usize, old_layout: Layout, new_layout: Layout, result: Result<usize, AllocError>)
        ensures
            final(self)@ == bump(old(self)@, shrink_slot(ReallocPlacement::InPlace, result is Ok)),
    {
        let stat = match result {
            Ok(_) => FilteredStat::ShrinksInPlaceOk,
            Err(_) => FilteredStat::ShrinksInPlaceErr,
        };
        self.increment_stat(stat, 1)
    }

    fn before_owns(&mut self)
        ensures
            *final(self) == *old(self),
    {
    }

    fn after_owns(&mut self, success: bool)
        ensures
            final(self)@ == bump(old(self)@, owns_slot(success)),
    {
        let stat = if success {
            FilteredStat::OwnsTrue
        } else {
            FilteredStat::OwnsFalse
        };
        self.increment_stat(stat, 1)
    }
}

impl PartialEq for FilteredCounter {
    fn eq(&self, other: &Self) -> (r: bool) {
        same_counts(&self.stats, &other.stats)
    }
}

impl vstd::std_specs::cmp::PartialEqSpecImpl for FilteredCounter {
    open spec fn obeys_eq_spec() -> bool {
        true
    }

    open spec fn eq_spec(&self, other: &Self) -> bool {
        self@ == other@
    }
}

impl PartialEq<FilteredAtomicCounter> for FilteredCounter {
    fn eq(&self, other: &FilteredAtomicCounter) -> (r: bool) {
        same_counts(&self.stats, &other.stats)
    }
}

impl vstd::std_specs::cmp::PartialEqSpecImpl<FilteredAtomicCounter> for FilteredCounter {
    open spec fn obeys_eq_spec() -> bool {
        true
    }

    open spec fn eq_spec(&self, other: &FilteredAtomicCounter) -> bool {
        self@ == other@
    }
}

impl PartialEq for FilteredAtomicCounter {
    fn eq(&self, other: &Self) -> (r: bool) {
        same_counts(&self.stats, &other.stats)
    }
}

impl vstd::std_specs::cmp::PartialEqSpecImpl for FilteredAtomicCounter {
    open spec fn obeys_eq_spec() -> bool {
        true
    }

    open spec fn eq_spec(&self, other: &Self) -> bool {
        self@ == other@
    }
}

impl PartialEq<FilteredCounter> for FilteredAtomicCounter {
    fn eq(&self, other: &FilteredCounter) -> (r: bool) {
        same_counts(&self.stats, &other.stats)
    }
}

impl vstd::std_specs::cmp::PartialEqSpecImpl<FilteredCounter> for FilteredAtomicCounter {
    open spec fn obeys_eq_spec() -> bool {
        true
    }

    open spec fn eq_spec(&self, other: &FilteredCounter) -> bool {
        self@ == other@
    }
}

/// Adding one first or last gives the same wrapping sum.
proof fn lemma_add_one_left(x: u64, y: u64)
    ensures
        vstd::wrapping::u64_specs::wrapping_add(vstd::wrapping::u64_specs::wrapping_add(x, 1), y) == vstd::wrapping::u64_specs::wrapping_add(vstd::wrapping::u64_specs::wrapping_add(x, y), 1),
{
}

/// Adding one first or last gives the same wrapping sum.
proof fn lemma_add_one_right(x: u64, y: u64)
    ensures
        vstd::wrapping::u64_specs::wrapping_add(x, vstd::wrapping::u64_specs::wrapping_add(y, 1)) == vstd::wrapping::u64_specs::wrapping_add(vstd::wrapping::u64_specs::wrapping_add(x, y), 1),
{
}

/// The number of allocations counts every allocation, whatever its initialization and
/// outcome: it is the sum of the four counts of allocations, wrapping on overflow.
pub proof fn lemma_allocs_total(counts: Seq<u64>)
    requires
        counts.len() == 19,
    ensures
        allocs_filter(counts, AllocInitFilter::Any, ResultFilter::Any) == vstd::wrapping::u64_specs::wrapping_add(
            vstd::wrapping::u64_specs::wrapping_add(counts[0], counts[1]),
            vstd::wrapping::u64_specs::wrapping_add(counts[2], counts[3]),
        ),
{
    reveal_with_fuel(allocs_filter, 3);
}

/// Counting an allocation adds one to the number of allocations, and leaves the numbers of
/// deallocations, grows, shrinks and ownership queries as they are.
pub proof fn lemma_alloc_counted_once(counts: Seq<u64>, init: AllocInit, ok: bool)
    requires
        counts.len() == 19,
    ensures
        allocs_filter(bump(counts, alloc_slot(init, ok)), AllocInitFilter::Any, ResultFilter::Any)
            == vstd::wrapping::u64_specs::wrapping_add(allocs_filter(counts, AllocInitFilter::Any, ResultFilter::Any), 1),
        bump(counts, alloc_slot(init, ok))[dealloc_slot()] == counts[dealloc_slot()],
        grows_filter(
            bump(counts, alloc_slot(init, ok)),
            ReallocPlacementFilter::Any,
            AllocInitFilter::Any,
            ResultFilter::Any,
        ) == grows_filter(
            counts,
            ReallocPlacementFilter::Any,
            AllocInitFilter::Any,
            ResultFilter::Any,
        ),
        shrinks_filter(
            bump(counts, alloc_slot(init, ok)),
            ReallocPlacementFilter::Any,
            ResultFilter::Any,
        ) == shrinks_filter(counts, ReallocPlacementFilter::Any, ResultFilter::Any),
        bump(counts, alloc_slot(init, ok))[owns_slot(true)] == counts[owns_slot(true)],
        bump(counts, alloc_slot(init, ok))[owns_slot(false)] == counts[owns_slot(false)],
{
    let c = bump(counts, alloc_slot(init, ok));
    lemma_allocs_total(counts);
    lemma_allocs_total(c);
    reveal_with_fuel(grows_filter, 4);
    reveal_with_fuel(shrinks_filter, 3);
    lemma_add_one_left(counts[0], counts[1]);
    lemma_add_one_right(counts[0], counts[1]);
    lemma_add_one_left(counts[2], counts[3]);
    lemma_add_one_right(counts[2], counts[3]);
    lemma_add_one_left(vstd::wrapping::u64_specs::wrapping_add(counts[0], counts[1]), vstd::wrapping::u64_specs::wrapping_add(counts[2], counts[3]));
    lemma_add_one_right(vstd::wrapping::u64_specs::wrapping_add(counts[0], counts[1]), vstd::wrapping::u64_specs::wrapping_add(counts[2], counts[3]));
}

/// The number of grows counts every grow, whatever its placement, initialization and outcome:
/// it is the sum of the eight counts of grows, wrapping on overflow.
pub proof fn lemma_grows_total(counts: Seq<u64>)
    requires
        counts.len() == 19,
    ensures
        grows_filter(counts, ReallocPlacementFilter::Any, AllocInitFilter::Any, ResultFilter::Any)
            == vstd::wrapping::u64_specs::wrapping_add(
            vstd::wrapping::u64_specs::wrapping_add(vstd::wrapping::u64_specs::wrapping_add(counts[5], counts[6]), vstd::wrapping::u64_specs::wrapping_add(counts[9], counts[10])),
            vstd::wrapping::u64_specs::wrapping_add(vstd::wrapping::u64_specs::wrapping_add(counts[7], counts[8]), vstd::wrapping::u64_specs::wrapping_add(counts[11], counts[12])),
        ),
{
    reveal_with_fuel(grows_filter, 4);
}

/// The number of shrinks counts every shrink, whatever its placement and outcome: it is the
/// sum of the four counts of shrinks, wrapping on overflow.
pub proof fn lemma_shrinks_total(counts: Seq<u64>)
    requires
        counts.len() == 19,
    ensures
        shrinks_filter(counts, ReallocPlacementFilter::Any, ResultFilter::Any) == vstd::wrapping::u64_specs::wrapping_add(
            vstd::wrapping::u64_specs::wrapping_add(counts[13], counts[14]),
            vstd::wrapping::u64_specs::wrapping_add(counts[15], counts[16]),
        ),
{
    reveal_with_fuel(shrinks_filter, 3);
}

/// Counting a grow adds one to the number of grows, and leaves the number of allocations as
/// it is.
pub proof fn lemma_grow_counted_once(
    counts: Seq<u64>,
    placement: ReallocPlacement,
    init: AllocInit,
    ok: bool,
)
    requires
        counts.len() == 19,
    ensures
        grows_filter(
            bump(counts, grow_slot(placement, init, ok)),
            ReallocPlacementFilter::Any,
            AllocInitFilter::Any,
            ResultFilter::Any,
        ) == vstd::wrapping::u64_specs::wrapping_add(
            grows_filter(
                counts,
                ReallocPlacementFilter::Any,
                AllocInitFilter::Any,
                ResultFilter::Any,
            ),
            1,
        ),
        allocs_filter(
            bump(counts, grow_slot(placement, init, ok)),
            AllocInitFilter::Any,
            ResultFilter::Any,
        ) == allocs_filter(counts, AllocInitFilter::Any, ResultFilter::Any),
{
    let c = bump(counts, grow_slot(placement, init, ok));
    lemma_grows_total(counts);
    lemma_grows_total(c);
    lemma_allocs_total(counts);
    lemma_allocs_total(c);
    let a = vstd::wrapping::u64_specs::wrapping_add(counts[5], counts[6]);
    let b = vstd::wrapping::u64_specs::wrapping_add(counts[9], counts[10]);
    let d = vstd::wrapping::u64_specs::wrapping_add(counts[7], counts[8]);
    let e = vstd::wrapping::u64_specs::wrapping_add(counts[11], counts[12]);
    lemma_add_one_left(counts[5], counts[6]);
    lemma_add_one_right(counts[5], counts[6]);
    lemma_add_one_left(counts[9], counts[10]);
    lemma_add_one_right(counts[9], counts[10]);
    lemma_add_one_left(counts[7], counts[8]);
    lemma_add_one_right(counts[7], counts[8]);
    lemma_add_one_left(counts[11], counts[12]);
    lemma_add_one_right(counts[11], counts[12]);
    lemma_add_one_left(a, b);
    lemma_add_one_right(a, b);
    lemma_add_one_left(d, e);
    lemma_add_one_right(d, e);
    lemma_add_one_left(vstd::wrapping::u64_specs::wrapping_add(a, b), vstd::wrapping::u64_specs::wrapping_add(d, e));
    lemma_add_one_right(vstd::wrapping::u64_specs::wrapping_add(a, b), vstd::wrapping::u64_specs::wrapping_add(d, e));
}

/// Counting a shrink adds one to the number of shrinks, and leaves the number of allocations
/// as it is.
pub proof fn lemma_shrink_counted_once(counts: Seq<u64>, placement: ReallocPlacement, ok: bool)
    requires
        counts.len() == 19,
    ensures
        shrinks_filter(
            bump(counts, shrink_slot(placement, ok)),
            ReallocPlacementFilter::Any,
            ResultFilter::Any,
        ) == vstd::wrapping::u64_specs::wrapping_add(shrinks_filter(counts, ReallocPlacementFilter::Any, ResultFilter::Any), 1),
        allocs_filter(
            bump(counts, shrink_slot(placement, ok)),
            AllocInitFilter::Any,
            ResultFilter::Any,
        ) == allocs_filter(counts, AllocInitFilter::Any, ResultFilter::Any),
{
    let c = bump(counts, shrink_slot(placement, ok));
    lemma_shrinks_total(counts);
    lemma_shrinks_total(c);
    lemma_allocs_total(counts);
    lemma_allocs_total(c);
    lemma_add_one_left(counts[13], counts[14]);
    lemma_add_one_right(counts[13], counts[14]);
    lemma_add_one_left(counts[15], counts[16]);
    lemma_add_one_right(counts[15], counts[16]);
    lemma_add_one_left(vstd::wrapping::u64_specs::wrapping_add(counts[13], counts[14]), vstd::wrapping::u64_specs::wrapping_add(counts[15], counts[16]));
    lemma_add_one_right(vstd::wrapping::u64_specs::wrapping_add(counts[13], counts[14]), vstd::wrapping::u64_specs::wrapping_add(counts[15], counts[16]));
}


/// A `FilteredCounter` counts an allocation without zeroing by its outcome: after its `after_allocate` hook, the count
/// selected by that kind and by the outcome has grown by one, wrapping on overflow, and the count
/// selected by that kind and by the other outcome is as it was.
pub proof fn lemma_filtered_counter_counts_allocation(
    counter: FilteredCounter,
    next: FilteredCounter,
    layout: Layout,
    result: AllocResult,
)
    requires
        exists|hook: &mut FilteredCounter|
            mut_ref_current(hook) == counter && mut_ref_future(hook) == next && call_ensures(
                FilteredCounter::after_allocate,
                (hook, layout, result),
                (),
            ),
    ensures
        allocs_filter(next@, AllocInitFilter::Uninitialized, ResultFilter::Success) == if result is Ok {
            vstd::wrapping::u64_specs::wrapping_add(allocs_filter(counter@, AllocInitFilter::Uninitialized, ResultFilter::Success), 1)
        } else {
            allocs_filter(counter@, AllocInitFilter::Uninitialized, ResultFilter::Success)
        },
        allocs_filter(next@, AllocInitFilter::Uninitialized, ResultFilter::Failure) == if result is Err {
            vstd::wrapping::u64_specs::wrapping_add(allocs_filter(counter@, AllocInitFilter::Uninitialized, ResultFilter::Failure), 1)
        } else {
            allocs_filter(counter@, AllocInitFilter::Uninitialized, ResultFilter::Failure)
        },
{
    let hook = choose|hook: &mut FilteredCounter|
        mut_ref_current(hook) == counter && mut_ref_future(hook) == next && call_ensures(
            FilteredCounter::after_allocate,
            (hook, layout, result),
            (),
        );
    counter.lemma_len();
}

/// A `FilteredCounter` counts a zeroed allocation by its outcome: after its `after_allocate_zeroed` hook, the count
/// selected by that kind and by the outcome has grown by one, wrapping on overflow, and the count
/// selected by that kind and by the other outcome is as it was.
pub proof fn lemma_filtered_counter_counts_zeroed_allocation(
    counter: FilteredCounter,
    next: FilteredCounter,
    layout: Layout,
    result: AllocResult,
)
    requires
        exists|hook: &mut FilteredCounter|
            mut_ref_current(hook) == counter && mut_ref_future(hook) == next && call_ensures(
                FilteredCounter::after_allocate_zeroed,
                (hook, layout, result),
                (),
            ),
    ensures
        allocs_filter(next@, AllocInitFilter::Zeroed, ResultFilter::Success) == if result is Ok {
            vstd::wrapping::u64_specs::wrapping_add(allocs_filter(counter@, AllocInitFilter::Zeroed, ResultFilter::Success), 1)
        } else {
            allocs_filter(counter@, AllocInitFilter::Zeroed, ResultFilter::Success)
        },
        allocs_filter(next@, AllocInitFilter::Zeroed, ResultFilter::Failure) == if result is Err {
            vstd::wrapping::u64_specs::wrapping_add(allocs_filter(counter@, AllocInitFilter::Zeroed, ResultFilter::Failure), 1)
        } else {
            allocs_filter(counter@, AllocInitFilter::Zeroed, ResultFilter::Failure)
        },
{
    let hook = choose|hook: &mut FilteredCounter|
        mut_ref_current(hook) == counter && mut_ref_future(hook) == next && call_ensures(
            FilteredCounter::after_allocate_zeroed,
            (hook, layout, result),
            (),
        );
    counter.lemma_len();
}

/// A `FilteredCounter` counts a grow that may move the block, without zeroing by its outcome: after its `after_grow` hook, the count
/// selected by that kind and by the outcome has grown by one, wrapping on overflow, and the count
/// selected by that kind and by the other outcome is as it was.
pub proof fn lemma_filtered_counter_counts_grow(
    counter: FilteredCounter,
    next: FilteredCounter,
    ptr: usize,
    old_layout: Layout,
    new_layout: Layout,
    result: AllocResult,
)
    requires
        exists|hook: &mut FilteredCounter|
            mut_ref_current(hook) == counter && mut_ref_future(hook) == next && call_ensures(
                FilteredCounter::after_grow,
                (hook, ptr, old_layout, new_layout, result),
                (),
            ),
    ensures
        grows_filter(next@, ReallocPlacementFilter::MayMove, AllocInitFilter::Uninitialized, ResultFilter::Success) == if result is Ok {
            vstd::wrapping::u64_specs::wrapping_add(grows_filter(counter@, ReallocPlacementFilter::MayMove, AllocInitFilter::Uninitialized, ResultFilter::Success), 1)
        } else {
            grows_filter(counter@, ReallocPlacementFilter::MayMove, AllocInitFilter::Uninitialized, ResultFilter::Success)
        },
        grows_filter(next@, ReallocPlacementFilter::MayMove, AllocInitFilter::Uninitialized, ResultFilter::Failure) == if result is Err {
            vstd::wrapping::u64_specs::wrapping_add(grows_filter(counter@, ReallocPlacementFilter::MayMove, AllocInitFilter::Uninitialized, ResultFilter::Failure), 1)
        } else {
            grows_filter(counter@, ReallocPlacementFilter::MayMove, AllocInitFilter::Uninitialized, ResultFilter::Failure)
        },
{
    let hook = choose|hook: &mut FilteredCounter|
        mut_ref_current(hook) == counter && mut_ref_future(hook) == next && call_ensures(
            FilteredCounter::after_grow,
            (hook, ptr, old_layout, new_layout, result),
            (),
        );
    counter.lemma_len();
}

/// A `FilteredCounter` counts a zeroed grow that may move the block by its outcome: after its `after_grow_zeroed` hook, the count
/// selected by that kind and by the outcome has grown by one, wrapping on overflow, and the count
/// selected by that kind and by the other outcome is as it was.
pub proof fn lemma_filtered_counter_counts_zeroed_grow(
    counter: FilteredCounter,
    next: FilteredCounter,
    ptr: usize,
    old_layout: Layout,
    new_layout: Layout,
    result: AllocResult,
)
    requires
        exists|hook: &mut FilteredCounter|
            mut_ref_current(hook) == counter && mut_ref_future(hook) == next && call_ensures(
                FilteredCounter::after_grow_zeroed,
                (hook, ptr, old_layout, new_layout, result),
                (),
            ),
    ensures
        grows_filter(next@, ReallocPlacementFilter::MayMove, AllocInitFilter::Zeroed, ResultFilter::Success) == if result is Ok {
            vstd::wrapping::u64_specs::wrapping_add(grows_filter(counter@, ReallocPlacementFilter::MayMove, AllocInitFilter::Zeroed, ResultFilter::Success), 1)
        } else {
            grows_filter(counter@, ReallocPlacementFilter::MayMove, AllocInitFilter::Zeroed, ResultFilter::Success)
        },
        grows_filter(next@, ReallocPlacementFilter::MayMove, AllocInitFilter::Zeroed, ResultFilter::Failure) == if result is Err {
            vstd::wrapping::u64_specs::wrapping_add(grows_filter(counter@, ReallocPlacementFilter::MayMove, AllocInitFilter::Zeroed, ResultFilter::Failure), 1)
        } else {
            grows_filter(counter@, ReallocPlacementFilter::MayMove, AllocInitFilter::Zeroed, ResultFilter::Failure)
        },
{
    let hook = choose|hook: &mut FilteredCounter|
        mut_ref_current(hook) == counter && mut_ref_future(hook) == next && call_ensures(
            FilteredCounter::after_grow_zeroed,
            (hook, ptr, old_layout, new_layout, result),
            (),
        );
    counter.lemma_len();
}

/// A `FilteredCounter` counts a grow in place, without zeroing by its outcome: after its `after_grow_in_place` hook, the count
/// selected by that kind and by the outcome has grown by one, wrapping on overflow, and the count
/// selected by that kind and by the other outcome is as it was.
pub proof fn lemma_filtered_counter_counts_grow_in_place(
    counter: FilteredCounter,
    next: FilteredCounter,
    ptr: usize,
    old_layout: Layout,
    new_layout: Layout,
    result: Result<usize, AllocError>,
)
    requires
        exists|hook: &mut FilteredCounter|
            mut_ref_current(hook) == counter && mut_ref_future(hook) == next && call_ensures(
                FilteredCounter::after_grow_in_place,
                (hook, ptr, old_layout, new_layout, result),
                (),
            ),
    ensures
        grows_filter(next@, ReallocPlacementFilter::InPlace, AllocInitFilter::Uninitialized, ResultFilter::Success) == if result is Ok {
            vstd::wrapping::u64_specs::wrapping_add(grows_filter(counter@, ReallocPlacementFilter::InPlace, AllocInitFilter::Uninitialized, ResultFilter::Success), 1)
        } else {
            grows_filter(counter@, ReallocPlacementFilter::InPlace, AllocInitFilter::Uninitialized, ResultFilter::Success)
        },
        grows_filter(next@, ReallocPlacementFilter::InPlace, AllocInitFilter::Uninitialized, ResultFilter::Failure) == if result is Err {
            vstd::wrapping::u64_specs::wrapping_add(grows_filter(counter@, ReallocPlacementFilter::InPlace, AllocInitFilter::Uninitialized, ResultFilter::Failure), 1)
        } else {
            grows_filter(counter@, ReallocPlacementFilter::InPlace, AllocInitFilter::Uninitialized, ResultFilter::Failure)
        },
{
    let hook = choose|hook: &mut FilteredCounter|
        mut_ref_current(hook) == counter && mut_ref_future(hook) == next && call_ensures(
            FilteredCounter::after_grow_in_place,
            (hook, ptr, old_layout, new_layout, result),
            (),
        );
    counter.lemma_len();
}

/// A `FilteredCounter` counts a zeroed grow in place by its outcome: after its `after_grow_in_place_zeroed` hook, the count
/// selected by that kind and by the outcome has grown by one, wrapping on overflow, and the count
/// selected by that kind and by the other outcome is as it was.
pub proof fn lemma_filtered_counter_counts_zeroed_grow_in_place(
    counter: FilteredCounter,
    next: FilteredCounter,
    ptr: usize,
    old_layout: Layout,
    new_layout: Layout,
    result: Result<usize, AllocError>,
)
    requires
        exists|hook: &mut FilteredCounter|
            mut_ref_current(hook) == counter && mut_ref_future(hook) == next && call_ensures(
                FilteredCounter::after_grow_in_place_zeroed,
                (hook, ptr, old_layout, new_layout, result),
                (),
            ),
    ensures
        grows_filter(next@, ReallocPlacementFilter::InPlace, AllocInitFilter::Zeroed, ResultFilter::Success) == if result is Ok {
            vstd::wrapping::u64_specs::wrapping_add(grows_filter(counter@, ReallocPlacementFilter::InPlace, AllocInitFilter::Zeroed, ResultFilter::Success), 1)
        } else {
            grows_filter(counter@, ReallocPlacementFilter::InPlace, AllocInitFilter::Zeroed, ResultFilter::Success)
        },
        grows_filter(next@, ReallocPlacementFilter::InPlace, AllocInitFilter::Zeroed, ResultFilter::Failure) == if result is Err {
            vstd::wrapping::u64_specs::wrapping_add(grows_filter(counter@, ReallocPlacementFilter::InPlace, AllocInitFilter::Zeroed, ResultFilter::Failure), 1)
        } else {
            grows_filter(counter@, ReallocPlacementFilter::InPlace, AllocInitFilter::Zeroed, ResultFilter::Failure)
        },
{
    let hook = choose|hook: &mut FilteredCounter|
        mut_ref_current(hook) == counter && mut_ref_future(hook) == next && call_ensures(
            FilteredCounter::after_grow_in_place_zeroed,
            (hook, ptr, old_layout, new_layout, result),
            (),
        );
    counter.lemma_len();
}

/// A `FilteredCounter` counts a shrink that may move the block by its outcome: after its `after_shrink` hook, the count
/// selected by that kind and by the outcome has grown by one, wrapping on overflow, and the count
/// selected by that kind and by the other outcome is as it was.
pub proof fn lemma_filtered_counter_counts_shrink(
    counter: FilteredCounter,
    next: FilteredCounter,
    ptr: usize,
    old_layout: Layout,
    new_layout: Layout,
    result: AllocResult,
)
    requires
        exists|hook: &mut FilteredCounter|
            mut_ref_current(hook) == counter && mut_ref_future(hook) == next && call_ensures(
                FilteredCounter::after_shrink,
                (hook, ptr, old_layout, new_layout, result),
                (),
            ),
    ensures
        shrinks_filter(next@, ReallocPlacementFilter::MayMove, ResultFilter::Success) == if result is Ok {
            vstd::wrapping::u64_specs::wrapping_add(shrinks_filter(counter@, ReallocPlacementFilter::MayMove, ResultFilter::Success), 1)
        } else {
            shrinks_filter(counter@, ReallocPlacementFilter::MayMove, ResultFilter::Success)
        },
        shrinks_filter(next@, ReallocPlacementFilter::MayMove, ResultFilter::Failure) == if result is Err {
            vstd::wrapping::u64_specs::wrapping_add(shrinks_filter(counter@, ReallocPlacementFilter::MayMove, ResultFilter::Failure), 1)
        } else {
            shrinks_filter(counter@, ReallocPlacementFilter::MayMove, ResultFilter::Failure)
        },
{
    let hook = choose|hook: &mut FilteredCounter|
        mut_ref_current(hook) == counter && mut_ref_future(hook) == next && call_ensures(
            FilteredCounter::after_shrink,
            (hook, ptr, old_layout, new_layout, result),
            (),
        );
    counter.lemma_len();
}

/// A `FilteredCounter` counts a shrink in place by its outcome: after its `after_shrink_in_place` hook, the count
/// selected by that kind and by the outcome has grown by one, wrapping on overflow, and the count
/// selected by that kind and by the other outcome is as it was.
pub proof fn lemma_filtered_counter_counts_shrink_in_place(
    counter: FilteredCounter,
    next: FilteredCounter,
    ptr: usize,
    old_layout: Layout,
    new_layout: Layout,
    result: Result<usize, AllocError>,
)
    requires
        exists|hook: &mut FilteredCounter|
            mut_ref_current(hook) == counter && mut_ref_future(hook) == next && call_ensures(
                FilteredCounter::after_shrink_in_place,
                (hook, ptr, old_layout, new_layout, result),
                (),
            ),
    ensures
        shrinks_filter(next@, ReallocPlacementFilter::InPlace, ResultFilter::Success) == if result is Ok {
            vstd::wrapping::u64_specs::wrapping_add(shrinks_filter(counter@, ReallocPlacementFilter::InPlace, ResultFilter::Success), 1)
        } else {
            shrinks_filter(counter@, ReallocPlacementFilter::InPlace, ResultFilter::Success)
        },
        shrinks_filter(next@, ReallocPlacementFilter::InPlace, ResultFilter::Failure) == if result is Err {
            vstd::wrapping::u64_specs::wrapping_add(shrinks_filter(counter@, ReallocPlacementFilter::InPlace, ResultFilter::Failure), 1)
        } else {
            shrinks_filter(counter@, ReallocPlacementFilter::InPlace, ResultFilter::Failure)
        },
{
    let hook = choose|hook: &mut FilteredCounter|
        mut_ref_current(hook) == counter && mut_ref_future(hook) == next && call_ensures(
            FilteredCounter::after_shrink_in_place,
            (hook, ptr, old_layout, new_layout, result),
            (),
        );
    counter.lemma_len();
}

/// A `FilteredAtomicCounter` counts an allocation without zeroing by its outcome: after its `after_allocate` hook, the count
/// selected by that kind and by the outcome has grown by one, wrapping on overflow, and the count
/// selected by that kind and by the other outcome is as it was.
pub proof fn lemma_filtered_atomic_counter_counts_allocation(
    counter: FilteredAtomicCounter,
    next: FilteredAtomicCounter,
    layout: Layout,
    result: AllocResult,
)
    requires
        exists|hook: &mut FilteredAtomicCounter|
            mut_ref_current(hook) == counter && mut_ref_future(hook) == next && call_ensures(
                FilteredAtomicCounter::after_allocate,
                (hook, layout, result),
                (),
            ),
    ensures
        allocs_filter(next@, AllocInitFilter::Uninitialized, ResultFilter::Success) == if result is Ok {
            vstd::wrapping::u64_specs::wrapping_add(allocs_filter(counter@, AllocInitFilter::Uninitialized, ResultFilter::Success), 1)
        } else {
            allocs_filter(counter@, AllocInitFilter::Uninitialized, ResultFilter::Success)
        },
        allocs_filter(next@, AllocInitFilter::Uninitialized, ResultFilter::Failure) == if result is Err {
            vstd::wrapping::u64_specs::wrapping_add(allocs_filter(counter@, AllocInitFilter::Uninitialized, ResultFilter::Failure), 1)
        } else {
            allocs_filter(counter@, AllocInitFilter::Uninitialized, ResultFilter::Failure)
        },
{
    let hook = choose|hook: &mut FilteredAtomicCounter|
        mut_ref_current(hook) == counter && mut_ref_future(hook) == next && call_ensures(
            FilteredAtomicCounter::after_allocate,
            (hook, layout, result),
            (),
        );
    counter.lemma_len();
}

/// A `FilteredAtomicCounter` counts a zeroed allocation by its outcome: after its `after_allocate_zeroed` hook, the count
/// selected by that kind and by the outcome has grown by one, wrapping on overflow, and the count
/// selected by that kind and by the other outcome is as it was.
pub proof fn lemma_filtered_atomic_counter_counts_zeroed_allocation(
    counter: FilteredAtomicCounter,
    next: FilteredAtomicCounter,
    layout: Layout,
    result: AllocResult,
)
    requires
        exists|hook: &mut FilteredAtomicCounter|
            mut_ref_current(hook) == counter && mut_ref_future(hook) == next && call_ensures(
                FilteredAtomicCounter::after_allocate_zeroed,
                (hook, layout, result),
                (),
            ),
    ensures
        allocs_filter(next@, AllocInitFilter::Zeroed, ResultFilter::Success) == if result is Ok {
            vstd::wrapping::u64_specs::wrapping_add(allocs_filter(counter@, AllocInitFilter::Zeroed, ResultFilter::Success), 1)
        } else {
            allocs_filter(counter@, AllocInitFilter::Zeroed, ResultFilter::Success)
        },
        allocs_filter(next@, AllocInitFilter::Zeroed, ResultFilter::Failure) == if result is Err {
            vstd::wrapping::u64_specs::wrapping_add(allocs_filter(counter@, AllocInitFilter::Zeroed, ResultFilter::Failure), 1)
        } else {
            allocs_filter(counter@, AllocInitFilter::Zeroed, ResultFilter::Failure)
        },
{
    let hook = choose|hook: &mut FilteredAtomicCounter|
        mut_ref_current(hook) == counter && mut_ref_future(hook) == next && call_ensures(
            FilteredAtomicCounter::after_allocate_zeroed,
            (hook, layout, result),
            (),
        );
    counter.lemma_len();
}

/// A `FilteredAtomicCounter` counts a grow that may move the block, without zeroing by its outcome: after its `after_grow` hook, the count
/// selected by that kind and by the outcome has grown by one, wrapping on overflow, and the count
/// selected by that kind and by the other outcome is as it was.
pub proof fn lemma_filtered_atomic_counter_counts_grow(
    counter: FilteredAtomicCounter,
    next: FilteredAtomicCounter,
    ptr: usize,
    old_layout: Layout,
    new_layout: Layout,
    result: AllocResult,
)
    requires
        exists|hook: &mut FilteredAtomicCounter|
            mut_ref_current(hook) == counter && mut_ref_future(hook) == next && call_ensures(
                FilteredAtomicCounter::after_grow,
                (hook, ptr, old_layout, new_layout, result),
                (),
            ),
    ensures
        grows_filter(next@, ReallocPlacementFilter::MayMove, AllocInitFilter::Uninitialized, ResultFilter::Success) == if result is Ok {
            vstd::wrapping::u64_specs::wrapping_add(grows_filter(counter@, ReallocPlacementFilter::MayMove, AllocInitFilter::Uninitialized, ResultFilter::Success), 1)
        } else {
            grows_filter(counter@, ReallocPlacementFilter::MayMove, AllocInitFilter::Uninitialized, ResultFilter::Success)
        },
        grows_filter(next@, ReallocPlacementFilter::MayMove, AllocInitFilter::Uninitialized, ResultFilter::Failure) == if result is Err {
            vstd::wrapping::u64_specs::wrapping_add(grows_filter(counter@, ReallocPlacementFilter::MayMove, AllocInitFilter::Uninitialized, ResultFilter::Failure), 1)
        } else {
            grows_filter(counter@, ReallocPlacementFilter::MayMove, AllocInitFilter::Uninitialized, ResultFilter::Failure)
        },
{
    let hook = choose|hook: &mut FilteredAtomicCounter|
        mut_ref_current(hook) == counter && mut_ref_future(hook) == next && call_ensures(
            FilteredAtomicCounter::after_grow,
            (hook, ptr, old_layout, new_layout, result),
            (),
        );
    counter.lemma_len();
}

/// A `FilteredAtomicCounter` counts a zeroed grow that may move the block by its outcome: after its `after_grow_zeroed` hook, the count
/// selected by that kind and by the outcome has grown by one, wrapping on overflow, and the count
/// selected by that kind and by the other outcome is as it was.
pub proof fn lemma_filtered_atomic_counter_counts_zeroed_grow(
    counter: FilteredAtomicCounter,
    next: FilteredAtomicCounter,
    ptr: usize,
    old_layout: Layout,
    new_layout: Layout,
    result: AllocResult,
)
    requires
        exists|hook: &mut FilteredAtomicCounter|
            mut_ref_current(hook) == counter && mut_ref_future(hook) == next && call_ensures(
                FilteredAtomicCounter::after_grow_zeroed,
                (hook, ptr, old_layout, new_layout, result),
                (),
            ),
    ensures
        grows_filter(next@, ReallocPlacementFilter::MayMove, AllocInitFilter::Zeroed, ResultFilter::Success) == if result is Ok {
            vstd::wrapping::u64_specs::wrapping_add(grows_filter(counter@, ReallocPlacementFilter::MayMove, AllocInitFilter::Zeroed, ResultFilter::Success), 1)
        } else {
            grows_filter(counter@, ReallocPlacementFilter::MayMove, AllocInitFilter::Zeroed, ResultFilter::Success)
        },
        grows_filter(next@, ReallocPlacementFilter::MayMove, AllocInitFilter::Zeroed, ResultFilter::Failure) == if result is Err {
            vstd::wrapping::u64_specs::wrapping_add(grows_filter(counter@, ReallocPlacementFilter::MayMove, AllocInitFilter::Zeroed, ResultFilter::Failure), 1)
        } else {
            grows_filter(counter@, ReallocPlacementFilter::MayMove, AllocInitFilter::Zeroed, ResultFilter::Failure)
        },
{
    let hook = choose|hook: &mut FilteredAtomicCounter|
        mut_ref_current(hook) == counter && mut_ref_future(hook) == next && call_ensures(
            FilteredAtomicCounter::after_grow_zeroed,
            (hook, ptr, old_layout, new_layout, result),
            (),
        );
    counter.lemma_len();
}

/// A `FilteredAtomicCounter` counts a grow in place, without zeroing by its outcome: after its `after_grow_in_place` hook, the count
/// selected by that kind and by the outcome has grown by one, wrapping on overflow, and the count
/// selected by that kind and by the other outcome is as it was.
pub proof fn lemma_filtered_atomic_counter_counts_grow_in_place(
    counter: FilteredAtomicCounter,
    next: FilteredAtomicCounter,
    ptr: usize,
    old_layout: Layout,
    new_layout: Layout,
    result: Result<usize, AllocError>,
)
    requires
        exists|hook: &mut FilteredAtomicCounter|
            mut_ref_current(hook) == counter && mut_ref_future(hook) == next && call_ensures(
                FilteredAtomicCounter::after_grow_in_place,
                (hook, ptr, old_layout, new_layout, result),
                (),
            ),
    ensures
        grows_filter(next@, ReallocPlacementFilter::InPlace, AllocInitFilter::Uninitialized, ResultFilter::Success) == if result is Ok {
            vstd::wrapping::u64_specs::wrapping_add(grows_filter(counter@, ReallocPlacementFilter::InPlace, AllocInitFilter::Uninitialized, ResultFilter::Success), 1)
        } else {
            grows_filter(counter@, ReallocPlacementFilter::InPlace, AllocInitFilter::Uninitialized, ResultFilter::Success)
        },
        grows_filter(next@, ReallocPlacementFilter::InPlace, AllocInitFilter::Uninitialized, ResultFilter::Failure) == if result is Err {
            vstd::wrapping::u64_specs::wrapping_add(grows_filter(counter@, ReallocPlacementFilter::InPlace, AllocInitFilter::Uninitialized, ResultFilter::Failure), 1)
        } else {
            grows_filter(counter@, ReallocPlacementFilter::InPlace, AllocInitFilter::Uninitialized, ResultFilter::Failure)
        },
{
    let hook = choose|hook: &mut FilteredAtomicCounter|
        mut_ref_current(hook) == counter && mut_ref_future(hook) == next && call_ensures(
            FilteredAtomicCounter::after_grow_in_place,
            (hook, ptr, old_layout, new_layout, result),
            (),
        );
    counter.lemma_len();
}

/// A `FilteredAtomicCounter` counts a zeroed grow in place by its outcome: after its `after_grow_in_place_zeroed` hook, the count
/// selected by that kind and by the outcome has grown by one, wrapping on overflow, and the count
/// selected by that kind and by the other outcome is as it was.
pub proof fn lemma_filtered_atomic_counter_counts_zeroed_grow_in_place(
    counter: FilteredAtomicCounter,
    next: FilteredAtomicCounter,
    ptr: usize,
    old_layout: Layout,
    new_layout: Layout,
    result: Result<usize, AllocError>,
)
    requires
        exists|hook: &mut FilteredAtomicCounter|
            mut_ref_current(hook) == counter && mut_ref_future(hook) == next && call_ensures(
                FilteredAtomicCounter::after_grow_in_place_zeroed,
                (hook, ptr, old_layout, new_layout, result),
                (),
            ),
    ensures
        grows_filter(next@, ReallocPlacementFilter::InPlace, AllocInitFilter::Zeroed, ResultFilter::Success) == if result is Ok {
            vstd::wrapping::u64_specs::wrapping_add(grows_filter(counter@, ReallocPlacementFilter::InPlace, AllocInitFilter::Zeroed, ResultFilter::Success), 1)
        } else {
            grows_filter(counter@, ReallocPlacementFilter::InPlace, AllocInitFilter::Zeroed, ResultFilter::Success)
        },
        grows_filter(next@, ReallocPlacementFilter::InPlace, AllocInitFilter::Zeroed, ResultFilter::Failure) == if result is Err {
            vstd::wrapping::u64_specs::wrapping_add(grows_filter(counter@, ReallocPlacementFilter::InPlace, AllocInitFilter::Zeroed, ResultFilter::Failure), 1)
        } else {
            grows_filter(counter@, ReallocPlacementFilter::InPlace, AllocInitFilter::Zeroed, ResultFilter::Failure)
        },
{
    let hook = choose|hook: &mut FilteredAtomicCounter|
        mut_ref_current(hook) == counter && mut_ref_future(hook) == next && call_ensures(
            FilteredAtomicCounter::after_grow_in_place_zeroed,
            (hook, ptr, old_layout, new_layout, result),
            (),
        );
    counter.lemma_len();
}

/// A `FilteredAtomicCounter` counts a shrink that may move the block by its outcome: after its `after_shrink` hook, the count
/// selected by that kind and by the outcome has grown by one, wrapping on overflow, and the count
/// selected by that kind and by the other outcome is as it was.
pub proof fn lemma_filtered_atomic_counter_counts_shrink(
    counter: FilteredAtomicCounter,
    next: FilteredAtomicCounter,
    ptr: usize,
    old_layout: Layout,
    new_layout: Layout,
    result: AllocResult,
)
    requires
        exists|hook: &mut FilteredAtomicCounter|
            mut_ref_current(hook) == counter && mut_ref_future(hook) == next && call_ensures(
                FilteredAtomicCounter::after_shrink,
                (hook, ptr, old_layout, new_layout, result),
                (),
            ),
    ensures
        shrinks_filter(next@, ReallocPlacementFilter::MayMove, ResultFilter::Success) == if result is Ok {
            vstd::wrapping::u64_specs::wrapping_add(shrinks_filter(counter@, ReallocPlacementFilter::MayMove, ResultFilter::Success), 1)
        } else {
            shrinks_filter(counter@, ReallocPlacementFilter::MayMove, ResultFilter::Success)
        },
        shrinks_filter(next@, ReallocPlacementFilter::MayMove, ResultFilter::Failure) == if result is Err {
            vstd::wrapping::u64_specs::wrapping_add(shrinks_filter(counter@, ReallocPlacementFilter::MayMove, ResultFilter::Failure), 1)
        } else {
            shrinks_filter(counter@, ReallocPlacementFilter::MayMove, ResultFilter::Failure)
        },
{
    let hook = choose|hook: &mut FilteredAtomicCounter|
        mut_ref_current(hook) == counter && mut_ref_future(hook) == next && call_ensures(
            FilteredAtomicCounter::after_shrink,
            (hook, ptr, old_layout, new_layout, result),
            (),
        );
    counter.lemma_len();
}

/// A `FilteredAtomicCounter` counts a shrink in place by its outcome: after its `after_shrink_in_place` hook, the count
/// selected by that kind and by the outcome has grown by one, wrapping on overflow, and the count
/// selected by that kind and by the other outcome is as it was.
pub proof fn lemma_filtered_atomic_counter_counts_shrink_in_place(
    counter: FilteredAtomicCounter,
    next: FilteredAtomicCounter,
    ptr: usize,
    old_layout: Layout,
    new_layout: Layout,
    result: Result<usize, AllocError>,
)
    requires
        exists|hook: &mut FilteredAtomicCounter|
            mut_ref_current(hook) == counter && mut_ref_future(hook) == next && call_ensures(
                FilteredAtomicCounter::after_shrink_in_place,
                (hook, ptr, old_layout, new_layout, result),
                (),
            ),
    ensures
        shrinks_filter(next@, ReallocPlacementFilter::InPlace, ResultFilter::Success) == if result is Ok {
            vstd::wrapping::u64_specs::wrapping_add(shrinks_filter(counter@, ReallocPlacementFilter::InPlace, ResultFilter::Success), 1)
        } else {
            shrinks_filter(counter@, ReallocPlacementFilter::InPlace, ResultFilter::Success)
        },
        shrinks_filter(next@, ReallocPlacementFilter::InPlace, ResultFilter::Failure) == if result is Err {
            vstd::wrapping::u64_specs::wrapping_add(shrinks_filter(counter@, ReallocPlacementFilter::InPlace, ResultFilter::Failure), 1)
        } else {
            shrinks_filter(counter@, ReallocPlacementFilter::InPlace, ResultFilter::Failure)
        },
{
    let hook = choose|hook: &mut FilteredAtomicCounter|
        mut_ref_current(hook) == counter && mut_ref_future(hook) == next && call_ensures(
            FilteredAtomicCounter::after_shrink_in_place,
            (hook, ptr, old_layout, new_layout, result),
            (),
        );
    counter.lemma_len();
}


/// A `Counter` counts an allocation without zeroing: after its `after_allocate` hook, the number of allocations has grown by
/// one, wrapping on overflow, and every other count is as it was.
pub proof fn lemma_counter_counts_allocation(
    counter: Counter,
    next: Counter,
    layout: Layout,
    result: AllocResult,
)
    requires
        exists|hook: &mut Counter|
            mut_ref_current(hook) == counter && mut_ref_future(hook) == next && call_ensures(
                Counter::after_allocate,
                (hook, layout, result),
                (),
            ),
    ensures
        next@.len() == 5,
        next@[0] == vstd::wrapping::u64_specs::wrapping_add(counter@[0], 1),
        forall|j: int| 0 <= j < 5 && j != 0 ==> #[trigger] next@[j] == counter@[j],
{
    let hook = choose|hook: &mut Counter|
        mut_ref_current(hook) == counter && mut_ref_future(hook) == next && call_ensures(
            Counter::after_allocate,
            (hook, layout, result),
            (),
        );
    counter.lemma_len();
}

/// A `Counter` counts a zeroed allocation: after its `after_allocate_zeroed` hook, the number of allocations has grown by
/// one, wrapping on overflow, and every other count is as it was.
pub proof fn lemma_counter_counts_zeroed_allocation(
    counter: Counter,
    next: Counter,
    layout: Layout,
    result: AllocResult,
)
    requires
        exists|hook: &mut Counter|
            mut_ref_current(hook) == counter && mut_ref_future(hook) == next && call_ensures(
                Counter::after_allocate_zeroed,
                (hook, layout, result),
                (),
            ),
    ensures
        next@.len() == 5,
        next@[0] == vstd::wrapping::u64_specs::wrapping_add(counter@[0], 1),
        forall|j: int| 0 <= j < 5 && j != 0 ==> #[trigger] next@[j] == counter@[j],
{
    let hook = choose|hook: &mut Counter|
        mut_ref_current(hook) == counter && mut_ref_future(hook) == next && call_ensures(
            Counter::after_allocate_zeroed,
            (hook, layout, result),
            (),
        );
    counter.lemma_len();
}

/// A `Counter` counts a deallocation: after its `before_deallocate` hook, the number of deallocations has grown by
/// one, wrapping on overflow, and every other count is as it was.
pub proof fn lemma_counter_counts_deallocation(
    counter: Counter,
    next: Counter,
    ptr: usize,
    layout: Layout,
)
    requires
        exists|hook: &mut Counter|
            mut_ref_current(hook) == counter && mut_ref_future(hook) == next && call_ensures(
                Counter::before_deallocate,
                (hook, ptr, layout),
                (),
            ),
    ensures
        next@.len() == 5,
        next@[1] == vstd::wrapping::u64_specs::wrapping_add(counter@[1], 1),
        forall|j: int| 0 <= j < 5 && j != 1 ==> #[trigger] next@[j] == counter@[j],
{
    let hook = choose|hook: &mut Counter|
        mut_ref_current(hook) == counter && mut_ref_future(hook) == next && call_ensures(
            Counter::before_deallocate,
            (hook, ptr, layout),
            (),
        );
    counter.lemma_len();
}

/// A `Counter` counts a grow that may move the block: after its `after_grow` hook, the number of grows has grown by
/// one, wrapping on overflow, and every other count is as it was.
pub proof fn lemma_counter_counts_grow(
    counter: Counter,
    next: Counter,
    ptr: usize,
    old_layout: Layout,
    new_layout: Layout,
    result: AllocResult,
)
    requires
        exists|hook: &mut Counter|
            mut_ref_current(hook) == counter && mut_ref_future(hook) == next && call_ensures(
                Counter::after_grow,
                (hook, ptr, old_layout, new_layout, result),
                (),
            ),
    ensures
        next@.len() == 5,
        next@[2] == vstd::wrapping::u64_specs::wrapping_add(counter@[2], 1),
        forall|j: int| 0 <= j < 5 && j != 2 ==> #[trigger] next@[j] == counter@[j],
{
    let hook = choose|hook: &mut Counter|
        mut_ref_current(hook) == counter && mut_ref_future(hook) == next && call_ensures(
            Counter::after_grow,
            (hook, ptr, old_layout, new_layout, result),
            (),
        );
    counter.lemma_len();
}

/// A `Counter` counts a zeroed grow that may move the block: after its `after_grow_zeroed` hook, the number of grows has grown by
/// one, wrapping on overflow, and every other count is as it was.
pub proof fn lemma_counter_counts_zeroed_grow(
    counter: Counter,
    next: Counter,
    ptr: usize,
    old_layout: Layout,
    new_layout: Layout,
    result: AllocResult,
)
    requires
        exists|hook: &mut Counter|
            mut_ref_current(hook) == counter && mut_ref_future(hook) == next && call_ensures(
                Counter::after_grow_zeroed,
                (hook, ptr, old_layout, new_layout, result),
                (),
            ),
    ensures
        next@.len() == 5,
        next@[2] == vstd::wrapping::u64_specs::wrapping_add(counter@[2], 1),
        forall|j: int| 0 <= j < 5 && j != 2 ==> #[trigger] next@[j] == counter@[j],
{
    let hook = choose|hook: &mut Counter|
        mut_ref_current(hook) == counter && mut_ref_future(hook) == next && call_ensures(
            Counter::after_grow_zeroed,
            (hook, ptr, old_layout, new_layout, result),
            (),
        );
    counter.lemma_len();
}

/// A `Counter` counts a grow in place: after its `after_grow_in_place` hook, the number of grows has grown by
/// one, wrapping on overflow, and every other count is as it was.
pub proof fn lemma_counter_counts_grow_in_place(
    counter: Counter,
    next: Counter,
    ptr: usize,
    old_layout: Layout,
    new_layout: Layout,
    result: Result<usize, AllocError>,
)
    requires
        exists|hook: &mut Counter|
            mut_ref_current(hook) == counter && mut_ref_future(hook) == next && call_ensures(
                Counter::after_grow_in_place,
                (hook, ptr, old_layout, new_layout, result),
                (),
            ),
    ensures
        next@.len() == 5,
        next@[2] == vstd::wrapping::u64_specs::wrapping_add(counter@[2], 1),
        forall|j: int| 0 <= j < 5 && j != 2 ==> #[trigger] next@[j] == counter@[j],
{
    let hook = choose|hook: &mut Counter|
        mut_ref_current(hook) == counter && mut_ref_future(hook) == next && call_ensures(
            Counter::after_grow_in_place,
            (hook, ptr, old_layout, new_layout, result),
            (),
        );
    counter.lemma_len();
}

/// A `Counter` counts a zeroed grow in place: after its `after_grow_in_place_zeroed` hook, the number of grows has grown by
/// one, wrapping on overflow, and every other count is as it was.
pub proof fn lemma_counter_counts_zeroed_grow_in_place(
    counter: Counter,
    next: Counter,
    ptr: usize,
    old_layout: Layout,
    new_layout: Layout,
    result: Result<usize, AllocError>,
)
    requires
        exists|hook: &mut Counter|
            mut_ref_current(hook) == counter && mut_ref_future(hook) == next && call_ensures(
                Counter::after_grow_in_place_zeroed,
                (hook, ptr, old_layout, new_layout, result),
                (),
            ),
    ensures
        next@.len() == 5,
        next@[2] == vstd::wrapping::u64_specs::wrapping_add(counter@[2], 1),
        forall|j: int| 0 <= j < 5 && j != 2 ==> #[trigger] next@[j] == counter@[j],
{
    let hook = choose|hook: &mut Counter|
        mut_ref_current(hook) == counter && mut_ref_future(hook) == next && call_ensures(
            Counter::after_grow_in_place_zeroed,
            (hook, ptr, old_layout, new_layout, result),
            (),
        );
    counter.lemma_len();
}

/// A `Counter` counts a shrink that may move the block: after its `after_shrink` hook, the number of shrinks has grown by
/// one, wrapping on overflow, and every other count is as it was.
pub proof fn lemma_counter_counts_shrink(
    counter: Counter,
    next: Counter,
    ptr: usize,
    old_layout: Layout,
    new_layout: Layout,
    result: AllocResult,
)
    requires
        exists|hook: &mut Counter|
            mut_ref_current(hook) == counter && mut_ref_future(hook) == next && call_ensures(
                Counter::after_shrink,
                (hook, ptr, old_layout, new_layout, result),
                (),
            ),
    ensures
        next@.len() == 5,
        next@[3] == vstd::wrapping::u64_specs::wrapping_add(counter@[3], 1),
        forall|j: int| 0 <= j < 5 && j != 3 ==> #[trigger] next@[j] == counter@[j],
{
    let hook = choose|hook: &mut Counter|
        mut_ref_current(hook) == counter && mut_ref_future(hook) == next && call_ensures(
            Counter::after_shrink,
            (hook, ptr, old_layout, new_layout, result),
            (),
        );
    counter.lemma_len();
}

/// A `Counter` counts a shrink in place: after its `after_shrink_in_place` hook, the number of shrinks has grown by
/// one, wrapping on overflow, and every other count is as it was.
pub proof fn lemma_counter_counts_shrink_in_place(
    counter: Counter,
    next: Counter,
    ptr: usize,
    old_layout: Layout,
    new_layout: Layout,
    result: Result<usize, AllocError>,
)
    requires
        exists|hook: &mut Counter|
            mut_ref_current(hook) == counter && mut_ref_future(hook) == next && call_ensures(
                Counter::after_shrink_in_place,
                (hook, ptr, old_layout, new_layout, result),
                (),
            ),
    ensures
        next@.len() == 5,
        next@[3] == vstd::wrapping::u64_specs::wrapping_add(counter@[3], 1),
        forall|j: int| 0 <= j < 5 && j != 3 ==> #[trigger] next@[j] == counter@[j],
{
    let hook = choose|hook: &mut Counter|
        mut_ref_current(hook) == counter && mut_ref_future(hook) == next && call_ensures(
            Counter::after_shrink_in_place,
            (hook, ptr, old_layout, new_layout, result),
            (),
        );
    counter.lemma_len();
}

/// A `Counter` counts an ownership query: after its `after_owns` hook, the number of ownership queries has grown by
/// one, wrapping on overflow, and every other count is as it was.
pub proof fn lemma_counter_counts_ownership_query(
    counter: Counter,
    next: Counter,
    success: bool,
)
    requires
        exists|hook: &mut Counter|
            mut_ref_current(hook) == counter && mut_ref_future(hook) == next && call_ensures(
                Counter::after_owns,
                (hook, success),
                (),
            ),
    ensures
        next@.len() == 5,
        next@[4] == vstd::wrapping::u64_specs::wrapping_add(counter@[4], 1),
        forall|j: int| 0 <= j < 5 && j != 4 ==> #[trigger] next@[j] == counter@[j],
{
    let hook = choose|hook: &mut Counter|
        mut_ref_current(hook) == counter && mut_ref_future(hook) == next && call_ensures(
            Counter::after_owns,
            (hook, success),
            (),
        );
    counter.lemma_len();
}

/// A `AtomicCounter` counts an allocation without zeroing: after its `after_allocate` hook, the number of allocations has grown by
/// one, wrapping on overflow, and every other count is as it was.
pub proof fn lemma_atomic_counter_counts_allocation(
    counter: AtomicCounter,
    next: AtomicCounter,
    layout: Layout,
    result: AllocResult,
)
    requires
        exists|hook: &mut AtomicCounter|
            mut_ref_current(hook) == counter && mut_ref_future(hook) == next && call_ensures(
                AtomicCounter::after_allocate,
                (hook, layout, result),
                (),
            ),
    ensures
        next@.len() == 5,
        next@[0] == vstd::wrapping::u64_specs::wrapping_add(counter@[0], 1),
        forall|j: int| 0 <= j < 5 && j != 0 ==> #[trigger] next@[j] == counter@[j],
{
    let hook = choose|hook: &mut AtomicCounter|
        mut_ref_current(hook) == counter && mut_ref_future(hook) == next && call_ensures(
            AtomicCounter::after_allocate,
            (hook, layout, result),
            (),
        );
    counter.lemma_len();
}

/// A `AtomicCounter` counts a zeroed allocation: after its `after_allocate_zeroed` hook, the number of allocations has grown by
/// one, wrapping on overflow, and every other count is as it was.
pub proof fn lemma_atomic_counter_counts_zeroed_allocation(
    counter: AtomicCounter,
    next: AtomicCounter,
    layout: Layout,
    result: AllocResult,
)
    requires
        exists|hook: &mut AtomicCounter|
            mut_ref_current(hook) == counter && mut_ref_future(hook) == next && call_ensures(
                AtomicCounter::after_allocate_zeroed,
                (hook, layout, result),
                (),
            ),
    ensures
        next@.len() == 5,
        next@[0] == vstd::wrapping::u64_specs::wrapping_add(counter@[0], 1),
        forall|j: int| 0 <= j < 5 && j != 0 ==> #[trigger] next@[j] == counter@[j],
{
    let hook = choose|hook: &mut AtomicCounter|
        mut_ref_current(hook) == counter && mut_ref_future(hook) == next && call_ensures(
            AtomicCounter::after_allocate_zeroed,
            (hook, layout, result),
            (),
        );
    counter.lemma_len();
}

/// A `AtomicCounter` counts a deallocation: after its `before_deallocate` hook, the number of deallocations has grown by
/// one, wrapping on overflow, and every other count is as it was.
pub proof fn lemma_atomic_counter_counts_deallocation(
    counter: AtomicCounter,
    next: AtomicCounter,
    ptr: usize,
    layout: Layout,
)
    requires
        exists|hook: &mut AtomicCounter|
            mut_ref_current(hook) == counter && mut_ref_future(hook) == next && call_ensures(
                AtomicCounter::before_deallocate,
                (hook, ptr, layout),
                (),
            ),
    ensures
        next@.len() == 5,
        next@[1] == vstd::wrapping::u64_specs::wrapping_add(counter@[1], 1),
        forall|j: int| 0 <= j < 5 && j != 1 ==> #[trigger] next@[j] == counter@[j],
{
    let hook = choose|hook: &mut AtomicCounter|
        mut_ref_current(hook) == counter && mut_ref_future(hook) == next && call_ensures(
            AtomicCounter::before_deallocate,
            (hook, ptr, layout),
            (),
        );
    counter.lemma_len();
}

/// A `AtomicCounter` counts a grow that may move the block: after its `after_grow` hook, the number of grows has grown by
/// one, wrapping on overflow, and every other count is as it was.
pub proof fn lemma_atomic_counter_counts_grow(
    counter: AtomicCounter,
    next: AtomicCounter,
    ptr: usize,
    old_layout: Layout,
    new_layout: Layout,
    result: AllocResult,
)
    requires
        exists|hook: &mut AtomicCounter|
            mut_ref_current(hook) == counter && mut_ref_future(hook) == next && call_ensures(
                AtomicCounter::after_grow,
                (hook, ptr, old_layout, new_layout, result),
                (),
            ),
    ensures
        next@.len() == 5,
        next@[2] == vstd::wrapping::u64_specs::wrapping_add(counter@[2], 1),
        forall|j: int| 0 <= j < 5 && j != 2 ==> #[trigger] next@[j] == counter@[j],
{
    let hook = choose|hook: &mut AtomicCounter|
        mut_ref_current(hook) == counter && mut_ref_future(hook) == next && call_ensures(
            AtomicCounter::after_grow,
            (hook, ptr, old_layout, new_layout, result),
            (),
        );
    counter.lemma_len();
}

/// A `AtomicCounter` counts a zeroed grow that may move the block: after its `after_grow_zeroed` hook, the number of grows has grown by
/// one, wrapping on overflow, and every other count is as it was.
pub proof fn lemma_atomic_counter_counts_zeroed_grow(
    counter: AtomicCounter,
    next: AtomicCounter,
    ptr: usize,
    old_layout: Layout,
    new_layout: Layout,
    result: AllocResult,
)
    requires
        exists|hook: &mut AtomicCounter|
            mut_ref_current(hook) == counter && mut_ref_future(hook) == next && call_ensures(
                AtomicCounter::after_grow_zeroed,
                (hook, ptr, old_layout, new_layout, result),
                (),
            ),
    ensures
        next@.len() == 5,
        next@[2] == vstd::wrapping::u64_specs::wrapping_add(counter@[2], 1),
        forall|j: int| 0 <= j < 5 && j != 2 ==> #[trigger] next@[j] == counter@[j],
{
    let hook = choose|hook: &mut AtomicCounter|
        mut_ref_current(hook) == counter && mut_ref_future(hook) == next && call_ensures(
            AtomicCounter::after_grow_zeroed,
            (hook, ptr, old_layout, new_layout, result),
            (),
        );
    counter.lemma_len();
}

/// A `AtomicCounter` counts a grow in place: after its `after_grow_in_place` hook, the number of grows has grown by
/// one, wrapping on overflow, and every other count is as it was.
pub proof fn lemma_atomic_counter_counts_grow_in_place(
    counter: AtomicCounter,
    next: AtomicCounter,
    ptr: usize,
    old_layout: Layout,
    new_layout: Layout,
    result: Result<usize, AllocError>,
)
    requires
        exists|hook: &mut AtomicCounter|
            mut_ref_current(hook) == counter && mut_ref_future(hook) == next && call_ensures(
                AtomicCounter::after_grow_in_place,
                (hook, ptr, old_layout, new_layout, result),
                (),
            ),
    ensures
        next@.len() == 5,
        next@[2] == vstd::wrapping::u64_specs::wrapping_add(counter@[2], 1),
        forall|j: int| 0 <= j < 5 && j != 2 ==> #[trigger] next@[j] == counter@[j],
{
    let hook = choose|hook: &mut AtomicCounter|
        mut_ref_current(hook) == counter && mut_ref_future(hook) == next && call_ensures(
            AtomicCounter::after_grow_in_place,
            (hook, ptr, old_layout, new_layout, result),
            (),
        );
    counter.lemma_len();
}

/// A `AtomicCounter` counts a zeroed grow in place: after its `after_grow_in_place_zeroed` hook, the number of grows has grown by
/// one, wrapping on overflow, and every other count is as it was.
pub proof fn lemma_atomic_counter_counts_zeroed_grow_in_place(
    counter: AtomicCounter,
    next: AtomicCounter,
    ptr: usize,
    old_layout: Layout,
    new_layout: Layout,
    result: Result<usize, AllocError>,
)
    requires
        exists|hook: &mut AtomicCounter|
            mut_ref_current(hook) == counter && mut_ref_future(hook) == next && call_ensures(
                AtomicCounter::after_grow_in_place_zeroed,
                (hook, ptr, old_layout, new_layout, result),
                (),
            ),
    ensures
        next@.len() == 5,
        next@[2] == vstd::wrapping::u64_specs::wrapping_add(counter@[2], 1),
        forall|j: int| 0 <= j < 5 && j != 2 ==> #[trigger] next@[j] == counter@[j],
{
    let hook = choose|hook: &mut AtomicCounter|
        mut_ref_current(hook) == counter && mut_ref_future(hook) == next && call_ensures(
            AtomicCounter::after_grow_in_place_zeroed,
            (hook, ptr, old_layout, new_layout, result),
            (),
        );
    counter.lemma_len();
}

/// A `AtomicCounter` counts a shrink that may move the block: after its `after_shrink` hook, the number of shrinks has grown by
/// one, wrapping on overflow, and every other count is as it was.
pub proof fn lemma_atomic_counter_counts_shrink(
    counter: AtomicCounter,
    next: AtomicCounter,
    ptr: usize,
    old_layout: Layout,
    new_layout: Layout,
    result: AllocResult,
)
    requires
        exists|hook: &mut AtomicCounter|
            mut_ref_current(hook) == counter && mut_ref_future(hook) == next && call_ensures(
                AtomicCounter::after_shrink,
                (hook, ptr, old_layout, new_layout, result),
                (),
            ),
    ensures
        next@.len() == 5,
        next@[3] == vstd::wrapping::u64_specs::wrapping_add(counter@[3], 1),
        forall|j: int| 0 <= j < 5 && j != 3 ==> #[trigger] next@[j] == counter@[j],
{
    let hook = choose|hook: &mut AtomicCounter|
        mut_ref_current(hook) == counter && mut_ref_future(hook) == next && call_ensures(
            AtomicCounter::after_shrink,
            (hook, ptr, old_layout, new_layout, result),
            (),
        );
    counter.lemma_len();
}

/// A `AtomicCounter` counts a shrink in place: after its `after_shrink_in_place` hook, the number of shrinks has grown by
/// one, wrapping on overflow, and every other count is as it was.
pub proof fn lemma_atomic_counter_counts_shrink_in_place(
    counter: AtomicCounter,
    next: AtomicCounter,
    ptr: usize,
    old_layout: Layout,
    new_layout: Layout,
    result: Result<usize, AllocError>,
)
    requires
        exists|hook: &mut AtomicCounter|
            mut_ref_current(hook) == counter && mut_ref_future(hook) == next && call_ensures(
                AtomicCounter::after_shrink_in_place,
                (hook, ptr, old_layout, new_layout, result),
                (),
            ),
    ensures
        next@.len() == 5,
        next@[3] == vstd::wrapping::u64_specs::wrapping_add(counter@[3], 1),
        forall|j: int| 0 <= j < 5 && j != 3 ==> #[trigger] next@[j] == counter@[j],
{
    let hook = choose|hook: &mut AtomicCounter|
        mut_ref_current(hook) == counter && mut_ref_future(hook) == next && call_ensures(
            AtomicCounter::after_shrink_in_place,
            (hook, ptr, old_layout, new_layout, result),
            (),
        );
    counter.lemma_len();
}

/// A `AtomicCounter` counts an ownership query: after its `after_owns` hook, the number of ownership queries has grown by
/// one, wrapping on overflow, and every other count is as it was.
pub proof fn lemma_atomic_counter_counts_ownership_query(
    counter: AtomicCounter,
    next: AtomicCounter,
    success: bool,
)
    requires
        exists|hook: &mut AtomicCounter|
            mut_ref_current(hook) == counter && mut_ref_future(hook) == next && call_ensures(
                AtomicCounter::after_owns,
                (hook, success),
                (),
            ),
    ensures
        next@.len() == 5,
        next@[4] == vstd::wrapping::u64_specs::wrapping_add(counter@[4], 1),
        forall|j: int| 0 <= j < 5 && j != 4 ==> #[trigger] next@[j] == counter@[j],
{
    let hook = choose|hook: &mut AtomicCounter|
        mut_ref_current(hook) == counter && mut_ref_future(hook) == next && call_ensures(
            AtomicCounter::after_owns,
            (hook, success),
            (),
        );
    counter.lemma_len();
}

/// A `FilteredCounter` counts a deallocation: after its `before_deallocate` hook, the number of deallocations has grown by
/// one, wrapping on overflow, and every other count is as it was.
pub proof fn lemma_filtered_counter_counts_deallocation(
    counter: FilteredCounter,
    next: FilteredCounter,
    ptr: usize,
    layout: Layout,
)
    requires
        exists|hook: &mut FilteredCounter|
            mut_ref_current(hook) == counter && mut_ref_future(hook) == next && call_ensures(
                FilteredCounter::before_deallocate,
                (hook, ptr, layout),
                (),
            ),
    ensures
        next@.len() == 19,
        next@[dealloc_slot()] == vstd::wrapping::u64_specs::wrapping_add(counter@[dealloc_slot()], 1),
        forall|j: int| 0 <= j < 19 && j != dealloc_slot() ==> #[trigger] next@[j] == counter@[j],
{
    let hook = choose|hook: &mut FilteredCounter|
        mut_ref_current(hook) == counter && mut_ref_future(hook) == next && call_ensures(
            FilteredCounter::before_deallocate,
            (hook, ptr, layout),
            (),
        );
    counter.lemma_len();
}

/// A `FilteredCounter` counts an ownership query by its answer: after its `after_owns` hook, the number of ownership queries with that answer has grown by
/// one, wrapping on overflow, and every other count is as it was.
pub proof fn lemma_filtered_counter_counts_ownership_query(
    counter: FilteredCounter,
    next: FilteredCounter,
    success: bool,
)
    requires
        exists|hook: &mut FilteredCounter|
            mut_ref_current(hook) == counter && mut_ref_future(hook) == next && call_ensures(
                FilteredCounter::after_owns,
                (hook, success),
                (),
            ),
    ensures
        next@.len() == 19,
        next@[owns_slot(success)] == vstd::wrapping::u64_specs::wrapping_add(counter@[owns_slot(success)], 1),
        forall|j: int| 0 <= j < 19 && j != owns_slot(success) ==> #[trigger] next@[j] == counter@[j],
{
    let hook = choose|hook: &mut FilteredCounter|
        mut_ref_current(hook) == counter && mut_ref_future(hook) == next && call_ensures(
            FilteredCounter::after_owns,
            (hook, success),
            (),
        );
    counter.lemma_len();
}

/// A `FilteredAtomicCounter` counts a deallocation: after its `before_deallocate` hook, the number of deallocations has grown by
/// one, wrapping on overflow, and every other count is as it was.
pub proof fn lemma_filtered_atomic_counter_counts_deallocation(
    counter: FilteredAtomicCounter,
    next: FilteredAtomicCounter,
    ptr: usize,
    layout: Layout,
)
    requires
        exists|hook: &mut FilteredAtomicCounter|
            mut_ref_current(hook) == counter && mut_ref_future(hook) == next && call_ensures(
                FilteredAtomicCounter::before_deallocate,
                (hook, ptr, layout),
                (),
            ),
    ensures
        next@.len() == 19,
        next@[dealloc_slot()] == vstd::wrapping::u64_specs::wrapping_add(counter@[dealloc_slot()], 1),
        forall|j: int| 0 <= j < 19 && j != dealloc_slot() ==> #[trigger] next@[j] == counter@[j],
{
    let hook = choose|hook: &mut FilteredAtomicCounter|
        mut_ref_current(hook) == counter && mut_ref_future(hook) == next && call_ensures(
            FilteredAtomicCounter::before_deallocate,
            (hook, ptr, layout),
            (),
        );
    counter.lemma_len();
}

/// A `FilteredAtomicCounter` counts an ownership query by its answer: after its `after_owns` hook, the number of ownership queries with that answer has grown by
/// one, wrapping on overflow, and every other count is as it was.
pub proof fn lemma_filtered_atomic_counter_counts_ownership_query(
    counter: FilteredAtomicCounter,
    next: FilteredAtomicCounter,
    success: bool,
)
    requires
        exists|hook: &mut FilteredAtomicCounter|
            mut_ref_current(hook) == counter && mut_ref_future(hook) == next && call_ensures(
                FilteredAtomicCounter::after_owns,
                (hook, success),
                (),
            ),
    ensures
        next@.len() == 19,
        next@[owns_slot(success)] == vstd::wrapping::u64_specs::wrapping_add(counter@[owns_slot(success)], 1),
        forall|j: int| 0 <= j < 19 && j != owns_slot(success) ==> #[trigger] next@[j] == counter@[j],
{
    let hook = choose|hook: &mut FilteredAtomicCounter|
        mut_ref_current(hook) == counter && mut_ref_future(hook) == next && call_ensures(
            FilteredAtomicCounter::after_owns,
            (hook, success),
            (),
        );
    counter.lemma_len();
}

} // verus!
