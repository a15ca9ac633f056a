use vstd::prelude::*;

verus! {

/// `n` is a power of two.
pub open spec fn is_power_of_two(n: int) -> bool
    decreases n,
{
    if n <= 0 {
        false
    } else if n == 1 {
        true
    } else {
        n % 2 == 0 && is_power_of_two(n / 2)
    }
}

/// `x` rounded up to the next multiple of `align`.
pub open spec fn round_up(x: int, align: int) -> int
    recommends
        align > 0,
{
    (x + align - 1) / align * align
}

/// `x` rounded down to a multiple of `align`.
pub open spec fn round_down(x: int, align: int) -> int
    recommends
        align > 0,
{
    x - x % align
}

/// Facts about rounding down to a multiple.
pub proof fn lemma_round_down(x: int, align: int)
    requires
        x >= 0,
        align >= 1,
    ensures
        0 <= round_down(x, align) <= x,
        x - round_down(x, align) < align,
        round_down(x, align) % align == 0,
        forall|y: int| #![trigger y % align] 0 <= y <= x && y % align == 0 ==> y <= round_down(x, align),
{
    let q = x / align;
    assert(x == q * align + x % align) by (nonlinear_arith)
        requires
            align >= 1,
            q == x / align,
    ;
    assert((q * align) % align == 0) by (nonlinear_arith)
        requires
            align >= 1,
    ;
    assert forall|y: int| #![trigger y % align] 0 <= y <= x && y % align == 0 implies y <= round_down(x, align) by {
        let k = y / align;
        assert(y == k * align) by (nonlinear_arith)
            requires
                align >= 1,
                y % align == 0,
                k == y / align,
        ;
        assert(k <= q) by (nonlinear_arith)
            requires
                y == k * align,
                x == q * align + x % align,
                0 <= x % align < align,
                y <= x,
                align >= 1,
        ;
        assert(k * align <= q * align) by (nonlinear_arith)
            requires
                k <= q,
                align >= 1,
        ;
    }
}

/// The largest size a layout with alignment `align` may have: its size rounded up to `align` must
/// not exceed `isize::MAX`.
pub open spec fn max_size_for_align(align: int) -> int {
    isize::MAX as int - (isize::MAX as int % align)
}

/// A size and an alignment that describe a block of memory.
pub open spec fn valid_layout(size: int, align: int) -> bool {
    &&& is_power_of_two(align)
    &&& 0 <= size <= max_size_for_align(align)
}

pub proof fn lemma_power_of_two_positive(n: int)
    requires
        is_power_of_two(n),
    ensures
        n >= 1,
{
}

/// A smaller power of two divides a larger one.
pub proof fn lemma_power_of_two_divides(a: int, b: int)
    requires
        is_power_of_two(a),
        is_power_of_two(b),
        a <= b,
    ensures
        b % a == 0,
    decreases a,
{
    if a == 1 {
    } else {
        lemma_power_of_two_positive(a / 2);
        lemma_power_of_two_positive(b / 2);
        lemma_power_of_two_divides(a / 2, b / 2);
        let k = (b / 2) / (a / 2);
        assert((b / 2) == k * (a / 2)) by (nonlinear_arith)
            requires
                (b / 2) % (a / 2) == 0,
                a / 2 >= 1,
                k == (b / 2) / (a / 2),
        ;
        assert(b == k * a) by (nonlinear_arith)
            requires
                b % 2 == 0,
                a % 2 == 0,
                (b / 2) == k * (a / 2),
        ;
        assert(b % a == 0) by (nonlinear_arith)
            requires
                b == k * a,
                a >= 1,
        ;
    }
}

/// Divisibility is transitive.
pub proof fn lemma_mod_transitive(x: int, m: int, a: int)
    requires
        a >= 1,
        m >= 1,
        x % m == 0,
        m % a == 0,
    ensures
        x % a == 0,
{
    let k = x / m;
    let j = m / a;
    assert(x == k * m) by (nonlinear_arith)
        requires
            x % m == 0,
            m >= 1,
            k == x / m,
    ;
    assert(m == j * a) by (nonlinear_arith)
        requires
            m % a == 0,
            a >= 1,
            j == m / a,
    ;
    assert(x == (k * j) * a) by (nonlinear_arith)
        requires
            x == k * m,
            m == j * a,
    ;
    assert(x % a == 0) by (nonlinear_arith)
        requires
            x == (k * j) * a,
            a >= 1,
    ;
}

/// Facts about rounding up to a multiple.
pub proof fn lemma_round_up(x: int, align: int)
    requires
        x >= 0,
        align >= 1,
    ensures
        round_up(x, align) >= x,
        round_up(x, align) < x + align,
        round_up(x, align) % align == 0,
        x % align == 0 ==> round_up(x, align) == x,
{
    let q = (x + align - 1) / align;
    let r = (x + align - 1) % align;
    assert(x + align - 1 == q * align + r && 0 <= r < align) by (nonlinear_arith)
        requires
            align >= 1,
            q == (x + align - 1) / align,
            r == (x + align - 1) % align,
    ;
    assert((q * align) % align == 0) by (nonlinear_arith)
        requires
            align >= 1,
    ;
    if x % align == 0 {
        let k = x / align;
        assert(x == k * align) by (nonlinear_arith)
            requires
                align >= 1,
                x % align == 0,
                k == x / align,
        ;
        assert(q == k) by (nonlinear_arith)
            requires
                x + align - 1 == q * align + r,
                0 <= r < align,
                x == k * align,
                align >= 1,
        ;
    }
}

/// The error of a failed allocation.
#[derive(Clone, Copy, Debug, PartialEq, Eq, Structural)]
pub struct AllocError;

/// The error of a layout whose parameters are not valid.
#[derive(Clone, Copy, Debug, PartialEq, Eq, Structural)]
pub struct LayoutError;

/// A block of memory: `len` bytes starting at address `ptr`.
#[derive(Clone, Copy, Debug, PartialEq, Eq, Structural)]
pub struct MemoryBlock {
    pub ptr: usize,
    pub len: usize,
}

impl MemoryBlock {
    /// The address one past the last byte of the block.
    pub open spec fn end(self) -> int {
        self.ptr + self.len
    }
}

/// The size and the alignment of a block of memory.
///
/// The alignment is a power of two, and the size rounded up to the alignment does not exceed
/// `isize::MAX`.
#[derive(Clone, Copy, Debug, PartialEq, Eq, Structural)]
pub struct Layout {
    size: usize,
    align: usize,
}

impl Layout {
    #[verifier::type_invariant]
    pub closed spec fn layout_inv(self) -> bool {
        valid_layout(self.size as int, self.align as int)
    }

    pub closed spec fn spec_size(&self) -> usize {
        self.size
    }

    pub closed spec fn spec_align(&self) -> usize {
        self.align
    }

    /// The layout with the given size and alignment; meaningful where they form a valid layout.
    pub closed spec fn from_parts(size: usize, align: usize) -> Layout {
        Layout { size, align }
    }

    pub proof fn lemma_from_parts(size: usize, align: usize)
        ensures
            #[trigger] Layout::from_parts(size, align).size() == size,
            Layout::from_parts(size, align).align() == align,
    {
    }

    pub proof fn lemma_parts(self)
        ensures
            Layout::from_parts(self.size(), self.align()) == self,
    {
    }

    /// The size of a block described by this layout.
    #[verifier::when_used_as_spec(spec_size)]
    pub fn size(&self) -> (r: usize)
        ensures
            r == self.spec_size(),
            valid_layout(self.spec_size() as int, self.spec_align() as int),
            self.spec_align() >= 1,
    {
        proof {
            use_type_invariant(self);
            lemma_power_of_two_positive(self.align as int);
        }
        self.size
    }

    /// The alignment of a block described by this layout.
    #[verifier::when_used_as_spec(spec_align)]
    pub fn align(&self) -> (r: usize)
        ensures
            r == self.spec_align(),
            valid_layout(self.spec_size() as int, self.spec_align() as int),
            self.spec_align() >= 1,
    {
        proof {
            use_type_invariant(self);
            lemma_power_of_two_positive(self.align as int);
        }
        self.align
    }

    /// Creates a layout from a size and an alignment, failing when the alignment is not a power
    /// of two or the size rounded up to the alignment overflows `isize`.
    pub fn from_size_align(size: usize, align: usize) -> (r: Result<Layout, LayoutError>)
        ensures
            r is Ok <==> valid_layout(size as int, align as int),
            r is Ok ==> r->Ok_0 == Layout::from_parts(size, align),
    {
        if !usize_is_power_of_two(align) {
            return Err(LayoutError);
        }
        proof {
            lemma_power_of_two_positive(align as int);
        }
        let limit: usize = isize::MAX as usize;
        assert(limit == isize::MAX);
        assert(limit % align <= limit) by (nonlinear_arith)
            requires
                align >= 1,
        ;
        let max: usize = limit - limit % align;
        if size > max {
            return Err(LayoutError);
        }
        Ok(Layout { size, align })
    }

    /// Creates a layout from parts that are known to be valid.
    pub fn from_size_align_unchecked(size: usize, align: usize) -> (r: Layout)
        requires
            valid_layout(size as int, align as int),
        ensures
            r == Layout::from_parts(size, align),
    {
        Layout { size, align }
    }

    /// The layout of a value of type `T`.
    pub fn new<T>() -> (r: Layout)
        ensures
            r.size() == vstd::layout::size_of::<T>(),
            r.align() == vstd::layout::align_of::<T>(),
            r == type_layout::<T>(),
            valid_layout(r.size() as int, r.align() as int),
    {
        vstd::layout::layout_for_type_is_valid::<T>();
        let size = core::mem::size_of::<T>();
        let align = core::mem::align_of::<T>();
        proof {
            lemma_vstd_pow2(align as int);
        }
        Layout { size, align }
    }

    /// The number of padding bytes needed after `self.size()` so that the following address is
    /// a multiple of `align`.
    pub fn padding_needed_for(&self, align: usize) -> (r: usize)
        requires
            is_power_of_two(align as int),
        ensures
            r == round_up(self.size() as int, align as int) - self.size(),
    {
        proof {
            use_type_invariant(self);
            lemma_power_of_two_positive(align as int);
            lemma_round_up(self.size as int, align as int);
        }
        let rem = self.size % align;
        if rem == 0 {
            proof {
                assert(round_up(self.size as int, align as int) == self.size);
            }
            0
        } else {
            proof {
                lemma_round_up_rem(self.size as int, align as int);
            }
            align - rem
        }
    }

    /// The layout of a record made of `self` followed by `next`, with `next` placed at the first
    /// offset after `self` that is a multiple of `next.align()`. Returns the layout of the record
    /// and the offset of `next` in it; no trailing padding is added.
    pub fn extend(&self, next: Layout) -> (r: Result<(Layout, usize), LayoutError>)
        ensures
            r is Ok <==> extend_spec(*self, next) is Some,
            r is Ok ==> r->Ok_0 == extend_spec(*self, next)->Some_0,
    {
        proof {
            use_type_invariant(self);
            use_type_invariant(&next);
            lemma_power_of_two_positive(next.align as int);
        }
        let new_align = if self.align >= next.align {
            self.align
        } else {
            next.align
        };
        let pad = self.padding_needed_for(next.align);
        let offset = match self.size.checked_add(pad) {
            Some(o) => o,
            None => return Err(LayoutError),
        };
        let new_size = match offset.checked_add(next.size) {
            Some(s) => s,
            None => return Err(LayoutError),
        };
        match Layout::from_size_align(new_size, new_align) {
            Ok(layout) => Ok((layout, offset)),
            Err(e) => Err(e),
        }
    }
}

/// The layout of a value of type `T`.
pub open spec fn type_layout<T>() -> Layout {
    Layout::from_parts(
        vstd::layout::size_of::<T>() as usize,
        vstd::layout::align_of::<T>() as usize,
    )
}

/// The record of `first` followed by `next` (see [`Layout::extend`]).
pub open spec fn extend_spec(first: Layout, next: Layout) -> Option<(Layout, usize)> {
    let offset = round_up(first.size() as int, next.align() as int);
    let size = offset + next.size();
    let align = if first.align() >= next.align() {
        first.align()
    } else {
        next.align()
    };
    if size <= usize::MAX && valid_layout(size, align as int) {
        Some((Layout::from_parts(size as usize, align), offset as usize))
    } else {
        None
    }
}

proof fn lemma_round_up_rem(x: int, align: int)
    requires
        x >= 0,
        align >= 1,
        x % align != 0,
    ensures
        round_up(x, align) == x + (align - x % align),
{
    let q = x / align;
    let r = x % align;
    assert(x == q * align + r && 0 < r < align) by (nonlinear_arith)
        requires
            align >= 1,
            q == x / align,
            r == x % align,
            r != 0,
    ;
    assert((x + align - 1) / align == q + 1) by (nonlinear_arith)
        requires
            x == q * align + r,
            0 < r < align,
    ;
    assert((q + 1) * align == x + (align - r)) by (nonlinear_arith)
        requires
            x == q * align + r,
    ;
}

proof fn lemma_vstd_pow2(n: int)
    requires
        vstd::arithmetic::power2::is_pow2(n),
    ensures
        is_power_of_two(n),
    decreases n,
{
    reveal(vstd::arithmetic::power2::is_pow2);
    if n > 1 {
        lemma_vstd_pow2(n / 2);
    }
}

/// Whether `n` is a power of two.
pub fn usize_is_power_of_two(n: usize) -> (r: bool)
    ensures
        r == is_power_of_two(n as int),
{
    let mut m: usize = n;
    if m == 0 {
        return false;
    }
    while m > 1
        invariant
            m >= 1,
            is_power_of_two(n as int) == is_power_of_two(m as int),
        decreases m,
    {
        if m % 2 != 0 {
            return false;
        }
        m = m / 2;
    }
    true
}

} // verus!
