use crate::{AllocRef, AllocResult, Layout, MemView, Memory, MemoryBlock};
use vstd::prelude::*;
use vstd::string::StringExecFns;

verus! {

/// Whether newly handed out memory is left as it is or zeroed.
#[derive(Clone, Copy, Debug, PartialEq, Eq, Structural)]
pub enum AllocInit {
    /// The contents of the new memory are left as they are.
    Uninitialized,
    /// The new memory is zeroed.
    Zeroed,
}

/// Whether a reallocation may move the block.
#[derive(Clone, Copy, Debug, PartialEq, Eq, Structural)]
pub enum ReallocPlacement {
    /// The block may be moved to a new address.
    MayMove,
    /// The block must stay at its address.
    InPlace,
}

/// The decimal digit `d` as a character.
pub open spec fn digit_char(d: int) -> char {
    if d == 0 {
        '0'
    } else if d == 1 {
        '1'
    } else if d == 2 {
        '2'
    } else if d == 3 {
        '3'
    } else if d == 4 {
        '4'
    } else if d == 5 {
        '5'
    } else if d == 6 {
        '6'
    } else if d == 7 {
        '7'
    } else if d == 8 {
        '8'
    } else {
        '9'
    }
}

/// The decimal representation of `n`, without leading zeros.
pub open spec fn decimal(n: nat) -> Seq<char>
    decreases n,
{
    if n < 10 {
        seq![digit_char(n as int)]
    } else {
        decimal(n / 10).push(digit_char((n % 10) as int))
    }
}

/// Appends the decimal digit `d` to `s`.
fn push_digit(s: &mut String, d: usize)
    requires
        d < 10,
    ensures
        final(s)@ == old(s)@.push(digit_char(d as int)),
{
    match d {
        0 => {
            proof {
                reveal_strlit("0");
            }
            s.append("0");
        },
        1 => {
            proof {
                reveal_strlit("1");
            }
            s.append("1");
        },
        2 => {
            proof {
                reveal_strlit("2");
            }
            s.append("2");
        },
        3 => {
            proof {
                reveal_strlit("3");
            }
            s.append("3");
        },
        4 => {
            proof {
                reveal_strlit("4");
            }
            s.append("4");
        },
        5 => {
            proof {
                reveal_strlit("5");
            }
            s.append("5");
        },
        6 => {
            proof {
                reveal_strlit("6");
            }
            s.append("6");
        },
        7 => {
            proof {
                reveal_strlit("7");
            }
            s.append("7");
        },
        8 => {
            proof {
                reveal_strlit("8");
            }
            s.append("8");
        },
        9 => {
            proof {
                reveal_strlit("9");
            }
            s.append("9");
        },
        _ => {},
    }
}

/// Appends the decimal representation of `n` to `s`.
pub fn push_decimal(s: &mut String, n: usize)
    ensures
        final(s)@ == old(s)@ + decimal(n as nat),
    decreases n,
{
    if n >= 10 {
        push_decimal(s, n / 10);
    }
    push_digit(s, n % 10);
    proof {
        if n >= 10 {
            assert(decimal(n as nat) == decimal((n / 10) as nat).push(digit_char((n % 10) as int)));
        }
    }
}

/// Marks a condition that is expected to be false; it is the condition itself.
pub fn unlikely(b: bool) -> (r: bool)
    ensures
        r == b,
{
    b
}

impl AllocInit {
    /// The memory after initializing the bytes of `block` from `offset` on.
    pub open spec fn init_offset_spec(self, mem: MemView, block: MemoryBlock, offset: int) -> MemView {
        match self {
            AllocInit::Uninitialized => mem,
            AllocInit::Zeroed => mem.fill(block.ptr + offset, block.len - offset, 0),
        }
    }

    /// Initializes the bytes of `block` from `offset` on: zeroes them for `Zeroed`, leaves them
    /// for `Uninitialized`.
    pub fn init_offset(self, mem: &mut Memory, block: MemoryBlock, offset: usize)
        requires
            offset <= block.len,
            old(mem).wf(),
            old(mem)@.contains(block.ptr as int, block.len as int),
        ensures
            final(mem)@ == self.init_offset_spec(old(mem)@, block, offset as int),
    {
        match self {
            AllocInit::Uninitialized => {},
            AllocInit::Zeroed => {
                mem.fill(block.ptr + offset, block.len - offset, 0);
            },
        }
    }

    /// Initializes all bytes of `block`.
    pub fn init(self, mem: &mut Memory, block: MemoryBlock)
        requires
            old(mem).wf(),
            old(mem)@.contains(block.ptr as int, block.len as int),
        ensures
            final(mem)@ == self.init_offset_spec(old(mem)@, block, 0),
    {
        self.init_offset(mem, block, 0)
    }
}

/// Moving the block at `ptr` from `a1` to `a2`: `a2` allocates `new_layout`, `a1` deallocates
/// the old block, and the old bytes, read before anything else happened, are written at the
/// start of the new block, whose remaining bytes are initialized as `init` asks. When `a2`
/// fails, nothing else happens.
pub open spec fn grow_fallback_rel<A1: AllocRef, A2: AllocRef>(
    a1: A1,
    a2: A2,
    mem: MemView,
    ptr: usize,
    old_layout: Layout,
    new_layout: Layout,
    init: AllocInit,
    next1: A1,
    next2: A2,
    next_mem: MemView,
    r: AllocResult,
) -> bool {
    exists|m1: MemView|
        {
            &&& #[trigger] a2.alloc_rel(mem, new_layout, init, next2, m1, r)
            &&& r is Err ==> next1 == a1 && next_mem == m1 && m1 == mem
            &&& r is Ok ==> exists|m2: MemView|
                #[trigger] a1.dealloc_rel(m1, ptr, old_layout, next1, m2) && next_mem
                    == init.init_offset_spec(
                    m2.write(r->Ok_0.ptr as int, mem.range(ptr as int, old_layout.size() as int)),
                    r->Ok_0,
                    old_layout.size() as int,
                )
        }
}

/// Moves the block at `ptr` from `a1` to a new block of `a2` described by `new_layout`, copying
/// the bytes of the old block.
pub fn grow_fallback<A1: AllocRef, A2: AllocRef>(
    a1: &mut A1,
    a2: &mut A2,
    mem: &mut Memory,
    ptr: usize,
    old_layout: Layout,
    new_layout: Layout,
    init: AllocInit,
) -> (r: AllocResult)
    requires
        old(a1).inv(old(mem).lo(), old(mem).hi()),
        old(a2).inv(old(mem).lo(), old(mem).hi()),
        old(mem).wf(),
        old(a1).dealloc_pre(ptr, old_layout),
        old_layout.size() <= new_layout.size(),
    ensures
        final(mem)@.same_range(old(mem)@),
        final(a1).inv(final(mem).lo(), final(mem).hi()),
        final(a2).inv(final(mem).lo(), final(mem).hi()),
        grow_fallback_rel(
            *old(a1),
            *old(a2),
            old(mem)@,
            ptr,
            old_layout,
            new_layout,
            init,
            *final(a1),
            *final(a2),
            final(mem)@,
            r,
        ),
        r is Ok ==> block_fits_new(r->Ok_0, new_layout, old(mem)@),
        r is Ok ==> forall|i: int|
            0 <= i < old_layout.size() ==> #[trigger] final(mem)@.byte(r->Ok_0.ptr + i)
                == old(mem)@.byte(ptr + i),
        (r is Ok && init == AllocInit::Zeroed) ==> forall|i: int|
            old_layout.size() <= i < r->Ok_0.len ==> #[trigger] final(mem)@.byte(r->Ok_0.ptr + i)
                == 0,
        r is Err ==> final(mem)@ == old(mem)@ && *final(a1) == *old(a1) && old(a2).equiv(*final(a2)),
{
    let ghost mem0 = mem@;
    proof {
        a1.lemma_dealloc_pre(mem@.lo(), mem@.hi(), ptr, old_layout);
    }
    let saved = mem.read_range(ptr, old_layout.size());
    let new_ptr = match init {
        AllocInit::Uninitialized => a2.allocate(mem, new_layout),
        AllocInit::Zeroed => a2.allocate_zeroed(mem, new_layout),
    };
    match new_ptr {
        Err(e) => {
            proof {
                assert(old(a2).alloc_rel(mem0, new_layout, init, *a2, mem@, Err(e)));
            }
            Err(e)
        },
        Ok(block) => {
            let ghost m1 = mem@;
            a1.deallocate(mem, ptr, old_layout);
            let ghost m2 = mem@;
            mem.write_range(block.ptr, saved.as_slice());
            init.init_offset(mem, block, old_layout.size());
            proof {
                assert(old(a2).alloc_rel(mem0, new_layout, init, *a2, m1, Ok(block)));
                assert(old(a1).dealloc_rel(m1, ptr, old_layout, *a1, m2));
            }
            Ok(block)
        },
    }
}

/// The block `b` serves `layout` inside the memory `m`.
pub open spec fn block_fits_new(b: MemoryBlock, layout: Layout, m: MemView) -> bool {
    crate::block_fits(b, layout, m.lo(), m.hi())
}

/// Moving the block at `ptr` from `a1` to `a2` while shrinking it: `a2` allocates `new_layout`,
/// `a1` deallocates the old block, and the first `new_layout.size()` old bytes, read before
/// anything else happened, are written at the start of the new block.
pub open spec fn shrink_fallback_rel<A1: AllocRef, A2: AllocRef>(
    a1: A1,
    a2: A2,
    mem: MemView,
    ptr: usize,
    old_layout: Layout,
    new_layout: Layout,
    next1: A1,
    next2: A2,
    next_mem: MemView,
    r: AllocResult,
) -> bool {
    exists|m1: MemView|
        {
            &&& #[trigger] a2.alloc_rel(
                mem,
                new_layout,
                AllocInit::Uninitialized,
                next2,
                m1,
                r,
            )
            &&& r is Err ==> next1 == a1 && next_mem == m1 && m1 == mem
            &&& r is Ok ==> exists|m2: MemView|
                #[trigger] a1.dealloc_rel(m1, ptr, old_layout, next1, m2) && next_mem == m2.write(
                    r->Ok_0.ptr as int,
                    mem.range(ptr as int, new_layout.size() as int),
                )
        }
}

/// Moves the block at `ptr` from `a1` to a new, smaller block of `a2` described by
/// `new_layout`, copying the bytes that still fit.
pub fn shrink_fallback<A1: AllocRef, A2: AllocRef>(
    a1: &mut A1,
    a2: &mut A2,
    mem: &mut Memory,
    ptr: usize,
    old_layout: Layout,
    new_layout: Layout,
) -> (r: AllocResult)
    requires
        old(a1).inv(old(mem).lo(), old(mem).hi()),
        old(a2).inv(old(mem).lo(), old(mem).hi()),
        old(mem).wf(),
        old(a1).dealloc_pre(ptr, old_layout),
        new_layout.size() <= old_layout.size(),
    ensures
        final(mem)@.same_range(old(mem)@),
        final(a1).inv(final(mem).lo(), final(mem).hi()),
        final(a2).inv(final(mem).lo(), final(mem).hi()),
        shrink_fallback_rel(
            *old(a1),
            *old(a2),
            old(mem)@,
            ptr,
            old_layout,
            new_layout,
            *final(a1),
            *final(a2),
            final(mem)@,
            r,
        ),
        r is Ok ==> block_fits_new(r->Ok_0, new_layout, old(mem)@),
        r is Ok ==> forall|i: int|
            0 <= i < new_layout.size() ==> #[trigger] final(mem)@.byte(r->Ok_0.ptr + i)
                == old(mem)@.byte(ptr + i),
        r is Err ==> final(mem)@ == old(mem)@ && *final(a1) == *old(a1) && old(a2).equiv(*final(a2)),
{
    let ghost mem0 = mem@;
    proof {
        a1.lemma_dealloc_pre(mem@.lo(), mem@.hi(), ptr, old_layout);
    }
    let saved = mem.read_range(ptr, new_layout.size());
    match a2.allocate(mem, new_layout) {
        Err(e) => {
            proof {
                assert(old(a2).alloc_rel(mem0, new_layout, AllocInit::Uninitialized, *a2, mem@, Err(e)));
            }
            Err(e)
        },
        Ok(block) => {
            let ghost m1 = mem@;
            a1.deallocate(mem, ptr, old_layout);
            let ghost m2 = mem@;
            mem.write_range(block.ptr, saved.as_slice());
            proof {
                assert(old(a2).alloc_rel(mem0, new_layout, AllocInit::Uninitialized, *a2, m1, Ok(block)));
                assert(old(a1).dealloc_rel(m1, ptr, old_layout, *a1, m2));
            }
            Ok(block)
        },
    }
}

} // verus!
