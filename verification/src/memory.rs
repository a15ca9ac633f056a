use vstd::prelude::*;

verus! {

/// The contents of an address range: `bytes[i]` is the byte at address `base + i`.
pub struct MemView {
    pub base: int,
    pub bytes: Seq<u8>,
}

impl MemView {
    /// The first address of the range.
    pub open spec fn lo(self) -> int {
        self.base
    }

    /// One past the last address of the range.
    pub open spec fn hi(self) -> int {
        self.base + self.bytes.len()
    }

    /// The `n` bytes starting at `addr` all lie in the range.
    pub open spec fn contains(self, addr: int, n: int) -> bool {
        self.lo() <= addr && 0 <= n && addr + n <= self.hi()
    }

    /// The byte at address `addr`.
    pub open spec fn byte(self, addr: int) -> u8 {
        self.bytes[addr - self.base]
    }

    /// The `n` bytes starting at `addr`.
    pub open spec fn range(self, addr: int, n: int) -> Seq<u8> {
        self.bytes.subrange(addr - self.base, addr - self.base + n)
    }

    /// Both views cover the same addresses.
    pub open spec fn same_range(self, other: MemView) -> bool {
        self.base == other.base && self.bytes.len() == other.bytes.len()
    }

    /// The view after setting the `n` bytes starting at `addr` to `value`.
    pub open spec fn fill(self, addr: int, n: int, value: u8) -> MemView {
        MemView {
            base: self.base,
            bytes: Seq::new(
                self.bytes.len(),
                |i: int|
                    if addr - self.base <= i < addr - self.base + n {
                        value
                    } else {
                        self.bytes[i]
                    },
            ),
        }
    }

    /// The view after copying the `n` bytes at `src` to `dst`; the ranges may overlap.
    pub open spec fn copy(self, src: int, dst: int, n: int) -> MemView {
        MemView {
            base: self.base,
            bytes: Seq::new(
                self.bytes.len(),
                |i: int|
                    if dst - self.base <= i < dst - self.base + n {
                        self.bytes[i + (src - dst)]
                    } else {
                        self.bytes[i]
                    },
            ),
        }
    }

    /// The view after writing `data` at `addr`.
    pub open spec fn write(self, addr: int, data: Seq<u8>) -> MemView {
        MemView {
            base: self.base,
            bytes: Seq::new(
                self.bytes.len(),
                |i: int|
                    if addr - self.base <= i < addr - self.base + data.len() {
                        data[i - (addr - self.base)]
                    } else {
                        self.bytes[i]
                    },
            ),
        }
    }
}

/// The bytes of an address range on which allocators work.
///
/// Addresses start at `base`, which is never zero, and the range ends at or before `usize::MAX`.
pub struct Memory {
    base: usize,
    bytes: Vec<u8>,
}

impl View for Memory {
    type V = MemView;

    closed spec fn view(&self) -> MemView {
        MemView { base: self.base as int, bytes: self.bytes@ }
    }
}

impl Memory {
    /// Addresses start above zero and the range ends at or before `usize::MAX`.
    pub open spec fn wf(&self) -> bool {
        &&& self.lo() >= 1
        &&& self.hi() <= usize::MAX
    }

    /// The first address.
    pub open spec fn lo(&self) -> int {
        self@.lo()
    }

    /// One past the last address.
    pub open spec fn hi(&self) -> int {
        self@.hi()
    }

    /// A memory whose address `base + i` holds `bytes[i]`.
    pub fn new(base: usize, bytes: Vec<u8>) -> (r: Memory)
        requires
            base >= 1,
            base + bytes.len() <= usize::MAX,
        ensures
            r@ == (MemView { base: base as int, bytes: bytes@ }),
            r.wf(),
    {
        Memory { base, bytes }
    }

    /// The first address.
    pub fn base(&self) -> (r: usize)
        ensures
            r == self.lo(),
    {
        self.base
    }

    /// The number of addresses.
    pub fn len(&self) -> (r: usize)
        ensures
            r == self.hi() - self.lo(),
    {
        self.bytes.len()
    }

    /// The byte at `addr`.
    pub fn read(&self, addr: usize) -> (r: u8)
        requires
            self@.contains(addr as int, 1),
        ensures
            r == self@.byte(addr as int),
    {
        self.bytes[addr - self.base]
    }

    /// Sets the byte at `addr`.
    pub fn write(&mut self, addr: usize, value: u8)
        requires
            old(self)@.contains(addr as int, 1),
        ensures
            final(self)@ == old(self)@.write(addr as int, seq![value]),
    {
        let i = addr - self.base;
        self.bytes.set(i, value);
        proof {
            assert(self@.bytes =~= old(self)@.write(addr as int, seq![value]).bytes);
        }
    }

    /// The `n` bytes starting at `addr`.
    pub fn read_range(&self, addr: usize, n: usize) -> (r: Vec<u8>)
        requires
            self@.contains(addr as int, n as int),
        ensures
            r@ == self@.range(addr as int, n as int),
    {
        let start = addr - self.base;
        let mut out: Vec<u8> = Vec::new();
        let mut i: usize = 0;
        while i < n
            invariant
                i <= n,
                start + n <= self.bytes.len(),
                start == addr - self.base,
                out@ == self.bytes@.subrange(start as int, start + i),
            decreases n - i,
        {
            out.push(self.bytes[start + i]);
            i = i + 1;
            proof {
                assert(out@ =~= self.bytes@.subrange(start as int, start + i));
            }
        }
        out
    }

    /// Writes `data` at `addr`.
    pub fn write_range(&mut self, addr: usize, data: &[u8])
        requires
            old(self)@.contains(addr as int, data@.len() as int),
        ensures
            final(self)@ == old(self)@.write(addr as int, data@),
    {
        let start = addr - self.base;
        let n = data.len();
        let ghost orig = self@;
        let mut i: usize = 0;
        while i < n
            invariant
                i <= n,
                n == data@.len(),
                start == addr - orig.base,
                self@.base == orig.base,
                start + n <= self.bytes.len(),
                self.bytes@.len() == orig.bytes.len(),
                forall|j: int|
                    0 <= j < self.bytes@.len() ==> #[trigger] self.bytes@[j] == (if start <= j
                        < start + i {
                        data@[j - start]
                    } else {
                        orig.bytes[j]
                    }),
            decreases n - i,
        {
            self.bytes.set(start + i, data[i]);
            i = i + 1;
        }
        proof {
            assert(self@.bytes =~= orig.write(addr as int, data@).bytes);
        }
    }

    /// Sets the `n` bytes starting at `addr` to `value`.
    pub fn fill(&mut self, addr: usize, n: usize, value: u8)
        requires
            old(self)@.contains(addr as int, n as int),
        ensures
            final(self)@ == old(self)@.fill(addr as int, n as int, value),
    {
        let start = addr - self.base;
        let ghost orig = self@;
        let mut i: usize = 0;
        while i < n
            invariant
                i <= n,
                start == addr - orig.base,
                self@.base == orig.base,
                start + n <= self.bytes.len(),
                self.bytes@.len() == orig.bytes.len(),
                forall|j: int|
                    0 <= j < self.bytes@.len() ==> #[trigger] self.bytes@[j] == (if start <= j
                        < start + i {
                        value
                    } else {
                        orig.bytes[j]
                    }),
            decreases n - i,
        {
            self.bytes.set(start + i, value);
            i = i + 1;
        }
        proof {
            assert(self@.bytes =~= orig.fill(addr as int, n as int, value).bytes);
        }
    }

    /// Copies the `n` bytes at `src` to `dst`. The ranges may overlap; the result is as if the
    /// source bytes were read before any byte was written.
    pub fn copy(&mut self, src: usize, dst: usize, n: usize)
        requires
            old(self)@.contains(src as int, n as int),
            old(self)@.contains(dst as int, n as int),
        ensures
            final(self)@ == old(self)@.copy(src as int, dst as int, n as int),
    {
        let s = src - self.base;
        let d = dst - self.base;
        let ghost orig = self@;
        if d <= s {
            // Copying forwards reads every source byte before it could be overwritten.
            let mut i: usize = 0;
            while i < n
                invariant
                    i <= n,
                    d <= s,
                    s == src - orig.base,
                    d == dst - orig.base,
                    self@.base == orig.base,
                    s + n <= self.bytes.len(),
                    d + n <= self.bytes.len(),
                    self.bytes@.len() == orig.bytes.len(),
                    forall|j: int|
                        0 <= j < self.bytes@.len() ==> #[trigger] self.bytes@[j] == (if d <= j < d
                            + i {
                            orig.bytes[j + (s - d)]
                        } else {
                            orig.bytes[j]
                        }),
                decreases n - i,
            {
                let b = self.bytes[s + i];
                self.bytes.set(d + i, b);
                i = i + 1;
            }
        } else {
            // Copying backwards for the same reason when the destination lies after the source.
            let mut i: usize = n;
            while i > 0
                invariant
                    i <= n,
                    s < d,
                    s == src - orig.base,
                    d == dst - orig.base,
                    self@.base == orig.base,
                    s + n <= self.bytes.len(),
                    d + n <= self.bytes.len(),
                    self.bytes@.len() == orig.bytes.len(),
                    forall|j: int|
                        0 <= j < self.bytes@.len() ==> #[trigger] self.bytes@[j] == (if d + i <= j
                            < d + n {
                            orig.bytes[j + (s - d)]
                        } else {
                            orig.bytes[j]
                        }),
                decreases i,
            {
                i = i - 1;
                let b = self.bytes[s + i];
                self.bytes.set(d + i, b);
            }
        }
        proof {
            assert(self@.bytes =~= orig.copy(src as int, dst as int, n as int).bytes);
        }
    }
}

} // verus!
