# alloc_compose

Composable allocator structures for plugging together more powerful allocators, verified with
Verus.

Memory is modelled explicitly: a `Memory` holds the bytes of an address range, and every
allocator hands out blocks of addresses inside it. The allocator traits (`AllocRef`,
`AllocAll`, `AllocateAll`, `ReallocInPlace`, `Owns`) state each operation as a relation between
the allocator's state before and after the call, the memory before and after, and the result.
Composed allocators state their relations in terms of the relations of their parts. Every
allocator states that growing and shrinking keep the bytes of the block up to the smaller size;
`HandsBack` states that a block handed out may be handed back, grown and shrunk.

Layout of `src/`:

- `lib.rs`: the allocator traits, and `HandsBack`.
- `layout.rs`, `memory.rs`: layouts of blocks and the memory model.
- `region_alloc.rs`, `region/`: stack allocators over a block of addresses (`Region`,
  `region::{Region, SharedRegion, IntrusiveRegion}` and their raw counterparts).
- `affix.rs`, `chunk.rs`, `chunk_alloc.rs`, `fallback.rs`, `fallback_alloc.rs`,
  `segregate.rs`, `segregate_alloc.rs`, `memory_marker.rs`, `null.rs`, `null_alloc.rs`:
  the building blocks.
- `proxy.rs`, `callback_ref.rs`, `stats.rs`: hooks around every call, and counters built on
  them.

The tests under `tests/` exercise the library on concrete memories.
