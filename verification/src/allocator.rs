//! The slab heap: fixed size-class free lists carved from the first half of
//! the boot-time heap region, and a bump region in the second half for large
//! allocations (which cannot be freed — a documented limitation).
//!
//! Storage is modelled as addresses: a block is the range
//! `[addr, addr + block_size)`. The invariants keep every free block inside
//! its class's carve, aligned to the class size, and distinct, so no two
//! live allocations ever share a byte.

use crate::addr::{align_down, align_up, is_power_of_two, spec_align_up};
use vstd::prelude::*;

verus! {

/// Number of slab size classes.
pub const NUM_SIZE_CLASSES: usize = 10;

/// The block size of a size class.
pub open spec fn spec_class_size(idx: int) -> u64 {
    if idx == 0 {
        8
    } else if idx == 1 {
        16
    } else if idx == 2 {
        32
    } else if idx == 3 {
        64
    } else if idx == 4 {
        128
    } else if idx == 5 {
        256
    } else if idx == 6 {
        512
    } else if idx == 7 {
        1024
    } else if idx == 8 {
        2048
    } else {
        4096
    }
}

/// The block size of a size class.
pub fn class_size(idx: usize) -> (r: u64)
    requires
        idx < NUM_SIZE_CLASSES,
    ensures
        r == spec_class_size(idx as int),
{
    if idx == 0 {
        8
    } else if idx == 1 {
        16
    } else if idx == 2 {
        32
    } else if idx == 3 {
        64
    } else if idx == 4 {
        128
    } else if idx == 5 {
        256
    } else if idx == 6 {
        512
    } else if idx == 7 {
        1024
    } else if idx == 8 {
        2048
    } else {
        4096
    }
}

/// The smallest size class that holds `size` bytes, if any.
pub open spec fn spec_size_to_class(size: u64) -> Option<usize> {
    if size <= 8 {
        Some(0usize)
    } else if size <= 16 {
        Some(1usize)
    } else if size <= 32 {
        Some(2usize)
    } else if size <= 64 {
        Some(3usize)
    } else if size <= 128 {
        Some(4usize)
    } else if size <= 256 {
        Some(5usize)
    } else if size <= 512 {
        Some(6usize)
    } else if size <= 1024 {
        Some(7usize)
    } else if size <= 2048 {
        Some(8usize)
    } else if size <= 4096 {
        Some(9usize)
    } else {
        None
    }
}

/// The smallest size class that holds `size` bytes, if any.
#[verifier::when_used_as_spec(spec_size_to_class)]
pub fn size_to_class(size: u64) -> (r: Option<usize>)
    ensures
        r == spec_size_to_class(size),
        r matches Some(idx) ==> idx < NUM_SIZE_CLASSES && size <= spec_class_size(idx as int),
{
    if size <= 8 {
        Some(0)
    } else if size <= 16 {
        Some(1)
    } else if size <= 32 {
        Some(2)
    } else if size <= 64 {
        Some(3)
    } else if size <= 128 {
        Some(4)
    } else if size <= 256 {
        Some(5)
    } else if size <= 512 {
        Some(6)
    } else if size <= 1024 {
        Some(7)
    } else if size <= 2048 {
        Some(8)
    } else if size <= 4096 {
        Some(9)
    } else {
        None
    }
}

/// The effective request size: the larger of size and alignment, as the
/// original layout rules demand.
pub open spec fn effective_size(size: u64, align: u64) -> u64 {
    if size >= align {
        size
    } else {
        align
    }
}

/// The least multiple of `align` at or above `a` (integer form).
pub open spec fn align_up_int(a: int, align: int) -> int {
    if a % align == 0 {
        a
    } else {
        a + align - (a % align)
    }
}

/// Where the class carve has reached after the first `n` size classes: each
/// class's slab starts at the previous carve end rounded up to its block
/// size and spans the whole blocks of an even tenth of the first heap half.
pub open spec fn carve_end(heap_start: u64, slab_size: u64, n: int) -> int
    decreases n,
{
    if n <= 0 {
        heap_start as int
    } else {
        let bs = spec_class_size(n - 1) as int;
        align_up_int(carve_end(heap_start, slab_size, n - 1), bs) + (slab_size as int - slab_size as int % bs)
    }
}

/// The sum of the first `n` class block sizes: the most the aligned carve
/// can overrun `n` even shares of the first heap half.
pub open spec fn class_overhead(n: int) -> int
    decreases n,
{
    if n <= 0 {
        0int
    } else {
        class_overhead(n - 1) + spec_class_size(n - 1)
    }
}

/// Two byte ranges share no byte.
pub open spec fn ranges_disjoint(a1: u64, s1: u64, a2: u64, s2: u64) -> bool {
    a1 + s1 <= a2 || a2 + s2 <= a1
}

/// One slab cache: a LIFO free list of equally sized blocks carved from
/// `[start, end)`.
pub struct SlabCache {
    /// Bytes per block.
    pub block_size: u64,
    /// First byte of the carved region.
    pub start: u64,
    /// One past the last byte of the carved region.
    pub end: u64,
    /// Addresses of the free blocks, most recently freed last.
    pub free_list: Vec<u64>,
}

impl SlabCache {
    /// Structural invariant: blocks lie inside the region, aligned to the
    /// block size relative to its start, and no block is free twice. The
    /// region itself starts block-aligned, so blocks are absolutely aligned.
    pub open spec fn wf(self) -> bool {
        &&& self.block_size >= 1
        &&& self.start <= self.end
        &&& self.start % self.block_size == 0
        &&& forall|i: int|
            0 <= i < self.free_list@.len() ==> {
                let a = #[trigger] self.free_list@[i];
                &&& self.start <= a
                &&& a + self.block_size <= self.end
                &&& a % self.block_size == 0
            }
        &&& forall|i: int, j: int|
            0 <= i < j < self.free_list@.len() ==> self.free_list@[i] != self.free_list@[j]
    }

    /// An empty cache for blocks of `block_size` bytes.
    pub fn new(block_size: u64) -> (r: Self)
        requires
            block_size >= 1,
        ensures
            r.wf(),
            r.block_size == block_size,
            r.start == 0 && r.end == 0,
            r.free_list@.len() == 0,
    {
        Self { block_size, start: 0, end: 0, free_list: Vec::new() }
    }

    /// Carve `[slab_start, slab_start + slab_size)` into blocks and put each
    /// on the free list. Used once per class at heap initialisation.
    pub fn add_slab(&mut self, slab_start: u64, slab_size: u64)
        requires
            old(self).wf(),
            old(self).free_list@.len() == 0,
            slab_start % old(self).block_size == 0,
            slab_start + slab_size <= u64::MAX,
            slab_size % old(self).block_size == 0,
        ensures
            final (self).wf(),
            final (self).block_size == old(self).block_size,
            final (self).start == slab_start,
            final (self).end == slab_start + slab_size,
            final (self).free_list@.len() == slab_size / old(self).block_size,
    {
        self.start = slab_start;
        self.end = slab_start + slab_size;
        let n = slab_size / self.block_size;
        proof {
            vstd::arithmetic::div_mod::lemma_fundamental_div_mod(
                slab_size as int,
                self.block_size as int,
            );
        }
        let mut k: u64 = 0;
        let mut free_list: Vec<u64> = Vec::new();
        while k < n
            invariant
                self.block_size >= 1,
                self.start == slab_start,
                self.end == slab_start + slab_size,
                slab_start % self.block_size == 0,
                slab_start + slab_size <= u64::MAX,
                n == slab_size / self.block_size,
                n * self.block_size == slab_size,
                k <= n,
                free_list@.len() == k,
                forall|i: int|
                    0 <= i < k ==> #[trigger] free_list@[i] == slab_start + i * self.block_size,
            decreases n - k,
        {
            proof {
                assert((k + 1) * self.block_size <= n * self.block_size) by (nonlinear_arith)
                    requires
                        k < n,
                        self.block_size >= 1,
                ;
                assert(k * self.block_size + self.block_size == (k + 1) * self.block_size)
                    by (nonlinear_arith);
            }
            let a = slab_start + k * self.block_size;
            free_list.push(a);
            k = k + 1;
        }
        self.free_list = free_list;
        proof {
            assert forall|i: int| 0 <= i < self.free_list@.len() implies {
                let a = #[trigger] self.free_list@[i];
                self.start <= a && a + self.block_size <= self.end && a % self.block_size == 0
            } by {
                assert(self.free_list@[i] == slab_start + i * self.block_size);
                assert(0 <= i * self.block_size && i * self.block_size + self.block_size == (i + 1)
                    * self.block_size && (i + 1) * self.block_size <= n * self.block_size)
                    by (nonlinear_arith)
                    requires
                        0 <= i < n,
                        self.block_size >= 1,
                ;
                vstd::arithmetic::div_mod::lemma_mod_multiples_basic(i, self.block_size as int);
                vstd::arithmetic::div_mod::lemma_add_mod_noop(
                    slab_start as int,
                    i * self.block_size,
                    self.block_size as int,
                );
                vstd::arithmetic::div_mod::lemma_small_mod(0, self.block_size as nat);
            }
            assert forall|i: int, j: int|
                0 <= i < j < self.free_list@.len() implies self.free_list@[i]
                != self.free_list@[j] by {
                assert(i * self.block_size < j * self.block_size) by (nonlinear_arith)
                    requires
                        0 <= i < j,
                        self.block_size >= 1,
                ;
            }
        }
    }

    /// Pop a free block, last freed first; `None` when the list is empty.
    pub fn allocate(&mut self) -> (r: Option<u64>)
        requires
            old(self).wf(),
        ensures
            final (self).wf(),
            final (self).block_size == old(self).block_size,
            final (self).start == old(self).start,
            final (self).end == old(self).end,
            r is None ==> old(self).free_list@.len() == 0 && final (self).free_list@ == old(
                self,
            ).free_list@,
            r matches Some(a) ==> {
                &&& old(self).free_list@.len() > 0
                &&& a == old(self).free_list@.last()
                &&& final (self).free_list@ == old(self).free_list@.drop_last()
                &&& old(self).start <= a && a + old(self).block_size <= old(self).end
                &&& a % old(self).block_size == 0
            },
    {
        self.free_list.pop()
    }

    /// Push a freed block back on the free list.
    ///
    /// The caller vouches that the address is a block of this cache and is
    /// not already free — the contract of freeing only what was allocated.
    pub fn deallocate(&mut self, ptr: u64)
        requires
            old(self).wf(),
            old(self).start <= ptr,
            ptr + old(self).block_size <= old(self).end,
            ptr % old(self).block_size == 0,
            forall|i: int| 0 <= i < old(self).free_list@.len() ==> old(self).free_list@[i] != ptr,
        ensures
            final (self).wf(),
            final (self).block_size == old(self).block_size,
            final (self).start == old(self).start,
            final (self).end == old(self).end,
            final (self).free_list@ == old(self).free_list@.push(ptr),
    {
        self.free_list.push(ptr);
    }

    /// How many blocks are currently free.
    pub fn count_free_blocks(&self) -> (r: usize)
        ensures
            r == self.free_list@.len(),
    {
        self.free_list.len()
    }
}

/// The slab allocator: one cache per size class in the first half of the
/// heap, and the bump region for everything larger in the second half.
pub struct SlabAllocator {
    /// One cache per size class, smallest first.
    pub caches: Vec<SlabCache>,
    /// First byte of the bump region.
    pub large_start: u64,
    /// Next free byte of the bump region; only ever grows.
    pub large_next: u64,
    /// One past the last byte of the bump region.
    pub large_end: u64,
}

/// The byte range `[a, a + sz)` lies wholly inside storage the allocator
/// still considers free: inside one free block of some class, or inside the
/// unconsumed part of the bump region.
pub open spec fn available(s: SlabAllocator, a: u64, sz: u64) -> bool {
    ||| exists|ci: int, k: int|
        {
            &&& 0 <= ci < s.caches@.len()
            &&& 0 <= k < s.caches@[ci].free_list@.len()
            &&& (#[trigger] s.caches@[ci].free_list@[k]) <= a
            &&& a + sz <= s.caches@[ci].free_list@[k] + s.caches@[ci].block_size
        }
    ||| s.large_next <= a && a + sz <= s.large_end
}

/// The bytes an allocation of `size` with the given alignment actually
/// occupies: the whole class block when a class serves it, else the
/// requested size from the bump region.
pub open spec fn served_size(pre: SlabAllocator, size: u64, align: u64) -> u64 {
    let sz: u64 = effective_size(size, align);
    match spec_size_to_class(sz) {
        Some(idx) => {
            if pre.caches@[idx as int].free_list@.len() > 0 {
                pre.caches@[idx as int].block_size
            } else {
                size
            }
        },
        None => size,
    }
}

impl SlabAllocator {
    /// Structural invariant: ten well-formed caches with the fixed class
    /// sizes, their regions in ascending order below the bump region, and
    /// the bump region within the mapped physical range.
    pub open spec fn wf(self) -> bool {
        &&& self.caches@.len() == NUM_SIZE_CLASSES
        &&& forall|ci: int|
            0 <= ci < NUM_SIZE_CLASSES ==> (#[trigger] self.caches@[ci]).wf()
                && self.caches@[ci].block_size == spec_class_size(ci)
        &&& forall|ci: int, cj: int|
            0 <= ci < cj < NUM_SIZE_CLASSES ==> (#[trigger] self.caches@[ci]).end <= (
            #[trigger] self.caches@[cj]).start
        &&& forall|ci: int|
            0 <= ci < NUM_SIZE_CLASSES ==> (#[trigger] self.caches@[ci]).end <= self.large_start
        &&& self.large_start <= self.large_next <= self.large_end
        &&& self.large_end <= 0x1_0000_0000
    }

    /// An allocator with empty caches and an empty bump region; storage
    /// arrives with [`Self::init`].
    pub fn new() -> (r: Self)
        ensures
            r.wf(),
            forall|ci: int|
                0 <= ci < NUM_SIZE_CLASSES ==> (#[trigger] r.caches@[ci]).free_list@.len() == 0,
            r.large_next == r.large_end,
    {
        let mut caches: Vec<SlabCache> = Vec::new();
        let mut idx: usize = 0;
        while idx < NUM_SIZE_CLASSES
            invariant
                idx == caches@.len() <= NUM_SIZE_CLASSES,
                forall|ci: int|
                    0 <= ci < idx ==> (#[trigger] caches@[ci]).wf() && caches@[ci].block_size
                        == spec_class_size(ci) && caches@[ci].start == 0 && caches@[ci].end == 0
                        && caches@[ci].free_list@.len() == 0,
            decreases NUM_SIZE_CLASSES - idx,
        {
            caches.push(SlabCache::new(class_size(idx)));
            idx = idx + 1;
        }
        Self { caches, large_start: 0, large_next: 0, large_end: 0 }
    }

    /// Seed the allocator with the heap region `[heap_start, heap_start +
    /// heap_size)`: the first half is carved evenly into the size classes,
    /// each class's slab aligned up to its block size (so every block meets
    /// its class alignment), and the rest becomes the bump region. The
    /// aligned carve may overrun the midpoint by less than the sum of the
    /// block sizes; the bump region then starts at the carve end, never more
    /// than `0x2000` bytes past the midpoint.
    pub fn init(&mut self, heap_start: u64, heap_size: u64)
        requires
            old(self).wf(),
            heap_start % 4096 == 0,
            heap_start + heap_size <= 0x1_0000_0000,
            heap_size >= 0x2_0000,
        ensures
            final (self).wf(),
            final (self).large_end == heap_start + heap_size,
            final (self).large_next == final (self).large_start,
            final (self).large_next >= heap_start + heap_size / 2,
            final (self).large_start <= heap_start + heap_size / 2 + 0x2000,
            final (self).large_start == if carve_end(
                heap_start,
                ((heap_size / 2) as u64 / 10) as u64,
                NUM_SIZE_CLASSES as int,
            ) >= heap_start + heap_size / 2 {
                carve_end(
                    heap_start,
                    ((heap_size / 2) as u64 / 10) as u64,
                    NUM_SIZE_CLASSES as int,
                )
            } else {
                heap_start + heap_size / 2
            },
            forall|ci: int|
                0 <= ci < NUM_SIZE_CLASSES ==> (#[trigger] final (self).caches@[ci]).free_list@.len()
                    == ((heap_size / 2) as u64 / 10) as int / spec_class_size(ci) as int,
            forall|ci: int|
                0 <= ci < NUM_SIZE_CLASSES ==> {
                    let slab = ((heap_size / 2) as u64 / 10) as u64;
                    let bs = spec_class_size(ci) as int;
                    &&& (#[trigger] final (self).caches@[ci]).start == align_up_int(
                        carve_end(heap_start, slab, ci),
                        bs,
                    )
                    &&& final (self).caches@[ci].end == final (self).caches@[ci].start + (
                    slab as int - slab as int % bs)
                },
    {
        let slab_size = (heap_size / 2) / 10;
        let mut caches: Vec<SlabCache> = Vec::new();
        let mut current = heap_start;
        let mut idx: usize = 0;
        while idx < NUM_SIZE_CLASSES
            invariant
                heap_start % 4096 == 0,
                heap_start + heap_size <= 0x1_0000_0000,
                heap_size >= 0x2_0000,
                slab_size == (heap_size / 2) as u64 / 10,
                idx == caches@.len() <= NUM_SIZE_CLASSES,
                heap_start <= current,
                current <= heap_start + idx * (slab_size + 4096),
                current <= heap_start + idx * slab_size + class_overhead(idx as int),
                current == carve_end(heap_start, slab_size, idx as int),
                forall|ci: int|
                    0 <= ci < idx ==> (#[trigger] caches@[ci]).wf() && caches@[ci].block_size
                        == spec_class_size(ci) && caches@[ci].end <= current
                        && caches@[ci].free_list@.len() == slab_size as int / spec_class_size(
                        ci) as int && caches@[ci].start == align_up_int(
                        carve_end(heap_start, slab_size, ci),
                        spec_class_size(ci) as int,
                    ) && caches@[ci].end == caches@[ci].start + (slab_size as int
                        - slab_size as int % spec_class_size(ci) as int),
                forall|ci: int, cj: int|
                    0 <= ci < cj < idx ==> (#[trigger] caches@[ci]).end <= (
                    #[trigger] caches@[cj]).start,
            decreases NUM_SIZE_CLASSES - idx,
        {
            let bs = class_size(idx);
            proof {
                assert(8u64 == 1u64 << 3 && 16u64 == 1u64 << 4 && 32u64 == 1u64 << 5 && 64u64
                    == 1u64 << 6 && 128u64 == 1u64 << 7 && 256u64 == 1u64 << 8 && 512u64 == 1u64
                    << 9 && 1024u64 == 1u64 << 10 && 2048u64 == 1u64 << 11 && 4096u64 == 1u64
                    << 12) by (bit_vector);
                assert(current + 4096 + 0x1_0000_0000 <= u64::MAX && slab_size <= 0x1_0000_0000) by (nonlinear_arith)
                    requires
                        current <= heap_start + idx * (slab_size + 4096),
                        idx <= 10,
                        slab_size == (heap_size / 2) as u64 / 10,
                        heap_start + heap_size <= 0x1_0000_0000,
                ;
                assert(is_power_of_two(bs)) by {
                    if idx == 0 {
                        assert(3u64 < 64 && bs == 1u64 << 3);
                    } else if idx == 1 {
                        assert(4u64 < 64 && bs == 1u64 << 4);
                    } else if idx == 2 {
                        assert(5u64 < 64 && bs == 1u64 << 5);
                    } else if idx == 3 {
                        assert(6u64 < 64 && bs == 1u64 << 6);
                    } else if idx == 4 {
                        assert(7u64 < 64 && bs == 1u64 << 7);
                    } else if idx == 5 {
                        assert(8u64 < 64 && bs == 1u64 << 8);
                    } else if idx == 6 {
                        assert(9u64 < 64 && bs == 1u64 << 9);
                    } else if idx == 7 {
                        assert(10u64 < 64 && bs == 1u64 << 10);
                    } else if idx == 8 {
                        assert(11u64 < 64 && bs == 1u64 << 11);
                    } else {
                        assert(12u64 < 64 && bs == 1u64 << 12);
                    }
                }
            }
            let slab_start = align_up(current, bs);
            let aligned_size = align_down(slab_size, bs);
            proof {
                vstd::arithmetic::div_mod::lemma_fundamental_div_mod(
                    slab_size as int,
                    bs as int,
                );
                vstd::arithmetic::div_mod::lemma_mod_bound(slab_size as int, bs as int);
                vstd::arithmetic::div_mod::lemma_mod_multiples_basic(
                    slab_size as int / bs as int,
                    bs as int,
                );
                assert(aligned_size % bs == 0) by {
                    assert(aligned_size == (slab_size as int / bs as int) * bs);
                }
                vstd::arithmetic::div_mod::lemma_fundamental_div_mod_converse(
                    aligned_size as int,
                    bs as int,
                    slab_size as int / bs as int,
                    0,
                );
            }
            let mut cache = SlabCache::new(bs);
            cache.add_slab(slab_start, aligned_size);
            proof {
                vstd::arithmetic::div_mod::lemma_div_by_multiple(
                    slab_size as int / bs as int,
                    bs as int,
                );
                vstd::arithmetic::div_mod::lemma_div_multiples_vanish(
                    slab_size as int / bs as int,
                    bs as int,
                );
            }
            caches.push(cache);
            proof {
                assert((idx + 1) * (slab_size + 4096) == idx * (slab_size + 4096) + (slab_size
                    + 4096)) by (nonlinear_arith);
                assert((idx + 1) * slab_size == idx * slab_size + slab_size) by (nonlinear_arith);
                assert(class_overhead(idx + 1) == class_overhead(idx as int) + spec_class_size(
                    idx as int,
                ));
            }
            current = slab_start + aligned_size;
            idx = idx + 1;
        }
        let half = heap_start + heap_size / 2;
        proof {
            vstd::arithmetic::div_mod::lemma_fundamental_div_mod(heap_size as int / 2, 10);
            vstd::arithmetic::div_mod::lemma_mod_bound(heap_size as int / 2, 10);
            vstd::arithmetic::div_mod::lemma_fundamental_div_mod(heap_size as int, 2);
            vstd::arithmetic::div_mod::lemma_mod_bound(heap_size as int, 2);
            assert(10 * (slab_size + 4096) == 10 * slab_size + 40960) by (nonlinear_arith);
            reveal_with_fuel(class_overhead, 11);
            assert(class_overhead(10) == 8184);
        }
        let large_start = if current >= half {
            current
        } else {
            half
        };
        self.caches = caches;
        self.large_start = large_start;
        self.large_next = large_start;
        self.large_end = heap_start + heap_size;
    }

    /// Allocate `size` bytes aligned to `align`: pop a block from the
    /// smallest class that fits `max(size, align)`, or fall back to the
    /// bump region. `None` when neither can serve the request.
    ///
    /// The returned range was free storage, is aligned as asked, and every
    /// range that remains free afterwards is disjoint from it: no two live
    /// allocations ever share a byte.
    pub fn allocate(&mut self, size: u64, align: u64) -> (r: Option<u64>)
        requires
            old(self).wf(),
            is_power_of_two(align),
            1 <= size,
        ensures
            final (self).wf(),
            final (self).large_start == old(self).large_start,
            final (self).large_end == old(self).large_end,
            final (self).large_next >= old(self).large_next,
            r matches Some(p) ==> p % align == 0,
            r matches Some(p) ==> available(*old(self), p, served_size(*old(self), size, align))
                && served_size(*old(self), size, align) >= size,
            r matches Some(p) ==> forall|a: u64, s2: u64|
                #[trigger] available(*final (self), a, s2) && s2 >= 1 ==> available(
                    *old(self),
                    a,
                    s2,
                ) && ranges_disjoint(a, s2, p, served_size(*old(self), size, align)),
            (r is None ==> forall|a: u64, s2: u64|
                #[trigger] available(*final (self), a, s2) == available(*old(self), a, s2)),
            (spec_size_to_class(effective_size(size, align)) matches Some(idx)
                ==> old(self).caches@[idx as int].free_list@.len() > 0 ==> r == Some(
                old(self).caches@[idx as int].free_list@.last(),
            ) && final (self).large_next == old(self).large_next),
            (effective_size(size, align) > 4096 || (spec_size_to_class(
                effective_size(size, align),
            ) matches Some(idx) && old(self).caches@[idx as int].free_list@.len() == 0)) ==> {
                &&& spec_align_up(old(self).large_next, align) + size <= old(self).large_end
                    ==> r == Some(spec_align_up(old(self).large_next, align) as u64)
                        && final (self).large_next == spec_align_up(old(self).large_next, align)
                        + size && old(self).large_start <= old(self).large_next <= spec_align_up(
                        old(self).large_next,
                        align,
                    )
                &&& spec_align_up(old(self).large_next, align) + size > old(self).large_end ==> r
                    is None && final (self).large_next == old(self).large_next
            },
    {
        let sz = if size >= align {
            size
        } else {
            align
        };
        let class = size_to_class(sz);
        match class {
            Some(idx) => {
                let mut cache = self.caches.remove(idx);
                let got = cache.allocate();
                self.caches.insert(idx, cache);
                proof {
                    assert(self.caches@ =~= old(self).caches@.update(idx as int, cache));
                }
                match got {
                    Some(p) => {
                        proof {
                            self.lemma_class_alloc_ok(*old(self), idx, p, size, align);
                        }
                        Some(p)
                    },
                    None => {
                        proof {
                            assert(cache.free_list@ =~= old(self).caches@[idx as int].free_list@);
                            lemma_available_eq(*self, *old(self));
                        }
                        self.allocate_large(size, align)
                    },
                }
            },
            None => self.allocate_large(size, align),
        }
    }

    /// The facts the class path of [`Self::alloc`] hands back: alignment,
    /// prior availability, and disjointness from everything still free.
    proof fn lemma_class_alloc_ok(self, pre: SlabAllocator, idx: usize, p: u64, size: u64, align: u64)
        requires
            pre.wf(),
            is_power_of_two(align),
            1 <= size,
            idx < NUM_SIZE_CLASSES,
            spec_size_to_class(effective_size(size, align)) == Some(idx),
            pre.caches@[idx as int].free_list@.len() > 0,
            p == pre.caches@[idx as int].free_list@.last(),
            self.caches@ == pre.caches@.update(
                idx as int,
                SlabCache {
                    free_list: self.caches@[idx as int].free_list,
                    ..pre.caches@[idx as int]
                },
            ),
            self.caches@[idx as int].free_list@ == pre.caches@[idx as int].free_list@.drop_last(),
            self.large_start == pre.large_start,
            self.large_next == pre.large_next,
            self.large_end == pre.large_end,
        ensures
            self.wf(),
            p % align == 0,
            available(pre, p, served_size(pre, size, align)),
            forall|a: u64, s2: u64|
                #[trigger] available(self, a, s2) && s2 >= 1 ==> available(pre, a, s2)
                    && ranges_disjoint(a, s2, p, served_size(pre, size, align)),
    {
        let bs = pre.caches@[idx as int].block_size;
        let n = pre.caches@[idx as int].free_list@.len();
        assert(pre.caches@[idx as int].free_list@[n - 1] == p);
        assert(available(pre, p, served_size(pre, size, align)));
        // Alignment: the block is aligned to the class size, a power of two
        // at least `align`.
        assert(p % bs == 0);
        lemma_pow2_align_divides(align, bs, p);
        // Disjointness: anything still available sits in a different free
        // block, a different class region, or the bump region.
        assert forall|a: u64, s2: u64|
            #[trigger] available(self, a, s2) && s2 >= 1 implies available(pre, a, s2)
            && ranges_disjoint(a, s2, p, served_size(pre, size, align)) by {
            if self.large_next <= a && a + s2 <= self.large_end {
                assert(available(pre, a, s2));
                assert(pre.caches@[idx as int].end <= pre.large_start);
            } else {
                let (ci, k) = choose|ci: int, k: int|
                    {
                        &&& 0 <= ci < self.caches@.len()
                        &&& 0 <= k < self.caches@[ci].free_list@.len()
                        &&& (#[trigger] self.caches@[ci].free_list@[k]) <= a
                        &&& a + s2 <= self.caches@[ci].free_list@[k] + self.caches@[ci].block_size
                    };
                let b = self.caches@[ci].free_list@[k];
                if ci == idx {
                    assert(pre.caches@[ci].free_list@[k] == b);
                    assert(available(pre, a, s2));
                    // A different free block of the same class: distinct,
                    // block-aligned, so at least one block apart.
                    assert(b != p);
                    lemma_distinct_aligned_blocks_disjoint(b, p, bs);
                } else {
                    assert(pre.caches@[ci].free_list@[k] == b);
                    assert(available(pre, a, s2));
                    // A block of another class: the class regions are
                    // ordered and disjoint.
                    if ci < idx {
                        assert(pre.caches@[ci].end <= pre.caches@[idx as int].start);
                    } else {
                        assert(pre.caches@[idx as int].end <= pre.caches@[ci].start);
                    }
                }
            }
        }
    }

    /// Bump-allocate `size` bytes aligned to `align` from the second half
    /// of the heap; such storage is never reclaimed.
    fn allocate_large(&mut self, size: u64, align: u64) -> (r: Option<u64>)
        requires
            old(self).wf(),
            is_power_of_two(align),
            1 <= size,
        ensures
            final (self).wf(),
            final (self).caches == old(self).caches,
            final (self).large_start == old(self).large_start,
            final (self).large_end == old(self).large_end,
            final (self).large_next >= old(self).large_next,
            spec_align_up(old(self).large_next, align) + size <= old(self).large_end ==> r == Some(
                spec_align_up(old(self).large_next, align) as u64,
            ) && final (self).large_next == spec_align_up(old(self).large_next, align) + size,
            spec_align_up(old(self).large_next, align) + size > old(self).large_end ==> r is None
                && *final (self) == *old(self),
            match r {
                Some(p) => {
                    &&& p % align == 0
                    &&& old(self).large_start <= old(self).large_next <= p
                    &&& p + size <= old(self).large_end
                    &&& final (self).large_next == p + size
                },
                None => *final (self) == *old(self),
            },
            r matches Some(p) ==> available(*old(self), p, size),
            r matches Some(p) ==> forall|a: u64, s2: u64|
                #[trigger] available(*final (self), a, s2) && s2 >= 1 ==> available(
                    *old(self),
                    a,
                    s2,
                ) && ranges_disjoint(a, s2, p, size),
            r is None ==> forall|a: u64, s2: u64|
                #[trigger] available(*final (self), a, s2) == available(*old(self), a, s2),
    {
        proof {
            let k = choose|k: u64| k < 64 && align == (1u64 << k);
            assert((1u64 << k) <= 0x8000_0000_0000_0000u64) by (bit_vector)
                requires
                    k < 64u64,
            ;
        }
        let p = align_up(self.large_next, align);
        if p > u64::MAX - size {
            return None;
        }
        if p + size > self.large_end {
            return None;
        }
        let ghost pre = *old(self);
        self.large_next = p + size;
        proof {
            assert forall|a: u64, s2: u64|
                #[trigger] available(*self, a, s2) && s2 >= 1 implies available(pre, a, s2)
                && ranges_disjoint(a, s2, p, size) by {
                if !(self.large_next <= a && a + s2 <= self.large_end) {
                    let (ci, k) = choose|ci: int, k: int|
                        {
                            &&& 0 <= ci < self.caches@.len()
                            &&& 0 <= k < self.caches@[ci].free_list@.len()
                            &&& (#[trigger] self.caches@[ci].free_list@[k]) <= a
                            &&& a + s2 <= self.caches@[ci].free_list@[k]
                                + self.caches@[ci].block_size
                        };
                    assert(pre.caches@[ci].free_list@[k] == self.caches@[ci].free_list@[k]);
                    assert(pre.caches@[ci].end <= pre.large_start);
                }
            }
        }
        Some(p)
    }

    /// Free an allocation. A class-served block returns to its class's free
    /// list; bump-region storage cannot be reclaimed, so freeing anything
    /// larger than the largest class changes nothing.
    ///
    /// The caller vouches, as every heap client must, that a class-served
    /// pointer is a block it was handed and has not yet freed.
    pub fn deallocate(&mut self, ptr: u64, size: u64, align: u64)
        requires
            old(self).wf(),
            (spec_size_to_class(effective_size(size, align)) matches Some(idx) ==> {
                    &&& old(self).caches@[idx as int].start <= ptr
                    &&& ptr + old(self).caches@[idx as int].block_size <= old(
                        self,
                    ).caches@[idx as int].end
                    &&& ptr % old(self).caches@[idx as int].block_size == 0
                    &&& forall|i: int|
                        0 <= i < old(self).caches@[idx as int].free_list@.len() ==> old(
                            self,
                        ).caches@[idx as int].free_list@[i] != ptr
            }),
        ensures
            final (self).wf(),
            final (self).large_start == old(self).large_start,
            final (self).large_next == old(self).large_next,
            final (self).large_end == old(self).large_end,
            (spec_size_to_class(effective_size(size, align)) matches Some(idx) ==> {
                    &&& final (self).caches@[idx as int].free_list@ == old(
                        self,
                    ).caches@[idx as int].free_list@.push(ptr)
                    &&& forall|ci: int|
                        0 <= ci < NUM_SIZE_CLASSES && ci != idx ==> final (self).caches@[ci] == old(
                            self,
                        ).caches@[ci]
            }),
            (spec_size_to_class(effective_size(size, align)) is None ==> final (self).caches@
                == old(self).caches@),
    {
        let sz = if size >= align {
            size
        } else {
            align
        };
        match size_to_class(sz) {
            Some(idx) => {
                let mut cache = self.caches.remove(idx);
                proof {
                    assert(cache == old(self).caches@[idx as int]);
                    assert(spec_size_to_class(effective_size(size, align)) == Some(idx));
                    assert forall|i: int|
                        0 <= i < cache.free_list@.len() implies cache.free_list@[i] != ptr by {
                        assert(old(self).caches@[idx as int].free_list@[i] != ptr);
                    }
                }
                cache.deallocate(ptr);
                self.caches.insert(idx, cache);
                proof {
                    assert(self.caches@ =~= old(self).caches@.update(idx as int, cache));
                }
            },
            None => {
                // Bump-region storage is never reclaimed.
            },
        }
    }

    /// Bytes used and bytes total of the bump region.
    pub fn large_alloc_usage(&self) -> (r: (u64, u64))
        requires
            self.wf(),
        ensures
            r.0 == self.large_next - self.large_start,
            r.1 == self.large_end - self.large_start,
    {
        (self.large_next - self.large_start, self.large_end - self.large_start)
    }

    /// How many blocks of size class `idx` are free.
    pub fn count_free_blocks(&self, idx: usize) -> (r: usize)
        requires
            self.wf(),
        ensures
            idx < NUM_SIZE_CLASSES ==> r == self.caches@[idx as int].free_list@.len(),
            idx >= NUM_SIZE_CLASSES ==> r == 0,
    {
        if idx >= NUM_SIZE_CLASSES {
            return 0;
        }
        self.caches[idx].count_free_blocks()
    }
}

/// The size classes, smallest first.
pub fn get_size_classes() -> (r: Vec<u64>)
    ensures
        r@.len() == NUM_SIZE_CLASSES,
        forall|i: int| 0 <= i < NUM_SIZE_CLASSES ==> r@[i] == spec_class_size(i),
{
    let mut v: Vec<u64> = Vec::new();
    let mut i: usize = 0;
    while i < NUM_SIZE_CLASSES
        invariant
            i == v@.len() <= NUM_SIZE_CLASSES,
            forall|j: int| 0 <= j < i ==> v@[j] == spec_class_size(j),
        decreases NUM_SIZE_CLASSES - i,
    {
        v.push(class_size(i));
        i = i + 1;
    }
    v
}

/// Two allocator states whose free lists, block sizes and bump region agree
/// make the same storage available.
proof fn lemma_available_eq(s1: SlabAllocator, s2: SlabAllocator)
    requires
        s1.caches@.len() == s2.caches@.len(),
        forall|ci: int|
            0 <= ci < s1.caches@.len() ==> (#[trigger] s1.caches@[ci]).free_list@
                == s2.caches@[ci].free_list@ && s1.caches@[ci].block_size
                == s2.caches@[ci].block_size,
        s1.large_next == s2.large_next,
        s1.large_end == s2.large_end,
    ensures
        forall|a: u64, sz: u64| #[trigger] available(s1, a, sz) == available(s2, a, sz),
{
    assert forall|a: u64, sz: u64| #[trigger] available(s1, a, sz) == available(s2, a, sz) by {
        if available(s1, a, sz) && !(s1.large_next <= a && a + sz <= s1.large_end) {
            let (ci, k) = choose|ci: int, k: int|
                {
                    &&& 0 <= ci < s1.caches@.len()
                    &&& 0 <= k < s1.caches@[ci].free_list@.len()
                    &&& (#[trigger] s1.caches@[ci].free_list@[k]) <= a
                    &&& a + sz <= s1.caches@[ci].free_list@[k] + s1.caches@[ci].block_size
                };
            assert(s2.caches@[ci].free_list@[k] <= a && a + sz <= s2.caches@[ci].free_list@[k]
                + s2.caches@[ci].block_size);
        }
        if available(s2, a, sz) && !(s2.large_next <= a && a + sz <= s2.large_end) {
            let (ci, k) = choose|ci: int, k: int|
                {
                    &&& 0 <= ci < s2.caches@.len()
                    &&& 0 <= k < s2.caches@[ci].free_list@.len()
                    &&& (#[trigger] s2.caches@[ci].free_list@[k]) <= a
                    &&& a + sz <= s2.caches@[ci].free_list@[k] + s2.caches@[ci].block_size
                };
            assert(s1.caches@[ci].free_list@[k] <= a && a + sz <= s1.caches@[ci].free_list@[k]
                + s1.caches@[ci].block_size);
        }
    }
}

/// A power of two no larger than a power-of-two block size divides it, so a
/// block-aligned address meets any alignment the block's class covers.
proof fn lemma_pow2_align_divides(align: u64, bs: u64, p: u64)
    requires
        is_power_of_two(align),
        align <= bs,
        p % bs == 0,
        bs == 8 || bs == 16 || bs == 32 || bs == 64 || bs == 128 || bs == 256 || bs == 512 || bs
            == 1024 || bs == 2048 || bs == 4096,
    ensures
        p % align == 0,
{
    let k = choose|k: u64| k < 64 && align == (1u64 << k);
    assert(1u64 <= (1u64 << k)) by (bit_vector)
        requires
            k < 64u64,
    ;
    assert((1u64 << k) <= bs && (bs == 8 || bs == 16 || bs == 32 || bs == 64 || bs == 128 || bs
        == 256 || bs == 512 || bs == 1024 || bs == 2048 || bs == 4096) ==> bs % (1u64 << k)
        == 0) by (bit_vector)
        requires
            k < 64u64,
    ;
    vstd::arithmetic::div_mod::lemma_fundamental_div_mod(p as int, bs as int);
    vstd::arithmetic::div_mod::lemma_fundamental_div_mod(bs as int, align as int);
    assert(bs == align * (bs as int / align as int));
    assert(p == (p as int / bs as int) * ((bs as int / align as int) * align)) by (nonlinear_arith)
        requires
            p == bs * (p as int / bs as int),
            bs == align * (bs as int / align as int),
    ;
    vstd::arithmetic::div_mod::lemma_mod_multiples_basic(
        (p as int / bs as int) * (bs as int / align as int),
        align as int,
    );
    assert((p as int / bs as int) * ((bs as int / align as int) * align) == ((p as int
        / bs as int) * (bs as int / align as int)) * align) by (nonlinear_arith);
}

/// Two distinct addresses aligned to the same block size head blocks that
/// share no byte.
proof fn lemma_distinct_aligned_blocks_disjoint(b: u64, p: u64, bs: u64)
    requires
        bs >= 1,
        b % bs == 0,
        p % bs == 0,
        b != p,
    ensures
        b + bs <= p || p + bs <= b,
{
    if b < p {
        if p < b + bs {
            vstd::arithmetic::div_mod::lemma_sub_mod_noop(p as int, b as int, bs as int);
            vstd::arithmetic::div_mod::lemma_small_mod((p - b) as nat, bs as nat);
            vstd::arithmetic::div_mod::lemma_small_mod(0, bs as nat);
        }
    } else {
        if b < p + bs {
            vstd::arithmetic::div_mod::lemma_sub_mod_noop(b as int, p as int, bs as int);
            vstd::arithmetic::div_mod::lemma_small_mod((b - p) as nat, bs as nat);
            vstd::arithmetic::div_mod::lemma_small_mod(0, bs as nat);
        }
    }
}

/// No two live allocations share a byte: an allocation leaves every
/// still-free range disjoint from it, so a second allocation — served from
/// what is still free — cannot overlap the first.
pub proof fn lemma_allocations_do_not_overlap(
    mid: SlabAllocator,
    p1: u64,
    s1: u64,
    p2: u64,
    s2: u64,
)
    requires
        s2 >= 1,
        available(mid, p2, s2),
        forall|a: u64, sz: u64|
            #[trigger] available(mid, a, sz) && sz >= 1 ==> ranges_disjoint(a, sz, p1, s1),
    ensures
        ranges_disjoint(p2, s2, p1, s1),
{
}

} // verus!
