//! Slab heap behaviour: class selection, alignment, disjointness, and the
//! irrevocable bump region.

use je4os::allocator::{get_size_classes, size_to_class, SlabAllocator, SlabCache};

const HEAP_START: u64 = 0x10_0000;
const HEAP_SIZE: u64 = 0x10_0000;

fn fresh_heap() -> SlabAllocator {
    let mut a = SlabAllocator::new();
    a.init(HEAP_START, HEAP_SIZE);
    a
}

#[test]
fn size_classes_are_the_fixed_ten() {
    let classes = get_size_classes();
    assert_eq!(
        classes,
        vec![8u64, 16, 32, 64, 128, 256, 512, 1024, 2048, 4096]
    );
    assert_eq!(size_to_class(1), Some(0));
    assert_eq!(size_to_class(8), Some(0));
    assert_eq!(size_to_class(9), Some(1));
    assert_eq!(size_to_class(4096), Some(9));
    assert_eq!(size_to_class(4097), None);
}

#[test]
fn init_carves_the_first_half() {
    let a = fresh_heap();
    // Half the heap split over ten classes, each slab rounded down to whole
    // blocks: the eight-byte class gets 52424 / 8 blocks.
    let slab = (HEAP_SIZE / 2) / 10;
    for idx in 0..10usize {
        let bs = [8u64, 16, 32, 64, 128, 256, 512, 1024, 2048, 4096][idx];
        assert_eq!(a.count_free_blocks(idx) as u64, slab / bs);
    }
    let (used, total) = a.large_alloc_usage();
    assert_eq!(used, 0);
    assert!(total >= HEAP_SIZE / 2 - 0x3000);
    // The bump region starts at the aligned carve end, never more than a
    // couple of pages past the midpoint.
    assert!(a.large_start >= HEAP_START + HEAP_SIZE / 2);
    assert!(a.large_start <= HEAP_START + HEAP_SIZE / 2 + 0x2000);
}

#[test]
fn allocations_are_aligned_and_disjoint() {
    // No two live allocations share a byte, and each is aligned to the
    // larger of its size and alignment rounded to the class.
    let mut a = fresh_heap();
    let mut live: Vec<(u64, u64)> = Vec::new();
    for (size, align) in [(8u64, 8u64), (16, 16), (100, 64), (4096, 4096), (24, 8), (1, 1)] {
        let p = a.allocate(size, align).unwrap();
        assert_eq!(p % align, 0, "alignment violated");
        live.push((p, size.max(align)));
    }
    for i in 0..live.len() {
        for j in 0..live.len() {
            if i != j {
                let (a1, s1) = live[i];
                let (a2, s2) = live[j];
                assert!(a1 + s1 <= a2 || a2 + s2 <= a1, "allocations overlap");
            }
        }
    }
}

#[test]
fn freed_block_is_reused() {
    let mut a = fresh_heap();
    let before = a.count_free_blocks(1);
    let p = a.allocate(16, 8).unwrap();
    assert_eq!(a.count_free_blocks(1), before - 1);
    a.deallocate(p, 16, 8);
    assert_eq!(a.count_free_blocks(1), before);
    let q = a.allocate(16, 8).unwrap();
    assert_eq!(q, p);
}

#[test]
fn large_allocation_goes_to_bump_and_cannot_be_freed() {
    // Five thousand bytes exceed the largest class: the bump region serves
    // it, and freeing it returns nothing.
    let mut a = fresh_heap();
    let (used0, _) = a.large_alloc_usage();
    assert_eq!(used0, 0);
    let p = a.allocate(5000, 8).unwrap();
    let (used1, _) = a.large_alloc_usage();
    assert!(used1 >= 5000);
    // Every size class still has all its blocks: the classes were not
    // touched.
    let slab = (HEAP_SIZE / 2) / 10;
    assert_eq!(a.count_free_blocks(0) as u64, slab / 8);
    // Freeing bump storage is a no-op; a second large allocation gets fresh
    // storage, never the same bytes.
    a.deallocate(p, 5000, 8);
    let (used2, _) = a.large_alloc_usage();
    assert_eq!(used1, used2);
    let q = a.allocate(5000, 8).unwrap();
    assert!(q >= p + 5000);
}

#[test]
fn exhausted_class_falls_back_to_bump() {
    let mut cache = SlabCache::new(8);
    cache.add_slab(0x1000, 16);
    assert_eq!(cache.count_free_blocks(), 2);
    assert!(cache.allocate().is_some());
    assert!(cache.allocate().is_some());
    assert!(cache.allocate().is_none());

    // Drain the whole 4096 class of the heap; the next request of that size
    // still succeeds, served from the bump region past the class carve.
    let mut a = fresh_heap();
    let blocks = a.count_free_blocks(9);
    let mut last_class_block = 0;
    for _ in 0..blocks {
        last_class_block = a.allocate(4096, 8).unwrap();
    }
    assert_eq!(a.count_free_blocks(9), 0);
    let fallback = a.allocate(4096, 8).unwrap();
    let (used, _) = a.large_alloc_usage();
    assert!(used >= 4096);
    assert!(fallback > last_class_block);
}

#[test]
fn allocation_fails_when_everything_is_spent() {
    let mut a = SlabAllocator::new();
    a.init(HEAP_START, 0x2_0000);
    // Consume the bump region in one go; the next large request fails.
    let (_, total) = a.large_alloc_usage();
    assert!(a.allocate(total, 1).is_some());
    assert!(a.allocate(4097, 1).is_none());
}
