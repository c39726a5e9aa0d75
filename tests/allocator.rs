use pan_kernel::buddy::{block_order, round_up_pow2, BuddyAllocator, HEAP_SIZE, HEAP_START, PAGESIZE};
use pan_kernel::heap::Heap;
use pan_kernel::sleb::SlebMetadataPage;

const REGION: u64 = 0x1000_0000;

#[test]
fn buddy_page_alloc_then_free_coalesces_fully() {
    let mut b = BuddyAllocator::new();
    let a = b.allocate(PAGESIZE, 1);
    assert_eq!(a, HEAP_START);
    b.deallocate(a);
    // only a heap made of one free block can serve the whole heap at once
    assert_eq!(b.allocate(HEAP_SIZE, 1), HEAP_START);
}

#[test]
fn buddy_two_pages_free_in_either_order() {
    for first_a in [true, false] {
        let mut b = BuddyAllocator::new();
        let a = b.allocate(PAGESIZE, 1);
        let c = b.allocate(PAGESIZE, 1);
        assert_ne!(a, 0);
        assert_ne!(c, 0);
        assert!(a + PAGESIZE <= c || c + PAGESIZE <= a);
        assert_eq!(a, HEAP_START);
        assert_eq!(c, HEAP_START + PAGESIZE);
        if first_a {
            b.deallocate(a);
            b.deallocate(c);
        } else {
            b.deallocate(c);
            b.deallocate(a);
        }
        assert_eq!(b.allocate(HEAP_SIZE, 1), HEAP_START);
    }
}

#[test]
fn buddy_request_larger_than_free_space_fails() {
    let mut b = BuddyAllocator::new();
    assert_eq!(b.allocate(HEAP_SIZE + 1, 1), 0);
    let whole = b.allocate(HEAP_SIZE, 1);
    assert_eq!(whole, HEAP_START);
    assert_eq!(b.allocate(PAGESIZE, 1), 0);
    b.deallocate(whole);
    assert_eq!(b.allocate(PAGESIZE, 1), HEAP_START);
}

#[test]
fn buddy_half_heap_then_too_large() {
    let mut b = BuddyAllocator::new();
    let half = b.allocate(HEAP_SIZE / 2, 1);
    assert_eq!(half, HEAP_START);
    assert_eq!(b.allocate(HEAP_SIZE / 2 + 1, 1), 0);
    assert_eq!(b.allocate(HEAP_SIZE / 2, 1), HEAP_START + HEAP_SIZE / 2);
}

#[test]
fn buddy_alignment_decides_block_size() {
    let mut b = BuddyAllocator::new();
    let a = b.allocate(PAGESIZE, 1);
    let c = b.allocate(16, 8192);
    assert_eq!(a, HEAP_START);
    assert_eq!(c, HEAP_START + 2 * PAGESIZE);
}

#[test]
fn block_sizes_round_up() {
    assert_eq!(round_up_pow2(1), 1);
    assert_eq!(round_up_pow2(2049), 4096);
    assert_eq!(round_up_pow2(4096), 4096);
    assert_eq!(round_up_pow2(4097), 8192);
    assert_eq!(block_order(1), 0);
    assert_eq!(block_order(4096), 0);
    assert_eq!(block_order(4097), 1);
    assert_eq!(block_order(8193), 2);
    assert_eq!(block_order(HEAP_SIZE), 10);
}

#[test]
fn sleb_tiny_page_holds_127_slots() {
    let mut s = SlebMetadataPage::init(REGION);
    let mut seen = Vec::new();
    for i in 0..127u64 {
        let p = s.allocate(32);
        assert_eq!(p, REGION + 4096 + 16 + 32 * i);
        assert!(!seen.contains(&p));
        seen.push(p);
    }
    let next = s.allocate(32);
    assert_eq!(next, REGION + 2 * 4096 + 16);
}

#[test]
fn sleb_100_bytes_uses_128_byte_slots() {
    let mut s = SlebMetadataPage::init(REGION);
    let a = s.allocate(100);
    let b = s.allocate(100);
    let page = REGION + 4096;
    assert_eq!((a - page) % 128, 0);
    assert_eq!((b - page) % 128, 0);
    assert_eq!(b - a, 128);
}

#[test]
fn sleb_free_then_alloc_reuses_slot() {
    for size in [1usize, 32, 33, 64, 100, 256, 512, 1000, 2048] {
        let mut s = SlebMetadataPage::init(REGION);
        let first = s.allocate(size);
        let other = s.allocate(size);
        assert_ne!(first, 0);
        s.free(first);
        assert_eq!(s.allocate(size), first);
        assert_ne!(other, first);
    }
}

#[test]
fn sleb_full_page_refilled_after_free() {
    let mut s = SlebMetadataPage::init(REGION);
    let a = s.allocate(2048);
    let b = s.allocate(2048);
    assert_eq!(a, REGION + 4096);
    assert_eq!(b, REGION + 4096 + 2048);
    let c = s.allocate(2048);
    assert_eq!(c, REGION + 2 * 4096);
    s.free(b);
    assert_eq!(s.allocate(2048), b);
}

#[test]
fn sleb_classes_get_their_own_pages() {
    let mut s = SlebMetadataPage::init(REGION);
    let t = s.allocate(8);
    let m = s.allocate(64);
    let l = s.allocate(1024);
    assert_eq!(t, REGION + 4096 + 16);
    assert_eq!(m, REGION + 2 * 4096);
    assert_eq!(l, REGION + 3 * 4096);
    assert!(s.within_bounds(t));
    assert!(!s.within_bounds(REGION));
    assert!(!s.within_bounds(REGION + 1048576));
}

#[test]
fn sleb_runs_out_of_pages() {
    let mut s = SlebMetadataPage::init(REGION);
    for _ in 0..255 {
        assert_ne!(s.allocate(2048), 0);
        assert_ne!(s.allocate(2048), 0);
    }
    assert_eq!(s.allocate(2048), 0);
    assert_eq!(s.allocate(32), 0);
}

#[test]
fn heap_routes_by_size() {
    let mut h = Heap::new();
    let small = h.allocate(2048, 1);
    // the slab region is the first megabyte that the buddy allocator hands out
    assert_eq!(small, HEAP_START + 4096);
    let large = h.allocate(2049, 1);
    assert_eq!(large, HEAP_START + 1048576);
    assert_eq!(large % PAGESIZE, 0);
    let larger = h.allocate(4097, 1);
    assert_eq!(larger, HEAP_START + 1048576 + 2 * PAGESIZE);
    h.deallocate(small, 2048, 1);
    assert_eq!(h.allocate(2048, 1), small);
    h.deallocate(large, 2049, 1);
    assert_eq!(h.allocate(3000, 1), large);
}

#[test]
fn heap_small_alignment_counts_as_size() {
    let mut h = Heap::new();
    // an alignment above 2048 sends even a tiny request to the buddy allocator
    let a = h.allocate(8, 4096);
    assert_eq!(a, HEAP_START);
    let b = h.allocate(8, 16);
    assert_eq!(b, HEAP_START + 1048576 + 4096 + 16);
}

#[test]
fn sleb_follows_bucket_chain_before_promoting() {
    let mut s = SlebMetadataPage::init(REGION);
    let a0 = s.allocate(2048);
    let a1 = s.allocate(2048);
    let b0 = s.allocate(2048);
    let b1 = s.allocate(2048);
    assert_eq!((a0, a1), (REGION + 4096, REGION + 4096 + 2048));
    assert_eq!((b0, b1), (REGION + 2 * 4096, REGION + 2 * 4096 + 2048));
    // page 1 already heads the list; page 0 goes in front of it
    s.free(b1);
    s.free(a0);
    assert_eq!(s.allocate(2048), a0);
    // page 0 is full again: the list leads on to page 1's free slot
    assert_eq!(s.allocate(2048), b1);
    assert_eq!(s.allocate(2048), REGION + 3 * 4096);
}

#[test]
fn buddy_blocks_are_aligned_to_their_size() {
    let mut b = BuddyAllocator::new();
    let p = b.allocate(PAGESIZE, 1);
    let q = b.allocate(3 * PAGESIZE, 1);
    let r = b.allocate(PAGESIZE, 1);
    assert_eq!(p, HEAP_START);
    assert_eq!((q - HEAP_START) % (4 * PAGESIZE), 0);
    assert_eq!(r, HEAP_START + PAGESIZE);
    b.deallocate(q);
    b.deallocate(r);
    b.deallocate(p);
    assert_eq!(b.allocate(HEAP_SIZE, 1), HEAP_START);
}

#[test]
fn heap_first_small_request_takes_slot_zero() {
    let mut h = Heap::new();
    let p = h.allocate(2048, 1);
    assert_eq!(p, HEAP_START + 4096);
    let q = h.allocate(PAGESIZE, 1);
    assert_eq!(q, HEAP_START + 1048576);
    h.deallocate(q, PAGESIZE, 1);
    assert_eq!(h.allocate(PAGESIZE, 1), q);
}
