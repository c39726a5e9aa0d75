//! The heap's single entry point: small requests go to the slab-style
//! allocator, which takes its region from the buddy allocator on first use,
//! and everything else goes to the buddy allocator.

use vstd::prelude::*;
use crate::buddy::{
    BuddyAllocator, alloc_result, free_result, block_addr, block_end, request_size, is_chunk, order_for,
    lemma_order_for_region, lemma_live_blocks_disjoint, lemma_new_block_apart, initial_free_lists, span, NUM_ORDERS,
    MAX_ORDER, PAGESIZE, lemma_span_values,
};
use crate::sleb::{
    SlebMetadataPage, alloc_post, free_post, class_of_size, class_size, slot_addr, type_class, page_of, took,
    capacity, lemma_slot_in_page, lemma_new_slot_apart, lemma_live_slots_disjoint, SLEB_PAGESIZE, ENTRIES_PER_PAGE, ONE_MIB, NUM_CLASSES, BUCKET_INDEX_NONE, MetadataType,
};

verus! {

/// Requests of at most this many bytes are served by the slab-style allocator.
pub const SMALL_LIMIT: u64 = 2048;
/// Order of the buddy block that the slab-style allocator takes: 1 MiB.
pub const SLEB_ORDER: u16 = 8;

/// A slab-style allocator that has not served anything yet.
pub open spec fn fresh(s: SlebMetadataPage) -> bool {
    &&& forall|i: int| 0 <= i < ENTRIES_PER_PAGE ==> #[trigger] s.kind(i) == MetadataType::Empty
    &&& forall|c: int| 0 <= c < NUM_CLASSES ==> #[trigger] s.bucket(c) == BUCKET_INDEX_NONE
}

/// The first small request on a heap without a slab region, from a buddy
/// allocator `b`, has result `r`: either the 1 MiB region could not be had,
/// and then `r` is 0 and nothing but the buddy allocator's failed request
/// happened; or the region was taken at some `base`, a fresh slab-style
/// allocator was set up on it, and it served the request, which cannot fail.
pub open spec fn first_small(b: BuddyAllocator, h: Heap, c: int, r: u64) -> bool {
    ||| r == 0 && h.sleb() is None && alloc_result(b, h.buddy(), ONE_MIB as int, 0)
    ||| r != 0 && exists|base: u64| #[trigger] alloc_result(b, h.buddy(), ONE_MIB as int, base) && base != 0
        && (h.sleb() matches Some(s1) && s1.base() == base
        && exists|s0: SlebMetadataPage| #[trigger] fresh(s0) && s0.base() == base && alloc_post(s0, s1, c, r))
}

/// A slot of the slab-style allocator shares no byte with a block that the
/// buddy allocator handed out directly: the slot lies in the slab region,
/// which is a buddy block of its own.
pub proof fn lemma_slot_apart_from_blocks(h: Heap, i: int, q: int, j: int)
    requires
        h.wf(),
        h.sleb() is Some,
        h.sleb().unwrap().live_slot(i, q),
        h.buddy().live().contains_key(j),
        j != h.region(),
    ensures
        ({
            let s = h.sleb().unwrap();
            let c = type_class(s.kind(i));
            let a = slot_addr(s.base(), i, c, q);
            a + class_size(c) <= block_addr(j) || block_end(j, h.buddy().live()[j]) <= a
        }),
{
    let s = h.sleb().unwrap();
    let c = type_class(s.kind(i));
    lemma_slot_in_page(c, q);
    lemma_live_blocks_disjoint(h.buddy(), h.region(), j);
    lemma_span_values();
}

/// What a well-formed heap guarantees: both allocators are well formed, the
/// slab region is a live 1 MiB buddy block at the slab allocator's base, and
/// no two live allocations share a byte, be they buddy blocks, slab slots,
/// or one of each.
pub proof fn lemma_heap_facts(h: Heap)
    requires
        h.wf(),
    ensures
        h.buddy().wf(),
        h.sleb() is Some ==> {
            let s = h.sleb().unwrap();
            &&& s.wf()
            &&& h.buddy().live().contains_key(h.region())
            &&& h.buddy().live()[h.region()] == SLEB_ORDER
            &&& s.base() == block_addr(h.region())
        },
        forall|i: int, j: int| #[trigger] h.buddy().live().contains_key(i) && #[trigger] h.buddy().live().contains_key(j)
            && i != j ==> block_end(i, h.buddy().live()[i]) <= block_addr(j) || block_end(j, h.buddy().live()[j])
            <= block_addr(i),
        h.sleb() is Some ==> forall|i1: int, q1: int, i2: int, q2: int| #[trigger] h.sleb().unwrap().live_slot(i1, q1)
            && #[trigger] h.sleb().unwrap().live_slot(i2, q2) && (i1 != i2 || q1 != q2) ==> ({
            let s = h.sleb().unwrap();
            let c1 = type_class(s.kind(i1));
            let c2 = type_class(s.kind(i2));
            let a1 = slot_addr(s.base(), i1, c1, q1);
            let a2 = slot_addr(s.base(), i2, c2, q2);
            a1 + class_size(c1) <= a2 || a2 + class_size(c2) <= a1
        }),
        h.sleb() is Some ==> forall|i: int, q: int, j: int| #[trigger] h.sleb().unwrap().live_slot(i, q)
            && #[trigger] h.buddy().live().contains_key(j) && j != h.region() ==> ({
            let s = h.sleb().unwrap();
            let c = type_class(s.kind(i));
            let a = slot_addr(s.base(), i, c, q);
            a + class_size(c) <= block_addr(j) || block_end(j, h.buddy().live()[j]) <= a
        }),
{
    assert forall|i: int, j: int| #[trigger] h.buddy().live().contains_key(i) && #[trigger] h.buddy().live().contains_key(j)
        && i != j implies block_end(i, h.buddy().live()[i]) <= block_addr(j) || block_end(j, h.buddy().live()[j])
        <= block_addr(i) by {
        lemma_live_blocks_disjoint(h.buddy(), i, j);
    }
    if h.sleb() is Some {
        let s = h.sleb().unwrap();
        assert forall|i1: int, q1: int, i2: int, q2: int| #[trigger] s.live_slot(i1, q1) && #[trigger] s.live_slot(i2, q2)
            && (i1 != i2 || q1 != q2) implies ({
            let c1 = type_class(s.kind(i1));
            let c2 = type_class(s.kind(i2));
            let a1 = slot_addr(s.base(), i1, c1, q1);
            let a2 = slot_addr(s.base(), i2, c2, q2);
            a1 + class_size(c1) <= a2 || a2 + class_size(c2) <= a1
        }) by {
            lemma_live_slots_disjoint(s, i1, q1, i2, q2);
        }
        assert forall|i: int, q: int, j: int| #[trigger] s.live_slot(i, q) && #[trigger] h.buddy().live().contains_key(j)
            && j != h.region() implies ({
            let c = type_class(s.kind(i));
            let a = slot_addr(s.base(), i, c, q);
            a + class_size(c) <= block_addr(j) || block_end(j, h.buddy().live()[j]) <= a
        }) by {
            lemma_slot_apart_from_blocks(h, i, q, j);
        }
    }
}

/// What a request of `size` bytes aligned to `align` does to the heap, with
/// `r` its result: a large request is the buddy allocator's; a small one is
/// the slab-style allocator's, after the one-time region reservation on the
/// first one.
pub open spec fn heap_alloc_post(old: Heap, new: Heap, size: u64, align: u64, r: u64) -> bool {
    &&& request_size(size, align) > SMALL_LIMIT ==> {
        &&& new.sleb() == old.sleb()
        &&& alloc_result(old.buddy(), new.buddy(), request_size(size, align), r)
    }
    &&& request_size(size, align) <= SMALL_LIMIT ==> {
        let c = class_of_size(request_size(size, align));
        &&& old.sleb() matches Some(s0) ==> {
            &&& new.buddy() == old.buddy()
            &&& new.sleb() matches Some(s1) && alloc_post(s0, s1, c, r)
        }
        &&& old.sleb() is None ==> first_small(old.buddy(), new, c, r)
    }
}

/// The bytes a request of `size` bytes aligned to `align` gets: a slot of
/// its class for a small request, a block of its order for a large one.
pub open spec fn granted(size: u64, align: u64) -> int {
    if request_size(size, align) <= SMALL_LIMIT {
        class_size(class_of_size(request_size(size, align)))
    } else {
        span(order_for(request_size(size, align))) * PAGESIZE
    }
}

/// A slot lies inside the slab region, after its metadata page.
proof fn lemma_slot_in_region(base: int, i: int, c: int, q: int)
    requires
        0 <= i < ENTRIES_PER_PAGE,
        0 <= c < NUM_CLASSES,
        0 <= q < capacity(c),
    ensures
        base + SLEB_PAGESIZE <= slot_addr(base, i, c, q),
        slot_addr(base, i, c, q) + class_size(c) <= base + ONE_MIB,
{
    lemma_slot_in_page(c, q);
}

/// What an allocation hands out shares no byte with anything live before
/// it: no slot of the slab-style allocator, and no block that the buddy
/// allocator handed out directly.
pub proof fn lemma_new_result_apart(h0: Heap, h1: Heap, size: u64, align: u64, r: u64)
    requires
        h0.wf(),
        h1.wf(),
        heap_alloc_post(h0, h1, size, align, r),
        r != 0,
    ensures
        h0.sleb() matches Some(s) ==> forall|i: int, q: int| #[trigger] s.live_slot(i, q) ==> ({
            let a = slot_addr(s.base(), i, type_class(s.kind(i)), q);
            r + granted(size, align) <= a || a + class_size(type_class(s.kind(i))) <= r
        }),
        forall|j: int| #[trigger] h0.buddy().live().contains_key(j) && (h0.sleb() is Some ==> j != h0.region())
            ==> r + granted(size, align) <= block_addr(j) || block_end(j, h0.buddy().live()[j]) <= r,
{
    lemma_span_values();
    let n = request_size(size, align);
    h0.buddy().lemma_wf_facts();
    if n > SMALL_LIMIT {
        assert forall|j: int| #[trigger] h0.buddy().live().contains_key(j) && (h0.sleb() is Some ==> j != h0.region())
            implies r + granted(size, align) <= block_addr(j) || block_end(j, h0.buddy().live()[j]) <= r by {
            lemma_new_block_apart(h0.buddy(), h1.buddy(), n, r, j);
        }
        if h0.sleb() is Some {
            let s = h0.sleb().unwrap();
            lemma_new_block_apart(h0.buddy(), h1.buddy(), n, r, h0.region());
            assert forall|i: int, q: int| #[trigger] s.live_slot(i, q) implies ({
                let a = slot_addr(s.base(), i, type_class(s.kind(i)), q);
                r + granted(size, align) <= a || a + class_size(type_class(s.kind(i))) <= r
            }) by {
                lemma_slot_in_region(s.base(), i, type_class(s.kind(i)), q);
            }
        }
    } else {
        let c = class_of_size(n);
        if h0.sleb() is Some {
            let s0 = h0.sleb().unwrap();
            let s1 = h1.sleb().unwrap();
            assert forall|i: int, q: int| #[trigger] s0.live_slot(i, q) implies ({
                let a = slot_addr(s0.base(), i, type_class(s0.kind(i)), q);
                r + granted(size, align) <= a || a + class_size(type_class(s0.kind(i))) <= r
            }) by {
                lemma_new_slot_apart(s0, s1, c, r, i, q);
            }
            let (p, t) = choose|p: int, t: int| #[trigger] took(s0, s1, c, p, t) && r == slot_addr(s0.base(), p, c, t);
            lemma_slot_in_region(s0.base(), p, c, t);
            assert forall|j: int| #[trigger] h0.buddy().live().contains_key(j) && (h0.sleb() is Some ==> j != h0.region())
                implies r + granted(size, align) <= block_addr(j) || block_end(j, h0.buddy().live()[j]) <= r by {
                lemma_live_blocks_disjoint(h0.buddy(), h0.region(), j);
            }
        } else {
            let base = choose|base: u64| #[trigger] alloc_result(h0.buddy(), h1.buddy(), ONE_MIB as int, base) && base != 0
                && (h1.sleb() matches Some(s1) && s1.base() == base
                && exists|s0: SlebMetadataPage| #[trigger] fresh(s0) && s0.base() == base && alloc_post(s0, s1, c, r));
            let s1 = h1.sleb().unwrap();
            let s0 = choose|s0: SlebMetadataPage| #[trigger] fresh(s0) && s0.base() == base && alloc_post(s0, s1, c, r);
            let (p, t) = choose|p: int, t: int| #[trigger] took(s0, s1, c, p, t) && r == slot_addr(s0.base(), p, c, t);
            lemma_slot_in_region(base as int, p, c, t);
            lemma_order_for_region();
            assert forall|j: int| #[trigger] h0.buddy().live().contains_key(j) && (h0.sleb() is Some ==> j != h0.region())
                implies r + granted(size, align) <= block_addr(j) || block_end(j, h0.buddy().live()[j]) <= r by {
                lemma_new_block_apart(h0.buddy(), h1.buddy(), ONE_MIB as int, base, j);
            }
        }
    }
}

/// The kernel heap: the buddy allocator and, once a small request came, the
/// slab-style allocator on the 1 MiB buddy block it took.
pub struct Heap {
    buddy: BuddyAllocator,
    sleb: Option<SlebMetadataPage>,
    region: Ghost<int>,
}

impl Heap {
    /// The buddy allocator.
    pub closed spec fn buddy(self) -> BuddyAllocator {
        self.buddy
    }

    /// The slab-style allocator, once it has its region.
    pub closed spec fn sleb(self) -> Option<SlebMetadataPage> {
        self.sleb
    }

    /// The buddy block that holds the slab-style allocator's region.
    pub closed spec fn region(self) -> int {
        self.region@
    }

    /// Both allocators are well formed, and the slab region is a live buddy
    /// block of 1 MiB.
    pub closed spec fn wf(self) -> bool {
        &&& self.buddy.wf()
        &&& self.sleb matches Some(s) ==> {
            &&& s.wf()
            &&& self.buddy.live().contains_key(self.region@)
            &&& self.buddy.live()[self.region@] == SLEB_ORDER
            &&& s.base() == block_addr(self.region@)
        }
    }

    /// `ptr` is an address that `allocate` handed out and that was not
    /// freed since: a slot of the slab-style allocator, or the start of a
    /// buddy block other than the slab-style allocator's region.
    pub open spec fn live_addr(self, ptr: u64) -> bool {
        ||| self.sleb() matches Some(s) && exists|i: int, q: int| #[trigger] s.live_slot(i, q)
            && ptr == slot_addr(s.base(), i, type_class(s.kind(i)), q)
        ||| exists|i: int| #[trigger] self.buddy().live().contains_key(i) && ptr == block_addr(i)
            && (self.sleb() is Some ==> i != self.region())
    }

    /// `ptr` lies strictly inside the slab-style allocator's region.
    pub open spec fn in_region(self, ptr: u64) -> bool {
        self.sleb() matches Some(s) && s.base() < ptr < s.base() + ONE_MIB
    }

    /// An empty heap: one free block spanning it, and no slab region yet.
    pub fn new() -> (r: Self)
        ensures
            r.wf(),
            r.sleb() is None,
            r.buddy().live() == Map::<int, int>::empty(),
            r.buddy().free_lists() == initial_free_lists(),
    {
        proof {
            assert(Seq::new(NUM_ORDERS as nat, |o: int| if o == MAX_ORDER { seq![0int] } else { Seq::<int>::empty() })
                == initial_free_lists());
        }
        Heap { buddy: BuddyAllocator::new(), sleb: None, region: Ghost(0) }
    }

    /// Serves a request of `size` bytes aligned to `align`; 0 when it cannot.
    pub fn allocate(&mut self, size: u64, align: u64) -> (r: u64)
        requires
            old(self).wf(),
            size >= 1,
        ensures
            final(self).wf(),
            heap_alloc_post(*old(self), *final(self), size, align, r),
    {
        let n = if size >= align { size } else { align };
        if n > SMALL_LIMIT {
            let r = self.buddy.allocate(size, align);
            proof {
                if r != 0 {
                    let i = choose|i: int| #[trigger] block_addr(i) == r && !old(self).buddy.live().contains_key(i)
                        && self.buddy.live() == old(self).buddy.live().insert(i, order_for(request_size(size, align)));
                }
            }
            return r;
        }
        let ghost b0 = self.buddy;
        if self.sleb.is_none() {
            let page = self.buddy.allocate(ONE_MIB, 1);
            if page == 0 {
                return 0;
            }
            proof {
                lemma_order_for_region();
                self.buddy.lemma_wf_facts();
                let i = choose|i: int| #[trigger] block_addr(i) == page && !b0.live().contains_key(i)
                    && self.buddy.live() == b0.live().insert(i, order_for(ONE_MIB as int));
                assert(self.buddy.live().contains_key(i));
                self.region = Ghost(i);
            }
            let s = SlebMetadataPage::init(page);
            self.sleb = Some(s);
            let ghost s0 = s;
            let mut opt: Option<SlebMetadataPage> = None;
            std::mem::swap(&mut self.sleb, &mut opt);
            match opt {
                Some(mut s) => {
                    let r = s.allocate(n as usize);
                    proof {
                        assert(fresh(s0));
                        if r == 0 {
                            assert(s0.kind(0) == MetadataType::Empty);
                        }
                    }
                    self.sleb = Some(s);
                    proof {
                        assert(alloc_result(b0, self.buddy(), ONE_MIB as int, page));
                        assert(fresh(s0) && s0.base() == page);
                        assert(r != 0);
                        assert(self.sleb() matches Some(s1) && s1.base() == page);
                        assert(exists|s0: SlebMetadataPage| #[trigger] fresh(s0) && s0.base() == page
                            && alloc_post(s0, s, class_of_size(request_size(size, align)), r));
                        assert(first_small(b0, *self, class_of_size(request_size(size, align)), r));
                    }
                    r
                },
                None => 0,
            }
        } else {
            let mut opt: Option<SlebMetadataPage> = None;
            std::mem::swap(&mut self.sleb, &mut opt);
            match opt {
                Some(mut s) => {
                    let ghost s0 = s;
                    let r = s.allocate(n as usize);
                    self.sleb = Some(s);
                    proof {
                        assert(old(self).sleb() == Some(s0));
                        assert(alloc_post(s0, s, class_of_size(request_size(size, align)), r));
                    }
                    r
                },
                None => 0,
            }
        }
    }

    /// Returns the allocation at `ptr`: to the slab-style allocator when
    /// `ptr` lies inside its region, and else to the buddy allocator, which
    /// goes by the order it recorded for the block rather than by `size` and
    /// `align`.
    pub fn deallocate(&mut self, ptr: u64, size: u64, align: u64)
        requires
            old(self).wf(),
            old(self).live_addr(ptr),
        ensures
            final(self).wf(),
            old(self).in_region(ptr) ==> {
                let s = old(self).sleb().unwrap();
                &&& final(self).buddy() == old(self).buddy()
                &&& final(self).sleb() is Some
                &&& free_post(s, final(self).sleb().unwrap(), ptr, page_of(s.base(), ptr as int))
            },
            !old(self).in_region(ptr) ==> {
                &&& final(self).sleb() == old(self).sleb()
                &&& free_result(old(self).buddy(), final(self).buddy(), ptr)
            },
    {
        proof {
            self.buddy.lemma_wf_facts();
        }
        let mut opt: Option<SlebMetadataPage> = None;
        std::mem::swap(&mut self.sleb, &mut opt);
        match opt {
            Some(mut s) => {
                if s.within_bounds(ptr) {
                    proof {
                        if !(exists|i: int, q: int| #[trigger] s.live_slot(i, q)
                            && ptr == slot_addr(s.base(), i, type_class(s.kind(i)), q)) {
                            let i = choose|i: int| #[trigger] old(self).buddy().live().contains_key(i)
                                && ptr == block_addr(i) && i != old(self).region();
                            let r = old(self).region();
                            assert(is_chunk(self.buddy.free_lists(), self.buddy.live(), i, self.buddy.live()[i]));
                            assert(is_chunk(self.buddy.free_lists(), self.buddy.live(), r, self.buddy.live()[r]));
                            lemma_span_values();
                            crate::buddy::lemma_span_pos(self.buddy.live()[i]);
                        }
                    }
                    s.free(ptr);
                    self.sleb = Some(s);
                } else {
                    proof {
                        if exists|i: int, q: int| #[trigger] s.live_slot(i, q)
                            && ptr == slot_addr(s.base(), i, type_class(s.kind(i)), q) {
                            let (i, q) = choose|i: int, q: int| #[trigger] s.live_slot(i, q)
                                && ptr == slot_addr(s.base(), i, type_class(s.kind(i)), q);
                            lemma_slot_in_page(type_class(s.kind(i)), q);
                        }
                        let i = choose|i: int| #[trigger] old(self).buddy().live().contains_key(i)
                            && ptr == block_addr(i) && i != old(self).region();
                        assert(self.buddy.live().contains_key(i));
                    }
                    self.buddy.deallocate(ptr);
                    self.sleb = Some(s);
                }
            },
            None => {
                self.buddy.deallocate(ptr);
            },
        }
    }
}

} // verus!
