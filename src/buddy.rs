//! The buddy allocator: the heap is split into page-sized blocks, and free
//! runs of `2^order` blocks are kept on one doubly linked list per order.

use vstd::prelude::*;
use vstd::arithmetic::power2::{pow2, lemma2_to64, lemma_pow2_unfold};
use vstd::bits::lemma_u16_shl_is_mul;

verus! {

/// First address of the heap.
pub const HEAP_START: u64 = 0x4444_4444_0000;
/// Size of the heap in bytes.
pub const HEAP_SIZE: u64 = 4194304;
/// One past the last address of the heap.
pub const HEAP_END: u64 = HEAP_START + HEAP_SIZE;
/// Size of a page, which is also the size of one block.
pub const PAGESIZE: u64 = 4096;
/// Number of page-sized blocks in the heap.
pub const NUM_BLOCKS: u16 = 1024;
/// The largest order: a block of this order spans the whole heap.
pub const MAX_ORDER: u16 = 10;
/// Number of orders, and so of free lists.
pub const NUM_ORDERS: u16 = 11;
/// Link value meaning "no block".
pub const NO_BLOCK: u16 = 0xFFFF;

/// Number of pages spanned by a block of order `order`.
pub open spec fn span(order: int) -> int {
    pow2(order as nat) as int
}

/// Address of the first byte of block `index`.
pub open spec fn block_addr(index: int) -> int {
    HEAP_START + index * PAGESIZE
}

/// The buddy of the block of order `order` that starts at block `index`,
/// before the bounds of the heap are taken into account.
pub open spec fn buddy_of(order: int, index: int) -> int {
    if index % span(order + 1) == 0 {
        index + span(order)
    } else {
        index - span(order)
    }
}

/// The pages `[s1, s1 + n1)` and `[s2, s2 + n2)` do not meet.
pub open spec fn disjoint(s1: int, n1: int, s2: int, n2: int) -> bool {
    s1 + n1 <= s2 || s2 + n2 <= s1
}

/// The page counts of the orders.
pub proof fn lemma_span_values()
    ensures
        span(0) == 1, span(1) == 2, span(2) == 4, span(3) == 8, span(4) == 16,
        span(5) == 32, span(6) == 64, span(7) == 128, span(8) == 256, span(9) == 512,
        span(10) == 1024, span(11) == 2048,
{
    lemma2_to64();
}

/// Every block spans at least one page.
pub proof fn lemma_span_pos(order: int)
    ensures
        span(order) >= 1,
{
    vstd::arithmetic::power2::lemma_pow2_pos(order as nat);
}

proof fn lemma_span_step(order: int)
    requires
        0 <= order,
    ensures
        span(order + 1) == 2 * span(order),
        span(order) >= 1,
{
    lemma_pow2_unfold((order + 1) as nat);
    vstd::arithmetic::power2::lemma_pow2_pos(order as nat);
}

/// A run aligned to the next order is aligned to this one, and so is the
/// right half it splits into.
proof fn lemma_align_split(i: int, k: int)
    requires
        0 <= k,
        0 <= i,
        i % span(k + 1) == 0,
    ensures
        i % span(k) == 0,
        (i + span(k)) % span(k) == 0,
{
    lemma_span_step(k);
    let p = span(k);
    assert(i % p == 0 && (i + p) % p == 0) by (nonlinear_arith)
        requires
            p >= 1,
            i >= 0,
            i % (2 * p) == 0,
    {
        let q = i / (2 * p);
        assert(i == (2 * q) * p);
        vstd::arithmetic::div_mod::lemma_mod_multiples_basic(2 * q, p);
        vstd::arithmetic::div_mod::lemma_mod_multiples_basic(2 * q + 1, p);
    }
}

/// A run aligned to its order, merged with its buddy, gives a run aligned
/// to the next order.
proof fn lemma_align_merge(i: int, k: int)
    requires
        0 <= k,
        0 <= i,
        i % span(k) == 0,
    ensures
        buddy_of(k, i) % span(k) == 0 || buddy_of(k, i) < 0,
        (if buddy_of(k, i) < i { buddy_of(k, i) } else { i }) % span(k + 1) == 0,
        buddy_of(k, i) >= 0 ==> buddy_of(k, buddy_of(k, i)) == i,
{
    lemma_span_step(k);
    let p = span(k);
    assert(i % (2 * p) == 0 || (i % (2 * p) == p && (i - p) % (2 * p) == 0 && (i - p) % p == 0)) by (nonlinear_arith)
        requires
            p >= 1,
            i >= 0,
            i % p == 0,
    {
        let q = i / p;
        assert(i == q * p);
        if q % 2 == 0 {
            assert(i == (q / 2) * (2 * p));
            vstd::arithmetic::div_mod::lemma_mod_multiples_basic(q / 2, 2 * p);
        } else {
            assert(i == (q / 2) * (2 * p) + p);
            assert(i - p == (q / 2) * (2 * p));
            vstd::arithmetic::div_mod::lemma_mod_multiples_basic(q / 2, 2 * p);
            vstd::arithmetic::div_mod::lemma_mod_multiples_vanish(q / 2, p, 2 * p);
            vstd::arithmetic::div_mod::lemma_mod_multiples_basic(2 * (q / 2), p);
        }
    }
    if i % (2 * p) == 0 {
        lemma_align_split(i, k);
        assert((i + p) % (2 * p) == p) by (nonlinear_arith)
            requires
                p >= 1,
                i >= 0,
                i % (2 * p) == 0,
        {
            let q = i / (2 * p);
            assert(i + p == q * (2 * p) + p);
            vstd::arithmetic::div_mod::lemma_mod_multiples_vanish(q, p, 2 * p);
            vstd::arithmetic::div_mod::lemma_small_mod(p as nat, (2 * p) as nat);
        }
    }
}

/// `1 << order` as a number of pages.
fn pages_of(order: u16) -> (r: u16)
    requires
        order <= 11,
    ensures
        r as int == span(order as int),
{
    proof {
        lemma_span_values();
        lemma_u16_shl_is_mul(1, order);
    }
    1u16 << order
}


/// The record kept for each page-sized block. `previous` and `next` link
/// the block into the free list of its order while it is free.
#[derive(Clone, Copy)]
pub struct Block {
    pub previous: u16,
    pub next: u16,
    pub order: u16,
    pub free: bool,
}

impl Block {
    /// The two halves of the block of order `order` that starts at `index`.
    pub fn split(order: u16, index: u16) -> (r: (u16, u16))
        requires
            1 <= order <= MAX_ORDER,
            index as int + span(order as int) <= NUM_BLOCKS,
        ensures
            r.0 == index,
            r.1 as int == index as int + span(order as int - 1),
            span(order as int) == 2 * span(order as int - 1),
    {
        proof {
            lemma_span_step(order as int - 1);
        }
        let new_order = order - 1;
        let left_block = index;
        let right_block = left_block + pages_of(new_order);
        (left_block, right_block)
    }

    /// Address of the first byte of block `index`.
    pub fn index_to_ptr(index: u16) -> (r: u64)
        requires
            index < NUM_BLOCKS,
        ensures
            r as int == block_addr(index as int),
    {
        HEAP_START + (index as u64) * PAGESIZE
    }

    /// The index of the buddy of the block of order `order` at `address`,
    /// if that buddy lies inside the heap.
    pub fn get_buddy_index(order: u16, address: u64) -> (r: Option<u16>)
        requires
            order <= MAX_ORDER,
            exists|i: int| 0 <= i < NUM_BLOCKS && address == block_addr(i),
        ensures
            ({
                let i = (address - HEAP_START) / PAGESIZE as int;
                let b = buddy_of(order as int, i);
                &&& address == block_addr(i)
                &&& r == if 0 <= b < NUM_BLOCKS { Some(b as u16) } else { None::<u16> }
            }),
    {
        let index = BuddyAllocator::get_block_index(address) as u16;
        proof {
            lemma_span_values();
            lemma_span_step(order as int);
        }
        let whole = pages_of(order + 1);
        let half = pages_of(order);
        if index % whole == 0 {
            if index + half < NUM_BLOCKS {
                Some(index + half)
            } else {
                None
            }
        } else if index >= half {
            Some(index - half)
        } else {
            None
        }
    }
}

/// The link after position `j` of free list `l`.
pub open spec fn next_in(l: Seq<int>, j: int) -> int {
    if j + 1 < l.len() { l[j + 1] } else { NO_BLOCK as int }
}

/// The link before position `j` of free list `l`.
pub open spec fn prev_in(l: Seq<int>, j: int) -> int {
    if j > 0 { l[j - 1] } else { NO_BLOCK as int }
}

/// The head link of free list `l`.
pub open spec fn head_in(l: Seq<int>) -> int {
    if l.len() > 0 { l[0] } else { NO_BLOCK as int }
}

/// `(s, o)` is a run of `2^o` pages starting at block `s` that is either on
/// the free list of order `o` or handed out with order `o`.
pub open spec fn is_chunk(lists: Seq<Seq<int>>, live: Map<int, int>, s: int, o: int) -> bool {
    (0 <= o < lists.len() && lists[o].contains(s)) || (live.contains_key(s) && live[s] == o)
}

/// No two distinct runs, free or handed out, share a page.
pub open spec fn chunks_disjoint(lists: Seq<Seq<int>>, live: Map<int, int>) -> bool {
    forall|s1: int, o1: int, s2: int, o2: int|
        #[trigger] is_chunk(lists, live, s1, o1) && #[trigger] is_chunk(lists, live, s2, o2)
            && (s1 != s2 || o1 != o2) ==> disjoint(s1, span(o1), s2, span(o2))
}

/// The pages `[s, s + 2^o)` meet no run of the heap.
pub open spec fn unclaimed(lists: Seq<Seq<int>>, live: Map<int, int>, s: int, o: int) -> bool {
    forall|s2: int, o2: int| #[trigger] is_chunk(lists, live, s2, o2) ==> disjoint(s, span(o), s2, span(o2))
}

/// No free run below the largest order has its buddy free at the same
/// order: free buddies are always merged.
pub open spec fn coalesced(lists: Seq<Seq<int>>) -> bool {
    forall|o: int, s: int| 0 <= o < MAX_ORDER && #[trigger] lists[o].contains(s) ==> !lists[o].contains(buddy_of(o, s))
}

proof fn lemma_coalesced_subset(l1: Seq<Seq<int>>, l2: Seq<Seq<int>>)
    requires
        coalesced(l1),
        forall|o: int, s: int| 0 <= o < MAX_ORDER && #[trigger] l2[o].contains(s) ==> l1[o].contains(s),
    ensures
        coalesced(l2),
{
    assert forall|o: int, s: int| 0 <= o < MAX_ORDER && #[trigger] l2[o].contains(s) implies !l2[o].contains(
        buddy_of(o, s),
    ) by {
        assert(l1[o].contains(s));
        if l2[o].contains(buddy_of(o, s)) {
            assert(l1[o].contains(buddy_of(o, s)));
        }
    }
}

/// `o` is the lowest order at or above `target` whose free list is not empty.
pub open spec fn first_nonempty(lists: Seq<Seq<int>>, target: int, o: int) -> bool {
    &&& target <= o <= MAX_ORDER
    &&& lists[o].len() > 0
    &&& forall|p: int| target <= p < o ==> lists[p].len() == 0
}

/// The free lists after the head of list `o` is taken and split down to order
/// `target`: each order from `target` up to `o` gets the right half cut off at
/// that order.
pub open spec fn after_split(lists: Seq<Seq<int>>, target: int, o: int) -> Seq<Seq<int>> {
    Seq::new(
        lists.len(),
        |p: int|
            if p == o {
                lists[o].drop_first()
            } else if target <= p < o {
                seq![lists[o][0] + span(p)]
            } else {
                lists[p]
            },
    )
}

/// The first order, counting up from `o`, whose blocks hold `n` bytes;
/// `MAX_ORDER + 1` when none does.
pub open spec fn order_from(n: int, o: int) -> int
    decreases MAX_ORDER + 1 - o,
{
    if o > MAX_ORDER || o < 0 || PAGESIZE * span(o) >= n {
        o
    } else {
        order_from(n, o + 1)
    }
}

/// The smallest power of two that is at least `num`.
pub fn round_up_pow2(num: u64) -> (r: u64)
    requires
        1 <= num <= 0x8000_0000_0000_0000,
    ensures
        r & vstd::prelude::sub(r, 1) == 0,
        r >= num,
        r / 2 < num,
{
    let mut x: u64 = num - 1;
    x = x | (x >> 1);
    x = x | (x >> 2);
    x = x | (x >> 4);
    x = x | (x >> 8);
    x = x | (x >> 16);
    x = x | (x >> 32);
    let y = x;
    assert(y < 0xFFFF_FFFF_FFFF_FFFF && vstd::prelude::add(y, 1) & y == 0 && vstd::prelude::add(y, 1) >= num
        && vstd::prelude::add(y, 1) / 2 < num) by (bit_vector)
        requires
            1 <= num <= 0x8000_0000_0000_0000,
            y == ({
                let x0: u64 = vstd::prelude::sub(num, 1);
                let x1: u64 = x0 | (x0 >> 1);
                let x2: u64 = x1 | (x1 >> 2);
                let x3: u64 = x2 | (x2 >> 4);
                let x4: u64 = x3 | (x3 >> 8);
                let x5: u64 = x4 | (x4 >> 16);
                x5 | (x5 >> 32)
            }),
    ;
    y + 1
}

/// The number of bytes a request of `size` bytes aligned to `align` takes.
pub open spec fn request_size(size: u64, align: u64) -> int {
    if size >= align { size as int } else { align as int }
}

/// The smallest order whose blocks hold `n` bytes.
pub open spec fn order_for(n: int) -> int {
    order_from(n, 0)
}

/// A request of 1 MiB takes a block of order 8; one of 2049 bytes a single
/// page, and one of 4097 bytes a block of two pages.
pub proof fn lemma_order_for_region()
    ensures
        order_for(1048576) == 8,
        order_for(4096) == 0,
        order_for(2049) == 0,
        order_for(4097) == 1,
{
    lemma_span_values();
    reveal_with_fuel(order_from, 10);
}

/// The order of the block that serves a request of `n` bytes.
pub fn block_order(n: u64) -> (r: u16)
    requires
        n <= HEAP_SIZE,
    ensures
        r as int == order_for(n as int),
        r <= MAX_ORDER,
        PAGESIZE * span(r as int) >= n,
        r > 0 ==> PAGESIZE * span(r as int - 1) < n,
{
    let mut k: u16 = 0;
    let mut bytes: u64 = PAGESIZE;
    proof {
        lemma_span_values();
    }
    while bytes < n
        invariant
            k <= MAX_ORDER,
            n <= HEAP_SIZE,
            bytes as int == PAGESIZE * span(k as int),
            order_from(n as int, k as int) == order_for(n as int),
            k > 0 ==> PAGESIZE * span(k as int - 1) < n,
        decreases MAX_ORDER - k,
    {
        proof {
            lemma_span_values();
            lemma_span_step(k as int);
            if k == MAX_ORDER {
                assert(false);
            }
        }
        bytes = bytes * 2;
        k = k + 1;
    }
    k
}

/// What a request for `n` bytes does to the heap, with `r` its result: 0
/// and no change when `n` exceeds the heap; otherwise 0 exactly when no free
/// list at or above the block order of `n` holds a block, and else the
/// address of the head of the lowest such list, split down to that order,
/// which starts at a multiple of its own size.
pub open spec fn alloc_result(old: BuddyAllocator, new: BuddyAllocator, n: int, r: u64) -> bool {
    &&& n > HEAP_SIZE ==> r == 0 && new == old
    &&& n <= HEAP_SIZE ==> (r == 0 <==> (forall|o: int| order_for(n) <= o <= MAX_ORDER ==> old.free_lists()[o].len() == 0))
    &&& r == 0 ==> new.free_lists() == old.free_lists() && new.live() == old.live()
    &&& r != 0 ==> exists|i: int| #[trigger] block_addr(i) == r
        && !old.live().contains_key(i)
        && i % span(order_for(n)) == 0
        && new.live() == old.live().insert(i, order_for(n))
        && exists|o: int| #[trigger] first_nonempty(old.free_lists(), order_for(n), o)
            && i == old.free_lists()[o][0]
            && new.free_lists() == after_split(old.free_lists(), order_for(n), o)
}

/// Byte range of a block: it starts at `block_addr(i)` and spans
/// `span(o)` pages.
pub open spec fn block_end(i: int, o: int) -> int {
    block_addr(i) + span(o) * PAGESIZE
}

/// No two blocks handed out and not yet returned share a byte.
pub proof fn lemma_live_blocks_disjoint(b: BuddyAllocator, i: int, j: int)
    requires
        b.wf(),
        b.live().contains_key(i),
        b.live().contains_key(j),
        i != j,
    ensures
        block_end(i, b.live()[i]) <= block_addr(j) || block_end(j, b.live()[j]) <= block_addr(i),
{
    b.lemma_wf_facts();
    assert(is_chunk(b.free_lists(), b.live(), i, b.live()[i]));
    assert(is_chunk(b.free_lists(), b.live(), j, b.live()[j]));
}

/// A block just handed out shares no byte with any block that was live
/// before the request.
pub proof fn lemma_new_block_apart(b0: BuddyAllocator, b1: BuddyAllocator, n: int, r: u64, j: int)
    requires
        b1.wf(),
        alloc_result(b0, b1, n, r),
        r != 0,
        b0.live().contains_key(j),
    ensures
        r + span(order_for(n)) * PAGESIZE <= block_addr(j) || block_end(j, b0.live()[j]) <= r,
{
    let i = choose|i: int| #[trigger] block_addr(i) == r && !b0.live().contains_key(i)
        && i % span(order_for(n)) == 0
        && b1.live() == b0.live().insert(i, order_for(n))
        && exists|o: int| #[trigger] first_nonempty(b0.free_lists(), order_for(n), o)
            && i == b0.free_lists()[o][0]
            && b1.free_lists() == after_split(b0.free_lists(), order_for(n), o);
    assert(b1.live().contains_key(i) && b1.live()[i] == order_for(n));
    assert(b1.live().contains_key(j) && b1.live()[j] == b0.live()[j]);
    lemma_live_blocks_disjoint(b1, i, j);
}

proof fn lemma_order_from_at_least(n: int, o: int)
    requires
        0 <= o,
    ensures
        order_from(n, o) >= o,
    decreases MAX_ORDER + 1 - o,
{
    if o <= MAX_ORDER && PAGESIZE * span(o) < n {
        lemma_order_from_at_least(n, o + 1);
    }
}

proof fn lemma_align_down(i: int, o: int, m: int)
    requires
        0 <= m <= o,
        0 <= i,
        i % span(o) == 0,
    ensures
        i % span(m) == 0,
    decreases o - m,
{
    if m < o {
        lemma_align_split(i, o - 1);
        lemma_align_down(i, o - 1, m);
    }
}

/// The free lists while a block handed out from the head of list `o` of
/// `l` and split down is merged back: the halves below order `k` are merged
/// already, those from `k` up are still free.
pub open spec fn merging(l: Seq<Seq<int>>, o: int, k: int) -> Seq<Seq<int>> {
    Seq::new(
        l.len(),
        |p: int|
            if p == o {
                l[o].drop_first()
            } else if k <= p < o {
                seq![l[o][0] + span(p)]
            } else {
                l[p]
            },
    )
}

proof fn lemma_merge_back(l: Seq<Seq<int>>, t: int, o: int, k: int)
    requires
        l.len() == NUM_ORDERS,
        coalesced(l),
        first_nonempty(l, t, o),
        0 <= t <= k <= o,
        0 <= l[o][0],
        l[o][0] + span(o) <= NUM_BLOCKS,
        l[o][0] % span(o) == 0,
    ensures
        coalesce(merging(l, o, k), l[o][0], k) == (l.update(o, l[o].drop_first()), l[o][0], o),
    decreases o - k,
{
    let i = l[o][0];
    let m = merging(l, o, k);
    if k < o {
        lemma_align_down(i, o, k + 1);
        lemma_span_step(k);
        lemma_align_split(i, k);
        vstd::arithmetic::power2::lemma_pow2_strictly_increases(k as nat, o as nat);
        let b = buddy_of(k, i);
        assert(b == i + span(k));
        assert(m[k] =~= seq![b]);
        assert(m[k].contains(b)) by {
            assert(m[k][0] == b);
        }
        assert(m[k].index_of(b) == 0);
        assert(m.update(k, m[k].remove(0)) =~~= merging(l, o, k + 1));
        lemma_merge_back(l, t, o, k + 1);
    } else {
        assert(m =~~= l.update(o, l[o].drop_first()));
        if o < MAX_ORDER {
            assert(l[o].contains(i)) by {
                assert(l[o][0] == i);
            }
            let b = buddy_of(o, i);
            if m[o].contains(b) {
                let j = choose|j: int| 0 <= j < m[o].len() && m[o][j] == b;
                assert(l[o][j + 1] == b);
            }
        }
    }
}

/// Handing out a block and returning it leaves the free lists and the live
/// blocks as they were; so the same request, made again, gets the same
/// block back.
pub proof fn lemma_block_round_trip(
    b0: BuddyAllocator,
    b1: BuddyAllocator,
    b2: BuddyAllocator,
    b3: BuddyAllocator,
    n: int,
    r: u64,
    r2: u64,
)
    requires
        b0.wf(),
        alloc_result(b0, b1, n, r),
        r != 0,
        free_result(b1, b2, r),
        alloc_result(b2, b3, n, r2),
    ensures
        b2.free_lists() == b0.free_lists(),
        b2.live() == b0.live(),
        r2 == r,
{
    b0.lemma_wf_facts();
    let t = order_for(n);
    let i = choose|i: int| #[trigger] block_addr(i) == r && !b0.live().contains_key(i)
        && i % span(t) == 0
        && b1.live() == b0.live().insert(i, t)
        && exists|o: int| #[trigger] first_nonempty(b0.free_lists(), t, o)
            && i == b0.free_lists()[o][0]
            && b1.free_lists() == after_split(b0.free_lists(), t, o);
    let o = choose|o: int| #[trigger] first_nonempty(b0.free_lists(), t, o) && i == b0.free_lists()[o][0]
        && b1.free_lists() == after_split(b0.free_lists(), t, o);
    let l = b0.free_lists();
    assert(l[o].contains(i)) by {
        assert(l[o][0] == i);
    }
    assert((r - HEAP_START) / PAGESIZE as int == i) by (nonlinear_arith)
        requires
            r == HEAP_START + i * PAGESIZE,
    ;
    assert(b1.live()[i] == t);
    assert(after_split(l, t, o) =~~= merging(l, o, t));
    lemma_order_from_at_least(n, 0);
    lemma_merge_back(l, t, o, t);
    lemma_order_from_at_least(n, 0);
    let y = seq![i] + l[o].drop_first();
    assert(y =~= l[o]);
    assert(l.update(o, l[o].drop_first()).update(o, y) =~~= l);
    assert(b2.live() =~= b0.live());
    let i2 = choose|i2: int| #[trigger] block_addr(i2) == r2 && !b2.live().contains_key(i2)
        && i2 % span(t) == 0
        && b3.live() == b2.live().insert(i2, t)
        && exists|o2: int| #[trigger] first_nonempty(b2.free_lists(), t, o2)
            && i2 == b2.free_lists()[o2][0]
            && b3.free_lists() == after_split(b2.free_lists(), t, o2);
    let o2 = choose|o2: int| #[trigger] first_nonempty(b2.free_lists(), t, o2) && i2 == b2.free_lists()[o2][0]
        && b3.free_lists() == after_split(b2.free_lists(), t, o2);
    if o2 < o {
        assert(l[o2].len() == 0);
    } else if o < o2 {
        assert(l[o].len() == 0);
    }
}

/// Coalescing a free run of order `o` at block `s` into the free lists:
/// while its buddy is on the free list of the same order, the buddy leaves
/// that list and the two become one run of the next order. The result is
/// the free lists left, the start of the merged run, and its order.
pub open spec fn coalesce(lists: Seq<Seq<int>>, s: int, o: int) -> (Seq<Seq<int>>, int, int)
    decreases MAX_ORDER - o,
{
    if o >= MAX_ORDER || o < 0 {
        (lists, s, o)
    } else {
        let b = buddy_of(o, s);
        if 0 <= b < NUM_BLOCKS && lists[o].contains(b) {
            coalesce(lists.update(o, lists[o].remove(lists[o].index_of(b))), if b < s { b } else { s }, o + 1)
        } else {
            (lists, s, o)
        }
    }
}

/// The free lists after returning the run of order `o` at block `s`: the
/// merged run is put at the head of the list of its order.
pub open spec fn after_free(lists: Seq<Seq<int>>, s: int, o: int) -> Seq<Seq<int>> {
    let (l, m, k) = coalesce(lists, s, o);
    l.update(k, seq![m] + l[k])
}

/// What returning the block at `ptr` does to the heap: the block leaves the
/// live blocks, the free lists become `after_free` of it, and its pages lie
/// inside a free run.
pub open spec fn free_result(old: BuddyAllocator, new: BuddyAllocator, ptr: u64) -> bool {
    let i = (ptr - HEAP_START) / PAGESIZE as int;
    &&& old.live().contains_key(i)
    &&& new.live() == old.live().remove(i)
    &&& new.free_lists() == after_free(old.free_lists(), i, old.live()[i])
    &&& exists|s: int, o: int| #[trigger] is_chunk(new.free_lists(), Map::empty(), s, o)
        && s <= i && i + span(old.live()[i]) <= s + span(o)
}

/// The free lists of an empty heap: one block, the whole heap, at the
/// largest order.
pub open spec fn initial_free_lists() -> Seq<Seq<int>> {
    Seq::new(NUM_ORDERS as nat, |o: int| if o == MAX_ORDER { seq![0int] } else { Seq::<int>::empty() })
}

/// The free lists once block 0 was split down to order `k`: the right half
/// cut off at each order from `k` up, and nothing else.
pub open spec fn split_lists(k: int) -> Seq<Seq<int>> {
    Seq::new(NUM_ORDERS as nat, |p: int| if k <= p < MAX_ORDER { seq![span(p)] } else { Seq::<int>::empty() })
}

proof fn lemma_coalesce_chain(k: int)
    requires
        0 <= k <= MAX_ORDER,
    ensures
        coalesce(split_lists(k), 0, k) == (split_lists(MAX_ORDER as int), 0int, MAX_ORDER as int),
    decreases MAX_ORDER - k,
{
    if k < MAX_ORDER {
        lemma_span_step(k);
        let l = split_lists(k);
        let b = buddy_of(k, 0);
        assert(b == span(k));
        lemma_span_values();
        assert(l[k][0] == b);
        assert(l[k].contains(b));
        assert(l[k].index_of(b) == 0);
        assert(l.update(k, l[k].remove(0)) =~~= split_lists(k + 1));
        lemma_coalesce_chain(k + 1);
    }
}

/// On an empty heap, handing out one page and returning it leaves the heap
/// as it was: one free block spanning the whole heap, at the largest order.
pub proof fn lemma_page_round_trip(b0: BuddyAllocator, b1: BuddyAllocator, b2: BuddyAllocator, r: u64)
    requires
        b0.free_lists() == initial_free_lists(),
        b0.live() == Map::<int, int>::empty(),
        alloc_result(b0, b1, PAGESIZE as int, r),
        free_result(b1, b2, r),
    ensures
        r == HEAP_START,
        b2.free_lists() == initial_free_lists(),
        b2.live() == Map::<int, int>::empty(),
{
    lemma_order_for_region();
    lemma_span_values();
    let l0 = initial_free_lists();
    assert(first_nonempty(l0, 0, MAX_ORDER as int));
    assert(r != 0);
    let i = choose|i: int| #[trigger] block_addr(i) == r && !b0.live().contains_key(i)
        && b1.live() == b0.live().insert(i, order_for(PAGESIZE as int))
        && exists|o: int| #[trigger] first_nonempty(b0.free_lists(), order_for(PAGESIZE as int), o)
            && i == b0.free_lists()[o][0]
            && b1.free_lists() == after_split(b0.free_lists(), order_for(PAGESIZE as int), o);
    let o = choose|o: int| #[trigger] first_nonempty(b0.free_lists(), 0, o) && i == b0.free_lists()[o][0]
        && b1.free_lists() == after_split(b0.free_lists(), 0, o);
    assert(o == MAX_ORDER);
    assert(i == 0);
    assert(b1.free_lists() =~~= split_lists(0));
    assert((r - HEAP_START) / PAGESIZE as int == 0);
    lemma_coalesce_chain(0);
    assert(b2.free_lists() =~~= l0);
    assert(b2.live() =~~= Map::<int, int>::empty());
}

/// On an empty heap, two pages handed out one after the other are blocks 0
/// and 1, and returning both, in either order, leaves one free block
/// spanning the whole heap.
pub proof fn lemma_two_pages_round_trip(
    b0: BuddyAllocator,
    b1: BuddyAllocator,
    b2: BuddyAllocator,
    b3: BuddyAllocator,
    b4: BuddyAllocator,
    r1: u64,
    r2: u64,
    first: u64,
    second: u64,
)
    requires
        b0.free_lists() == initial_free_lists(),
        b0.live() == Map::<int, int>::empty(),
        alloc_result(b0, b1, PAGESIZE as int, r1),
        alloc_result(b1, b2, PAGESIZE as int, r2),
        (first == r1 && second == r2) || (first == r2 && second == r1),
        free_result(b2, b3, first),
        free_result(b3, b4, second),
    ensures
        r1 == HEAP_START,
        r2 == HEAP_START + PAGESIZE,
        b4.free_lists() == initial_free_lists(),
        b4.live() == Map::<int, int>::empty(),
{
    lemma_order_for_region();
    lemma_span_values();
    let l0 = initial_free_lists();
    assert(first_nonempty(l0, 0, MAX_ORDER as int));
    assert(r1 != 0);
    let i = choose|i: int| #[trigger] block_addr(i) == r1 && !b0.live().contains_key(i)
        && b1.live() == b0.live().insert(i, order_for(PAGESIZE as int))
        && exists|o: int| #[trigger] first_nonempty(b0.free_lists(), order_for(PAGESIZE as int), o)
            && i == b0.free_lists()[o][0]
            && b1.free_lists() == after_split(b0.free_lists(), order_for(PAGESIZE as int), o);
    let o = choose|o: int| #[trigger] first_nonempty(b0.free_lists(), 0, o) && i == b0.free_lists()[o][0]
        && b1.free_lists() == after_split(b0.free_lists(), 0, o);
    assert(o == MAX_ORDER);
    assert(i == 0);
    let l1 = split_lists(0);
    assert(b1.free_lists() =~~= l1);
    assert(first_nonempty(l1, 0, 0));
    assert(r2 != 0);
    let j = choose|j: int| #[trigger] block_addr(j) == r2 && !b1.live().contains_key(j)
        && b2.live() == b1.live().insert(j, order_for(PAGESIZE as int))
        && exists|o: int| #[trigger] first_nonempty(b1.free_lists(), order_for(PAGESIZE as int), o)
            && j == b1.free_lists()[o][0]
            && b2.free_lists() == after_split(b1.free_lists(), order_for(PAGESIZE as int), o);
    let o2 = choose|o: int| #[trigger] first_nonempty(b1.free_lists(), 0, o) && j == b1.free_lists()[o][0]
        && b2.free_lists() == after_split(b1.free_lists(), 0, o);
    assert(o2 == 0);
    assert(j == 1);
    let l2 = split_lists(1);
    assert(b2.free_lists() =~~= l2);
    assert((r1 - HEAP_START) / PAGESIZE as int == 0);
    assert((r2 - HEAP_START) / PAGESIZE as int == 1);
    lemma_coalesce_chain(1);
    if first == r1 {
        assert(buddy_of(0, 0) == 1);
        assert(!l2[0].contains(1));
        let l3 = l2.update(0, seq![0int] + l2[0]);
        assert(b3.free_lists() =~~= l3);
        assert(buddy_of(0, 1) == 0);
        assert(l3[0].contains(0));
        assert(l3[0].index_of(0) == 0);
        assert(l3.update(0, l3[0].remove(0)) =~~= l2);
    } else {
        assert(buddy_of(0, 1) == 0);
        assert(!l2[0].contains(0));
        let l3 = l2.update(0, seq![1int] + l2[0]);
        assert(b3.free_lists() =~~= l3);
        assert(buddy_of(0, 0) == 1);
        assert(l3[0].contains(1));
        assert(l3[0].index_of(1) == 0);
        assert(l3.update(0, l3[0].remove(0)) =~~= l2);
    }
    assert(b4.free_lists() =~~= l0);
    assert(b4.live() =~~= Map::<int, int>::empty());
}

/// The buddy allocator: one record per block, the head of each order's
/// free list, and, as ghost state, the free lists and the live blocks with
/// their orders.
pub struct BuddyAllocator {
    blocks: Vec<Block>,
    heads: Vec<u16>,
    lists: Ghost<Seq<Seq<int>>>,
    live: Ghost<Map<int, int>>,
}

impl BuddyAllocator {
    /// The free lists, one per order, head first.
    pub closed spec fn free_lists(self) -> Seq<Seq<int>> {
        self.lists@
    }

    /// The blocks handed out and not yet returned, each with its order.
    pub closed spec fn live(self) -> Map<int, int> {
        self.live@
    }

    /// The free flag recorded for block `i`.
    pub closed spec fn is_free(self, i: int) -> bool {
        self.blocks@[i].free
    }

    /// The order recorded for block `i`.
    pub closed spec fn order_of(self, i: int) -> int {
        self.blocks@[i].order as int
    }

    /// Entry `j` of the free list of order `o` is valid: the block is free,
    /// has the list's order, lies inside the heap with all its pages, and is
    /// linked to its neighbours.
    closed spec fn entry_ok(self, o: int, j: int) -> bool {
        let l = self.lists@[o];
        let b = l[j];
        &&& 0 <= b < NUM_BLOCKS
        &&& b + span(o) <= NUM_BLOCKS
        &&& b % span(o) == 0
        &&& self.blocks@[b].free
        &&& self.blocks@[b].order == o
        &&& self.blocks@[b].next as int == next_in(l, j)
        &&& self.blocks@[b].previous as int == prev_in(l, j)
    }

    /// The records and heads agree with the free lists, a block is free
    /// exactly when it is on the list of its order, live blocks are used and
    /// record their order, and no two runs share a page.
    pub closed spec fn wf(self) -> bool {
        &&& self.blocks@.len() == NUM_BLOCKS
        &&& self.heads@.len() == NUM_ORDERS
        &&& self.lists@.len() == NUM_ORDERS
        &&& forall|o: int| 0 <= o < NUM_ORDERS ==> self.heads@[o] as int == head_in(#[trigger] self.lists@[o])
        &&& forall|o: int, j: int| 0 <= o < NUM_ORDERS && 0 <= j < self.lists@[o].len() ==> #[trigger] self.entry_ok(o, j)
        &&& forall|o: int, j: int, k: int| 0 <= o < NUM_ORDERS && 0 <= j < k < self.lists@[o].len()
            ==> #[trigger] self.lists@[o][j] != #[trigger] self.lists@[o][k]
        &&& forall|i: int| 0 <= i < NUM_BLOCKS && #[trigger] self.blocks@[i].free
            ==> self.blocks@[i].order < NUM_ORDERS && self.lists@[self.blocks@[i].order as int].contains(i)
        &&& forall|s: int| #[trigger] self.live@.contains_key(s) ==> {
            &&& 0 <= s < NUM_BLOCKS
            &&& 0 <= self.live@[s] <= MAX_ORDER
            &&& s + span(self.live@[s]) <= NUM_BLOCKS
            &&& s % span(self.live@[s]) == 0
            &&& !self.blocks@[s].free
            &&& self.blocks@[s].order == self.live@[s]
        }
        &&& chunks_disjoint(self.lists@, self.live@)
        &&& coalesced(self.lists@)
    }

    /// A heap whose only free block is the whole heap, at the largest order.
    pub fn new() -> (r: Self)
        ensures
            r.wf(),
            r.live() == Map::<int, int>::empty(),
            r.free_lists() == Seq::new(NUM_ORDERS as nat, |o: int| if o == MAX_ORDER { seq![0int] } else { Seq::<int>::empty() }),
    {
        let mut blocks: Vec<Block> = Vec::new();
        let mut i: u16 = 0;
        while i < NUM_BLOCKS
            invariant
                i <= NUM_BLOCKS,
                blocks@.len() == i,
                forall|k: int| 0 <= k < i ==> #[trigger] blocks@[k].free == (k == 0),
                i > 0 ==> blocks@[0].order == MAX_ORDER && blocks@[0].next == NO_BLOCK && blocks@[0].previous == NO_BLOCK,
            decreases NUM_BLOCKS - i,
        {
            if i == 0 {
                blocks.push(Block { previous: NO_BLOCK, next: NO_BLOCK, order: MAX_ORDER, free: true });
            } else {
                blocks.push(Block { previous: NO_BLOCK, next: NO_BLOCK, order: 0, free: false });
            }
            i = i + 1;
        }
        let mut heads: Vec<u16> = Vec::new();
        let mut o: u16 = 0;
        while o < NUM_ORDERS
            invariant
                o <= NUM_ORDERS,
                heads@.len() == o,
                forall|k: int| 0 <= k < o ==> #[trigger] heads@[k] == if k == MAX_ORDER { 0u16 } else { NO_BLOCK },
            decreases NUM_ORDERS - o,
        {
            if o == MAX_ORDER {
                heads.push(0);
            } else {
                heads.push(NO_BLOCK);
            }
            o = o + 1;
        }
        let ghost lists = Seq::new(NUM_ORDERS as nat, |o: int| if o == MAX_ORDER { seq![0int] } else { Seq::<int>::empty() });
        let r = BuddyAllocator { blocks, heads, lists: Ghost(lists), live: Ghost(Map::empty()) };
        proof {
            lemma_span_values();
            assert forall|s: int, o: int| #[trigger] is_chunk(lists, Map::empty(), s, o) implies s == 0 && o == MAX_ORDER by {
                if o != MAX_ORDER {
                    assert(lists[o] =~= Seq::<int>::empty());
                }
            }
            assert forall|i: int| 0 <= i < NUM_BLOCKS && #[trigger] r.blocks@[i].free implies
                r.blocks@[i].order < NUM_ORDERS && r.lists@[r.blocks@[i].order as int].contains(i) by {
                assert(r.lists@[MAX_ORDER as int][0] == 0);
            }
        }
        r
    }

    /// Takes the head of the free list of `order` off the list and marks it used.
    fn pop_head(&mut self, order: u16) -> (r: Option<u16>)
        requires
            old(self).wf(),
            order < NUM_ORDERS,
        ensures
            final(self).wf(),
            final(self).live() == old(self).live(),
            old(self).free_lists()[order as int].len() == 0 ==> r is None && *final(self) == *old(self),
            old(self).free_lists()[order as int].len() > 0 ==> {
                let l = old(self).free_lists()[order as int];
                &&& r == Some(l[0] as u16)
                &&& final(self).free_lists() == old(self).free_lists().update(order as int, l.drop_first())
                &&& l[0] + span(order as int) <= NUM_BLOCKS
                &&& unclaimed(final(self).free_lists(), final(self).live(), l[0], order as int)
            },
    {
        let head_index = self.heads[order as usize];
        if head_index == NO_BLOCK {
            proof {
                if self.lists@[order as int].len() > 0 {
                    assert(self.entry_ok(order as int, 0));
                }
            }
            return None;
        }
        let ghost l = self.lists@[order as int];
        let ghost old_self = *self;
        assert(self.entry_ok(order as int, 0));
        let mut head = self.blocks[head_index as usize];
        head.free = false;
        self.blocks.set(head_index as usize, head);
        let next = head.next;
        if next != NO_BLOCK {
            assert(l.len() > 1);
            assert(old_self.entry_ok(order as int, 1));
            assert(l[1] != l[0]);
            let mut n = self.blocks[next as usize];
            n.previous = NO_BLOCK;
            self.blocks.set(next as usize, n);
        }
        self.heads.set(order as usize, next);
        let ghost nl = l.drop_first();
        self.lists = Ghost(self.lists@.update(order as int, nl));
        proof {
            let lists = self.lists@;
            let ol = old_self.lists@;
            assert forall|o: int, j: int| 0 <= o < NUM_ORDERS && 0 <= j < lists[o].len() implies #[trigger] self.entry_ok(o, j) by {
                if o == order {
                    assert(old_self.entry_ok(o, j + 1));
                    assert(l[j + 1] != l[0]);
                } else {
                    assert(old_self.entry_ok(o, j));
                }
            }
            assert forall|o: int| 0 <= o < NUM_ORDERS implies self.heads@[o] as int == head_in(#[trigger] lists[o]) by {
                if o == order && nl.len() > 0 {
                    assert(old_self.entry_ok(o, 0));
                }
            }
            assert forall|i: int| 0 <= i < NUM_BLOCKS && #[trigger] self.blocks@[i].free implies
                self.blocks@[i].order < NUM_ORDERS && lists[self.blocks@[i].order as int].contains(i) by {
                let o = self.blocks@[i].order as int;
                assert(old_self.blocks@[i].free);
                if o == order {
                    let k = choose|k: int| 0 <= k < l.len() && l[k] == i;
                    assert(k != 0);
                    assert(nl[k - 1] == i);
                }
            }
            assert forall|s: int, o: int| #[trigger] is_chunk(lists, self.live@, s, o) implies
                is_chunk(ol, self.live@, s, o) && (s != l[0] || o != order) by {
                if 0 <= o < lists.len() && lists[o].contains(s) {
                    let k = choose|k: int| 0 <= k < lists[o].len() && lists[o][k] == s;
                    if o == order {
                        assert(l[k + 1] == s);
                        assert(l[k + 1] != l[0]);
                    } else {
                        assert(ol[o][k] == s);
                    }
                }
            }
            assert(is_chunk(ol, self.live@, l[0], order as int));
            assert forall|o: int, s: int| 0 <= o < MAX_ORDER && #[trigger] lists[o].contains(s) implies ol[o].contains(s) by {
                let k = choose|k: int| 0 <= k < lists[o].len() && lists[o][k] == s;
                if o == order {
                    assert(l[k + 1] == s);
                } else {
                    assert(ol[o][k] == s);
                }
            }
            lemma_coalesced_subset(ol, lists);
        }
        Some(head_index)
    }

    /// Puts block `block_index` at the head of the free list of `order`.
    fn push_block(&mut self, order: u16, block_index: u16)
        requires
            old(self).wf(),
            order < NUM_ORDERS,
            block_index < NUM_BLOCKS,
            block_index as int + span(order as int) <= NUM_BLOCKS,
            block_index as int % span(order as int) == 0,
            order < MAX_ORDER ==> !old(self).free_lists()[order as int].contains(buddy_of(order as int, block_index as int)),
            unclaimed(old(self).free_lists(), old(self).live(), block_index as int, order as int),
        ensures
            final(self).wf(),
            final(self).live() == old(self).live(),
            final(self).free_lists() == old(self).free_lists().update(
                order as int,
                seq![block_index as int] + old(self).free_lists()[order as int],
            ),
            forall|i: int| 0 <= i < NUM_BLOCKS && i != block_index ==> final(self).is_free(i) == old(self).is_free(i),
    {
        let ghost old_self = *self;
        let ghost b = block_index as int;
        let ghost l = self.lists@[order as int];
        proof {
            lemma_span_step(order as int);
            if self.blocks@[b].free {
                let o2 = self.blocks@[b].order as int;
                lemma_span_step(o2);
                assert(is_chunk(self.lists@, self.live@, b, o2));
            }
            if self.live@.contains_key(b) {
                lemma_span_step(self.live@[b]);
                assert(is_chunk(self.lists@, self.live@, b, self.live@[b]));
            }
        }
        let head_index = self.heads[order as usize];
        if head_index != NO_BLOCK {
            assert(self.entry_ok(order as int, 0));
            let mut h = self.blocks[head_index as usize];
            h.previous = block_index;
            self.blocks.set(head_index as usize, h);
        }
        self.heads.set(order as usize, block_index);
        self.blocks.set(block_index as usize, Block { previous: NO_BLOCK, next: head_index, order, free: true });
        let ghost nl = seq![b] + l;
        self.lists = Ghost(self.lists@.update(order as int, nl));
        proof {
            let lists = self.lists@;
            let ol = old_self.lists@;
            assert forall|o: int, j: int| 0 <= o < NUM_ORDERS && 0 <= j < lists[o].len() implies #[trigger] self.entry_ok(o, j) by {
                if o == order {
                    if j > 0 {
                        assert(old_self.entry_ok(o, j - 1));
                        assert(nl[j] == l[j - 1]);
                    } else if l.len() > 0 {
                        assert(old_self.entry_ok(o, 0));
                    }
                } else {
                    assert(old_self.entry_ok(o, j));
                    if l.len() > 0 {
                        assert(old_self.entry_ok(order as int, 0));
                    }
                }
            }
            assert forall|o: int, j: int, k: int| 0 <= o < NUM_ORDERS && 0 <= j < k < lists[o].len()
                implies #[trigger] lists[o][j] != #[trigger] lists[o][k] by {
                if o == order {
                    if j == 0 {
                        assert(old_self.entry_ok(o, k - 1));
                    } else {
                        assert(nl[j] == l[j - 1] && nl[k] == l[k - 1]);
                    }
                }
            }
            assert forall|i: int| 0 <= i < NUM_BLOCKS && #[trigger] self.blocks@[i].free implies
                self.blocks@[i].order < NUM_ORDERS && lists[self.blocks@[i].order as int].contains(i) by {
                if i == b {
                    assert(nl[0] == b);
                } else {
                    assert(old_self.blocks@[i].free);
                    let o = self.blocks@[i].order as int;
                    if o == order {
                        let k = choose|k: int| 0 <= k < l.len() && l[k] == i;
                        assert(nl[k + 1] == i);
                    }
                }
            }
            assert forall|s: int| #[trigger] self.live@.contains_key(s) implies {
                &&& 0 <= s < NUM_BLOCKS
                &&& 0 <= self.live@[s] <= MAX_ORDER
                &&& s + span(self.live@[s]) <= NUM_BLOCKS
                &&& !self.blocks@[s].free
                &&& self.blocks@[s].order == self.live@[s]
            } by {
                if s != b && head_index != NO_BLOCK && s == head_index as int {
                    assert(old_self.entry_ok(order as int, 0));
                }
            }
            assert forall|s: int, o: int| #[trigger] is_chunk(lists, self.live@, s, o) implies
                is_chunk(ol, self.live@, s, o) || (s == b && o == order) by {
                if 0 <= o < lists.len() && lists[o].contains(s) && !(s == b && o == order) {
                    let k = choose|k: int| 0 <= k < lists[o].len() && lists[o][k] == s;
                    if o == order {
                        assert(l[k - 1] == s);
                    } else {
                        assert(ol[o][k] == s);
                    }
                }
            }
            assert forall|o: int, s: int| 0 <= o < MAX_ORDER && #[trigger] lists[o].contains(s) implies !lists[o].contains(
                buddy_of(o, s),
            ) by {
                let k = choose|k: int| 0 <= k < lists[o].len() && lists[o][k] == s;
                if o == order && s == b {
                    lemma_span_pos(o);
                    if lists[o].contains(buddy_of(o, s)) {
                        let m = choose|m: int| 0 <= m < lists[o].len() && lists[o][m] == buddy_of(o, s);
                        assert(l[m - 1] == buddy_of(o, s));
                    }
                } else {
                    if o == order {
                        assert(l[k - 1] == s);
                        assert(old_self.entry_ok(o, k - 1));
                    } else {
                        assert(ol[o][k] == s);
                        assert(old_self.entry_ok(o, k));
                    }
                    assert(ol[o].contains(s));
                    lemma_align_merge(s, o);
                    if lists[o].contains(buddy_of(o, s)) {
                        let m = choose|m: int| 0 <= m < lists[o].len() && lists[o][m] == buddy_of(o, s);
                        if o == order && m == 0 {
                            assert(buddy_of(o, s) == b);
                            assert(buddy_of(o, b) == s);
                        } else if o == order {
                            assert(l[m - 1] == buddy_of(o, s));
                        } else {
                            assert(ol[o][m] == buddy_of(o, s));
                        }
                    }
                }
            }
        }
    }

    /// Takes block `block_index` out of the free list of `order`, wherever
    /// it stands in it, and marks it used.
    fn remove_block(&mut self, order: u16, block_index: u16)
        requires
            old(self).wf(),
            order < NUM_ORDERS,
            old(self).free_lists()[order as int].contains(block_index as int),
        ensures
            final(self).wf(),
            final(self).live() == old(self).live(),
            final(self).free_lists() == old(self).free_lists().update(
                order as int,
                old(self).free_lists()[order as int].remove(
                    old(self).free_lists()[order as int].index_of(block_index as int),
                ),
            ),
            block_index as int + span(order as int) <= NUM_BLOCKS,
            unclaimed(final(self).free_lists(), final(self).live(), block_index as int, order as int),
            forall|i: int| 0 <= i < NUM_BLOCKS && i != block_index ==> final(self).is_free(i) == old(self).is_free(i),
            !final(self).is_free(block_index as int),
    {
        let ghost old_self = *self;
        let ghost b = block_index as int;
        let ghost l = self.lists@[order as int];
        let ghost k = l.index_of(b);
        assert(self.entry_ok(order as int, k));
        let mut blk = self.blocks[block_index as usize];
        blk.free = false;
        self.blocks.set(block_index as usize, blk);
        let prev_index = blk.previous;
        let next_index = blk.next;
        proof {
            if k > 0 {
                assert(old_self.entry_ok(order as int, k - 1));
            }
        }
        if prev_index != NO_BLOCK {
            assert(old_self.entry_ok(order as int, k - 1));
            assert(l[k - 1] != l[k]);
            let mut p = self.blocks[prev_index as usize];
            p.next = next_index;
            self.blocks.set(prev_index as usize, p);
        } else {
            self.heads.set(order as usize, next_index);
        }
        if next_index != NO_BLOCK {
            assert(old_self.entry_ok(order as int, k + 1));
            assert(l[k + 1] != l[k]);
            assert(k > 0 ==> l[k + 1] != l[k - 1]);
            let mut n = self.blocks[next_index as usize];
            n.previous = prev_index;
            self.blocks.set(next_index as usize, n);
        }
        let ghost nl = l.remove(k);
        self.lists = Ghost(self.lists@.update(order as int, nl));
        proof {
            let lists = self.lists@;
            let ol = old_self.lists@;
            l.remove_ensures(k);
            assert forall|o: int, j: int| 0 <= o < NUM_ORDERS && 0 <= j < lists[o].len() implies #[trigger] self.entry_ok(o, j) by {
                if o == order {
                    if j < k {
                        assert(old_self.entry_ok(o, j));
                        assert(l[j] != l[k]);
                        assert(k + 1 < l.len() ==> l[j] != l[k + 1]);
                    } else {
                        assert(old_self.entry_ok(o, j + 1));
                        assert(l[j + 1] != l[k]);
                        assert(k > 0 ==> l[j + 1] != l[k - 1]);
                    }
                } else {
                    assert(old_self.entry_ok(o, j));
                }
            }
            assert forall|o: int| 0 <= o < NUM_ORDERS implies self.heads@[o] as int == head_in(#[trigger] lists[o]) by {
                if o == order && k == 0 && nl.len() > 0 {
                    assert(nl[0] == l[1]);
                } else if o == order && k > 0 {
                    assert(nl[0] == l[0]);
                }
            }
            assert forall|o: int, j: int, m: int| 0 <= o < NUM_ORDERS && 0 <= j < m < lists[o].len()
                implies #[trigger] lists[o][j] != #[trigger] lists[o][m] by {
                if o == order {
                    let jj = if j < k { j } else { j + 1 };
                    let mm = if m < k { m } else { m + 1 };
                    assert(nl[j] == l[jj] && nl[m] == l[mm]);
                }
            }
            assert forall|i: int| 0 <= i < NUM_BLOCKS && #[trigger] self.blocks@[i].free implies
                self.blocks@[i].order < NUM_ORDERS && lists[self.blocks@[i].order as int].contains(i) by {
                assert(old_self.blocks@[i].free);
                let o = self.blocks@[i].order as int;
                if o == order {
                    let m = choose|m: int| 0 <= m < l.len() && l[m] == i;
                    assert(m != k);
                    if m < k {
                        assert(nl[m] == i);
                    } else {
                        assert(nl[m - 1] == i);
                    }
                }
            }
            assert forall|s: int, o: int| #[trigger] is_chunk(lists, self.live@, s, o) implies
                is_chunk(ol, self.live@, s, o) && (s != b || o != order) by {
                if 0 <= o < lists.len() && lists[o].contains(s) {
                    let m = choose|m: int| 0 <= m < lists[o].len() && lists[o][m] == s;
                    if o == order {
                        if m < k {
                            assert(l[m] == s && l[m] != l[k]);
                        } else {
                            assert(l[m + 1] == s && l[m + 1] != l[k]);
                        }
                    } else {
                        assert(ol[o][m] == s);
                    }
                }
            }
            assert(is_chunk(ol, self.live@, b, order as int));
            assert forall|o: int, s: int| 0 <= o < MAX_ORDER && #[trigger] lists[o].contains(s) implies ol[o].contains(s) by {
                let m = choose|m: int| 0 <= m < lists[o].len() && lists[o][m] == s;
                if o == order {
                    if m < k {
                        assert(l[m] == s);
                    } else {
                        assert(l[m + 1] == s);
                    }
                } else {
                    assert(ol[o][m] == s);
                }
            }
            lemma_coalesced_subset(ol, lists);
        }
    }

    /// Records block `block_index` as handed out with order `order`.
    fn mark_live(&mut self, block_index: u16, order: u16)
        requires
            old(self).wf(),
            order <= MAX_ORDER,
            block_index < NUM_BLOCKS,
            block_index as int + span(order as int) <= NUM_BLOCKS,
            block_index as int % span(order as int) == 0,
            unclaimed(old(self).free_lists(), old(self).live(), block_index as int, order as int),
        ensures
            final(self).wf(),
            final(self).free_lists() == old(self).free_lists(),
            final(self).live() == old(self).live().insert(block_index as int, order as int),
            final(self).order_of(block_index as int) == order,
    {
        let ghost old_self = *self;
        let ghost b = block_index as int;
        proof {
            lemma_span_step(order as int);
            if self.blocks@[b].free {
                let o2 = self.blocks@[b].order as int;
                lemma_span_step(o2);
                assert(is_chunk(self.lists@, self.live@, b, o2));
            }
            if self.live@.contains_key(b) {
                lemma_span_step(self.live@[b]);
                assert(is_chunk(self.lists@, self.live@, b, self.live@[b]));
            }
        }
        let mut blk = self.blocks[block_index as usize];
        blk.order = order;
        self.blocks.set(block_index as usize, blk);
        self.live = Ghost(self.live@.insert(b, order as int));
        proof {
            let lists = self.lists@;
            assert forall|o: int, j: int| 0 <= o < NUM_ORDERS && 0 <= j < lists[o].len() implies #[trigger] self.entry_ok(o, j) by {
                assert(old_self.entry_ok(o, j));
            }
            assert forall|s: int, o: int| #[trigger] is_chunk(lists, self.live@, s, o) implies
                is_chunk(lists, old_self.live@, s, o) || (s == b && o == order) by {
            }
        }
    }

    /// Hands out a block of order `target`: the head of the lowest non-empty
    /// free list at or above `target`, split down to `target` if it is larger,
    /// with the unused right halves put on the free lists.
    pub fn alloc_order(&mut self, target: u16) -> (r: Option<u16>)
        requires
            old(self).wf(),
            target <= MAX_ORDER,
        ensures
            final(self).wf(),
            r is None <==> (forall|o: int| target <= o <= MAX_ORDER ==> old(self).free_lists()[o].len() == 0),
            r is None ==> final(self).free_lists() == old(self).free_lists() && final(self).live() == old(self).live(),
            r matches Some(i) ==> {
                &&& final(self).live() == old(self).live().insert(i as int, target as int)
                &&& !old(self).live().contains_key(i as int)
                &&& exists|o: int| #[trigger] first_nonempty(old(self).free_lists(), target as int, o)
                    && i as int == old(self).free_lists()[o][0]
                    && final(self).free_lists() == after_split(old(self).free_lists(), target as int, o)
            },
    {
        let ghost old_self = *self;
        let mut order = target;
        while order <= MAX_ORDER
            invariant
                target <= order <= MAX_ORDER + 1,
                *self == old_self,
                old_self == *old(self),
                self.wf(),
                forall|o: int| target <= o < order ==> self.free_lists()[o].len() == 0,
            decreases MAX_ORDER + 1 - order,
        {
            match self.pop_head(order) {
                None => {
                    order = order + 1;
                },
                Some(i) => {
                    let ghost ol = old_self.lists@;
                    let ghost popped = ol[order as int].drop_first();
                    proof {
                        assert(ol[order as int].len() > 0);
                        lemma_span_step(order as int);
                        assert(old_self.entry_ok(order as int, 0));
                        assert(!old_self.live@.contains_key(i as int)) by {
                            assert(old_self.entry_ok(order as int, 0));
                        }
                        assert(self.lists@ =~= after_split(ol, order as int, order as int));
                    }
                    let mut cur = order;
                    while cur > target
                        invariant
                            target <= cur <= order <= MAX_ORDER,
                            self.wf(),
                            self.live@ == old_self.live@,
                            (i as int) < NUM_BLOCKS,
                            i as int + span(cur as int) <= NUM_BLOCKS,
                            unclaimed(self.lists@, self.live@, i as int, cur as int),
                            i as int == ol[order as int][0],
                            i as int % span(cur as int) == 0,
                            self.lists@ == after_split(ol, cur as int, order as int),
                            forall|p: int| target <= p < order ==> ol[p].len() == 0,
                            ol[order as int].len() > 0,
                            !old_self.live@.contains_key(i as int),
                            old_self == *old(self),
                        decreases cur,
                    {
                        let (_, right) = Block::split(cur, i);
                        let ghost before = self.lists@;
                        let ghost c = cur as int;
                        proof {
                            lemma_span_step(c - 1);
                            lemma_align_split(i as int, c - 1);
                            assert forall|s2: int, o2: int| #[trigger] is_chunk(before, self.live@, s2, o2) implies
                                disjoint(right as int, span(c - 1), s2, span(o2)) by {
                                assert(disjoint(i as int, span(c), s2, span(o2)));
                            }
                        }
                        self.push_block(cur - 1, right);
                        proof {
                            assert forall|s2: int, o2: int| #[trigger] is_chunk(self.lists@, self.live@, s2, o2) implies
                                disjoint(i as int, span(c - 1), s2, span(o2)) by {
                                if !(s2 == right && o2 == c - 1) {
                                    if 0 <= o2 < self.lists@.len() && self.lists@[o2].contains(s2) {
                                        let m = choose|m: int| 0 <= m < self.lists@[o2].len() && self.lists@[o2][m] == s2;
                                        if o2 == c - 1 {
                                            assert(before[o2][m - 1] == s2);
                                        } else {
                                            assert(before[o2][m] == s2);
                                        }
                                    }
                                    assert(is_chunk(before, self.live@, s2, o2));
                                    assert(disjoint(i as int, span(c), s2, span(o2)));
                                }
                            }
                            assert(before[c - 1] =~= Seq::<int>::empty());
                            assert(self.lists@[c - 1] =~= seq![ol[order as int][0] + span(c - 1)]);
                            assert(self.lists@ =~= after_split(ol, c - 1, order as int));
                        }
                        cur = cur - 1;
                    }
                    self.mark_live(i, target);
                    proof {
                        assert(old_self.free_lists() == ol);
                        assert(old_self.free_lists()[order as int].len() > 0);
                        assert(first_nonempty(old_self.free_lists(), target as int, order as int));
                    }
                    return Some(i);
                },
            }
        }
        None
    }

    /// Returns the block that starts at `ptr` to the heap, merging it with its
    /// buddy for as long as the buddy is a free block of the same order.
    pub fn deallocate(&mut self, ptr: u64)
        requires
            old(self).wf(),
            exists|i: int| #[trigger] old(self).live().contains_key(i) && ptr == block_addr(i),
        ensures
            final(self).wf(),
            free_result(*old(self), *final(self), ptr),
    {
        let ghost old_self = *self;
        let ghost w = choose|i: int| #[trigger] old_self.live@.contains_key(i) && ptr == block_addr(i);
        assert(self.live@.contains_key(w));
        let idx = Self::get_block_index(ptr);
        assert(idx as int == w);
        let idx = idx as u16;
        let mut order = self.blocks[idx as usize].order;
        let ghost o0 = order as int;
        proof {
            lemma_span_step(o0);
        }
        assert(o0 == old_self.live@[idx as int]);
        self.live = Ghost(self.live@.remove(idx as int));
        proof {
            assert forall|s: int, o: int| #[trigger] is_chunk(self.lists@, self.live@, s, o) implies
                is_chunk(old_self.lists@, old_self.live@, s, o) && disjoint(idx as int, span(o0), s, span(o)) by {
                assert(is_chunk(old_self.lists@, old_self.live@, s, o));
                assert(is_chunk(old_self.lists@, old_self.live@, idx as int, o0));
                if 0 <= o < NUM_ORDERS && self.lists@[o].contains(s) && s == idx as int {
                    let q = choose|q: int| 0 <= q < self.lists@[o].len() && self.lists@[o][q] == s;
                    assert(old_self.entry_ok(o, q));
                }
            }
            assert forall|o: int, j: int| 0 <= o < NUM_ORDERS && 0 <= j < self.lists@[o].len() implies #[trigger] self.entry_ok(o, j) by {
                assert(old_self.entry_ok(o, j));
            }
            assert forall|s1: int, o1: int, s2: int, o2: int|
                #[trigger] is_chunk(self.lists@, self.live@, s1, o1) && #[trigger] is_chunk(self.lists@, self.live@, s2, o2)
                    && (s1 != s2 || o1 != o2) implies disjoint(s1, span(o1), s2, span(o2)) by {
                assert(is_chunk(old_self.lists@, old_self.live@, s1, o1));
                assert(is_chunk(old_self.lists@, old_self.live@, s2, o2));
            }
        }
        let mut start = idx;
        let mut done = false;
        while !done && order < MAX_ORDER
            invariant
                self.wf(),
                self.live@ == old_self.live@.remove(idx as int),
                order <= MAX_ORDER,
                (start as int) < NUM_BLOCKS,
                start as int + span(order as int) <= NUM_BLOCKS,
                unclaimed(self.lists@, self.live@, start as int, order as int),
                start as int % span(order as int) == 0,
                done ==> order == MAX_ORDER || !self.lists@[order as int].contains(buddy_of(order as int, start as int)),
                start <= idx,
                idx as int + span(o0) <= start as int + span(order as int),
                done ==> coalesce(self.lists@, start as int, order as int) == (self.lists@, start as int, order as int),
                coalesce(self.lists@, start as int, order as int) == coalesce(old_self.lists@, idx as int, o0),
            decreases MAX_ORDER - order + if done { 0int } else { 1int },
        {
            let addr = Block::index_to_ptr(start);
            match Block::get_buddy_index(order, addr) {
                None => {
                    proof {
                        assert(addr as int == block_addr(start as int));
                        let bo = buddy_of(order as int, start as int);
                        if self.lists@[order as int].contains(bo) {
                            let j = choose|j: int| 0 <= j < self.lists@[order as int].len() && self.lists@[order as int][j] == bo;
                            assert(self.entry_ok(order as int, j));
                        }
                    }
                    done = true;
                },
                Some(b) => {
                    let bb = self.blocks[b as usize];
                    proof {
                        assert(addr as int == block_addr(start as int));
                        let l = self.lists@[order as int];
                        if l.contains(b as int) {
                            let j = choose|j: int| 0 <= j < l.len() && l[j] == b as int;
                            assert(self.entry_ok(order as int, j));
                        }
                    }
                    if bb.free && bb.order == order {
                        let ghost before = self.lists@;
                        let ghost k = order as int;
                        proof {
                            lemma_span_step(k);
                            let j = before[k].index_of(b as int);
                            assert(self.entry_ok(k, j));
                        }
                        self.remove_block(order, b);
                        let ghost m = if b < start { b as int } else { start as int };
                        proof {
                            lemma_align_merge(start as int, k);
                            assert(addr as int == block_addr(start as int));
                            assert(b as int == start as int + span(k) || b as int == start as int - span(k));
                            assert forall|s2: int, o2: int| #[trigger] is_chunk(self.lists@, self.live@, s2, o2) implies
                                disjoint(m, span(k + 1), s2, span(o2)) by {
                                if 0 <= o2 < self.lists@.len() && self.lists@[o2].contains(s2) {
                                    let q = choose|q: int| 0 <= q < self.lists@[o2].len() && self.lists@[o2][q] == s2;
                                    if o2 == k {
                                        before[k].remove_ensures(before[k].index_of(b as int));
                                        let j = before[k].index_of(b as int);
                                        if q < j {
                                            assert(before[k][q] == s2);
                                        } else {
                                            assert(before[k][q + 1] == s2);
                                        }
                                    } else {
                                        assert(before[o2][q] == s2);
                                    }
                                }
                                assert(is_chunk(before, self.live@, s2, o2));
                                assert(disjoint(start as int, span(k), s2, span(o2)));
                                assert(disjoint(b as int, span(k), s2, span(o2)));
                                lemma_span_step(o2);
                            }
                        }
                        if b < start {
                            start = b;
                        }
                        order = order + 1;
                    } else {
                        done = true;
                    }
                },
            }
        }
        proof {
            if !done {
                assert(order == MAX_ORDER);
            }
        }
        self.push_block(order, start);
        proof {
            let lists = self.lists@;
            lemma_span_step(order as int);
            assert(lists[order as int][0] == start as int);
            assert(is_chunk(lists, Map::empty(), start as int, order as int));
        }
    }

    /// Hands out a block for a request of `size` bytes aligned to `align`:
    /// the address of the first byte of the block, or 0 when no free block
    /// is large enough.
    pub fn allocate(&mut self, size: u64, align: u64) -> (r: u64)
        requires
            old(self).wf(),
        ensures
            final(self).wf(),
            alloc_result(*old(self), *final(self), request_size(size, align), r),
    {
        let n = if size >= align { size } else { align };
        if n > HEAP_SIZE {
            return 0;
        }
        let t = block_order(n);
        match self.alloc_order(t) {
            None => 0,
            Some(i) => {
                assert(self.live().contains_key(i as int));
                let r = Block::index_to_ptr(i);
                proof {
                    let o = choose|o: int| #[trigger] first_nonempty(old(self).free_lists(), t as int, o)
                        && i as int == old(self).free_lists()[o][0]
                        && self.free_lists() == after_split(old(self).free_lists(), t as int, o);
                    assert(block_addr(i as int) == r);
                }
                r
            },
        }
    }

    /// What a well-formed heap guarantees of its free lists and live blocks.
    pub proof fn lemma_wf_facts(&self)
        requires
            self.wf(),
        ensures
            self.free_lists().len() == NUM_ORDERS,
            chunks_disjoint(self.free_lists(), self.live()),
            coalesced(self.free_lists()),
            forall|s: int| #[trigger] self.live().contains_key(s) ==> 0 <= s < NUM_BLOCKS
                && 0 <= self.live()[s] <= MAX_ORDER && s + span(self.live()[s]) <= NUM_BLOCKS
                && s % span(self.live()[s]) == 0,
            forall|o: int, s: int| 0 <= o < NUM_ORDERS && #[trigger] self.free_lists()[o].contains(s)
                ==> 0 <= s < NUM_BLOCKS && s + span(o) <= NUM_BLOCKS && s % span(o) == 0,
    {
        assert forall|o: int, s: int| 0 <= o < NUM_ORDERS && #[trigger] self.free_lists()[o].contains(s)
            implies 0 <= s < NUM_BLOCKS && s + span(o) <= NUM_BLOCKS && s % span(o) == 0 by {
            let j = choose|j: int| 0 <= j < self.lists@[o].len() && self.lists@[o][j] == s;
            assert(self.entry_ok(o, j));
        }
    }

    /// Index of the block that starts at `address`.
    pub fn get_block_index(address: u64) -> (r: usize)
        requires
            HEAP_START <= address < HEAP_END,
        ensures
            r as int == (address - HEAP_START) / PAGESIZE as int,
            r < NUM_BLOCKS,
            (exists|i: int| 0 <= i < NUM_BLOCKS && address == block_addr(i)) ==> address == block_addr(r as int),
    {
        let block_offset = address - HEAP_START;
        assert((exists|i: int| 0 <= i < NUM_BLOCKS && address == block_addr(i)) ==> address == block_addr(
            (block_offset / PAGESIZE) as int,
        )) by (nonlinear_arith)
            requires
                block_offset == address - HEAP_START,
        ;
        (block_offset / PAGESIZE) as usize
    }
}

} // verus!
