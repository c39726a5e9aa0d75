//! The small-object allocator. It owns one 1 MiB region: the first page
//! holds one metadata record for each of the pages that follow, and each of
//! those pages, once given a size class, is carved into slots of that size.

use vstd::prelude::*;
use vstd::std_specs::bits::{u64_trailing_ones, axiom_u64_trailing_ones};

verus! {

/// Number of carved pages, one metadata record each.
pub const ENTRIES_PER_PAGE: u32 = 255;
/// Size of the region that the allocator owns.
pub const ONE_MIB: u64 = 1048576;
/// Size of a page.
pub const SLEB_PAGESIZE: u64 = 4096;
/// Bucket value meaning "no page".
pub const BUCKET_INDEX_NONE: u32 = 0xFFFF_FFFE;
/// Number of 32-byte slots in a tiny page, after its 16-byte bitmap.
pub const TINY_SLOTS: u32 = 127;
/// Bytes at the start of a tiny page that hold its bitmap.
pub const TINY_HEADER: u64 = 16;
/// Number of size classes: 32 bytes and the six medium sizes.
pub const NUM_CLASSES: u32 = 7;

/// What a carved page is used for.
#[derive(Clone, Copy, PartialEq, Eq, Structural, Debug)]
pub enum MetadataType {
    Empty,
    Tiny32,
    Medium64,
    Medium128,
    Medium256,
    Medium512,
    Medium1024,
    Medium2048,
}

/// The size class, 0 to 6, that serves a request of `size` bytes.
pub open spec fn class_of_size(size: int) -> int {
    if size <= 32 { 0 }
    else if size <= 64 { 1 }
    else if size <= 128 { 2 }
    else if size <= 256 { 3 }
    else if size <= 512 { 4 }
    else if size <= 1024 { 5 }
    else { 6 }
}

/// Slot size of class `c`.
pub open spec fn class_size(c: int) -> int {
    if c == 0 { 32 }
    else if c == 1 { 64 }
    else if c == 2 { 128 }
    else if c == 3 { 256 }
    else if c == 4 { 512 }
    else if c == 5 { 1024 }
    else { 2048 }
}

/// Number of slots of class `c` that fit in one page.
pub open spec fn capacity(c: int) -> int {
    if c == 0 { TINY_SLOTS as int }
    else if c == 1 { 64 }
    else if c == 2 { 32 }
    else if c == 3 { 16 }
    else if c == 4 { 8 }
    else if c == 5 { 4 }
    else if c == 6 { 2 }
    else { 0 }
}

/// The page type of class `c`.
pub open spec fn class_type(c: int) -> MetadataType {
    if c == 0 { MetadataType::Tiny32 }
    else if c == 1 { MetadataType::Medium64 }
    else if c == 2 { MetadataType::Medium128 }
    else if c == 3 { MetadataType::Medium256 }
    else if c == 4 { MetadataType::Medium512 }
    else if c == 5 { MetadataType::Medium1024 }
    else { MetadataType::Medium2048 }
}

/// The class of a page type; -1 for an empty page.
pub open spec fn type_class(t: MetadataType) -> int {
    match t {
        MetadataType::Empty => -1,
        MetadataType::Tiny32 => 0,
        MetadataType::Medium64 => 1,
        MetadataType::Medium128 => 2,
        MetadataType::Medium256 => 3,
        MetadataType::Medium512 => 4,
        MetadataType::Medium1024 => 5,
        MetadataType::Medium2048 => 6,
    }
}

/// Offset of slot `s` of class `c` from the start of its page.
pub open spec fn slot_offset(c: int, s: int) -> int {
    if c == 0 { TINY_HEADER + 32 * s } else { s * class_size(c) }
}

/// Address of carved page `i` in the region that starts at `base`.
pub open spec fn page_addr(base: int, i: int) -> int {
    base + (i + 1) * SLEB_PAGESIZE
}

/// Address of slot `s` of class `c` in carved page `i`.
pub open spec fn slot_addr(base: int, i: int, c: int, s: int) -> int {
    page_addr(base, i) + slot_offset(c, s)
}

/// Bit `s` of `w` is set.
#[verifier::opaque]
pub open spec fn bit(w: u64, s: int) -> bool {
    (w >> (s as u64)) & 1u64 == 1u64
}

proof fn lemma_set_bit(w: u64, t: u64)
    requires
        t < 64,
    ensures
        forall|s: int| 0 <= s < 64 ==> #[trigger] bit(w | (1u64 << t), s) == (s == t || bit(w, s)),
{
    reveal(bit);
    assert forall|s: int| 0 <= s < 64 implies #[trigger] bit(w | (1u64 << t), s) == (s == t || bit(w, s)) by {
        let u = s as u64;
        assert(((w | (1u64 << t)) >> u) & 1u64 == 1u64 <==> (u == t || (w >> u) & 1u64 == 1u64)) by (bit_vector)
            requires
                t < 64,
                u < 64,
        ;
    }
}

proof fn lemma_clear_bit(w: u64, t: u64)
    requires
        t < 64,
    ensures
        forall|s: int| 0 <= s < 64 ==> #[trigger] bit(w & !(1u64 << t), s) == (s != t && bit(w, s)),
{
    reveal(bit);
    assert forall|s: int| 0 <= s < 64 implies #[trigger] bit(w & !(1u64 << t), s) == (s != t && bit(w, s)) by {
        let u = s as u64;
        assert(((w & !(1u64 << t)) >> u) & 1u64 == 1u64 <==> (u != t && (w >> u) & 1u64 == 1u64)) by (bit_vector)
            requires
                t < 64,
                u < 64,
        ;
    }
}

/// What `trailing_ones` says, in terms of `bit`.
proof fn lemma_trailing(w: u64)
    ensures
        u64_trailing_ones(w) <= 64,
        u64_trailing_ones(w) < 64 ==> !bit(w, u64_trailing_ones(w) as int),
        forall|q: int| 0 <= q < u64_trailing_ones(w) ==> #[trigger] bit(w, q),
        w == 0xFFFF_FFFF_FFFF_FFFFu64 <==> u64_trailing_ones(w) == 64,
{
    reveal(bit);
    axiom_u64_trailing_ones(w);
    assert forall|q: int| 0 <= q < u64_trailing_ones(w) implies #[trigger] bit(w, q) by {
        let u = q as u64;
        assert((w >> u) & 1u64 == 1u64);
    }
}

proof fn lemma_all_ones(w: u64)
    ensures
        (forall|s: int| 0 <= s < 64 ==> #[trigger] bit(w, s)) <==> w == 0xFFFF_FFFF_FFFF_FFFFu64,
{
    lemma_trailing(w);
    if w != 0xFFFF_FFFF_FFFF_FFFFu64 {
        assert(!bit(w, u64_trailing_ones(w) as int));
    }
}

proof fn lemma_zero_bits()
    ensures
        forall|s: int| 0 <= s < 64 ==> !#[trigger] bit(0u64, s),
{
    reveal(bit);
    assert forall|s: int| 0 <= s < 64 implies !#[trigger] bit(0u64, s) by {
        let u = s as u64;
        assert((0u64 >> u) & 1u64 == 0u64) by (bit_vector);
    }
}

/// A cached hint naming a page that is believed to have a free slot.
#[derive(Clone, Copy)]
pub struct BucketIndex {
    pub index: u32,
}

impl BucketIndex {
    pub fn new(index: u32) -> (r: Self)
        ensures
            r.index == index,
    {
        BucketIndex { index }
    }

    /// Points the bucket at page `index`.
    pub fn set(&mut self, index: u32)
        requires
            index != BUCKET_INDEX_NONE,
        ensures
            final(self).index == index,
    {
        self.index = index;
    }

    /// The page the bucket names, if any.
    pub fn get(&self) -> (r: Option<u32>)
        ensures
            r == if self.index == BUCKET_INDEX_NONE { None } else { Some(self.index) },
    {
        if self.index == BUCKET_INDEX_NONE {
            None
        } else {
            Some(self.index)
        }
    }
}

/// The bitmap of a page of 32-byte slots: bit `s` is set while slot `s` is
/// in use. Only the first `TINY_SLOTS` bits stand for slots.
#[derive(Clone, Copy)]
pub struct TinyMetadataPage {
    pub bitfield: [u64; 2],
}

/// Slot `s` of a tiny page with bitmap words `w0`, `w1` is in use.
pub open spec fn tiny_used(w0: u64, w1: u64, s: int) -> bool {
    if s < 64 { bit(w0, s) } else { bit(w1, s - 64) }
}

impl TinyMetadataPage {
    pub open spec fn used(self, s: int) -> bool {
        tiny_used(self.bitfield[0], self.bitfield[1], s)
    }

    /// A page with every slot free.
    pub fn new() -> (r: Self)
        ensures
            forall|s: int| 0 <= s < TINY_SLOTS ==> !#[trigger] r.used(s),
    {
        proof {
            lemma_zero_bits();
        }
        TinyMetadataPage { bitfield: [0u64, 0u64] }
    }

    /// Takes the lowest free slot and marks it used; `None` when every slot
    /// is in use.
    pub fn find_free_slot(&mut self) -> (r: Option<u32>)
        ensures
            r is None <==> (forall|s: int| 0 <= s < TINY_SLOTS ==> #[trigger] old(self).used(s)),
            r is None ==> *final(self) == *old(self),
            r matches Some(t) ==> {
                &&& t < TINY_SLOTS
                &&& !old(self).used(t as int)
                &&& forall|s: int| 0 <= s < t ==> #[trigger] old(self).used(s)
                &&& forall|s: int| 0 <= s < TINY_SLOTS ==> #[trigger] final(self).used(s) == (s == t || old(self).used(s))
            },
    {
        let w0 = self.bitfield[0];
        let w1 = self.bitfield[1];
        proof {
            lemma_trailing(w0);
            lemma_trailing(w1);
            lemma_all_ones(w0);
        }
        if w0 != 0xFFFF_FFFF_FFFF_FFFFu64 {
            let t = w0.trailing_ones();
            let nw = w0 | (1u64 << (t as u64));
            proof {
                lemma_set_bit(w0, t as u64);
                assert(!bit(w0, t as int));
                assert(!old(self).used(t as int));
            }
            self.bitfield = [nw, w1];
            return Some(t);
        }
        let t = w1.trailing_ones();
        if t < 63 {
            let nw = w1 | (1u64 << (t as u64));
            proof {
                lemma_set_bit(w1, t as u64);
                assert(!bit(w1, t as int));
                assert(!old(self).used(64 + t as int));
                assert forall|s: int| 0 <= s < 64 + t implies #[trigger] old(self).used(s) by {
                    if s >= 64 {
                        assert(bit(w1, s - 64));
                    }
                }
            }
            self.bitfield = [w0, nw];
            return Some(64 + t);
        }
        proof {
            assert forall|s: int| 0 <= s < TINY_SLOTS implies #[trigger] old(self).used(s) by {
                if s >= 64 {
                    assert(bit(w1, s - 64));
                }
            }
        }
        None
    }

    /// Marks slot `s` free.
    pub fn clear_slot(&mut self, s: u32)
        requires
            s < TINY_SLOTS,
        ensures
            forall|q: int| 0 <= q < TINY_SLOTS ==> #[trigger] final(self).used(q) == (q != s && old(self).used(q)),
    {
        let w0 = self.bitfield[0];
        let w1 = self.bitfield[1];
        if s < 64 {
            proof {
                lemma_clear_bit(w0, s as u64);
            }
            self.bitfield = [w0 & !(1u64 << (s as u64)), w1];
        } else {
            proof {
                lemma_clear_bit(w1, (s - 64) as u64);
            }
            self.bitfield = [w0, w1 & !(1u64 << ((s - 64) as u64))];
        }
    }

    /// Every slot is in use.
    pub fn is_full(&self) -> (r: bool)
        ensures
            r == (forall|s: int| 0 <= s < TINY_SLOTS ==> #[trigger] self.used(s)),
    {
        let w0 = self.bitfield[0];
        let w1 = self.bitfield[1];
        proof {
            lemma_all_ones(w0);
            lemma_trailing(w1);
        }
        if w0 != 0xFFFF_FFFF_FFFF_FFFFu64 {
            proof {
                let q = choose|q: int| 0 <= q < 64 && !bit(w0, q);
                assert(!self.used(q));
            }
            return false;
        }
        let t = w1.trailing_ones();
        if t < 63 {
            assert(!self.used(64 + t));
            false
        } else {
            proof {
                assert forall|s: int| 0 <= s < TINY_SLOTS implies #[trigger] self.used(s) by {
                    if s >= 64 {
                        assert(bit(w1, s - 64));
                    }
                }
            }
            true
        }
    }
}

/// A page carved into medium slots; the slots are found by address.
pub struct MetadataPage {}

impl MetadataPage {
    /// Address of slot `slot` of `size` bytes in the page at `page`.
    pub fn take_slot(page: u64, slot: u32, size: u64) -> (r: u64)
        requires
            size <= SLEB_PAGESIZE,
            slot as int * size as int <= SLEB_PAGESIZE,
            page as int + SLEB_PAGESIZE <= u64::MAX,
        ensures
            r as int == page as int + slot as int * size as int,
    {
        let index = (slot as u64) * size;
        page + index
    }
}

/// The bitmap a medium page of class `c` starts with: slot 0 taken, and
/// every bit past the page's capacity set so that it is never handed out.
pub open spec fn initial_bits(c: int) -> u64 {
    if c == 1 { 0x0000_0000_0000_0001u64 }
    else if c == 2 { 0xFFFF_FFFF_0000_0001u64 }
    else if c == 3 { 0xFFFF_FFFF_FFFF_0001u64 }
    else if c == 4 { 0xFFFF_FFFF_FFFF_FF01u64 }
    else if c == 5 { 0xFFFF_FFFF_FFFF_FFF1u64 }
    else { 0xFFFF_FFFF_FFFF_FFFDu64 }
}

proof fn lemma_initial_bits(c: int)
    requires
        1 <= c <= 6,
    ensures
        forall|s: int| 0 <= s < 64 ==> #[trigger] bit(initial_bits(c), s) == (s == 0 || s >= capacity(c)),
{
    reveal(bit);
    assert forall|s: int| 0 <= s < 64 implies #[trigger] bit(initial_bits(c), s) == (s == 0 || s >= capacity(c)) by {
        let u = s as u64;
        if c == 1 {
            assert(((0x0000_0000_0000_0001u64 >> u) & 1u64 == 1u64) == (u == 0)) by (bit_vector) requires u < 64;
        } else if c == 2 {
            assert(((0xFFFF_FFFF_0000_0001u64 >> u) & 1u64 == 1u64) == (u == 0 || u >= 32)) by (bit_vector) requires u < 64;
        } else if c == 3 {
            assert(((0xFFFF_FFFF_FFFF_0001u64 >> u) & 1u64 == 1u64) == (u == 0 || u >= 16)) by (bit_vector) requires u < 64;
        } else if c == 4 {
            assert(((0xFFFF_FFFF_FFFF_FF01u64 >> u) & 1u64 == 1u64) == (u == 0 || u >= 8)) by (bit_vector) requires u < 64;
        } else if c == 5 {
            assert(((0xFFFF_FFFF_FFFF_FFF1u64 >> u) & 1u64 == 1u64) == (u == 0 || u >= 4)) by (bit_vector) requires u < 64;
        } else {
            assert(((0xFFFF_FFFF_FFFF_FFFDu64 >> u) & 1u64 == 1u64) == (u == 0 || u >= 2)) by (bit_vector) requires u < 64;
        }
    }
}

/// The page type of class `c`.
fn class_type_of(c: u32) -> (r: MetadataType)
    requires
        c < NUM_CLASSES,
    ensures
        r == class_type(c as int),
{
    match c {
        0 => MetadataType::Tiny32,
        1 => MetadataType::Medium64,
        2 => MetadataType::Medium128,
        3 => MetadataType::Medium256,
        4 => MetadataType::Medium512,
        5 => MetadataType::Medium1024,
        _ => MetadataType::Medium2048,
    }
}

/// Slot size of class `c`.
fn class_bytes(c: u32) -> (r: u64)
    requires
        c < NUM_CLASSES,
    ensures
        r as int == class_size(c as int),
{
    match c {
        0 => 32,
        1 => 64,
        2 => 128,
        3 => 256,
        4 => 512,
        5 => 1024,
        _ => 2048,
    }
}

/// The bitmap a fresh medium page of class `c` starts with.
fn initial_bits_of(c: u32) -> (r: u64)
    requires
        1 <= c < NUM_CLASSES,
    ensures
        r == initial_bits(c as int),
{
    match c {
        1 => 0x0000_0000_0000_0001u64,
        2 => 0xFFFF_FFFF_0000_0001u64,
        3 => 0xFFFF_FFFF_FFFF_0001u64,
        4 => 0xFFFF_FFFF_FFFF_FF01u64,
        5 => 0xFFFF_FFFF_FFFF_FFF1u64,
        _ => 0xFFFF_FFFF_FFFF_FFFDu64,
    }
}

/// Slot `s` of page `p` was taken for class `c` in going from `old` to
/// `new`: the bucket of `c` now names `p`, no other bucket, type or slot
/// changed (the links are the business of `alloc_post`), and `s` was
/// the lowest free slot of a page of class `c`, or slot 0 of the first empty
/// page, which now has class `c`.
pub open spec fn took(old: SlebMetadataPage, new: SlebMetadataPage, c: int, p: int, s: int) -> bool {
    &&& 0 <= p < ENTRIES_PER_PAGE
    &&& 0 <= s < capacity(c)
    &&& new.base() == old.base()
    &&& new.bucket(c) == p
    &&& new.kind(p) == class_type(c)
    &&& forall|i: int| 0 <= i < ENTRIES_PER_PAGE && i != p ==> #[trigger] new.kind(i) == old.kind(i)
    &&& forall|k: int| 0 <= k < NUM_CLASSES && k != c ==> #[trigger] new.bucket(k) == old.bucket(k)
    &&& forall|i: int, q: int| 0 <= i < ENTRIES_PER_PAGE && i != p && 0 <= q < capacity(type_class(old.kind(i)))
        ==> #[trigger] new.used(i, q) == old.used(i, q)
    &&& forall|q: int| 0 <= q < capacity(c) ==> #[trigger] new.used(p, q) == (q == s || (old.kind(p) == class_type(c) && old.used(p, q)))
    &&& {
        ||| old.kind(p) == class_type(c) && old.slot_free(p, s) && forall|q: int| 0 <= q < s ==> #[trigger] old.used(p, q)
        ||| old.kind(p) == MetadataType::Empty && s == 0 && forall|i: int| 0 <= i < p ==> #[trigger] old.kind(i) != MetadataType::Empty
    }
}

/// The page the bucket list yields, starting at page `b` and looking at no
/// more than `fuel` pages: the first page that is not full, following the
/// links of full pages; `BUCKET_INDEX_NONE` when the list ends first.
pub open spec fn walk(s: SlebMetadataPage, b: u32, fuel: nat) -> u32
    decreases fuel,
{
    if fuel == 0 || b == BUCKET_INDEX_NONE {
        BUCKET_INDEX_NONE
    } else if !s.full(b as int) {
        b
    } else {
        walk(s, s.next(b as int), (fuel - 1) as nat)
    }
}

/// Where the bucket stands once the walk from page `b` stops: at the first
/// page that is not full, at the end of the list, or where the `fuel` runs
/// out.
pub open spec fn walk_end(s: SlebMetadataPage, b: u32, fuel: nat) -> u32
    decreases fuel,
{
    if fuel == 0 || b == BUCKET_INDEX_NONE || !s.full(b as int) {
        b
    } else {
        walk_end(s, s.next(b as int), (fuel - 1) as nat)
    }
}

/// No page's links changed.
pub open spec fn links_kept(old: SlebMetadataPage, new: SlebMetadataPage) -> bool {
    forall|j: int| 0 <= j < ENTRIES_PER_PAGE ==> #[trigger] new.next(j) == old.next(j) && new.prev(j) == old.prev(j)
}

/// The links after page `p` was promoted to the head of its class's list,
/// in front of page `e` (or of nothing): `p` links on to `e`, `e` links back
/// to `p`, and every other link stays.
pub open spec fn promoted_links(old: SlebMetadataPage, new: SlebMetadataPage, p: int, e: u32) -> bool {
    &&& new.next(p) == e && new.prev(p) == BUCKET_INDEX_NONE
    &&& e != BUCKET_INDEX_NONE ==> new.prev(e as int) == p
    &&& forall|j: int| 0 <= j < ENTRIES_PER_PAGE && j != p && j != e ==> #[trigger] new.next(j) == old.next(j)
        && new.prev(j) == old.prev(j)
}

/// What a request for one slot of class `c` does, with `r` its result: 0
/// only when no page is empty, and then no page changes; success whenever
/// the page the bucket names has a free slot, which is then the one used;
/// otherwise a slot taken as `took` says.
pub open spec fn alloc_post(old: SlebMetadataPage, new: SlebMetadataPage, c: int, r: u64) -> bool {
    &&& new.base() == old.base()
    &&& r == 0 ==> {
        &&& forall|i: int| 0 <= i < ENTRIES_PER_PAGE ==> #[trigger] old.kind(i) != MetadataType::Empty
        &&& forall|i: int| #[trigger] new.kind(i) == old.kind(i)
        &&& forall|i: int, q: int| #[trigger] new.used(i, q) == old.used(i, q)
    }
    &&& old.bucket(c) != BUCKET_INDEX_NONE && !old.full(old.bucket(c) as int) ==> r != 0 && new.bucket(c) == old.bucket(c)
    &&& walk(old, old.bucket(c), ENTRIES_PER_PAGE as nat) != BUCKET_INDEX_NONE ==> r != 0
        && new.bucket(c) == walk(old, old.bucket(c), ENTRIES_PER_PAGE as nat)
    &&& walk(old, old.bucket(c), ENTRIES_PER_PAGE as nat) == BUCKET_INDEX_NONE && r != 0
        ==> old.kind(new.bucket(c) as int) == MetadataType::Empty
    &&& r == 0 ==> walk(old, old.bucket(c), ENTRIES_PER_PAGE as nat) == BUCKET_INDEX_NONE
    &&& walk(old, old.bucket(c), ENTRIES_PER_PAGE as nat) != BUCKET_INDEX_NONE || r == 0 ==> links_kept(old, new)
    &&& walk(old, old.bucket(c), ENTRIES_PER_PAGE as nat) == BUCKET_INDEX_NONE && r != 0 ==> promoted_links(
        old,
        new,
        new.bucket(c) as int,
        walk_end(old, old.bucket(c), ENTRIES_PER_PAGE as nat),
    )
    &&& r != 0 ==> exists|p: int, s: int| #[trigger] took(old, new, c, p, s) && r == slot_addr(old.base(), p, c, s)
}

/// The carved page that holds address `ptr` of the region at `base`.
pub open spec fn page_of(base: int, ptr: int) -> int {
    (ptr - base) / SLEB_PAGESIZE as int - 1
}

/// Freeing `ptr`, a slot of page `p`, in going from `old` to `new`: that
/// slot alone becomes free; a page that was full is put into its class's
/// bucket, and otherwise no bucket changes.
pub open spec fn free_post(old: SlebMetadataPage, new: SlebMetadataPage, ptr: u64, p: int) -> bool {
    &&& new.base() == old.base()
    &&& forall|j: int| 0 <= j < ENTRIES_PER_PAGE ==> #[trigger] new.kind(j) == old.kind(j)
    &&& forall|j: int, q: int| 0 <= j < ENTRIES_PER_PAGE && 0 <= q < capacity(type_class(old.kind(j)))
        ==> #[trigger] new.used(j, q) == (old.used(j, q) && slot_addr(old.base(), j, type_class(old.kind(j)), q) != ptr)
    &&& old.full(p) ==> new.bucket(type_class(old.kind(p))) == p
    &&& forall|k: int| 0 <= k < NUM_CLASSES && (k != type_class(old.kind(p)) || !old.full(p))
        ==> #[trigger] new.bucket(k) == old.bucket(k)
    &&& relinked(old, new, p, old.full(p) && old.bucket(type_class(old.kind(p))) != p)
}

/// The links of the pages in going from `old` to `new`: when `moved`, page
/// `p` goes to the head of its class's list, before the page the bucket
/// named, which links back to it; every other link stays.
pub open spec fn relinked(old: SlebMetadataPage, new: SlebMetadataPage, p: int, moved: bool) -> bool {
    let b = old.bucket(type_class(old.kind(p)));
    &&& moved ==> new.next(p) == b && new.prev(p) == BUCKET_INDEX_NONE
    &&& moved && b != BUCKET_INDEX_NONE ==> new.prev(b as int) == p
    &&& forall|j: int| 0 <= j < ENTRIES_PER_PAGE && (!moved || (j != p && j != b)) ==> #[trigger] new.next(j)
        == old.next(j) && new.prev(j) == old.prev(j)
}

/// A slot lies inside its page.
pub proof fn lemma_slot_in_page(c: int, s: int)
    requires
        0 <= c < NUM_CLASSES,
        0 <= s < capacity(c),
    ensures
        0 <= slot_offset(c, s),
        slot_offset(c, s) + class_size(c) <= SLEB_PAGESIZE,
        capacity(c) <= 127,
        c != 0 ==> capacity(c) <= 64,
{
    if c == 1 {
        assert(slot_offset(c, s) == s * 64);
    } else if c == 2 {
        assert(slot_offset(c, s) == s * 128);
    } else if c == 3 {
        assert(slot_offset(c, s) == s * 256);
    } else if c == 4 {
        assert(slot_offset(c, s) == s * 512);
    } else if c == 5 {
        assert(slot_offset(c, s) == s * 1024);
    } else if c == 6 {
        assert(slot_offset(c, s) == s * 2048);
    }
}

/// Two different slots of one page do not meet.
proof fn lemma_slots_apart(base: int, i: int, c: int, s: int)
    requires
        0 <= c < NUM_CLASSES,
        0 <= s < capacity(c),
    ensures
        forall|q: int| 0 <= q < capacity(c) && q != s ==> #[trigger] slot_addr(base, i, c, q) != slot_addr(base, i, c, s),
{
    assert forall|q: int| 0 <= q < capacity(c) && q != s implies #[trigger] slot_addr(base, i, c, q) != slot_addr(base, i, c, s) by {
        assert(q * class_size(c) != s * class_size(c)) by (nonlinear_arith)
            requires
                q != s,
                class_size(c) > 0,
        ;
    }
}

/// The page of an address inside a slot of page `i` is `i`.
proof fn lemma_page_of(base: int, i: int, ptr: int)
    requires
        page_addr(base, i) <= ptr < page_addr(base, i) + SLEB_PAGESIZE,
        0 <= i,
    ensures
        page_of(base, ptr) == i,
{
    assert((ptr - base) / 4096 == i + 1) by (nonlinear_arith)
        requires
            base + (i + 1) * 4096 <= ptr < base + (i + 1) * 4096 + 4096,
    ;
}

/// No two slots handed out and not yet freed share a byte.
pub proof fn lemma_live_slots_disjoint(sl: SlebMetadataPage, i1: int, q1: int, i2: int, q2: int)
    requires
        sl.live_slot(i1, q1),
        sl.live_slot(i2, q2),
        i1 != i2 || q1 != q2,
    ensures
        ({
            let c1 = type_class(sl.kind(i1));
            let c2 = type_class(sl.kind(i2));
            let a1 = slot_addr(sl.base(), i1, c1, q1);
            let a2 = slot_addr(sl.base(), i2, c2, q2);
            a1 + class_size(c1) <= a2 || a2 + class_size(c2) <= a1
        }),
{
    let c1 = type_class(sl.kind(i1));
    let c2 = type_class(sl.kind(i2));
    lemma_slot_in_page(c1, q1);
    lemma_slot_in_page(c2, q2);
    if i1 == i2 {
        let c = c1;
        if c == 0 {
        } else {
            let k = class_size(c);
            assert(q1 * k + k <= q2 * k || q2 * k + k <= q1 * k) by (nonlinear_arith)
                requires
                    q1 != q2,
                    k > 0,
            ;
        }
    }
}

/// A request of 65 to 128 bytes is served by a 128-byte slot: the address
/// lies in a carved page at a multiple of 128 from the page's start.
pub proof fn lemma_128_byte_class(s0: SlebMetadataPage, s1: SlebMetadataPage, size: int, r: u64)
    requires
        65 <= size <= 128,
        alloc_post(s0, s1, class_of_size(size), r),
        r != 0,
    ensures
        exists|p: int| 0 <= p < ENTRIES_PER_PAGE && #[trigger] page_addr(s0.base(), p) <= r
            && (r - page_addr(s0.base(), p)) % 128 == 0 && r < page_addr(s0.base(), p) + SLEB_PAGESIZE,
{
    let (p, s) = choose|p: int, s: int| #[trigger] took(s0, s1, 2, p, s) && r == slot_addr(s0.base(), p, 2, s);
    lemma_slot_in_page(2, s);
    assert((s * 128) % 128 == 0) by (nonlinear_arith);
    assert(r - page_addr(s0.base(), p) == s * 128);
}

/// A slot just handed out shares no byte with any slot that was live
/// before the request.
pub proof fn lemma_new_slot_apart(s0: SlebMetadataPage, s1: SlebMetadataPage, c: int, r: u64, i: int, q: int)
    requires
        0 <= c < NUM_CLASSES,
        alloc_post(s0, s1, c, r),
        r != 0,
        s0.live_slot(i, q),
    ensures
        r + class_size(c) <= slot_addr(s0.base(), i, type_class(s0.kind(i)), q)
            || slot_addr(s0.base(), i, type_class(s0.kind(i)), q) + class_size(type_class(s0.kind(i))) <= r,
{
    let (p, s) = choose|p: int, s: int| #[trigger] took(s0, s1, c, p, s) && r == slot_addr(s0.base(), p, c, s);
    assert(s1.live_slot(p, s));
    if i == p {
        assert(s0.kind(p) == class_type(c));
        assert(q != s);
        assert(s1.used(i, q));
    } else {
        assert(s1.kind(i) == s0.kind(i));
        assert(s1.used(i, q) == s0.used(i, q));
    }
    assert(s1.live_slot(i, q));
    lemma_live_slots_disjoint(s1, p, s, i, q);
}

/// Handing out a slot, freeing it, and asking again for the same class
/// gives back the same address: the freed slot is reused rather than a new
/// page being taken.
pub proof fn lemma_round_trip(
    s0: SlebMetadataPage,
    s1: SlebMetadataPage,
    s2: SlebMetadataPage,
    s3: SlebMetadataPage,
    c: int,
    r1: u64,
    r2: u64,
)
    requires
        0 <= c < NUM_CLASSES,
        alloc_post(s0, s1, c, r1),
        r1 != 0,
        free_post(s1, s2, r1, page_of(s1.base(), r1 as int)),
        alloc_post(s2, s3, c, r2),
    ensures
        r2 == r1,
{
    let (p, s) = choose|p: int, s: int| #[trigger] took(s0, s1, c, p, s) && r1 == slot_addr(s0.base(), p, c, s);
    lemma_slot_in_page(c, s);
    lemma_page_of(s1.base(), p, r1 as int);
    lemma_slots_apart(s1.base(), p, c, s);
    assert(type_class(s1.kind(p)) == c);
    assert(s1.used(p, s));
    assert forall|q: int| 0 <= q < s implies #[trigger] s1.used(p, q) by {}
    assert(!s2.used(p, s));
    assert forall|q: int| 0 <= q < s implies #[trigger] s2.used(p, q) by {
        assert(s1.used(p, q));
        assert(slot_addr(s1.base(), p, c, q) != r1);
    }
    assert(s2.bucket(c) == p);
    assert(!s2.full(p));
    assert(s3.bucket(c) == p);
    let (p2, t) = choose|p2: int, t: int| #[trigger] took(s2, s3, c, p2, t) && r2 == slot_addr(s2.base(), p2, c, t);
    assert(p2 == p);
    assert(s2.kind(p) == class_type(c));
    if t < s {
        assert(s2.used(p, t));
    }
    if s < t {
        assert(s2.used(p, s));
    }
}

/// Record `m` with its type set to `t`.
pub open spec fn with_type(m: SlebMetadata, t: MetadataType) -> SlebMetadata {
    SlebMetadata { sleb_type: t, next_index: m.next_index, prev_index: m.prev_index, extra_bits: m.extra_bits }
}

/// The metadata record of one carved page: its type, its links in the list
/// of pages of its class, and, for medium pages, the slot bitmap.
#[derive(Clone, Copy)]
pub struct SlebMetadata {
    pub sleb_type: MetadataType,
    pub next_index: u32,
    pub prev_index: u32,
    pub extra_bits: u64,
}

impl SlebMetadata {
    pub fn get_type(&self) -> (r: MetadataType)
        ensures
            r == self.sleb_type,
    {
        self.sleb_type
    }
}

/// The allocator's state: the address of its region, one metadata record per
/// carved page, the bitmaps of the tiny pages, and one bucket per class.
pub struct SlebMetadataPage {
    base: u64,
    metadata: Vec<SlebMetadata>,
    tiny_pages: Vec<TinyMetadataPage>,
    buckets: Vec<BucketIndex>,
}

impl SlebMetadataPage {
    /// Address of the region, which starts with the metadata page.
    pub closed spec fn base(self) -> int {
        self.base as int
    }

    /// Type of carved page `i`.
    pub closed spec fn kind(self, i: int) -> MetadataType {
        self.metadata@[i].sleb_type
    }

    /// Slot `s` of carved page `i` is in use.
    pub closed spec fn used(self, i: int, s: int) -> bool {
        if self.metadata@[i].sleb_type == MetadataType::Tiny32 {
            self.tiny_pages@[i].used(s)
        } else {
            bit(self.metadata@[i].extra_bits, s)
        }
    }

    /// The page the bucket of class `c` names, or `BUCKET_INDEX_NONE`.
    pub closed spec fn bucket(self, c: int) -> u32 {
        self.buckets@[c].index
    }

    /// The page linked after page `i` in its class's list.
    pub closed spec fn next(self, i: int) -> u32 {
        self.metadata@[i].next_index
    }

    /// The page linked before page `i` in its class's list.
    pub closed spec fn prev(self, i: int) -> u32 {
        self.metadata@[i].prev_index
    }

    /// Slot `s` of page `i` exists for the page's class and is free.
    pub open spec fn slot_free(self, i: int, s: int) -> bool {
        0 <= s < capacity(type_class(self.kind(i))) && !self.used(i, s)
    }

    /// Every slot of page `i` is in use.
    pub open spec fn full(self, i: int) -> bool {
        forall|s: int| 0 <= s < capacity(type_class(self.kind(i))) ==> #[trigger] self.used(i, s)
    }

    /// The bucket of class `c` is empty or names a page of class `c`.
    pub closed spec fn bucket_ok(self, c: int) -> bool {
        let b = self.buckets@[c].index;
        b == BUCKET_INDEX_NONE || (b < ENTRIES_PER_PAGE && self.metadata@[b as int].sleb_type == class_type(c))
    }

    /// The record of page `i` links only to a page of its own type, and a
    /// medium page has every bit past its capacity set.
    pub closed spec fn page_ok(self, i: int) -> bool {
        let m = self.metadata@[i];
        &&& m.sleb_type == MetadataType::Empty ==> m.next_index == BUCKET_INDEX_NONE
        &&& m.next_index == BUCKET_INDEX_NONE || (m.next_index < ENTRIES_PER_PAGE
            && self.metadata@[m.next_index as int].sleb_type == m.sleb_type)
        &&& type_class(m.sleb_type) >= 1 ==> forall|s: int| capacity(type_class(m.sleb_type)) <= s < 64
            ==> #[trigger] bit(m.extra_bits, s)
    }

    /// Every record and bucket is consistent, and the region fits in the
    /// address space.
    pub closed spec fn wf(self) -> bool {
        &&& self.metadata@.len() == ENTRIES_PER_PAGE
        &&& self.tiny_pages@.len() == ENTRIES_PER_PAGE
        &&& self.buckets@.len() == NUM_CLASSES
        &&& self.base + ONE_MIB <= u64::MAX
        &&& forall|c: int| 0 <= c < NUM_CLASSES ==> #[trigger] self.bucket_ok(c)
        &&& forall|i: int| 0 <= i < ENTRIES_PER_PAGE ==> #[trigger] self.page_ok(i)
    }

    /// Sets up the allocator on the 1 MiB region at `page`: every carved page
    /// empty, every bucket empty.
    pub fn init(page: u64) -> (r: Self)
        requires
            page as int + ONE_MIB <= u64::MAX,
        ensures
            r.wf(),
            r.base() == page,
            forall|i: int| 0 <= i < ENTRIES_PER_PAGE ==> #[trigger] r.kind(i) == MetadataType::Empty,
            forall|c: int| 0 <= c < NUM_CLASSES ==> #[trigger] r.bucket(c) == BUCKET_INDEX_NONE,
    {
        let mut metadata: Vec<SlebMetadata> = Vec::new();
        let mut tiny_pages: Vec<TinyMetadataPage> = Vec::new();
        let mut i: u32 = 0;
        while i < ENTRIES_PER_PAGE
            invariant
                i <= ENTRIES_PER_PAGE,
                metadata@.len() == i,
                tiny_pages@.len() == i,
                forall|k: int| 0 <= k < i ==> #[trigger] metadata@[k] == (SlebMetadata {
                    sleb_type: MetadataType::Empty,
                    next_index: BUCKET_INDEX_NONE,
                    prev_index: BUCKET_INDEX_NONE,
                    extra_bits: 0,
                }),
            decreases ENTRIES_PER_PAGE - i,
        {
            metadata.push(SlebMetadata {
                sleb_type: MetadataType::Empty,
                next_index: BUCKET_INDEX_NONE,
                prev_index: BUCKET_INDEX_NONE,
                extra_bits: 0,
            });
            tiny_pages.push(TinyMetadataPage::new());
            i = i + 1;
        }
        let mut buckets: Vec<BucketIndex> = Vec::new();
        let mut c: u32 = 0;
        while c < NUM_CLASSES
            invariant
                c <= NUM_CLASSES,
                buckets@.len() == c,
                forall|k: int| 0 <= k < c ==> #[trigger] buckets@[k].index == BUCKET_INDEX_NONE,
            decreases NUM_CLASSES - c,
        {
            buckets.push(BucketIndex::new(BUCKET_INDEX_NONE));
            c = c + 1;
        }
        SlebMetadataPage { base: page, metadata, tiny_pages, buckets }
    }

    /// `ptr` lies strictly inside the region.
    pub fn within_bounds(&self, ptr: u64) -> (r: bool)
        requires
            self.wf(),
        ensures
            r == (self.base() < ptr && ptr < self.base() + ONE_MIB),
    {
        self.base < ptr && ptr < self.base + ONE_MIB
    }

    /// Address of carved page `index`.
    fn index_to_ptr(&self, index: u32) -> (r: u64)
        requires
            self.wf(),
            index < ENTRIES_PER_PAGE,
        ensures
            r as int == page_addr(self.base(), index as int),
            r as int + SLEB_PAGESIZE <= self.base() + ONE_MIB,
    {
        self.base + SLEB_PAGESIZE * (index as u64 + 1)
    }

    /// Address of slot `s` of class `c` in carved page `i`.
    fn slot_address(&self, i: u32, c: u32, s: u32) -> (r: u64)
        requires
            self.wf(),
            i < ENTRIES_PER_PAGE,
            c < NUM_CLASSES,
            s < capacity(c as int),
        ensures
            r as int == slot_addr(self.base(), i as int, c as int, s as int),
            r as int + class_size(c as int) <= page_addr(self.base(), i as int) + SLEB_PAGESIZE,
    {
        let page = self.index_to_ptr(i);
        if c == 0 {
            page + TINY_HEADER + 32 * (s as u64)
        } else {
            let size = class_bytes(c);
            assert(s as int * size as int + size as int <= SLEB_PAGESIZE) by (nonlinear_arith)
                requires
                    s < capacity(c as int),
                    size as int == class_size(c as int),
                    1 <= c < NUM_CLASSES,
            ;
            MetadataPage::take_slot(page, s, size)
        }
    }

    /// Takes the lowest free slot of page `i`, whose class is `c`, and marks
    /// it used; `None` when the page is full.
    fn take_from_page(&mut self, i: u32, c: u32) -> (r: Option<u32>)
        requires
            old(self).wf(),
            i < ENTRIES_PER_PAGE,
            c < NUM_CLASSES,
            old(self).kind(i as int) == class_type(c as int),
        ensures
            final(self).wf(),
            final(self).base() == old(self).base(),
            forall|j: int| 0 <= j < ENTRIES_PER_PAGE ==> #[trigger] final(self).kind(j) == old(self).kind(j),
            forall|k: int| 0 <= k < NUM_CLASSES ==> #[trigger] final(self).bucket(k) == old(self).bucket(k),
            links_kept(*old(self), *final(self)),
            r is None <==> old(self).full(i as int),
            r is None ==> *final(self) == *old(self),
            r matches Some(s) ==> {
                &&& old(self).slot_free(i as int, s as int)
                &&& forall|q: int| 0 <= q < s ==> #[trigger] old(self).used(i as int, q)
                &&& forall|j: int, q: int| 0 <= j < ENTRIES_PER_PAGE && 0 <= q < capacity(type_class(old(self).kind(j)))
                    ==> #[trigger] final(self).used(j, q) == (old(self).used(j, q) || (j == i && q == s))
            },
    {
        let ghost old_self = *self;
        if c == 0 {
            let mut tp = self.tiny_pages[i as usize];
            let ghost tp0 = tp;
            assert(forall|q: int| #[trigger] old_self.used(i as int, q) == tp0.used(q));
            let r = tp.find_free_slot();
            match r {
                Some(s) => {
                    self.tiny_pages.set(i as usize, tp);
                    proof {
                        assert(!old_self.used(i as int, s as int));
                        assert(self.metadata@ == old_self.metadata@);
                        assert forall|j: int| 0 <= j < ENTRIES_PER_PAGE implies #[trigger] self.page_ok(j) by {
                            assert(old_self.page_ok(j));
                        }
                        assert forall|k: int| 0 <= k < NUM_CLASSES implies #[trigger] self.bucket_ok(k) by {
                            assert(old_self.bucket_ok(k));
                        }
                    }
                },
                None => {
                    assert forall|q: int| 0 <= q < capacity(type_class(old_self.kind(i as int))) implies
                        #[trigger] old_self.used(i as int, q) by {
                        assert(tp0.used(q));
                    }
                },
            }
            r
        } else {
            let e = self.metadata[i as usize].extra_bits;
            let t = e.trailing_ones();
            proof {
                lemma_trailing(e);
                lemma_all_ones(e);
                assert(old_self.metadata@[i as int] == self.metadata@[i as int]);
                assert(old_self.page_ok(i as int));
                assert(forall|q: int| #[trigger] old_self.used(i as int, q) == bit(e, q));
                if old_self.full(i as int) {
                    assert forall|q: int| 0 <= q < 64 implies #[trigger] bit(e, q) by {
                        if q < capacity(c as int) {
                            assert(old_self.used(i as int, q));
                        }
                    }
                }
                if e == 0xFFFF_FFFF_FFFF_FFFFu64 {
                    assert forall|q: int| 0 <= q < capacity(type_class(old_self.kind(i as int))) implies
                        #[trigger] old_self.used(i as int, q) by {
                        assert(bit(e, q));
                    }
                }
            }
            if t < 64 {
                let mut m = self.metadata[i as usize];
                m.extra_bits = e | (1u64 << (t as u64));
                proof {
                    lemma_set_bit(e, t as u64);
                    assert(!bit(e, t as int));
                }
                self.metadata.set(i as usize, m);
                proof {
                    assert forall|j: int| 0 <= j < ENTRIES_PER_PAGE implies #[trigger] self.page_ok(j) by {
                        assert(old_self.page_ok(j));
                        let oj = old_self.metadata@[j];
                        if oj.next_index != BUCKET_INDEX_NONE {
                            assert(self.metadata@[oj.next_index as int].sleb_type == old_self.metadata@[oj.next_index as int].sleb_type);
                        }
                    }
                    assert forall|k: int| 0 <= k < NUM_CLASSES implies #[trigger] self.bucket_ok(k) by {
                        assert(old_self.bucket_ok(k));
                    }
                    assert(!old_self.used(i as int, t as int));
                    assert(old_self.slot_free(i as int, t as int));
                }
                Some(t)
            } else {
                None
            }
        }
    }

    /// Serves one slot of class `c`: from the page the class's bucket names,
    /// following the links of full pages, and else from the first empty page,
    /// which takes class `c`. Returns 0 when no page can serve.
    #[verifier::spinoff_prover]
    #[verifier::rlimit(40)]
    fn alloc_class(&mut self, c: u32) -> (r: u64)
        requires
            old(self).wf(),
            c < NUM_CLASSES,
        ensures
            final(self).wf(),
            alloc_post(*old(self), *final(self), c as int, r),
    {
        let ghost old_self = *self;
        let ghost has_room = old_self.bucket(c as int) != BUCKET_INDEX_NONE && !old_self.full(old_self.bucket(c as int) as int);
        let mut fuel: u32 = 0;
        let mut done = false;
        while !done && fuel < ENTRIES_PER_PAGE
            invariant
                self.wf(),
                c < NUM_CLASSES,
                fuel <= ENTRIES_PER_PAGE,
                old_self == *old(self),
                self.base() == old_self.base(),
                forall|j: int| #[trigger] self.kind(j) == old_self.kind(j),
                forall|j: int, q: int| #[trigger] self.used(j, q) == old_self.used(j, q),
                forall|k: int| 0 <= k < NUM_CLASSES && k != c ==> #[trigger] self.bucket(k) == old_self.bucket(k),
                has_room ==> self.bucket(c as int) == old_self.bucket(c as int),
                has_room ==> fuel == 0,
                has_room == (old_self.bucket(c as int) != BUCKET_INDEX_NONE && !old_self.full(old_self.bucket(c as int) as int)),
                done ==> !has_room,
                done ==> self.bucket(c as int) == BUCKET_INDEX_NONE,
                self.metadata@ == old_self.metadata@,
                walk(old_self, self.bucket(c as int), (ENTRIES_PER_PAGE - fuel) as nat)
                    == walk(old_self, old_self.bucket(c as int), ENTRIES_PER_PAGE as nat),
                walk_end(old_self, self.bucket(c as int), (ENTRIES_PER_PAGE - fuel) as nat)
                    == walk_end(old_self, old_self.bucket(c as int), ENTRIES_PER_PAGE as nat),
            decreases ENTRIES_PER_PAGE - fuel + if done { 0int } else { 1int },
        {
            assert(self.bucket_ok(c as int));
            match self.buckets[c as usize].get() {
                None => {
                    done = true;
                },
                Some(i) => {
                    let ghost before = *self;
                    match self.take_from_page(i, c) {
                        Some(s) => {
                            let r = self.slot_address(i, c, s);
                            proof {
                                assert(before.bucket(c as int) == i);
                                assert(self.bucket(c as int) == i);
                                assert(self.kind(i as int) == class_type(c as int));
                                assert(forall|j: int, q: int| #[trigger] before.used(j, q) == old_self.used(j, q));
                                assert(old_self.slot_free(i as int, s as int));
                                assert(!old_self.full(i as int));
                                assert(walk(old_self, i, (ENTRIES_PER_PAGE - fuel) as nat) == i);
                                assert forall|q: int| 0 <= q < s implies #[trigger] old_self.used(i as int, q) by {
                                    assert(before.used(i as int, q));
                                }
                                assert(forall|q: int| 0 <= q < capacity(c as int) ==> #[trigger] self.used(i as int, q) == (q == s || old_self.used(i as int, q)));
                                assert(took(old_self, *self, c as int, i as int, s as int));
                                assert(r != 0);
                                assert(has_room ==> self.bucket(c as int) == old_self.bucket(c as int));
                                assert(exists|p: int, q: int| #[trigger] took(old_self, *self, c as int, p, q)
                                    && r == slot_addr(old_self.base(), p, c as int, q));
                                assert(before.metadata@ == old_self.metadata@);
                                assert forall|j: int| 0 <= j < ENTRIES_PER_PAGE implies #[trigger] self.next(j) == old_self.next(j)
                                    && self.prev(j) == old_self.prev(j) by {
                                    assert(self.next(j) == before.next(j) && self.prev(j) == before.prev(j));
                                }
                                assert(links_kept(old_self, *self));
                                assert(walk(old_self, old_self.bucket(c as int), ENTRIES_PER_PAGE as nat) == i);
                                assert(alloc_post(old_self, *self, c as int, r));
                            }
                            return r;
                        },
                        None => {
                            assert(self.page_ok(i as int));
                            let next = self.metadata[i as usize].next_index;
                            self.buckets.set(c as usize, BucketIndex::new(next));
                            proof {
                                assert forall|j: int| 0 <= j < ENTRIES_PER_PAGE implies #[trigger] self.metadata@[j] == before.metadata@[j] by {}
                                assert(self.metadata@[i as int] == before.metadata@[i as int]);
                                assert(self.metadata@ == before.metadata@);
                                assert(self.tiny_pages@ == before.tiny_pages@);
                                assert forall|k: int| 0 <= k < NUM_CLASSES && k != c implies #[trigger] self.bucket(k) == old_self.bucket(k) by {
                                    assert(before.bucket(k) == old_self.bucket(k));
                                }
                                assert forall|j: int| #[trigger] self.kind(j) == old_self.kind(j) by {
                                    assert(before.kind(j) == old_self.kind(j));
                                }
                                assert forall|j: int, q: int| #[trigger] self.used(j, q) == old_self.used(j, q) by {
                                    assert(before.used(j, q) == old_self.used(j, q));
                                }
                                assert forall|q: int| 0 <= q < capacity(type_class(old_self.kind(i as int))) implies
                                    #[trigger] old_self.used(i as int, q) by {
                                    assert(before.used(i as int, q));
                                }
                                assert(old_self.full(i as int));
                                assert(old_self.next(i as int) == next);
                                assert(walk(old_self, i, (ENTRIES_PER_PAGE - fuel) as nat)
                                    == walk(old_self, next, (ENTRIES_PER_PAGE - fuel - 1) as nat));
                                assert(walk_end(old_self, i, (ENTRIES_PER_PAGE - fuel) as nat)
                                    == walk_end(old_self, next, (ENTRIES_PER_PAGE - fuel - 1) as nat));
                                if has_room {
                                    assert(before.full(i as int));
                                    assert(!old_self.full(i as int));
                                    let q = choose|q: int| 0 <= q < capacity(type_class(old_self.kind(i as int))) && !old_self.used(i as int, q);
                                    assert(before.used(i as int, q));
                                    assert(false);
                                }
                                assert forall|j: int| 0 <= j < ENTRIES_PER_PAGE implies #[trigger] self.page_ok(j) by {
                                    assert(before.page_ok(j));
                                }
                                assert forall|k: int| 0 <= k < NUM_CLASSES implies #[trigger] self.bucket_ok(k) by {
                                    assert(before.bucket_ok(k));
                                }
                            }
                            fuel = fuel + 1;
                        },
                    }
                },
            }
        }
        let t = class_type_of(c);
        let ghost before = *self;
        match self.find_empty_page(t) {
            None => {
                proof {
                    assert(!has_room);
                    assert forall|j: int| 0 <= j < ENTRIES_PER_PAGE implies #[trigger] old_self.kind(j) != MetadataType::Empty by {
                        assert(self.kind(j) != MetadataType::Empty);
                    }
                }
                0
            },
            Some(i) => {
                assert(before.bucket_ok(c as int));
                let head = self.buckets[c as usize].index;
                if c == 0 {
                    let fresh = TinyMetadataPage::new();
                    let mut tp = fresh;
                    let slot = tp.find_free_slot();
                    proof {
                        assert(!fresh.used(0));
                        assert(slot == Some(0u32));
                    }
                    self.tiny_pages.set(i as usize, tp);
                    self.metadata.set(
                        i as usize,
                        SlebMetadata { sleb_type: t, next_index: head, prev_index: BUCKET_INDEX_NONE, extra_bits: 0 },
                    );
                } else {
                    proof {
                        lemma_initial_bits(c as int);
                    }
                    self.metadata.set(
                        i as usize,
                        SlebMetadata {
                            sleb_type: t,
                            next_index: head,
                            prev_index: BUCKET_INDEX_NONE,
                            extra_bits: initial_bits_of(c),
                        },
                    );
                }
                if head != BUCKET_INDEX_NONE {
                    let mut h = self.metadata[head as usize];
                    h.prev_index = i;
                    self.metadata.set(head as usize, h);
                }
                self.buckets.set(c as usize, BucketIndex::new(i));
                proof {
                    assert(before.page_ok(i as int));
                    if c >= 1 {
                        lemma_initial_bits(c as int);
                    }
                    assert forall|j: int| 0 <= j < ENTRIES_PER_PAGE implies #[trigger] self.page_ok(j) by {
                        assert(before.page_ok(j));
                        let bj = before.metadata@[j];
                        if bj.next_index == i {
                            assert(before.page_ok(i as int));
                        }
                        if j != i && bj.next_index != BUCKET_INDEX_NONE && bj.next_index != i {
                            assert(self.metadata@[bj.next_index as int].sleb_type == bj.sleb_type);
                        }
                        if j == i && head != BUCKET_INDEX_NONE {
                            assert(self.metadata@[head as int].sleb_type == before.metadata@[head as int].sleb_type);
                        }
                    }
                    assert forall|k: int| 0 <= k < NUM_CLASSES implies #[trigger] self.bucket_ok(k) by {
                        assert(before.bucket_ok(k));
                        let bk = before.buckets@[k].index;
                        if k != c && bk != BUCKET_INDEX_NONE {
                            assert(self.metadata@[bk as int].sleb_type == before.metadata@[bk as int].sleb_type);
                        }
                    }
                }
                let r = self.slot_address(i, c, 0);
                proof {
                    assert forall|j: int| 0 <= j < ENTRIES_PER_PAGE && j != i implies
                        #[trigger] self.metadata@[j].sleb_type == before.metadata@[j].sleb_type
                        && self.metadata@[j].extra_bits == before.metadata@[j].extra_bits
                        && self.metadata@[j].next_index == before.metadata@[j].next_index by {}
                    assert(forall|j: int| 0 <= j < ENTRIES_PER_PAGE ==> #[trigger] before.kind(j) == old_self.kind(j));
                    assert forall|j: int| 0 <= j < i implies #[trigger] old_self.kind(j) != MetadataType::Empty by {
                        assert(before.kind(j) != MetadataType::Empty);
                    }
                    assert(old_self.kind(i as int) == MetadataType::Empty);
                    assert forall|j: int| 0 <= j < ENTRIES_PER_PAGE && j != i implies #[trigger] self.kind(j) == old_self.kind(j) by {
                        assert(before.kind(j) == old_self.kind(j));
                    }
                    assert forall|j: int, q: int| 0 <= j < ENTRIES_PER_PAGE && j != i && 0 <= q < capacity(type_class(old_self.kind(j)))
                        implies #[trigger] self.used(j, q) == old_self.used(j, q) by {
                        assert(before.used(j, q) == old_self.used(j, q));
                        assert(self.metadata@[j].sleb_type == before.metadata@[j].sleb_type);
                        assert(self.metadata@[j].extra_bits == before.metadata@[j].extra_bits);
                        assert(self.tiny_pages@[j] == before.tiny_pages@[j]);
                    }
                    assert forall|q: int| 0 <= q < capacity(c as int) implies #[trigger] self.used(i as int, q) == (q == 0) by {
                        if c >= 1 {
                            assert(bit(initial_bits(c as int), q) == (q == 0 || q >= capacity(c as int)));
                        }
                    }
                    assert forall|k: int| 0 <= k < NUM_CLASSES && k != c implies #[trigger] self.bucket(k) == old_self.bucket(k) by {
                        assert(before.bucket(k) == old_self.bucket(k));
                    }
                    assert(took(old_self, *self, c as int, i as int, 0));
                    assert(!has_room);
                    assert(r == slot_addr(old_self.base(), i as int, c as int, 0));
                }
                r
            },
        }
    }

    /// Serves a request of `size` bytes from the class that fits it.
    pub fn allocate(&mut self, size: usize) -> (r: u64)
        requires
            old(self).wf(),
            1 <= size <= 2048,
        ensures
            final(self).wf(),
            alloc_post(*old(self), *final(self), class_of_size(size as int), r),
    {
        if size <= 32 {
            self.alloc_tiny()
        } else if size <= 64 {
            self.alloc_medium(0)
        } else if size <= 128 {
            self.alloc_medium(1)
        } else if size <= 256 {
            self.alloc_medium(2)
        } else if size <= 512 {
            self.alloc_medium(3)
        } else if size <= 1024 {
            self.alloc_medium(4)
        } else {
            self.alloc_medium(5)
        }
    }

    /// Serves one 32-byte slot.
    fn alloc_tiny(&mut self) -> (r: u64)
        requires
            old(self).wf(),
        ensures
            final(self).wf(),
            alloc_post(*old(self), *final(self), 0, r),
    {
        self.alloc_class(0)
    }

    /// Serves one slot of medium class `index`: 64 bytes times `2^index`.
    fn alloc_medium(&mut self, index: u32) -> (r: u64)
        requires
            old(self).wf(),
            index < 6,
        ensures
            final(self).wf(),
            alloc_post(*old(self), *final(self), index + 1, r),
    {
        self.alloc_class(index + 1)
    }

    /// Marks slot `s` of page `i`, whose class is `c`, free; a page that was
    /// full goes to the head of its class's list and into the bucket.
    fn free_slot(&mut self, i: u32, c: u32, ptr: u64)
        requires
            old(self).wf(),
            i < ENTRIES_PER_PAGE,
            c < NUM_CLASSES,
            old(self).kind(i as int) == class_type(c as int),
            exists|s: int| 0 <= s < capacity(c as int) && ptr == #[trigger] slot_addr(old(self).base(), i as int, c as int, s),
        ensures
            final(self).wf(),
            free_post(*old(self), *final(self), ptr, i as int),
    {
        let ghost old_self = *self;
        let ghost s0 = choose|s: int| 0 <= s < capacity(c as int) && ptr == slot_addr(old_self.base(), i as int, c as int, s);
        let page = self.index_to_ptr(i);
        let offset = ptr - page;
        let slot: u32 = if c == 0 {
            assert(offset / 32 == s0) by (nonlinear_arith)
                requires
                    offset == 16 + 32 * s0,
                    0 <= s0,
            ;
            (offset / 32) as u32
        } else {
            let size = class_bytes(c);
            assert(offset as int / size as int == s0) by (nonlinear_arith)
                requires
                    offset == s0 * size,
                    size > 0,
                    0 <= s0,
            ;
            (offset / size) as u32
        };
        assert(slot as int == s0);
        proof {
            lemma_slots_apart(old_self.base(), i as int, c as int, slot as int);
            lemma_slot_in_page(c as int, slot as int);
        }
        let was_full: bool;
        if c == 0 {
            let mut tp = self.tiny_pages[i as usize];
            let ghost tp0 = tp;
            assert(forall|q: int| #[trigger] old_self.used(i as int, q) == tp0.used(q));
            was_full = tp.is_full();
            proof {
                if was_full {
                    assert forall|q: int| 0 <= q < capacity(type_class(old_self.kind(i as int))) implies
                        #[trigger] old_self.used(i as int, q) by {
                        assert(tp0.used(q));
                    }
                } else {
                    let q = choose|q: int| 0 <= q < TINY_SLOTS && !tp0.used(q);
                    assert(!old_self.used(i as int, q));
                }
            }
            tp.clear_slot(slot);
            self.tiny_pages.set(i as usize, tp);
            proof {
                assert(self.metadata@ == old_self.metadata@);
                assert forall|j: int| 0 <= j < ENTRIES_PER_PAGE implies #[trigger] self.page_ok(j) by {
                    assert(old_self.page_ok(j));
                }
                assert forall|k: int| 0 <= k < NUM_CLASSES implies #[trigger] self.bucket_ok(k) by {
                    assert(old_self.bucket_ok(k));
                }
                assert(was_full == old_self.full(i as int));
            }
        } else {
            let mut m = self.metadata[i as usize];
            let e = m.extra_bits;
            proof {
                assert(old_self.page_ok(i as int));
                lemma_all_ones(e);
                lemma_clear_bit(e, slot as u64);
                assert(forall|q: int| #[trigger] old_self.used(i as int, q) == bit(e, q));
                if e == 0xFFFF_FFFF_FFFF_FFFFu64 {
                    assert forall|q: int| 0 <= q < capacity(c as int) implies #[trigger] old_self.used(i as int, q) by {
                        assert(bit(e, q));
                    }
                } else {
                    let q = choose|q: int| 0 <= q < 64 && !bit(e, q);
                    assert(q < capacity(c as int));
                    assert(!old_self.used(i as int, q));
                }
            }
            was_full = e == 0xFFFF_FFFF_FFFF_FFFFu64;
            m.extra_bits = e & !(1u64 << (slot as u64));
            self.metadata.set(i as usize, m);
            proof {
                assert forall|j: int| 0 <= j < ENTRIES_PER_PAGE implies #[trigger] self.page_ok(j) by {
                    assert(old_self.page_ok(j));
                    let oj = old_self.metadata@[j];
                    if oj.next_index != BUCKET_INDEX_NONE {
                        assert(self.metadata@[oj.next_index as int].sleb_type == old_self.metadata@[oj.next_index as int].sleb_type);
                    }
                }
                assert forall|k: int| 0 <= k < NUM_CLASSES implies #[trigger] self.bucket_ok(k) by {
                    assert(old_self.bucket_ok(k));
                }
            }
        }
        let ghost cleared = *self;
        proof {
            assert forall|j: int, q: int| 0 <= j < ENTRIES_PER_PAGE && 0 <= q < capacity(type_class(old_self.kind(j)))
                implies #[trigger] cleared.used(j, q) == (old_self.used(j, q)
                && slot_addr(old_self.base(), j, type_class(old_self.kind(j)), q) != ptr) by {
                if j != i {
                    assert(cleared.metadata@[j] == old_self.metadata@[j]);
                    assert(cleared.tiny_pages@[j] == old_self.tiny_pages@[j]);
                    assert(0 <= type_class(old_self.kind(j)) < NUM_CLASSES);
                    lemma_slot_in_page(type_class(old_self.kind(j)), q);
                    lemma_slot_in_page(c as int, slot as int);
                }
            }
        }
        assert(self.bucket_ok(c as int));
        let head = self.buckets[c as usize].index;
        if was_full && head != i {
            let mut m = self.metadata[i as usize];
            m.next_index = head;
            m.prev_index = BUCKET_INDEX_NONE;
            self.metadata.set(i as usize, m);
            if head != BUCKET_INDEX_NONE {
                let mut h = self.metadata[head as usize];
                h.prev_index = i;
                self.metadata.set(head as usize, h);
            }
            self.buckets.set(c as usize, BucketIndex::new(i));
            proof {
                assert forall|j: int| 0 <= j < ENTRIES_PER_PAGE implies #[trigger] self.page_ok(j) by {
                    assert(cleared.page_ok(j));
                    let bj = cleared.metadata@[j];
                    if bj.next_index != BUCKET_INDEX_NONE {
                        assert(self.metadata@[bj.next_index as int].sleb_type == cleared.metadata@[bj.next_index as int].sleb_type);
                    }
                    if j == i && head != BUCKET_INDEX_NONE {
                        assert(self.metadata@[head as int].sleb_type == cleared.metadata@[head as int].sleb_type);
                    }
                }
                assert forall|k: int| 0 <= k < NUM_CLASSES implies #[trigger] self.bucket_ok(k) by {
                    assert(cleared.bucket_ok(k));
                    let bk = cleared.buckets@[k].index;
                    if bk != BUCKET_INDEX_NONE {
                        assert(self.metadata@[bk as int].sleb_type == cleared.metadata@[bk as int].sleb_type);
                    }
                }
                assert forall|j: int, q: int| 0 <= j < ENTRIES_PER_PAGE implies #[trigger] self.used(j, q) == cleared.used(j, q) by {
                    assert(self.metadata@[j].sleb_type == cleared.metadata@[j].sleb_type);
                    assert(self.metadata@[j].extra_bits == cleared.metadata@[j].extra_bits);
                }
                assert forall|j: int| 0 <= j < ENTRIES_PER_PAGE implies #[trigger] self.kind(j) == old_self.kind(j) by {
                    assert(self.metadata@[j].sleb_type == cleared.metadata@[j].sleb_type);
                }
            }
        }
    }

    /// Frees a 32-byte slot of page `md_index`.
    fn free_tiny(&mut self, md_index: u32, ptr: u64)
        requires
            old(self).wf(),
            md_index < ENTRIES_PER_PAGE,
            old(self).kind(md_index as int) == MetadataType::Tiny32,
            exists|s: int| 0 <= s < capacity(0) && ptr == #[trigger] slot_addr(old(self).base(), md_index as int, 0, s),
        ensures
            final(self).wf(),
            free_post(*old(self), *final(self), ptr, md_index as int),
    {
        self.free_slot(md_index, 0, ptr)
    }

    /// Frees a slot of page `md_index`, of medium class `bucket_index`.
    fn free_medium(&mut self, md_index: u32, bucket_index: u32, ptr: u64)
        requires
            old(self).wf(),
            md_index < ENTRIES_PER_PAGE,
            bucket_index < 6,
            old(self).kind(md_index as int) == class_type(bucket_index + 1),
            exists|s: int| 0 <= s < capacity(bucket_index + 1) && ptr == #[trigger] slot_addr(
                old(self).base(),
                md_index as int,
                bucket_index + 1,
                s,
            ),
        ensures
            final(self).wf(),
            free_post(*old(self), *final(self), ptr, md_index as int),
    {
        self.free_slot(md_index, bucket_index + 1, ptr)
    }

    /// Frees the slot at `ptr`, which a call of `alloc` returned.
    pub fn free(&mut self, ptr: u64)
        requires
            old(self).wf(),
            exists|i: int, s: int| #[trigger] old(self).live_slot(i, s) && ptr == slot_addr(
                old(self).base(),
                i,
                type_class(old(self).kind(i)),
                s,
            ),
        ensures
            final(self).wf(),
            free_post(*old(self), *final(self), ptr, page_of(old(self).base(), ptr as int)),
    {
        let ghost old_self = *self;
        let ghost (i0, s0) = choose|i: int, s: int| #[trigger] old_self.live_slot(i, s) && ptr == slot_addr(
            old_self.base(),
            i,
            type_class(old_self.kind(i)),
            s,
        );
        proof {
            lemma_slot_in_page(type_class(old_self.kind(i0)), s0);
            lemma_page_of(old_self.base(), i0, ptr as int);
        }
        let distance = ptr - self.base;
        let index = (distance / SLEB_PAGESIZE - 1) as u32;
        assert(index as int == i0);
        match self.metadata[index as usize].get_type() {
            MetadataType::Tiny32 => self.free_tiny(index, ptr),
            MetadataType::Medium64 => self.free_medium(index, 0, ptr),
            MetadataType::Medium128 => self.free_medium(index, 1, ptr),
            MetadataType::Medium256 => self.free_medium(index, 2, ptr),
            MetadataType::Medium512 => self.free_medium(index, 3, ptr),
            MetadataType::Medium1024 => self.free_medium(index, 4, ptr),
            MetadataType::Medium2048 => self.free_medium(index, 5, ptr),
            MetadataType::Empty => {},
        }
    }

    /// Slot `s` of page `i` is handed out.
    pub open spec fn live_slot(self, i: int, s: int) -> bool {
        &&& 0 <= i < ENTRIES_PER_PAGE
        &&& self.kind(i) != MetadataType::Empty
        &&& 0 <= s < capacity(type_class(self.kind(i)))
        &&& self.used(i, s)
    }

    /// Finds the first empty carved page and gives it type `md_type`;
    /// `None`, and no change, when no page is empty.
    fn find_empty_page(&mut self, md_type: MetadataType) -> (r: Option<u32>)
        requires
            old(self).wf(),
        ensures
            r is None <==> forall|i: int| 0 <= i < ENTRIES_PER_PAGE ==> #[trigger] old(self).kind(i) != MetadataType::Empty,
            r is None ==> *final(self) == *old(self),
            r matches Some(i) ==> {
                &&& i < ENTRIES_PER_PAGE
                &&& old(self).kind(i as int) == MetadataType::Empty
                &&& forall|j: int| 0 <= j < i ==> #[trigger] old(self).kind(j) != MetadataType::Empty
                &&& final(self).kind(i as int) == md_type
                &&& forall|j: int| 0 <= j < ENTRIES_PER_PAGE && j != i ==> #[trigger] final(self).kind(j) == old(self).kind(j)
                &&& final(self).metadata@ == old(self).metadata@.update(i as int, with_type(old(self).metadata@[i as int], md_type))
                &&& final(self).tiny_pages@ == old(self).tiny_pages@
                &&& final(self).buckets@ == old(self).buckets@
                &&& final(self).base == old(self).base
            },
    {
        let mut i: u32 = 0;
        while i < ENTRIES_PER_PAGE
            invariant
                self.wf(),
                *self == *old(self),
                i <= ENTRIES_PER_PAGE,
                forall|j: int| 0 <= j < i ==> #[trigger] self.kind(j) != MetadataType::Empty,
            decreases ENTRIES_PER_PAGE - i,
        {
            if self.metadata[i as usize].get_type() == MetadataType::Empty {
                let mut m = self.metadata[i as usize];
                m.sleb_type = md_type;
                self.metadata.set(i as usize, m);
                return Some(i);
            }
            i = i + 1;
        }
        None
    }
}

} // verus!
