//! Managed memory: reference-counted blocks, and the types that own them.
//!
//! Every block has a header with a reference count. A block is made with a
//! count of one; retaining it adds one and releasing it takes one away; the
//! release that takes the last one frees the block. A [`Heap`] holds the blocks
//! of one element type, and an address is a position in it.
use vstd::prelude::*;
use vstd::layout::{align_of, size_of};
use vstd::std_specs::cmp::{PartialEqSpec, PartialOrdSpec};
use vstd::utf8::{encode_utf8, valid_utf8};

use crate::text::{copy_bytes, utf8_str};

verus! {

// ---------------------------------------------------------------------------
// Allocators
// ---------------------------------------------------------------------------

/// What an allocator reports of its memory. Bytes include the headers.
#[derive(Clone, Copy, Debug, PartialEq, Eq, Structural)]
pub struct DynSpireAllocatorReport {
    /// Bytes of live blocks.
    pub live_bytes: usize,
    /// Number of live blocks.
    pub live_allocations: usize,
    /// The most bytes that have been live at once.
    pub peak_bytes: usize,
    /// Number of blocks ever made.
    pub total_allocations: usize,
}

/// A report of nothing.
pub open spec fn zero_report() -> DynSpireAllocatorReport {
    DynSpireAllocatorReport {
        live_bytes: 0,
        live_allocations: 0,
        peak_bytes: 0,
        total_allocations: 0,
    }
}

impl Default for DynSpireAllocatorReport {
    fn default() -> (r: Self)
        ensures
            r == zero_report(),
    {
        DynSpireAllocatorReport {
            live_bytes: 0,
            live_allocations: 0,
            peak_bytes: 0,
            total_allocations: 0,
        }
    }
}

impl DynSpireAllocatorReport {
    /// The report after a block of `size` bytes has been made.
    pub open spec fn after_alloc(self, size: int) -> DynSpireAllocatorReport {
        DynSpireAllocatorReport {
            live_bytes: (self.live_bytes + size) as usize,
            live_allocations: (self.live_allocations + 1) as usize,
            peak_bytes: larger(self.peak_bytes as int, self.live_bytes + size) as usize,
            total_allocations: next_count(self.total_allocations),
        }
    }

    /// The report after a block of `size` bytes has been freed.
    pub open spec fn after_free(self, size: int) -> DynSpireAllocatorReport {
        DynSpireAllocatorReport {
            live_bytes: (self.live_bytes - size) as usize,
            live_allocations: (self.live_allocations - 1) as usize,
            ..self
        }
    }

    /// The report after a block has been resized.
    pub open spec fn after_resize(self, old_size: int, new_size: int) -> DynSpireAllocatorReport {
        DynSpireAllocatorReport {
            live_bytes: (self.live_bytes - old_size + new_size) as usize,
            peak_bytes: larger(
                self.peak_bytes as int,
                self.live_bytes - old_size + new_size,
            ) as usize,
            ..self
        }
    }

    /// Records that a block of `size` bytes has been made.
    pub fn record_alloc(&mut self, size: usize)
        requires
            old(self).live_bytes + size <= usize::MAX,
            old(self).live_allocations < usize::MAX,
        ensures
            *final(self) == old(self).after_alloc(size as int),
    {
        self.live_bytes = self.live_bytes + size;
        self.live_allocations = self.live_allocations + 1;
        self.total_allocations = self.total_allocations.wrapping_add(1);
        if self.live_bytes > self.peak_bytes {
            self.peak_bytes = self.live_bytes;
        }
    }

    /// Records that a block of `size` bytes has been freed.
    pub fn record_free(&mut self, size: usize)
        requires
            old(self).live_bytes >= size,
            old(self).live_allocations > 0,
        ensures
            *final(self) == old(self).after_free(size as int),
    {
        self.live_bytes = self.live_bytes - size;
        self.live_allocations = self.live_allocations - 1;
    }

    /// Records that a block has been resized.
    pub fn record_resize(&mut self, old_size: usize, new_size: usize)
        requires
            old(self).live_bytes >= old_size,
            old(self).live_bytes - old_size + new_size <= usize::MAX,
        ensures
            *final(self) == old(self).after_resize(old_size as int, new_size as int),
    {
        self.live_bytes = self.live_bytes - old_size + new_size;
        if self.live_bytes > self.peak_bytes {
            self.peak_bytes = self.live_bytes;
        }
    }
}

impl DynSpireAllocatorReport {
    /// Records the outcome of resizing a block. If the resize has failed, the
    /// old block is still live and nothing changes.
    pub fn record_realloc(&mut self, old_size: usize, new_size: usize, resized: bool)
        requires
            resized ==> old(self).live_bytes >= old_size && old(self).live_bytes - old_size
                + new_size <= usize::MAX,
        ensures
            *final(self) == if resized {
                old(self).after_resize(old_size as int, new_size as int)
            } else {
                *old(self)
            },
    {
        if resized {
            self.record_resize(old_size, new_size);
        }
    }
}

/// The larger of two numbers.
pub open spec fn larger(a: int, b: int) -> int {
    if a >= b {
        a
    } else {
        b
    }
}

/// A counter that starts again at zero when it is full.
pub open spec fn next_count(n: usize) -> usize {
    if n == usize::MAX {
        0
    } else {
        (n + 1) as usize
    }
}

/// How often an allocator has been called.
#[derive(Clone, Copy, Debug, PartialEq, Eq, Structural)]
pub struct AllocatorCalls {
    pub allocs: usize,
    pub frees: usize,
    pub reallocs: usize,
}

/// An allocator: whether it keeps a report, and what it has recorded.
#[derive(Clone, Copy, Debug, PartialEq, Eq, Structural)]
pub struct DynSpireAllocator {
    pub tracking: bool,
    pub stats: DynSpireAllocatorReport,
    pub calls: AllocatorCalls,
}

/// An allocator that has recorded nothing.
pub open spec fn fresh_allocator(tracking: bool) -> DynSpireAllocator {
    DynSpireAllocator {
        tracking,
        stats: zero_report(),
        calls: AllocatorCalls { allocs: 0, frees: 0, reallocs: 0 },
    }
}

/// The allocator that keeps no report.
pub fn default_allocator() -> (r: DynSpireAllocator)
    ensures
        r == fresh_allocator(false),
{
    DynSpireAllocator {
        tracking: false,
        stats: DynSpireAllocatorReport::default(),
        calls: AllocatorCalls { allocs: 0, frees: 0, reallocs: 0 },
    }
}

/// The allocator that keeps a report.
pub fn debug_allocator() -> (r: DynSpireAllocator)
    ensures
        r == fresh_allocator(true),
{
    DynSpireAllocator {
        tracking: true,
        stats: DynSpireAllocatorReport::default(),
        calls: AllocatorCalls { allocs: 0, frees: 0, reallocs: 0 },
    }
}

impl DynSpireAllocator {
    /// What the allocator reports: zeros if it keeps no report.
    pub open spec fn reported(self) -> DynSpireAllocatorReport {
        if self.tracking {
            self.stats
        } else {
            zero_report()
        }
    }

    /// What the allocator reports.
    pub fn report(&self) -> (r: DynSpireAllocatorReport)
        ensures
            r == self.reported(),
    {
        if self.tracking {
            self.stats
        } else {
            DynSpireAllocatorReport::default()
        }
    }
}

// ---------------------------------------------------------------------------
// Blocks
// ---------------------------------------------------------------------------

/// The alignment to which the size of a header is padded. No payload is more
/// aligned than this.
pub const HEADER_PAD_ALIGN: usize = 32;

/// The size of a header: seven fields of together 48 bytes, padded.
pub const HEADER_SIZE: usize = 64;

/// The least multiple of `align` that is not below `x`.
pub fn round_up(x: usize, align: usize) -> (r: usize)
    requires
        align > 0,
        x + align - 1 <= usize::MAX,
    ensures
        r % align == 0,
        x <= r < x + align,
{
    let q: usize = (x + (align - 1)) / align;
    proof {
        let s = x + align - 1;
        let a = align as int;
        assert(s == a * (s / a) + s % a) by {
            vstd::arithmetic::div_mod::lemma_fundamental_div_mod(s, a);
        }
        assert(0 <= s % a < a) by {
            vstd::arithmetic::div_mod::lemma_mod_bound(s, a);
        }
        assert(a * (s / a) == (s / a) * a) by (nonlinear_arith);
        vstd::arithmetic::div_mod::lemma_mod_multiples_basic(s / a, a);
    }
    q * align
}

/// Whether `align` is a power of two that a header's padding covers.
pub open spec fn align_ok(align: int) -> bool {
    align == 1 || align == 2 || align == 4 || align == 8 || align == 16 || align == 32
}

/// Whether memory of `size` bytes, rounded up to `align`, can be asked for.
pub open spec fn layout_ok(size: int, align: int) -> bool {
    size + align - 1 <= isize::MAX
}

/// The header of a block. A block with a `drop_fn` needs that function run when
/// it is freed.
#[derive(Clone, Copy, Debug, PartialEq, Eq, Structural)]
pub struct DynSpireHeader {
    pub rc: usize,
    pub type_index: u32,
    pub drop_fn: Option<usize>,
    pub size: usize,
    pub align: usize,
}

/// A block: its header, and the elements that have been written to it.
pub struct Block<T> {
    pub header: DynSpireHeader,
    pub payload: Vec<T>,
}

/// Blocks of one element type, and their allocator. `None` stands for a block
/// that has been freed.
pub struct Heap<T> {
    pub allocator: DynSpireAllocator,
    pub blocks: Vec<Option<Block<T>>>,
}

/// What a block adds to a sum: its bytes, or one.
pub open spec fn cost<T>(b: Option<Block<T>>, bytes: bool) -> nat {
    match b {
        Some(b) => if bytes {
            (HEADER_SIZE + b.header.size) as nat
        } else {
            1
        },
        None => 0,
    }
}

/// The bytes, or the number, of the live ones of the first `n` blocks.
pub open spec fn live<T>(bs: Seq<Option<Block<T>>>, n: nat, bytes: bool) -> nat
    decreases n,
{
    if n == 0 {
        0
    } else {
        live(bs, (n - 1) as nat, bytes) + cost(bs[n - 1], bytes)
    }
}

/// A block whose elements fit into it. One that nothing refers to any more is
/// there only while its `drop_fn` runs.
pub open spec fn block_ok<T>(b: Block<T>) -> bool {
    &&& b.header.rc > 0 || b.header.drop_fn is Some
    &&& align_ok(b.header.align as int)
    &&& layout_ok(HEADER_SIZE + b.header.size, b.header.align as int)
    &&& b.payload@.len() * size_of::<T>() <= b.header.size
}

impl<T> Heap<T> {
    /// Whether `p` is the address of a live block.
    pub open spec fn is_live(self, p: usize) -> bool {
        p < self.blocks@.len() && self.blocks@[p as int] is Some
    }

    /// The block at `p`.
    pub open spec fn block(self, p: usize) -> Block<T> {
        self.blocks@[p as int]->Some_0
    }

    /// The bytes of all live blocks.
    pub open spec fn live_bytes(self) -> nat {
        live(self.blocks@, self.blocks@.len(), true)
    }

    /// The number of live blocks.
    pub open spec fn live_count(self) -> nat {
        live(self.blocks@, self.blocks@.len(), false)
    }

    /// A heap whose live blocks are referred to and hold their elements, and
    /// whose allocator has recorded them.
    pub open spec fn wf(self) -> bool {
        &&& forall|p: usize| #[trigger]
            self.is_live(p) ==> block_ok(self.block(p))
        &&& self.live_count() == self.allocator.calls.allocs - self.allocator.calls.frees
        &&& self.allocator.tracking ==> {
            &&& self.allocator.stats.live_bytes == self.live_bytes()
            &&& self.allocator.stats.live_allocations == self.live_count()
            &&& self.allocator.stats.peak_bytes >= self.live_bytes()
        }
    }

    /// A heap without blocks.
    pub fn new(allocator: DynSpireAllocator) -> (r: Heap<T>)
        requires
            allocator == fresh_allocator(allocator.tracking),
        ensures
            r.allocator == allocator,
            r.blocks@.len() == 0,
            r.wf(),
    {
        Heap { allocator, blocks: Vec::new() }
    }

    /// The header of the block at `p`.
    pub fn header_of(&self, p: usize) -> (r: DynSpireHeader)
        requires
            self.is_live(p),
        ensures
            r == self.block(p).header,
    {
        match &self.blocks[p] {
            Some(b) => b.header,
            None => DynSpireHeader { rc: 0, type_index: 0, drop_fn: None, size: 0, align: 0 },
        }
    }
}

proof fn lemma_live_prefix<T>(a: Seq<Option<Block<T>>>, b: Seq<Option<Block<T>>>, n: nat, bytes: bool)
    requires
        n <= a.len(),
        n <= b.len(),
        forall|i: int| 0 <= i < n ==> cost(#[trigger] a[i], bytes) == cost(b[i], bytes),
    ensures
        live(a, n, bytes) == live(b, n, bytes),
    decreases n,
{
    if n > 0 {
        lemma_live_prefix(a, b, (n - 1) as nat, bytes);
        assert(cost(a[n - 1], bytes) == cost(b[n - 1], bytes));
    }
}

proof fn lemma_live_update<T>(a: Seq<Option<Block<T>>>, p: int, x: Option<Block<T>>, n: nat, bytes: bool)
    requires
        0 <= p < n <= a.len(),
    ensures
        live(a.update(p, x), n, bytes) + cost(a[p], bytes) == live(a, n, bytes) + cost(x, bytes),
    decreases n,
{
    let b = a.update(p, x);
    if p < n - 1 {
        lemma_live_update(a, p, x, (n - 1) as nat, bytes);
        assert(b[n - 1] == a[n - 1]);
    } else {
        lemma_live_prefix(a, b, (n - 1) as nat, bytes);
    }
}

proof fn lemma_live_push<T>(a: Seq<Option<Block<T>>>, x: Option<Block<T>>, bytes: bool)
    ensures
        live(a.push(x), a.len() + 1, bytes) == live(a, a.len(), bytes) + cost(x, bytes),
{
    lemma_live_prefix(a, a.push(x), a.len(), bytes);
}

proof fn lemma_live_member<T>(a: Seq<Option<Block<T>>>, p: int, n: nat, bytes: bool)
    requires
        0 <= p < n <= a.len(),
    ensures
        cost(a[p], bytes) <= live(a, n, bytes),
    decreases n,
{
    if p < n - 1 {
        lemma_live_member(a, p, (n - 1) as nat, bytes);
    }
}

proof fn lemma_update_live<T>(a: Seq<Option<Block<T>>>, p: int, x: Option<Block<T>>)
    requires
        0 <= p < a.len(),
    ensures
        live(a.update(p, x), a.len(), true) + cost(a[p], true) == live(a, a.len(), true) + cost(
            x,
            true,
        ),
        live(a.update(p, x), a.len(), false) + cost(a[p], false) == live(a, a.len(), false)
            + cost(x, false),
        cost(a[p], true) <= live(a, a.len(), true),
        cost(a[p], false) <= live(a, a.len(), false),
{
    lemma_live_update(a, p, x, a.len(), true);
    lemma_live_update(a, p, x, a.len(), false);
    lemma_live_member(a, p, a.len(), true);
    lemma_live_member(a, p, a.len(), false);
}

// ---------------------------------------------------------------------------
// Allocation and reference counts
// ---------------------------------------------------------------------------

/// An allocator after a block of `size` bytes, header included, has been made.
pub open spec fn allocator_after_alloc(a: DynSpireAllocator, size: int) -> DynSpireAllocator {
    DynSpireAllocator {
        calls: AllocatorCalls { allocs: (a.calls.allocs + 1) as usize, ..a.calls },
        stats: if a.tracking {
            a.stats.after_alloc(size)
        } else {
            a.stats
        },
        ..a
    }
}

/// An allocator after a block of `size` bytes, header included, has been freed.
pub open spec fn allocator_after_free(a: DynSpireAllocator, size: int) -> DynSpireAllocator {
    DynSpireAllocator {
        calls: AllocatorCalls { frees: (a.calls.frees + 1) as usize, ..a.calls },
        stats: if a.tracking {
            a.stats.after_free(size)
        } else {
            a.stats
        },
        ..a
    }
}

/// An allocator after a block has been resized.
pub open spec fn allocator_after_resize(a: DynSpireAllocator, old_size: int, new_size: int) -> DynSpireAllocator {
    DynSpireAllocator {
        calls: AllocatorCalls { reallocs: next_count(a.calls.reallocs), ..a.calls },
        stats: if a.tracking {
            a.stats.after_resize(old_size, new_size)
        } else {
            a.stats
        },
        ..a
    }
}

/// The heap `b` is the heap `a` without the block at `p`.
pub open spec fn freed<T>(a: Heap<T>, b: Heap<T>, p: usize) -> bool {
    &&& b.blocks@ == a.blocks@.update(p as int, None)
    &&& b.allocator == allocator_after_free(
        a.allocator,
        HEADER_SIZE + a.block(p).header.size,
    )
}

/// The heap `b` is the heap `a` with the reference count `rc` at `p`.
pub open spec fn recounted<T>(a: Heap<T>, b: Heap<T>, p: usize, rc: int) -> bool {
    &&& b.allocator == a.allocator
    &&& b.blocks@.len() == a.blocks@.len()
    &&& forall|i: int| 0 <= i < a.blocks@.len() && i != p ==> #[trigger] b.blocks@[i] == a.blocks@[i]
    &&& b.is_live(p)
    &&& b.block(p).payload == a.block(p).payload
    &&& b.block(p).header == (DynSpireHeader { rc: rc as usize, ..a.block(p).header })
}

/// Whether the counters and addresses of a heap have room for one more block of
/// `size` bytes. An allocator that keeps no report counts no bytes.
pub open spec fn has_room<T>(heap: Heap<T>, size: int) -> bool {
    &&& HEADER_SIZE + size <= usize::MAX
    &&& heap.allocator.tracking ==> heap.allocator.stats.live_bytes + HEADER_SIZE + size
        <= usize::MAX
    &&& heap.allocator.calls.allocs < usize::MAX
    &&& heap.blocks@.len() < usize::MAX
}

/// Makes a block with room for `size` bytes and a count of one, and returns its
/// address; `None` if no memory of that size can be asked for.
pub fn dyn_alloc<T>(
    heap: &mut Heap<T>,
    size: usize,
    align: usize,
    type_index: u32,
    drop_fn: Option<usize>,
) -> (r: Option<usize>)
    requires
        old(heap).wf(),
        align_ok(align as int),
        has_room(*old(heap), size as int),
    ensures
        final(heap).wf(),
        r is Some <==> layout_ok(HEADER_SIZE + size, align as int),
        match r {
            Some(p) => {
                &&& p == old(heap).blocks@.len()
                &&& final(heap).blocks@ == old(heap).blocks@.push(final(heap).blocks@[p as int])
                &&& final(heap).is_live(p)
                &&& final(heap).block(p).header == (DynSpireHeader {
                    rc: 1,
                    type_index,
                    drop_fn,
                    size,
                    align,
                })
                &&& final(heap).block(p).payload@ == Seq::<T>::empty()
                &&& final(heap).allocator == allocator_after_alloc(
                    old(heap).allocator,
                    HEADER_SIZE + size,
                )
            },
            None => *final(heap) == *old(heap),
        },
{
    let total: usize = HEADER_SIZE + size;
    let top: usize = isize::MAX as usize;
    if total > top || align - 1 > top - total {
        return None;
    }
    let header = DynSpireHeader { rc: 1, type_index, drop_fn, size, align };
    let block = Block { header, payload: Vec::new() };
    let p: usize = heap.blocks.len();
    proof {
        lemma_live_push(heap.blocks@, Some(block), true);
        lemma_live_push(heap.blocks@, Some(block), false);
        lemma_live_counts(*heap);
    }
    heap.blocks.push(Some(block));
    heap.allocator.calls.allocs = heap.allocator.calls.allocs + 1;
    if heap.allocator.tracking {
        heap.allocator.stats.record_alloc(total);
    }
    proof {
        assert forall|q: usize| #[trigger] heap.is_live(q) implies block_ok(heap.block(q)) by {
            if q != p {
                assert(old(heap).is_live(q));
            }
        }
    }
    Some(p)
}

proof fn lemma_live_counts<T>(heap: Heap<T>)
    ensures
        heap.live_count() <= heap.blocks@.len(),
{
    lemma_count_bound(heap.blocks@, heap.blocks@.len());
}

proof fn lemma_count_bound<T>(bs: Seq<Option<Block<T>>>, n: nat)
    ensures
        live(bs, n, false) <= n,
    decreases n,
{
    if n > 0 {
        lemma_count_bound(bs, (n - 1) as nat);
    }
}

/// Makes a block without a `drop_fn`.
pub fn dynspire_alloc<T>(heap: &mut Heap<T>, size: usize, align: usize) -> (r: Option<usize>)
    requires
        old(heap).wf(),
        align_ok(align as int),
        has_room(*old(heap), size as int),
    ensures
        final(heap).wf(),
        r is Some <==> layout_ok(HEADER_SIZE + size, align as int),
        match r {
            Some(p) => {
                &&& p == old(heap).blocks@.len()
                &&& final(heap).blocks@ == old(heap).blocks@.push(final(heap).blocks@[p as int])
                &&& final(heap).is_live(p)
                &&& final(heap).block(p).header == (DynSpireHeader {
                    rc: 1,
                    type_index: 0,
                    drop_fn: None,
                    size,
                    align,
                })
                &&& final(heap).block(p).payload@ == Seq::<T>::empty()
                &&& final(heap).allocator == allocator_after_alloc(
                    old(heap).allocator,
                    HEADER_SIZE + size,
                )
            },
            None => *final(heap) == *old(heap),
        },
{
    dyn_alloc(heap, size, align, 0, None)
}

/// Adds one to the count of a block. `None` is passed over.
pub fn dynspire_retain<T>(heap: &mut Heap<T>, ptr: Option<usize>)
    requires
        old(heap).wf(),
        ptr is Some ==> old(heap).is_live(ptr->Some_0) && 0 < old(heap).block(
            ptr->Some_0,
        ).header.rc < usize::MAX,
    ensures
        final(heap).wf(),
        match ptr {
            Some(p) => recounted(
                *old(heap),
                *final(heap),
                p,
                old(heap).block(p).header.rc + 1,
            ),
            None => *final(heap) == *old(heap),
        },
{
    if let Some(p) = ptr {
        let mut slot: Option<Block<T>> = None;
        heap.blocks.set_and_swap(p, &mut slot);
        if let Some(b) = slot {
            let mut b = b;
            b.header.rc = b.header.rc + 1;
            heap.blocks.set(p, Some(b));
        }
        proof {
            let bs = old(heap).blocks@;
            assert(heap.blocks@ =~= bs.update(p as int, heap.blocks@[p as int]));
            lemma_update_live(bs, p as int, heap.blocks@[p as int]);
            assert forall|q: usize| #[trigger] heap.is_live(q) implies block_ok(heap.block(q)) by {
                assert(old(heap).is_live(q));
            }
        }
    }
}

fn remove_block<T>(heap: &mut Heap<T>, p: usize) -> (r: Option<Block<T>>)
    requires
        old(heap).wf(),
        old(heap).is_live(p),
    ensures
        final(heap).wf(),
        freed(*old(heap), *final(heap), p),
        r == Some(old(heap).block(p)),
{
    let mut slot: Option<Block<T>> = None;
    heap.blocks.set_and_swap(p, &mut slot);
    proof {
        lemma_update_live(old(heap).blocks@, p as int, None);
    }
    if let Some(b) = &slot {
        let total: usize = HEADER_SIZE + b.header.size;
        heap.allocator.calls.frees = heap.allocator.calls.frees + 1;
        if heap.allocator.tracking {
            heap.allocator.stats.record_free(total);
        }
    }
    proof {
        assert forall|q: usize| #[trigger] heap.is_live(q) implies block_ok(heap.block(q)) by {
            assert(old(heap).is_live(q));
        }
    }
    slot
}

/// What releasing a block has come to.
#[derive(Clone, Copy, Debug, PartialEq, Eq, Structural)]
pub enum Release {
    /// The block is still referred to, or there was none.
    Kept,
    /// The block has been freed.
    Freed,
    /// Nothing refers to the block any more. It is still there: this `drop_fn`
    /// has to be run on it, and [`finish_release`] called after that.
    RunDrop(usize),
}

/// What releasing the block at `p` comes to.
pub open spec fn release_outcome<T>(a: Heap<T>, p: usize) -> Release {
    if a.block(p).header.rc != 1 {
        Release::Kept
    } else {
        match a.block(p).header.drop_fn {
            Some(f) => Release::RunDrop(f),
            None => Release::Freed,
        }
    }
}

/// The heap `b` is the heap `a` after the block at `p` has been released: its
/// count is one lower, and it is freed if that was the last and no `drop_fn`
/// has to be run on it first.
pub open spec fn released<T>(a: Heap<T>, b: Heap<T>, p: usize) -> bool {
    if release_outcome(a, p) is Freed {
        freed(a, b, p)
    } else {
        recounted(a, b, p, a.block(p).header.rc - 1)
    }
}

/// Takes one from the count of a block. If it was the last, the block is freed,
/// unless a `drop_fn` has to be run on it: then it stays until
/// [`finish_release`]. `None` is passed over.
pub fn dynspire_release<T>(heap: &mut Heap<T>, ptr: Option<usize>) -> (r: Release)
    requires
        old(heap).wf(),
        ptr is Some ==> old(heap).is_live(ptr->Some_0) && old(heap).block(
            ptr->Some_0,
        ).header.rc > 0,
    ensures
        final(heap).wf(),
        match ptr {
            Some(p) => released(*old(heap), *final(heap), p) && r == release_outcome(*old(heap), p),
            None => *final(heap) == *old(heap) && r is Kept,
        },
{
    match ptr {
        Some(p) => {
            let header = heap.header_of(p);
            if header.rc == 1 && header.drop_fn.is_none() {
                let _ = remove_block(heap, p);
                return Release::Freed;
            }
            assert(block_ok(heap.block(p)));
            let mut slot: Option<Block<T>> = None;
            heap.blocks.set_and_swap(p, &mut slot);
            if let Some(b) = slot {
                let mut b = b;
                b.header.rc = b.header.rc - 1;
                heap.blocks.set(p, Some(b));
            }
            proof {
                let bs = old(heap).blocks@;
                assert(heap.blocks@ =~= bs.update(p as int, heap.blocks@[p as int]));
                lemma_update_live(bs, p as int, heap.blocks@[p as int]);
                assert forall|q: usize| #[trigger] heap.is_live(q) implies block_ok(
                    heap.block(q),
                ) by {
                    assert(old(heap).is_live(q));
                }
            }
            match header.drop_fn {
                Some(f) => {
                    if header.rc == 1 {
                        Release::RunDrop(f)
                    } else {
                        Release::Kept
                    }
                },
                None => Release::Kept,
            }
        },
        None => Release::Kept,
    }
}

/// Frees a block that nothing refers to any more, after its `drop_fn` has been
/// run, and hands out what it held.
pub fn finish_release<T>(heap: &mut Heap<T>, p: usize) -> (r: Vec<T>)
    requires
        old(heap).wf(),
        old(heap).is_live(p),
        old(heap).block(p).header.rc == 0,
    ensures
        final(heap).wf(),
        freed(*old(heap), *final(heap), p),
        r == old(heap).block(p).payload,
{
    match remove_block(heap, p) {
        Some(b) => b.payload,
        None => Vec::new(),
    }
}

/// Frees a block of `size` bytes, whatever its count, and runs no `drop_fn`.
/// `None` is passed over.
pub fn dynspire_dealloc<T>(heap: &mut Heap<T>, ptr: Option<usize>, size: usize, align: usize)
    requires
        old(heap).wf(),
        ptr is Some ==> {
            &&& old(heap).is_live(ptr->Some_0)
            &&& old(heap).block(ptr->Some_0).header.size == size
            &&& old(heap).block(ptr->Some_0).header.align == align
        },
    ensures
        final(heap).wf(),
        match ptr {
            Some(p) => freed(*old(heap), *final(heap), p),
            None => *final(heap) == *old(heap),
        },
{
    if let Some(p) = ptr {
        let _ = remove_block(heap, p);
    }
}

/// Frees a block, whatever its count, and hands out what it held without its
/// `drop_fn`. `None` is passed over.
pub fn dynspire_dealloc_only<T>(heap: &mut Heap<T>, ptr: Option<usize>) -> (r: Option<Vec<T>>)
    requires
        old(heap).wf(),
        ptr is Some ==> old(heap).is_live(ptr->Some_0),
    ensures
        final(heap).wf(),
        match ptr {
            Some(p) => freed(*old(heap), *final(heap), p) && r == Some(old(heap).block(p).payload),
            None => *final(heap) == *old(heap) && r is None,
        },
{
    match ptr {
        Some(p) => match remove_block(heap, p) {
            Some(b) => Some(b.payload),
            None => None,
        },
        None => None,
    }
}

/// How many of `len` elements a block of `size` bytes has room for.
pub open spec fn kept_count<T>(len: nat, size: usize) -> nat {
    if len * size_of::<T>() <= size {
        len
    } else {
        size as nat / size_of::<T>()
    }
}

/// The heap `b` is the heap `a` with the block at `p` resized to `size` bytes.
/// Of its elements, those that still fit are kept.
pub open spec fn resized<T>(a: Heap<T>, b: Heap<T>, p: usize, size: usize) -> bool {
    &&& b.allocator == allocator_after_resize(
        a.allocator,
        HEADER_SIZE + a.block(p).header.size,
        HEADER_SIZE + size,
    )
    &&& b.blocks@.len() == a.blocks@.len()
    &&& forall|i: int| 0 <= i < a.blocks@.len() && i != p ==> #[trigger] b.blocks@[i] == a.blocks@[i]
    &&& b.is_live(p)
    &&& b.block(p).payload@ == a.block(p).payload@.take(
        kept_count::<T>(a.block(p).payload@.len(), size) as int,
    )
    &&& b.block(p).header == (DynSpireHeader { size, ..a.block(p).header })
}

fn kept<T>(len: usize, size: usize) -> (r: usize)
    ensures
        r == kept_count::<T>(len as nat, size),
        r <= len,
        r * size_of::<T>() <= size,
{
    let each: usize = core::mem::size_of::<T>();
    let ghost sz = size_of::<T>() as int;
    if each == 0 {
        assert(len * sz == 0) by (nonlinear_arith)
            requires
                sz == 0,
        ;
        return len;
    }
    let most: usize = size / each;
    proof {
        assert(most * sz <= size < (most + 1) * sz) by (nonlinear_arith)
            requires
                sz > 0,
                most == size / each,
                each == sz,
        ;
        assert(len <= most ==> len * sz <= most * sz) by (nonlinear_arith)
            requires
                sz > 0,
        ;
        assert(len > most ==> len * sz >= (most + 1) * sz) by (nonlinear_arith)
            requires
                sz > 0,
        ;
    }
    if len <= most {
        len
    } else {
        most
    }
}

fn resize_block<T>(heap: &mut Heap<T>, p: usize, new_size: usize)
    requires
        old(heap).wf(),
        old(heap).is_live(p),
        layout_ok(HEADER_SIZE + new_size, old(heap).block(p).header.align as int),
        old(heap).allocator.tracking ==> old(heap).live_bytes() - old(heap).block(p).header.size
            + new_size <= usize::MAX,
    ensures
        final(heap).wf(),
        resized(*old(heap), *final(heap), p, new_size),
{
    let old_size: usize = heap.header_of(p).size;
    assert(block_ok(heap.block(p)));
    let mut slot: Option<Block<T>> = None;
    heap.blocks.set_and_swap(p, &mut slot);
    if let Some(b) = slot {
        let mut b = b;
        b.header.size = new_size;
        let n: usize = kept::<T>(b.payload.len(), new_size);
        b.payload.truncate(n);
        heap.blocks.set(p, Some(b));
    }
    proof {
        let bs = old(heap).blocks@;
        assert(heap.blocks@ =~= bs.update(p as int, heap.blocks@[p as int]));
        lemma_update_live(bs, p as int, heap.blocks@[p as int]);
    }
    heap.allocator.calls.reallocs = heap.allocator.calls.reallocs.wrapping_add(1);
    if heap.allocator.tracking {
        heap.allocator.stats.record_resize(HEADER_SIZE + old_size, HEADER_SIZE + new_size);
    }
    proof {
        assert forall|q: usize| #[trigger] heap.is_live(q) implies block_ok(heap.block(q)) by {
            assert(old(heap).is_live(q));
        }
    }
}

/// Resizes a block to `new_size` bytes, and returns its address; `None` in place
/// of a block makes one. What no longer fits into a smaller block is lost. If no
/// memory of that size can be asked for, the result is `None` and nothing
/// changes.
pub fn dynspire_realloc<T>(
    heap: &mut Heap<T>,
    ptr: Option<usize>,
    old_size: usize,
    new_size: usize,
    align: usize,
) -> (r: Option<usize>)
    requires
        old(heap).wf(),
        align_ok(align as int),
        has_room(*old(heap), new_size as int),
        ptr is Some ==> {
            &&& old(heap).is_live(ptr->Some_0)
            &&& old(heap).block(ptr->Some_0).header.size == old_size
            &&& old(heap).block(ptr->Some_0).header.align == align
        },
    ensures
        final(heap).wf(),
        r is Some <==> layout_ok(HEADER_SIZE + new_size, align as int),
        r is None ==> *final(heap) == *old(heap),
        r is Some ==> match ptr {
            Some(p) => r == Some(p) && resized(*old(heap), *final(heap), p, new_size),
            None => {
                &&& r == Some(old(heap).blocks@.len() as usize)
                &&& final(heap).blocks@ == old(heap).blocks@.push(
                    final(heap).blocks@[old(heap).blocks@.len() as int],
                )
                &&& final(heap).is_live(r->Some_0)
                &&& final(heap).block(r->Some_0).header == (DynSpireHeader {
                    rc: 1,
                    type_index: 0,
                    drop_fn: None,
                    size: new_size,
                    align,
                })
                &&& final(heap).block(r->Some_0).payload@ == Seq::<T>::empty()
                &&& final(heap).allocator == allocator_after_alloc(
                    old(heap).allocator,
                    HEADER_SIZE + new_size,
                )
            },
        },
{
    match ptr {
        None => dyn_alloc(heap, new_size, align, 0, None),
        Some(p) => {
            let total: usize = HEADER_SIZE + new_size;
            let top: usize = isize::MAX as usize;
            if total > top || align - 1 > top - total {
                return None;
            }
            resize_block(heap, p, new_size);
            Some(p)
        },
    }
}

/// A release undoes a retain: the blocks and the allocator are as before.
pub proof fn release_undoes_retain<T>(a: Heap<T>, b: Heap<T>, c: Heap<T>, p: usize)
    requires
        a.wf(),
        a.is_live(p),
        0 < a.block(p).header.rc < usize::MAX,
        recounted(a, b, p, a.block(p).header.rc + 1),
        released(b, c, p),
    ensures
        c.blocks@ == a.blocks@,
        c.allocator == a.allocator,
{
    assert(block_ok(a.block(p)));
    assert forall|i: int| 0 <= i < a.blocks@.len() implies c.blocks@[i] == a.blocks@[i] by {
        if i == p {
            assert(c.block(p).header == a.block(p).header);
        } else {
            assert(b.blocks@[i] == a.blocks@[i]);
        }
    }
    assert(c.blocks@ =~= a.blocks@);
}

/// A block with a count of `n` is live through `n - 1` releases, with its
/// elements unchanged, and the next is the last. It frees the block, once, if
/// the block has no `drop_fn`. Else the block is still there, unchanged, for
/// its `drop_fn`, and is freed, once, by what follows.
pub proof fn freed_by_last_release<T>(hs: Seq<Heap<T>>, p: usize, n: nat, end: Heap<T>)
    requires
        n > 0,
        hs.len() == n + 1,
        hs[0].is_live(p),
        hs[0].block(p).header.rc == n,
        forall|i: int| 0 <= i < n ==> released(#[trigger] hs[i], hs[i + 1], p),
        hs[0].block(p).header.drop_fn is Some ==> freed(hs[n as int], end, p),
        hs[0].block(p).header.drop_fn is None ==> end == hs[n as int],
    ensures
        forall|i: int|
            0 <= i < n ==> {
                &&& (#[trigger] hs[i]).is_live(p)
                &&& hs[i].block(p).header.rc == n - i
                &&& hs[i].block(p).payload == hs[0].block(p).payload
                &&& hs[i].allocator == hs[0].allocator
                &&& i < n - 1 ==> release_outcome(hs[i], p) is Kept
            },
        match hs[0].block(p).header.drop_fn {
            Some(f) => {
                &&& release_outcome(hs[n - 1], p) == Release::RunDrop(f)
                &&& hs[n as int].is_live(p)
                &&& hs[n as int].block(p).payload == hs[0].block(p).payload
                &&& hs[n as int].allocator == hs[0].allocator
            },
            None => release_outcome(hs[n - 1], p) is Freed,
        },
        !end.is_live(p),
        end.allocator == allocator_after_free(
            hs[0].allocator,
            HEADER_SIZE + hs[0].block(p).header.size,
        ),
{
    assert forall|i: int| 0 <= i < n implies {
        &&& (#[trigger] hs[i]).is_live(p)
        &&& hs[i].block(p).header == (DynSpireHeader {
            rc: (n - i) as usize,
            ..hs[0].block(p).header
        })
        &&& hs[i].block(p).payload == hs[0].block(p).payload
        &&& hs[i].allocator == hs[0].allocator
    } by {
        lemma_releases(hs, p, n, i as nat);
    }
    lemma_releases(hs, p, n, (n - 1) as nat);
    assert(released(hs[n - 1], hs[n - 1 + 1], p));
}

proof fn lemma_releases<T>(hs: Seq<Heap<T>>, p: usize, n: nat, i: nat)
    requires
        i < n,
        hs.len() == n + 1,
        hs[0].is_live(p),
        hs[0].block(p).header.rc == n,
        forall|k: int| 0 <= k < n ==> released(#[trigger] hs[k], hs[k + 1], p),
    ensures
        hs[i as int].is_live(p),
        hs[i as int].block(p).header == (DynSpireHeader {
            rc: (n - i) as usize,
            ..hs[0].block(p).header
        }),
        hs[i as int].block(p).payload == hs[0].block(p).payload,
        hs[i as int].allocator == hs[0].allocator,
    decreases i,
{
    if i > 0 {
        lemma_releases(hs, p, n, (i - 1) as nat);
        assert(released(hs[i - 1], hs[i - 1 + 1], p));
    }
}

/// The peak never falls and is never below what is live.
pub proof fn peak_never_falls(r: DynSpireAllocatorReport, size: int, new_size: int)
    requires
        0 <= size,
        0 <= new_size,
        r.peak_bytes >= r.live_bytes,
        r.live_bytes + size <= usize::MAX,
    ensures
        r.after_alloc(size).peak_bytes >= r.peak_bytes,
        r.after_alloc(size).peak_bytes >= r.after_alloc(size).live_bytes,
        size <= r.live_bytes ==> r.after_free(size).peak_bytes == r.peak_bytes
            && r.after_free(size).peak_bytes >= r.after_free(size).live_bytes,
        size <= r.live_bytes && r.live_bytes - size + new_size <= usize::MAX ==> {
            &&& r.after_resize(size, new_size).peak_bytes >= r.peak_bytes
            &&& r.after_resize(size, new_size).peak_bytes >= r.after_resize(
                size,
                new_size,
            ).live_bytes
        },
{
}

// ---------------------------------------------------------------------------
// Plain types
// ---------------------------------------------------------------------------

/// Types with a stable layout, for which memory of zeros is a value.
pub trait ReprC: Sized {
    /// The value whose memory is all zeros.
    spec fn zero() -> Self;

    /// The value whose memory is all zeros.
    fn zeroed() -> (r: Self)
        ensures
            r == Self::zero(),
    ;
}

impl ReprC for () {
    open spec fn zero() -> Self {
        ()
    }

    fn zeroed() -> (r: Self) {
        ()
    }
}

impl ReprC for bool {
    open spec fn zero() -> Self {
        false
    }

    fn zeroed() -> (r: Self) {
        false
    }
}

impl ReprC for u8 {
    open spec fn zero() -> Self {
        0
    }

    fn zeroed() -> (r: Self) {
        0
    }
}

impl ReprC for u16 {
    open spec fn zero() -> Self {
        0
    }

    fn zeroed() -> (r: Self) {
        0
    }
}

impl ReprC for u32 {
    open spec fn zero() -> Self {
        0
    }

    fn zeroed() -> (r: Self) {
        0
    }
}

impl ReprC for u64 {
    open spec fn zero() -> Self {
        0
    }

    fn zeroed() -> (r: Self) {
        0
    }
}

impl ReprC for i8 {
    open spec fn zero() -> Self {
        0
    }

    fn zeroed() -> (r: Self) {
        0
    }
}

impl ReprC for i16 {
    open spec fn zero() -> Self {
        0
    }

    fn zeroed() -> (r: Self) {
        0
    }
}

impl ReprC for i32 {
    open spec fn zero() -> Self {
        0
    }

    fn zeroed() -> (r: Self) {
        0
    }
}

impl ReprC for i64 {
    open spec fn zero() -> Self {
        0
    }

    fn zeroed() -> (r: Self) {
        0
    }
}

impl ReprC for usize {
    open spec fn zero() -> Self {
        0
    }

    fn zeroed() -> (r: Self) {
        0
    }
}

impl ReprC for isize {
    open spec fn zero() -> Self {
        0
    }

    fn zeroed() -> (r: Self) {
        0
    }
}

/// An optional value: absent if `tag` is 0.
pub struct DOption<T: ReprC> {
    pub tag: u8,
    pub _pad: [u8; 7],
    pub value: T,
}

/// Padding bytes: all zeros.
pub open spec fn no_pad() -> [u8; 7] {
    [0u8, 0, 0, 0, 0, 0, 0]
}

impl<T: ReprC> DOption<T> {
    /// The option that this value stands for.
    pub open spec fn option(self) -> Option<T> {
        if self.tag == 0 {
            None
        } else {
            Some(self.value)
        }
    }

    /// A present value.
    pub fn some(value: T) -> (r: Self)
        ensures
            r == (DOption { tag: 1, _pad: no_pad(), value }),
    {
        DOption { tag: 1, _pad: [0u8, 0, 0, 0, 0, 0, 0], value }
    }

    /// An absent value.
    pub fn none() -> (r: Self)
        ensures
            r == (DOption { tag: 0, _pad: no_pad(), value: T::zero() }),
    {
        DOption { tag: 0, _pad: [0u8, 0, 0, 0, 0, 0, 0], value: T::zeroed() }
    }
}

impl<T: ReprC> From<Option<T>> for DOption<T> {
    fn from(o: Option<T>) -> (r: Self)
        ensures
            r.option() == o,
            o is Some ==> r.tag == 1,
            o is None ==> r.value == T::zero(),
    {
        match o {
            Some(v) => DOption::some(v),
            None => DOption::none(),
        }
    }
}

impl<T: ReprC> vstd::std_specs::convert::FromSpecImpl<Option<T>> for DOption<T> {
    open spec fn obeys_from_spec() -> bool {
        true
    }

    open spec fn from_spec(o: Option<T>) -> Self {
        match o {
            Some(v) => DOption { tag: 1, _pad: no_pad(), value: v },
            None => DOption { tag: 0, _pad: no_pad(), value: T::zero() },
        }
    }
}

/// A view of bytes of a text; `None` stands for no address.
#[derive(Clone, Copy)]
pub struct DStr<'a> {
    pub ptr: Option<&'a [u8]>,
    pub len: usize,
}

impl<'a> DStr<'a> {
    /// The bytes in view.
    pub open spec fn bytes(self) -> Seq<u8> {
        match self.ptr {
            Some(s) => s@.take(self.len as int),
            None => Seq::empty(),
        }
    }

    /// A view that does not reach beyond the bytes at its address.
    pub open spec fn wf(self) -> bool {
        self.ptr is Some ==> self.len <= self.ptr->Some_0@.len()
    }

    /// Number of bytes.
    pub fn len(&self) -> (r: usize)
        ensures
            r == self.len,
    {
        self.len
    }

    /// Whether the view is empty.
    pub fn is_empty(&self) -> (r: bool)
        ensures
            r == (self.len == 0),
    {
        self.len == 0
    }

    /// The text in view.
    pub fn as_str(&self) -> (r: &'a str)
        requires
            self.wf(),
            valid_utf8(self.bytes()),
        ensures
            encode_utf8(r@) == self.bytes(),
    {
        let none: &'a str = "";
        proof {
            reveal_strlit("");
            assert(none@ =~= Seq::empty());
            assert(encode_utf8(none@) =~= Seq::empty());
        }
        match self.ptr {
            Some(b) => {
                let view = vstd::slice::slice_subrange(b, 0, self.len);
                assert(view@ =~= self.bytes());
                match utf8_str(view) {
                    Some(s) => s,
                    None => none,
                }
            },
            None => none,
        }
    }
}

/// A view of elements; `None` stands for no address.
pub struct DSlice<'a, T: ReprC> {
    pub ptr: Option<&'a [T]>,
    pub len: usize,
}

impl<'a, T: ReprC> DSlice<'a, T> {
    /// The elements in view.
    pub open spec fn items(self) -> Seq<T> {
        match self.ptr {
            Some(s) => s@.take(self.len as int),
            None => Seq::empty(),
        }
    }

    /// A view that does not reach beyond the elements at its address.
    pub open spec fn wf(self) -> bool {
        self.ptr is Some ==> self.len <= self.ptr->Some_0@.len()
    }

    /// Number of elements.
    pub fn len(&self) -> (r: usize)
        ensures
            r == self.len,
    {
        self.len
    }

    /// Whether the view is empty.
    pub fn is_empty(&self) -> (r: bool)
        ensures
            r == (self.len == 0),
    {
        self.len == 0
    }

    /// The elements in view.
    pub fn as_slice(&self) -> (r: &'a [T])
        requires
            self.wf(),
        ensures
            r@ == self.items(),
    {
        match self.ptr {
            Some(b) => {
                let view = vstd::slice::slice_subrange(b, 0, self.len);
                assert(view@ =~= self.items());
                view
            },
            None => {
                let none: &'a [T] = &[];
                assert(none@ =~= Seq::empty());
                none
            },
        }
    }
}

// ---------------------------------------------------------------------------
// Owned vectors
// ---------------------------------------------------------------------------

/// A vector whose elements are in a block. Several vectors may share one.
pub struct DVec<T: ReprC> {
    pub ptr: Option<usize>,
    pub len: usize,
    pub cap: usize,
    pub of: core::marker::PhantomData<T>,
}

/// The capacity of a full vector of capacity `cap` after one more push.
pub open spec fn grown(cap: int) -> int {
    if cap == 0 {
        4
    } else {
        2 * cap
    }
}

/// Whether a block with room for `cap` elements can be made.
pub open spec fn fits_in<T>(heap: Heap<T>, cap: int) -> bool {
    &&& align_ok(align_of::<T>() as int)
    &&& layout_ok(HEADER_SIZE + cap * size_of::<T>(), align_of::<T>() as int)
    &&& has_room(heap, cap * size_of::<T>())
}

/// Whether a block with room for `cap` elements can be made.
pub fn can_hold<T>(heap: &Heap<T>, cap: usize) -> (r: bool)
    ensures
        r == fits_in(*heap, cap as int),
{
    let align: usize = core::mem::align_of::<T>();
    if !(align == 1 || align == 2 || align == 4 || align == 8 || align == 16 || align == 32) {
        return false;
    }
    let each: usize = core::mem::size_of::<T>();
    assert(cap * each == cap * size_of::<T>()) by (nonlinear_arith)
        requires
            each == size_of::<T>(),
    ;
    let top: usize = isize::MAX as usize;
    match cap.checked_mul(each) {
        None => false,
        Some(size) => {
            if size > top - HEADER_SIZE || align - 1 > top - HEADER_SIZE - size {
                return false;
            }
            let total: usize = HEADER_SIZE + size;
            if heap.allocator.tracking && heap.allocator.stats.live_bytes > usize::MAX - total {
                return false;
            }
            heap.allocator.calls.allocs < usize::MAX && heap.blocks.len() < usize::MAX
        },
    }
}

/// The count of the block at `ptr`; where there is none, its one owner is all
/// there is.
pub open spec fn count_at<T>(heap: Heap<T>, ptr: Option<usize>) -> usize {
    match ptr {
        Some(p) => heap.block(p).header.rc,
        None => 1,
    }
}

/// The heap `b` is the heap `a` after what is at `ptr` has been retained.
pub open spec fn retained_at<T>(a: Heap<T>, b: Heap<T>, ptr: Option<usize>) -> bool {
    match ptr {
        Some(p) => recounted(a, b, p, a.block(p).header.rc + 1),
        None => b == a,
    }
}

/// The heap `b` is the heap `a` after what is at `ptr` has been released.
pub open spec fn released_at<T>(a: Heap<T>, b: Heap<T>, ptr: Option<usize>) -> bool {
    match ptr {
        Some(p) => released(a, b, p),
        None => b == a,
    }
}

/// The heaps hold the same blocks but for the one at `p`.
pub open spec fn same_but<T>(a: Heap<T>, b: Heap<T>, p: usize) -> bool {
    &&& b.blocks@.len() == a.blocks@.len()
    &&& forall|i: int| 0 <= i < a.blocks@.len() && i != p ==> #[trigger] b.blocks@[i] == a.blocks@[i]
}

impl<T: ReprC> DVec<T> {
    /// Whether this is a vector in `heap`: its block has room for `cap` elements,
    /// holds `len`, and is freed without a `drop_fn`. A vector without a block
    /// is empty.
    pub open spec fn lives_in(self, heap: Heap<T>) -> bool {
        match self.ptr {
            Some(p) => {
                &&& heap.is_live(p)
                &&& heap.block(p).header.size == self.cap * size_of::<T>()
                &&& heap.block(p).header.align == align_of::<T>()
                &&& heap.block(p).header.drop_fn is None
                &&& heap.block(p).payload@.len() == self.len
                &&& self.len <= self.cap
            },
            None => self.len == 0 && self.cap == 0,
        }
    }

    /// The block of the vector.
    pub open spec fn block(self, heap: Heap<T>) -> Block<T> {
        heap.block(self.ptr->Some_0)
    }

    /// The elements of the vector.
    pub open spec fn items(self, heap: Heap<T>) -> Seq<T> {
        match self.ptr {
            Some(p) => heap.block(p).payload@,
            None => Seq::empty(),
        }
    }

    /// An empty vector with room for `cap` elements.
    pub fn new_in(heap: &mut Heap<T>, cap: usize) -> (r: DVec<T>)
        requires
            old(heap).wf(),
            fits_in(*old(heap), cap as int),
        ensures
            final(heap).wf(),
            r.lives_in(*final(heap)),
            r.ptr == Some(old(heap).blocks@.len() as usize),
            r.len == 0,
            r.cap == cap,
            r.block(*final(heap)).header.rc == 1,
            r.items(*final(heap)) == Seq::<T>::empty(),
            final(heap).blocks@.len() == old(heap).blocks@.len() + 1,
            final(heap).blocks@.take(old(heap).blocks@.len() as int) == old(heap).blocks@,
            final(heap).allocator == allocator_after_alloc(
                old(heap).allocator,
                HEADER_SIZE + cap * size_of::<T>(),
            ),
    {
        let each: usize = core::mem::size_of::<T>();
        assert(cap * each == cap * size_of::<T>()) by (nonlinear_arith)
            requires
                each == size_of::<T>(),
        ;
        let size: usize = cap * each;
        let align: usize = core::mem::align_of::<T>();
        let ptr = dynspire_alloc(heap, size, align);
        assert(heap.blocks@.take(old(heap).blocks@.len() as int) =~= old(heap).blocks@);
        DVec { ptr, len: 0, cap, of: core::marker::PhantomData }
    }

    /// Appends `value`. A full vector first grows to four elements, or to twice
    /// its capacity; one without a block gets a block.
    pub fn push(&mut self, heap: &mut Heap<T>, value: T)
        requires
            old(heap).wf(),
            old(self).lives_in(*old(heap)),
            count_at(*old(heap), old(self).ptr) == 1,
            old(self).len == old(self).cap ==> fits_in(*old(heap), grown(old(self).cap as int))
                && grown(old(self).cap as int) <= usize::MAX,
        ensures
            final(heap).wf(),
            final(self).lives_in(*final(heap)),
            final(self).ptr == match old(self).ptr {
                Some(p) => Some(p),
                None => Some(old(heap).blocks@.len() as usize),
            },
            final(self).len == old(self).len + 1,
            final(self).cap == if old(self).len == old(self).cap {
                grown(old(self).cap as int)
            } else {
                old(self).cap as int
            },
            final(self).items(*final(heap)) == old(self).items(*old(heap)).push(value),
            final(self).block(*final(heap)).header.rc == 1,
            match old(self).ptr {
                Some(p) => same_but(*old(heap), *final(heap), p),
                None => {
                    &&& final(heap).blocks@.len() == old(heap).blocks@.len() + 1
                    &&& final(heap).blocks@.drop_last() == old(heap).blocks@
                },
            },
            final(heap).allocator == if old(self).len < old(self).cap {
                old(heap).allocator
            } else {
                match old(self).ptr {
                    Some(_) => allocator_after_resize(
                        old(heap).allocator,
                        HEADER_SIZE + old(self).cap * size_of::<T>(),
                        HEADER_SIZE + grown(old(self).cap as int) * size_of::<T>(),
                    ),
                    None => allocator_after_alloc(
                        old(heap).allocator,
                        HEADER_SIZE + 4 * size_of::<T>(),
                    ),
                }
            },
    {
        if self.len == self.cap {
            let new_cap: usize = if self.cap == 0 {
                4
            } else {
                self.cap * 2
            };
            let each: usize = core::mem::size_of::<T>();
            let ghost sz = size_of::<T>() as int;
            proof {
                assert(new_cap * each == grown(self.cap as int) * sz) by (nonlinear_arith)
                    requires
                        each == sz,
                        new_cap == grown(self.cap as int),
                ;
                assert(self.len * each == self.cap * sz) by (nonlinear_arith)
                    requires
                        each == sz,
                        self.len == self.cap,
                ;
                assert(self.cap * sz <= grown(self.cap as int) * sz) by (nonlinear_arith)
                    requires
                        self.cap <= grown(self.cap as int),
                        sz >= 0,
                ;
                if let Some(p) = self.ptr {
                    lemma_live_member(heap.blocks@, p as int, heap.blocks@.len(), true);
                }
            }
            let old_size: usize = self.len * each;
            let new_size: usize = new_cap * each;
            let ghost held = self.items(*heap);
            assert(held.take(held.len() as int) =~= held);
            let align: usize = core::mem::align_of::<T>();
            self.ptr = dynspire_realloc(heap, self.ptr, old_size, new_size, align);
            self.cap = new_cap;
        }
        let p: usize = match self.ptr {
            Some(p) => p,
            None => 0,
        };
        put_item(heap, p, value, self.cap);
        self.len = self.len + 1;
    }

    /// The reference count of the block; 1 if there is none.
    pub fn rc(&self, heap: &Heap<T>) -> (r: usize)
        requires
            self.lives_in(*heap),
        ensures
            r == count_at(*heap, self.ptr),
    {
        match self.ptr {
            Some(p) => heap.header_of(p).rc,
            None => 1,
        }
    }

    /// Number of elements.
    pub fn len(&self) -> (r: usize)
        ensures
            r == self.len,
    {
        self.len
    }

    /// Whether the vector is empty.
    pub fn is_empty(&self) -> (r: bool)
        ensures
            r == (self.len == 0),
    {
        self.len == 0
    }

    /// The elements.
    pub fn as_slice<'a>(&self, heap: &'a Heap<T>) -> (r: &'a [T])
        requires
            self.lives_in(*heap),
        ensures
            r@ == self.items(*heap),
    {
        let none: &'a [T] = &[];
        match self.ptr {
            Some(p) => match &heap.blocks[p] {
                Some(b) => b.payload.as_slice(),
                None => none,
            },
            None => none,
        }
    }

    /// The address of the block.
    pub fn as_ptr(&self) -> (r: Option<usize>)
        ensures
            r == self.ptr,
    {
        self.ptr
    }

    /// The vector as it crosses the boundary: the count is not touched.
    pub fn into_raw(self) -> (r: DVec<T>)
        ensures
            r == self,
    {
        self
    }

    /// The vector that has crossed the boundary: the count is not touched.
    pub fn from_raw(raw: DVec<T>) -> (r: DVec<T>)
        ensures
            r == raw,
    {
        raw
    }

    /// Another vector on the same block, which is retained if there is one.
    pub fn clone_in(&self, heap: &mut Heap<T>) -> (r: DVec<T>)
        requires
            old(heap).wf(),
            self.lives_in(*old(heap)),
            count_at(*old(heap), self.ptr) < usize::MAX,
        ensures
            final(heap).wf(),
            r.ptr == self.ptr && r.len == self.len && r.cap == self.cap,
            r.lives_in(*final(heap)),
            self.lives_in(*final(heap)),
            retained_at(*old(heap), *final(heap), self.ptr),
    {
        proof {
            if let Some(p) = self.ptr {
                assert(block_ok(heap.block(p)));
            }
        }
        dynspire_retain(heap, self.ptr);
        DVec { ptr: self.ptr, len: self.len, cap: self.cap, of: core::marker::PhantomData }
    }

    /// Gives the vector up: its block, if it has one, is released.
    pub fn drop_in(self, heap: &mut Heap<T>)
        requires
            old(heap).wf(),
            self.lives_in(*old(heap)),
        ensures
            final(heap).wf(),
            released_at(*old(heap), *final(heap), self.ptr),
    {
        proof {
            if let Some(p) = self.ptr {
                assert(block_ok(heap.block(p)));
            }
        }
        let _ = dynspire_release(heap, self.ptr);
    }

    /// A vector of the elements of `v`.
    pub fn from_vec(heap: &mut Heap<T>, v: Vec<T>) -> (r: DVec<T>)
        requires
            old(heap).wf(),
            fits_in(*old(heap), v@.len() as int),
        ensures
            final(heap).wf(),
            r.lives_in(*final(heap)),
            r.ptr == Some(old(heap).blocks@.len() as usize),
            r.len == v@.len(),
            r.cap == v@.len(),
            r.block(*final(heap)).header.rc == 1,
            r.items(*final(heap)) == v@,
            final(heap).blocks@.len() == old(heap).blocks@.len() + 1,
            final(heap).blocks@.take(old(heap).blocks@.len() as int) == old(heap).blocks@,
    {
        let len: usize = v.len();
        let mut r = DVec::new_in(heap, len);
        if let Some(p) = r.ptr {
            put_items(heap, p, v, len);
            r.len = len;
        }
        assert(heap.blocks@.take(old(heap).blocks@.len() as int) =~= old(heap).blocks@);
        r
    }
}

fn put_item<T>(heap: &mut Heap<T>, p: usize, value: T, cap: usize)
    requires
        old(heap).wf(),
        old(heap).is_live(p),
        old(heap).block(p).header.size == cap * size_of::<T>(),
        old(heap).block(p).payload@.len() < cap,
    ensures
        final(heap).wf(),
        same_but(*old(heap), *final(heap), p),
        final(heap).allocator == old(heap).allocator,
        final(heap).is_live(p),
        final(heap).block(p).header == old(heap).block(p).header,
        final(heap).block(p).payload@ == old(heap).block(p).payload@.push(value),
{
    assert(block_ok(heap.block(p)));
    let mut slot: Option<Block<T>> = None;
    heap.blocks.set_and_swap(p, &mut slot);
    if let Some(b) = slot {
        let mut b = b;
        b.payload.push(value);
        heap.blocks.set(p, Some(b));
    }
    proof {
        let bs = old(heap).blocks@;
        assert(heap.blocks@ =~= bs.update(p as int, heap.blocks@[p as int]));
        lemma_update_live(bs, p as int, heap.blocks@[p as int]);
        let n = heap.block(p).payload@.len() as int;
        let sz = size_of::<T>() as int;
        assert(n * sz <= cap * sz) by (nonlinear_arith)
            requires
                n <= cap,
                sz >= 0,
        ;
        assert forall|q: usize| #[trigger] heap.is_live(q) implies block_ok(heap.block(q)) by {
            assert(old(heap).is_live(q));
        }
    }
}

fn put_items<T>(heap: &mut Heap<T>, p: usize, items: Vec<T>, cap: usize)
    requires
        old(heap).wf(),
        old(heap).is_live(p),
        old(heap).block(p).header.size == cap * size_of::<T>(),
        items@.len() <= cap,
    ensures
        final(heap).wf(),
        same_but(*old(heap), *final(heap), p),
        final(heap).allocator == old(heap).allocator,
        final(heap).is_live(p),
        final(heap).block(p).header == old(heap).block(p).header,
        final(heap).block(p).payload@ == items@,
{
    assert(block_ok(heap.block(p)));
    let ghost n = items@.len() as int;
    let mut slot: Option<Block<T>> = None;
    heap.blocks.set_and_swap(p, &mut slot);
    if let Some(b) = slot {
        heap.blocks.set(p, Some(Block { header: b.header, payload: items }));
    }
    proof {
        let bs = old(heap).blocks@;
        assert(heap.blocks@ =~= bs.update(p as int, heap.blocks@[p as int]));
        lemma_update_live(bs, p as int, heap.blocks@[p as int]);
        let sz = size_of::<T>() as int;
        assert(n * sz <= cap * sz) by (nonlinear_arith)
            requires
                n <= cap,
                sz >= 0,
        ;
        assert forall|q: usize| #[trigger] heap.is_live(q) implies block_ok(heap.block(q)) by {
            assert(old(heap).is_live(q));
        }
    }
}

/// A clone shares the elements, and the two are given up in turn: the first
/// leaves the elements to the other, the second frees the block. Without a
/// block there is nothing to free.
pub proof fn shared_elements_outlive_one_owner<T: ReprC>(
    v: DVec<T>,
    a: Heap<T>,
    b: Heap<T>,
    c: Heap<T>,
    d: Heap<T>,
)
    requires
        a.wf(),
        v.lives_in(a),
        count_at(a, v.ptr) == 1,
        retained_at(a, b, v.ptr),
        released_at(b, c, v.ptr),
        released_at(c, d, v.ptr),
    ensures
        v.lives_in(c),
        v.items(c) == v.items(a),
        count_at(c, v.ptr) == 1,
        match v.ptr {
            Some(p) => !d.is_live(p) && d.allocator.calls.frees == (a.allocator.calls.frees
                + 1) as usize,
            None => d == a,
        },
{
}

// ---------------------------------------------------------------------------
// Owned texts
// ---------------------------------------------------------------------------

/// A text whose bytes are in a block. Several texts may share one.
pub struct DString {
    pub ptr: Option<usize>,
    pub len: usize,
    pub cap: usize,
}

impl ReprC for DString {
    open spec fn zero() -> Self {
        DString { ptr: None, len: 0, cap: 0 }
    }

    fn zeroed() -> (r: Self) {
        DString { ptr: None, len: 0, cap: 0 }
    }
}

impl<T: ReprC> ReprC for DVec<T> {
    open spec fn zero() -> Self {
        DVec { ptr: None, len: 0, cap: 0, of: core::marker::PhantomData }
    }

    fn zeroed() -> (r: Self) {
        DVec { ptr: None, len: 0, cap: 0, of: core::marker::PhantomData }
    }
}

impl<T: ReprC> ReprC for DOption<T> {
    open spec fn zero() -> Self {
        DOption { tag: 0, _pad: no_pad(), value: T::zero() }
    }

    fn zeroed() -> (r: Self) {
        DOption::none()
    }
}

impl<'a> ReprC for DStr<'a> {
    open spec fn zero() -> Self {
        DStr { ptr: None, len: 0 }
    }

    fn zeroed() -> (r: Self) {
        DStr { ptr: None, len: 0 }
    }
}

impl<'a, T: ReprC> ReprC for DSlice<'a, T> {
    open spec fn zero() -> Self {
        DSlice { ptr: None, len: 0 }
    }

    fn zeroed() -> (r: Self) {
        DSlice { ptr: None, len: 0 }
    }
}

/// Whether `a` comes before `b`: at the first byte in which they differ, or
/// because it is a beginning of `b`.
pub open spec fn bytes_before(a: Seq<u8>, b: Seq<u8>) -> bool
    decreases a.len(),
{
    if a.len() == 0 || b.len() == 0 {
        a.len() < b.len()
    } else if a[0] != b[0] {
        a[0] < b[0]
    } else {
        bytes_before(a.drop_first(), b.drop_first())
    }
}

fn equal_bytes(a: &[u8], b: &[u8]) -> (r: bool)
    ensures
        r == (a@ == b@),
{
    if a.len() != b.len() {
        return false;
    }
    let mut i: usize = 0;
    while i < a.len()
        invariant
            i <= a.len(),
            a.len() == b.len(),
            forall|k: int| 0 <= k < i ==> #[trigger] a@[k] == b@[k],
        decreases a.len() - i,
    {
        if a[i] != b[i] {
            assert(a@[i as int] != b@[i as int]);
            return false;
        }
        i = i + 1;
    }
    assert(a@ =~= b@);
    true
}

fn less_bytes(a: &[u8], b: &[u8]) -> (r: bool)
    ensures
        r == bytes_before(a@, b@),
{
    let mut i: usize = 0;
    assert(a@.skip(0) =~= a@);
    assert(b@.skip(0) =~= b@);
    while i < a.len() && i < b.len()
        invariant
            i <= a.len(),
            i <= b.len(),
            bytes_before(a@, b@) == bytes_before(a@.skip(i as int), b@.skip(i as int)),
        decreases a.len() - i,
    {
        assert(a@.skip(i as int).drop_first() =~= a@.skip(i + 1));
        assert(b@.skip(i as int).drop_first() =~= b@.skip(i + 1));
        if a[i] != b[i] {
            return a[i] < b[i];
        }
        i = i + 1;
    }
    i < b.len()
}

/// Whether the type says what its `==` means.
pub open spec fn has_equality<T: PartialEq>() -> bool {
    T::obeys_eq_spec()
}

/// Whether the type says how its values are ordered.
pub open spec fn has_order<T: PartialOrd>() -> bool {
    T::obeys_partial_cmp_spec()
}

/// Whether `a` and `b` hold equal elements in the same order.
pub open spec fn equal_items<T: PartialEq>(a: Seq<T>, b: Seq<T>) -> bool {
    &&& a.len() == b.len()
    &&& forall|i: int| 0 <= i < a.len() ==> (#[trigger] a[i]).eq_spec(&b[i])
}

/// Whether neither of `x` and `y` comes before the other.
pub open spec fn ties<T: PartialOrd>(x: T, y: T) -> bool {
    x.partial_cmp_spec(&y) == Some(core::cmp::Ordering::Equal)
}

/// Whether `x` comes before `y`.
pub open spec fn precedes<T: PartialOrd>(x: T, y: T) -> bool {
    x.partial_cmp_spec(&y) == Some(core::cmp::Ordering::Less)
}

/// Whether `a` comes before `b`: at the first element at which they do not tie,
/// or because `b` goes on behind it.
pub open spec fn items_before<T: PartialOrd>(a: Seq<T>, b: Seq<T>) -> bool
    decreases a.len(),
{
    if a.len() == 0 || b.len() == 0 {
        a.len() < b.len()
    } else if !ties(a[0], b[0]) {
        precedes(a[0], b[0])
    } else {
        items_before(a.drop_first(), b.drop_first())
    }
}

/// Whether `x` comes before `y`; `None` if they tie.
fn ahead<T: PartialOrd>(x: &T, y: &T) -> (r: Option<bool>)
    ensures
        has_order::<T>() ==> r == if ties(*x, *y) {
            None
        } else {
            Some(precedes(*x, *y))
        },
{
    match x.partial_cmp(y) {
        Some(core::cmp::Ordering::Equal) => None,
        Some(core::cmp::Ordering::Less) => Some(true),
        _ => Some(false),
    }
}

fn all_equal<T: PartialEq>(a: &[T], b: &[T]) -> (r: bool)
    ensures
        has_equality::<T>() ==> r == equal_items(a@, b@),
        a@.len() != b@.len() ==> !r,
{
    if a.len() != b.len() {
        return false;
    }
    let mut i: usize = 0;
    while i < a.len()
        invariant
            i <= a.len(),
            a.len() == b.len(),
            has_equality::<T>() ==> forall|k: int|
                0 <= k < i ==> (#[trigger] a@[k]).eq_spec(&b@[k]),
        decreases a.len() - i,
    {
        if !(a[i] == b[i]) {
            assert(has_equality::<T>() ==> !a@[i as int].eq_spec(&b@[i as int]));
            return false;
        }
        i = i + 1;
    }
    true
}

fn first_less<T: PartialOrd>(a: &[T], b: &[T]) -> (r: bool)
    ensures
        has_order::<T>() ==> r == items_before(a@, b@),
{
    let mut i: usize = 0;
    assert(a@.skip(0) =~= a@);
    assert(b@.skip(0) =~= b@);
    while i < a.len() && i < b.len()
        invariant
            i <= a.len(),
            i <= b.len(),
            has_order::<T>() ==> items_before(a@, b@) == items_before(
                a@.skip(i as int),
                b@.skip(i as int),
            ),
        decreases a.len() - i,
    {
        assert(a@.skip(i as int).drop_first() =~= a@.skip(i + 1));
        assert(b@.skip(i as int).drop_first() =~= b@.skip(i + 1));
        if let Some(less) = ahead(&a[i], &b[i]) {
            return less;
        }
        i = i + 1;
    }
    i < b.len()
}

impl<T: ReprC + PartialEq> DVec<T> {
    /// Whether two vectors hold equal elements, wherever they are.
    pub fn eq_in(&self, other: &DVec<T>, heap: &Heap<T>) -> (r: bool)
        requires
            self.lives_in(*heap),
            other.lives_in(*heap),
        ensures
            has_equality::<T>() ==> r == equal_items(self.items(*heap), other.items(*heap)),
            self.len != other.len ==> !r,
    {
        all_equal(self.as_slice(heap), other.as_slice(heap))
    }
}

impl<T: ReprC + PartialOrd> DVec<T> {
    /// Whether the elements of this vector come before those of another.
    pub fn lt_in(&self, other: &DVec<T>, heap: &Heap<T>) -> (r: bool)
        requires
            self.lives_in(*heap),
            other.lives_in(*heap),
        ensures
            has_order::<T>() ==> r == items_before(self.items(*heap), other.items(*heap)),
    {
        first_less(self.as_slice(heap), other.as_slice(heap))
    }
}

impl DString {
    /// Whether this is a text in `heap`: its block holds `len` bytes of UTF-8, and
    /// is freed without a `drop_fn`. A text without a block is empty.
    pub open spec fn lives_in(self, heap: Heap<u8>) -> bool {
        match self.ptr {
            Some(p) => {
                &&& heap.is_live(p)
                &&& heap.block(p).header.size == self.cap
                &&& heap.block(p).header.drop_fn is None
                &&& heap.block(p).payload@.len() == self.len
                &&& self.len <= self.cap
                &&& valid_utf8(self.bytes(heap))
            },
            None => self.len == 0 && self.cap == 0,
        }
    }

    /// The block of the text.
    pub open spec fn block(self, heap: Heap<u8>) -> Block<u8> {
        heap.block(self.ptr->Some_0)
    }

    /// The bytes of the text.
    pub open spec fn bytes(self, heap: Heap<u8>) -> Seq<u8> {
        match self.ptr {
            Some(p) => heap.block(p).payload@,
            None => Seq::empty(),
        }
    }

    /// A text that holds `s`.
    pub fn new_in(heap: &mut Heap<u8>, s: &str) -> (r: DString)
        requires
            old(heap).wf(),
            layout_ok(HEADER_SIZE + encode_utf8(s@).len(), 1),
            has_room(*old(heap), encode_utf8(s@).len() as int),
        ensures
            final(heap).wf(),
            r.lives_in(*final(heap)),
            r.ptr == Some(old(heap).blocks@.len() as usize),
            r.len == encode_utf8(s@).len(),
            r.cap == r.len,
            r.bytes(*final(heap)) == encode_utf8(s@),
            r.block(*final(heap)).header.rc == 1,
            final(heap).blocks@.len() == old(heap).blocks@.len() + 1,
            final(heap).blocks@.take(old(heap).blocks@.len() as int) == old(heap).blocks@,
            final(heap).allocator == allocator_after_alloc(
                old(heap).allocator,
                HEADER_SIZE + encode_utf8(s@).len(),
            ),
    {
        broadcast use vstd::layout::layout_of_primitives;

        let bytes = copy_bytes(s.as_bytes());
        let len: usize = bytes.len();
        let ptr = dynspire_alloc(heap, len, 1);
        if let Some(p) = ptr {
            assert(len * size_of::<u8>() == len) by (nonlinear_arith)
                requires
                    size_of::<u8>() == 1,
            ;
            put_items(heap, p, bytes, len);
        }
        assert(heap.blocks@.take(old(heap).blocks@.len() as int) =~= old(heap).blocks@);
        proof {
            vstd::utf8::encode_utf8_valid_utf8(s@);
        }
        DString { ptr, len, cap: len }
    }

    /// Number of bytes.
    pub fn len(&self) -> (r: usize)
        ensures
            r == self.len,
    {
        self.len
    }

    /// Whether the text is empty.
    pub fn is_empty(&self) -> (r: bool)
        ensures
            r == (self.len == 0),
    {
        self.len == 0
    }

    /// The bytes of the text.
    pub fn as_bytes<'a>(&self, heap: &'a Heap<u8>) -> (r: &'a [u8])
        requires
            self.lives_in(*heap),
        ensures
            r@ == self.bytes(*heap),
    {
        let none: &'a [u8] = &[];
        match self.ptr {
            Some(p) => match &heap.blocks[p] {
                Some(b) => b.payload.as_slice(),
                None => none,
            },
            None => none,
        }
    }

    /// The text.
    pub fn as_str<'a>(&self, heap: &'a Heap<u8>) -> (r: &'a str)
        requires
            self.lives_in(*heap),
        ensures
            encode_utf8(r@) == self.bytes(*heap),
    {
        match utf8_str(self.as_bytes(heap)) {
            Some(s) => s,
            None => "",
        }
    }

    /// The address of the block.
    pub fn as_ptr(&self) -> (r: Option<usize>)
        ensures
            r == self.ptr,
    {
        self.ptr
    }

    /// The reference count of the block; 1 if there is none.
    pub fn rc(&self, heap: &Heap<u8>) -> (r: usize)
        requires
            self.lives_in(*heap),
        ensures
            r == count_at(*heap, self.ptr),
    {
        match self.ptr {
            Some(p) => heap.header_of(p).rc,
            None => 1,
        }
    }

    /// The text as it crosses the boundary: the count is not touched.
    pub fn into_raw(self) -> (r: DString)
        ensures
            r == self,
    {
        self
    }

    /// The text that has crossed the boundary: the count is not touched.
    pub fn from_raw(raw: DString) -> (r: DString)
        ensures
            r == raw,
    {
        raw
    }

    /// Another text on the same block, which is retained if there is one.
    pub fn clone_in(&self, heap: &mut Heap<u8>) -> (r: DString)
        requires
            old(heap).wf(),
            self.lives_in(*old(heap)),
            count_at(*old(heap), self.ptr) < usize::MAX,
        ensures
            final(heap).wf(),
            r == *self,
            r.lives_in(*final(heap)),
            retained_at(*old(heap), *final(heap), self.ptr),
    {
        proof {
            if let Some(p) = self.ptr {
                assert(block_ok(heap.block(p)));
            }
        }
        dynspire_retain(heap, self.ptr);
        DString { ptr: self.ptr, len: self.len, cap: self.cap }
    }

    /// Gives the text up: its block, if it has one, is released.
    pub fn drop_in(self, heap: &mut Heap<u8>)
        requires
            old(heap).wf(),
            self.lives_in(*old(heap)),
        ensures
            final(heap).wf(),
            released_at(*old(heap), *final(heap), self.ptr),
    {
        proof {
            if let Some(p) = self.ptr {
                assert(block_ok(heap.block(p)));
            }
        }
        let _ = dynspire_release(heap, self.ptr);
    }

    /// Whether two texts are the same, wherever they are.
    pub fn eq_in(&self, other: &DString, heap: &Heap<u8>) -> (r: bool)
        requires
            self.lives_in(*heap),
            other.lives_in(*heap),
        ensures
            r == (self.bytes(*heap) == other.bytes(*heap)),
    {
        equal_bytes(self.as_bytes(heap), other.as_bytes(heap))
    }

    /// Whether this text comes before another.
    pub fn lt_in(&self, other: &DString, heap: &Heap<u8>) -> (r: bool)
        requires
            self.lives_in(*heap),
            other.lives_in(*heap),
        ensures
            r == bytes_before(self.bytes(*heap), other.bytes(*heap)),
    {
        less_bytes(self.as_bytes(heap), other.as_bytes(heap))
    }
}

} // verus!
