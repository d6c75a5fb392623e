//! A bump allocator over a fixed-size arena.
//!
//! The arena is `HEAP_SIZE` bytes starting at a base address. A cursor counts
//! the bytes handed out so far; it only ever moves forward, and freed memory
//! is never reused.

use vstd::arithmetic::div_mod::{
    lemma_fundamental_div_mod, lemma_fundamental_div_mod_converse, lemma_mod_bound,
    lemma_mod_breakdown, lemma_mod_multiples_basic, lemma_truncate_middle,
};
use vstd::arithmetic::mul::lemma_mul_is_commutative;
use vstd::arithmetic::power2::{is_pow2, lemma2_to64, lemma_pow2_unfold, pow2};
use vstd::prelude::*;

verus! {

/// Capacity of the arena in bytes (100 KiB).
pub const HEAP_SIZE: usize = 102400;

/// The least multiple of `align` that is not below `addr`.
pub open spec fn round_up(addr: int, align: int) -> int
    recommends
        align > 0,
{
    ((addr + align - 1) / align) * align
}

/// Masking with the predecessor of a power of two takes the remainder.
proof fn lemma_mask_is_remainder(x: usize, n: usize)
    requires
        is_pow2(n as int),
    ensures
        n != 0,
        x & ((n - 1) as usize) == x % n,
    decreases n,
{
    reveal(is_pow2);
    if n == 1 {
        assert(x & 0usize == 0) by (bit_vector);
    } else {
        let h: usize = n / 2;
        let y: usize = x / 2;
        lemma_mask_is_remainder(y, h);
        let below_h: usize = (h - 1) as usize;
        let below_n: usize = (n - 1) as usize;
        let low: usize = y & below_h;
        assert(x & below_n == 2 * low + x % 2) by (bit_vector)
            requires
                n % 2 == 0,
                n >= 2,
                h == n / 2,
                y == x / 2,
                below_h == h - 1,
                below_n == n - 1,
                low == y & below_h,
        ;
        lemma_mod_breakdown(x as int, 2, h as int);
    }
}

/// A number that shares no bit with its predecessor is a power of two.
proof fn lemma_single_bit_is_pow2(n: usize)
    requires
        n != 0,
        n & ((n - 1) as usize) == 0,
    ensures
        is_pow2(n as int),
    decreases n,
{
    reveal(is_pow2);
    if n != 1 {
        let h: usize = n / 2;
        let below_h: usize = (h - 1) as usize;
        let below_n: usize = (n - 1) as usize;
        assert(n % 2 == 0 && h != 0 && h & below_h == 0) by (bit_vector)
            requires
                n > 1,
                h == n / 2,
                below_h == h - 1,
                below_n == n - 1,
                n & below_n == 0,
        ;
        lemma_single_bit_is_pow2(h);
    }
}

/// Tests whether `n` is a power of two, and so can serve as an alignment.
pub fn is_power_of_two(n: usize) -> (r: bool)
    ensures
        r == is_pow2(n as int),
{
    if n == 0 {
        proof {
            reveal(is_pow2);
        }
        return false;
    }
    let r = n & (n - 1) == 0;
    proof {
        if r {
            lemma_single_bit_is_pow2(n);
        } else if is_pow2(n as int) {
            lemma_mask_is_remainder(n, n);
        }
    }
    r
}

/// A power of two divides every power of two that is not below it.
proof fn lemma_pow2_divides(n: int, k: nat)
    requires
        is_pow2(n),
        n <= pow2(k),
    ensures
        pow2(k) as int % n == 0,
    decreases n,
{
    reveal(is_pow2);
    if n != 1 {
        let h = n / 2;
        if k == 0 {
            lemma2_to64();
        } else {
            let j = (k - 1) as nat;
            lemma_pow2_unfold(k);
            lemma_pow2_divides(h, j);
            lemma_truncate_middle(pow2(j) as int, 2, h);
        }
    }
}

/// Every power of two that is an address divides the size of the address
/// space.
proof fn lemma_pow2_divides_address_space(align: usize)
    requires
        is_pow2(align as int),
    ensures
        (usize::MAX + 1) % (align as int) == 0,
{
    lemma2_to64();
    if usize::MAX == 0xffff_ffff {
        lemma_pow2_divides(align as int, 32);
    } else {
        lemma_pow2_divides(align as int, 64);
    }
}

/// Rounds `addr` up to the next multiple of `align`.
///
/// `align` is a power of two, as every alignment of a Rust layout is, and the
/// rounded address must be representable.
pub fn align_up(addr: usize, align: usize) -> (r: usize)
    requires
        is_pow2(align as int),
        addr + align - 1 <= usize::MAX,
    ensures
        r == round_up(addr as int, align as int),
        r % align == 0,
        addr <= r < addr + align,
{
    proof {
        lemma_mask_is_remainder(addr, align);
    }
    let mask: usize = align - 1;
    let bumped: usize = addr + mask;
    let r: usize = bumped & !mask;
    proof {
        lemma_mask_is_remainder(bumped, align);
        lemma_mask_is_remainder(r, align);
        assert(r & mask == 0 && r + (bumped & mask) == bumped) by (bit_vector)
            requires
                r == bumped & !mask,
        ;
        lemma_round_up_unique(addr as int, align as int, r as int);
    }
    r
}

/// `round_up` is the only multiple of `align` in `[addr, addr + align)`.
pub proof fn lemma_round_up_unique(addr: int, align: int, r: int)
    requires
        align > 0,
        r % align == 0,
        addr <= r < addr + align,
    ensures
        r == round_up(addr, align),
{
    let q = r / align;
    lemma_fundamental_div_mod(r, align);
    lemma_mul_is_commutative(align, q);
    lemma_fundamental_div_mod_converse(addr + align - 1, align, q, addr + align - 1 - r);
}

/// `round_up` is a multiple of `align` in `[addr, addr + align)`.
pub proof fn lemma_round_up_bounds(addr: int, align: int)
    requires
        align > 0,
    ensures
        round_up(addr, align) % align == 0,
        addr <= round_up(addr, align) < addr + align,
{
    let t = addr + align - 1;
    let q = t / align;
    lemma_fundamental_div_mod(t, align);
    lemma_mod_bound(t, align);
    lemma_mul_is_commutative(align, q);
    lemma_mod_multiples_basic(q, align);
}

/// The mathematical state of the arena: where it starts and how many of its
/// bytes have been handed out.
pub ghost struct HeapArena {
    pub base: int,
    pub cursor: int,
}

impl HeapArena {
    /// The base is an address and the cursor has not passed the capacity.
    pub open spec fn wf(self) -> bool {
        &&& 0 <= self.base <= usize::MAX
        &&& 0 <= self.cursor <= HEAP_SIZE
    }

    /// The address at which a request with alignment `align` would be placed.
    pub open spec fn placed(self, align: int) -> int {
        round_up(self.base + self.cursor, align)
    }

    /// The cursor after a request of `size` bytes with alignment `align` has
    /// been placed.
    pub open spec fn cursor_after(self, size: int, align: int) -> int {
        self.placed(align) - self.base + size
    }

    /// A request fits when its address is representable and its last byte
    /// lies within the capacity.
    pub open spec fn fits(self, size: int, align: int) -> bool {
        &&& self.placed(align) <= usize::MAX
        &&& self.cursor_after(size, align) <= HEAP_SIZE
    }

    /// The arena after an allocation request: the cursor advances when the
    /// request fits and stays where it is otherwise.
    pub open spec fn allocate(self, size: int, align: int) -> HeapArena {
        if self.fits(size, align) {
            HeapArena { base: self.base, cursor: self.cursor_after(size, align) }
        } else {
            self
        }
    }

    /// What an allocation request returns: the placed address, or nothing.
    pub open spec fn allocated(self, size: int, align: int) -> Option<int> {
        if self.fits(size, align) {
            Some(self.placed(align))
        } else {
            None
        }
    }
}

/// The allocator: an arena of `HEAP_SIZE` bytes and its cursor.
///
/// The allocator holds two numbers and touches no memory, so a copy of it is
/// a record of the arena's state at the time of the copy.
#[derive(Clone, Copy, Debug)]
pub struct DummyAllocator {
    heap_start: usize,
    offset: usize,
}

impl View for DummyAllocator {
    type V = HeapArena;

    closed spec fn view(&self) -> HeapArena {
        HeapArena { base: self.heap_start as int, cursor: self.offset as int }
    }
}

impl DummyAllocator {
    #[verifier::type_invariant]
    spec fn cursor_within_capacity(self) -> bool {
        self.offset <= HEAP_SIZE
    }

    /// Places `size` bytes at the next address that is a multiple of `align`.
    ///
    /// Returns the address and advances the cursor past the new block when the
    /// block fits; returns `None` and leaves the arena as it was otherwise.
    pub fn allocate(&mut self, size: usize, align: usize) -> (r: Option<usize>)
        requires
            is_pow2(align as int),
        ensures
            final(self)@ == old(self)@.allocate(size as int, align as int),
            match r {
                Some(addr) => old(self)@.allocated(size as int, align as int) == Some(
                    addr as int,
                ),
                None => old(self)@.allocated(size as int, align as int).is_none(),
            },
            final(self)@.wf(),
    {
        proof {
            use_type_invariant(&*self);
            lemma_mask_is_remainder(0, align);
            lemma_round_up_bounds(self.heap_start + self.offset, align as int);
            lemma_pow2_divides_address_space(align);
        }
        if self.offset > usize::MAX - self.heap_start {
            return None;
        }
        let current: usize = self.heap_start + self.offset;
        if current > usize::MAX - (align - 1) {
            proof {
                lemma_round_up_unique(current as int, align as int, usize::MAX + 1);
            }
            return None;
        }
        let aligned: usize = align_up(current, align);
        let new_offset: usize = aligned.saturating_sub(self.heap_start).saturating_add(size);
        if new_offset > HEAP_SIZE {
            return None;
        }
        self.offset = new_offset;
        Some(aligned)
    }

    /// Releases a block. The arena never reuses memory, so this changes
    /// nothing.
    pub fn dealloc(&mut self, ptr: usize, size: usize, align: usize)
        ensures
            *final(self) == *old(self),
            final(self)@ == old(self)@.dealloc(ptr as int, size as int, align as int),
    {
    }
}

/// Starts an empty arena at `offset`.
pub fn init_heap(offset: usize) -> (r: DummyAllocator)
    ensures
        r@ == (HeapArena { base: offset as int, cursor: 0 }),
        r@.wf(),
{
    DummyAllocator { heap_start: offset, offset: 0 }
}

/// Reports `(used, total)`: the bytes handed out so far and the capacity.
pub fn memstat(heap: &DummyAllocator) -> (r: (usize, usize))
    ensures
        r.0 == heap@.cursor,
        r.1 == HEAP_SIZE,
        r.0 <= r.1,
{
    proof {
        use_type_invariant(heap);
    }
    (heap.offset, HEAP_SIZE)
}

/// One request made of the arena.
pub ghost enum HeapOp {
    /// A request for `size` bytes at a multiple of `align`.
    Allocate { size: nat, align: nat },
    /// The release of a block.
    Release { ptr: nat, size: nat, align: nat },
}

impl HeapArena {
    /// The arena after a block has been released: as it was.
    pub open spec fn dealloc(self, ptr: int, size: int, align: int) -> HeapArena {
        self
    }

    /// The arena after one request.
    pub open spec fn apply(self, op: HeapOp) -> HeapArena {
        match op {
            HeapOp::Allocate { size, align } => self.allocate(size as int, align as int),
            HeapOp::Release { ptr, size, align } => self.dealloc(
                ptr as int,
                size as int,
                align as int,
            ),
        }
    }

    /// The arena after a sequence of requests, made in order.
    pub open spec fn after(self, ops: Seq<HeapOp>) -> HeapArena
        decreases ops.len(),
    {
        if ops.len() == 0 {
            self
        } else {
            self.after(ops.drop_last()).apply(ops.last())
        }
    }

    /// The address that request `i` of `ops` returns, if it returns one.
    pub open spec fn returned(self, ops: Seq<HeapOp>, i: int) -> Option<int> {
        match ops[i] {
            HeapOp::Allocate { size, align } => self.after(ops.take(i)).allocated(
                size as int,
                align as int,
            ),
            HeapOp::Release { .. } => None,
        }
    }
}

/// Every allocation request in `ops` asks for a power-of-two alignment.
pub open spec fn alignments_valid(ops: Seq<HeapOp>) -> bool {
    forall|i: int|
        0 <= i < ops.len() ==> (#[trigger] ops[i] matches HeapOp::Allocate { align, .. }
            ==> is_pow2(align as int))
}

/// Requests never move the base, and the cursor stays within the capacity.
pub proof fn lemma_arena_stays_valid(arena: HeapArena, ops: Seq<HeapOp>)
    requires
        arena.wf(),
        alignments_valid(ops),
    ensures
        arena.after(ops).wf(),
        arena.after(ops).base == arena.base,
    decreases ops.len(),
{
    if ops.len() > 0 {
        lemma_arena_stays_valid(arena, ops.drop_last());
        if let HeapOp::Allocate { size, align } = ops.last() {
            reveal(is_pow2);
            lemma_round_up_bounds(
                arena.base + arena.after(ops.drop_last()).cursor,
                align as int,
            );
        }
    }
}

/// The bytes in use never decrease: after any prefix of the requests the
/// cursor is at most what it is after a longer prefix, whether the requests
/// in between succeed, fail or release.
pub proof fn lemma_used_never_decreases(arena: HeapArena, ops: Seq<HeapOp>, i: int, j: int)
    requires
        arena.wf(),
        alignments_valid(ops),
        0 <= i <= j <= ops.len(),
    ensures
        arena.after(ops.take(i)).cursor <= arena.after(ops.take(j)).cursor <= HEAP_SIZE,
    decreases j - i,
{
    lemma_arena_stays_valid(arena, ops.take(j));
    if i < j {
        let before = arena.after(ops.take(j - 1));
        lemma_used_never_decreases(arena, ops, i, j - 1);
        lemma_arena_stays_valid(arena, ops.take(j - 1));
        assert(ops.take(j).drop_last() == ops.take(j - 1));
        assert(ops.take(j).last() == ops[j - 1]);
        if let HeapOp::Allocate { size, align } = ops[j - 1] {
            reveal(is_pow2);
            lemma_round_up_bounds(before.base + before.cursor, align as int);
        }
    }
}

/// Where a returned block lies: at a multiple of the alignment asked for, not
/// before the cursor, ending exactly at the new cursor and so within the
/// arena.
pub proof fn lemma_block_within_arena(arena: HeapArena, ops: Seq<HeapOp>, i: int)
    requires
        arena.wf(),
        alignments_valid(ops),
        0 <= i < ops.len(),
        arena.returned(ops, i).is_some(),
    ensures
        ops[i] matches HeapOp::Allocate { size, align } && {
            let addr = arena.returned(ops, i).unwrap();
            &&& addr % (align as int) == 0
            &&& arena.base + arena.after(ops.take(i)).cursor <= addr
            &&& addr + size == arena.base + arena.after(ops.take(i + 1)).cursor
            &&& arena.base <= addr <= addr + size <= arena.base + HEAP_SIZE
            &&& size > 0 ==> addr < arena.base + HEAP_SIZE
        },
{
    let before = arena.after(ops.take(i));
    lemma_arena_stays_valid(arena, ops.take(i));
    lemma_arena_stays_valid(arena, ops.take(i + 1));
    assert(ops.take(i + 1).drop_last() == ops.take(i));
    assert(ops.take(i + 1).last() == ops[i]);
    if let HeapOp::Allocate { size, align } = ops[i] {
        reveal(is_pow2);
        lemma_round_up_bounds(before.base + before.cursor, align as int);
    }
}

/// No two returned blocks overlap: a block returned earlier ends at or before
/// the start of any block returned later.
pub proof fn lemma_blocks_disjoint(arena: HeapArena, ops: Seq<HeapOp>, i: int, j: int)
    requires
        arena.wf(),
        alignments_valid(ops),
        0 <= i < j < ops.len(),
        arena.returned(ops, i).is_some(),
        arena.returned(ops, j).is_some(),
    ensures
        ops[i] matches HeapOp::Allocate { size, .. } && arena.returned(ops, i).unwrap() + size
            <= arena.returned(ops, j).unwrap(),
{
    lemma_block_within_arena(arena, ops, i);
    lemma_block_within_arena(arena, ops, j);
    lemma_used_never_decreases(arena, ops, i + 1, j);
}

} // verus!
