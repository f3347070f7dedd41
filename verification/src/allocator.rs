//! A fixed-region bump allocator.
//!
//! The allocator owns a region `[heap_start, heap_end)` of the address space
//! and serves requests by advancing a cursor (`next`). Individual
//! deallocations are never reclaimed in isolation: the cursor is reset to the
//! region start only when the number of live allocations drains to zero.

use vstd::prelude::*;
use vstd::arithmetic::div_mod::{lemma_fundamental_div_mod, lemma_mod_multiples_basic};
use vstd::arithmetic::mul::{lemma_mul_is_distributive_add, lemma_mul_is_commutative};

verus! {

/// True when `n` is a power of two (1, 2, 4, 8, ...).
pub open spec fn is_power_of_two(n: int) -> bool
    decreases n,
{
    if n <= 0 {
        false
    } else if n == 1 {
        true
    } else {
        n % 2 == 0 && is_power_of_two(n / 2)
    }
}

/// The smallest multiple of `align` that is at least `addr`.
pub open spec fn align_up(addr: int, align: int) -> int
    recommends
        addr >= 0,
        align >= 1,
{
    if addr % align == 0 {
        addr
    } else {
        addr + (align - addr % align)
    }
}

/// State of the bump allocator: a fixed region and a cursor.
pub struct BumpAllocator {
    /// First address of the region.
    pub heap_start: usize,
    /// One past the last address of the region.
    pub heap_end: usize,
    /// Next free address; every address below it (and at or above
    /// `heap_start`) is handed out.
    pub next: usize,
    /// Number of allocations handed out and not yet freed.
    pub allocations: usize,
}

impl BumpAllocator {
    /// The cursor stays inside the region, and it sits at the region start
    /// exactly when no allocation is live.
    pub open spec fn wf(self) -> bool {
        &&& self.heap_start <= self.next <= self.heap_end
        &&& (self.allocations == 0 ==> self.next == self.heap_start)
        &&& (self.allocations > 0 ==> self.heap_start < self.next)
        &&& self.allocations <= self.next - self.heap_start
    }

    /// An empty allocator over the degenerate region `[0, 0)`.
    pub fn new() -> (r: Self)
        ensures
            r.heap_start == 0,
            r.heap_end == 0,
            r.next == 0,
            r.allocations == 0,
            r.wf(),
    {
        BumpAllocator { heap_start: 0, heap_end: 0, next: 0, allocations: 0 }
    }

    /// One-time setup over the region `[heap_start, heap_start + heap_size)`.
    /// The caller owns the region exclusively for the allocator's lifetime.
    pub fn init(&mut self, heap_start: usize, heap_size: usize)
        requires
            old(self).allocations == 0,
            heap_start + heap_size <= usize::MAX,
        ensures
            final(self).heap_start == heap_start,
            final(self).heap_end == heap_start + heap_size,
            final(self).next == heap_start,
            final(self).allocations == 0,
            final(self).wf(),
    {
        self.heap_start = heap_start;
        self.heap_end = heap_start + heap_size;
        self.next = heap_start;
    }

    /// Serve one allocation of `size` bytes at alignment `align`.
    ///
    /// The cursor is rounded up to the requested alignment; the request
    /// succeeds exactly when the aligned address plus the size still lies
    /// within the region (address-arithmetic overflow therefore also fails,
    /// since the region end fits in `usize`). On success the cursor advances
    /// past the new allocation; on failure nothing changes.
    pub fn allocate(&mut self, size: usize, align: usize) -> (r: Option<usize>)
        requires
            old(self).wf(),
            is_power_of_two(align as int),
            size >= 1,
        ensures
            final(self).heap_start == old(self).heap_start,
            final(self).heap_end == old(self).heap_end,
            final(self).wf(),
            r is Some <==> align_up(old(self).next as int, align as int) + size
                <= old(self).heap_end,
            (match r {
                Some(addr) => {
                    &&& addr == align_up(old(self).next as int, align as int)
                    &&& addr as int % align as int == 0
                    &&& old(self).next <= addr
                    &&& addr + size <= final(self).heap_end
                    &&& final(self).next == addr + size
                    &&& final(self).allocations == old(self).allocations + 1
                },
                None => *final(self) == *old(self),
            }),
    {
        assert(align >= 1);
        let rem: usize = self.next % align;
        let pad: usize = if rem == 0 { 0 } else { align - rem };
        proof {
            let n = old(self).next as int;
            let a = align as int;
            if rem != 0 {
                lemma_fundamental_div_mod(n, a);
                let q = n / a;
                lemma_mul_is_distributive_add(a, q, 1);
                assert(n + (a - n % a) == a * (q + 1));
                lemma_mul_is_commutative(a, q + 1);
                lemma_mod_multiples_basic(q + 1, a);
                assert((n + (a - n % a)) % a == 0);
            }
            assert(align_up(n, a) == n + pad);
            assert(align_up(n, a) % a == 0);
        }
        if pad > usize::MAX - self.next {
            return None;
        }
        let aligned: usize = self.next + pad;
        if size > usize::MAX - aligned {
            return None;
        }
        let end: usize = aligned + size;
        if end > self.heap_end {
            return None;
        }
        self.next = end;
        self.allocations = self.allocations + 1;
        Some(aligned)
    }

    /// Record that one allocation was given back. When the last live
    /// allocation is freed, the cursor is reset to the region start,
    /// reclaiming the entire arena in one step; otherwise nothing is
    /// reclaimed. The address and size play no role in this capacity model.
    pub fn free(&mut self, _address: usize, _size: usize)
        requires
            old(self).wf(),
            old(self).allocations >= 1,
        ensures
            final(self).heap_start == old(self).heap_start,
            final(self).heap_end == old(self).heap_end,
            final(self).allocations == old(self).allocations - 1,
            final(self).allocations == 0 ==> final(self).next == old(self).heap_start,
            final(self).allocations > 0 ==> final(self).next == old(self).next,
            final(self).wf(),
    {
        self.allocations = self.allocations - 1;
        if self.allocations == 0 {
            self.next = self.heap_start;
        }
    }
}

/// In every well-formed allocator state the cursor sits at the region start
/// exactly when no allocation is live.
pub proof fn lemma_cursor_reset_iff_drained(a: BumpAllocator)
    requires
        a.wf(),
    ensures
        a.next == a.heap_start <==> a.allocations == 0,
{
}

} // verus!
