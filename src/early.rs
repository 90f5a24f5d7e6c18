//! The early allocator: bytes grow up from the start of the region, pages grow
//! down from its end.
//!
//! ```text
//! [ bytes-used | avail-area | pages-used ]
//! |            | -->    <-- |            |
//! start     byte_pos     page_pos       end
//! ```
//!
//! Byte allocations are reclaimed in bulk: a counter is decremented by each
//! `dealloc`, and when it reaches zero the byte cursor returns to the start.
//! Pages, once granted, are never reclaimed.
use vstd::prelude::*;
use crate::align::{align_down, align_up, round_down, checked_align_up, is_pow2, is_power_of_two};
use crate::error::AllocError;
use vstd::arithmetic::div_mod::{lemma_div_multiples_vanish_fancy, lemma_fundamental_div_mod, lemma_mod_pos_bound};

verus! {

/// Abstract state of an [`EarlyAllocator`].
pub struct EarlyState {
    /// Start of the region, where the byte area begins.
    pub start: nat,
    /// Byte cursor: first address past the byte area.
    pub byte_pos: nat,
    /// Page cursor: first address of the page area.
    pub page_pos: nat,
    /// End of the region (exclusive).
    pub end: nat,
    /// Live-byte counter.
    pub count: nat,
}

impl EarlyState {
    /// The cursors are ordered inside the region, and a zero counter means the
    /// byte area is empty.
    pub open spec fn wf(self) -> bool {
        &&& self.start <= self.byte_pos
        &&& self.byte_pos <= self.page_pos
        &&& self.page_pos <= self.end
        &&& self.end <= usize::MAX
        &&& self.count <= usize::MAX
        &&& (self.count == 0 ==> self.byte_pos == self.start)
    }

    /// State right after `init(start, size)`.
    pub open spec fn initial(start: nat, size: nat) -> EarlyState {
        EarlyState { start, byte_pos: start, page_pos: start + size, end: start + size, count: size }
    }

    /// What a byte request of `size` bytes aligned to `align` returns.
    pub open spec fn alloc_result(self, size: nat, align: nat) -> Result<nat, AllocError> {
        let a = align_up(self.byte_pos, align);
        if a + size > self.page_pos {
            Err(AllocError::NoMemory)
        } else {
            Ok(a)
        }
    }

    /// State after a byte request of `size` bytes aligned to `align`.
    pub open spec fn after_alloc(self, size: nat, align: nat) -> EarlyState {
        match self.alloc_result(size, align) {
            Ok(a) => EarlyState { byte_pos: a + size, count: self.count + 1, ..self },
            Err(_) => self,
        }
    }

    /// State after a byte release.
    pub open spec fn after_dealloc(self) -> EarlyState {
        if self.count == 0 {
            self
        } else if self.count == 1 {
            EarlyState { byte_pos: self.start, count: 0, ..self }
        } else {
            EarlyState { count: (self.count - 1) as nat, ..self }
        }
    }

    /// What a request for `num_pages` pages aligned to `align` bytes returns,
    /// with pages of `page_size` bytes.
    pub open spec fn alloc_pages_result(self, num_pages: nat, align: nat, page_size: nat) -> Result<
        nat,
        AllocError,
    > {
        if align % page_size != 0 || !is_pow2(align / page_size) {
            Err(AllocError::InvalidParam)
        } else if num_pages * page_size > self.page_pos {
            Err(AllocError::NoMemory)
        } else {
            let p = align_down((self.page_pos - num_pages * page_size) as nat, align);
            if p < self.byte_pos {
                Err(AllocError::NoMemory)
            } else {
                Ok(p)
            }
        }
    }
}

/// Early allocator over one region, with pages of `PAGE_SIZE` bytes.
pub struct EarlyAllocator<const PAGE_SIZE: usize> {
    byte_start: usize,
    byte_pos: usize,
    page_pos: usize,
    end: usize,
    byte_count: usize,
}

impl<const PAGE_SIZE: usize> View for EarlyAllocator<PAGE_SIZE> {
    type V = EarlyState;

    closed spec fn view(&self) -> EarlyState {
        EarlyState {
            start: self.byte_start as nat,
            byte_pos: self.byte_pos as nat,
            page_pos: self.page_pos as nat,
            end: self.end as nat,
            count: self.byte_count as nat,
        }
    }
}

impl<const PAGE_SIZE: usize> EarlyAllocator<PAGE_SIZE> {
    /// An allocator over the empty region at address zero.
    pub fn new() -> (r: Self)
        ensures
            r@ == EarlyState::initial(0, 0),
            r@.wf(),
    {
        EarlyAllocator { byte_start: 0, byte_pos: 0, page_pos: 0, end: 0, byte_count: 0 }
    }

    /// Takes `[start, start + size)` as the region, with both areas empty.
    /// The live-byte counter starts at `size`.
    pub fn init(&mut self, start: usize, size: usize)
        requires
            start + size <= usize::MAX,
        ensures
            final(self)@ == EarlyState::initial(start as nat, size as nat),
            final(self)@.wf(),
    {
        self.byte_start = start;
        self.byte_pos = start;
        self.page_pos = start + size;
        self.end = start + size;
        self.byte_count = size;
    }

    /// Appends `[start, start + size)` to the region; `start` must be the
    /// current end.
    pub fn add_memory(&mut self, start: usize, size: usize) -> (r: Result<(), AllocError>)
        requires
            old(self)@.wf(),
            start == old(self)@.end ==> start + size <= usize::MAX,
        ensures
            final(self)@.wf(),
            start != old(self)@.end ==> r == Err::<(), AllocError>(AllocError::InvalidParam)
                && final(self)@ == old(self)@,
            start == old(self)@.end ==> r == Ok::<(), AllocError>(()) && final(self)@ == (
            EarlyState {
                page_pos: old(self)@.page_pos + size as nat,
                end: old(self)@.end + size as nat,
                ..old(self)@
            }),
    {
        if start != self.end {
            return Err(AllocError::InvalidParam);
        }
        self.end = self.end + size;
        self.page_pos = self.page_pos + size;
        Ok(())
    }

    /// Allocates `size` bytes aligned to `align` from the byte area.
    pub fn alloc_bytes(&mut self, size: usize, align: usize) -> (r: Result<usize, AllocError>)
        requires
            old(self)@.wf(),
            is_pow2(align as nat),
            old(self)@.count < usize::MAX,
        ensures
            final(self)@.wf(),
            r matches Ok(a) ==> old(self)@.alloc_result(size as nat, align as nat) == Ok::<
                nat,
                AllocError,
            >(a as nat),
            r matches Err(e) ==> old(self)@.alloc_result(size as nat, align as nat) == Err::<
                nat,
                AllocError,
            >(e),
            final(self)@ == old(self)@.after_alloc(size as nat, align as nat),
    {
        let aligned_pos = match checked_align_up(self.byte_pos, align) {
            Some(a) => a,
            None => return Err(AllocError::NoMemory),
        };
        let next_pos = match aligned_pos.checked_add(size) {
            Some(n) => n,
            None => return Err(AllocError::NoMemory),
        };
        if next_pos > self.page_pos {
            return Err(AllocError::NoMemory);
        }
        self.byte_pos = next_pos;
        self.byte_count = self.byte_count + 1;
        Ok(aligned_pos)
    }

    /// Releases one byte allocation. The address and size are not consulted:
    /// when the counter reaches zero the whole byte area is reclaimed.
    pub fn dealloc_bytes(&mut self, _pos: usize, _size: usize)
        requires
            old(self)@.wf(),
        ensures
            final(self)@.wf(),
            final(self)@ == old(self)@.after_dealloc(),
    {
        if self.byte_count > 0 {
            self.byte_count = self.byte_count - 1;
            if self.byte_count == 0 {
                self.byte_pos = self.byte_start;
            }
        }
    }

    /// Size of the byte area plus the free gap.
    pub fn total_bytes(&self) -> (r: usize)
        requires
            self@.wf(),
        ensures
            r == self@.page_pos - self@.start,
    {
        self.page_pos - self.byte_start
    }

    /// Size of the byte area.
    pub fn used_bytes(&self) -> (r: usize)
        requires
            self@.wf(),
        ensures
            r == self@.byte_pos - self@.start,
    {
        self.byte_pos - self.byte_start
    }

    /// Size of the free gap between the two areas.
    pub fn available_bytes(&self) -> (r: usize)
        requires
            self@.wf(),
        ensures
            r == self@.page_pos - self@.byte_pos,
    {
        self.page_pos - self.byte_pos
    }

    /// The live-byte counter.
    pub fn byte_count(&self) -> (r: usize)
        ensures
            r == self@.count,
    {
        self.byte_count
    }

    /// Allocates `num_pages` pages from the top of the free gap, at an address
    /// that is a multiple of `align_pow2`. `align_pow2` must be a power-of-two
    /// multiple of the page size.
    pub fn alloc_pages(&mut self, num_pages: usize, align_pow2: usize) -> (r: Result<
        usize,
        AllocError,
    >)
        requires
            old(self)@.wf(),
            PAGE_SIZE > 0,
        ensures
            final(self)@.wf(),
            r matches Ok(a) ==> old(self)@.alloc_pages_result(
                num_pages as nat,
                align_pow2 as nat,
                PAGE_SIZE as nat,
            ) == Ok::<nat, AllocError>(a as nat) && final(self)@ == (EarlyState {
                page_pos: a as nat,
                ..old(self)@
            }),
            r matches Err(e) ==> old(self)@.alloc_pages_result(
                num_pages as nat,
                align_pow2 as nat,
                PAGE_SIZE as nat,
            ) == Err::<nat, AllocError>(e) && final(self)@ == old(self)@,
            r matches Ok(a) ==> old(self)@.byte_pos <= a <= old(self)@.page_pos,
    {
        if align_pow2 % PAGE_SIZE != 0 {
            return Err(AllocError::InvalidParam);
        }
        let align_pages = align_pow2 / PAGE_SIZE;
        if !is_power_of_two(align_pages) {
            return Err(AllocError::InvalidParam);
        }
        let total_size = match num_pages.checked_mul(PAGE_SIZE) {
            Some(t) => t,
            None => return Err(AllocError::NoMemory),
        };
        if total_size > self.page_pos {
            return Err(AllocError::NoMemory);
        }
        let new_page_pos = round_down(self.page_pos - total_size, align_pow2);
        if new_page_pos < self.byte_pos {
            return Err(AllocError::NoMemory);
        }
        self.page_pos = new_page_pos;
        Ok(new_page_pos)
    }

    /// Pages between the byte cursor and the end of the region.
    pub fn total_pages(&self) -> (r: usize)
        requires
            self@.wf(),
            PAGE_SIZE > 0,
        ensures
            r == (self@.end - self@.byte_pos) as nat / (PAGE_SIZE as nat),
    {
        (self.end - self.byte_pos) / PAGE_SIZE
    }

    /// Pages granted so far.
    pub fn used_pages(&self) -> (r: usize)
        requires
            self@.wf(),
            PAGE_SIZE > 0,
        ensures
            r == (self@.end - self@.page_pos) as nat / (PAGE_SIZE as nat),
    {
        (self.end - self.page_pos) / PAGE_SIZE
    }

    /// Whole pages in the free gap.
    pub fn available_pages(&self) -> (r: usize)
        requires
            self@.wf(),
            PAGE_SIZE > 0,
        ensures
            r == (self@.page_pos - self@.byte_pos) as nat / (PAGE_SIZE as nat),
    {
        (self.page_pos - self.byte_pos) / PAGE_SIZE
    }
}

/// Byte requests `reqs` (size, alignment) made in turn from `s`.
pub open spec fn alloc_all(s: EarlyState, reqs: Seq<(nat, nat)>) -> EarlyState
    decreases reqs.len(),
{
    if reqs.len() == 0 {
        s
    } else {
        alloc_all(s.after_alloc(reqs[0].0, reqs[0].1), reqs.drop_first())
    }
}

/// How many of the byte requests `reqs`, made in turn from `s`, succeed.
pub open spec fn granted(s: EarlyState, reqs: Seq<(nat, nat)>) -> nat
    decreases reqs.len(),
{
    if reqs.len() == 0 {
        0
    } else {
        let here: nat = if s.alloc_result(reqs[0].0, reqs[0].1) is Ok {
            1
        } else {
            0
        };
        here + granted(s.after_alloc(reqs[0].0, reqs[0].1), reqs.drop_first())
    }
}

/// `n` byte releases made in turn from `s`.
pub open spec fn dealloc_n(s: EarlyState, n: nat) -> EarlyState
    decreases n,
{
    if n == 0 {
        s
    } else {
        dealloc_n(s.after_dealloc(), (n - 1) as nat)
    }
}

/// Right after `init`, the free gap and the byte area make up the total.
pub proof fn lemma_init_accounting(start: nat, size: nat)
    ensures
        ({
            let s = EarlyState::initial(start, size);
            (s.page_pos - s.byte_pos) + (s.byte_pos - s.start) == s.page_pos - s.start
        }),
{
}

proof fn lemma_alloc_all_counts(s: EarlyState, reqs: Seq<(nat, nat)>)
    ensures
        alloc_all(s, reqs).start == s.start,
        alloc_all(s, reqs).count == s.count + granted(s, reqs),
        granted(s, reqs) == 0 ==> alloc_all(s, reqs) == s,
    decreases reqs.len(),
{
    if reqs.len() > 0 {
        lemma_alloc_all_counts(s.after_alloc(reqs[0].0, reqs[0].1), reqs.drop_first());
    }
}

proof fn lemma_dealloc_n_reclaims(t: EarlyState, n: nat)
    requires
        t.count == n,
        n == 0 ==> t.byte_pos == t.start,
    ensures
        dealloc_n(t, n).count == 0,
        dealloc_n(t, n).byte_pos == t.start,
    decreases n,
{
    if n > 0 {
        lemma_dealloc_n_reclaims(t.after_dealloc(), (n - 1) as nat);
    }
}

/// Bulk reclaim: from a state whose live-byte counter is zero, any run of byte
/// requests followed by one release per granted request brings the counter
/// back to zero and the byte cursor back to the start of the region.
pub proof fn lemma_bulk_reclaim(s: EarlyState, reqs: Seq<(nat, nat)>)
    requires
        s.wf(),
        s.count == 0,
    ensures
        ({
            let t = dealloc_n(alloc_all(s, reqs), granted(s, reqs));
            t.count == 0 && t.byte_pos == s.start
        }),
{
    lemma_alloc_all_counts(s, reqs);
    lemma_dealloc_n_reclaims(alloc_all(s, reqs), granted(s, reqs));
}

/// The used and available page counts add up to the total page count, or to
/// one less where the two partial pages at the page cursor make one more.
pub proof fn lemma_page_counts(s: EarlyState, page_size: nat)
    requires
        s.wf(),
        page_size > 0,
    ensures
        ({
            let total = (s.end - s.byte_pos) as nat / page_size;
            let used = (s.end - s.page_pos) as nat / page_size;
            let avail = (s.page_pos - s.byte_pos) as nat / page_size;
            used + avail <= total <= used + avail + 1
        }),
{
    let a = (s.end - s.page_pos) as int;
    let b = (s.page_pos - s.byte_pos) as int;
    let p = page_size as int;
    lemma_fundamental_div_mod(a, p);
    lemma_fundamental_div_mod(b, p);
    lemma_mod_pos_bound(a, p);
    lemma_mod_pos_bound(b, p);
    let q = a / p + b / p;
    let r = a % p + b % p;
    assert(a + b == p * q + r) by (nonlinear_arith)
        requires
            a == p * (a / p) + a % p,
            b == p * (b / p) + b % p,
            q == a / p + b / p,
            r == a % p + b % p,
    ;
    if r < p {
        lemma_div_multiples_vanish_fancy(q, r, p);
    } else {
        assert(a + b == p * (q + 1) + (r - p)) by (nonlinear_arith)
            requires
                a + b == p * q + r,
        ;
        lemma_div_multiples_vanish_fancy(q + 1, r - p, p);
    }
    assert((s.end - s.byte_pos) as int == a + b);
}

} // verus!
