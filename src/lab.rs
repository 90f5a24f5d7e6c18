//! The lab allocator: byte requests of alignment one are served alternately
//! from the two ends of the region; every other request is served from one
//! of four fixed buffers chosen by its exact size.
//!
//! A buffer holds one object at a time: two requests of one size class get
//! the same buffer, and releasing it does nothing.
use vstd::prelude::*;
use crate::error::AllocError;

verus! {

/// While the high cursor sits at the end of the region, requests of alignment
/// one are refused unless at least this many bytes lie between the cursors.
pub const ARENA_HEADROOM: usize = 0x102000;

/// The figure that `total_bytes` reports, whatever the region.
pub const REPORTED_TOTAL_BYTES: usize = 0x1000;

/// Capacity of the buffer that takes the sizes of no other class.
pub const BULK_CLASS_BYTES: usize = 86016;

/// One of the fixed buffers.
#[derive(Debug, Clone, Copy, PartialEq, Eq, Structural)]
pub enum SizeClass {
    /// The 96-byte buffer.
    Bytes96,
    /// The 192-byte buffer.
    Bytes192,
    /// The 384-byte buffer.
    Bytes384,
    /// The large buffer, taken by every other size.
    Bulk,
}

/// Where a request was placed.
#[derive(Debug, Clone, Copy, PartialEq, Eq, Structural)]
pub enum Placement {
    /// At this address of the region.
    Arena(usize),
    /// At the start of this fixed buffer.
    Class(SizeClass),
}

/// The buffer that serves a request of `size` bytes.
pub open spec fn class_of(size: nat) -> SizeClass {
    if size == 96 {
        SizeClass::Bytes96
    } else if size == 192 {
        SizeClass::Bytes192
    } else if size == 384 {
        SizeClass::Bytes384
    } else {
        SizeClass::Bulk
    }
}

/// Picks the buffer that serves a request of `size` bytes.
pub fn size_class(size: usize) -> (r: SizeClass)
    ensures
        r == class_of(size as nat),
{
    match size {
        96 => SizeClass::Bytes96,
        192 => SizeClass::Bytes192,
        384 => SizeClass::Bytes384,
        _ => SizeClass::Bulk,
    }
}

impl SizeClass {
    /// Size in bytes of the buffer.
    pub fn capacity(&self) -> (r: usize)
        ensures
            r == match *self {
                SizeClass::Bytes96 => 96,
                SizeClass::Bytes192 => 192,
                SizeClass::Bytes384 => 384,
                SizeClass::Bulk => BULK_CLASS_BYTES,
            },
    {
        match self {
            SizeClass::Bytes96 => 96,
            SizeClass::Bytes192 => 192,
            SizeClass::Bytes384 => 384,
            SizeClass::Bulk => BULK_CLASS_BYTES,
        }
    }
}

/// Abstract state of a [`LabByteAllocator`].
pub struct LabState {
    /// Start of the region.
    pub start: nat,
    /// Low cursor: first address past the low area.
    pub low: nat,
    /// High cursor: first address of the high area.
    pub high: nat,
    /// End of the region (exclusive).
    pub end: nat,
    /// Counter whose parity picks the end that serves the next request.
    pub cnt: nat,
}

impl LabState {
    /// The cursors are ordered inside the region.
    pub open spec fn wf(self) -> bool {
        &&& self.start <= self.low
        &&& self.low <= self.high
        &&& self.high <= self.end
        &&& self.end <= usize::MAX
        &&& self.cnt <= usize::MAX
    }

    /// State right after `init(start, size)` on `self`.
    pub open spec fn after_init(self, start: nat, size: nat) -> LabState {
        LabState { start, low: start, high: start + size, end: start + size, cnt: self.cnt }
    }

    /// Requests of alignment one are refused in this state.
    pub open spec fn arena_refuses(self) -> bool {
        self.high == self.end && self.high - self.low < ARENA_HEADROOM
    }

    /// What a request of `size` bytes aligned to `align` returns.
    pub open spec fn alloc_result(self, size: nat, align: nat) -> Result<Placement, AllocError> {
        if align != 1 {
            Ok(Placement::Class(class_of(size)))
        } else if self.arena_refuses() {
            Err(AllocError::NoMemory)
        } else if self.cnt % 2 == 1 {
            Ok(Placement::Arena(self.low as usize))
        } else {
            Ok(Placement::Arena((self.high - size) as usize))
        }
    }

    /// State after a request of `size` bytes aligned to `align`.
    pub open spec fn after_alloc(self, size: nat, align: nat) -> LabState {
        if align != 1 || self.arena_refuses() {
            self
        } else if self.cnt % 2 == 1 {
            LabState { low: self.low + size, cnt: self.cnt + 1, ..self }
        } else {
            LabState { high: (self.high - size) as nat, cnt: self.cnt + 1, ..self }
        }
    }

    /// State after releasing `size` bytes at `addr`, allocated with `align`.
    pub open spec fn after_dealloc(self, addr: nat, size: nat, align: nat) -> LabState {
        if align != 1 {
            self
        } else if addr == self.high {
            LabState { high: self.high + size, cnt: 0, ..self }
        } else if addr + size == self.low {
            LabState { low: (self.low - size) as nat, ..self }
        } else {
            self
        }
    }
}

/// Allocator over one region, with fixed buffers for three size classes and a
/// large fallback buffer.
pub struct LabByteAllocator {
    start: usize,
    pos_1: usize,
    pos_2: usize,
    end: usize,
    cnt: usize,
}

impl View for LabByteAllocator {
    type V = LabState;

    closed spec fn view(&self) -> LabState {
        LabState {
            start: self.start as nat,
            low: self.pos_1 as nat,
            high: self.pos_2 as nat,
            end: self.end as nat,
            cnt: self.cnt as nat,
        }
    }
}

impl LabByteAllocator {
    /// An allocator over the empty region at address zero.
    pub fn new() -> (r: Self)
        ensures
            r@ == (LabState { start: 0, low: 0, high: 0, end: 0, cnt: 0 }),
            r@.wf(),
    {
        LabByteAllocator { start: 0, pos_1: 0, pos_2: 0, end: 0, cnt: 0 }
    }

    /// Takes `[start, start + size)` as the region, with both areas empty.
    /// The alternation counter is kept.
    pub fn init(&mut self, start: usize, size: usize)
        requires
            old(self)@.wf(),
            start + size <= usize::MAX,
        ensures
            final(self)@ == old(self)@.after_init(start as nat, size as nat),
            final(self)@.wf(),
    {
        self.start = start;
        self.pos_1 = start;
        self.pos_2 = start + size;
        self.end = start + size;
    }

    /// Appends `[start, start + size)` to the region; `start` must be the
    /// current end, and nothing may have been taken from the high end.
    pub fn add_memory(&mut self, start: usize, size: usize) -> (r: Result<(), AllocError>)
        requires
            old(self)@.wf(),
            start == old(self)@.end ==> old(self)@.high == old(self)@.end && start + size
                <= usize::MAX,
        ensures
            final(self)@.wf(),
            start != old(self)@.end ==> r == Err::<(), AllocError>(AllocError::InvalidParam)
                && final(self)@ == old(self)@,
            start == old(self)@.end ==> r == Ok::<(), AllocError>(()) && final(self)@ == (
            LabState { high: old(self)@.end + size as nat, end: old(self)@.end + size as nat, ..old(self)@ }),
    {
        if start != self.end {
            return Err(AllocError::InvalidParam);
        }
        self.end = self.end + size;
        self.pos_2 = self.end;
        Ok(())
    }

    /// Appending `[start, start + size)` keeps the region in range and finds
    /// the high end untouched: what `add_memory` asks of its caller.
    pub fn extension_fits(&self, start: usize, size: usize) -> (r: bool)
        requires
            self@.wf(),
        ensures
            r == (start == self@.end ==> self@.high == self@.end && start + size <= usize::MAX),
    {
        start != self.end || (self.pos_2 == self.end && size <= usize::MAX - start)
    }

    /// Requests of alignment one are refused now: the high cursor sits at the
    /// end of the region and fewer than [`ARENA_HEADROOM`] bytes are free.
    pub fn arena_refuses(&self) -> (r: bool)
        requires
            self@.wf(),
        ensures
            r == self@.arena_refuses(),
    {
        self.pos_2 == self.end && self.pos_2 - self.pos_1 < ARENA_HEADROOM
    }

    /// A request of `size` bytes aligned to `align` keeps the low cursor
    /// strictly below the high one and the counter in range: what
    /// `alloc_bytes` asks of its caller.
    pub fn request_fits(&self, size: usize, align: usize) -> (r: bool)
        requires
            self@.wf(),
        ensures
            r == ((align == 1 ==> self@.cnt < usize::MAX) && (align == 1 && !self@.arena_refuses()
                ==> size < self@.high - self@.low)),
    {
        align != 1 || (self.cnt < usize::MAX && (self.arena_refuses() || size < self.pos_2
            - self.pos_1))
    }

    /// Releasing `size` bytes at `addr` with `align` keeps the cursors inside
    /// the region: what `dealloc_bytes` asks of its caller.
    pub fn release_fits(&self, addr: usize, size: usize, align: usize) -> (r: bool)
        requires
            self@.wf(),
        ensures
            r == ((align == 1 && addr == self@.high ==> self@.high + size <= self@.end) && (align
                == 1 && addr != self@.high && addr + size == self@.low ==> self@.start + size
                <= self@.low)),
    {
        if align != 1 {
            true
        } else if addr == self.pos_2 {
            size <= self.end - self.pos_2
        } else if size <= self.pos_1 && addr == self.pos_1 - size {
            size <= self.pos_1 - self.start
        } else {
            true
        }
    }

    /// Serves a request of `size` bytes aligned to `align`. Alignment one is
    /// served from the low end when the counter is odd and from the high end
    /// when it is even; any other alignment gets the buffer of the size class.
    pub fn alloc_bytes(&mut self, size: usize, align: usize) -> (r: Result<Placement, AllocError>)
        requires
            old(self)@.wf(),
            align == 1 ==> old(self)@.cnt < usize::MAX,
            align == 1 && !old(self)@.arena_refuses() ==> size < old(self)@.high - old(self)@.low,
        ensures
            final(self)@.wf(),
            r == old(self)@.alloc_result(size as nat, align as nat),
            final(self)@ == old(self)@.after_alloc(size as nat, align as nat),
            align == 1 && r is Ok ==> final(self)@.low < final(self)@.high,
    {
        if align != 1 {
            return Ok(Placement::Class(size_class(size)));
        }
        if self.arena_refuses() {
            return Err(AllocError::NoMemory);
        }
        let addr = if self.cnt % 2 == 1 {
            let res = self.pos_1;
            self.pos_1 = self.pos_1 + size;
            res
        } else {
            self.pos_2 = self.pos_2 - size;
            self.pos_2
        };
        self.cnt = self.cnt + 1;
        Ok(Placement::Arena(addr))
    }

    /// Releases `size` bytes at `addr`, allocated with `align`. For alignment
    /// one, an area that starts at the high cursor pushes it back up and resets
    /// the counter, and one that ends at the low cursor pulls it back down.
    /// Any other area, and every area of another alignment, is ignored.
    pub fn dealloc_bytes(&mut self, addr: usize, size: usize, align: usize)
        requires
            old(self)@.wf(),
            align == 1 && addr == old(self)@.high ==> old(self)@.high + size <= old(self)@.end,
            align == 1 && addr != old(self)@.high && addr + size == old(self)@.low
                ==> old(self)@.start + size <= old(self)@.low,
        ensures
            final(self)@.wf(),
            final(self)@ == old(self)@.after_dealloc(addr as nat, size as nat, align as nat),
    {
        if align != 1 {
            return;
        }
        if addr == self.pos_2 {
            self.pos_2 = self.pos_2 + size;
            self.cnt = 0;
        } else if size <= self.pos_1 && addr == self.pos_1 - size {
            self.pos_1 = self.pos_1 - size;
        }
    }

    /// Always [`REPORTED_TOTAL_BYTES`].
    pub fn total_bytes(&self) -> (r: usize)
        ensures
            r == REPORTED_TOTAL_BYTES,
    {
        REPORTED_TOTAL_BYTES
    }

    /// Bytes taken at both ends.
    pub fn used_bytes(&self) -> (r: usize)
        requires
            self@.wf(),
        ensures
            r == (self@.low - self@.start) + (self@.end - self@.high),
    {
        self.pos_1 - self.start + (self.end - self.pos_2)
    }

    /// Bytes between the two cursors.
    pub fn available_bytes(&self) -> (r: usize)
        requires
            self@.wf(),
        ensures
            r == self@.high - self@.low,
    {
        self.pos_2 - self.pos_1
    }

    /// The alternation counter.
    pub fn count(&self) -> (r: usize)
        ensures
            r == self@.cnt,
    {
        self.cnt
    }
}

/// Right after `init` over a region of [`REPORTED_TOTAL_BYTES`] bytes, the
/// available and used figures make up the reported total. (Over a region of
/// any other size they do not, since the total is fixed.)
pub proof fn lemma_init_accounting(s: LabState, start: nat)
    ensures
        ({
            let t = s.after_init(start, REPORTED_TOTAL_BYTES as nat);
            (t.high - t.low) + ((t.low - t.start) + (t.end - t.high)) == REPORTED_TOTAL_BYTES
        }),
{
}

/// Alternation: of three successful requests of alignment one, the first and
/// third are served from one end and the second from the other. From an even
/// counter the first and third come down from the high cursor, the third just
/// below the first; from an odd one they come up from the low cursor, the third
/// just past the first. The requests fit between the cursors, as
/// `alloc_bytes` asks of each.
pub proof fn lemma_alternation(s: LabState, n1: nat, n2: nat, n3: nat)
    requires
        s.wf(),
        s.alloc_result(n1, 1) is Ok,
        s.after_alloc(n1, 1).alloc_result(n2, 1) is Ok,
        s.after_alloc(n1, 1).after_alloc(n2, 1).alloc_result(n3, 1) is Ok,
        n1 + n2 + n3 < s.high - s.low,
    ensures
        ({
            let s1 = s.after_alloc(n1, 1);
            let s2 = s1.after_alloc(n2, 1);
            let r1 = s.alloc_result(n1, 1);
            let r2 = s1.alloc_result(n2, 1);
            let r3 = s2.alloc_result(n3, 1);
            if s.cnt % 2 == 0 {
                &&& r1 == Ok::<Placement, AllocError>(Placement::Arena((s.high - n1) as usize))
                &&& r2 == Ok::<Placement, AllocError>(Placement::Arena(s.low as usize))
                &&& r3 == Ok::<Placement, AllocError>(
                    Placement::Arena((s.high - n1 - n3) as usize),
                )
            } else {
                &&& r1 == Ok::<Placement, AllocError>(Placement::Arena(s.low as usize))
                &&& r2 == Ok::<Placement, AllocError>(Placement::Arena((s.high - n2) as usize))
                &&& r3 == Ok::<Placement, AllocError>(Placement::Arena((s.low + n1) as usize))
            }
        }),
{
}

/// Requests of one size class with alignment above one all get the same
/// buffer, and leave the state as it was.
pub proof fn lemma_class_alias(s: LabState, size: nat, a1: nat, a2: nat)
    requires
        a1 != 1,
        a2 != 1,
    ensures
        s.after_alloc(size, a1) == s,
        s.alloc_result(size, a1) == s.after_alloc(size, a1).alloc_result(size, a2),
        s.alloc_result(size, a1) == Ok::<Placement, AllocError>(Placement::Class(class_of(size))),
        class_of(96) == SizeClass::Bytes96,
{
}

} // verus!
