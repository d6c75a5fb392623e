//! The physical frame allocator.
//!
//! Frames are handed out from the usable regions of the boot memory map, in
//! the order of the map and from low to high addresses within a region. A
//! frame that has been handed out is never handed out again, and nothing is
//! ever given back.

use crate::allocator::{lemma_round_up_bounds, lemma_round_up_unique, round_up};
use crate::memory::{MemoryRegion, MemoryRegionKind};
use vstd::prelude::*;

verus! {

/// Size of a frame in bytes.
pub const FRAME_SIZE: u64 = 4096;

/// The start of the first whole frame of `region`.
pub open spec fn first_frame(region: MemoryRegion) -> int {
    round_up(region.start as int, FRAME_SIZE as int)
}

/// The number of frames that `region` offers: the whole frames that lie
/// within it when it is usable, and none when it is not.
pub open spec fn frame_count(region: MemoryRegion) -> nat {
    if region.kind == MemoryRegionKind::Usable && first_frame(region) + FRAME_SIZE <= region.end {
        ((region.end - first_frame(region)) / (FRAME_SIZE as int)) as nat
    } else {
        0
    }
}

/// Frame `k` of `region`.
pub open spec fn frame_at(region: MemoryRegion, k: int) -> int {
    first_frame(region) + k * FRAME_SIZE
}

/// The start addresses of the frames that `region` offers, from low to high.
pub open spec fn frames_of(region: MemoryRegion) -> Seq<int> {
    Seq::new(frame_count(region), |k: int| frame_at(region, k))
}

/// The start addresses of all frames that the map offers, in the order in
/// which they are handed out.
pub open spec fn usable_frames(regions: Seq<MemoryRegion>) -> Seq<int>
    decreases regions.len(),
{
    if regions.len() == 0 {
        Seq::empty()
    } else {
        usable_frames(regions.drop_last()) + frames_of(regions.last())
    }
}

/// The mathematical state of the allocator: the memory map and the number
/// of frames handed out so far.
pub ghost struct FramePool {
    pub regions: Seq<MemoryRegion>,
    pub handed: nat,
}

impl FramePool {
    /// The frame that the next request returns, if any is left.
    pub open spec fn next_frame(self) -> Option<int> {
        if self.handed < usable_frames(self.regions).len() {
            Some(usable_frames(self.regions)[self.handed as int])
        } else {
            None
        }
    }

    /// The pool after the next request.
    pub open spec fn after_request(self) -> FramePool {
        if self.handed < usable_frames(self.regions).len() {
            FramePool { regions: self.regions, handed: self.handed + 1 }
        } else {
            self
        }
    }
}

/// The frames of a prefix of the map are a prefix of the frames of the map,
/// and the frames of the region that follows the prefix come next.
pub proof fn lemma_frames_of_prefix(regions: Seq<MemoryRegion>, r: int)
    requires
        0 <= r < regions.len(),
    ensures
        usable_frames(regions.take(r + 1)) == usable_frames(regions.take(r)) + frames_of(
            regions[r],
        ),
        usable_frames(regions.take(r + 1)).len() <= usable_frames(regions).len(),
        forall|i: int|
            0 <= i < usable_frames(regions.take(r + 1)).len() ==> usable_frames(regions)[i]
                == #[trigger] usable_frames(regions.take(r + 1))[i],
    decreases regions.len() - r,
{
    assert(regions.take(r + 1).drop_last() == regions.take(r));
    assert(regions.take(r + 1).last() == regions[r]);
    if r + 1 == regions.len() {
        assert(regions.take(r + 1) == regions);
    } else {
        lemma_frames_of_prefix(regions, r + 1);
        let shorter = usable_frames(regions.take(r + 1));
        let longer = usable_frames(regions.take(r + 2));
        assert forall|i: int| 0 <= i < shorter.len() implies usable_frames(regions)[i]
            == #[trigger] shorter[i] by {
            assert(longer[i] == shorter[i]);
        }
    }
}

/// Whether `next` is the start of a frame that `region` offers.
pub open spec fn offers(region: MemoryRegion, next: int) -> bool {
    &&& region.kind == MemoryRegionKind::Usable
    &&& first_frame(region) <= next
    &&& (next - first_frame(region)) % (FRAME_SIZE as int) == 0
    &&& next + FRAME_SIZE <= region.end
}

/// The first frame of `region`, or `None` where the region offers none.
pub fn first_frame_of(region: &MemoryRegion) -> (r: Option<u64>)
    ensures
        match r {
            Some(frame) => frame_count(*region) > 0 && frame == first_frame(*region),
            None => frame_count(*region) == 0,
        },
{
    match region.kind {
        MemoryRegionKind::Usable => {},
        _ => {
            return None;
        },
    }
    let over: u64 = region.start % FRAME_SIZE;
    let ghost first = if over == 0 {
        region.start as int
    } else {
        region.start + (FRAME_SIZE - over)
    };
    proof {
        lemma_round_up_unique(region.start as int, FRAME_SIZE as int, first);
    }
    if over != 0 && region.start > u64::MAX - (FRAME_SIZE - over) {
        return None;
    }
    let frame: u64 = if over == 0 {
        region.start
    } else {
        region.start + (FRAME_SIZE - over)
    };
    if frame <= region.end && region.end - frame >= FRAME_SIZE {
        Some(frame)
    } else {
        None
    }
}

/// Finds the first region at or after index `from` that offers a frame.
///
/// Returns its index and its first frame, or the length of the map where no
/// such region is left.
pub fn seek(regions: &[MemoryRegion], from: usize) -> (r: (usize, u64))
    requires
        from <= regions@.len(),
    ensures
        from <= r.0 <= regions@.len(),
        forall|j: int| from <= j < r.0 ==> frame_count(#[trigger] regions@[j]) == 0,
        r.0 < regions@.len() ==> frame_count(regions@[r.0 as int]) > 0 && r.1 == first_frame(
            regions@[r.0 as int],
        ),
        usable_frames(regions@.take(r.0 as int)) == usable_frames(regions@.take(from as int)),
{
    let mut i: usize = from;
    while i < regions.len()
        invariant
            from <= i <= regions@.len(),
            forall|j: int| from <= j < i ==> frame_count(#[trigger] regions@[j]) == 0,
            usable_frames(regions@.take(i as int)) == usable_frames(regions@.take(from as int)),
        decreases regions@.len() - i,
    {
        match first_frame_of(&regions[i]) {
            Some(frame) => {
                return (i, frame);
            },
            None => {
                proof {
                    lemma_frames_of_prefix(regions@, i as int);
                }
            },
        }
        i = i + 1;
    }
    (i, 0)
}

/// The frame allocator: the memory map and the place of the next frame.
pub struct BootInfoFrameAllocator<'a> {
    regions: &'a [MemoryRegion],
    region: usize,
    next: u64,
}

impl<'a> View for BootInfoFrameAllocator<'a> {
    type V = FramePool;

    closed spec fn view(&self) -> FramePool {
        let before = usable_frames(self.regions@.take(self.region as int)).len();
        let within = if self.region < self.regions@.len() {
            (self.next - first_frame(self.regions@[self.region as int])) / (FRAME_SIZE as int)
        } else {
            0
        };
        FramePool { regions: self.regions@, handed: (before + within) as nat }
    }
}

impl<'a> BootInfoFrameAllocator<'a> {
    #[verifier::type_invariant]
    spec fn stands_on_a_frame(self) -> bool {
        &&& self.region <= self.regions@.len()
        &&& self.region < self.regions@.len() ==> offers(
            self.regions@[self.region as int],
            self.next as int,
        )
    }

    /// An allocator over the memory map `regions` that has handed out
    /// nothing.
    pub fn new(regions: &'a [MemoryRegion]) -> (r: Self)
        ensures
            r@ == (FramePool { regions: regions@, handed: 0 }),
    {
        let (region, next) = seek(regions, 0);
        BootInfoFrameAllocator { regions, region, next }
    }

    /// Hands out the next unused frame, or `None` when every frame of every
    /// usable region has been handed out.
    pub fn allocate_frame(&mut self) -> (r: Option<u64>)
        ensures
            final(self)@ == old(self)@.after_request(),
            match r {
                Some(frame) => old(self)@.next_frame() == Some(frame as int),
                None => old(self)@.next_frame().is_none(),
            },
    {
        proof {
            use_type_invariant(&*self);
        }
        if self.region >= self.regions.len() {
            proof {
                assert(self.regions@.take(self.region as int) == self.regions@);
            }
            return None;
        }
        let frame: u64 = self.next;
        let region: MemoryRegion = self.regions[self.region];
        proof {
            lemma_frames_of_prefix(self.regions@, self.region as int);
            let k = (frame - first_frame(region)) / (FRAME_SIZE as int);
            let before = usable_frames(self.regions@.take(self.region as int));
            let through = usable_frames(self.regions@.take(self.region + 1));
            assert(0 <= k < frame_count(region));
            assert(frames_of(region)[k] == frame);
            assert(through[before.len() + k] == frame);
            assert(usable_frames(self.regions@)[before.len() + k] == frame);
        }
        if region.end - frame >= 2 * FRAME_SIZE {
            self.next = frame + FRAME_SIZE;
        } else {
            let (found, first) = seek(self.regions, self.region + 1);
            *self = BootInfoFrameAllocator { regions: self.regions, region: found, next: first };
        }
        Some(frame)
    }
}

/// No two usable regions of the map share a byte.
pub open spec fn usable_regions_disjoint(regions: Seq<MemoryRegion>) -> bool {
    forall|a: int, b: int|
        #![trigger regions[a], regions[b]]
        0 <= a < b < regions.len() && regions[a].kind == MemoryRegionKind::Usable
            && regions[b].kind == MemoryRegionKind::Usable ==> regions[a].end <= regions[b].start
            || regions[b].end <= regions[a].start
}

/// Finds the region and the place within it of frame `i` of the map.
pub proof fn lemma_frame_place(regions: Seq<MemoryRegion>, i: int) -> (place: (int, int))
    requires
        0 <= i < usable_frames(regions).len(),
    ensures
        0 <= place.0 < regions.len(),
        0 <= place.1 < frame_count(regions[place.0]),
        usable_frames(regions)[i] == frame_at(regions[place.0], place.1),
        i == usable_frames(regions.take(place.0)).len() + place.1,
    decreases regions.len(),
{
    let init = regions.drop_last();
    let last = regions.len() - 1;
    assert(regions.take(last) == init);
    if i < usable_frames(init).len() {
        let place = lemma_frame_place(init, i);
        assert(init.take(place.0) == regions.take(place.0));
        place
    } else {
        (last, i - usable_frames(init).len())
    }
}

/// Every frame that is handed out is a whole frame of a usable region: it
/// starts at a multiple of the frame size and lies within the region.
pub proof fn lemma_frame_within_usable_region(regions: Seq<MemoryRegion>, i: int) -> (r: int)
    requires
        0 <= i < usable_frames(regions).len(),
    ensures
        0 <= r < regions.len(),
        regions[r].kind == MemoryRegionKind::Usable,
        usable_frames(regions)[i] % (FRAME_SIZE as int) == 0,
        regions[r].start <= usable_frames(regions)[i],
        usable_frames(regions)[i] + FRAME_SIZE <= regions[r].end,
{
    let place = lemma_frame_place(regions, i);
    let region = regions[place.0];
    lemma_round_up_bounds(region.start as int, FRAME_SIZE as int);
    place.0
}

/// No frame is handed out twice: where the usable regions of the map are
/// disjoint, any two frames that the map offers are a whole frame apart.
pub proof fn lemma_frames_never_reused(regions: Seq<MemoryRegion>, i: int, j: int)
    requires
        usable_regions_disjoint(regions),
        0 <= i < j < usable_frames(regions).len(),
    ensures
        usable_frames(regions)[i] + FRAME_SIZE <= usable_frames(regions)[j] || usable_frames(
            regions,
        )[j] + FRAME_SIZE <= usable_frames(regions)[i],
{
    let pi = lemma_frame_place(regions, i);
    let pj = lemma_frame_place(regions, j);
    lemma_round_up_bounds(regions[pi.0].start as int, FRAME_SIZE as int);
    lemma_round_up_bounds(regions[pj.0].start as int, FRAME_SIZE as int);
    if pi.0 < pj.0 {
        assert(regions[pi.0].end <= regions[pj.0].start || regions[pj.0].end
            <= regions[pi.0].start);
    } else if pj.0 < pi.0 {
        assert(regions[pj.0].end <= regions[pi.0].start || regions[pi.0].end
            <= regions[pj.0].start);
    }
}

} // verus!
