//! The boot memory map and what the kernel takes from it.

use vstd::prelude::*;

verus! {

/// What a region of physical memory is used for.
#[derive(Clone, Copy, Debug, PartialEq, Eq, Structural)]
pub enum MemoryRegionKind {
    /// Unused memory, free for the kernel.
    Usable,
    /// Memory taken by the boot loader's mappings and the kernel image.
    Bootloader,
    /// A region of a kind unknown to the UEFI firmware, with its type tag.
    UnknownUefi(u32),
    /// A region of a kind unknown to the BIOS firmware, with its type tag.
    UnknownBios(u32),
}

/// A region of physical memory, from `start` up to but not including `end`.
#[derive(Clone, Copy, Debug, PartialEq, Eq, Structural)]
pub struct MemoryRegion {
    /// The physical address of the first byte.
    pub start: u64,
    /// The physical address after the last byte.
    pub end: u64,
    /// What the region is used for.
    pub kind: MemoryRegionKind,
}

/// The last usable region of the map, if it has one.
pub open spec fn last_usable(regions: Seq<MemoryRegion>) -> Option<MemoryRegion>
    decreases regions.len(),
{
    if regions.len() == 0 {
        None
    } else if regions.last().kind == MemoryRegionKind::Usable {
        Some(regions.last())
    } else {
        last_usable(regions.drop_last())
    }
}

/// The last usable region is a usable region of the map that no usable
/// region follows, and there is none exactly when no region is usable.
pub proof fn lemma_last_usable(regions: Seq<MemoryRegion>)
    ensures
        match last_usable(regions) {
            Some(r) => exists|i: int|
                {
                    &&& 0 <= i < regions.len()
                    &&& #[trigger] regions[i] == r
                    &&& r.kind == MemoryRegionKind::Usable
                    &&& forall|j: int|
                        i < j < regions.len() ==> (#[trigger] regions[j]).kind
                            != MemoryRegionKind::Usable
                },
            None => forall|j: int|
                0 <= j < regions.len() ==> (#[trigger] regions[j]).kind
                    != MemoryRegionKind::Usable,
        },
    decreases regions.len(),
{
    if regions.len() > 0 {
        let init = regions.drop_last();
        if regions.last().kind == MemoryRegionKind::Usable {
            assert(regions[regions.len() - 1] == regions.last());
        } else {
            lemma_last_usable(init);
            match last_usable(init) {
                Some(r) => {
                    let i = choose|i: int|
                        {
                            &&& 0 <= i < init.len()
                            &&& #[trigger] init[i] == r
                            &&& r.kind == MemoryRegionKind::Usable
                            &&& forall|j: int|
                                i < j < init.len() ==> (#[trigger] init[j]).kind
                                    != MemoryRegionKind::Usable
                        };
                    assert(regions[i] == r);
                    assert forall|j: int| i < j < regions.len() implies (#[trigger] regions[j]).kind
                        != MemoryRegionKind::Usable by {
                        if j < init.len() {
                            assert(init[j] == regions[j]);
                        }
                    }
                },
                None => {
                    assert forall|j: int| 0 <= j < regions.len() implies (#[trigger] regions[j]).kind
                        != MemoryRegionKind::Usable by {
                        if j < init.len() {
                            assert(init[j] == regions[j]);
                        }
                    }
                },
            }
        }
    }
}

/// Selects the region that the kernel builds its heap in: the last usable
/// region of the map.
pub fn usable_region(regions: &[MemoryRegion]) -> (r: Option<MemoryRegion>)
    ensures
        r == last_usable(regions@),
{
    let mut found: Option<MemoryRegion> = None;
    let mut i: usize = 0;
    while i < regions.len()
        invariant
            i <= regions.len(),
            found == last_usable(regions@.take(i as int)),
        decreases regions.len() - i,
    {
        let region = regions[i];
        proof {
            assert(regions@.take(i + 1).drop_last() == regions@.take(i as int));
            assert(regions@.take(i + 1).last() == region);
        }
        match region.kind {
            MemoryRegionKind::Usable => {
                found = Some(region);
            },
            _ => {},
        }
        i = i + 1;
    }
    proof {
        assert(regions@.take(i as int) == regions@);
    }
    found
}

/// The address at which the kernel sees physical address `physical`, where
/// all physical memory is mapped at `physical_offset`.
pub open spec fn mapped(physical_offset: u64, physical: u64) -> int {
    physical_offset + physical
}

/// The virtual address of the start of `region`, or `None` where that
/// address does not fit a machine word.
pub fn heap_start(physical_offset: u64, region: &MemoryRegion) -> (r: Option<usize>)
    ensures
        match r {
            Some(addr) => addr == mapped(physical_offset, region.start),
            None => mapped(physical_offset, region.start) > usize::MAX,
        },
{
    match physical_offset.checked_add(region.start) {
        Some(addr) => {
            if addr <= usize::MAX as u64 {
                Some(addr as usize)
            } else {
                None
            }
        },
        None => None,
    }
}

} // verus!
