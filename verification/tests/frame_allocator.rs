use kernel::frame_allocator::{first_frame_of, seek, BootInfoFrameAllocator, FRAME_SIZE};
use kernel::memory::{MemoryRegion, MemoryRegionKind};

fn usable(start: u64, end: u64) -> MemoryRegion {
    MemoryRegion { start, end, kind: MemoryRegionKind::Usable }
}

fn taken(start: u64, end: u64) -> MemoryRegion {
    MemoryRegion { start, end, kind: MemoryRegionKind::Bootloader }
}

fn drain(map: &[MemoryRegion]) -> Vec<u64> {
    let mut frames = Vec::new();
    let mut allocator = BootInfoFrameAllocator::new(map);
    while let Some(frame) = allocator.allocate_frame() {
        frames.push(frame);
    }
    assert_eq!(allocator.allocate_frame(), None);
    assert_eq!(allocator.allocate_frame(), None);
    frames
}

#[test]
fn frame_size_is_four_kibibytes() {
    assert_eq!(FRAME_SIZE, 4096);
}

#[test]
fn empty_map_is_depleted_at_once() {
    assert_eq!(drain(&[]), Vec::<u64>::new());
}

#[test]
fn frames_come_in_map_order_from_usable_regions_only() {
    let map = [
        usable(0x1000, 0x4000),
        taken(0x4000, 0x8000),
        usable(0x8000, 0xA000),
        MemoryRegion { start: 0xA000, end: 0xF000, kind: MemoryRegionKind::UnknownBios(2) },
    ];
    assert_eq!(drain(&map), vec![0x1000, 0x2000, 0x3000, 0x8000, 0x9000]);
}

#[test]
fn regions_are_served_in_the_order_of_the_map() {
    let map = [usable(0x8000, 0xA000), usable(0x1000, 0x3000)];
    assert_eq!(drain(&map), vec![0x8000, 0x9000, 0x1000, 0x2000]);
}

#[test]
fn only_whole_frames_are_handed_out() {
    let map = [usable(0x1800, 0x4800)];
    assert_eq!(drain(&map), vec![0x2000, 0x3000]);
    let map = [usable(0x1001, 0x2fff)];
    assert_eq!(drain(&map), Vec::<u64>::new());
    let map = [usable(0x1001, 0x3000)];
    assert_eq!(drain(&map), vec![0x2000]);
}

#[test]
fn regions_without_a_frame_are_skipped() {
    let map = [
        usable(0x100, 0x200),
        usable(0x3000, 0x3000),
        usable(0x5000, 0x4000),
        taken(0x6000, 0x9000),
        usable(0x9000, 0xA000),
        usable(0xA800, 0xB000),
    ];
    assert_eq!(drain(&map), vec![0x9000]);
}

#[test]
fn region_at_the_top_of_the_address_space() {
    let top = u64::MAX - 0xfff;
    assert_eq!(drain(&[usable(top - 0x1000, u64::MAX)]), vec![top - 0x1000]);
    assert_eq!(drain(&[usable(top + 1, u64::MAX)]), Vec::<u64>::new());
    assert_eq!(drain(&[usable(top, u64::MAX)]), Vec::<u64>::new());
}

#[test]
fn frames_are_aligned_disjoint_and_within_their_region() {
    let map = [usable(0x10_0000, 0x14_0000), taken(0x14_0000, 0x20_0000), usable(0x20_0800, 0x23_0000)];
    let frames = drain(&map);
    assert_eq!(frames.len(), 64 + 47);
    for (i, f) in frames.iter().enumerate() {
        assert_eq!(f % 4096, 0);
        assert!(map.iter().any(|r| r.kind == MemoryRegionKind::Usable
            && r.start <= *f
            && f + 4096 <= r.end));
        for g in frames[..i].iter() {
            assert!(g + 4096 <= *f || f + 4096 <= *g);
        }
    }
}

#[test]
fn first_frame_is_the_first_whole_frame() {
    assert_eq!(first_frame_of(&usable(0x1000, 0x2000)), Some(0x1000));
    assert_eq!(first_frame_of(&usable(0x1001, 0x3000)), Some(0x2000));
    assert_eq!(first_frame_of(&usable(0x1001, 0x2fff)), None);
    assert_eq!(first_frame_of(&usable(0, 4095)), None);
    assert_eq!(first_frame_of(&usable(0, 4096)), Some(0));
    assert_eq!(first_frame_of(&taken(0x1000, 0x9000)), None);
    assert_eq!(first_frame_of(&usable(u64::MAX - 5, u64::MAX)), None);
}

#[test]
fn seek_finds_the_next_region_with_a_frame() {
    let map = [usable(0, 100), taken(0x1000, 0x3000), usable(0x3800, 0x6000), usable(0x8000, 0x9000)];
    assert_eq!(seek(&map, 0), (2, 0x4000));
    assert_eq!(seek(&map, 2), (2, 0x4000));
    assert_eq!(seek(&map, 3), (3, 0x8000));
    assert_eq!(seek(&map, 4).0, 4);
    assert_eq!(seek(&map[..2], 0).0, 2);
}
