use kernel::allocator::{init_heap, memstat};
use kernel::memory::{heap_start, usable_region, MemoryRegion, MemoryRegionKind};

fn region(start: u64, end: u64, kind: MemoryRegionKind) -> MemoryRegion {
    MemoryRegion { start, end, kind }
}

#[test]
fn empty_map_has_no_usable_region() {
    assert_eq!(usable_region(&[]), None);
}

#[test]
fn map_without_usable_region() {
    let map = [
        region(0, 0x1000, MemoryRegionKind::Bootloader),
        region(0x1000, 0x2000, MemoryRegionKind::UnknownBios(2)),
        region(0x2000, 0x3000, MemoryRegionKind::UnknownUefi(7)),
    ];
    assert_eq!(usable_region(&map), None);
}

#[test]
fn last_usable_region_is_selected() {
    let map = [
        region(0, 0x1000, MemoryRegionKind::Usable),
        region(0x1000, 0x9000, MemoryRegionKind::Bootloader),
        region(0x10_0000, 0x80_0000, MemoryRegionKind::Usable),
        region(0x80_0000, 0x90_0000, MemoryRegionKind::UnknownBios(2)),
    ];
    assert_eq!(usable_region(&map), Some(map[2]));
}

#[test]
fn only_usable_region_is_selected_wherever_it_stands() {
    let first = [
        region(0x5000, 0x6000, MemoryRegionKind::Usable),
        region(0x6000, 0x7000, MemoryRegionKind::Bootloader),
    ];
    assert_eq!(usable_region(&first), Some(first[0]));
    let last = [
        region(0x6000, 0x7000, MemoryRegionKind::Bootloader),
        region(0x5000, 0x6000, MemoryRegionKind::Usable),
    ];
    assert_eq!(usable_region(&last), Some(last[1]));
}

#[test]
fn heap_start_adds_the_mapping_offset() {
    let r = region(0x10_0000, 0x80_0000, MemoryRegionKind::Usable);
    assert_eq!(heap_start(0x1800_0000_0000, &r), Some(0x1800_0010_0000));
    assert_eq!(heap_start(0, &r), Some(0x10_0000));
}

#[test]
fn heap_start_fails_beyond_the_address_space() {
    let r = region(0x2000, 0x3000, MemoryRegionKind::Usable);
    assert_eq!(heap_start(u64::MAX - 0x1000, &r), None);
    assert_eq!(heap_start(u64::MAX - 0x2000, &r), Some(usize::MAX));
}

#[test]
fn heap_starts_at_the_mapped_start_of_the_last_usable_region() {
    let map = [
        region(0, 0x1000, MemoryRegionKind::Usable),
        region(0x10_0000, 0x80_0000, MemoryRegionKind::Usable),
        region(0x80_0000, 0x90_0000, MemoryRegionKind::Bootloader),
    ];
    let chosen = usable_region(&map).unwrap();
    let mut heap = init_heap(heap_start(0x4000_0000, &chosen).unwrap());
    assert_eq!(memstat(&heap), (0, 102400));
    assert_eq!(heap.allocate(8, 8), Some(0x4010_0000));
}
