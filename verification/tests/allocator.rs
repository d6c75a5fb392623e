use kernel::allocator::{
    align_up, init_heap, is_power_of_two, memstat, DummyAllocator, HEAP_SIZE,
};

#[test]
fn capacity_is_one_hundred_kibibytes() {
    assert_eq!(HEAP_SIZE, 102400);
    assert_eq!(HEAP_SIZE, 100 * 1024);
}

#[test]
fn align_up_keeps_aligned_addresses() {
    assert_eq!(align_up(0, 8), 0);
    assert_eq!(align_up(8, 8), 8);
    assert_eq!(align_up(4096, 4096), 4096);
    assert_eq!(align_up(5, 1), 5);
}

#[test]
fn align_up_rounds_to_next_multiple() {
    assert_eq!(align_up(1, 8), 8);
    assert_eq!(align_up(7, 8), 8);
    assert_eq!(align_up(9, 8), 16);
    assert_eq!(align_up(9, 16), 16);
    assert_eq!(align_up(4097, 4096), 8192);
    assert_eq!(align_up(3, 2), 4);
}

#[test]
fn align_up_reaches_top_of_address_space() {
    let top = usize::MAX - 7;
    assert_eq!(align_up(top, 8), top);
    assert_eq!(align_up(top - 1, 8), top);
}

#[test]
fn fresh_heap_is_empty() {
    let heap = init_heap(0x4000_0000);
    assert_eq!(memstat(&heap), (0, 102400));
}

#[test]
fn first_block_starts_at_base() {
    let mut heap = init_heap(0x1000);
    assert_eq!(heap.allocate(10, 8), Some(0x1000));
    assert_eq!(memstat(&heap), (10, 102400));
}

#[test]
fn second_block_is_aligned_past_first() {
    let mut heap = init_heap(0x1000);
    assert_eq!(heap.allocate(10, 8), Some(0x1000));
    assert_eq!(heap.allocate(4, 8), Some(0x1010));
    assert_eq!(memstat(&heap), (20, 102400));
    assert_eq!(heap.allocate(1, 1), Some(0x1014));
    assert_eq!(heap.allocate(8, 64), Some(0x1040));
    assert_eq!(memstat(&heap), (0x48, 102400));
}

#[test]
fn alignment_is_of_the_address_not_the_offset() {
    let mut heap = init_heap(3);
    assert_eq!(heap.allocate(4, 8), Some(8));
    assert_eq!(memstat(&heap), (9, 102400));
}

#[test]
fn returned_blocks_are_aligned_in_range_and_disjoint() {
    let base = 0x10_0003;
    let mut heap = init_heap(base);
    let requests: [(usize, usize); 8] =
        [(1, 1), (24, 8), (3, 2), (100, 64), (0, 16), (4096, 4096), (7, 4), (512, 256)];
    let mut blocks: Vec<(usize, usize)> = Vec::new();
    for (size, align) in requests {
        let addr = heap.allocate(size, align).unwrap();
        assert_eq!(addr % align, 0);
        assert!(base <= addr);
        assert!(addr + size <= base + HEAP_SIZE);
        for &(other, len) in blocks.iter() {
            assert!(other + len <= addr);
        }
        blocks.push((addr, size));
    }
    let (used, total) = memstat(&heap);
    let (last, len) = blocks[blocks.len() - 1];
    assert_eq!(used, last + len - base);
    assert_eq!(total, HEAP_SIZE);
}

#[test]
fn whole_arena_can_be_taken_at_once() {
    let mut heap = init_heap(0x2000);
    assert_eq!(heap.allocate(102400, 1), Some(0x2000));
    assert_eq!(memstat(&heap), (102400, 102400));
}

#[test]
fn request_beyond_capacity_fails_and_keeps_cursor() {
    let mut heap = init_heap(0x2000);
    assert_eq!(heap.allocate(102401, 1), None);
    assert_eq!(memstat(&heap), (0, 102400));
    assert_eq!(heap.allocate(100, 4), Some(0x2000));
    assert_eq!(heap.allocate(102400, 1), None);
    assert_eq!(memstat(&heap), (100, 102400));
    assert_eq!(heap.allocate(102300, 1), Some(0x2064));
    assert_eq!(memstat(&heap), (102400, 102400));
}

#[test]
fn exhausted_arena_fails_every_further_byte() {
    let mut heap = init_heap(0x2000);
    assert_eq!(heap.allocate(102400, 1), Some(0x2000));
    assert_eq!(heap.allocate(1, 1), None);
    assert_eq!(heap.allocate(1, 8), None);
    assert_eq!(memstat(&heap), (102400, 102400));
}

#[test]
fn padding_counts_against_capacity() {
    let mut heap = init_heap(0x2000);
    assert_eq!(heap.allocate(102393, 1), Some(0x2000));
    assert_eq!(heap.allocate(1, 8), None);
    assert_eq!(memstat(&heap), (102393, 102400));
    assert_eq!(heap.allocate(7, 1), Some(0x2000 + 102393));
}

#[test]
fn empty_block_at_the_end_of_a_full_arena() {
    let mut heap = init_heap(0x2000);
    assert_eq!(heap.allocate(102400, 1), Some(0x2000));
    assert_eq!(heap.allocate(0, 1), Some(0x2000 + 102400));
    assert_eq!(memstat(&heap), (102400, 102400));
}

#[test]
fn dealloc_changes_nothing() {
    let mut heap = init_heap(0x3000);
    let a = heap.allocate(32, 8).unwrap();
    let before = memstat(&heap);
    heap.dealloc(a, 32, 8);
    assert_eq!(memstat(&heap), before);
    assert_eq!(heap.allocate(32, 8), Some(a + 32));
    heap.dealloc(a + 32, 32, 8);
    heap.dealloc(a, 32, 8);
    assert_eq!(memstat(&heap), (64, 102400));
}

#[test]
fn used_never_decreases() {
    let mut heap = init_heap(0x5000);
    let mut last = 0;
    let sizes: [usize; 7] = [1, 60000, 50000, 12, 40000, 5000, 1];
    for size in sizes {
        let got = heap.allocate(size, 16);
        if let Some(addr) = got {
            heap.dealloc(addr, size, 16);
        }
        let (used, total) = memstat(&heap);
        assert!(used >= last);
        assert!(used <= total);
        last = used;
    }
    assert_eq!(last, 100033);
}

#[test]
fn same_requests_give_same_addresses() {
    let run = |heap: &mut DummyAllocator| -> Vec<Option<usize>> {
        vec![
            heap.allocate(5, 4),
            heap.allocate(200000, 8),
            heap.allocate(64, 64),
            heap.allocate(1, 1),
        ]
    };
    let mut one = init_heap(0x7001);
    let mut two = init_heap(0x7001);
    let first = run(&mut one);
    assert_eq!(first, run(&mut two));
    assert_eq!(first, vec![Some(0x7004), None, Some(0x7040), Some(0x7080)]);
}

#[test]
fn block_whose_address_cannot_be_represented_fails() {
    let base = usize::MAX - 10;
    let mut heap = init_heap(base);
    assert_eq!(heap.allocate(4, 16), None);
    assert_eq!(memstat(&heap), (0, 102400));
    assert_eq!(heap.allocate(4, 1), Some(base));
    assert_eq!(memstat(&heap), (4, 102400));
}

#[test]
fn reinitialising_resets_the_cursor() {
    let mut heap = init_heap(0x1000);
    heap.allocate(100, 1).unwrap();
    heap = init_heap(0x9000);
    assert_eq!(memstat(&heap), (0, 102400));
    assert_eq!(heap.allocate(1, 1), Some(0x9000));
}

#[test]
fn powers_of_two_are_recognised() {
    assert!(!is_power_of_two(0));
    assert!(is_power_of_two(1));
    assert!(is_power_of_two(2));
    assert!(!is_power_of_two(3));
    assert!(is_power_of_two(4096));
    assert!(!is_power_of_two(4097));
    assert!(is_power_of_two(1 << (usize::BITS - 1)));
    assert!(!is_power_of_two(usize::MAX));
    for n in 0..10000usize {
        assert_eq!(is_power_of_two(n), n.is_power_of_two());
    }
}

#[test]
fn copy_records_the_state_at_the_time_of_the_copy() {
    let mut heap = init_heap(0x1000);
    heap.allocate(16, 8).unwrap();
    let record = heap;
    heap.allocate(16, 8).unwrap();
    assert_eq!(memstat(&record), (16, 102400));
    assert_eq!(memstat(&heap), (32, 102400));
}
