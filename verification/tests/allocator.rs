use kernel::allocator::bin::{
    bin_limit, find_aligned_node, find_containing_node, MIN_ALIGN, NUM_BINS,
};
use kernel::allocator::size::{block_size, calculate_bin_num, power_of_two_digit};
use kernel::allocator::util::is_power_of_two;
use kernel::allocator::{align_down, align_up, AllocErr, Allocator, Layout};

fn layout(size: usize, align: usize) -> Layout {
    Layout::from_size_align(size, align).expect("a power of two")
}

#[test]
fn align_down_to_multiples() {
    assert_eq!(align_down(0, 8), 0);
    assert_eq!(align_down(7, 8), 0);
    assert_eq!(align_down(8, 8), 8);
    assert_eq!(align_down(0x1234, 0x1000), 0x1000);
    assert_eq!(align_down(usize::MAX, 16), usize::MAX - 15);
    assert_eq!(align_down(13, 1), 13);
}

#[test]
fn align_up_to_multiples() {
    assert_eq!(align_up(0, 8), 0);
    assert_eq!(align_up(1, 8), 8);
    assert_eq!(align_up(8, 8), 8);
    assert_eq!(align_up(9, 8), 16);
    assert_eq!(align_up(0x1001, 0x1000), 0x2000);
    assert_eq!(align_up(usize::MAX - 15, 16), usize::MAX - 15);
    assert_eq!(align_up(usize::MAX - 17, 16), usize::MAX - 15);
}

#[test]
fn powers_of_two() {
    assert!(!is_power_of_two(0));
    assert!(is_power_of_two(1));
    assert!(is_power_of_two(2));
    assert!(!is_power_of_two(3));
    assert!(is_power_of_two(1 << 20));
    assert!(!is_power_of_two((1 << 20) + 1));
    assert!(!is_power_of_two(usize::MAX));
    assert!(is_power_of_two(1 << (usize::BITS - 1)));
}

#[test]
fn digits_and_bins() {
    assert_eq!(power_of_two_digit(0), 1);
    assert_eq!(power_of_two_digit(1), 1);
    assert_eq!(power_of_two_digit(2), 2);
    assert_eq!(power_of_two_digit(3), 3);
    assert_eq!(power_of_two_digit(8), 4);
    assert_eq!(power_of_two_digit(9), 5);
    assert_eq!(calculate_bin_num(0), 0);
    assert_eq!(calculate_bin_num(1), 0);
    assert_eq!(calculate_bin_num(2), 1);
    assert_eq!(calculate_bin_num(3), 2);
    assert_eq!(calculate_bin_num(4), 2);
    assert_eq!(calculate_bin_num(5), 3);
    assert_eq!(calculate_bin_num(1024), 10);
    assert_eq!(calculate_bin_num(1025), 11);
    assert_eq!(calculate_bin_num(usize::MAX), usize::BITS as usize);
    assert_eq!(block_size(0), 1);
    assert_eq!(block_size(10), 1024);
    assert_eq!(NUM_BINS, 39);
    assert_eq!(bin_limit(), 39);
    assert_eq!(MIN_ALIGN, 16);
}

#[test]
fn layouts_need_a_power_of_two() {
    assert!(Layout::from_size_align(8, 0).is_none());
    assert!(Layout::from_size_align(8, 3).is_none());
    assert!(Layout::from_size_align(8, 24).is_none());
    let made = layout(24, 8);
    assert_eq!(made.size(), 24);
    assert_eq!(made.align(), 8);
}

#[test]
fn aligned_node_nearest_the_head() {
    // The head is the end of the list.
    let list = vec![0x1000, 0x1008, 0x2000, 0x2004];
    assert_eq!(find_aligned_node(&list, 4), Some(3));
    assert_eq!(find_aligned_node(&list, 8), Some(2));
    assert_eq!(find_aligned_node(&list, 0x1000), Some(2));
    assert_eq!(find_aligned_node(&list, 0x4000), None);
    assert_eq!(find_aligned_node(&Vec::new(), 1), None);
}

#[test]
fn containing_node_is_cut_at_twice_the_alignment() {
    // A block of 256 bytes at 0x1030: the cut for alignment 32 lies at the
    // last multiple of 64 up to 0x1050.
    let list = vec![0x1030];
    assert_eq!(find_containing_node(&list, 32, 64, 256), Some((0, 0x1040)));
    // The allocation has to end within the block.
    assert_eq!(find_containing_node(&list, 32, 0xf0, 256), Some((0, 0x1040)));
    assert_eq!(find_containing_node(&list, 32, 0xf1, 256), None);
    // A block whose cut would lie at or before its beginning is not cut.
    assert_eq!(find_containing_node(&vec![0x1010], 32, 64, 256), None);
    assert_eq!(find_containing_node(&vec![0x2000], 0x1000, 1, 0x4000), None);
    assert_eq!(find_containing_node(&vec![0x1000], 0x1000, 1, 0x4000), Some((0, 0x2000)));
    assert_eq!(find_containing_node(&vec![0x3000], 0x1000, 1, 0x4000), Some((0, 0x4000)));
    // The block nearest the head is taken.
    assert_eq!(find_containing_node(&vec![0x1030, 0x2030], 32, 64, 256), Some((1, 0x2040)));
}

#[test]
fn fresh_memory_is_aligned_to_sixteen_at_least() {
    let mut allocator = Allocator::new(0x1001, 0x2000);
    assert_eq!(allocator.allocate(layout(8, 1)), Ok(0x1010));
    assert_eq!(allocator.allocate(layout(8, 8)), Ok(0x1020));
    assert_eq!(allocator.allocate(layout(1, 64)), Ok(0x1040));
    assert_eq!(allocator.allocate(layout(3, 2)), Ok(0x1050));
    assert_eq!(allocator.allocate(layout(0x100, 0x100)), Ok(0x1100));
}

#[test]
fn exhausted_when_the_block_would_reach_the_end() {
    let mut allocator = Allocator::new(0x1000, 0x1100);
    assert_eq!(allocator.allocate(layout(0x100, 16)), Err(AllocErr));
    assert_eq!(allocator.allocate(layout(0xff, 16)), Ok(0x1000));
    assert_eq!(allocator.allocate(layout(1, 1)), Err(AllocErr));
    let mut empty = Allocator::new(0x1000, 0x1000);
    assert_eq!(empty.allocate(layout(1, 1)), Err(AllocErr));
    let mut top = Allocator::new(usize::MAX - 7, usize::MAX);
    assert_eq!(top.allocate(layout(1, 1)), Err(AllocErr));
}

#[test]
fn sizes_beyond_the_largest_bin_cannot_be_served() {
    let mut allocator = Allocator::new(0x1000, usize::MAX);
    assert_eq!(allocator.allocate(layout((1 << 38) + 1, 16)), Err(AllocErr));
    assert_eq!(allocator.allocate(layout(usize::MAX, 1)), Err(AllocErr));
}

#[test]
fn a_freed_block_is_handed_out_again() {
    let mut allocator = Allocator::new(0x1000, 0x10000);
    let a = allocator.allocate(layout(64, 16)).unwrap();
    let b = allocator.allocate(layout(64, 16)).unwrap();
    assert_eq!((a, b), (0x1000, 0x1040));
    // A third block keeps the two freed ones from meeting fresh memory.
    let c = allocator.allocate(layout(64, 16)).unwrap();
    assert_eq!(c, 0x1080);
    allocator.dealloc(a, layout(64, 16));
    assert_eq!(allocator.allocate(layout(64, 16)), Ok(a));
    assert_eq!(allocator.allocate(layout(64, 16)), Ok(0x10c0));
}

#[test]
fn the_block_freed_last_is_reused_first() {
    let mut allocator = Allocator::new(0x1000, 0x10000);
    let a = allocator.allocate(layout(32, 16)).unwrap();
    let _gap = allocator.allocate(layout(32, 16)).unwrap();
    let c = allocator.allocate(layout(32, 16)).unwrap();
    let _end = allocator.allocate(layout(32, 16)).unwrap();
    allocator.dealloc(a, layout(32, 16));
    allocator.dealloc(c, layout(32, 16));
    assert_eq!(allocator.allocate(layout(32, 16)), Ok(c));
    assert_eq!(allocator.allocate(layout(32, 16)), Ok(a));
}

#[test]
fn neighbours_are_merged_into_the_next_bin() {
    let mut allocator = Allocator::new(0x1000, 0x10000);
    let a = allocator.allocate(layout(64, 16)).unwrap();
    let b = allocator.allocate(layout(64, 16)).unwrap();
    let _end = allocator.allocate(layout(64, 16)).unwrap();
    assert_eq!(b, a + 64);
    allocator.dealloc(a, layout(64, 16));
    allocator.dealloc(b, layout(64, 16));
    // The two blocks of 64 bytes are one block of 128 bytes now.
    assert_eq!(allocator.allocate(layout(128, 16)), Ok(a));
}

#[test]
fn a_larger_block_is_split() {
    let mut allocator = Allocator::new(0x1000, 0x10000);
    let big = allocator.allocate(layout(256, 16)).unwrap();
    let _end = allocator.allocate(layout(16, 16)).unwrap();
    allocator.dealloc(big, layout(256, 16));
    // 64 bytes come from the front of the block of 256 bytes; of the 192
    // bytes behind them, 128 go to their bin.
    assert_eq!(allocator.allocate(layout(64, 16)), Ok(big));
    assert_eq!(allocator.allocate(layout(128, 16)), Ok(big + 64));
}

#[test]
fn an_allocation_is_cut_out_of_a_misaligned_block() {
    let mut allocator = Allocator::new(0x1050, 0x10000);
    let big = allocator.allocate(layout(256, 16)).unwrap();
    assert_eq!(big, 0x1050);
    let _end = allocator.allocate(layout(16, 16)).unwrap();
    allocator.dealloc(big, layout(256, 16));
    // No listed block is aligned to 64; the cut lies at a multiple of 128.
    assert_eq!(allocator.allocate(layout(64, 64)), Ok(0x1080));
    // What lies before and behind the cut went back to the bins.
    assert_eq!(allocator.allocate(layout(32, 16)), Ok(0x1050));
    assert_eq!(allocator.allocate(layout(128, 64)), Ok(0x10c0));
}

#[test]
fn blocks_in_use_never_overlap() {
    let mut allocator = Allocator::new(0x1000, 0x100000);
    let sizes = [8usize, 24, 64, 100, 256, 16, 512, 48, 128, 1000, 32, 72];
    let mut live: Vec<(usize, usize)> = Vec::new();
    for round in 0..6 {
        for (n, size) in sizes.iter().enumerate() {
            let align = 1usize << ((n + round) % 7);
            let ptr = allocator.allocate(layout(*size, align)).expect("room is left");
            assert_eq!(ptr % align, 0);
            assert!(ptr >= 0x1000 && ptr + size < 0x100000);
            for (other, len) in &live {
                assert!(ptr + size <= *other || other + len <= ptr, "{:#x} overlaps {:#x}", ptr, other);
            }
            live.push((ptr, *size));
        }
        // Give every other block back.
        let mut kept = Vec::new();
        for (n, (ptr, size)) in live.drain(..).enumerate() {
            if n % 2 == round % 2 {
                allocator.dealloc(ptr, layout(size, 1));
            } else {
                kept.push((ptr, size));
            }
        }
        live = kept;
    }
}
