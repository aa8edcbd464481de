use anyvmd::arena::{arena_reset, Bump, ARENA_SIZE};

#[test]
fn blocks_are_aligned_to_sixteen() {
    let mut heap = Bump { off: 0 };
    assert_eq!(heap.allocate(4096, 10, 1), Some(4096));
    assert_eq!(heap.off, 10);
    assert_eq!(heap.allocate(4096, 3, 8), Some(4112));
    assert_eq!(heap.off, 19);
}

#[test]
fn blocks_get_a_larger_alignment() {
    let mut heap = Bump { off: 1 };
    assert_eq!(heap.allocate(4096, 8, 64), Some(4160));
    assert_eq!(heap.off, 72);
}

#[test]
fn alignment_is_of_the_address() {
    let mut heap = Bump { off: 0 };
    assert_eq!(heap.allocate(4100, 4, 16), Some(4112));
    assert_eq!(heap.off, 16);
}

#[test]
fn blocks_do_not_overlap() {
    let mut heap = Bump { off: 0 };
    let mut end = 0;
    let mut size = 1;
    while let Some(start) = heap.allocate(65536, size, 32) {
        assert!(start >= end);
        end = start + size;
        size += 977;
    }
    assert!(end <= 65536 + ARENA_SIZE);
}

#[test]
fn a_full_arena_gives_nothing_and_stays() {
    let mut heap = Bump { off: 0 };
    assert_eq!(heap.allocate(4096, ARENA_SIZE, 16), Some(4096));
    assert_eq!(heap.allocate(4096, 1, 1), None);
    assert_eq!(heap.off, ARENA_SIZE);
    assert_eq!(heap.allocate(4096, 0, 1), Some(4096 + ARENA_SIZE));
}

#[test]
fn a_block_that_is_too_large_is_refused() {
    let mut heap = Bump { off: 0 };
    assert_eq!(heap.allocate(4096, ARENA_SIZE + 1, 16), None);
    assert_eq!(heap.allocate(4096, usize::MAX, 16), None);
    assert_eq!(heap.allocate(4096, 1, 1 << 40), None);
    assert_eq!(heap.off, 0);
}

#[test]
fn reset_gives_everything_back() {
    let mut heap = Bump { off: 0 };
    assert_eq!(heap.allocate(4096, ARENA_SIZE, 16), Some(4096));
    arena_reset(&mut heap);
    assert_eq!(heap.off, 0);
    assert_eq!(heap.allocate(4096, ARENA_SIZE, 16), Some(4096));
}
