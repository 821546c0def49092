use viz::stats::{MEDIUM_LIMIT, SMALL_LIMIT};
use viz::{block_stats, BlockStats, MemoryBlock};

fn block(size: usize, is_free: bool) -> MemoryBlock {
    MemoryBlock { addr: 0, size, is_free }
}

#[test]
fn size_classes_have_fixed_limits() {
    assert_eq!(SMALL_LIMIT, 32);
    assert_eq!(MEDIUM_LIMIT, 128);
}

#[test]
fn stats_of_no_blocks_are_zero() {
    assert_eq!(
        block_stats(&[]),
        BlockStats { small_blocks: 0, medium_blocks: 0, large_blocks: 0, used_bytes: 0, free_bytes: 0 }
    );
}

#[test]
fn blocks_are_counted_by_size_class() {
    let blocks = [
        block(0, true),
        block(31, false),
        block(32, false),
        block(127, true),
        block(128, false),
        block(4096, true),
        block(16, false),
    ];
    assert_eq!(
        block_stats(&blocks),
        BlockStats {
            small_blocks: 3,
            medium_blocks: 2,
            large_blocks: 2,
            used_bytes: 31 + 32 + 128 + 16,
            free_bytes: 127 + 4096,
        }
    );
}

#[test]
fn bytes_add_up_beyond_a_machine_word() {
    let blocks = [block(usize::MAX, false), block(usize::MAX, false), block(usize::MAX, true)];
    let stats = block_stats(&blocks);
    assert_eq!(stats.used_bytes, 2 * (usize::MAX as u128));
    assert_eq!(stats.free_bytes, usize::MAX as u128);
    assert_eq!(stats.large_blocks, 3);
}
