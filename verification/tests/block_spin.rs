use renormalization_group::block_spin::{
    block_ids, identity_arrangement, BlockLayout, BlockTransform, BlockingStrategy,
};

fn uniform_ids(n: usize) -> Vec<usize> {
    (0..n).collect()
}

fn sequential_blocks(bt: &BlockTransform, ids: &[usize]) -> Vec<BlockLayout> {
    bt.transform(ids, BlockingStrategy::Sequential, &[])
}

#[test]
fn test_block_transform_reduces_count() {
    let agents = uniform_ids(16);
    let bt = BlockTransform::new(1, 4);
    let blocks = sequential_blocks(&bt, &agents);
    assert_eq!(blocks.len(), 4); // 16 / 4 = 4 blocks
}

#[test]
fn test_block_transform_non_divisible() {
    let agents = uniform_ids(10);
    let bt = BlockTransform::new(1, 3);
    let blocks = sequential_blocks(&bt, &agents);
    assert_eq!(blocks.len(), 4); // ceil(10/3) = 4 blocks
}

#[test]
fn test_blocks_to_agents_roundtrip() {
    let agents = uniform_ids(8);
    let bt = BlockTransform::new(1, 4);
    let blocks = sequential_blocks(&bt, &agents);
    let new_agents = block_ids(&blocks);
    assert_eq!(new_agents.len(), 2); // 8/4 = 2
    assert_eq!(new_agents[0], 0);
    assert_eq!(new_agents[1], 1);
}

#[test]
fn test_iterative_coarse_graining() {
    let agents = uniform_ids(64);
    // Three levels of coarse-graining: 64 -> 16 -> 4 -> 1
    let bt1 = BlockTransform::new(1, 4);
    let blocks1 = sequential_blocks(&bt1, &agents);
    assert_eq!(blocks1.len(), 16);

    let agents2 = block_ids(&blocks1);
    let bt2 = BlockTransform::new(2, 4);
    let blocks2 = sequential_blocks(&bt2, &agents2);
    assert_eq!(blocks2.len(), 4);

    let agents3 = block_ids(&blocks2);
    let bt3 = BlockTransform::new(3, 4);
    let blocks3 = sequential_blocks(&bt3, &agents3);
    assert_eq!(blocks3.len(), 1);
}

#[test]
fn new_sets_scale_and_block_size() {
    let bt = BlockTransform::new(3, 7);
    assert_eq!(bt.scale, 3);
    assert_eq!(bt.block_size, 7);
}

#[test]
fn zero_block_size_counts_as_one() {
    let bt = BlockTransform::new(0, 0);
    assert_eq!(bt.block_width(), 1);
    let blocks = sequential_blocks(&bt, &uniform_ids(3));
    assert_eq!(blocks.len(), 3);
    for (k, b) in blocks.iter().enumerate() {
        assert_eq!(b.members, vec![k]);
        assert_eq!(b.size, 1);
    }
}

#[test]
fn no_agents_no_blocks() {
    let bt = BlockTransform::new(1, 4);
    assert!(sequential_blocks(&bt, &[]).is_empty());
}

#[test]
fn block_membership_ids_and_sizes() {
    // agents with ids 100..110, blocks of 3: [0,1,2] [3,4,5] [6,7,8] [9]
    let ids: Vec<usize> = (100..110).collect();
    let bt = BlockTransform::new(1, 3);
    let blocks = sequential_blocks(&bt, &ids);
    assert_eq!(blocks.len(), 4);
    assert_eq!(blocks[0].members, vec![0, 1, 2]);
    assert_eq!(blocks[0].agents, vec![100, 101, 102]);
    assert_eq!(blocks[3].members, vec![9]);
    assert_eq!(blocks[3].agents, vec![109]);
    assert_eq!(blocks[3].size, 1);
    for (k, b) in blocks.iter().enumerate() {
        assert_eq!(b.id, k);
    }
}

#[test]
fn block_sizes_sum_to_agent_count() {
    for n in 0..40usize {
        for b in 0..7usize {
            let bt = BlockTransform::new(1, b);
            let blocks = sequential_blocks(&bt, &uniform_ids(n));
            let total: usize = blocks.iter().map(|bl| bl.size).sum();
            assert_eq!(total, n);
            let w = b.max(1);
            assert_eq!(blocks.len(), (n + w - 1) / w);
        }
    }
}

#[test]
fn every_agent_in_exactly_one_block() {
    let order = vec![4, 2, 0, 6, 1, 5, 3];
    let ids: Vec<usize> = vec![10, 11, 12, 13, 14, 15, 16];
    let bt = BlockTransform::new(1, 2);
    let blocks = bt.layout(&ids, &order);
    for j in 0..7usize {
        let hits: usize = blocks
            .iter()
            .map(|b| b.members.iter().filter(|&&m| m == j).count())
            .sum();
        assert_eq!(hits, 1);
    }
}

#[test]
fn spatial_strategy_follows_position_order() {
    let ids = vec![7, 8, 9, 10];
    let by_position = vec![3, 1, 0, 2];
    let bt = BlockTransform::new(1, 2);
    let spatial = bt.transform(&ids, BlockingStrategy::SpatialNearest, &by_position);
    assert_eq!(spatial[0].members, vec![3, 1]);
    assert_eq!(spatial[0].agents, vec![10, 8]);
    assert_eq!(spatial[1].members, vec![0, 2]);
    assert_eq!(spatial[1].agents, vec![7, 9]);
    // the other strategies ignore the position order
    let majority = bt.transform(&ids, BlockingStrategy::MajorityRule, &by_position);
    assert_eq!(majority[0].members, vec![0, 1]);
    assert_eq!(majority[1].members, vec![2, 3]);
}

#[test]
fn sequential_and_spatial_agree_on_sorted_input() {
    let ids = uniform_ids(8);
    let bt = BlockTransform::new(1, 2);
    let seq = sequential_blocks(&bt, &ids);
    let spat = bt.transform(&ids, BlockingStrategy::SpatialNearest, &identity_arrangement(8));
    assert_eq!(seq.len(), spat.len());
    for (s, sp) in seq.iter().zip(spat.iter()) {
        assert_eq!(s.members, sp.members);
        assert_eq!(s.agents, sp.agents);
    }
}

#[test]
fn identity_arrangement_lists_positions() {
    assert_eq!(identity_arrangement(4), vec![0, 1, 2, 3]);
    assert!(identity_arrangement(0).is_empty());
}
