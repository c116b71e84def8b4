//! Block-spin coarse-graining: how agents are grouped into blocks.
//!
//! A block transformation groups `b` consecutive agents (in input order,
//! or in order of position) into one block. This module states and proves
//! which agents make up each block, how many blocks there are, and that
//! every agent lands in exactly one block.
use vstd::arithmetic::div_mod::lemma_fundamental_div_mod_converse;
use vstd::prelude::*;

verus! {

/// Strategy for grouping agents into blocks.
#[derive(Clone, Copy, Debug, PartialEq, Eq, Structural)]
pub enum BlockingStrategy {
    /// Sequential grouping: agents 0..b, b..2b, etc.
    Sequential,
    /// Spatial grouping based on nearest neighbors
    SpatialNearest,
    /// Majority rule: block spin = sign of mean belief
    MajorityRule,
}

/// Configuration for a block transformation.
#[derive(Clone, Copy, Debug, PartialEq, Eq, Structural)]
pub struct BlockTransform {
    /// Current scale level
    pub scale: usize,
    /// Number of agents per block
    pub block_size: usize,
}

/// The agents that make up one block: which input positions, which agent ids.
#[derive(Debug)]
pub struct BlockLayout {
    /// Block identifier (its index among the blocks)
    pub id: usize,
    /// Positions, in the input agent slice, of the block's agents
    pub members: Vec<usize>,
    /// Ids of the block's agents, in the order of `members`
    pub agents: Vec<usize>,
    /// Number of agents in the block
    pub size: usize,
}

/// The number of agents per block actually used: a block size of 0 counts as 1.
pub open spec fn block_width(block_size: usize) -> nat {
    if block_size == 0 {
        1
    } else {
        block_size as nat
    }
}

/// Number of blocks that `n` agents form with `w` agents per block: ceil(n / w).
pub open spec fn block_count(n: nat, w: nat) -> nat {
    if n == 0 {
        0
    } else {
        ((n - 1) as nat / w + 1) as nat
    }
}

/// One past the last position of block `k`: min(k*w + w, n).
pub open spec fn block_end(n: nat, w: nat, k: int) -> int {
    if k * w + w <= n {
        k * w + w
    } else {
        n as int
    }
}

/// The positions (entries of `order`) that form block `k`: order[k*w .. min(k*w + w, n)].
pub open spec fn block_members(order: Seq<usize>, w: nat, k: int) -> Seq<usize> {
    order.subrange(k * w, block_end(order.len(), w, k))
}

/// Total number of agents in blocks `0..k`.
pub open spec fn covered(order: Seq<usize>, w: nat, k: nat) -> nat
    decreases k,
{
    if k == 0 {
        0
    } else {
        covered(order, w, (k - 1) as nat) + block_members(order, w, k - 1).len()
    }
}

/// The identity arrangement 0, 1, ..., n-1.
pub open spec fn identity_order(n: nat) -> Seq<usize> {
    Seq::new(n, |i: int| i as usize)
}

/// The arrangement a strategy blocks in: by position for `SpatialNearest`,
/// input order otherwise.
pub open spec fn strategy_order(
    strategy: BlockingStrategy,
    n: nat,
    position_order: Seq<usize>,
) -> Seq<usize> {
    match strategy {
        BlockingStrategy::SpatialNearest => position_order,
        _ => identity_order(n),
    }
}

/// On input that is already sorted by position (the position order is the
/// input order), spatial blocking groups exactly as the other strategies do.
pub proof fn lemma_sorted_input_spatial_is_sequential(
    n: nat,
    strategy: BlockingStrategy,
    position_order: Seq<usize>,
)
    ensures
        strategy_order(BlockingStrategy::SpatialNearest, n, identity_order(n)) == strategy_order(
            BlockingStrategy::Sequential,
            n,
            position_order,
        ),
        strategy != BlockingStrategy::SpatialNearest ==> strategy_order(strategy, n, position_order)
            == identity_order(n),
{
}

/// `blocks` is the layout of `order` (positions into `ids`) with `w` agents per block.
pub open spec fn is_layout_of(blocks: Seq<BlockLayout>, ids: Seq<usize>, order: Seq<usize>, w: nat) -> bool {
    &&& blocks.len() == block_count(order.len(), w)
    &&& forall|k: int|
        0 <= k < blocks.len() ==> {
            &&& (#[trigger] blocks[k]).id == k
            &&& blocks[k].members@ == block_members(order, w, k)
            &&& blocks[k].agents@ == blocks[k].members@.map_values(|p: usize| ids[p as int])
            &&& blocks[k].size == blocks[k].members@.len()
        }
}

/// Turning the blocks of a layout into the agents of the next step (one agent
/// per block, with the block's id) numbers those agents 0, 1, ..., count-1.
pub proof fn lemma_next_level_ids_are_consecutive(
    blocks: Seq<BlockLayout>,
    ids: Seq<usize>,
    order: Seq<usize>,
    w: nat,
    next_ids: Seq<usize>,
)
    requires
        is_layout_of(blocks, ids, order, w),
        next_ids.len() == blocks.len(),
        forall|k: int| 0 <= k < blocks.len() ==> #[trigger] next_ids[k] == blocks[k].id,
    ensures
        next_ids == identity_order(block_count(order.len(), w)),
{
    assert forall|k: int| 0 <= k < next_ids.len() implies next_ids[k] == identity_order(
        block_count(order.len(), w),
    )[k] by {
        assert(blocks[k].id == k);
    }
    assert(next_ids =~= identity_order(block_count(order.len(), w)));
}

/// Every entry of `order` indexes into a slice of length `n`.
pub open spec fn indexes_within(order: Seq<usize>, n: nat) -> bool {
    forall|p: int| 0 <= p < order.len() ==> #[trigger] order[p] < n
}

/// Ceil characterisation used by the loop: k*w >= n > (k-1)*w gives k = ceil(n/w).
proof fn lemma_ceiling_from_bounds(n: nat, w: nat, k: nat)
    requires
        w > 0,
        n > 0,
        k > 0,
        (k - 1) * w < n,
        n <= k * w,
    ensures
        k == block_count(n, w),
{
    let q = k - 1;
    let r = (n - 1) - q * w;
    assert(q * w + w == k * w) by (nonlinear_arith)
        requires
            q == k - 1,
    ;
    lemma_fundamental_div_mod_converse((n - 1) as int, w as int, q as int, r as int);
}

/// Block `k` (of the ceil(n/w) blocks) starts at k*w and ends after at most w
/// positions, within 0..n.
pub proof fn lemma_block_bounds(n: nat, w: nat, k: int)
    requires
        w > 0,
        0 <= k < block_count(n, w),
    ensures
        0 <= k * w < block_end(n, w, k) <= n,
        block_end(n, w, k) - k * w <= w,
{
    lemma_block_count_is_ceiling(n, w);
    let c = block_count(n, w);
    assert(0 <= k * w <= (c - 1) * w) by (nonlinear_arith)
        requires
            0 <= k <= c - 1,
            w > 0,
    ;
}

/// A block count of ceil(n/w): k blocks of w agents cover n, k-1 do not.
pub proof fn lemma_block_count_is_ceiling(n: nat, w: nat)
    requires
        w > 0,
    ensures
        block_count(n, w) * w >= n,
        n > 0 ==> (block_count(n, w) - 1) * w < n,
        block_count(n, w) <= n,
        n > 0 ==> block_count(n, w) >= 1,
{
    if n > 0 {
        let q = (n - 1) as nat / w;
        let r = (n - 1) as nat % w;
        vstd::arithmetic::div_mod::lemma_fundamental_div_mod((n - 1) as int, w as int);
        assert(block_count(n, w) == q + 1);
        assert((q + 1) * w == q * w + w) by (nonlinear_arith);
        assert(w * q == q * w) by (nonlinear_arith);
        assert(q * w >= q) by (nonlinear_arith)
            requires
                w >= 1,
        ;
    }
}

/// Position `p` lies in block p / w, at offset p % w, and in no other block.
pub proof fn lemma_position_in_unique_block(order: Seq<usize>, w: nat, p: int)
    requires
        w > 0,
        0 <= p < order.len(),
    ensures
        ({
            let k = p / (w as int);
            &&& 0 <= k < block_count(order.len(), w)
            &&& k * w <= p < block_end(order.len(), w, k)
            &&& block_members(order, w, k)[p - k * w] == order[p]
            &&& p - k * w == p % (w as int)
        }),
        forall|k2: int|
            0 <= k2 < block_count(order.len(), w) && k2 * w <= p && p < block_end(order.len(), w, k2)
                ==> k2 == p / (w as int),
{
    let n = order.len();
    let wi = w as int;
    let k = p / wi;
    vstd::arithmetic::div_mod::lemma_fundamental_div_mod(p, wi);
    assert(wi * k == k * wi) by (nonlinear_arith);
    assert(0 <= p % wi < wi) by {
        vstd::arithmetic::div_mod::lemma_mod_bound(p, wi);
    }
    assert(k >= 0) by {
        vstd::arithmetic::div_mod::lemma_div_pos_is_pos(p, wi);
    }
    lemma_block_count_is_ceiling(n, w);
    // k < ceil(n/w): since k*w <= p <= n-1, k <= (n-1)/w
    assert(k <= (n - 1) as int / wi) by {
        vstd::arithmetic::div_mod::lemma_div_is_ordered(p, (n - 1) as int, wi);
    }
    assert forall|k2: int|
        0 <= k2 < block_count(n, w) && k2 * w <= p && p < block_end(n, w, k2) implies k2 == k by {
        let r2 = p - k2 * wi;
        assert(r2 < wi);
        lemma_fundamental_div_mod_converse(p, wi, k2, r2);
    }
}

/// If no position occurs twice in `order`, each agent position that occurs in it
/// belongs to exactly one block, at exactly one offset.
pub proof fn lemma_agent_in_exactly_one_block(order: Seq<usize>, w: nat, j: usize)
    requires
        w > 0,
        order.no_duplicates(),
        order.contains(j),
    ensures
        exists|k: int, t: int|
            0 <= k < block_count(order.len(), w) && 0 <= t < block_members(order, w, k).len()
                && #[trigger] block_members(order, w, k)[t] == j,
        forall|k1: int, t1: int, k2: int, t2: int|
            0 <= k1 < block_count(order.len(), w) && 0 <= t1 < block_members(order, w, k1).len()
                && 0 <= k2 < block_count(order.len(), w) && 0 <= t2 < block_members(
                order,
                w,
                k2,
            ).len() && #[trigger] block_members(order, w, k1)[t1] == j
                && #[trigger] block_members(order, w, k2)[t2] == j ==> k1 == k2 && t1 == t2,
{
    let n = order.len();
    let p = choose|p: int| 0 <= p < n && order[p] == j;
    lemma_position_in_unique_block(order, w, p);
    let k = p / (w as int);
    assert(block_members(order, w, k)[p - k * w] == j);
    assert forall|k1: int, t1: int, k2: int, t2: int|
        0 <= k1 < block_count(n, w) && 0 <= t1 < block_members(order, w, k1).len() && 0 <= k2
            < block_count(n, w) && 0 <= t2 < block_members(order, w, k2).len()
            && #[trigger] block_members(order, w, k1)[t1] == j
            && #[trigger] block_members(order, w, k2)[t2] == j implies k1 == k2 && t1 == t2 by {
        lemma_block_bounds(n, w, k1);
        lemma_block_bounds(n, w, k2);
        let p1 = k1 * w + t1;
        let p2 = k2 * w + t2;
        assert(order[p1] == j);
        assert(order[p2] == j);
        assert(p1 == p2);
        lemma_position_in_unique_block(order, w, p1);
    }
}

/// The sizes of the blocks add up to the number of agents: blocks 0..k cover min(k*w, n).
pub proof fn lemma_covered_prefix(order: Seq<usize>, w: nat, k: nat)
    requires
        w > 0,
        k <= block_count(order.len(), w),
    ensures
        covered(order, w, k) == (if k * w <= order.len() {
            k * w
        } else {
            order.len()
        }),
    decreases k,
{
    let n = order.len();
    lemma_block_count_is_ceiling(n, w);
    if k == 0 {
        assert(k * w == 0) by (nonlinear_arith)
            requires
                k == 0,
        ;
    } else {
        lemma_covered_prefix(order, w, (k - 1) as nat);
        let km = (k - 1) as int;
        lemma_block_bounds(n, w, km);
        assert(km * w + w == k * w) by (nonlinear_arith)
            requires
                km == k - 1,
        ;
        assert(km * w <= (block_count(n, w) - 1) * w) by (nonlinear_arith)
            requires
                km <= block_count(n, w) - 1,
        ;
    }
}

/// Conservation under coarse-graining: the block sizes add up to the agent count.
pub proof fn lemma_block_sizes_sum_to_agent_count(order: Seq<usize>, w: nat)
    requires
        w > 0,
    ensures
        covered(order, w, block_count(order.len(), w)) == order.len(),
{
    lemma_block_count_is_ceiling(order.len(), w);
    lemma_covered_prefix(order, w, block_count(order.len(), w));
}

/// Each block holds between 1 and w agents; every block but the last holds exactly w.
pub proof fn lemma_block_sizes(order: Seq<usize>, w: nat, k: int)
    requires
        w > 0,
        0 <= k < block_count(order.len(), w),
    ensures
        1 <= block_members(order, w, k).len() <= w,
        k + 1 < block_count(order.len(), w) ==> block_members(order, w, k).len() == w,
{
    let n = order.len();
    lemma_block_count_is_ceiling(n, w);
    let c = block_count(n, w);
    assert(k * w <= (c - 1) * w) by (nonlinear_arith)
        requires
            k <= c - 1,
    ;
    if k + 1 < c {
        assert(k * w + w <= (c - 1) * w) by (nonlinear_arith)
            requires
                k + 1 <= c - 1,
        ;
    }
}

/// With a block size `b` > 0, every block but the last holds exactly `b`
/// agents, the last between 1 and `b`, and there are ceil(n / b) blocks:
/// `b` times the count covers all agents, one block fewer does not.
pub proof fn lemma_blocks_hold_block_size(order: Seq<usize>, block_size: usize, k: int)
    requires
        block_size > 0,
        0 <= k < block_count(order.len(), block_width(block_size)),
    ensures
        k + 1 < block_count(order.len(), block_width(block_size)) ==> block_members(
            order,
            block_width(block_size),
            k,
        ).len() == block_size,
        1 <= block_members(order, block_width(block_size), k).len() <= block_size,
        block_count(order.len(), block_width(block_size)) * block_size >= order.len(),
        (block_count(order.len(), block_width(block_size)) - 1) * block_size < order.len(),
{
    lemma_block_sizes(order, block_width(block_size), k);
    lemma_block_count_is_ceiling(order.len(), block_width(block_size));
}

/// A block size of 0 groups the agents one by one: n blocks of one agent.
pub proof fn lemma_zero_block_size_is_singletons(order: Seq<usize>, k: int)
    requires
        0 <= k < order.len(),
    ensures
        block_count(order.len(), block_width(0)) == order.len(),
        block_members(order, block_width(0), k) == seq![order[k]],
{
    lemma_block_count_is_ceiling(order.len(), block_width(0));
    assert(block_members(order, block_width(0), k) =~= seq![order[k]]);
}

impl BlockTransform {
    /// Create a new block transform at given scale with given block size.
    pub fn new(scale: usize, block_size: usize) -> (bt: Self)
        ensures
            bt.scale == scale,
            bt.block_size == block_size,
    {
        BlockTransform { scale, block_size }
    }

    /// Number of agents per block actually used (a block size of 0 counts as 1).
    pub fn block_width(&self) -> (w: usize)
        ensures
            w == block_width(self.block_size),
            w >= 1,
            self.block_size > 0 ==> w == self.block_size,
            self.block_size == 0 ==> w == 1,
    {
        if self.block_size == 0 {
            1
        } else {
            self.block_size
        }
    }

    /// Group the agents arranged in `order` into consecutive blocks of
    /// `block_width` agents; the last block takes what is left.
    /// `ids[p]` is the id of the agent at input position `p`.
    pub fn layout(&self, ids: &[usize], order: &[usize]) -> (blocks: Vec<BlockLayout>)
        requires
            order@.len() == ids@.len(),
            indexes_within(order@, ids@.len()),
        ensures
            is_layout_of(blocks@, ids@, order@, block_width(self.block_size)),
    {
        let w = self.block_width();
        let n = order.len();
        let ghost wn = w as nat;
        let mut blocks: Vec<BlockLayout> = Vec::new();
        let mut start: usize = 0;
        let mut k: usize = 0;
        while start < n
            invariant
                n == order@.len(),
                n == ids@.len(),
                indexes_within(order@, ids@.len()),
                w == block_width(self.block_size),
                wn == w,
                w >= 1,
                start <= n,
                start < n ==> start == k * w,
                start == n ==> n <= k * w,
                k > 0 ==> (k - 1) * w < n,
                k <= n,
                blocks@.len() == k,
                forall|i: int|
                    0 <= i < k ==> {
                        &&& (#[trigger] blocks@[i]).id == i
                        &&& blocks@[i].members@ == block_members(order@, wn, i)
                        &&& blocks@[i].agents@ == blocks@[i].members@.map_values(
                            |p: usize| ids@[p as int],
                        )
                        &&& blocks@[i].size == blocks@[i].members@.len()
                    },
            decreases n - start,
        {
            let end: usize = if n - start < w {
                n
            } else {
                start + w
            };
            assert(end == block_end(n as nat, wn, k as int));
            let mut members: Vec<usize> = Vec::new();
            let mut agent_ids: Vec<usize> = Vec::new();
            let mut p: usize = start;
            while p < end
                invariant
                    start <= p <= end,
                    end <= n,
                    n == order@.len(),
                    n == ids@.len(),
                    indexes_within(order@, ids@.len()),
                    members@ == order@.subrange(start as int, p as int),
                    agent_ids@ == members@.map_values(|q: usize| ids@[q as int]),
                decreases end - p,
            {
                let q = order[p];
                members.push(q);
                agent_ids.push(ids[q]);
                p = p + 1;
                assert(members@ == order@.subrange(start as int, p as int));
            }
            let block = BlockLayout { id: k, members, agents: agent_ids, size: end - start };
            let ghost prev = blocks@;
            blocks.push(block);
            assert(blocks@[k as int].members@ == block_members(order@, wn, k as int));
            assert forall|i: int| 0 <= i < k implies #[trigger] blocks@[i] == prev[i] by {}
            assert(k * w + w == (k + 1) * w) by (nonlinear_arith);
            if n - start <= w {
                start = n;
            } else {
                start = start + w;
            }
            assert(k < n) by (nonlinear_arith)
                requires
                    k * w < n,
                    w >= 1,
            ;
            k = k + 1;
        }
        proof {
            if n > 0 {
                lemma_ceiling_from_bounds(n as nat, wn, k as nat);
            }
        }
        blocks
    }

    /// Group agents into blocks as `strategy` does: `SpatialNearest` blocks the
    /// agents in `position_order` (their input positions sorted by position),
    /// the other strategies block them in input order.
    pub fn transform(
        &self,
        ids: &[usize],
        strategy: BlockingStrategy,
        position_order: &[usize],
    ) -> (blocks: Vec<BlockLayout>)
        requires
            strategy == BlockingStrategy::SpatialNearest ==> position_order@.len() == ids@.len()
                && indexes_within(position_order@, ids@.len()),
        ensures
            is_layout_of(
                blocks@,
                ids@,
                strategy_order(strategy, ids@.len(), position_order@),
                block_width(self.block_size),
            ),
    {
        match strategy {
            BlockingStrategy::SpatialNearest => self.layout(ids, position_order),
            _ => {
                let order = identity_arrangement(ids.len());
                self.layout(ids, order.as_slice())
            },
        }
    }
}

/// The arrangement 0, 1, ..., n-1 (agents in input order).
pub fn identity_arrangement(n: usize) -> (order: Vec<usize>)
    ensures
        order@ == identity_order(n as nat),
{
    let mut order: Vec<usize> = Vec::new();
    let mut i: usize = 0;
    while i < n
        invariant
            i <= n,
            order@ == identity_order(i as nat),
        decreases n - i,
    {
        order.push(i);
        i = i + 1;
    }
    order
}

/// Ids of the agents that the blocks become for the next coarse-graining step:
/// each block becomes one agent whose id is the block's id.
pub fn block_ids(blocks: &[BlockLayout]) -> (ids: Vec<usize>)
    ensures
        ids@.len() == blocks@.len(),
        forall|k: int| 0 <= k < blocks@.len() ==> #[trigger] ids@[k] == blocks@[k].id,
{
    let mut ids: Vec<usize> = Vec::new();
    let mut k: usize = 0;
    while k < blocks.len()
        invariant
            k <= blocks@.len(),
            ids@.len() == k,
            forall|i: int| 0 <= i < k ==> #[trigger] ids@[i] == blocks@[i].id,
        decreases blocks@.len() - k,
    {
        ids.push(blocks[k].id);
        k = k + 1;
    }
    ids
}

} // verus!
