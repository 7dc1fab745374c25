use vstd::prelude::*;
use vstd::arithmetic::power2::{is_pow2, lemma_pow2_unfold, pow2, lemma2_to64};
use crate::hash_data_structures::{HashLeafView, HashNodeView};
use crate::hash_function::HashFunction;
use crate::padding::{lemma_padded_len_is_least, pad, padded_len};
use crate::utils::digest_of;

verus! {

/// The next level up: the digest of each pair of neighbours, the left one
/// before the right one.
pub open spec fn pair_digests(level: Seq<Seq<u8>>, hash_function: HashFunction) -> Seq<Seq<u8>> {
    Seq::new(
        level.len() / 2,
        |i: int| digest_of(hash_function, level[2 * i] + level[2 * i + 1]),
    )
}

/// What is left when a level is paired up again and again until one digest
/// remains.
pub open spec fn root_digest(level: Seq<Seq<u8>>, hash_function: HashFunction) -> Seq<u8>
    decreases level.len(),
{
    if level.len() == 0 {
        Seq::empty()
    } else if level.len() == 1 {
        level[0]
    } else {
        root_digest(pair_digests(level, hash_function), hash_function)
    }
}

/// The least `k` with `n <= 2^k`.
pub open spec fn ceil_log2(n: nat) -> nat
    decreases n,
{
    if n <= 1 {
        0
    } else {
        1 + ceil_log2((n + 1) / 2)
    }
}

/// The nodes of height 1: one for each pair of neighbouring items.
pub open spec fn leaf_forest(items: Seq<Seq<u8>>, hash_function: HashFunction) -> Seq<HashNodeView> {
    Seq::new(
        items.len() / 2,
        |i: int| HashLeafView::pair(items[2 * i], items[2 * i + 1], hash_function).as_node(),
    )
}

/// The parents of each pair of neighbouring nodes.
pub open spec fn join_pairs(forest: Seq<HashNodeView>, hash_function: HashFunction) -> Seq<HashNodeView> {
    Seq::new(
        forest.len() / 2,
        |i: int| HashNodeView::join(forest[2 * i], forest[2 * i + 1], hash_function),
    )
}

/// The node that is left when the nodes are joined in pairs, level by level.
pub open spec fn reduce(forest: Seq<HashNodeView>, hash_function: HashFunction) -> HashNodeView
    decreases forest.len(),
{
    if forest.len() <= 1 {
        forest[0]
    } else {
        reduce(join_pairs(forest, hash_function), hash_function)
    }
}

/// The root of the tree over `items`, which are padded first.
pub open spec fn tree_of(items: Seq<Seq<u8>>, hash_function: HashFunction) -> HashNodeView {
    reduce(leaf_forest(pad(items), hash_function), hash_function)
}

/// The digests that a row of nodes holds.
pub open spec fn digests(forest: Seq<HashNodeView>) -> Seq<Seq<u8>> {
    Seq::new(forest.len(), |i: int| forest[i].data)
}

/// The leaf digests of a row of nodes, from left to right.
pub open spec fn row_leaves(forest: Seq<HashNodeView>) -> Seq<Seq<u8>>
    decreases forest.len(),
{
    if forest.len() == 0 {
        Seq::empty()
    } else {
        row_leaves(forest.drop_last()) + forest.last().leaf_digests()
    }
}

/// A row of nodes in which every node is well formed, of height `height`,
/// and hashed with `hash_function`.
pub open spec fn uniform(forest: Seq<HashNodeView>, hash_function: HashFunction, height: int) -> bool {
    forall|i: int|
        0 <= i < forest.len() ==> {
            &&& (#[trigger] forest[i]).wf()
            &&& forest[i].hash_function == hash_function
            &&& forest[i].height == height
        }
}

/// Half of a power of two that is at least 2 is a power of two.
pub proof fn lemma_half_pow2(n: int)
    requires
        is_pow2(n),
        n >= 2,
    ensures
        is_pow2(n / 2),
        n % 2 == 0,
{
    reveal(is_pow2);
}

/// `ceil_log2(n)` is the least `k` with `n <= 2^k`.
pub proof fn lemma_ceil_log2_is_least(n: nat)
    requires
        n >= 1,
    ensures
        n <= pow2(ceil_log2(n)),
        ceil_log2(n) > 0 ==> pow2((ceil_log2(n) - 1) as nat) < n,
    decreases n,
{
    if n <= 1 {
        lemma2_to64();
    } else {
        let half = (n + 1) / 2;
        lemma_ceil_log2_is_least(half as nat);
        lemma_pow2_unfold(ceil_log2(n));
        if ceil_log2(half as nat) > 0 {
            lemma_pow2_unfold(ceil_log2(half as nat));
        } else {
            lemma2_to64();
        }
    }
}

/// For a power of two, `2^ceil_log2(n)` is `n` itself.
pub proof fn lemma_ceil_log2_pow2(n: nat)
    requires
        is_pow2(n as int),
    ensures
        pow2(ceil_log2(n)) == n,
    decreases n,
{
    reveal(is_pow2);
    if n <= 1 {
        lemma2_to64();
    } else {
        lemma_ceil_log2_pow2(n / 2);
        lemma_pow2_unfold(ceil_log2(n));
    }
}

/// Joining a uniform row in pairs gives a uniform row, one higher, whose
/// digests are the row's digests paired up.
pub proof fn lemma_join_pairs(forest: Seq<HashNodeView>, hash_function: HashFunction, height: int)
    requires
        uniform(forest, hash_function, height),
    ensures
        uniform(join_pairs(forest, hash_function), hash_function, height + 1),
        digests(join_pairs(forest, hash_function)) == pair_digests(digests(forest), hash_function),
{
}

/// Joining a row in pairs keeps its leaf digests.
pub proof fn lemma_join_pairs_keeps_leaves(forest: Seq<HashNodeView>, hash_function: HashFunction)
    requires
        forest.len() % 2 == 0,
    ensures
        row_leaves(join_pairs(forest, hash_function)) == row_leaves(forest),
    decreases forest.len(),
{
    let joined = join_pairs(forest, hash_function);
    if forest.len() >= 2 {
        let shorter = forest.drop_last().drop_last();
        lemma_join_pairs_keeps_leaves(shorter, hash_function);
        assert(joined.drop_last() =~= join_pairs(shorter, hash_function));
        assert(row_leaves(forest) == row_leaves(forest.drop_last()) + forest.last().leaf_digests());
    }
}

/// The leaf digests of the nodes of height 1 are the digests of the pairs
/// of items.
pub proof fn lemma_leaf_forest_leaves(items: Seq<Seq<u8>>, hash_function: HashFunction)
    ensures
        row_leaves(leaf_forest(items, hash_function)) == pair_digests(items, hash_function),
    decreases items.len(),
{
    let forest = leaf_forest(items, hash_function);
    if forest.len() > 0 {
        let shorter = items.take(2 * (forest.len() - 1));
        lemma_leaf_forest_leaves(shorter, hash_function);
        assert(forest.drop_last() =~= leaf_forest(shorter, hash_function));
    }
}

/// Reducing a uniform row whose length is a power of two gives a well-formed
/// node that holds the row's root digest, stands `ceil_log2` of the length
/// above the row, and has the row's leaf digests.
pub proof fn lemma_reduce(forest: Seq<HashNodeView>, hash_function: HashFunction, height: int)
    requires
        is_pow2(forest.len() as int),
        uniform(forest, hash_function, height),
    ensures
        reduce(forest, hash_function).wf(),
        reduce(forest, hash_function).hash_function == hash_function,
        reduce(forest, hash_function).height == height + ceil_log2(forest.len()),
        reduce(forest, hash_function).data == root_digest(digests(forest), hash_function),
        reduce(forest, hash_function).leaf_digests() == row_leaves(forest),
    decreases forest.len(),
{
    reveal(is_pow2);
    if forest.len() <= 1 {
        assert(row_leaves(forest.drop_last()) + forest.last().leaf_digests()
            =~= forest[0].leaf_digests());
    } else {
        lemma_half_pow2(forest.len() as int);
        lemma_join_pairs(forest, hash_function, height);
        lemma_join_pairs_keeps_leaves(forest, hash_function);
        lemma_reduce(join_pairs(forest, hash_function), hash_function, height + 1);
    }
}

/// The tree over a list of items is well formed, holds the root digest of
/// the padded list, and its height is `ceil_log2` of the padded length, so
/// at least 1. Its leaves hold the digests of the pairs of padded items, in
/// their order.
pub proof fn lemma_tree_of(items: Seq<Seq<u8>>, hash_function: HashFunction)
    requires
        items.len() > 0,
    ensures
        tree_of(items, hash_function).wf(),
        tree_of(items, hash_function).hash_function == hash_function,
        tree_of(items, hash_function).data == root_digest(pad(items), hash_function),
        tree_of(items, hash_function).height == ceil_log2(padded_len(items.len())),
        tree_of(items, hash_function).height >= 1,
        pow2(tree_of(items, hash_function).height as nat) == padded_len(items.len()),
        tree_of(items, hash_function).leaf_digests() == pair_digests(pad(items), hash_function),
{
    lemma_padded_len_is_least(items.len());
    lemma_leaf_forest_leaves(pad(items), hash_function);
    let padded = pad(items);
    let forest = leaf_forest(padded, hash_function);
    lemma_half_pow2(padded.len() as int);
    lemma_reduce(forest, hash_function, 1);
    assert(digests(forest) =~= pair_digests(padded, hash_function));
    lemma_ceil_log2_pow2(padded.len());
}

} // verus!
