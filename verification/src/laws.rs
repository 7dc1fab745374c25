use vstd::prelude::*;
use vstd::arithmetic::power2::is_pow2;
use crate::hash_function::HashFunction;
use crate::levels::{lemma_half_pow2, lemma_tree_of, pair_digests, root_digest};
use crate::merkle_proof::{apply_step, first_match, lemma_first_match, mirrored_pair_digests, pair_holds, proof_steps, replay, step_at};
use crate::merkle_tree::MerkleTree;
use crate::padding::{lemma_padded_len_is_least, pad};
use crate::utils::{digest_of, fifo_reduce};

verus! {

/// Whether the walk for `target` keeps to the tree: at every level that has
/// more than one item, the first pair of the walk's level that holds the
/// value looked for is, in the same order, a pair of the tree's level.
/// `walk` is the level as the walk sees it, `level` the same level of the
/// tree.
pub open spec fn walk_keeps_to_tree(
    walk: Seq<Seq<u8>>,
    level: Seq<Seq<u8>>,
    target: Seq<u8>,
    hash_function: HashFunction,
) -> bool
    decreases level.len(),
{
    &&& walk.len() == level.len()
    &&& level.len() <= 1 || match first_match(walk, target, 0) {
        None => false,
        Some(pair) => {
            &&& exists|j: int|
                0 <= j && 2 * j + 1 < level.len() && walk[2 * pair] == level[2 * j] && walk[2 * pair
                    + 1] == #[trigger] level[2 * j + 1]
            &&& walk_keeps_to_tree(
                mirrored_pair_digests(walk, hash_function),
                pair_digests(level, hash_function),
                digest_of(hash_function, walk[2 * pair] + walk[2 * pair + 1]),
                hash_function,
            )
        },
    }
}

/// Whether the levels that the walk sees are the levels of the tree: at every
/// level that is paired up to more than one digest, hashing each pair with
/// its sides exchanged gives what hashing it in order gives.
pub open spec fn levels_agree(level: Seq<Seq<u8>>, hash_function: HashFunction) -> bool
    decreases level.len(),
{
    level.len() <= 2 || {
        &&& mirrored_pair_digests(level, hash_function) == pair_digests(level, hash_function)
        &&& levels_agree(pair_digests(level, hash_function), hash_function)
    }
}

/// The step recorded at a pair leads from the target to the digest of the
/// pair in order.
pub proof fn lemma_step_hashes_pair(level: Seq<Seq<u8>>, target: Seq<u8>, pair: int, hash_function: HashFunction)
    requires
        pair_holds(level, target, pair),
    ensures
        apply_step(target, step_at(level, target, pair), hash_function) == digest_of(
            hash_function,
            level[2 * pair] + level[2 * pair + 1],
        ),
{
}

/// A walk that keeps to the tree leads to the root: replaying its steps from
/// the target gives the root digest of the level it started from.
pub proof fn lemma_walk_reaches_root(
    walk: Seq<Seq<u8>>,
    level: Seq<Seq<u8>>,
    target: Seq<u8>,
    hash_function: HashFunction,
)
    requires
        level.contains(target),
        walk_keeps_to_tree(walk, level, target, hash_function),
    ensures
        replay(target, proof_steps(walk, target, hash_function), hash_function) == root_digest(
            level,
            hash_function,
        ),
    decreases level.len(),
{
    if level.len() <= 1 {
    } else {
        lemma_first_match(walk, target, 0);
        let pair = first_match(walk, target, 0)->Some_0;
        let step = step_at(walk, target, pair);
        let up = mirrored_pair_digests(walk, hash_function);
        let next = digest_of(hash_function, walk[2 * pair] + walk[2 * pair + 1]);
        lemma_step_hashes_pair(walk, target, pair, hash_function);
        let j = choose|j: int|
            0 <= j && 2 * j + 1 < level.len() && walk[2 * pair] == level[2 * j] && walk[2 * pair + 1]
                == #[trigger] level[2 * j + 1];
        assert(pair_digests(level, hash_function)[j] == next);
        lemma_walk_reaches_root(up, pair_digests(level, hash_function), next, hash_function);
        let rest = proof_steps(up, next, hash_function);
        assert(rest.push(step).drop_last() =~= rest);
    }
}

/// Where the levels the walk sees are the levels of the tree, the walk for
/// any item of the level keeps to the tree.
pub proof fn lemma_agreeing_levels_keep_walk(level: Seq<Seq<u8>>, target: Seq<u8>, hash_function: HashFunction)
    requires
        is_pow2(level.len() as int),
        level.contains(target),
        levels_agree(level, hash_function),
    ensures
        walk_keeps_to_tree(level, level, target, hash_function),
    decreases level.len(),
{
    reveal(is_pow2);
    if level.len() <= 1 {
    } else {
        lemma_half_pow2(level.len() as int);
        let k = choose|k: int| 0 <= k < level.len() && level[k] == target;
        assert(pair_holds(level, target, k / 2));
        lemma_first_match(level, target, 0);
        let pair = first_match(level, target, 0)->Some_0;
        let up = pair_digests(level, hash_function);
        let next = digest_of(hash_function, level[2 * pair] + level[2 * pair + 1]);
        let mirrored = mirrored_pair_digests(level, hash_function);
        if level.len() == 2 {
            assert(walk_keeps_to_tree(mirrored, up, next, hash_function));
        } else {
            assert(up[pair] == next);
            lemma_agreeing_levels_keep_walk(up, next, hash_function);
            assert(walk_keeps_to_tree(mirrored, up, next, hash_function));
        }
    }
}

/// Round trip. For an item of a built tree whose walk keeps to the tree,
/// replaying the steps of its proof from the item gives the block header.
pub proof fn lemma_proof_verifies(tree: MerkleTree, leaf: Seq<u8>)
    requires
        tree.wf(),
        pad(tree.items()).contains(leaf),
        walk_keeps_to_tree(pad(tree.items()), pad(tree.items()), leaf, tree.hash_function),
    ensures
        replay(
            leaf,
            proof_steps(pad(tree.items()), leaf, tree.hash_function),
            tree.hash_function,
        ) == tree.block_header@,
{
    lemma_tree_of(tree.items(), tree.hash_function);
    lemma_walk_reaches_root(pad(tree.items()), pad(tree.items()), leaf, tree.hash_function);
}

/// Round trip, for the lists whose levels agree: tree over one or two items
/// among them. Replaying the proof of any item of the padded list gives the
/// block header.
pub proof fn lemma_proof_verifies_on_agreeing_levels(tree: MerkleTree, leaf: Seq<u8>)
    requires
        tree.wf(),
        pad(tree.items()).contains(leaf),
        levels_agree(pad(tree.items()), tree.hash_function),
    ensures
        replay(
            leaf,
            proof_steps(pad(tree.items()), leaf, tree.hash_function),
            tree.hash_function,
        ) == tree.block_header@,
{
    lemma_padded_len_is_least(tree.items().len());
    lemma_agreeing_levels_keep_walk(pad(tree.items()), leaf, tree.hash_function);
    lemma_proof_verifies(tree, leaf);
}

/// A list of one or two items is padded to two, and its levels agree.
pub proof fn lemma_short_lists_agree(items: Seq<Seq<u8>>, hash_function: HashFunction)
    requires
        0 < items.len() <= 2,
    ensures
        pad(items).len() == 2,
        levels_agree(pad(items), hash_function),
{
    reveal(is_pow2);
    lemma_padded_len_is_least(items.len());
}

/// Determinism. Two trees built over the same items with the same hash
/// function have the same block header and the same height.
pub proof fn lemma_build_is_deterministic(first: MerkleTree, second: MerkleTree)
    requires
        first.wf(),
        second.wf(),
        first.items() == second.items(),
        first.hash_function == second.hash_function,
    ensures
        first.block_header@ == second.block_header@,
        first.height == second.height,
        first.root@ == second.root@,
{
}

/// A tree that items were appended to is the tree built over the whole
/// list: `grown` stands for the tree after `add_tx`, `fresh` for the one
/// built over the earlier items followed by the appended ones.
pub proof fn lemma_append_matches_fresh(
    grown: MerkleTree,
    fresh: MerkleTree,
    earlier: Seq<Seq<u8>>,
    appended: Seq<Seq<u8>>,
)
    requires
        grown.wf(),
        fresh.wf(),
        grown.items() == earlier + appended,
        fresh.items() == earlier + appended,
        grown.hash_function == fresh.hash_function,
    ensures
        grown.block_header@ == fresh.block_header@,
        grown.height == fresh.height,
        grown.root@ == fresh.root@,
{
}

/// A digest of another hash function is never the block header: a value of
/// the length of `other`'s digests differs from the block header of a tree
/// built with a different function.
pub proof fn lemma_other_function_differs(tree: MerkleTree, other: HashFunction, candidate: Seq<u8>)
    requires
        tree.wf(),
        other != tree.hash_function,
        candidate.len() == other.digest_len(),
    ensures
        candidate != tree.block_header@,
{
}

/// The queue that hashing from the front works on, after `done` pairs of
/// `level` were taken: the rest of the level, then the digests of the pairs
/// taken.
pub open spec fn queue_after(level: Seq<Seq<u8>>, done: int, hash_function: HashFunction) -> Seq<Seq<u8>> {
    level.skip(2 * done) + pair_digests(level, hash_function).take(done)
}

proof fn lemma_queue_drains(level: Seq<Seq<u8>>, done: int, hash_function: HashFunction)
    requires
        level.len() % 2 == 0,
        0 <= done <= level.len() / 2,
    ensures
        fifo_reduce(queue_after(level, done, hash_function), hash_function) == fifo_reduce(
            pair_digests(level, hash_function),
            hash_function,
        ),
    decreases level.len() / 2 - done,
{
    let up = pair_digests(level, hash_function);
    let queue = queue_after(level, done, hash_function);
    if done == level.len() / 2 {
        assert(queue =~= up);
    } else {
        assert(queue.skip(2).push(digest_of(hash_function, queue[0] + queue[1])) =~= queue_after(
            level,
            done + 1,
            hash_function,
        ));
        lemma_queue_drains(level, done + 1, hash_function);
    }
}

/// On a list whose length is a power of two, hashing from the front until
/// one entry is left gives the root digest of the list.
pub proof fn lemma_fifo_reduce_is_root_digest(level: Seq<Seq<u8>>, hash_function: HashFunction)
    requires
        is_pow2(level.len() as int),
    ensures
        fifo_reduce(level, hash_function) == root_digest(level, hash_function),
    decreases level.len(),
{
    reveal(is_pow2);
    if level.len() > 1 {
        lemma_half_pow2(level.len() as int);
        lemma_queue_drains(level, 0, hash_function);
        assert(queue_after(level, 0, hash_function) =~= level);
        lemma_fifo_reduce_is_root_digest(pair_digests(level, hash_function), hash_function);
    }
}

} // verus!
