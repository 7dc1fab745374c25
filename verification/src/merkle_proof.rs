use vstd::prelude::*;
use crate::error::MerkleError;
use crate::hash_function::HashFunction;
use crate::merkle_tree::MerkleTree;
use crate::node::{copy_nodes, steps_view, Direction, Node, ProofStep};
use crate::levels::lemma_half_pow2;
use crate::padding::{lemma_padded_len_is_least, pad, pad_leaves, padded_len};
use crate::utils::{copy_bytes, digest_of, items_view, join_bytes, same_bytes, use_hasher};

verus! {

/// The level that the proof walk goes on with: the digest of each pair of
/// neighbours, the right one before the left one.
pub open spec fn mirrored_pair_digests(level: Seq<Seq<u8>>, hash_function: HashFunction) -> Seq<Seq<u8>> {
    Seq::new(
        level.len() / 2,
        |i: int| digest_of(hash_function, level[2 * i + 1] + level[2 * i]),
    )
}

/// Whether the pair at `pair` holds `target` on either side.
pub open spec fn pair_holds(level: Seq<Seq<u8>>, target: Seq<u8>, pair: int) -> bool {
    &&& 0 <= pair
    &&& 2 * pair + 1 < level.len()
    &&& (level[2 * pair + 1] == target || level[2 * pair] == target)
}

/// The first pair at or after `from` that holds `target`.
pub open spec fn first_match(level: Seq<Seq<u8>>, target: Seq<u8>, from: int) -> Option<int>
    decreases level.len() - 2 * from,
{
    if from < 0 || 2 * from + 1 >= level.len() {
        None
    } else if pair_holds(level, target, from) {
        Some(from)
    } else {
        first_match(level, target, from + 1)
    }
}

/// The step recorded at a pair that holds `target`: the other side of the
/// pair, the right side being looked at first.
pub open spec fn step_at(level: Seq<Seq<u8>>, target: Seq<u8>, pair: int) -> ProofStep {
    if level[2 * pair + 1] == target {
        ProofStep { direction: Direction::Left, sibling: level[2 * pair] }
    } else {
        ProofStep { direction: Direction::Right, sibling: level[2 * pair + 1] }
    }
}

/// The digest of `value` and a sibling, each on its side.
pub open spec fn apply_step(value: Seq<u8>, step: ProofStep, hash_function: HashFunction) -> Seq<u8> {
    match step.direction {
        Direction::Right => digest_of(hash_function, value + step.sibling),
        Direction::Left => digest_of(hash_function, step.sibling + value),
    }
}

/// The steps of the walk from `level` upwards, as they are stored: each new
/// step in front of the earlier ones, so that the step of `level` itself is
/// the last. The walk ends where a level has a single item, or where no pair
/// of it holds the target.
pub open spec fn proof_steps(level: Seq<Seq<u8>>, target: Seq<u8>, hash_function: HashFunction) -> Seq<ProofStep>
    decreases level.len(),
{
    if level.len() <= 1 {
        Seq::empty()
    } else {
        match first_match(level, target, 0) {
            None => Seq::empty(),
            Some(pair) => {
                let step = step_at(level, target, pair);
                proof_steps(
                    mirrored_pair_digests(level, hash_function),
                    apply_step(target, step, hash_function),
                    hash_function,
                ).push(step)
            },
        }
    }
}

/// The value reached from `leaf` by the stored steps, read from the last one
/// to the first.
pub open spec fn replay(leaf: Seq<u8>, steps: Seq<ProofStep>, hash_function: HashFunction) -> Seq<u8>
    decreases steps.len(),
{
    if steps.len() == 0 {
        leaf
    } else {
        replay(apply_step(leaf, steps.last(), hash_function), steps.drop_last(), hash_function)
    }
}

/// What `first_match` finds is the first pair from `from` on that holds the
/// target, and it finds none only where none holds it.
pub proof fn lemma_first_match(level: Seq<Seq<u8>>, target: Seq<u8>, from: int)
    requires
        0 <= from,
    ensures
        match first_match(level, target, from) {
            Some(pair) => from <= pair && pair_holds(level, target, pair) && forall|j: int|
                from <= j < pair ==> !pair_holds(level, target, j),
            None => forall|j: int| from <= j ==> !pair_holds(level, target, j),
        },
    decreases level.len() - 2 * from,
{
    if 2 * from + 1 >= level.len() {
    } else if pair_holds(level, target, from) {
    } else {
        lemma_first_match(level, target, from + 1);
    }
}

/// A walk records a step exactly where the level has a pair that holds the
/// target.
pub proof fn lemma_proof_steps_empty(level: Seq<Seq<u8>>, target: Seq<u8>, hash_function: HashFunction)
    ensures
        proof_steps(level, target, hash_function).len() > 0 <==> exists|j: int|
            pair_holds(level, target, j),
{
    lemma_first_match(level, target, 0);
}

/// The digest of `value` and `sibling`, each on its side.
fn hash_step(value: &[u8], direction: Direction, sibling: &[u8], hash_function: HashFunction) -> (out: Vec<u8>)
    ensures
        out@ == apply_step(value@, ProofStep { direction, sibling: sibling@ }, hash_function),
        out@.len() == hash_function.digest_len(),
{
    match direction {
        Direction::Right => use_hasher(hash_function, join_bytes(value, sibling).as_slice()),
        Direction::Left => use_hasher(hash_function, join_bytes(sibling, value).as_slice()),
    }
}

/// Walks from the level `txs` upwards and puts each step in front of
/// `nodes`; returns a copy of `nodes` as the walk leaves it.
pub fn merkle_proof_helper(txs: &[Vec<u8>], tx: &[u8], nodes: &mut Vec<Node>, hash_function: HashFunction) -> (walk: Vec<Node>)
    ensures
        steps_view(final(nodes)@) == proof_steps(items_view(txs@), tx@, hash_function) + steps_view(
            old(nodes)@,
        ),
        steps_view(walk@) == steps_view(final(nodes)@),
    decreases txs@.len(),
{
    let ghost level = items_view(txs@);
    if txs.len() > 1 {
        let mut lst: Vec<Vec<u8>> = Vec::new();
        let mut index: Vec<u8> = Vec::new();
        let mut found: bool = false;
        let ghost mut pair: int = 0;
        let mut idx: usize = 0;
        while idx + 1 < txs.len()
            invariant
                level == items_view(txs@),
                idx % 2 == 0,
                idx <= txs@.len(),
                lst@.len() == idx / 2,
                forall|j: int|
                    0 <= j < lst@.len() ==> (#[trigger] lst@[j])@ == mirrored_pair_digests(
                        level,
                        hash_function,
                    )[j],
                !found ==> first_match(level, tx@, 0) == first_match(level, tx@, idx as int / 2)
                    && *nodes == *old(nodes),
                found ==> first_match(level, tx@, 0) == Some(pair) && steps_view(nodes@) == seq![
                    step_at(level, tx@, pair),
                ] + steps_view(old(nodes)@) && index@ == apply_step(
                    tx@,
                    step_at(level, tx@, pair),
                    hash_function,
                ),
            decreases txs@.len() - idx,
        {
            let left = txs[idx].as_slice();
            let right = txs[idx + 1].as_slice();
            lst.push(use_hasher(hash_function, join_bytes(right, left).as_slice()));
            if !found {
                if same_bytes(right, tx) {
                    nodes.insert(0, Node::new(Direction::Left, copy_bytes(left)));
                    index = hash_step(tx, Direction::Left, left, hash_function);
                    found = true;
                } else if same_bytes(left, tx) {
                    nodes.insert(0, Node::new(Direction::Right, copy_bytes(right)));
                    index = hash_step(tx, Direction::Right, right, hash_function);
                    found = true;
                }
                proof {
                    if found {
                        pair = idx as int / 2;
                    }
                }
            }
            idx += 2;
        }
        if found {
            proof {
                assert(items_view(lst@) =~= mirrored_pair_digests(level, hash_function));
            }
            merkle_proof_helper(lst.as_slice(), index.as_slice(), nodes, hash_function)
        } else {
            copy_nodes(nodes)
        }
    } else {
        copy_nodes(nodes)
    }
}

/// Whether a padded list holds `target` in one of its pairs is whether the
/// items hold it.
pub proof fn lemma_padded_holds(items: Seq<Seq<u8>>, target: Seq<u8>)
    requires
        items.len() > 0,
    ensures
        (exists|j: int| pair_holds(pad(items), target, j)) <==> items.contains(target),
{
    lemma_padded_len_is_least(items.len());
    lemma_half_pow2(padded_len(items.len()) as int);
    let padded = pad(items);
    if items.contains(target) {
        let k = choose|k: int| 0 <= k < items.len() && items[k] == target;
        assert(pair_holds(padded, target, k / 2));
    }
    if exists|j: int| pair_holds(padded, target, j) {
        let j = choose|j: int| pair_holds(padded, target, j);
        assert(padded[2 * j] == target || padded[2 * j + 1] == target);
    }
}

/// The proof that `tx` is among the items of `merkle_tree`: the steps of the
/// walk from the padded items upwards, hashing with `hash_function`. Where
/// several pairs of a level hold the value looked for, the walk goes on from
/// the first. An item that the tree does not hold gives
/// `ProofTargetNotFound`.
pub fn merkle_proof(tx: &[u8], merkle_tree: &MerkleTree, hash_function: HashFunction) -> (outcome: Result<Vec<Node>, MerkleError>)
    requires
        merkle_tree.leaves@.len() > 0,
    ensures
        match outcome {
            Ok(steps) => {
                &&& merkle_tree.items().contains(tx@)
                &&& steps_view(steps@) == proof_steps(pad(merkle_tree.items()), tx@, hash_function)
                &&& steps@.len() > 0
            },
            Err(e) => e == MerkleError::ProofTargetNotFound && !merkle_tree.items().contains(tx@),
        },
{
    let leaves = pad_leaves(&merkle_tree.leaves);
    let mut nodes: Vec<Node> = Vec::new();
    let steps = merkle_proof_helper(leaves.as_slice(), tx, &mut nodes, hash_function);
    proof {
        lemma_proof_steps_empty(pad(merkle_tree.items()), tx@, hash_function);
        lemma_padded_holds(merkle_tree.items(), tx@);
    }
    if steps.len() == 0 {
        Err(MerkleError::ProofTargetNotFound)
    } else {
        Ok(steps)
    }
}

/// The value that the steps of `merkle_proof` lead to from `tx`: each step
/// hashes the value so far with the sibling on its side. The steps are read
/// from the last one to the first.
pub fn verify_proof(tx: &[u8], merkle_proof: &[Node], hash_function: HashFunction) -> (out: Vec<u8>)
    ensures
        out@ == replay(tx@, steps_view(merkle_proof@), hash_function),
        merkle_proof@.len() > 0 ==> out@.len() == hash_function.digest_len(),
{
    let mut return_value = copy_bytes(tx);
    let ghost steps = steps_view(merkle_proof@);
    let mut i: usize = merkle_proof.len();
    assert(steps.subrange(0, i as int) =~= steps);
    while i > 0
        invariant
            i <= merkle_proof@.len(),
            steps == steps_view(merkle_proof@),
            replay(tx@, steps, hash_function) == replay(
                return_value@,
                steps.subrange(0, i as int),
                hash_function,
            ),
            i < merkle_proof@.len() ==> return_value@.len() == hash_function.digest_len(),
        decreases i,
    {
        i -= 1;
        let data_value = &merkle_proof[i];
        assert(steps.subrange(0, i + 1).drop_last() =~= steps.subrange(0, i as int));
        return_value =
        hash_step(
            return_value.as_slice(),
            data_value.direction,
            data_value.tx.as_slice(),
            hash_function,
        );
    }
    return_value
}

} // verus!
