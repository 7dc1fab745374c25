use vstd::prelude::*;
use vstd::arithmetic::power2::{is_pow2, lemma2_to64, lemma_pow2_strictly_increases, lemma_pow2_unfold, pow2};
use crate::error::MerkleError;
use crate::hash_data_structures::{HashLeaf, HashNode, HashNodeView};
use crate::hash_function::HashFunction;
use crate::levels::{ceil_log2, join_pairs, leaf_forest, lemma_half_pow2, lemma_tree_of, reduce, root_digest, tree_of};
use crate::padding::{lemma_padded_len_is_least, pad, pad_leaves, padded_len};
use crate::utils::{copy_bytes, items_view};

verus! {

/// A hash tree over a list of items, with the digest of its root.
pub struct MerkleTree {
    pub hash_function: HashFunction,
    pub leaves: Vec<Vec<u8>>,
    pub root: HashNode,
    pub height: i32,
    pub block_header: Vec<u8>,
}

impl MerkleTree {
    /// The items the tree was built over, before padding.
    pub open spec fn items(&self) -> Seq<Seq<u8>> {
        items_view(self.leaves@)
    }

    /// The tree is built: the root is the tree over the items, and the
    /// height and the block header are those of the root.
    pub open spec fn wf(&self) -> bool {
        &&& self.leaves@.len() > 0
        &&& self.root@ == tree_of(self.items(), self.hash_function)
        &&& self.height == self.root@.height
        &&& self.block_header@ == self.root@.data
        &&& self.block_header@.len() == self.hash_function.digest_len()
    }

    /// Nothing is built: the root, the height and the block header are empty.
    pub open spec fn is_reset(&self) -> bool {
        &&& self.root@ == HashNodeView::unbuilt()
        &&& self.height == 0
        &&& self.block_header@ == Seq::<u8>::empty()
    }

    /// The tree over `tx_list`, hashed with the function called
    /// `hash_function`. An empty list gives `EmptyInput`; otherwise a name
    /// that is none of the supported functions gives `InvalidHashFunction`.
    pub fn new(tx_list: Vec<Vec<u8>>, hash_function: &str) -> (tree: Result<MerkleTree, MerkleError>)
        ensures
            match tree {
                Ok(t) => {
                    &&& tx_list@.len() > 0
                    &&& HashFunction::parse_spec(hash_function@) == Some(t.hash_function)
                    &&& t.leaves == tx_list
                    &&& t.wf()
                    &&& t.block_header@ == root_digest(pad(t.items()), t.hash_function)
                    &&& t.block_header@.len() == t.hash_function.digest_len()
                    &&& t.height == ceil_log2(padded_len(tx_list@.len()))
                    &&& t.height >= 1
                },
                Err(e) => if tx_list@.len() == 0 {
                    e == MerkleError::EmptyInput
                } else {
                    HashFunction::parse_spec(hash_function@) is None
                        && e == MerkleError::InvalidHashFunction
                },
            },
    {
        if tx_list.len() == 0 {
            return Err(MerkleError::EmptyInput);
        }
        let hash_function = match HashFunction::parse(hash_function) {
            Some(f) => f,
            None => {
                return Err(MerkleError::InvalidHashFunction);
            },
        };
        let mut tree = MerkleTree {
            hash_function,
            leaves: tx_list,
            root: HashNode::default(),
            height: 0,
            block_header: Vec::new(),
        };
        tree.evaluate();
        Ok(tree)
    }

    /// Appends `tx` to the items and builds the tree anew.
    pub fn add_tx(&mut self, tx: &[Vec<u8>])
        requires
            old(self).leaves@.len() + tx@.len() > 0,
        ensures
            final(self).wf(),
            final(self).hash_function == old(self).hash_function,
            final(self).items() == old(self).items() + items_view(tx@),
            final(self).block_header@ == root_digest(
                pad(old(self).items() + items_view(tx@)),
                old(self).hash_function,
            ),
            final(self).block_header@.len() == old(self).hash_function.digest_len(),
            final(self).height == ceil_log2(padded_len(old(self).leaves@.len() + tx@.len())),
    {
        let mut i: usize = 0;
        while i < tx.len()
            invariant
                i <= tx@.len(),
                self.hash_function == old(self).hash_function,
                self.leaves@.len() == old(self).leaves@.len() + i,
                self.items() == old(self).items() + items_view(tx@).subrange(0, i as int),
            decreases tx@.len() - i,
        {
            let ghost before = self.items();
            self.leaves.push(copy_bytes(tx[i].as_slice()));
            i += 1;
            assert(self.items() =~= before.push(tx@[i - 1]@));
        }
        assert(items_view(tx@).subrange(0, i as int) =~= items_view(tx@));
        self.reevaluate();
    }

    /// Takes the hash function called `hash_function` and empties what was
    /// built; the tree is built again by `evaluate`. A name that is none of
    /// the supported functions gives `InvalidHashFunction` and changes
    /// nothing.
    pub fn reset_tree(&mut self, hash_function: &str) -> (done: Result<(), MerkleError>)
        ensures
            final(self).leaves == old(self).leaves,
            match HashFunction::parse_spec(hash_function@) {
                Some(f) => done is Ok && final(self).hash_function == f && final(self).is_reset(),
                None => done == Err::<(), MerkleError>(MerkleError::InvalidHashFunction)
                    && *final(self) == *old(self),
            },
    {
        match HashFunction::parse(hash_function) {
            Some(f) => {
                self.clear(f);
                Ok(())
            },
            None => Err(MerkleError::InvalidHashFunction),
        }
    }

    /// Takes `hash_function` and empties what was built.
    fn clear(&mut self, hash_function: HashFunction)
        ensures
            final(self).leaves == old(self).leaves,
            final(self).hash_function == hash_function,
            final(self).is_reset(),
    {
        self.hash_function = hash_function;
        self.root = HashNode::default();
        self.height = 0;
        self.block_header = Vec::new();
    }

    /// Builds the tree over the items: pads them, hashes them in pairs, and
    /// joins the nodes in pairs until one is left.
    pub fn evaluate(&mut self)
        requires
            old(self).leaves@.len() > 0,
        ensures
            final(self).wf(),
            final(self).leaves == old(self).leaves,
            final(self).hash_function == old(self).hash_function,
            final(self).block_header@ == root_digest(pad(old(self).items()), old(self).hash_function),
            final(self).block_header@.len() == old(self).hash_function.digest_len(),
            final(self).height == ceil_log2(padded_len(old(self).leaves@.len())),
            final(self).height >= 1,
    {
        let hash_function = self.hash_function;
        let leaves = pad_leaves(&self.leaves);
        let ghost padded = pad(self.items());
        proof {
            lemma_padded_len_is_least(self.leaves@.len() as nat);
            lemma_half_pow2(padded.len() as int);
            lemma_tree_of(self.items(), hash_function);
        }
        let mut nodes: Vec<HashNode> = Vec::new();
        let mut tx: usize = 0;
        while tx < leaves.len()
            invariant
                items_view(leaves@) == padded,
                leaves@.len() % 2 == 0,
                tx % 2 == 0,
                tx <= leaves@.len(),
                nodes@.len() == tx / 2,
                forall|j: int|
                    0 <= j < nodes@.len() ==> (#[trigger] nodes@[j])@ == leaf_forest(
                        padded,
                        hash_function,
                    )[j] && nodes@[j]@.data.len() == hash_function.digest_len(),
            decreases leaves@.len() - tx,
        {
            let leaf = HashLeaf::new(
                copy_bytes(leaves[tx].as_slice()),
                copy_bytes(leaves[tx + 1].as_slice()),
                hash_function,
            );
            nodes.push(HashNode::from_leaf(leaf));
            tx += 2;
        }
        let ghost mut forest = leaf_forest(padded, hash_function);
        let mut level: i32 = 1;
        proof {
            assert forall|j: int| 0 <= j < forest.len() implies (#[trigger] forest[j]).height
                == level && forest[j].data.len() == hash_function.digest_len() by {
                assert(nodes@[j]@ == forest[j]);
            }
            lemma2_to64();
            assert(pow2(0) * nodes@.len() == nodes@.len()) by (nonlinear_arith)
                requires
                    pow2(0) == 1,
            ;
        }
        while nodes.len() > 1
            invariant
                is_pow2(nodes@.len() as int),
                forest.len() == nodes@.len(),
                forall|j: int| 0 <= j < nodes@.len() ==> (#[trigger] nodes@[j])@ == forest[j],
                forall|j: int|
                    0 <= j < forest.len() ==> (#[trigger] forest[j]).height == level
                        && forest[j].data.len() == hash_function.digest_len(),
                reduce(forest, hash_function) == tree_of(self.items(), hash_function),
                1 <= level,
                pow2((level - 1) as nat) * nodes@.len() <= usize::MAX,
                *self == *old(self),
            decreases nodes@.len(),
        {
            let ghost row = forest;
            let count: usize = nodes.len() / 2;
            proof {
                lemma_half_pow2(nodes@.len() as int);
                let p = pow2((level - 1) as nat);
                let n = nodes@.len() as int;
                assert(p <= usize::MAX) by (nonlinear_arith)
                    requires
                        p * n <= usize::MAX,
                        n >= 1,
                        p >= 0,
                ;
                if level - 1 >= 64 {
                    if level - 1 > 64 {
                        lemma_pow2_strictly_increases(64, (level - 1) as nat);
                    }
                    lemma2_to64();
                }
                lemma_pow2_unfold(level as nat);
                assert(pow2(level as nat) * (n / 2) <= usize::MAX) by (nonlinear_arith)
                    requires
                        pow2(level as nat) == 2 * p,
                        p * n <= usize::MAX,
                        n % 2 == 0,
                ;
            }
            let mut next: Vec<HashNode> = Vec::new();
            let mut done: usize = 0;
            while done < count
                invariant
                    done <= count,
                    row.len() == 2 * count,
                    nodes@.len() == row.len() - 2 * done,
                    forall|j: int| 0 <= j < nodes@.len() ==> (#[trigger] nodes@[j])@ == row[2 * done + j],
                    forall|j: int|
                        0 <= j < row.len() ==> (#[trigger] row[j]).height == level && row[j].data.len()
                            == hash_function.digest_len(),
                    next@.len() == done,
                    forall|j: int|
                        0 <= j < done ==> (#[trigger] next@[j])@ == join_pairs(row, hash_function)[j]
                            && next@[j]@.data.len() == hash_function.digest_len(),
                    level < 65,
                decreases count - done,
            {
                let left = nodes.remove(0);
                let right = nodes.remove(0);
                next.push(HashNode::combine(left, right, hash_function));
                done += 1;
            }
            nodes = next;
            level = level + 1;
            proof {
                forest = join_pairs(row, hash_function);
                assert forall|j: int| 0 <= j < forest.len() implies (#[trigger] forest[j]).height
                    == level && forest[j].data.len() == hash_function.digest_len() by {
                    assert(next@[j]@ == forest[j]);
                }
            }
        }
        proof {
            reveal(is_pow2);
        }
        let root = nodes.remove(0);
        self.height = root.height;
        self.block_header = copy_bytes(root.data.as_slice());
        self.root = root;
    }

    /// Empties what was built and builds the tree anew, with the same hash
    /// function.
    pub fn reevaluate(&mut self)
        requires
            old(self).leaves@.len() > 0,
        ensures
            final(self).wf(),
            final(self).leaves == old(self).leaves,
            final(self).hash_function == old(self).hash_function,
            final(self).block_header@ == root_digest(pad(old(self).items()), old(self).hash_function),
            final(self).block_header@.len() == old(self).hash_function.digest_len(),
            final(self).height == ceil_log2(padded_len(old(self).leaves@.len())),
            final(self).height >= 1,
    {
        let hash_function = self.hash_function;
        self.clear(hash_function);
        self.evaluate();
    }

    /// The name of the hash function the tree is built with.
    pub fn hash_function(&self) -> (name: &'static str)
        ensures
            name@ == self.hash_function.name_spec(),
    {
        self.hash_function.name()
    }

    /// Takes the hash function called `value` and builds the tree anew with
    /// it. A name that is none of the supported functions gives
    /// `InvalidHashFunction` and changes nothing.
    pub fn set_hash_function(&mut self, value: &str) -> (done: Result<(), MerkleError>)
        requires
            old(self).leaves@.len() > 0,
        ensures
            final(self).leaves == old(self).leaves,
            match HashFunction::parse_spec(value@) {
                Some(f) => {
                    &&& done is Ok
                    &&& final(self).hash_function == f
                    &&& final(self).wf()
                    &&& final(self).block_header@ == root_digest(pad(old(self).items()), f)
                    &&& final(self).block_header@.len() == f.digest_len()
                    &&& final(self).height == ceil_log2(padded_len(old(self).leaves@.len()))
                },
                None => done == Err::<(), MerkleError>(MerkleError::InvalidHashFunction)
                    && *final(self) == *old(self),
            },
    {
        match HashFunction::parse(value) {
            Some(f) => {
                self.clear(f);
                self.evaluate();
                Ok(())
            },
            None => Err(MerkleError::InvalidHashFunction),
        }
    }
}

} // verus!
