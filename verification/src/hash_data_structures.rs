use vstd::prelude::*;
use crate::error::MerkleError;
use crate::hash_function::HashFunction;
use crate::utils::{copy_bytes, digest_of, join_bytes, use_hasher};

verus! {

/// The names of the supported hash functions.
pub const SECURE_HASH_FUNCTIONS: [&'static str; 5] = ["sha1", "sha224", "sha256", "sha384", "sha512"];

/// Two neighbouring items and the digest of the one followed by the other.
pub struct HashLeaf {
    pub hash_function: HashFunction,
    pub left: Vec<u8>,
    pub right: Vec<u8>,
    pub data: Vec<u8>,
    pub height: i32,
}

/// What a `HashLeaf` holds.
pub struct HashLeafView {
    pub hash_function: HashFunction,
    pub left: Seq<u8>,
    pub right: Seq<u8>,
    pub data: Seq<u8>,
    pub height: int,
}

impl HashLeafView {
    /// The pair of `left` and `right`, hashed with `hash_function`.
    pub open spec fn pair(left: Seq<u8>, right: Seq<u8>, hash_function: HashFunction) -> HashLeafView {
        HashLeafView {
            hash_function,
            left,
            right,
            data: digest_of(hash_function, left + right),
            height: 1,
        }
    }

    /// The digest is that of the two items, and the height is 1.
    pub open spec fn wf(self) -> bool {
        self == HashLeafView::pair(self.left, self.right, self.hash_function)
    }

    /// The node without children that stands for this pair in a tree.
    pub open spec fn as_node(self) -> HashNodeView {
        HashNodeView {
            left: None,
            right: None,
            hash_function: self.hash_function,
            data: self.data,
            height: self.height,
        }
    }
}

impl View for HashLeaf {
    type V = HashLeafView;

    open spec fn view(&self) -> HashLeafView {
        HashLeafView {
            hash_function: self.hash_function,
            left: self.left@,
            right: self.right@,
            data: self.data@,
            height: self.height as int,
        }
    }
}

impl HashLeaf {
    pub fn new(left: Vec<u8>, right: Vec<u8>, hash_function: HashFunction) -> (leaf: HashLeaf)
        ensures
            leaf@ == HashLeafView::pair(left@, right@, hash_function),
            leaf@.wf(),
            leaf@.data.len() == hash_function.digest_len(),
    {
        let data = HashLeaf::evaluate(left.as_slice(), right.as_slice(), hash_function);
        let height: i32 = 1;
        HashLeaf { hash_function, left, right, data, height }
    }

    fn evaluate(left: &[u8], right: &[u8], hash_function: HashFunction) -> (data: Vec<u8>)
        ensures
            data@ == digest_of(hash_function, left@ + right@),
            data@.len() == hash_function.digest_len(),
    {
        let concatenated_data = join_bytes(left, right);
        use_hasher(hash_function, concatenated_data.as_slice())
    }
}

/// A node of the tree: the digest of its two children, or that of a pair of
/// items where it has no children.
pub struct HashNode {
    pub left: Option<Box<HashNode>>,
    pub right: Option<Box<HashNode>>,
    pub hash_function: HashFunction,
    pub data: Vec<u8>,
    pub height: i32,
}

/// What a `HashNode` holds, children included.
pub struct HashNodeView {
    pub left: Option<Box<HashNodeView>>,
    pub right: Option<Box<HashNodeView>>,
    pub hash_function: HashFunction,
    pub data: Seq<u8>,
    pub height: int,
}

impl HashNodeView {
    /// The node that a tree holds before it is built.
    pub open spec fn unbuilt() -> HashNodeView {
        HashNodeView {
            left: None,
            right: None,
            hash_function: HashFunction::Sha256,
            data: Seq::empty(),
            height: 0,
        }
    }

    /// The parent of `left` and `right`.
    pub open spec fn join(left: HashNodeView, right: HashNodeView, hash_function: HashFunction) -> HashNodeView {
        HashNodeView {
            left: Some(Box::new(left)),
            right: Some(Box::new(right)),
            hash_function,
            data: digest_of(hash_function, left.data + right.data),
            height: left.height + 1,
        }
    }

    /// Whether `left` and `right` can be the children of a node that hashes
    /// with `hash_function`.
    pub open spec fn compatible(left: HashNodeView, right: HashNodeView, hash_function: HashFunction) -> bool {
        &&& left.hash_function == hash_function
        &&& right.hash_function == hash_function
        &&& left.height == right.height
    }

    /// The node and all below it are balanced, use one hash function, and
    /// each parent holds the digest of its children's digests.
    pub open spec fn wf(self) -> bool
        decreases self,
    {
        match (self.left, self.right) {
            (None, None) => self.height == 1,
            (Some(left), Some(right)) => {
                &&& left.wf()
                &&& right.wf()
                &&& HashNodeView::compatible(*left, *right, self.hash_function)
                &&& self == HashNodeView::join(*left, *right, self.hash_function)
            },
            _ => false,
        }
    }

    /// The digests of the nodes without children, from left to right.
    pub open spec fn leaf_digests(self) -> Seq<Seq<u8>>
        decreases self,
    {
        match (self.left, self.right) {
            (Some(left), Some(right)) => left.leaf_digests() + right.leaf_digests(),
            _ => seq![self.data],
        }
    }
}

impl View for HashNode {
    type V = HashNodeView;

    open spec fn view(&self) -> HashNodeView
        decreases self,
    {
        HashNodeView {
            left: match self.left {
                Some(child) => Some(Box::new((*child).view())),
                None => None,
            },
            right: match self.right {
                Some(child) => Some(Box::new((*child).view())),
                None => None,
            },
            hash_function: self.hash_function,
            data: self.data@,
            height: self.height as int,
        }
    }
}

impl HashNode {
    /// The parent of `left` and `right`, or `BalanceError` where they differ
    /// in height or one of them was hashed with another function.
    pub fn new(left: HashNode, right: HashNode, hash_function: HashFunction) -> (node: Result<HashNode, MerkleError>)
        requires
            left.height < i32::MAX,
        ensures
            match node {
                Ok(parent) => HashNodeView::compatible(left@, right@, hash_function)
                    && parent@ == HashNodeView::join(left@, right@, hash_function)
                    && parent@.data.len() == hash_function.digest_len(),
                Err(e) => !HashNodeView::compatible(left@, right@, hash_function)
                    && e == MerkleError::BalanceError,
            },
    {
        if left.hash_function != hash_function || right.hash_function != hash_function {
            return Err(MerkleError::BalanceError);
        }
        if left.height != right.height {
            return Err(MerkleError::BalanceError);
        }
        Ok(HashNode::combine(left, right, hash_function))
    }

    /// The node of height 1 that stands for a pair of items.
    pub fn from_leaf(leaf: HashLeaf) -> (node: HashNode)
        ensures
            node@ == leaf@.as_node(),
    {
        HashNode {
            left: None,
            right: None,
            hash_function: leaf.hash_function,
            data: leaf.data,
            height: leaf.height,
        }
    }

    /// The parent of the two nodes that stand for `left` and `right`, or
    /// `BalanceError` where they differ in height or one of them was hashed
    /// with another function.
    pub fn build_from_leaves(left: HashLeaf, right: HashLeaf, hash_function: HashFunction) -> (node: Result<HashNode, MerkleError>)
        requires
            left.height < i32::MAX,
        ensures
            match node {
                Ok(parent) => HashNodeView::compatible(left@.as_node(), right@.as_node(), hash_function)
                    && parent@ == HashNodeView::join(left@.as_node(), right@.as_node(), hash_function)
                    && parent@.data.len() == hash_function.digest_len(),
                Err(e) => !HashNodeView::compatible(left@.as_node(), right@.as_node(), hash_function)
                    && e == MerkleError::BalanceError,
            },
    {
        HashNode::new(HashNode::from_leaf(left), HashNode::from_leaf(right), hash_function)
    }

    /// The parent of two nodes that are known to be compatible.
    pub(crate) fn combine(left: HashNode, right: HashNode, hash_function: HashFunction) -> (parent: HashNode)
        requires
            left.height < i32::MAX,
        ensures
            parent@ == HashNodeView::join(left@, right@, hash_function),
            parent@.data.len() == hash_function.digest_len(),
    {
        let data = HashNode::evaluate(&left, &right, hash_function);
        let height: i32 = left.height + 1;
        HashNode {
            left: Some(Box::new(left)),
            right: Some(Box::new(right)),
            hash_function,
            data,
            height,
        }
    }

    fn evaluate(left: &HashNode, right: &HashNode, hash_function: HashFunction) -> (data: Vec<u8>)
        ensures
            data@ == digest_of(hash_function, left.data@ + right.data@),
            data@.len() == hash_function.digest_len(),
    {
        let concatenated_data = join_bytes(left.data.as_slice(), right.data.as_slice());
        use_hasher(hash_function, concatenated_data.as_slice())
    }
}

impl Clone for HashNode {
    fn clone(&self) -> (copy: HashNode)
        ensures
            copy@ == self@,
        decreases self,
    {
        let left = match &self.left {
            Some(child) => Some(Box::new((**child).clone())),
            None => None,
        };
        let right = match &self.right {
            Some(child) => Some(Box::new((**child).clone())),
            None => None,
        };
        HashNode {
            left,
            right,
            hash_function: self.hash_function,
            data: copy_bytes(self.data.as_slice()),
            height: self.height,
        }
    }
}

impl Default for HashNode {
    fn default() -> (node: HashNode)
        ensures
            node@ == HashNodeView::unbuilt(),
    {
        HashNode {
            left: None,
            right: None,
            hash_function: HashFunction::Sha256,
            data: Vec::new(),
            height: 0,
        }
    }
}

/// Joining two well-formed nodes that are compatible gives a well-formed
/// node, one higher, over the leaf digests of both.
pub proof fn lemma_join_wf(left: HashNodeView, right: HashNodeView, hash_function: HashFunction)
    requires
        left.wf(),
        right.wf(),
        HashNodeView::compatible(left, right, hash_function),
    ensures
        HashNodeView::join(left, right, hash_function).wf(),
        HashNodeView::join(left, right, hash_function).height == left.height + 1,
        HashNodeView::join(left, right, hash_function).leaf_digests() == left.leaf_digests()
            + right.leaf_digests(),
{
}

} // verus!
