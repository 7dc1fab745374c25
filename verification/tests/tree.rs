use merkle::error::MerkleError;
use merkle::hash_data_structures::{HashLeaf, HashNode, SECURE_HASH_FUNCTIONS};
use merkle::hash_function::HashFunction;
use merkle::merkle_tree::MerkleTree;
use merkle::utils::{hash_data, use_hasher};

fn hex_of(bytes: &[u8]) -> String {
    let mut out = String::new();
    for byte in bytes {
        out.push_str(&format!("{:02x}", byte));
    }
    out
}

fn list(texts: &[&str]) -> Vec<Vec<u8>> {
    texts.iter().map(|t| t.as_bytes().to_vec()).collect()
}

const AB: &str = "fb8e20fc2e4c3f248c60c39bd652f3c1347298bb977b8b4d5903b85055620603";
const CD: &str = "21e721c35a5823fdb452fa2f9f0a612c74fb952e06927489c6b27a43b817bed4";
const ROOT_ABCD: &str = "c5fdd166560d16ced70242cfaf2894e2bc666fe24fff13449c52299f63c749ce";
const ROOT_ABCC: &str = "88d1453dfeaacde862d9526532b3ddf0d0e65bb4d8d592685df7f976d8fceb77";

#[test]
fn leaf_holds_the_digest_of_its_pair() {
    let leaf = HashLeaf::new(b"a".to_vec(), b"b".to_vec(), HashFunction::Sha256);
    assert_eq!(leaf.left, b"a".to_vec());
    assert_eq!(leaf.right, b"b".to_vec());
    assert_eq!(leaf.hash_function, HashFunction::Sha256);
    assert_eq!(hex_of(&leaf.data), AB);
    assert_eq!(leaf.height, 1);
}

#[test]
fn leaf_hashes_left_before_right() {
    let leaf = HashLeaf::new(b"b".to_vec(), b"a".to_vec(), HashFunction::Sha256);
    assert_eq!(
        hex_of(&leaf.data),
        "970f519c2cadbcefb1e81694f904bc6229dd2a8300e98c6d0d4fc4bfca584140"
    );
}

#[test]
fn node_from_a_leaf_has_no_children() {
    let node = HashNode::from_leaf(HashLeaf::new(b"c".to_vec(), b"d".to_vec(), HashFunction::Sha256));
    assert!(node.left.is_none());
    assert!(node.right.is_none());
    assert_eq!(hex_of(&node.data), CD);
    assert_eq!(node.height, 1);
    assert_eq!(node.hash_function, HashFunction::Sha256);
}

#[test]
fn node_joins_two_leaves() {
    let left = HashLeaf::new(b"a".to_vec(), b"b".to_vec(), HashFunction::Sha256);
    let right = HashLeaf::new(b"c".to_vec(), b"d".to_vec(), HashFunction::Sha256);
    let node = HashNode::build_from_leaves(left, right, HashFunction::Sha256).unwrap();
    assert_eq!(hex_of(&node.data), ROOT_ABCD);
    assert_eq!(node.height, 2);
    assert_eq!(hex_of(&node.left.as_ref().unwrap().data), AB);
    assert_eq!(hex_of(&node.right.as_ref().unwrap().data), CD);
    assert_eq!(node.left.as_ref().unwrap().height, 1);
}

#[test]
fn node_joins_two_nodes() {
    let make = |l: &[u8], r: &[u8]| {
        HashNode::from_leaf(HashLeaf::new(l.to_vec(), r.to_vec(), HashFunction::Sha1))
    };
    let low = HashNode::new(make(b"a", b"b"), make(b"c", b"d"), HashFunction::Sha1).unwrap();
    let other = HashNode::new(make(b"e", b"f"), make(b"g", b"h"), HashFunction::Sha1).unwrap();
    let mut joined = low.data.clone();
    joined.extend_from_slice(&other.data);
    let top = HashNode::new(low, other, HashFunction::Sha1).unwrap();
    assert_eq!(top.height, 3);
    assert_eq!(top.data, use_hasher(HashFunction::Sha1, &joined));
    assert_eq!(top.data.len(), 20);
}

#[test]
fn nodes_of_different_height_are_not_joined() {
    let low = HashNode::from_leaf(HashLeaf::new(b"a".to_vec(), b"b".to_vec(), HashFunction::Sha256));
    let high = HashNode::new(
        HashNode::from_leaf(HashLeaf::new(b"c".to_vec(), b"d".to_vec(), HashFunction::Sha256)),
        HashNode::from_leaf(HashLeaf::new(b"e".to_vec(), b"f".to_vec(), HashFunction::Sha256)),
        HashFunction::Sha256,
    )
    .unwrap();
    assert_eq!(
        HashNode::new(low, high, HashFunction::Sha256).err(),
        Some(MerkleError::BalanceError)
    );
}

#[test]
fn nodes_of_another_hash_function_are_not_joined() {
    let make = |f: HashFunction| HashNode::from_leaf(HashLeaf::new(b"a".to_vec(), b"b".to_vec(), f));
    assert_eq!(
        HashNode::new(make(HashFunction::Sha256), make(HashFunction::Sha256), HashFunction::Sha512).err(),
        Some(MerkleError::BalanceError)
    );
    assert_eq!(
        HashNode::new(make(HashFunction::Sha1), make(HashFunction::Sha256), HashFunction::Sha256).err(),
        Some(MerkleError::BalanceError)
    );
    assert_eq!(
        HashNode::new(make(HashFunction::Sha256), make(HashFunction::Sha1), HashFunction::Sha256).err(),
        Some(MerkleError::BalanceError)
    );
    let left = HashLeaf::new(b"a".to_vec(), b"b".to_vec(), HashFunction::Sha256);
    let right = HashLeaf::new(b"c".to_vec(), b"d".to_vec(), HashFunction::Sha256);
    assert_eq!(
        HashNode::build_from_leaves(left, right, HashFunction::Sha384).err(),
        Some(MerkleError::BalanceError)
    );
}

#[test]
fn default_node_is_empty() {
    let node = HashNode::default();
    assert!(node.left.is_none());
    assert!(node.right.is_none());
    assert_eq!(node.hash_function, HashFunction::Sha256);
    assert!(node.data.is_empty());
    assert_eq!(node.height, 0);
}

#[test]
fn cloned_node_holds_the_same() {
    let tree = MerkleTree::new(list(&["a", "b", "c", "d", "e"]), "sha256").unwrap();
    let copy = tree.root.clone();
    assert_eq!(copy.data, tree.root.data);
    assert_eq!(copy.height, tree.root.height);
    assert_eq!(
        copy.left.as_ref().unwrap().right.as_ref().unwrap().data,
        tree.root.left.as_ref().unwrap().right.as_ref().unwrap().data
    );
}

#[test]
fn supported_names_are_the_five() {
    assert_eq!(SECURE_HASH_FUNCTIONS, ["sha1", "sha224", "sha256", "sha384", "sha512"]);
    for name in SECURE_HASH_FUNCTIONS {
        assert_eq!(HashFunction::parse(name).unwrap().name(), name);
    }
}

#[test]
fn four_items_build_two_pairs_and_a_root() {
    let tree = MerkleTree::new(list(&["a", "b", "c", "d"]), "sha256").unwrap();
    assert_eq!(hex_of(&tree.block_header), ROOT_ABCD);
    assert_eq!(tree.height, 2);
    assert_eq!(tree.root.height, 2);
    assert_eq!(tree.root.data, tree.block_header);
    assert_eq!(tree.leaves, list(&["a", "b", "c", "d"]));
    assert_eq!(tree.hash_function(), "sha256");
    let left = tree.root.left.as_ref().unwrap();
    let right = tree.root.right.as_ref().unwrap();
    assert_eq!(hex_of(&left.data), AB);
    assert_eq!(hex_of(&right.data), CD);
    assert_eq!(left.height, 1);
    assert!(left.left.is_none() && left.right.is_none());
}

#[test]
fn three_items_build_the_tree_of_four() {
    let tree = MerkleTree::new(list(&["a", "b", "c"]), "sha256").unwrap();
    assert_eq!(hex_of(&tree.block_header), ROOT_ABCC);
    assert_eq!(tree.height, 2);
    assert_eq!(tree.leaves, list(&["a", "b", "c"]));
    let padded = MerkleTree::new(list(&["a", "b", "c", "c"]), "sha256").unwrap();
    assert_eq!(tree.block_header, padded.block_header);
}

#[test]
fn one_item_is_paired_with_itself() {
    let tree = MerkleTree::new(list(&["a"]), "sha256").unwrap();
    assert_eq!(
        hex_of(&tree.block_header),
        "961b6dd3ede3cb8ecbaacbd68de040cd78eb2ed5889130cceb4c49268ea4d506"
    );
    assert_eq!(tree.height, 1);
    assert!(tree.root.left.is_none());
}

#[test]
fn two_items_build_a_tree_of_height_one() {
    let tree = MerkleTree::new(list(&["a", "b"]), "sha256").unwrap();
    assert_eq!(hex_of(&tree.block_header), AB);
    assert_eq!(tree.height, 1);
}

#[test]
fn heights_follow_the_padded_length() {
    let expected = [(1, 1), (2, 1), (3, 2), (4, 2), (5, 3), (8, 3), (9, 4), (16, 4), (17, 5), (33, 6)];
    for (count, height) in expected {
        let items: Vec<Vec<u8>> = (0..count).map(|i: u32| i.to_be_bytes().to_vec()).collect();
        let tree = MerkleTree::new(items, "sha1").unwrap();
        assert_eq!(tree.height, height);
        assert_eq!(tree.root.height, height);
        assert_eq!(tree.block_header.len(), 20);
    }
}

#[test]
fn eight_items() {
    let tree = MerkleTree::new(list(&["a", "b", "c", "d", "e", "f", "g", "h"]), "sha256").unwrap();
    assert_eq!(
        hex_of(&tree.block_header),
        "78dbd0dc4e4afecead1a92cc4212d62be278baeb2117b1f7304e0b432da846e5"
    );
    assert_eq!(tree.height, 3);
}

#[test]
fn five_items_are_padded_to_eight() {
    let tree = MerkleTree::new(list(&["a", "b", "c", "d", "e"]), "sha256").unwrap();
    assert_eq!(
        hex_of(&tree.block_header),
        "55be33ff8fd10a14beb3ac18fede7f39dbb1b3422a90830a406d358e40346c32"
    );
    assert_eq!(tree.height, 3);
}

#[test]
fn other_hash_functions_build_other_roots() {
    let tree = MerkleTree::new(list(&["a", "b", "c", "d"]), "SHA512").unwrap();
    assert_eq!(tree.hash_function, HashFunction::Sha512);
    assert_eq!(tree.hash_function(), "sha512");
    assert_eq!(
        hex_of(&tree.block_header),
        "a571f93e5ff852cf2a691e511423f036cff901291f830424d6eda282cdf514ec7662b5eec1d3b6ef9d27088c489a9780761cdc09aef6478262cd20ee5d576199"
    );
    let small = MerkleTree::new(list(&["a", "b"]), "sha1").unwrap();
    assert_eq!(hex_of(&small.block_header), "da23614e02469a0d7c7bd1bdab5c9c474b1904dc");
    assert_eq!(small.block_header, hash_data(b"ab", "sha1").unwrap());
}

#[test]
fn no_items_build_no_tree() {
    assert_eq!(MerkleTree::new(Vec::new(), "sha256").err(), Some(MerkleError::EmptyInput));
    assert_eq!(MerkleTree::new(Vec::new(), "md5").err(), Some(MerkleError::EmptyInput));
}

#[test]
fn unknown_hash_function_builds_no_tree() {
    assert_eq!(
        MerkleTree::new(list(&["a", "b"]), "md5").err(),
        Some(MerkleError::InvalidHashFunction)
    );
    assert_eq!(
        MerkleTree::new(list(&["a", "b"]), "").err(),
        Some(MerkleError::InvalidHashFunction)
    );
}

#[test]
fn building_twice_gives_the_same_root() {
    let first = MerkleTree::new(list(&["a", "b", "c", "d", "e"]), "sha384").unwrap();
    let second = MerkleTree::new(list(&["a", "b", "c", "d", "e"]), "sha384").unwrap();
    assert_eq!(first.block_header, second.block_header);
    assert_eq!(first.height, second.height);
    let other = MerkleTree::new(list(&["a", "b", "c", "d", "f"]), "sha384").unwrap();
    assert_ne!(first.block_header, other.block_header);
}

#[test]
fn appending_builds_the_tree_of_the_whole_list() {
    let mut tree = MerkleTree::new(list(&["a", "b"]), "sha256").unwrap();
    tree.add_tx(&list(&["c", "d"]));
    assert_eq!(tree.leaves, list(&["a", "b", "c", "d"]));
    assert_eq!(hex_of(&tree.block_header), ROOT_ABCD);
    assert_eq!(tree.height, 2);
    assert_eq!(tree.root.data, tree.block_header);
    let fresh = MerkleTree::new(list(&["a", "b", "c", "d"]), "sha256").unwrap();
    assert_eq!(tree.block_header, fresh.block_header);
    assert_eq!(tree.height, fresh.height);
}

#[test]
fn appending_one_item_pads_again() {
    let mut tree = MerkleTree::new(list(&["a", "b"]), "sha256").unwrap();
    tree.add_tx(&list(&["c"]));
    assert_eq!(hex_of(&tree.block_header), ROOT_ABCC);
    tree.add_tx(&list(&["d", "e"]));
    let fresh = MerkleTree::new(list(&["a", "b", "c", "d", "e"]), "sha256").unwrap();
    assert_eq!(tree.block_header, fresh.block_header);
    assert_eq!(tree.height, 3);
}

#[test]
fn appending_nothing_keeps_the_root() {
    let mut tree = MerkleTree::new(list(&["a", "b", "c"]), "sha256").unwrap();
    tree.add_tx(&[]);
    assert_eq!(hex_of(&tree.block_header), ROOT_ABCC);
    assert_eq!(tree.leaves, list(&["a", "b", "c"]));
}

#[test]
fn appended_items_are_taken_as_they_are() {
    let mut tree = MerkleTree::new(list(&["a"]), "sha256").unwrap();
    tree.add_tx(&list(&["[b, c]"]));
    assert_eq!(tree.leaves, list(&["a", "[b, c]"]));
    let fresh = MerkleTree::new(list(&["a", "[b, c]"]), "sha256").unwrap();
    assert_eq!(tree.block_header, fresh.block_header);
}

#[test]
fn changing_the_hash_function_builds_anew() {
    let mut tree = MerkleTree::new(list(&["a", "b", "c", "d"]), "sha256").unwrap();
    assert_eq!(tree.set_hash_function("SHA512"), Ok(()));
    assert_eq!(tree.hash_function(), "sha512");
    let fresh = MerkleTree::new(list(&["a", "b", "c", "d"]), "sha512").unwrap();
    assert_eq!(tree.block_header, fresh.block_header);
    assert_eq!(tree.block_header.len(), 64);
    assert_eq!(tree.height, 2);
    assert_eq!(tree.root.hash_function, HashFunction::Sha512);
}

#[test]
fn unknown_hash_function_changes_nothing() {
    let mut tree = MerkleTree::new(list(&["a", "b", "c", "d"]), "sha256").unwrap();
    assert_eq!(tree.set_hash_function("crc32"), Err(MerkleError::InvalidHashFunction));
    assert_eq!(tree.hash_function(), "sha256");
    assert_eq!(hex_of(&tree.block_header), ROOT_ABCD);
    assert_eq!(tree.reset_tree("crc32"), Err(MerkleError::InvalidHashFunction));
    assert_eq!(hex_of(&tree.block_header), ROOT_ABCD);
    assert_eq!(tree.height, 2);
}

#[test]
fn reset_empties_what_was_built() {
    let mut tree = MerkleTree::new(list(&["a", "b", "c", "d"]), "sha256").unwrap();
    assert_eq!(tree.reset_tree("Sha1"), Ok(()));
    assert_eq!(tree.hash_function, HashFunction::Sha1);
    assert_eq!(tree.height, 0);
    assert!(tree.block_header.is_empty());
    assert!(tree.root.data.is_empty());
    assert_eq!(tree.root.height, 0);
    assert_eq!(tree.leaves, list(&["a", "b", "c", "d"]));
    tree.evaluate();
    let fresh = MerkleTree::new(list(&["a", "b", "c", "d"]), "sha1").unwrap();
    assert_eq!(tree.block_header, fresh.block_header);
    assert_eq!(tree.height, 2);
}

#[test]
fn reevaluate_builds_the_same_tree() {
    let mut tree = MerkleTree::new(list(&["a", "b", "c", "d"]), "sha256").unwrap();
    tree.reevaluate();
    assert_eq!(hex_of(&tree.block_header), ROOT_ABCD);
    assert_eq!(tree.height, 2);
}
