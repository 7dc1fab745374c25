use vstd::prelude::*;
use vstd::arithmetic::power2::is_pow2;
use digest::DynDigest;
use sha1::Sha1;
use sha2::{Sha224, Sha256, Sha384, Sha512};
use crate::error::MerkleError;
use crate::hash_function::HashFunction;

verus! {

/// What a list of items holds, each item as its bytes.
pub open spec fn items_view(items: Seq<Vec<u8>>) -> Seq<Seq<u8>> {
    Seq::new(items.len(), |i: int| items[i]@)
}

/// The bit test on `n` and `n - 1` finds exactly the powers of two.
proof fn lemma_bit_test_finds_pow2(n: u64)
    ensures
        (n != 0 && n & ((n - 1) as u64) == 0) <==> is_pow2(n as int),
    decreases n,
{
    reveal(is_pow2);
    if n == 0 {
    } else if n == 1 {
        assert(1u64 & 0u64 == 0) by (bit_vector);
    } else {
        let half: u64 = n / 2;
        assert((n & ((n - 1) as u64) == 0) <==> (n % 2 == 0 && half & ((half - 1) as u64) == 0))
            by (bit_vector)
            requires
                n > 1,
                half == n / 2,
        ;
        lemma_bit_test_finds_pow2(half);
    }
}

/// Whether `n` is a power of two.
pub fn is_power_of_two(n: usize) -> (yes: bool)
    ensures
        yes == is_pow2(n as int),
{
    let wide: u64 = n as u64;
    proof {
        lemma_bit_test_finds_pow2(wide);
    }
    wide != 0 && wide & (wide - 1) == 0
}

/// A copy of `bytes`.
pub fn copy_bytes(bytes: &[u8]) -> (out: Vec<u8>)
    ensures
        out@ == bytes@,
{
    let mut out: Vec<u8> = Vec::new();
    out.extend_from_slice(bytes);
    out
}

/// `left` followed by `right`.
pub fn join_bytes(left: &[u8], right: &[u8]) -> (out: Vec<u8>)
    ensures
        out@ == left@ + right@,
{
    let mut out: Vec<u8> = Vec::new();
    out.extend_from_slice(left);
    out.extend_from_slice(right);
    out
}

/// Whether `left` and `right` hold the same bytes.
pub fn same_bytes(left: &[u8], right: &[u8]) -> (same: bool)
    ensures
        same == (left@ == right@),
{
    if left.len() != right.len() {
        return false;
    }
    let mut i: usize = 0;
    while i < left.len()
        invariant
            left@.len() == right@.len(),
            i <= left@.len(),
            forall|j: int| 0 <= j < i ==> left@[j] == right@[j],
        decreases left@.len() - i,
    {
        if left[i] != right[i] {
            return false;
        }
        i += 1;
    }
    assert(left@ =~= right@);
    true
}

/// The SHA-1 digest of `data`.
pub uninterp spec fn sha1_digest(data: Seq<u8>) -> Seq<u8>;

/// The SHA-224 digest of `data`.
pub uninterp spec fn sha224_digest(data: Seq<u8>) -> Seq<u8>;

/// The SHA-256 digest of `data`.
pub uninterp spec fn sha256_digest(data: Seq<u8>) -> Seq<u8>;

/// The SHA-384 digest of `data`.
pub uninterp spec fn sha384_digest(data: Seq<u8>) -> Seq<u8>;

/// The SHA-512 digest of `data`.
pub uninterp spec fn sha512_digest(data: Seq<u8>) -> Seq<u8>;

/// The digest of `data` under `hash_function`.
pub open spec fn digest_of(hash_function: HashFunction, data: Seq<u8>) -> Seq<u8> {
    match hash_function {
        HashFunction::Sha1 => sha1_digest(data),
        HashFunction::Sha224 => sha224_digest(data),
        HashFunction::Sha256 => sha256_digest(data),
        HashFunction::Sha384 => sha384_digest(data),
        HashFunction::Sha512 => sha512_digest(data),
    }
}

/// Feeds `data` to a fresh `sha1::Sha1` through `DynDigest::update` and takes
/// the digest with `DynDigest::finalize_reset`. Trusted: the result depends on
/// `data` alone and has the 20 bytes of the hasher's output size.
#[verifier::external_body]
fn sha1_bytes(data: &[u8]) -> (out: Vec<u8>)
    ensures
        out@ == sha1_digest(data@),
        out@.len() == 20,
{
    let mut hasher = Sha1::default();
    DynDigest::update(&mut hasher, data);
    DynDigest::finalize_reset(&mut hasher).to_vec()
}

/// Feeds `data` to a fresh `sha2::Sha224` through `DynDigest::update` and
/// takes the digest with `DynDigest::finalize_reset`. Trusted: the result
/// depends on `data` alone and has the 28 bytes of the hasher's output size.
#[verifier::external_body]
fn sha224_bytes(data: &[u8]) -> (out: Vec<u8>)
    ensures
        out@ == sha224_digest(data@),
        out@.len() == 28,
{
    let mut hasher = Sha224::default();
    DynDigest::update(&mut hasher, data);
    DynDigest::finalize_reset(&mut hasher).to_vec()
}

/// Feeds `data` to a fresh `sha2::Sha256` through `DynDigest::update` and
/// takes the digest with `DynDigest::finalize_reset`. Trusted: the result
/// depends on `data` alone and has the 32 bytes of the hasher's output size.
#[verifier::external_body]
fn sha256_bytes(data: &[u8]) -> (out: Vec<u8>)
    ensures
        out@ == sha256_digest(data@),
        out@.len() == 32,
{
    let mut hasher = Sha256::default();
    DynDigest::update(&mut hasher, data);
    DynDigest::finalize_reset(&mut hasher).to_vec()
}

/// Feeds `data` to a fresh `sha2::Sha384` through `DynDigest::update` and
/// takes the digest with `DynDigest::finalize_reset`. Trusted: the result
/// depends on `data` alone and has the 48 bytes of the hasher's output size.
#[verifier::external_body]
fn sha384_bytes(data: &[u8]) -> (out: Vec<u8>)
    ensures
        out@ == sha384_digest(data@),
        out@.len() == 48,
{
    let mut hasher = Sha384::default();
    DynDigest::update(&mut hasher, data);
    DynDigest::finalize_reset(&mut hasher).to_vec()
}

/// Feeds `data` to a fresh `sha2::Sha512` through `DynDigest::update` and
/// takes the digest with `DynDigest::finalize_reset`. Trusted: the result
/// depends on `data` alone and has the 64 bytes of the hasher's output size.
#[verifier::external_body]
fn sha512_bytes(data: &[u8]) -> (out: Vec<u8>)
    ensures
        out@ == sha512_digest(data@),
        out@.len() == 64,
{
    let mut hasher = Sha512::default();
    DynDigest::update(&mut hasher, data);
    DynDigest::finalize_reset(&mut hasher).to_vec()
}

/// The hash function that `name` stands for.
pub fn select_hasher(name: &str) -> (found: Result<HashFunction, MerkleError>)
    ensures
        found == match HashFunction::parse_spec(name@) {
            Some(f) => Ok::<HashFunction, MerkleError>(f),
            None => Err::<HashFunction, MerkleError>(MerkleError::InvalidHashFunction),
        },
{
    match HashFunction::parse(name) {
        Some(f) => Ok(f),
        None => Err(MerkleError::InvalidHashFunction),
    }
}

/// Hashes `data` with a hasher of its own, so that no call sees what another
/// one was fed.
pub fn use_hasher(hash_function: HashFunction, data: &[u8]) -> (out: Vec<u8>)
    ensures
        out@ == digest_of(hash_function, data@),
        out@.len() == hash_function.digest_len(),
{
    match hash_function {
        HashFunction::Sha1 => sha1_bytes(data),
        HashFunction::Sha224 => sha224_bytes(data),
        HashFunction::Sha256 => sha256_bytes(data),
        HashFunction::Sha384 => sha384_bytes(data),
        HashFunction::Sha512 => sha512_bytes(data),
    }
}

/// The digest of `data` under the hash function called `hash_function`.
pub fn hash_data(data: &[u8], hash_function: &str) -> (out: Result<Vec<u8>, MerkleError>)
    ensures
        match HashFunction::parse_spec(hash_function@) {
            Some(f) => out is Ok && out->Ok_0@ == digest_of(f, data@)
                && out->Ok_0@.len() == f.digest_len(),
            None => out == Err::<Vec<u8>, MerkleError>(MerkleError::InvalidHashFunction),
        },
{
    match HashFunction::parse(hash_function) {
        Some(f) => Ok(use_hasher(f, data)),
        None => Err(MerkleError::InvalidHashFunction),
    }
}

/// What is left of a list when, as long as it holds more than one entry, the
/// first two are taken from its front and the digest of the first followed
/// by the second is put at its back.
pub open spec fn fifo_reduce(list: Seq<Seq<u8>>, hash_function: HashFunction) -> Seq<u8>
    decreases list.len(),
{
    if list.len() == 0 {
        Seq::empty()
    } else if list.len() == 1 {
        list[0]
    } else {
        fifo_reduce(
            list.skip(2).push(digest_of(hash_function, list[0] + list[1])),
            hash_function,
        )
    }
}

/// Hashes the entries of `lst` together, two from the front at a time, until
/// one is left, which is returned and is all that `lst` then holds. A list of
/// fewer than two entries gives `EmptyInput` and stays as it is.
pub fn concat_and_hash_list(lst: &mut Vec<Vec<u8>>, hash_function: HashFunction) -> (out: Result<Vec<u8>, MerkleError>)
    ensures
        match out {
            Ok(digest) => {
                &&& old(lst)@.len() >= 2
                &&& digest@ == fifo_reduce(items_view(old(lst)@), hash_function)
                &&& digest@.len() == hash_function.digest_len()
                &&& items_view(final(lst)@) == seq![digest@]
            },
            Err(e) => old(lst)@.len() < 2 && e == MerkleError::EmptyInput && *final(lst) == *old(lst),
        },
{
    if lst.len() < 2 {
        return Err(MerkleError::EmptyInput);
    }
    while lst.len() > 1
        invariant
            lst@.len() >= 1,
            fifo_reduce(items_view(lst@), hash_function) == fifo_reduce(
                items_view(old(lst)@),
                hash_function,
            ),
            lst@.len() < old(lst)@.len() ==> lst@[lst@.len() - 1]@.len() == hash_function.digest_len(),
            lst@.len() <= old(lst)@.len(),
        decreases lst@.len(),
    {
        let ghost before = items_view(lst@);
        let a = lst.remove(0);
        let b = lst.remove(0);
        lst.push(use_hasher(hash_function, join_bytes(a.as_slice(), b.as_slice()).as_slice()));
        assert(items_view(lst@) =~= before.skip(2).push(
            digest_of(hash_function, before[0] + before[1]),
        ));
    }
    let digest = copy_bytes(lst[0].as_slice());
    Ok(digest)
}

} // verus!
