//! The hash oracle: deterministic maps from byte strings to scalars and to
//! points, both read off a SHA-256 digest.

use vstd::prelude::*;
use sha2::{Digest, Sha256};
use crate::encoding::{be_word, read_word};
use crate::group::{
    GENERATOR, MODULUS, ORDER, in_group, lemma_generator_in_group, mul_mod, mul_mod_exec,
};
use crate::point::Point;
use crate::scalar::Scalar;

verus! {

/// The SHA-256 digest of a byte string.
pub uninterp spec fn sha256_digest(data: Seq<u8>) -> Seq<u8>;

/// Calls `sha2::Sha256::digest` (the `Digest` trait's one-shot hash) and
/// hands back its 32 output bytes.  The contract claims only that the
/// bytes are the digest of the input, a function of the input alone.
#[verifier::external_body]
fn sha256(data: &[u8]) -> (digest: [u8; 32])
    ensures
        digest@ == sha256_digest(data@),
{
    Sha256::digest(data).into()
}

/// The scalar that a digest stands for: its first word, reduced.
pub open spec fn scalar_of_digest(d: Seq<u8>) -> nat {
    be_word(d, 0) % (ORDER as nat)
}

/// The nonzero residue that a digest's second word selects.
pub open spec fn residue_of_digest(d: Seq<u8>) -> nat {
    be_word(d, 8) % ((MODULUS - 1) as nat) + 1
}

/// The point that a digest stands for: the square of the residue that its
/// second word selects.  Should the square not lie in the group, the base
/// point stands in.
pub open spec fn point_of_digest(d: Seq<u8>) -> nat {
    let c = residue_of_digest(d);
    if in_group(mul_mod(c, c)) {
        mul_mod(c, c)
    } else {
        GENERATOR as nat
    }
}

/// The scalar that a byte string hashes to.
pub open spec fn scalar_hash(data: Seq<u8>) -> nat {
    scalar_of_digest(sha256_digest(data))
}

/// The point that a byte string hashes to.
pub open spec fn point_hash(data: Seq<u8>) -> nat {
    point_of_digest(sha256_digest(data))
}

/// Every digest stands for a point of the group.
pub proof fn lemma_point_of_digest_in_group(d: Seq<u8>)
    ensures
        in_group(point_of_digest(d)),
{
    lemma_generator_in_group();
}

/// Reads a scalar off a digest.
pub fn scalar_from_digest(d: &[u8; 32]) -> (r: Scalar)
    ensures
        r.wf(),
        r@ == scalar_of_digest(d@),
{
    Scalar::reduce(read_word(d.as_slice(), 0))
}

/// Reads a point off a digest.
pub fn point_from_digest(d: &[u8; 32]) -> (r: Point)
    ensures
        r.wf(),
        r@ == point_of_digest(d@),
{
    let word: u64 = read_word(d.as_slice(), 8);
    let c: u64 = word % (MODULUS - 1) + 1;
    let square: u64 = mul_mod_exec(c, c);
    match Point::decode(square) {
        Ok(p) => p,
        Err(_) => Point::base(),
    }
}

/// Hashes a byte string to a scalar.
pub fn hash_to_scalar(data: &[u8]) -> (r: Scalar)
    ensures
        r.wf(),
        r@ == scalar_hash(data@),
{
    let digest = sha256(data);
    scalar_from_digest(&digest)
}

/// Hashes a byte string to a point.
pub fn hash_to_point(data: &[u8]) -> (r: Point)
    ensures
        r.wf(),
        r@ == point_hash(data@),
{
    let digest = sha256(data);
    point_from_digest(&digest)
}

} // verus!
