//! The digest algorithms that ECDSA verification uses.

use vstd::prelude::*;
use sha2::Digest;

verus! {

/// A digest algorithm.
#[derive(Clone, Copy, Debug, PartialEq, Eq, Structural)]
pub enum DigestAlgorithm {
    Sha1,
    Sha256,
    Sha384,
    Sha512,
}

/// The length of the algorithm's output, in bytes.
pub open spec fn output_len(alg: DigestAlgorithm) -> nat {
    match alg {
        DigestAlgorithm::Sha1 => 20,
        DigestAlgorithm::Sha256 => 32,
        DigestAlgorithm::Sha384 => 48,
        DigestAlgorithm::Sha512 => 64,
    }
}

/// The SHA-1 digest of `data` that the `sha1` crate computes.
pub uninterp spec fn sha1_digest(data: Seq<u8>) -> Seq<u8>;

/// The SHA-256 digest of `data` that the `sha2` crate computes.
pub uninterp spec fn sha256_digest(data: Seq<u8>) -> Seq<u8>;

/// The SHA-384 digest of `data` that the `sha2` crate computes.
pub uninterp spec fn sha384_digest(data: Seq<u8>) -> Seq<u8>;

/// The SHA-512 digest of `data` that the `sha2` crate computes.
pub uninterp spec fn sha512_digest(data: Seq<u8>) -> Seq<u8>;

/// Calls `sha1::Sha1::digest`. The contract names the result and claims its
/// documented length of 20 bytes.
#[verifier::external_body]
fn sha1(data: &[u8]) -> (r: Vec<u8>)
    ensures
        r@ == sha1_digest(data@),
        r@.len() == 20,
{
    sha1::Sha1::digest(data).to_vec()
}

/// Calls `sha2::Sha256::digest`. The contract names the result and claims its
/// documented length of 32 bytes.
#[verifier::external_body]
fn sha256(data: &[u8]) -> (r: Vec<u8>)
    ensures
        r@ == sha256_digest(data@),
        r@.len() == 32,
{
    sha2::Sha256::digest(data).to_vec()
}

/// Calls `sha2::Sha384::digest`. The contract names the result and claims its
/// documented length of 48 bytes.
#[verifier::external_body]
fn sha384(data: &[u8]) -> (r: Vec<u8>)
    ensures
        r@ == sha384_digest(data@),
        r@.len() == 48,
{
    sha2::Sha384::digest(data).to_vec()
}

/// Calls `sha2::Sha512::digest`. The contract names the result and claims its
/// documented length of 64 bytes.
#[verifier::external_body]
fn sha512(data: &[u8]) -> (r: Vec<u8>)
    ensures
        r@ == sha512_digest(data@),
        r@.len() == 64,
{
    sha2::Sha512::digest(data).to_vec()
}

/// The digest of `data` under `alg`.
pub open spec fn digest_spec(alg: DigestAlgorithm, data: Seq<u8>) -> Seq<u8> {
    match alg {
        DigestAlgorithm::Sha1 => sha1_digest(data),
        DigestAlgorithm::Sha256 => sha256_digest(data),
        DigestAlgorithm::Sha384 => sha384_digest(data),
        DigestAlgorithm::Sha512 => sha512_digest(data),
    }
}

/// Calculates the digest of `data` using the digest algorithm `alg`.
pub fn digest(alg: DigestAlgorithm, data: &[u8]) -> (r: Vec<u8>)
    ensures
        r@ == digest_spec(alg, data@),
        r@.len() == output_len(alg),
        alg == DigestAlgorithm::Sha1 ==> r@ == sha1_digest(data@) && r@.len() == 20,
        alg == DigestAlgorithm::Sha256 ==> r@ == sha256_digest(data@) && r@.len() == 32,
        alg == DigestAlgorithm::Sha384 ==> r@ == sha384_digest(data@) && r@.len() == 48,
        alg == DigestAlgorithm::Sha512 ==> r@ == sha512_digest(data@) && r@.len() == 64,
{
    match alg {
        DigestAlgorithm::Sha1 => sha1(data),
        DigestAlgorithm::Sha256 => sha256(data),
        DigestAlgorithm::Sha384 => sha384(data),
        DigestAlgorithm::Sha512 => sha512(data),
    }
}

} // verus!
