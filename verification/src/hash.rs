//! The Keccak-256 hash, taken from the `sha3` crate.

use crate::primitives::{lemma_word_of_bytes, word_of_bytes, Word};
use sha3::Digest;
use vstd::prelude::*;

verus! {

/// The Keccak-256 digest of a byte string, as `sha3::Keccak256` computes it.
pub uninterp spec fn keccak256_digest(data: Seq<u8>) -> Seq<u8>;

/// The Keccak-256 digest of the empty byte string.
pub open spec fn keccak_empty_bytes() -> Seq<u8> {
    seq![
        0xc5u8, 0xd2u8, 0x46u8, 0x01u8, 0x86u8, 0xf7u8, 0x23u8, 0x3cu8,
        0x92u8, 0x7eu8, 0x7du8, 0xb2u8, 0xdcu8, 0xc7u8, 0x03u8, 0xc0u8,
        0xe5u8, 0x00u8, 0xb6u8, 0x53u8, 0xcau8, 0x82u8, 0x27u8, 0x3bu8,
        0x7bu8, 0xfau8, 0xd8u8, 0x04u8, 0x5du8, 0x85u8, 0xa4u8, 0x70u8,
    ]
}

/// The digest of the empty byte string as a word.
pub fn keccak_empty() -> (w: Word)
    ensures
        w == word_of_bytes(keccak_empty_bytes()),
        w.bytes@ == keccak_empty_bytes(),
{
    let w = Word {
        bytes: [
            0xc5, 0xd2, 0x46, 0x01, 0x86, 0xf7, 0x23, 0x3c,
            0x92, 0x7e, 0x7d, 0xb2, 0xdc, 0xc7, 0x03, 0xc0,
            0xe5, 0x00, 0xb6, 0x53, 0xca, 0x82, 0x27, 0x3b,
            0x7b, 0xfa, 0xd8, 0x04, 0x5d, 0x85, 0xa4, 0x70,
        ],
    };
    proof {
        assert(w.bytes@ =~= keccak_empty_bytes());
        lemma_word_of_bytes(w);
    }
    w
}

/// Calls `sha3::Keccak256::digest` (the `digest` method of `sha3::Digest`),
/// which hashes the whole of `data` in one go. Trusted, not proved: the 32
/// bytes returned depend on the bytes of `data` alone, and the contract gives
/// them the name `keccak256_digest`.
#[verifier::external_body]
fn digest_keccak256(data: &[u8]) -> (digest: [u8; 32])
    ensures
        digest@ == keccak256_digest(data@),
{
    sha3::Keccak256::digest(data).into()
}

/// The Keccak-256 hash of `data` as a word.
pub fn keccak256(data: &[u8]) -> (w: Word)
    ensures
        w == word_of_bytes(keccak256_digest(data@)),
        w.bytes@ == keccak256_digest(data@),
{
    let w = Word::from_be_bytes(digest_keccak256(data));
    proof {
        lemma_word_of_bytes(w);
    }
    w
}

} // verus!
