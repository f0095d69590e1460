//! The content hash behind message identifiers and Merkle nodes.
//!
//! The digest itself is computed by an outside crate; its value is given a
//! name, `keccak_of`, that the rest of the library reasons with.

use vstd::prelude::*;
use crate::bytes_be::clone_bytes;
use crate::bytes_be::push_bytes;

verus! {

/// The Keccak-256 digest of the given bytes: a function of the input bytes
/// alone, identical across processes and machines.
pub uninterp spec fn keccak_of(input: Seq<u8>) -> Seq<u8>;

/// Relies on ethers_core::utils::keccak256: the Keccak-256 digest of the
/// input, 32 bytes, a function of the input bytes alone.
#[verifier::external_body]
pub(crate) fn keccak256(input: &Vec<u8>) -> (r: Vec<u8>)
    ensures
        r@ == keccak_of(input@),
        r@.len() == 32,
{
    ethers_core::utils::keccak256(input.as_slice()).to_vec()
}

/// The hash of an inner Merkle node from its two child hashes.
pub open spec fn hash_node(l: Seq<u8>, r: Seq<u8>) -> Seq<u8> {
    keccak_of(l + r)
}

/// Hashes the concatenation of two child hashes into their parent node.
pub(crate) fn hash_pair(l: &Vec<u8>, r: &Vec<u8>) -> (h: Vec<u8>)
    ensures
        h@ == hash_node(l@, r@),
        h@.len() == 32,
{
    let mut buf = clone_bytes(l);
    push_bytes(&mut buf, r);
    keccak256(&buf)
}

} // verus!
