//! Digests: how a reason and a tip are named.

use vstd::prelude::*;
use vstd::bytes::{spec_u128_to_le_bytes, u128_to_le_bytes};
use crate::types::{AccountId, H256};

verus! {

/// The BLAKE2b digest of `data`, 32 bytes long and unkeyed.
pub uninterp spec fn blake2_256(data: Seq<u8>) -> H256;

/// The 32 bytes of a digest, in order.
pub open spec fn hash_bytes(h: H256) -> Seq<u8> {
    spec_u128_to_le_bytes(h.lo) + spec_u128_to_le_bytes(h.hi)
}

/// What is hashed to name a tip: the digest of its reason, followed by the
/// beneficiary's identity in sixteen little-endian bytes.
pub open spec fn tip_preimage(reason_hash: H256, who: AccountId) -> Seq<u8> {
    hash_bytes(reason_hash) + spec_u128_to_le_bytes(who)
}

/// The name under which the tip for `reason` to `who` is kept.
pub open spec fn tip_key(reason: Seq<u8>, who: AccountId) -> H256 {
    blake2_256(tip_preimage(blake2_256(reason), who))
}

/// `blake2_rfc::blake2b::blake2b(32, &[], data)`.
///
/// Trusted: the digest depends on `data` alone. Its first sixteen bytes are
/// handed back as `lo`, its last sixteen as `hi`, both little-endian.
#[verifier::external_body]
fn blake2b_32(data: &Vec<u8>) -> (h: H256)
    ensures
        h == blake2_256(data@),
{
    let digest = blake2_rfc::blake2b::blake2b(32, &[], data.as_slice());
    let bytes: &[u8] = digest.as_bytes();
    let mut lo: [u8; 16] = [0u8; 16];
    let mut hi: [u8; 16] = [0u8; 16];
    lo.copy_from_slice(&bytes[..16]);
    hi.copy_from_slice(&bytes[16..]);
    H256 { lo: u128::from_le_bytes(lo), hi: u128::from_le_bytes(hi) }
}

/// The digest of a reason.
pub fn reason_hash(reason: &Vec<u8>) -> (h: H256)
    ensures
        h == blake2_256(reason@),
{
    blake2b_32(reason)
}

/// The 32 bytes of a digest.
pub fn hash_to_bytes(h: H256) -> (bytes: Vec<u8>)
    ensures
        bytes@ == hash_bytes(h),
        bytes@.len() == 32,
{
    let mut bytes = u128_to_le_bytes(h.lo);
    let mut tail = u128_to_le_bytes(h.hi);
    bytes.append(&mut tail);
    bytes
}

/// The name of the tip that rewards `who` for the reason with digest
/// `reason_hash`.
pub fn tip_hash(reason_hash: H256, who: AccountId) -> (h: H256)
    ensures
        h == blake2_256(tip_preimage(reason_hash, who)),
{
    let mut bytes = hash_to_bytes(reason_hash);
    let mut tail = u128_to_le_bytes(who);
    bytes.append(&mut tail);
    blake2b_32(&bytes)
}

} // verus!
