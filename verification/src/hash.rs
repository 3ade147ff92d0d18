use vstd::prelude::*;
use vstd::arithmetic::power::pow;
use crate::schedule::Checkpoint;

verus! {

/// The SHA-256 digest of `data`.
pub uninterp spec fn sha256(data: Seq<u8>) -> Seq<u8>;

/// The `n` low bytes of `x`, the lowest first.
pub open spec fn le_bytes(x: nat, n: nat) -> Seq<u8> {
    Seq::new(n, |i: int| ((x / (pow(256, i as nat) as nat)) % 256) as u8)
}

/// The Borsh encoding of a list of pairs of 128-bit numbers: the length of
/// the list in four bytes, then the two numbers of each pair in sixteen bytes
/// each, every number with its lowest byte first.
pub open spec fn borsh_pairs(pairs: Seq<(u128, u128)>) -> Seq<u8> {
    le_bytes(pairs.len(), 4) + pairs.map_values(
        |p: (u128, u128)| le_bytes(p.0 as nat, 16) + le_bytes(p.1 as nat, 16),
    ).flatten()
}

/// The commitment to the checkpoints `s`: the digest of their Borsh encoding,
/// each checkpoint as the pair of its timestamp and its balance.
pub open spec fn schedule_hash(s: Seq<Checkpoint>) -> Seq<u8> {
    sha256(borsh_pairs(s.map_values(|c: Checkpoint| (c.timestamp, c.balance))))
}

/// Calls `borsh::to_vec` on the list. Borsh writes a list as its length in
/// four little-endian bytes followed by its items, a pair as its two parts one
/// after the other, and a `u128` as sixteen little-endian bytes; it refuses a
/// list only when its length does not fit in 32 bits.
#[verifier::external_body]
pub(crate) fn borsh_encode(pairs: &Vec<(u128, u128)>) -> (res: Option<Vec<u8>>)
    ensures
        pairs@.len() <= u32::MAX ==> res is Some,
        res matches Some(bytes) ==> bytes@ == borsh_pairs(pairs@),
{
    borsh::to_vec(pairs).ok()
}

/// Calls `near_sdk::env::sha256_array`, which returns the 32 bytes of the
/// SHA-256 digest of its argument.
#[verifier::external_body]
pub(crate) fn sha256_digest(data: &Vec<u8>) -> (res: [u8; 32])
    ensures
        res@ == sha256(data@),
{
    near_sdk::env::sha256_array(data)
}

} // verus!
