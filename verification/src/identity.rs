use vstd::prelude::*;

use crate::codec::{encode_order, spec_order_bytes};
use crate::types::OrderConfig;

verus! {

/// The SHA-256 digest of a byte sequence, a function of the bytes alone.
pub uninterp spec fn sha256_of(bytes: Seq<u8>) -> Seq<u8>;

/// Relies on solana_program::hash::hash: the SHA-256 digest of the input
/// bytes, 32 bytes long, depending on the input bytes alone.
#[verifier::external_body]
fn sha256(bytes: &Vec<u8>) -> (r: [u8; 32])
    ensures
        r@ == sha256_of(bytes@),
{
    solana_program::hash::hash(bytes.as_slice()).to_bytes()
}

/// The content-addressed fingerprint of an order: the SHA-256 digest of the
/// canonical encoding of its full terms. The escrow is addressed by this
/// digest, so it doubles as a tamper check: any change to the terms moves the
/// caller to a different, nonexistent escrow. The breakpoint list must fit
/// the wire format's four-byte length prefix.
pub fn order_hash(order: &OrderConfig) -> (r: [u8; 32])
    requires
        order.dutch_auction_data.points_and_time_deltas@.len() <= u32::MAX,
    ensures
        r@ == sha256_of(spec_order_bytes(*order)),
{
    let bytes = encode_order(order);
    sha256(&bytes)
}

/// Constant-shape comparison of two 32-byte identities.
pub fn bytes32_eq(a: &[u8; 32], b: &[u8; 32]) -> (r: bool)
    ensures
        r == (a@ == b@),
{
    let mut i: usize = 0;
    while i < 32
        invariant
            i <= 32,
            forall|j: int| 0 <= j < i ==> a@[j] == b@[j],
        decreases 32 - i,
    {
        if a[i] != b[i] {
            return false;
        }
        i = i + 1;
    }
    proof {
        assert(a@ =~= b@);
    }
    true
}

} // verus!
