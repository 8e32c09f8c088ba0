//! The scalar that stands for a payload when it is signed.

use crate::bytes::{be_bytes, be_bytes_inverts_be_value, be_value};
use crate::curve::{curve_order, Scalar};
use cggmp24::signing::DataToSign;
use generic_ec::curves::Secp256k1;
use vstd::prelude::*;

verus! {

/// The SHA-256 hash of `data`.
pub uninterp spec fn sha256(data: Seq<u8>) -> Seq<u8>;

/// The hash that is signed for a payload: the payload itself where it is one already, else its
/// SHA-256 hash.
pub open spec fn signed_hash(payload: Seq<u8>, prehashed: bool) -> Seq<u8> {
    if prehashed {
        payload
    } else {
        sha256(payload)
    }
}

/// The scalar that is signed for a payload.
pub open spec fn message_value(payload: Seq<u8>, prehashed: bool) -> nat {
    be_value(signed_hash(payload, prehashed)) % curve_order()
}

/// The scalar to sign for `payload`. A payload that is a hash already is taken as it is; any other
/// is hashed.
pub fn message_to_sign(payload: &[u8], prehashed: bool) -> (message: Scalar)
    ensures
        message@ == message_value(payload@, prehashed),
{
    if prehashed {
        Scalar::from_be_bytes_mod_order(payload)
    } else {
        hash_payload(payload)
    }
}

/// To sign a payload's hash as a hash is to sign the payload.
pub proof fn hashing_beforehand_changes_nothing(payload: Seq<u8>)
    ensures
        message_value(sha256(payload), true) == message_value(payload, false),
{
}

/// A payload that is a hash is signed as the number that its bytes write; any other is signed as
/// the number that the bytes of its SHA-256 hash write. Either is taken modulo the curve order.
pub proof fn payload_or_its_hash_is_signed(payload: Seq<u8>)
    ensures
        message_value(payload, true) < curve_order(),
        message_value(payload, false) < curve_order(),
        (be_value(payload) - message_value(payload, true)) % (curve_order() as int) == 0,
        (be_value(sha256(payload)) - message_value(payload, false)) % (curve_order() as int) == 0,
{
    let n = curve_order() as int;
    let (a, b) = (be_value(payload) as int, be_value(sha256(payload)) as int);
    vstd::arithmetic::div_mod::lemma_sub_mod_noop_right(a, a, n);
    vstd::arithmetic::div_mod::lemma_sub_mod_noop_right(b, b, n);
}

/// A hash of 32 bytes that is below the curve order is signed as it is: the scalar writes the
/// same 32 bytes.
pub proof fn prehashed_payload_is_signed_as_is(payload: Seq<u8>)
    requires
        payload.len() == 32,
        be_value(payload) < curve_order(),
    ensures
        be_bytes(message_value(payload, true), 32) == payload,
{
    be_bytes_inverts_be_value(payload);
    vstd::arithmetic::div_mod::lemma_small_mod(be_value(payload), curve_order());
}

/// Calls `cggmp24::signing::DataToSign::digest` with `sha2::Sha256`, which takes the hash of the
/// data as a big-endian number modulo the curve order.
#[verifier::external_body]
fn hash_payload(payload: &[u8]) -> (message: Scalar)
    ensures
        message@ == be_value(sha256(payload@)) % curve_order(),
{
    let data = DataToSign::<Secp256k1>::digest::<sha2::Sha256>(payload);
    Scalar { bytes: data.to_scalar().to_be_bytes().as_bytes().try_into().unwrap() }
}

} // verus!
