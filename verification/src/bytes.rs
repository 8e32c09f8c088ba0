//! Byte strings read as big-endian numbers.

use vstd::arithmetic::power::{lemma_pow0, lemma_pow1, lemma_pow_adds, pow};
use vstd::prelude::*;

verus! {

/// The number that `bytes` writes in big-endian order.
pub open spec fn be_value(bytes: Seq<u8>) -> nat
    decreases bytes.len(),
{
    if bytes.len() == 0 {
        0
    } else {
        be_value(bytes.drop_last()) * 256 + bytes.last() as nat
    }
}

/// The low `len` base-256 digits of `value`, most significant first.
pub open spec fn be_bytes(value: nat, len: nat) -> Seq<u8>
    decreases len,
{
    if len == 0 {
        Seq::empty()
    } else {
        be_bytes(value / 256, (len - 1) as nat).push((value % 256) as u8)
    }
}

/// A number written out in as many bytes as it was read from gives those bytes back.
pub proof fn be_bytes_inverts_be_value(bytes: Seq<u8>)
    ensures
        be_bytes(be_value(bytes), bytes.len()) == bytes,
    decreases bytes.len(),
{
    if bytes.len() > 0 {
        be_bytes_inverts_be_value(bytes.drop_last());
        assert(bytes.drop_last().push(bytes.last()) =~= bytes);
    } else {
        assert(bytes =~= Seq::<u8>::empty());
    }
}

/// Bytes side by side write their numbers side by side: those in front weigh 256 to the count of
/// those behind.
pub proof fn be_value_of_joined_bytes(front: Seq<u8>, back: Seq<u8>)
    ensures
        be_value(front + back) == be_value(front) * pow(256, back.len()) + be_value(back),
    decreases back.len(),
{
    if back.len() > 0 {
        be_value_of_joined_bytes(front, back.drop_last());
        assert((front + back).drop_last() =~= front + back.drop_last());
        lemma_pow_adds(256, (back.len() - 1) as nat, 1);
        lemma_pow1(256);
        let (a, p) = (be_value(front) as int, pow(256, (back.len() - 1) as nat));
        assert((a * p) * 256 == a * (p * 256)) by (nonlinear_arith);
    } else {
        assert(front + back =~= front);
        lemma_pow0(256);
    }
}

/// One byte writes its own value, and bytes write a number that their count has room for.
pub proof fn be_value_fits_its_bytes(bytes: Seq<u8>)
    ensures
        be_value(bytes) < pow(256, bytes.len()),
        bytes.len() == 1 ==> be_value(bytes) == bytes[0],
    decreases bytes.len(),
{
    if bytes.len() > 0 {
        be_value_fits_its_bytes(bytes.drop_last());
        lemma_pow_adds(256, (bytes.len() - 1) as nat, 1);
        lemma_pow1(256);
        if bytes.len() == 1 {
            assert(be_value(bytes.drop_last()) == 0);
        }
    } else {
        lemma_pow0(256);
    }
}

/// A number that `len` bytes have room for is read back from the `len` bytes that it is written in.
pub proof fn be_value_inverts_be_bytes(value: nat, len: nat)
    requires
        value < pow(256, len),
    ensures
        be_bytes(value, len).len() == len,
        be_value(be_bytes(value, len)) == value,
    decreases len,
{
    if len > 0 {
        lemma_pow_adds(256, (len - 1) as nat, 1);
        lemma_pow1(256);
        be_value_inverts_be_bytes(value / 256, (len - 1) as nat);
        assert(be_bytes(value, len).drop_last() =~= be_bytes(value / 256, (len - 1) as nat));
    } else {
        lemma_pow0(256);
    }
}

} // verus!
