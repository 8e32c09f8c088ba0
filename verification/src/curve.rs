//! Scalars and points of secp256k1, held in their byte encodings.
//!
//! The curve arithmetic itself is the work of the `generic-ec` crate. What stands here are the
//! values that the rest of the library carries around, each with the invariant that makes it a
//! value of the curve.

use crate::bytes::{be_bytes, be_bytes_inverts_be_value, be_value, be_value_inverts_be_bytes};
use generic_ec::curves::Secp256k1;
use vstd::arithmetic::power::{lemma_pow_adds, pow};
use vstd::prelude::*;

verus! {

/// The order of the group that the generator of secp256k1 spans.
pub open spec fn curve_order() -> nat {
    0xFFFFFFFF_FFFFFFFF_FFFFFFFF_FFFFFFFE_BAAEDCE6_AF48A03B_BFD25E8C_D0364141nat
}

/// A residue modulo the curve order, held as 32 big-endian bytes.
#[derive(Clone, Copy, Debug)]
pub struct Scalar {
    pub(crate) bytes: [u8; 32],
}

impl View for Scalar {
    type V = nat;

    closed spec fn view(&self) -> nat {
        be_value(self.bytes@)
    }
}

impl Scalar {
    #[verifier::type_invariant]
    pub(crate) closed spec fn reduced(&self) -> bool {
        be_value(self.bytes@) < curve_order()
    }

    /// Reads a scalar from at most 32 big-endian bytes; `None` where the number is not below the
    /// curve order.
    pub fn from_be_bytes(bytes: &[u8]) -> (scalar: Option<Scalar>)
        ensures
            match scalar {
                Some(s) => bytes@.len() <= 32 && be_value(bytes@) < curve_order() && s@ == be_value(
                    bytes@,
                ),
                None => bytes@.len() > 32 || be_value(bytes@) >= curve_order(),
            },
    {
        decode_scalar(bytes)
    }

    /// Reads any number of big-endian bytes and reduces the number modulo the curve order.
    pub fn from_be_bytes_mod_order(bytes: &[u8]) -> (scalar: Scalar)
        ensures
            scalar@ == be_value(bytes@) % curve_order(),
    {
        reduce_scalar(bytes)
    }

    /// The 32 big-endian bytes of the scalar.
    pub fn to_be_bytes(&self) -> (bytes: [u8; 32])
        ensures
            bytes@ == be_bytes(self@, 32),
            be_value(bytes@) == self@,
            self@ < curve_order(),
    {
        proof {
            use_type_invariant(self);
            be_bytes_inverts_be_value(self.bytes@);
        }
        self.bytes
    }

    /// Whether the scalar is zero.
    pub fn is_zero(&self) -> (zero: bool)
        ensures
            zero == (self@ == 0),
    {
        all_zero(&self.bytes)
    }
}

/// The compressed SEC1 encoding of the point that `generic_ec::Point::from_bytes` reads from
/// `bytes` on secp256k1, where it reads one. The point at infinity has 33 zero bytes.
pub uninterp spec fn compressed_point(bytes: Seq<u8>) -> Option<Seq<u8>>;

/// The 33 zero bytes that stand for the point at infinity.
pub open spec fn infinity() -> Seq<u8> {
    Seq::new(33, |i: int| 0u8)
}

/// A point of secp256k1, held in compressed SEC1 encoding.
#[derive(Clone, Copy, Debug)]
pub struct Point {
    pub(crate) bytes: [u8; 33],
}

impl View for Point {
    type V = Seq<u8>;

    closed spec fn view(&self) -> Seq<u8> {
        self.bytes@
    }
}

impl Point {
    #[verifier::type_invariant]
    pub(crate) closed spec fn on_curve(&self) -> bool {
        compressed_point(self.bytes@) == Some(self.bytes@)
    }

    /// Reads a point from its SEC1 encoding, compressed or not; `None` where `bytes` encode no
    /// point of the curve. Bytes that are all zero are read as the point at infinity.
    pub fn from_bytes(bytes: &[u8]) -> (point: Option<Point>)
        ensures
            match point {
                Some(p) => compressed_point(bytes@) == Some(p@),
                None => compressed_point(bytes@) is None,
            },
    {
        decode_point(bytes)
    }

    /// The compressed encoding of the point.
    pub fn to_bytes(&self) -> (bytes: [u8; 33])
        ensures
            bytes@ == self@,
            compressed_point(self@) == Some(self@),
    {
        proof {
            use_type_invariant(self);
        }
        self.bytes
    }

    /// Whether this is the point at infinity.
    pub fn is_infinity(&self) -> (infinite: bool)
        ensures
            infinite == (self@ == infinity()),
    {
        let infinite = all_zero(&self.bytes);
        proof {
            if be_value(self.bytes@) == 0 {
                zero_value_means_zero_bytes(self.bytes@);
                assert(self.bytes@ =~= infinity());
            }
            if self.bytes@ == infinity() {
                zero_bytes_have_zero_value(self.bytes@);
            }
        }
        infinite
    }
}

/// Bytes that are all zero write the number zero.
proof fn zero_bytes_have_zero_value(bytes: Seq<u8>)
    requires
        forall|i: int| 0 <= i < bytes.len() ==> bytes[i] == 0,
    ensures
        be_value(bytes) == 0,
    decreases bytes.len(),
{
    if bytes.len() > 0 {
        zero_bytes_have_zero_value(bytes.drop_last());
    }
}

/// Bytes that write the number zero are all zero.
proof fn zero_value_means_zero_bytes(bytes: Seq<u8>)
    requires
        be_value(bytes) == 0,
    ensures
        forall|i: int| 0 <= i < bytes.len() ==> bytes[i] == 0,
    decreases bytes.len(),
{
    if bytes.len() > 0 {
        zero_value_means_zero_bytes(bytes.drop_last());
        assert forall|i: int| 0 <= i < bytes.len() implies bytes[i] == 0 by {
            if i < bytes.len() - 1 {
                assert(bytes.drop_last()[i] == 0);
            }
        }
    }
}

/// Whether every byte is zero, which is to say that they write the number zero.
fn all_zero(bytes: &[u8]) -> (zero: bool)
    ensures
        zero == (be_value(bytes@) == 0),
{
    let mut i: usize = 0;
    while i < bytes.len()
        invariant
            i <= bytes@.len(),
            forall|j: int| 0 <= j < i ==> bytes@[j] == 0,
        decreases bytes@.len() - i,
    {
        if bytes[i] != 0 {
            proof {
                if be_value(bytes@) == 0 {
                    zero_value_means_zero_bytes(bytes@);
                }
            }
            return false;
        }
        i = i + 1;
    }
    proof {
        zero_bytes_have_zero_value(bytes@);
    }
    true
}

/// Calls `generic_ec::Scalar::from_be_bytes` on secp256k1. It pads up to 32 bytes with leading
/// zeros and takes the number as it is where that is below the curve order; it takes nothing else.
#[verifier::external_body]
fn decode_scalar(bytes: &[u8]) -> (scalar: Option<Scalar>)
    ensures
        match scalar {
            Some(s) => bytes@.len() <= 32 && be_value(bytes@) < curve_order() && s@ == be_value(
                bytes@,
            ),
            None => bytes@.len() > 32 || be_value(bytes@) >= curve_order(),
        },
{
    let scalar = generic_ec::Scalar::<Secp256k1>::from_be_bytes(bytes).ok()?;
    Some(Scalar { bytes: scalar.to_be_bytes().as_bytes().try_into().ok()? })
}

/// Calls `generic_ec::Scalar::from_be_bytes_mod_order` on secp256k1, which takes the big-endian
/// number that `bytes` write, whatever their count, modulo the curve order.
#[verifier::external_body]
fn reduce_scalar(bytes: &[u8]) -> (scalar: Scalar)
    ensures
        scalar@ == be_value(bytes@) % curve_order(),
{
    let scalar = generic_ec::Scalar::<Secp256k1>::from_be_bytes_mod_order(bytes);
    Scalar { bytes: scalar.to_be_bytes().as_bytes().try_into().unwrap() }
}

/// Calls `generic_ec::Point::from_bytes` on secp256k1 and gives the point in compressed encoding,
/// which `compressed_point` names. A compressed encoding that was written is read back as the same
/// point.
#[verifier::external_body]
fn decode_point(bytes: &[u8]) -> (point: Option<Point>)
    ensures
        match point {
            Some(p) => compressed_point(bytes@) == Some(p@) && compressed_point(p@) == Some(p@),
            None => compressed_point(bytes@) is None,
        },
{
    let point = generic_ec::Point::<Secp256k1>::from_bytes(bytes).ok()?;
    Some(Point { bytes: point.to_bytes(true).as_bytes().try_into().ok()? })
}

/// The curve order is a little less than 2 to the 256, so that a scalar takes all of its 32 bytes.
pub proof fn curve_order_is_just_below_the_bytes()
    ensures
        curve_order() + 0x1_4551_2319_50B7_5FC4_402D_A173_2FC9_BEBFnat == pow(256, 32),
{
    assert(pow(256, 4) == 0x1_0000_0000int) by {
        reveal_with_fuel(pow, 5);
    }
    let q: int = 0x1_0000_0000int;
    lemma_pow_adds(256, 4, 4);
    assert(q * q == 0x1_0000_0000_0000_0000int) by (nonlinear_arith)
        requires
            q == 0x1_0000_0000int,
    ;
    lemma_pow_adds(256, 8, 8);
    let h: int = 0x1_0000_0000_0000_0000int;
    assert(h * h == 0x1_0000_0000_0000_0000_0000_0000_0000_0000int) by (nonlinear_arith)
        requires
            h == 0x1_0000_0000_0000_0000int,
    ;
    lemma_pow_adds(256, 16, 16);
    let w: int = 0x1_0000_0000_0000_0000_0000_0000_0000_0000int;
    assert(w * w
        == 0x1_0000_0000_0000_0000_0000_0000_0000_0000_0000_0000_0000_0000_0000_0000_0000_0000int)
        by (nonlinear_arith)
        requires
            w == 0x1_0000_0000_0000_0000_0000_0000_0000_0000int,
    ;
}

/// The number that 32 bytes of a scalar write is the scalar, and no other 32 bytes write it.
pub proof fn scalar_bytes_are_unique(value: nat, bytes: Seq<u8>)
    requires
        value < curve_order(),
        bytes.len() == 32,
    ensures
        be_value(be_bytes(value, 32)) == value,
        be_value(bytes) == value <==> bytes == be_bytes(value, 32),
{
    curve_order_is_just_below_the_bytes();
    be_value_inverts_be_bytes(value, 32);
    be_bytes_inverts_be_value(bytes);
}

/// Infinity is written in 33 bytes, all of them zero.
pub proof fn infinity_is_all_zero()
    ensures
        infinity().len() == 33,
        forall|i: int| 0 <= i < 33 ==> #[trigger] infinity()[i] == 0,
        be_value(infinity()) == 0,
{
    zero_bytes_have_zero_value(infinity());
}

} // verus!
