//! MessagePack forms of presignatures, partial signatures and signatures.
//!
//! The format is that of `rmp-serde` for the types of `cggmp24`; nothing of it is built here.

use crate::curve::{Point, Scalar};
use crate::signing::{PartialSignature, Presignature, PresignatureData, Signature, SignatureData};
use cggmp24::signing::PartialSignature as CggmpPartialSignature;
use cggmp24::signing::Presignature as CggmpPresignature;
use cggmp24::signing::Signature as CggmpSignature;
use generic_ec::curves::Secp256k1;
use generic_ec::{NonZero, Point as CurvePoint, Scalar as CurveScalar, SecretScalar};
use std::collections::VecDeque;
use vstd::prelude::*;

verus! {

/// The error that `rmp-serde` reports when it reads.
#[verifier::external_type_specification]
#[verifier::external_body]
pub struct ExDecodeError(rmp_serde::decode::Error);

/// The error that `rmp-serde` reports when it writes.
#[verifier::external_type_specification]
#[verifier::external_body]
pub struct ExEncodeError(rmp_serde::encode::Error);

/// What presignatures hold, in order.
pub open spec fn presignature_data(presigs: Seq<Presignature>) -> Seq<PresignatureData> {
    presigs.map_values(|p: Presignature| p@)
}

/// What `rmp_serde::to_vec_named` writes for a queue of presignatures.
pub uninterp spec fn presignatures_msgpack(presigs: Seq<PresignatureData>) -> Seq<u8>;

/// The presignatures that `rmp_serde::from_slice` reads, where it reads a queue of them.
pub uninterp spec fn msgpack_presignatures(bytes: Seq<u8>) -> Option<Seq<PresignatureData>>;

/// What `rmp_serde::to_vec` writes for a list of presignatures.
pub uninterp spec fn presignature_list_msgpack(presigs: Seq<PresignatureData>) -> Seq<u8>;

/// What `rmp_serde::to_vec` writes for a partial signature.
pub uninterp spec fn partial_signature_msgpack(partial: nat) -> Seq<u8>;

/// The partial signature that `rmp_serde::from_slice` reads, where it reads one.
pub uninterp spec fn msgpack_partial_signature(bytes: Seq<u8>) -> Option<nat>;

/// What `rmp_serde::to_vec_named` writes for a signature.
pub uninterp spec fn signature_msgpack(signature: SignatureData) -> Seq<u8>;

/// The signature that `rmp_serde::from_slice` reads, where it reads one.
pub uninterp spec fn msgpack_signature(bytes: Seq<u8>) -> Option<SignatureData>;

/// Calls `rmp_serde::to_vec_named` on a queue of `cggmp24::signing::Presignature`. What it writes is
/// read back, as long as the count fits the 32 bits that the format has for it. It writes to
/// memory, and reports an error only where that runs out; nothing is stated of when that is.
#[verifier::external_body]
pub(crate) fn encode_presignatures(presigs: &VecDeque<Presignature>) -> (bytes: Result<
    Vec<u8>,
    rmp_serde::encode::Error,
>)
    ensures
        bytes matches Ok(b) ==> b@ == presignatures_msgpack(presignature_data(presigs@)) && (
        presigs@.len() <= u32::MAX ==> msgpack_presignatures(b@) == Some(
            presignature_data(presigs@),
        )),
{
    let scalar = |s: Scalar| CurveScalar::<Secp256k1>::from_be_bytes(s.bytes).unwrap();
    let queue = presigs.iter().map(|p| CggmpPresignature {
        Gamma: NonZero::from_point(CurvePoint::from_bytes(p.gamma.bytes).unwrap()).unwrap(),
        tilde_k: SecretScalar::new(&mut scalar(p.tilde_k)),
        tilde_chi: SecretScalar::new(&mut scalar(p.tilde_chi)),
    });
    rmp_serde::to_vec_named(&queue.collect::<VecDeque<_>>())
}

/// Calls `rmp_serde::to_vec` on a list of `cggmp24::signing::Presignature`. What it writes is read
/// back, as long as the count fits the 32 bits that the format has for it. It writes to memory, and
/// reports an error only where that runs out; nothing is stated of when that is.
#[verifier::external_body]
pub(crate) fn encode_presignature_list(presigs: &[Presignature]) -> (bytes: Result<
    Vec<u8>,
    rmp_serde::encode::Error,
>)
    ensures
        bytes matches Ok(b) ==> b@ == presignature_list_msgpack(presignature_data(presigs@)) && (
        presigs@.len() <= u32::MAX ==> msgpack_presignatures(b@) == Some(
            presignature_data(presigs@),
        )),
{
    let scalar = |s: Scalar| CurveScalar::<Secp256k1>::from_be_bytes(s.bytes).unwrap();
    let list = presigs.iter().map(|p| CggmpPresignature {
        Gamma: NonZero::from_point(CurvePoint::from_bytes(p.gamma.bytes).unwrap()).unwrap(),
        tilde_k: SecretScalar::new(&mut scalar(p.tilde_k)),
        tilde_chi: SecretScalar::new(&mut scalar(p.tilde_chi)),
    });
    rmp_serde::to_vec(&list.collect::<Vec<_>>())
}

/// Calls `rmp_serde::from_slice` for a queue of `cggmp24::signing::Presignature`.
#[verifier::external_body]
pub(crate) fn decode_presignatures(bytes: &[u8]) -> (presigs: Result<
    VecDeque<Presignature>,
    rmp_serde::decode::Error,
>)
    ensures
        match presigs {
            Ok(p) => msgpack_presignatures(bytes@) == Some(presignature_data(p@)),
            Err(_) => msgpack_presignatures(bytes@) is None,
        },
{
    let queue: VecDeque<CggmpPresignature<Secp256k1>> = rmp_serde::from_slice(bytes)?;
    let scalar = |s: &CurveScalar<Secp256k1>| Scalar {
        bytes: s.to_be_bytes().as_bytes().try_into().unwrap(),
    };
    Ok(queue.iter().map(|p| Presignature {
        gamma: Point { bytes: p.Gamma.to_bytes(true).as_bytes().try_into().unwrap() },
        tilde_k: scalar(p.tilde_k.as_ref()),
        tilde_chi: scalar(p.tilde_chi.as_ref()),
    }).collect())
}

/// Calls `rmp_serde::to_vec` on a `cggmp24::signing::PartialSignature`. What it writes is read back.
/// It writes to memory, and reports an error only where that runs out; nothing is stated of when
/// that is.
#[verifier::external_body]
pub(crate) fn encode_partial_signature(partial: &PartialSignature) -> (bytes: Result<
    Vec<u8>,
    rmp_serde::encode::Error,
>)
    ensures
        bytes matches Ok(b) ==> b@ == partial_signature_msgpack(partial@)
            && msgpack_partial_signature(b@) == Some(partial@),
{
    let sigma = CurveScalar::<Secp256k1>::from_be_bytes(partial.sigma.bytes).unwrap();
    rmp_serde::to_vec(&CggmpPartialSignature { sigma })
}

/// Calls `rmp_serde::from_slice` for a `cggmp24::signing::PartialSignature`.
#[verifier::external_body]
pub(crate) fn decode_partial_signature(bytes: &[u8]) -> (partial: Result<
    PartialSignature,
    rmp_serde::decode::Error,
>)
    ensures
        match partial {
            Ok(p) => msgpack_partial_signature(bytes@) == Some(p@),
            Err(_) => msgpack_partial_signature(bytes@) is None,
        },
{
    let partial: CggmpPartialSignature<Secp256k1> = rmp_serde::from_slice(bytes)?;
    let sigma = partial.sigma.to_be_bytes().as_bytes().try_into().unwrap();
    Ok(PartialSignature { sigma: Scalar { bytes: sigma } })
}

/// Calls `rmp_serde::to_vec_named` on a `cggmp24::signing::Signature`. What it writes is read back.
/// It writes to memory, and reports an error only where that runs out; nothing is stated of when
/// that is.
#[verifier::external_body]
pub(crate) fn encode_signature(signature: &Signature) -> (bytes: Result<
    Vec<u8>,
    rmp_serde::encode::Error,
>)
    ensures
        bytes matches Ok(b) ==> b@ == signature_msgpack(signature@) && msgpack_signature(b@)
            == Some(signature@),
{
    let scalar = |s: Scalar| CurveScalar::<Secp256k1>::from_be_bytes(s.bytes).unwrap();
    let nonzero = |s: Scalar| NonZero::from_scalar(scalar(s)).unwrap();
    let signature = CggmpSignature::from_raw_parts(nonzero(signature.r), nonzero(signature.s));
    rmp_serde::to_vec_named(&signature)
}

/// Calls `rmp_serde::from_slice` for a `cggmp24::signing::Signature`.
#[verifier::external_body]
pub(crate) fn decode_signature(bytes: &[u8]) -> (signature: Result<
    Signature,
    rmp_serde::decode::Error,
>)
    ensures
        match signature {
            Ok(s) => msgpack_signature(bytes@) == Some(s@),
            Err(_) => msgpack_signature(bytes@) is None,
        },
{
    let signature: CggmpSignature<Secp256k1> = rmp_serde::from_slice(bytes)?;
    let r = signature.r.to_be_bytes().as_bytes().try_into().unwrap();
    let s = signature.s.to_be_bytes().as_bytes().try_into().unwrap();
    Ok(Signature { r: Scalar { bytes: r }, s: Scalar { bytes: s } })
}

impl PartialSignature {
    /// The partial signature in MessagePack. The only errors are those of memory that runs out.
    pub fn to_msgpack(&self) -> (bytes: Result<Vec<u8>, rmp_serde::encode::Error>)
        ensures
            bytes matches Ok(b) ==> b@ == partial_signature_msgpack(self@)
                && msgpack_partial_signature(b@) == Some(self@),
    {
        encode_partial_signature(self)
    }

    /// Reads a partial signature from MessagePack.
    pub fn from_msgpack(bytes: &[u8]) -> (partial: Result<Self, rmp_serde::decode::Error>)
        ensures
            match partial {
                Ok(p) => msgpack_partial_signature(bytes@) == Some(p@),
                Err(_) => msgpack_partial_signature(bytes@) is None,
            },
    {
        decode_partial_signature(bytes)
    }
}

impl Signature {
    /// The signature in MessagePack. The only errors are those of memory that runs out.
    pub fn to_msgpack(&self) -> (bytes: Result<Vec<u8>, rmp_serde::encode::Error>)
        ensures
            bytes matches Ok(b) ==> b@ == signature_msgpack(self@) && msgpack_signature(b@) == Some(
                self@,
            ),
    {
        encode_signature(self)
    }

    /// Reads a signature from MessagePack.
    pub fn from_msgpack(bytes: &[u8]) -> (signature: Result<Self, rmp_serde::decode::Error>)
        ensures
            match signature {
                Ok(s) => msgpack_signature(bytes@) == Some(s@),
                Err(_) => msgpack_signature(bytes@) is None,
            },
    {
        decode_signature(bytes)
    }
}

} // verus!
