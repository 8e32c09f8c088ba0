//! All parties in one place: the presignatures of one round sign a payload, and the signature is
//! checked against the shared key.

use crate::bytes::be_value;
use crate::coord_runtime::{
    all_partials, coordinator_message, partials_stand_in_node_order, CoordinatorData, PhaseData,
};
use crate::curve::{curve_order, Point, Scalar};
use crate::message::{message_to_sign, message_value, sha256};
use crate::msgpack::{
    decode_presignatures, encode_presignature_list, msgpack_presignatures, presignature_data,
    presignature_list_msgpack,
};
use crate::signing::{
    combined_signature, combines, issued, partial_value, partial_values, verifies,
    PartialSignature, Presignature, PresignatureData, PresignaturePublicData, PublicData, Signature,
    SignatureData,
};
use vstd::prelude::*;

verus! {

/// Why a simulated round gives no signature.
#[derive(Clone, Copy, Debug, PartialEq, Eq, Structural)]
pub enum SimulationError {
    /// The partial signatures do not combine.
    InvalidPartialSignatures,
    /// The signature is not one of the shared key.
    InvalidSignature,
}

/// What comes of a simulated round.
pub open spec fn simulated(
    presigs: Seq<PresignatureData>,
    public: PublicData,
    public_key: Seq<u8>,
    payload: Seq<u8>,
) -> Result<SignatureData, SimulationError> {
    let message = message_value(payload, false);
    let partials = issued(presigs, message);
    let signature = combined_signature(partials, public);
    if !combines(partials, public, message) {
        Err(SimulationError::InvalidPartialSignatures)
    } else if !verifies(signature, public_key, message) {
        Err(SimulationError::InvalidSignature)
    } else {
        Ok(signature)
    }
}

/// Lets every party sign `message`, in order.
pub fn issue_all(presigs: Vec<Presignature>, message: &Scalar) -> (partials: Vec<PartialSignature>)
    ensures
        partial_values(partials@) == issued(presignature_data(presigs@), message@),
{
    let mut partials: Vec<PartialSignature> = Vec::new();
    for presig in it: presigs
        invariant
            it.seq() == presigs@,
            partials@.len() == it.index(),
            forall|i: int|
                0 <= i < it.index() ==> (#[trigger] partials@[i])@ == issued(
                    presignature_data(presigs@),
                    message@,
                )[i],
    {
        partials.push(presig.issue_partial_signature(message));
    }
    proof {
        assert(partial_values(partials@) =~= issued(presignature_data(presigs@), message@));
    }
    partials
}

/// Signs `payload` with the presignatures of one round and checks the signature against the
/// shared public key.
pub fn sign_with_presignatures(
    presigs: Vec<Presignature>,
    public: &PresignaturePublicData,
    public_key: &Point,
    payload: &[u8],
) -> (signature: Result<Signature, SimulationError>)
    ensures
        ({
            let message = message_value(payload@, false);
            let partials = issued(presignature_data(presigs@), message);
            let expected = combined_signature(partials, public@);
            match signature {
                Ok(s) => combines(partials, public@, message) && s@ == expected && verifies(
                    expected,
                    public_key@,
                    message,
                ),
                Err(SimulationError::InvalidPartialSignatures) => !combines(
                    partials,
                    public@,
                    message,
                ),
                Err(SimulationError::InvalidSignature) => combines(partials, public@, message)
                    && !verifies(expected, public_key@, message),
            }
        }),
        match signature {
            Ok(s) => simulated(presignature_data(presigs@), public@, public_key@, payload@) == Ok::<
                SignatureData,
                SimulationError,
            >(s@),
            Err(error) => simulated(
                presignature_data(presigs@),
                public@,
                public_key@,
                payload@,
            ) == Err::<SignatureData, SimulationError>(error),
        },
{
    let message = message_to_sign(payload, false);
    let partials = issue_all(presigs, &message);
    match PartialSignature::combine(partials.as_slice(), public, &message) {
        Some(signature) => match signature.verify(public_key, &message) {
            Ok(()) => Ok(signature),
            Err(_) => Err(SimulationError::InvalidSignature),
        },
        None => Err(SimulationError::InvalidPartialSignatures),
    }
}

/// Presignatures in MessagePack, one for each party. The only errors are those of memory that runs
/// out.
pub fn presignatures_to_msgpack(presigs: &[Presignature]) -> (bytes: Result<
    Vec<u8>,
    rmp_serde::encode::Error,
>)
    ensures
        bytes matches Ok(b) ==> b@ == presignature_list_msgpack(presignature_data(presigs@)) && (
        presigs@.len() <= u32::MAX ==> msgpack_presignatures(b@) == Some(
            presignature_data(presigs@),
        )),
{
    encode_presignature_list(presigs)
}

/// Reads presignatures from MessagePack.
pub fn presignatures_from_msgpack(bytes: &[u8]) -> (presigs: Result<
    Vec<Presignature>,
    rmp_serde::decode::Error,
>)
    ensures
        match presigs {
            Ok(p) => msgpack_presignatures(bytes@) == Some(presignature_data(p@)),
            Err(_) => msgpack_presignatures(bytes@) is None,
        },
{
    let mut queue = match decode_presignatures(bytes) {
        Ok(queue) => queue,
        Err(error) => {
            return Err(error);
        },
    };
    let ghost all = queue@;
    let mut presigs: Vec<Presignature> = Vec::new();
    while queue.len() > 0
        invariant
            presigs@ + queue@ == all,
        decreases queue@.len(),
    {
        if let Some(presig) = queue.pop_front() {
            presigs.push(presig);
        }
        proof {
            assert(presigs@ + queue@ =~= all);
        }
    }
    proof {
        assert(presigs@ =~= all);
    }
    Ok(presigs)
}

/// A simulated round gives the signature that nodes and coordinator give for the payload when it is
/// hashed: it has one exactly where the coordinator would combine one that the shared key verifies,
/// and then it is the same.
pub proof fn simulation_signs_as_the_nodes_do(
    presigs: Seq<PresignatureData>,
    public: PublicData,
    public_key: Seq<u8>,
    payload: Seq<u8>,
    coord: CoordinatorData,
    partials: Seq<nat>,
)
    requires
        presigs.len() > 0,
        !coord.prehashed,
        coord.phase == (PhaseData::Waiting { payload, online: partials.skip(1) }),
        partials.len() == presigs.len(),
        forall|i: int|
            0 <= i < presigs.len() ==> #[trigger] partials[i] == partial_value(
                presigs[i],
                be_value(sha256(payload)) % curve_order(),
            ),
    ensures
        ({
            let all = all_partials(coord, partials[0]);
            let message = coordinator_message(coord);
            let signature = combined_signature(all, public);
            let result = simulated(presigs, public, public_key, payload);
            &&& result is Ok <==> combines(all, public, message) && verifies(
                signature,
                public_key,
                message,
            )
            &&& result is Ok ==> result->Ok_0 == signature
            &&& result == Err::<SignatureData, SimulationError>(
                SimulationError::InvalidPartialSignatures,
            ) <==> !combines(all, public, message)
        }),
{
    partials_stand_in_node_order(coord, partials);
    assert(partials =~= issued(presigs, message_value(payload, false)));
}

} // verus!
