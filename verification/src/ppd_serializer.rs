//! The form in which public presignature data is stored.
//!
//! The stored form holds every point as the bytes of a SEC1 encoding. Which bytes a file has for it
//! is up to the serializer.

use crate::curve::{compressed_point, infinity, Point};
use crate::signing::{
    public_data, CommitmentData, PresignatureCommitment, PresignaturePublicData, PublicData,
};
use vstd::prelude::*;
use vstd::slice::slice_to_vec;

verus! {

/// Public presignature data as a pool holds it.
#[derive(Debug)]
pub struct StoredPresignaturePublicData {
    pub public: PresignaturePublicData,
}

/// The stored form of a commitment.
#[derive(Debug)]
pub struct PresignatureCommitmentRepr {
    pub tilde_delta: Vec<u8>,
    pub tilde_s: Vec<u8>,
}

impl View for PresignatureCommitmentRepr {
    type V = CommitmentData;

    open spec fn view(&self) -> CommitmentData {
        CommitmentData { tilde_delta: self.tilde_delta@, tilde_s: self.tilde_s@ }
    }
}

/// The stored form of public presignature data.
#[derive(Debug)]
pub struct PresignaturePublicDataRepr {
    pub gamma: Vec<u8>,
    pub commitments: Vec<PresignatureCommitmentRepr>,
}

impl View for PresignaturePublicDataRepr {
    type V = PublicData;

    open spec fn view(&self) -> PublicData {
        PublicData {
            gamma: self.gamma@,
            commitments: self.commitments@.map_values(|c: PresignatureCommitmentRepr| c@),
        }
    }
}

/// Whether a stored commitment has two points.
pub open spec fn commitment_is_readable(stored: CommitmentData) -> bool {
    compressed_point(stored.tilde_delta) is Some && compressed_point(stored.tilde_s) is Some
}

/// The commitment that is read from a stored one.
pub open spec fn read_commitment(stored: CommitmentData) -> CommitmentData {
    CommitmentData {
        tilde_delta: compressed_point(stored.tilde_delta)->0,
        tilde_s: compressed_point(stored.tilde_s)->0,
    }
}

/// Whether stored data has points throughout, and for `gamma` one other than infinity.
pub open spec fn is_readable(stored: PublicData) -> bool {
    &&& compressed_point(stored.gamma) is Some
    &&& compressed_point(stored.gamma)->0 != infinity()
    &&& forall|i: int|
        0 <= i < stored.commitments.len() ==> commitment_is_readable(
            #[trigger] stored.commitments[i],
        )
}

/// The public data that is read from stored data.
pub open spec fn read_public_data(stored: PublicData) -> PublicData {
    PublicData {
        gamma: compressed_point(stored.gamma)->0,
        commitments: stored.commitments.map_values(|c: CommitmentData| read_commitment(c)),
    }
}

/// Whether every point of the data stands in compressed encoding and `gamma` is not infinity, as
/// in every value of `PresignaturePublicData`.
pub open spec fn is_compressed(data: PublicData) -> bool {
    &&& compressed_point(data.gamma) == Some(data.gamma)
    &&& data.gamma != infinity()
    &&& forall|i: int|
        0 <= i < data.commitments.len() ==> commitment_is_readable(#[trigger] data.commitments[i])
            && read_commitment(data.commitments[i]) == data.commitments[i]
}

/// The stored form of public data.
pub fn serialize(value: &PresignaturePublicData) -> (repr: PresignaturePublicDataRepr)
    ensures
        repr@ == value@,
        is_compressed(value@),
{
    let gamma = value.gamma().to_bytes();
    let source = value.commitments();
    let mut commitments: Vec<PresignatureCommitmentRepr> = Vec::new();
    let mut i: usize = 0;
    while i < source.len()
        invariant
            i <= source@.len(),
            commitments@.len() == i,
            forall|j: int|
                0 <= j < i ==> (#[trigger] commitments@[j])@ == source@[j]@
                    && commitment_is_readable(commitments@[j]@) && read_commitment(
                    commitments@[j]@,
                ) == commitments@[j]@,
        decreases source@.len() - i,
    {
        let commitment = &source[i];
        let tilde_delta = commitment.tilde_delta().to_bytes();
        let tilde_s = commitment.tilde_s().to_bytes();
        commitments.push(
            PresignatureCommitmentRepr {
                tilde_delta: slice_to_vec(&tilde_delta),
                tilde_s: slice_to_vec(&tilde_s),
            },
        );
        i = i + 1;
    }
    let repr = PresignaturePublicDataRepr { gamma: slice_to_vec(&gamma), commitments };
    proof {
        assert(repr@.commitments =~= value@.commitments);
        assert forall|j: int| 0 <= j < value@.commitments.len() implies commitment_is_readable(
            #[trigger] value@.commitments[j],
        ) && read_commitment(value@.commitments[j]) == value@.commitments[j] by {
            assert(commitments@[j]@ == source@[j]@);
        }
    }
    repr
}

/// Reads public data from its stored form; `None` where that lacks a point.
pub fn deserialize(repr: &PresignaturePublicDataRepr) -> (value: Option<PresignaturePublicData>)
    ensures
        match value {
            Some(v) => is_readable(repr@) && v@ == read_public_data(repr@),
            None => !is_readable(repr@),
        },
{
    let gamma = match Point::from_bytes(repr.gamma.as_slice()) {
        Some(gamma) => gamma,
        None => {
            return None;
        },
    };
    let mut commitments: Vec<PresignatureCommitment> = Vec::new();
    let mut i: usize = 0;
    while i < repr.commitments.len()
        invariant
            i <= repr.commitments@.len(),
            commitments@.len() == i,
            forall|j: int|
                #![trigger repr.commitments@[j]]
                0 <= j < i ==> commitment_is_readable(repr.commitments@[j]@),
            forall|j: int|
                #![trigger commitments@[j]]
                0 <= j < i ==> commitments@[j]@ == read_commitment(repr.commitments@[j]@),
        decreases repr.commitments@.len() - i,
    {
        let stored = &repr.commitments[i];
        let tilde_delta = Point::from_bytes(stored.tilde_delta.as_slice());
        let tilde_s = Point::from_bytes(stored.tilde_s.as_slice());
        match (tilde_delta, tilde_s) {
            (Some(tilde_delta), Some(tilde_s)) => {
                let commitment = PresignatureCommitment::from_parts(tilde_delta, tilde_s);
                commitments.push(commitment);
            },
            _ => {
                proof {
                    assert(!commitment_is_readable(repr@.commitments[i as int]));
                }
                return None;
            },
        }
        i = i + 1;
    }
    proof {
        assert(public_data(gamma, commitments@).commitments =~= read_public_data(repr@).commitments);
        assert forall|j: int| 0 <= j < repr@.commitments.len() implies commitment_is_readable(
            #[trigger] repr@.commitments[j],
        ) by {
            let stored = repr.commitments@[j];
        }
    }
    PresignaturePublicData::from_parts(gamma, commitments)
}

/// Public data that was stored is read back.
pub proof fn stored_public_data_is_read_back(data: PublicData)
    requires
        is_compressed(data),
    ensures
        is_readable(data),
        read_public_data(data) == data,
{
    assert(read_public_data(data).commitments =~= data.commitments);
}

/// Stored data is read exactly where every point of it can be read and that of the presignature is
/// not infinity, and each point is read from its own place.
pub proof fn every_point_is_read_from_its_own_place(stored: PublicData)
    ensures
        is_readable(stored) <==> compressed_point(stored.gamma) is Some && compressed_point(
            stored.gamma,
        ) != Some(infinity()) && (forall|i: int|
            0 <= i < stored.commitments.len() ==> compressed_point(
                (#[trigger] stored.commitments[i]).tilde_delta,
            ) is Some && compressed_point(stored.commitments[i].tilde_s) is Some),
        read_public_data(stored).commitments.len() == stored.commitments.len(),
        is_readable(stored) ==> compressed_point(stored.gamma) == Some(
            read_public_data(stored).gamma,
        ),
        is_readable(stored) ==> forall|i: int|
            0 <= i < stored.commitments.len() ==> compressed_point(
                stored.commitments[i].tilde_delta,
            ) == Some((#[trigger] read_public_data(stored).commitments[i]).tilde_delta)
                && compressed_point(stored.commitments[i].tilde_s) == Some(
                read_public_data(stored).commitments[i].tilde_s,
            ),
{
    if is_readable(stored) {
        assert forall|i: int| 0 <= i < stored.commitments.len() implies compressed_point(
            stored.commitments[i].tilde_delta,
        ) == Some((#[trigger] read_public_data(stored).commitments[i]).tilde_delta)
            && compressed_point(stored.commitments[i].tilde_s) == Some(
            read_public_data(stored).commitments[i].tilde_s,
        ) by {
            assert(commitment_is_readable(stored.commitments[i]));
        }
    }
    if forall|i: int|
        0 <= i < stored.commitments.len() ==> compressed_point(
            (#[trigger] stored.commitments[i]).tilde_delta,
        ) is Some && compressed_point(stored.commitments[i].tilde_s) is Some {
        assert forall|i: int| 0 <= i < stored.commitments.len() implies commitment_is_readable(
            #[trigger] stored.commitments[i],
        ) by {}
    }
}

} // verus!
