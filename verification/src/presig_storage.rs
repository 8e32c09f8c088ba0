//! A presignature stored together with its public part, which has the form of `ppd_serializer`.

pub use crate::ppd_serializer::{deserialize, serialize};
use crate::signing::{Presignature, PresignaturePublicData};
use vstd::prelude::*;

verus! {

/// A party's share of a presignature and the part that all parties have in common.
pub struct StoredPresignature {
    pub presig: Presignature,
    pub public: PresignaturePublicData,
}

} // verus!
