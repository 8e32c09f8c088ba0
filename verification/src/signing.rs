//! Presignatures, the partial signatures that they give, and the signature that these combine to.

use crate::bytes::{be_bytes, be_value, be_value_inverts_be_bytes};
use crate::curve::{
    curve_order, curve_order_is_just_below_the_bytes, infinity, Point, Scalar,
};
use cggmp24::signing::PartialSignature as CggmpPartialSignature;
use cggmp24::signing::PrehashedDataToSign;
use cggmp24::signing::Presignature as CggmpPresignature;
use cggmp24::signing::PresignatureCommitment as CggmpCommitment;
use cggmp24::signing::PresignaturePublicData as CggmpPublicData;
use cggmp24::signing::Signature as CggmpSignature;
use generic_ec::curves::Secp256k1;
use generic_ec::{NonZero, Point as CurvePoint, Scalar as CurveScalar, SecretScalar};
use vstd::prelude::*;
use vstd::slice::slice_subrange;

verus! {

/// What a presignature holds: a point other than infinity and two secret scalars.
pub struct PresignatureData {
    pub gamma: Seq<u8>,
    pub tilde_k: nat,
    pub tilde_chi: nat,
}

/// What a commitment to a party's share of a presignature holds: two points.
pub struct CommitmentData {
    pub tilde_delta: Seq<u8>,
    pub tilde_s: Seq<u8>,
}

/// What the public part of a presignature holds.
pub struct PublicData {
    pub gamma: Seq<u8>,
    pub commitments: Seq<CommitmentData>,
}

/// What a signature holds: two scalars other than zero.
pub struct SignatureData {
    pub r: nat,
    pub s: nat,
}

/// A party's private share of a presignature. It signs one message and is used up by that:
/// two messages signed with one presignature give the private key away.
pub struct Presignature {
    pub(crate) gamma: Point,
    pub(crate) tilde_k: Scalar,
    pub(crate) tilde_chi: Scalar,
}

impl View for Presignature {
    type V = PresignatureData;

    closed spec fn view(&self) -> PresignatureData {
        PresignatureData { gamma: self.gamma@, tilde_k: self.tilde_k@, tilde_chi: self.tilde_chi@ }
    }
}

/// A commitment to one party's share, by which its partial signature is checked.
#[derive(Clone, Copy, Debug)]
pub struct PresignatureCommitment {
    pub(crate) tilde_delta: Point,
    pub(crate) tilde_s: Point,
}

impl View for PresignatureCommitment {
    type V = CommitmentData;

    closed spec fn view(&self) -> CommitmentData {
        CommitmentData { tilde_delta: self.tilde_delta@, tilde_s: self.tilde_s@ }
    }
}

/// The public part of a presignature, the same for all parties.
#[derive(Debug)]
pub struct PresignaturePublicData {
    pub(crate) gamma: Point,
    pub(crate) commitments: Vec<PresignatureCommitment>,
}

/// The public data with this point and these commitments.
pub open spec fn public_data(gamma: Point, commitments: Seq<PresignatureCommitment>) -> PublicData {
    PublicData {
        gamma: gamma@,
        commitments: commitments.map_values(|c: PresignatureCommitment| c@),
    }
}

impl View for PresignaturePublicData {
    type V = PublicData;

    closed spec fn view(&self) -> PublicData {
        public_data(self.gamma, self.commitments@)
    }
}

/// The signature that one party issues with its presignature.
#[derive(Clone, Copy, Debug)]
pub struct PartialSignature {
    pub(crate) sigma: Scalar,
}

impl View for PartialSignature {
    type V = nat;

    closed spec fn view(&self) -> nat {
        self.sigma@
    }
}

/// An ECDSA signature.
#[derive(Clone, Copy, Debug)]
pub struct Signature {
    pub(crate) r: Scalar,
    pub(crate) s: Scalar,
}

impl View for Signature {
    type V = SignatureData;

    closed spec fn view(&self) -> SignatureData {
        SignatureData { r: self.r@, s: self.s@ }
    }
}

/// The answer to a signature that does not match its key and message.
#[derive(Clone, Copy, Debug, PartialEq, Eq, Structural)]
pub struct InvalidSignature;

/// The x coordinate of a point other than infinity, modulo the curve order. In compressed
/// encoding it is what follows the first byte.
pub open spec fn x_scalar(point: Seq<u8>) -> nat {
    be_value(point.skip(1)) % curve_order()
}

/// The partial signature that `presig` gives for `message`.
pub open spec fn partial_value(presig: PresignatureData, message: nat) -> nat {
    (presig.tilde_k * message + x_scalar(presig.gamma) * presig.tilde_chi) % curve_order()
}

/// The sum of scalars, modulo the curve order.
pub open spec fn scalar_sum(values: Seq<nat>) -> nat
    decreases values.len(),
{
    if values.len() == 0 {
        0
    } else {
        (scalar_sum(values.drop_last()) + values.last()) % curve_order()
    }
}

/// The smaller of a scalar other than zero and its negation.
pub open spec fn low_s(s: nat) -> nat {
    if curve_order() - s < s {
        (curve_order() - s) as nat
    } else {
        s
    }
}

/// The signature whose components 64 bytes write, 32 big-endian bytes each.
pub open spec fn compact_signature(bytes: Seq<u8>) -> SignatureData {
    SignatureData { r: be_value(bytes.subrange(0, 32)), s: be_value(bytes.subrange(32, 64)) }
}

/// The signature that partial signatures combine to, where they do.
pub open spec fn combined_signature(partials: Seq<nat>, public: PublicData) -> SignatureData {
    SignatureData { r: x_scalar(public.gamma), s: low_s(scalar_sum(partials)) }
}

/// Whether a party's partial signature matches its commitment: `sigma * gamma` is
/// `message * tilde_delta + r * tilde_s` on the curve, `r` being the x coordinate of `gamma`. This
/// is what `cggmp24::signing::PartialSignature::combine` checks of each party.
pub uninterp spec fn partial_matches(
    sigma: nat,
    gamma: Seq<u8>,
    commitment: CommitmentData,
    message: nat,
) -> bool;

/// Whether partial signatures combine for a message: there is one for each commitment and at
/// least one, each matches its commitment, and no component of the signature is zero.
pub open spec fn combines(partials: Seq<nat>, public: PublicData, message: nat) -> bool {
    &&& partials.len() > 0
    &&& partials.len() == public.commitments.len()
    &&& x_scalar(public.gamma) != 0
    &&& scalar_sum(partials) != 0
    &&& forall|i: int|
        0 <= i < partials.len() ==> partial_matches(
            #[trigger] partials[i],
            public.gamma,
            public.commitments[i],
            message,
        )
}

/// Whether `cggmp24::signing::Signature::verify` takes the signature for the key, given in
/// compressed encoding, and the message.
pub uninterp spec fn verifies(signature: SignatureData, public_key: Seq<u8>, message: nat) -> bool;

/// The values of partial signatures, in order.
pub open spec fn partial_values(partials: Seq<PartialSignature>) -> Seq<nat> {
    partials.map_values(|p: PartialSignature| p@)
}

/// The partial signatures that presignatures give for one message, in order.
pub open spec fn issued(presigs: Seq<PresignatureData>, message: nat) -> Seq<nat> {
    presigs.map_values(|p: PresignatureData| partial_value(p, message))
}

/// The sum of the parties' shares of the inverted nonce.
pub open spec fn shared_k(presigs: Seq<PresignatureData>) -> nat {
    scalar_sum(presigs.map_values(|p: PresignatureData| p.tilde_k))
}

/// The sum of the parties' shares of the inverted nonce times the private key.
pub open spec fn shared_chi(presigs: Seq<PresignatureData>) -> nat {
    scalar_sum(presigs.map_values(|p: PresignatureData| p.tilde_chi))
}

/// The partial signatures of one set of presignatures sum up to the ECDSA equation over the
/// parties' shared secrets, whatever the shares.
proof fn partial_signatures_sum_to_ecdsa(
    presigs: Seq<PresignatureData>,
    gamma: Seq<u8>,
    message: nat,
)
    requires
        forall|i: int| 0 <= i < presigs.len() ==> (#[trigger] presigs[i]).gamma == gamma,
    ensures
        scalar_sum(issued(presigs, message)) == (shared_k(presigs) * message + x_scalar(gamma)
            * shared_chi(presigs)) % curve_order(),
    decreases presigs.len(),
{
    let n = curve_order() as int;
    let x = x_scalar(gamma) as int;
    let m = message as int;
    if presigs.len() > 0 {
        let rest = presigs.drop_last();
        let last = presigs.last();
        assert forall|i: int| 0 <= i < rest.len() implies (#[trigger] rest[i]).gamma == gamma by {
            assert(presigs[i].gamma == gamma);
        }
        partial_signatures_sum_to_ecdsa(rest, gamma, message);
        assert(issued(presigs, message).drop_last() =~= issued(rest, message));
        let ks = presigs.map_values(|p: PresignatureData| p.tilde_k);
        let chis = presigs.map_values(|p: PresignatureData| p.tilde_chi);
        assert(ks.drop_last() =~= rest.map_values(|p: PresignatureData| p.tilde_k));
        assert(chis.drop_last() =~= rest.map_values(|p: PresignatureData| p.tilde_chi));
        let (k, chi) = (shared_k(rest) as int, shared_chi(rest) as int);
        let (k1, chi1) = (last.tilde_k as int, last.tilde_chi as int);
        assert(shared_k(presigs) == (k + k1) % n);
        assert(shared_chi(presigs) == (chi + chi1) % n);
        assert(last.gamma == gamma);
        assert(scalar_sum(issued(presigs, message)) == ((k * m + x * chi) % n + (k1 * m + x * chi1)
            % n) % n);
        linear_step(k, k1, chi, chi1, m, x, n);
    } else {
        assert(shared_k(presigs) == 0 && shared_chi(presigs) == 0);
        assert(0 * m + x * 0 == 0) by (nonlinear_arith);
    }
}

/// One step of the sum, over the integers.
proof fn linear_step(k: int, k1: int, chi: int, chi1: int, m: int, x: int, n: int)
    requires
        n > 0,
    ensures
        ((k * m + x * chi) % n + (k1 * m + x * chi1) % n) % n == (((k + k1) % n) * m + x * ((chi
            + chi1) % n)) % n,
{
    let a = k * m + x * chi;
    let b = k1 * m + x * chi1;
    let (u, v) = (k + k1, chi + chi1);
    vstd::arithmetic::div_mod::lemma_add_mod_noop(a, b, n);
    assert(a + b == u * m + x * v) by (nonlinear_arith)
        requires
            a == k * m + x * chi,
            b == k1 * m + x * chi1,
            u == k + k1,
            v == chi + chi1,
    ;
    vstd::arithmetic::div_mod::lemma_mul_mod_noop_left(u, m, n);
    vstd::arithmetic::div_mod::lemma_mul_mod_noop_right(x, v, n);
    vstd::arithmetic::div_mod::lemma_add_mod_noop(u * m, x * v, n);
    vstd::arithmetic::div_mod::lemma_add_mod_noop((u % n) * m, x * (v % n), n);
}

/// Whatever shares the parties hold, the signature that their partial signatures combine to
/// solves the ECDSA equation for the sum of the shares: `s` is `k * m + r * chi` or its negation,
/// whichever is smaller.
pub proof fn combined_signature_is_ecdsa(
    presigs: Seq<PresignatureData>,
    public: PublicData,
    message: nat,
)
    requires
        forall|i: int| 0 <= i < presigs.len() ==> (#[trigger] presigs[i]).gamma == public.gamma,
    ensures
        combined_signature(issued(presigs, message), public) == (SignatureData {
            r: x_scalar(public.gamma),
            s: low_s(
                (shared_k(presigs) * message + x_scalar(public.gamma) * shared_chi(presigs))
                    % curve_order(),
            ),
        }),
{
    partial_signatures_sum_to_ecdsa(presigs, public.gamma, message);
}

/// The second component of a combined signature is at most half the curve order, as Bitcoin
/// wants it.
pub proof fn combined_signature_is_low(partials: Seq<nat>, public: PublicData)
    ensures
        2 * combined_signature(partials, public).s <= curve_order(),
{
    scalar_sum_is_reduced(partials);
}

/// The smaller of a scalar and its negation is one of the two, and no more than half the curve
/// order.
pub proof fn low_s_is_the_scalar_or_its_negation(s: nat)
    requires
        s < curve_order(),
    ensures
        low_s(s) == s || low_s(s) + s == curve_order(),
        2 * low_s(s) <= curve_order(),
        s > 0 ==> low_s(s) > 0,
{
}

/// The sum of scalars is their sum over the integers, modulo the curve order; so their order does
/// not matter, and parts can be summed up on their own.
pub proof fn scalar_sum_is_the_sum_modulo_the_order(front: Seq<nat>, back: Seq<nat>)
    ensures
        scalar_sum(front + back) == (scalar_sum(front) + scalar_sum(back)) % curve_order(),
        scalar_sum(front + back) == scalar_sum(back + front),
        front.len() == 1 ==> scalar_sum(front) == front[0] % curve_order(),
        front.len() == 0 ==> scalar_sum(front) == 0,
{
    scalar_sum_of_joined(front, back);
    scalar_sum_of_joined(back, front);
    if front.len() == 1 {
        assert(scalar_sum(front.drop_last()) == 0);
    }
}

/// The sum over one list and then another.
proof fn scalar_sum_of_joined(front: Seq<nat>, back: Seq<nat>)
    ensures
        scalar_sum(front + back) == (scalar_sum(front) + scalar_sum(back)) % curve_order(),
    decreases back.len(),
{
    let n = curve_order() as int;
    scalar_sum_is_reduced(front);
    if back.len() > 0 {
        scalar_sum_of_joined(front, back.drop_last());
        assert((front + back).drop_last() =~= front + back.drop_last());
        let (a, b, c) = (
            scalar_sum(front) as int,
            scalar_sum(back.drop_last()) as int,
            back.last() as int,
        );
        vstd::arithmetic::div_mod::lemma_add_mod_noop_right(c, a + b, n);
        vstd::arithmetic::div_mod::lemma_add_mod_noop_right(a, b + c, n);
    } else {
        assert(front + back =~= front);
        vstd::arithmetic::div_mod::lemma_small_mod(scalar_sum(front), curve_order());
    }
}

/// What the two components of a combined signature are: the x coordinate of the presignature's
/// point, and the sum of the partial signatures or its negation.
pub proof fn combined_signature_is_made_of_sum_and_x(partials: Seq<nat>, public: PublicData)
    ensures
        combined_signature(partials, public).r == be_value(
            public.gamma.subrange(1, public.gamma.len() as int),
        ) % curve_order(),
        combined_signature(partials, public).s == scalar_sum(partials) || combined_signature(
            partials,
            public,
        ).s + scalar_sum(partials) == curve_order(),
{
    scalar_sum_is_reduced(partials);
    assert(public.gamma.skip(1) == public.gamma.subrange(1, public.gamma.len() as int));
}

/// Partial signatures that match their commitments combine, whatever else they are: one for each
/// commitment, and a signature without a zero component. One that does not match is enough to
/// refuse them all, and so is a wrong count.
pub proof fn matching_partials_and_no_others_combine(
    partials: Seq<nat>,
    public: PublicData,
    message: nat,
)
    ensures
        (partials.len() > 0 && partials.len() == public.commitments.len() && combined_signature(
            partials,
            public,
        ).r != 0 && combined_signature(partials, public).s != 0 && forall|i: int|
            0 <= i < partials.len() ==> partial_matches(
                #[trigger] partials[i],
                public.gamma,
                public.commitments[i],
                message,
            )) ==> combines(partials, public, message),
        combines(partials, public, message) ==> partials.len() > 0 && partials.len()
            == public.commitments.len() && combined_signature(partials, public).r != 0
            && combined_signature(partials, public).s != 0,
        forall|i: int|
            0 <= i < partials.len() && !partial_matches(
                #[trigger] partials[i],
                public.gamma,
                public.commitments[i],
                message,
            ) ==> !combines(partials, public, message),
{
    scalar_sum_is_reduced(partials);
}

/// A partial signature grows with the two shares of the presignature: what shares give on their
/// own adds up to what their sum gives. It is `message` times the first share where the second is
/// zero, and the x coordinate times the second share where the message is zero.
pub proof fn partial_signature_is_linear_in_its_shares(
    gamma: Seq<u8>,
    k: nat,
    chi: nat,
    message: nat,
)
    ensures
        partial_value((PresignatureData { gamma, tilde_k: k, tilde_chi: 0 }), message) == (k
            * message) % curve_order(),
        partial_value((PresignatureData { gamma, tilde_k: k, tilde_chi: chi }), 0) == (be_value(
            gamma.skip(1),
        ) * chi) % curve_order(),
        partial_value((PresignatureData { gamma, tilde_k: k, tilde_chi: chi }), message) == (
        partial_value((PresignatureData { gamma, tilde_k: k, tilde_chi: 0 }), message)
            + partial_value((PresignatureData { gamma, tilde_k: 0, tilde_chi: chi }), message))
            % curve_order(),
{
    let n = curve_order() as int;
    let (k, chi, m) = (k as int, chi as int, message as int);
    let full = be_value(gamma.skip(1)) as int;
    let x = x_scalar(gamma) as int;
    assert(x * 0 == 0 && 0 * m == 0 && k * 0 == 0) by (nonlinear_arith);
    vstd::arithmetic::div_mod::lemma_mul_mod_noop_left(full, chi, n);
    vstd::arithmetic::div_mod::lemma_add_mod_noop(k * m, x * chi, n);
}

/// Partial signatures are issued one by one, each from the presignature at its place.
pub proof fn issued_partials_stand_at_their_places(presigs: Seq<PresignatureData>, message: nat)
    ensures
        issued(presigs, message).len() == presigs.len(),
        forall|i: int|
            0 <= i < presigs.len() ==> #[trigger] issued(presigs, message)[i] == partial_value(
                presigs[i],
                message,
            ),
{
}

/// The first 32 bytes of a compact signature are its first component and the last 32 its second.
pub proof fn compact_signature_is_read_back(signature: SignatureData)
    requires
        signature.r < curve_order(),
        signature.s < curve_order(),
    ensures
        compact_signature(be_bytes(signature.r, 32) + be_bytes(signature.s, 32)) == signature,
{
    curve_order_is_just_below_the_bytes();
    be_value_inverts_be_bytes(signature.r, 32);
    be_value_inverts_be_bytes(signature.s, 32);
    let bytes = be_bytes(signature.r, 32) + be_bytes(signature.s, 32);
    assert(bytes.subrange(0, 32) =~= be_bytes(signature.r, 32));
    assert(bytes.subrange(32, 64) =~= be_bytes(signature.s, 32));
}

/// A sum of scalars is below the curve order.
proof fn scalar_sum_is_reduced(values: Seq<nat>)
    ensures
        scalar_sum(values) < curve_order(),
{
}

/// The presignature that parts give, where they give one.
pub open spec fn presignature_of(
    gamma: Seq<u8>,
    tilde_k: nat,
    tilde_chi: nat,
) -> Option<PresignatureData> {
    if gamma == infinity() {
        None
    } else {
        Some(PresignatureData { gamma, tilde_k, tilde_chi })
    }
}

/// The signature that two components give, where they give one.
pub open spec fn signature_of(r: nat, s: nat) -> Option<SignatureData> {
    if r == 0 || s == 0 {
        None
    } else {
        Some(SignatureData { r, s })
    }
}

/// Parts are put together unchanged; only a point at infinity and a zero component are refused.
pub proof fn parts_are_put_together_unchanged(gamma: Seq<u8>, a: nat, b: nat)
    ensures
        presignature_of(gamma, a, b) is None <==> gamma == Seq::new(33, |i: int| 0u8),
        presignature_of(gamma, a, b) matches Some(p) ==> p.gamma == gamma && p.tilde_k == a
            && p.tilde_chi == b,
        signature_of(a, b) is None <==> a == 0 || b == 0,
        signature_of(a, b) matches Some(s) ==> s.r == a && s.s == b,
{
    assert(infinity() =~= Seq::new(33, |i: int| 0u8));
}

impl Presignature {
    #[verifier::type_invariant]
    pub(crate) closed spec fn gamma_is_finite(&self) -> bool {
        self.gamma@ != infinity()
    }

    /// Puts a presignature together; `None` where `gamma` is the point at infinity.
    pub fn from_parts(gamma: Point, tilde_k: Scalar, tilde_chi: Scalar) -> (presig: Option<Self>)
        ensures
            match presig {
                Some(p) => gamma@ != infinity() && p@ == (PresignatureData {
                    gamma: gamma@,
                    tilde_k: tilde_k@,
                    tilde_chi: tilde_chi@,
                }),
                None => gamma@ == infinity(),
            },
            match presig {
                Some(p) => presignature_of(gamma@, tilde_k@, tilde_chi@) == Some(p@),
                None => presignature_of(gamma@, tilde_k@, tilde_chi@) is None,
            },
    {
        if gamma.is_infinity() {
            None
        } else {
            Some(Presignature { gamma, tilde_k, tilde_chi })
        }
    }

    /// Signs `message`, and uses the presignature up.
    pub fn issue_partial_signature(self, message: &Scalar) -> (partial: PartialSignature)
        ensures
            partial@ == partial_value(self@, message@),
    {
        issue(&self, message)
    }
}

impl PresignatureCommitment {
    /// Puts a commitment together.
    pub fn from_parts(tilde_delta: Point, tilde_s: Point) -> (commitment: Self)
        ensures
            commitment@ == (CommitmentData { tilde_delta: tilde_delta@, tilde_s: tilde_s@ }),
    {
        PresignatureCommitment { tilde_delta, tilde_s }
    }

    /// The first point of the commitment.
    pub fn tilde_delta(&self) -> (point: Point)
        ensures
            point@ == self@.tilde_delta,
    {
        self.tilde_delta
    }

    /// The second point of the commitment.
    pub fn tilde_s(&self) -> (point: Point)
        ensures
            point@ == self@.tilde_s,
    {
        self.tilde_s
    }
}

impl PresignaturePublicData {
    #[verifier::type_invariant]
    pub(crate) closed spec fn gamma_is_finite(&self) -> bool {
        self.gamma@ != infinity()
    }

    /// Puts public data together; `None` where `gamma` is the point at infinity.
    pub fn from_parts(gamma: Point, commitments: Vec<PresignatureCommitment>) -> (public: Option<
        Self,
    >)
        ensures
            match public {
                Some(p) => gamma@ != infinity() && p@ == public_data(gamma, commitments@),
                None => gamma@ == infinity(),
            },
    {
        if gamma.is_infinity() {
            None
        } else {
            Some(PresignaturePublicData { gamma, commitments })
        }
    }

    /// The point of the presignature.
    pub fn gamma(&self) -> (gamma: Point)
        ensures
            gamma@ == self@.gamma,
            gamma@ != infinity(),
    {
        proof {
            use_type_invariant(self);
        }
        self.gamma
    }

    /// The commitments, one for each party.
    pub fn commitments(&self) -> (commitments: &Vec<PresignatureCommitment>)
        ensures
            self@.commitments == commitments@.map_values(|c: PresignatureCommitment| c@),
    {
        &self.commitments
    }
}

impl PartialSignature {
    /// The partial signature with this value.
    pub fn from_scalar(sigma: Scalar) -> (partial: Self)
        ensures
            partial@ == sigma@,
    {
        PartialSignature { sigma }
    }

    /// The value of the partial signature.
    pub fn to_scalar(&self) -> (sigma: Scalar)
        ensures
            sigma@ == self@,
    {
        self.sigma
    }

    /// Combines the partial signatures of all parties into one signature. They stand in the
    /// order of the commitments in `public`.
    pub fn combine(
        partials: &[PartialSignature],
        public: &PresignaturePublicData,
        message: &Scalar,
    ) -> (signature: Option<Signature>)
        ensures
            match signature {
                Some(s) => combines(partial_values(partials@), public@, message@) && s@
                    == combined_signature(partial_values(partials@), public@),
                None => !combines(partial_values(partials@), public@, message@),
            },
    {
        proof {
            use_type_invariant(public);
        }
        match combine_partials(partials, public.gamma, &public.commitments, *message) {
            Some(compact) => {
                proof {
                    let values = partial_values(partials@);
                    scalar_sum_is_reduced(values);
                    assert forall|i: int| 0 <= i < values.len() implies partial_matches(
                        #[trigger] values[i],
                        public@.gamma,
                        public@.commitments[i],
                        message@,
                    ) by {
                        assert(values[i] == partials@[i]@);
                    }
                }
                let r = Scalar::from_be_bytes(slice_subrange(&compact, 0, 32));
                let s = Scalar::from_be_bytes(slice_subrange(&compact, 32, 64));
                match (r, s) {
                    (Some(r), Some(s)) => Some(Signature { r, s }),
                    _ => None,
                }
            },
            None => {
                proof {
                    let values = partial_values(partials@);
                    if combines(values, public@, message@) {
                        assert forall|i: int| 0 <= i < partials@.len() implies partial_matches(
                            (#[trigger] partials@[i])@,
                            public@.gamma,
                            public@.commitments[i],
                            message@,
                        ) by {
                            assert(values[i] == partials@[i]@);
                        }
                    }
                }
                None
            },
        }
    }
}

impl Signature {
    #[verifier::type_invariant]
    pub(crate) closed spec fn components_are_nonzero(&self) -> bool {
        self.r@ != 0 && self.s@ != 0
    }

    /// The signature with these components; `None` where one of them is zero.
    pub fn from_raw_parts(r: Scalar, s: Scalar) -> (signature: Option<Self>)
        ensures
            match signature {
                Some(sig) => r@ != 0 && s@ != 0 && sig@ == (SignatureData { r: r@, s: s@ }),
                None => r@ == 0 || s@ == 0,
            },
            match signature {
                Some(sig) => signature_of(r@, s@) == Some(sig@),
                None => signature_of(r@, s@) is None,
            },
    {
        if r.is_zero() || s.is_zero() {
            None
        } else {
            Some(Signature { r, s })
        }
    }

    /// The first component of the signature.
    pub fn r(&self) -> (r: Scalar)
        ensures
            r@ == self@.r,
            r@ != 0,
    {
        proof {
            use_type_invariant(self);
        }
        self.r
    }

    /// The second component of the signature.
    pub fn s(&self) -> (s: Scalar)
        ensures
            s@ == self@.s,
            s@ != 0,
    {
        proof {
            use_type_invariant(self);
        }
        self.s
    }

    /// Checks the signature against a public key and a message.
    pub fn verify(&self, public_key: &Point, message: &Scalar) -> (checked: Result<
        (),
        InvalidSignature,
    >)
        ensures
            checked is Ok == verifies(self@, public_key@, message@),
    {
        if verify_signature(self, public_key, message) {
            Ok(())
        } else {
            Err(InvalidSignature)
        }
    }
}

/// Calls `cggmp24::signing::Presignature::issue_partial_signature`, which returns
/// `tilde_k * m + r * tilde_chi` in the scalar field, `r` being the x coordinate of `Gamma`.
#[verifier::external_body]
fn issue(presig: &Presignature, message: &Scalar) -> (partial: PartialSignature)
    ensures
        partial@ == partial_value(presig@, message@),
{
    let scalar = |s: &Scalar| CurveScalar::<Secp256k1>::from_be_bytes(s.bytes).unwrap();
    let presig = CggmpPresignature {
        Gamma: NonZero::from_point(CurvePoint::from_bytes(presig.gamma.bytes).unwrap()).unwrap(),
        tilde_k: SecretScalar::new(&mut scalar(&presig.tilde_k)),
        tilde_chi: SecretScalar::new(&mut scalar(&presig.tilde_chi)),
    };
    let message = PrehashedDataToSign::from_scalar(scalar(message)).insecure_assume_preimage_known();
    let sigma = presig.issue_partial_signature(message).sigma.to_be_bytes();
    PartialSignature { sigma: Scalar { bytes: sigma.as_bytes().try_into().unwrap() } }
}

/// Calls `cggmp24::signing::PartialSignature::combine` and gives `r` and `s` of its signature in 32
/// bytes each. It takes partial signatures where there is at least one and one for each commitment,
/// each of them matches its commitment, which `partial_matches` names, and neither the x coordinate
/// of `Gamma` nor the sum of the partial signatures is zero. The signature has that x coordinate
/// for `r` and for `s` that sum, negated where that is smaller.
#[verifier::external_body]
fn combine_partials(
    partials: &[PartialSignature],
    gamma: Point,
    commitments: &[PresignatureCommitment],
    message: Scalar,
) -> (compact: Option<[u8; 64]>)
    requires
        gamma@ != infinity(),
    ensures
        compact is Some == (partials@.len() > 0 && partials@.len() == commitments@.len() && x_scalar(
            gamma@,
        ) != 0 && scalar_sum(partial_values(partials@)) != 0 && forall|i: int|
            0 <= i < partials@.len() ==> partial_matches(
                (#[trigger] partials@[i])@,
                gamma@,
                commitments@[i]@,
                message@,
            )),
        compact matches Some(c) ==> compact_signature(c@) == combined_signature(
            partial_values(partials@),
            public_data(gamma, commitments@),
        ),
{
    let scalar = |s: Scalar| CurveScalar::<Secp256k1>::from_be_bytes(s.bytes).unwrap();
    let partials: Vec<_> = partials.iter().map(|p| CggmpPartialSignature {
        sigma: scalar(p.sigma),
    }).collect();
    let point = |p: Point| CurvePoint::from_bytes(p.bytes).unwrap();
    let commitments = commitments.iter().map(|c| CggmpCommitment {
        tilde_Delta: point(c.tilde_delta),
        tilde_S: point(c.tilde_s),
    }).collect();
    let public = CggmpPublicData { Gamma: point(gamma).try_into().unwrap(), commitments };
    let message = PrehashedDataToSign::from_scalar(scalar(message)).insecure_assume_preimage_known();
    let mut compact = [0; 64];
    CggmpPartialSignature::combine(&partials, &public, message)?.write_to_slice(&mut compact);
    Some(compact)
}

/// Calls `cggmp24::signing::Signature::verify`, whose answer `verifies` names.
#[verifier::external_body]
fn verify_signature(signature: &Signature, public_key: &Point, message: &Scalar) -> (valid: bool)
    ensures
        valid == verifies(signature@, public_key@, message@),
{
    let scalar = |s: &Scalar| CurveScalar::<Secp256k1>::from_be_bytes(s.bytes).unwrap();
    let nonzero = |s: &Scalar| NonZero::from_scalar(scalar(s)).unwrap();
    let signature = CggmpSignature::from_raw_parts(nonzero(&signature.r), nonzero(&signature.s));
    let public_key = CurvePoint::from_bytes(public_key.bytes).unwrap();
    signature.verify(&public_key, &PrehashedDataToSign::from_scalar(scalar(message))).is_ok()
}

} // verus!
