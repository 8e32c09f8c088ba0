use ironsign::curve::{Point, Scalar};
use ironsign::signing::{
    InvalidSignature, PartialSignature, Presignature, PresignatureCommitment,
    PresignaturePublicData, Signature,
};
use ironsign::simulation::{issue_all, sign_with_presignatures, SimulationError};

// Three parties share the inverted nonce 5 + 7 + 11 and, times the private key 13, 100 + 50 + 149.
const GAMMA: &str = "0375c0da935fd406674f17d95939f15d06b136c975370669ef2d98b1b5b7765a35";
const PUBLIC_KEY: &str = "03f28773c2d975288bc7d1d205c3748651b075fbc6610e58cddeeddf8f19405aa8";
const GENERATOR: &str = "0279be667ef9dcbbac55a06295ce870b07029bfcdb2dce28d959f2815b16f81798";
const SHARES: [(u8, u8); 3] = [(5, 100), (7, 50), (11, 149)];
const COMMITMENTS: [(&str, &str); 3] = [
    (
        "03ad6f0e7f0f11c9732701b4ffc1a8c64c1790901ac6ef579f8243951bb8fe8bc7",
        "03f2bc91a8fa68dcb42f48874f25c713a7f6b5267d7f49c3f849e14982bba1bb65",
    ),
    (
        "03bf05f6cf69a73a4fe34ec77d06ec7f2ebbea573dcac8c3ed68b239adb70f9d41",
        "021e8d7b7cb939d015eb6dc5984059fae16178e2e21c33357947c337450c175856",
    ),
    (
        "03307c8f4251f0a584d9e455f8de7589fd3837e0ea9da6bed121fd00526c14e5ed",
        "0374af7baf2d234ce73ab02754d8c351e74be6035c1fedae10b0a0e4b0242de220",
    ),
];

fn point(text: &str) -> Point {
    Point::from_bytes(&hex::decode(text).unwrap()).unwrap()
}

fn scalar(value: u8) -> Scalar {
    Scalar::from_be_bytes(&[value]).unwrap()
}

fn presigs() -> Vec<Presignature> {
    SHARES
        .iter()
        .map(|&(k, chi)| Presignature::from_parts(point(GAMMA), scalar(k), scalar(chi)).unwrap())
        .collect()
}

fn public() -> PresignaturePublicData {
    let commitments = COMMITMENTS
        .iter()
        .map(|&(delta, s)| PresignatureCommitment::from_parts(point(delta), point(s)))
        .collect();
    PresignaturePublicData::from_parts(point(GAMMA), commitments).unwrap()
}

fn text(scalar: Scalar) -> String {
    hex::encode(scalar.to_be_bytes())
}

#[test]
fn a_presignature_issues_its_partial_signature() {
    let partials = issue_all(presigs(), &scalar(7));
    let values: Vec<String> = partials.iter().map(|p| text(p.to_scalar())).collect();
    assert_eq!(
        values,
        [
            "ff5561916ed2805ae550e6daa24856d668a9dd3caebd36ed17aacc3b10b1c46a",
            "ffaab0c8b769402d72a8736d51242b6a91ac5d11af02eb946bbe9563f07402f5",
            "893f37c6c667ba2108e180eeb97b253b8e7093f27771185695fe515c79792be2",
        ]
    );
}

#[test]
fn partial_signatures_combine_to_an_ecdsa_signature() {
    let message = scalar(7);
    let partials = issue_all(presigs(), &message);
    let signature = PartialSignature::combine(&partials, &public(), &message).unwrap();
    assert_eq!(text(signature.r()), "75c0da935fd406674f17d95939f15d06b136c975370669ef2d98b1b5b7765a35");
    assert_eq!(text(signature.s()), "77c0b5df135c85569f2524c95318587fa745c87338a8a5db260f68aaf603d082");
    assert_eq!(signature.verify(&point(PUBLIC_KEY), &message), Ok(()));
    assert_eq!(signature.verify(&point(GENERATOR), &message), Err(InvalidSignature));
    assert_eq!(signature.verify(&point(PUBLIC_KEY), &scalar(8)), Err(InvalidSignature));
}

#[test]
fn the_second_component_is_low() {
    for value in 1..20 {
        let message = scalar(value);
        let partials = issue_all(presigs(), &message);
        let signature = PartialSignature::combine(&partials, &public(), &message).unwrap();
        assert!(signature.s().to_be_bytes()[0] < 0x80);
        assert_eq!(signature.verify(&point(PUBLIC_KEY), &message), Ok(()));
    }
}

#[test]
fn partial_signatures_that_do_not_match_are_refused() {
    let message = scalar(7);
    let partials = issue_all(presigs(), &message);
    assert!(PartialSignature::combine(&partials, &public(), &scalar(8)).is_none());
    assert!(PartialSignature::combine(&partials[..2], &public(), &message).is_none());
    assert!(PartialSignature::combine(&[], &public(), &message).is_none());
    let mut swapped = partials.clone();
    swapped.swap(0, 1);
    assert!(PartialSignature::combine(&swapped, &public(), &message).is_none());
    let mut forged = partials;
    forged[2] = PartialSignature::from_scalar(scalar(1));
    assert!(PartialSignature::combine(&forged, &public(), &message).is_none());
}

#[test]
fn infinity_and_zero_are_refused() {
    let infinity = Point::from_bytes(&[0; 33]).unwrap();
    assert!(Presignature::from_parts(infinity, scalar(1), scalar(1)).is_none());
    assert!(PresignaturePublicData::from_parts(infinity, Vec::new()).is_none());
    assert!(Signature::from_raw_parts(scalar(0), scalar(1)).is_none());
    assert!(Signature::from_raw_parts(scalar(1), scalar(0)).is_none());
    let signature = Signature::from_raw_parts(scalar(1), scalar(2)).unwrap();
    assert_eq!(signature.r().to_be_bytes()[31], 1);
    assert_eq!(signature.s().to_be_bytes()[31], 2);
}

#[test]
fn public_data_gives_back_its_parts() {
    let public = public();
    assert_eq!(hex::encode(public.gamma().to_bytes()), GAMMA);
    assert_eq!(public.commitments().len(), 3);
    assert_eq!(hex::encode(public.commitments()[1].tilde_delta().to_bytes()), COMMITMENTS[1].0);
    assert_eq!(hex::encode(public.commitments()[1].tilde_s().to_bytes()), COMMITMENTS[1].1);
}

#[test]
fn all_parties_in_one_place_sign_a_payload() {
    let key = point(PUBLIC_KEY);
    let signature = sign_with_presignatures(presigs(), &public(), &key, b"hello 3-of-3").unwrap();
    assert_eq!(text(signature.r()), "75c0da935fd406674f17d95939f15d06b136c975370669ef2d98b1b5b7765a35");
    assert_eq!(text(signature.s()), "4432c8061cf68eacd6a35e5a6940179118fb1d29cd0882a1c0973c9f0c1995ce");
}

#[test]
fn a_simulated_round_can_fail_in_two_ways() {
    let other = point(GENERATOR);
    let result = sign_with_presignatures(presigs(), &public(), &other, b"hello 3-of-3");
    assert!(matches!(result, Err(SimulationError::InvalidSignature)));
    let mut two = presigs();
    two.pop();
    let result = sign_with_presignatures(two, &public(), &point(PUBLIC_KEY), b"hello 3-of-3");
    assert!(matches!(result, Err(SimulationError::InvalidPartialSignatures)));
}
