use ironsign::curve::{Point, Scalar};
use ironsign::fifo_queue::FifoQueue;
use ironsign::ppd_serializer::{
    deserialize, serialize, PresignatureCommitmentRepr, PresignaturePublicDataRepr,
    StoredPresignaturePublicData,
};
use ironsign::presig_storage::StoredPresignature;
use ironsign::signing::{
    PartialSignature, Presignature, PresignatureCommitment, PresignaturePublicData, Signature,
};
use ironsign::simulation::{presignatures_from_msgpack, presignatures_to_msgpack};

const GENERATOR: &str = "0279be667ef9dcbbac55a06295ce870b07029bfcdb2dce28d959f2815b16f81798";
const GAMMA: &str = "0375c0da935fd406674f17d95939f15d06b136c975370669ef2d98b1b5b7765a35";

fn point(text: &str) -> Point {
    Point::from_bytes(&hex::decode(text).unwrap()).unwrap()
}

fn scalar(value: u8) -> Scalar {
    Scalar::from_be_bytes(&[value]).unwrap()
}

fn presig(k: u8, chi: u8) -> Presignature {
    Presignature::from_parts(point(GAMMA), scalar(k), scalar(chi)).unwrap()
}

fn partial(presig: Presignature) -> [u8; 32] {
    presig.issue_partial_signature(&scalar(3)).to_scalar().to_be_bytes()
}

fn cggmp_presig(k: u64, chi: u64) -> cggmp24::signing::Presignature<generic_ec::curves::Secp256k1> {
    let gamma = generic_ec::Point::from_bytes(hex::decode(GAMMA).unwrap()).unwrap();
    cggmp24::signing::Presignature {
        Gamma: generic_ec::NonZero::from_point(gamma).unwrap(),
        tilde_k: generic_ec::SecretScalar::new(&mut generic_ec::Scalar::from(k)),
        tilde_chi: generic_ec::SecretScalar::new(&mut generic_ec::Scalar::from(chi)),
    }
}

#[test]
fn a_pool_is_read_back_in_order() {
    let mut pool: FifoQueue<Presignature> = FifoQueue::with_capacity(2);
    pool.push(presig(1, 2));
    pool.push(presig(3, 4));
    let bytes = pool.to_msgpack().unwrap();
    let mut read = FifoQueue::from_msgpack(&bytes).unwrap();
    assert_eq!(read.len(), 2);
    assert_eq!(partial(read.pop_next().unwrap()), partial(presig(1, 2)));
    assert_eq!(partial(read.pop_next().unwrap()), partial(presig(3, 4)));
}

#[test]
fn a_pool_is_written_as_a_list_of_named_fields() {
    let mut pool: FifoQueue<Presignature> = FifoQueue::with_capacity(1);
    pool.push(presig(1, 2));
    let expected = rmp_serde::to_vec_named(&vec![cggmp_presig(1, 2)]).unwrap();
    assert_eq!(pool.to_msgpack().unwrap(), expected);
    let empty: FifoQueue<Presignature> = FifoQueue::with_capacity(1);
    assert_eq!(empty.to_msgpack().unwrap(), [0x90]);
}

#[test]
fn a_pool_is_not_read_from_other_bytes() {
    assert!(FifoQueue::<Presignature>::from_msgpack(&[]).is_err());
    assert!(FifoQueue::<Presignature>::from_msgpack(&[0x91, 0x01]).is_err());
    assert!(FifoQueue::<Presignature>::from_msgpack(&[0x90]).unwrap().is_empty());
}

#[test]
fn a_list_of_presignatures_is_read_back() {
    let bytes = presignatures_to_msgpack(&[presig(1, 2), presig(3, 4)]).unwrap();
    assert_eq!(bytes, rmp_serde::to_vec(&vec![cggmp_presig(1, 2), cggmp_presig(3, 4)]).unwrap());
    let read = presignatures_from_msgpack(&bytes).unwrap();
    let partials: Vec<_> = read.into_iter().map(partial).collect();
    assert_eq!(partials, [partial(presig(1, 2)), partial(presig(3, 4))]);
    assert!(presignatures_from_msgpack(&[0xc0]).is_err());
}

#[test]
fn a_partial_signature_is_read_back() {
    let partial = PartialSignature::from_scalar(scalar(77));
    let bytes = partial.to_msgpack().unwrap();
    assert!(bytes.len() > 32);
    let read = PartialSignature::from_msgpack(&bytes).unwrap();
    assert_eq!(read.to_scalar().to_be_bytes(), scalar(77).to_be_bytes());
    assert!(PartialSignature::from_msgpack(&bytes[1..]).is_err());
}

#[test]
fn a_signature_is_read_back() {
    let signature = Signature::from_raw_parts(scalar(5), scalar(6)).unwrap();
    let bytes = signature.to_msgpack().unwrap();
    assert!(bytes.len() > 64);
    let read = Signature::from_msgpack(&bytes).unwrap();
    assert_eq!(read.r().to_be_bytes(), scalar(5).to_be_bytes());
    assert_eq!(read.s().to_be_bytes(), scalar(6).to_be_bytes());
    assert!(Signature::from_msgpack(&[0x80]).is_err());
}

fn public() -> PresignaturePublicData {
    let commitments = vec![
        PresignatureCommitment::from_parts(point(GENERATOR), point(GAMMA)),
        PresignatureCommitment::from_parts(point(GAMMA), Point::from_bytes(&[0; 33]).unwrap()),
    ];
    PresignaturePublicData::from_parts(point(GAMMA), commitments).unwrap()
}

#[test]
fn stored_public_data_gives_the_same_data() {
    let stored = StoredPresignaturePublicData { public: public() };
    let repr = serialize(&stored.public);
    assert_eq!(hex::encode(&repr.gamma), GAMMA);
    assert_eq!(repr.commitments.len(), 2);
    assert_eq!(hex::encode(&repr.commitments[0].tilde_delta), GENERATOR);
    assert_eq!(hex::encode(&repr.commitments[0].tilde_s), GAMMA);
    assert_eq!(repr.commitments[1].tilde_s, [0; 33]);
    let read = deserialize(&repr).unwrap();
    assert_eq!(hex::encode(read.gamma().to_bytes()), GAMMA);
    assert_eq!(hex::encode(read.commitments()[0].tilde_delta().to_bytes()), GENERATOR);
    assert!(read.commitments()[1].tilde_s().is_infinity());
}

#[test]
fn stored_data_without_points_is_refused() {
    let good = hex::decode(GAMMA).unwrap();
    let repr = |gamma: &[u8], delta: &[u8], s: &[u8]| PresignaturePublicDataRepr {
        gamma: gamma.to_vec(),
        commitments: vec![PresignatureCommitmentRepr { tilde_delta: delta.to_vec(), tilde_s: s.to_vec() }],
    };
    assert!(deserialize(&repr(&good, &good, &good)).is_some());
    assert!(deserialize(&repr(&[0; 33], &good, &good)).is_none());
    assert!(deserialize(&repr(&[9; 33], &good, &good)).is_none());
    assert!(deserialize(&repr(&good, &[9; 33], &good)).is_none());
    assert!(deserialize(&repr(&good, &good, &[1])).is_none());
}

#[test]
fn a_presignature_is_stored_with_its_public_part() {
    let stored = StoredPresignature { presig: presig(1, 2), public: public() };
    assert_eq!(partial(stored.presig), partial(presig(1, 2)));
    let repr = ironsign::presig_storage::serialize(&stored.public);
    let read = ironsign::presig_storage::deserialize(&repr).unwrap();
    assert_eq!(read.commitments().len(), 2);
}
