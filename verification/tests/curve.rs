use ironsign::curve::{Point, Scalar};

const ORDER: &str = "fffffffffffffffffffffffffffffffebaaedce6af48a03bbfd25e8cd0364141";
const GENERATOR: &str = "0279be667ef9dcbbac55a06295ce870b07029bfcdb2dce28d959f2815b16f81798";
const GENERATOR_Y: &str = "483ada7726a3c4655da4fbfc0e1108a8fd17b448a68554199c47d08ffb10d4b8";

fn bytes(text: &str) -> Vec<u8> {
    hex::decode(text).unwrap()
}

#[test]
fn a_scalar_is_below_the_curve_order() {
    let order = bytes(ORDER);
    assert!(Scalar::from_be_bytes(&order).is_none());
    let mut largest = order.clone();
    largest[31] -= 1;
    assert_eq!(Scalar::from_be_bytes(&largest).unwrap().to_be_bytes().to_vec(), largest);
    assert!(Scalar::from_be_bytes(&[0xff; 32]).is_none());
}

#[test]
fn short_bytes_are_padded_and_long_ones_refused() {
    let mut expected = [0u8; 32];
    expected[30] = 1;
    expected[31] = 2;
    assert_eq!(Scalar::from_be_bytes(&[1, 2]).unwrap().to_be_bytes(), expected);
    assert!(Scalar::from_be_bytes(&[]).unwrap().is_zero());
    assert!(Scalar::from_be_bytes(&[0; 33]).is_none());
}

#[test]
fn any_bytes_are_reduced() {
    assert!(Scalar::from_be_bytes_mod_order(&bytes(ORDER)).is_zero());
    let mut above = bytes(ORDER);
    above[31] += 5;
    let mut five = [0u8; 32];
    five[31] = 5;
    assert_eq!(Scalar::from_be_bytes_mod_order(&above).to_be_bytes(), five);
    // 2^256 is 2^256 - n modulo n
    let mut large = vec![1u8];
    large.extend([0; 32]);
    assert_eq!(
        hex::encode(Scalar::from_be_bytes_mod_order(&large).to_be_bytes()),
        "000000000000000000000000000000014551231950b75fc4402da1732fc9bebf"
    );
    assert!(Scalar::from_be_bytes_mod_order(&[]).is_zero());
}

#[test]
fn only_zero_is_zero() {
    assert!(Scalar::from_be_bytes(&[0; 32]).unwrap().is_zero());
    assert!(!Scalar::from_be_bytes(&[1]).unwrap().is_zero());
    let mut high = [0u8; 32];
    high[0] = 1;
    assert!(!Scalar::from_be_bytes(&high).unwrap().is_zero());
}

#[test]
fn a_point_is_read_from_both_encodings() {
    let compressed = Point::from_bytes(&bytes(GENERATOR)).unwrap();
    assert_eq!(hex::encode(compressed.to_bytes()), GENERATOR);
    let mut uncompressed = bytes(GENERATOR);
    uncompressed[0] = 4;
    uncompressed.extend(bytes(GENERATOR_Y));
    let same = Point::from_bytes(&uncompressed).unwrap();
    assert_eq!(hex::encode(same.to_bytes()), GENERATOR);
    assert!(!same.is_infinity());
}

#[test]
fn what_encodes_no_point_is_refused() {
    // no point has the x coordinate 5
    let mut off_curve = [0u8; 33];
    off_curve[0] = 2;
    off_curve[32] = 5;
    assert!(Point::from_bytes(&off_curve).is_none());
    assert!(Point::from_bytes(&[2]).is_none());
    assert!(Point::from_bytes(&bytes(GENERATOR)[..32]).is_none());
}

#[test]
fn infinity_has_33_zero_bytes() {
    let infinity = Point::from_bytes(&[0; 33]).unwrap();
    assert!(infinity.is_infinity());
    assert_eq!(infinity.to_bytes(), [0; 33]);
    assert_eq!(Point::from_bytes(&[0]).unwrap().to_bytes(), [0; 33]);
}
