use ironsign::message::message_to_sign;

#[test]
fn a_payload_is_hashed_with_sha256() {
    let message = message_to_sign(b"hello 3-of-3", false);
    assert_eq!(
        hex::encode(message.to_be_bytes()),
        "61371bbc0d3b43a71b61c2eb4af8b6f527e69999d90ab3edb0ec3e55966d316f"
    );
}

#[test]
fn a_hash_is_signed_as_it_is() {
    let hash = [0x37u8; 32];
    assert_eq!(message_to_sign(&hash, true).to_be_bytes(), hash);
    assert_ne!(message_to_sign(&hash, false).to_be_bytes(), hash);
}

#[test]
fn hashing_beforehand_gives_the_same_message() {
    let hash = hex::decode("61371bbc0d3b43a71b61c2eb4af8b6f527e69999d90ab3edb0ec3e55966d316f").unwrap();
    assert_eq!(
        message_to_sign(&hash, true).to_be_bytes(),
        message_to_sign(b"hello 3-of-3", false).to_be_bytes()
    );
}

#[test]
fn a_hash_of_any_length_is_reduced() {
    let order = hex::decode("fffffffffffffffffffffffffffffffebaaedce6af48a03bbfd25e8cd0364141").unwrap();
    assert!(message_to_sign(&order, true).is_zero());
    assert!(message_to_sign(&[], true).is_zero());
    assert_eq!(message_to_sign(&[7], true).to_be_bytes()[31], 7);
}
