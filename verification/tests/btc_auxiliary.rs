use ironsign::btc_auxiliary::{
    build_unsigned, compact_signature_bytes, derive_address_b, find_utxo, generate_address_c,
    inject_signature, parse_public_key, raw_transaction, sighash_payload, CompressedPublicKey,
    KeyTextError, Transaction, TxOut, FEE, FUND_AMOUNT, SEND_AMOUNT,
};
use ironsign::curve::{Point, Scalar};
use ironsign::initialization::shared_public_key_text;
use ironsign::signing::Signature;

const GENERATOR: &str = "0279be667ef9dcbbac55a06295ce870b07029bfcdb2dce28d959f2815b16f81798";
const KEY_HASH: &str = "751e76e8199196d454941c45d1b3a323f1433bd6";
const LARGEST: &str = "fffffffffffffffffffffffffffffffebaaedce6af48a03bbfd25e8cd0364140";

fn key() -> CompressedPublicKey {
    CompressedPublicKey::from_slice(&hex::decode(GENERATOR).unwrap()).unwrap()
}

fn script() -> Vec<u8> {
    hex::decode(format!("0014{KEY_HASH}")).unwrap()
}

fn destination() -> Vec<u8> {
    let mut script = vec![0x00, 0x14];
    script.extend([0x22; 20]);
    script
}

fn unsigned() -> Transaction {
    build_unsigned([0x11; 32], 1, FUND_AMOUNT, destination(), script())
}

fn signature() -> Signature {
    let r = Scalar::from_be_bytes(&hex::decode(LARGEST).unwrap()).unwrap();
    Signature::from_raw_parts(r, Scalar::from_be_bytes(&[0x80]).unwrap()).unwrap()
}

#[test]
fn the_exported_key_is_read() {
    let point = Point::from_bytes(&hex::decode(GENERATOR).unwrap()).unwrap();
    let key = parse_public_key(&shared_public_key_text(&point)).ok().unwrap();
    assert_eq!(hex::encode(key.to_bytes()), GENERATOR);
    let upper = format!("  {}\r\n", GENERATOR.to_uppercase());
    assert_eq!(hex::encode(parse_public_key(&upper).ok().unwrap().to_bytes()), GENERATOR);
}

#[test]
fn other_texts_give_no_key() {
    assert!(matches!(parse_public_key("xyz"), Err(KeyTextError::Hex(_))));
    assert!(matches!(parse_public_key("0"), Err(KeyTextError::Hex(_))));
    assert!(matches!(parse_public_key(""), Err(KeyTextError::Key(_))));
    assert!(matches!(parse_public_key("02"), Err(KeyTextError::Key(_))));
    assert!(CompressedPublicKey::from_slice(&[0; 33]).is_err());
}

#[test]
fn an_uncompressed_key_is_compressed() {
    let mut bytes = hex::decode(GENERATOR).unwrap();
    bytes[0] = 4;
    bytes.extend(hex::decode("483ada7726a3c4655da4fbfc0e1108a8fd17b448a68554199c47d08ffb10d4b8").unwrap());
    assert_eq!(hex::encode(CompressedPublicKey::from_slice(&bytes).unwrap().to_bytes()), GENERATOR);
}

#[test]
fn the_address_pays_to_the_key_hash() {
    let address = derive_address_b(&key());
    assert_eq!(address.text, "bcrt1qw508d6qejxtdg4y5r3zarvary0c5xw7kygt080");
    assert_eq!(address.script_pubkey, script());
}

#[test]
fn a_random_address_belongs_to_its_key() {
    let (key, address) = generate_address_c();
    assert_eq!(address.text, derive_address_b(&key).text);
    assert_eq!(address.script_pubkey, derive_address_b(&key).script_pubkey);
    assert_ne!(generate_address_c().1.text, address.text);
}

#[test]
fn the_first_output_of_the_script_is_found() {
    let output = |value: u64, script_pubkey: Vec<u8>| TxOut { value, script_pubkey };
    let outputs = vec![output(1, destination()), output(2, script()), output(3, script())];
    assert_eq!(find_utxo(&outputs, &script()), Some((1, 2)));
    assert_eq!(find_utxo(&outputs, &[0x00]), None);
    assert_eq!(find_utxo(&Vec::new(), &script()), None);
}

#[test]
fn the_transaction_sends_and_gives_change() {
    let tx = unsigned();
    assert_eq!(tx.version, 2);
    assert_eq!(tx.lock_time, 0);
    assert_eq!(tx.inputs.len(), 1);
    assert_eq!(tx.inputs[0].sequence, 0xffff_fffd);
    assert!(tx.inputs[0].witness.is_empty());
    assert_eq!(tx.outputs[0].value, 100_000_000);
    assert_eq!(tx.outputs[0].script_pubkey, destination());
    assert_eq!(tx.outputs[1].value, 99_999_000);
    assert_eq!(tx.outputs[1].script_pubkey, script());
    assert_eq!(tx.outputs[0].value + tx.outputs[1].value + FEE, FUND_AMOUNT);
    let least = build_unsigned([0; 32], 0, SEND_AMOUNT + FEE, vec![], vec![]);
    assert_eq!(least.outputs[1].value, 0);
}

#[test]
fn the_payload_is_the_hash_of_the_transaction() {
    assert_eq!(
        hex::encode(sighash_payload(&unsigned(), &key(), FUND_AMOUNT)),
        "dbdb39dfc12df0c7ba9cf0f0d2ad546699e8f8b3a97701b11581203b90633d79"
    );
    assert_ne!(
        sighash_payload(&unsigned(), &key(), FUND_AMOUNT - 1),
        sighash_payload(&unsigned(), &key(), FUND_AMOUNT)
    );
}

#[test]
fn a_witness_leaves_the_payload_unchanged() {
    let signed = inject_signature(unsigned(), &signature(), &key());
    assert_eq!(
        sighash_payload(&signed, &key(), FUND_AMOUNT),
        sighash_payload(&unsigned(), &key(), FUND_AMOUNT)
    );
}

#[test]
fn the_components_stand_side_by_side() {
    let compact = compact_signature_bytes(&signature());
    assert_eq!(hex::encode(&compact[..32]), LARGEST);
    assert_eq!(compact[32..63], [0; 31]);
    assert_eq!(compact[63], 0x80);
}

#[test]
fn the_witness_holds_signature_and_key() {
    let signed = inject_signature(unsigned(), &signature(), &key());
    let witness: Vec<String> = signed.inputs[0].witness.iter().map(hex::encode).collect();
    assert_eq!(
        witness,
        [
            "3027022100fffffffffffffffffffffffffffffffebaaedce6af48a03bbfd25e8cd03641400202008001",
            GENERATOR,
        ]
    );
}

#[test]
fn the_transaction_is_broadcast_in_consensus_encoding() {
    let body = "0200e1f50500000000160014222222222222222222222222222222222222222218ddf50500000000160014751e76e8199196d454941c45d1b3a323f1433bd6";
    let outpoint = format!("{}01000000", "11".repeat(32));
    assert_eq!(raw_transaction(&unsigned()), format!("0200000001{outpoint}00fdffffff{body}00000000"));
    let signed = inject_signature(unsigned(), &signature(), &key());
    let witness = format!("022a3027022100{LARGEST}020200800121{GENERATOR}");
    assert_eq!(
        raw_transaction(&signed),
        format!("02000000000101{outpoint}00fdffffff{body}{witness}00000000")
    );
}
