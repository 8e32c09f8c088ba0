//! The Bitcoin side: the address that the shared key controls, the transaction that spends from
//! it, the hash that is to be signed, and the witness that carries the signature.

use crate::bytes::{
    be_bytes, be_value, be_value_fits_its_bytes, be_value_inverts_be_bytes,
    be_value_of_joined_bytes,
};
use crate::curve::{
    compressed_point, curve_order, curve_order_is_just_below_the_bytes, infinity,
};
use crate::hex_text::{
    hex_bytes, hex_decode, hex_text, hex_text_is_not_trimmed, hex_text_is_read_back, is_hex,
};
use crate::initialization::public_key_line;
use crate::signing::{compact_signature, Signature, SignatureData};
use crate::text::{trim, trimmed, trimmed_end, trimmed_start, white_space};
use bitcoin::absolute::LockTime;
use bitcoin::consensus::encode::serialize_hex;
use bitcoin::hashes::Hash as BitcoinHash;
use bitcoin::sighash::{EcdsaSighashType, SighashCache};
use bitcoin::transaction::Version;
use bitcoin::{Amount, OutPoint, ScriptBuf, Sequence, Txid, Witness};
use bitcoin::{Transaction as BtcTransaction, TxIn as BtcTxIn, TxOut as BtcTxOut};
use vstd::arithmetic::power::{lemma_pow0, lemma_pow1, lemma_pow_adds, pow};
use vstd::prelude::*;
use vstd::slice::slice_to_vec;

verus! {

/// The error that the `secp256k1` crate reports.
#[verifier::external_type_specification]
#[verifier::external_body]
pub struct ExSecpError(bitcoin::secp256k1::Error);

/// What the address of the shared key is funded with, in satoshi.
pub const FUND_AMOUNT: u64 = 200_000_000;

/// What is sent on from it, in satoshi.
pub const SEND_AMOUNT: u64 = 100_000_000;

/// The fee of the transaction that sends it on, in satoshi.
pub const FEE: u64 = 1000;

/// How many blocks are mined until the first coinbase can be spent.
pub const MATURITY_BLOCKS: u64 = 101;

/// How many blocks are mined to confirm the funding.
pub const FUNDING_BLOCKS: u64 = 1;

/// How many blocks are mined to confirm the transaction.
pub const CONFIRMATION_BLOCKS: u64 = 6;

/// The file with the hash that is to be signed.
pub const PAYLOAD_FILE: &'static str = "btc_sighash_payload.bin";

/// The compressed encoding of the key that `bitcoin::CompressedPublicKey::from_slice` reads from
/// `bytes`, where it reads one.
pub uninterp spec fn parsed_key(bytes: Seq<u8>) -> Option<Seq<u8>>;

/// The RIPEMD-160 hash of the SHA-256 hash of a key in compressed encoding, as
/// `bitcoin::CompressedPublicKey::wpubkey_hash` gives it.
pub uninterp spec fn key_hash160(key: Seq<u8>) -> Seq<u8>;

/// The text of the regtest address that `bitcoin::Address::p2wpkh` gives a key.
pub uninterp spec fn regtest_address(key: Seq<u8>) -> Seq<char>;

/// Whether `bytes` are the compressed encoding of a point other than infinity.
pub open spec fn is_finite_point(bytes: Seq<u8>) -> bool {
    compressed_point(bytes) == Some(bytes) && bytes != infinity()
}

/// A public key, held in compressed encoding.
#[derive(Clone, Copy, Debug)]
pub struct CompressedPublicKey {
    pub(crate) bytes: [u8; 33],
}

impl View for CompressedPublicKey {
    type V = Seq<u8>;

    closed spec fn view(&self) -> Seq<u8> {
        self.bytes@
    }
}

/// Why a text gives no public key.
pub enum KeyTextError {
    /// It is not hexadecimal.
    Hex(hex::FromHexError),
    /// Its bytes are no public key.
    Key(bitcoin::secp256k1::Error),
}

impl CompressedPublicKey {
    #[verifier::type_invariant]
    pub(crate) closed spec fn is_key(&self) -> bool {
        parsed_key(self.bytes@) == Some(self.bytes@)
    }

    /// Reads a public key from its encoding.
    pub fn from_slice(bytes: &[u8]) -> (key: Result<Self, bitcoin::secp256k1::Error>)
        ensures
            match key {
                Ok(k) => parsed_key(bytes@) == Some(k@),
                Err(_) => parsed_key(bytes@) is None,
            },
            is_finite_point(bytes@) ==> (key matches Ok(k) && k@ == bytes@),
    {
        decode_key(bytes)
    }

    /// The compressed encoding of the key.
    pub fn to_bytes(&self) -> (bytes: [u8; 33])
        ensures
            bytes@ == self@,
            parsed_key(self@) == Some(self@),
    {
        proof {
            use_type_invariant(self);
        }
        self.bytes
    }
}

/// Calls `bitcoin::CompressedPublicKey::from_slice` and gives the key in compressed encoding,
/// which `parsed_key` names. A key that was written is read back as the same key, and so is every
/// point other than infinity that `generic-ec` wrote in compressed encoding: both crates use the
/// encoding of SEC1.
#[verifier::external_body]
fn decode_key(bytes: &[u8]) -> (key: Result<CompressedPublicKey, bitcoin::secp256k1::Error>)
    ensures
        match key {
            Ok(k) => parsed_key(bytes@) == Some(k@) && parsed_key(k@) == Some(k@),
            Err(_) => parsed_key(bytes@) is None,
        },
        key is Ok && key->Ok_0@ == bytes@ || !is_finite_point(bytes@),
{
    let key = bitcoin::CompressedPublicKey::from_slice(bytes)?;
    Ok(CompressedPublicKey { bytes: key.to_bytes() })
}

/// The bytes that the text of a key file writes, where it writes bytes: white space around the
/// digits does not count.
pub open spec fn key_text_bytes(text: Seq<char>) -> Option<Seq<u8>> {
    if is_hex(trimmed(text)) {
        Some(hex_bytes(trimmed(text)))
    } else {
        None
    }
}

/// Reads the shared public key from the text of its file.
pub fn parse_public_key(text: &str) -> (key: Result<CompressedPublicKey, KeyTextError>)
    ensures
        match key {
            Ok(k) => is_hex(trimmed(text@)) && parsed_key(hex_bytes(trimmed(text@))) == Some(k@),
            Err(KeyTextError::Hex(_)) => !is_hex(trimmed(text@)),
            Err(KeyTextError::Key(_)) => is_hex(trimmed(text@)) && parsed_key(
                hex_bytes(trimmed(text@)),
            ) is None,
        },
        is_hex(trimmed(text@)) && is_finite_point(hex_bytes(trimmed(text@))) ==> (key matches Ok(k)
            && k@ == hex_bytes(trimmed(text@))),
        match key {
            Ok(k) => key_text_bytes(text@) is Some && parsed_key(key_text_bytes(text@)->0) == Some(
                k@,
            ),
            Err(KeyTextError::Hex(_)) => key_text_bytes(text@) is None,
            Err(KeyTextError::Key(_)) => key_text_bytes(text@) is Some && parsed_key(
                key_text_bytes(text@)->0,
            ) is None,
        },
{
    match hex_decode(trim(text)) {
        Ok(bytes) => match CompressedPublicKey::from_slice(bytes.as_slice()) {
            Ok(key) => Ok(key),
            Err(error) => Err(KeyTextError::Key(error)),
        },
        Err(error) => Err(KeyTextError::Hex(error)),
    }
}

/// The text that initialization exports for a key gives the key back: its hexadecimal digits are
/// all that is left of it when the line end is dropped.
pub proof fn exported_key_text_is_read(key: Seq<u8>)
    ensures
        trimmed(public_key_line(key)) == hex_text(key),
        is_hex(trimmed(public_key_line(key))),
        hex_bytes(trimmed(public_key_line(key))) == key,
        key_text_bytes(public_key_line(key)) == Some(key),
        compressed_point(key) == Some(key) && key != infinity() ==> is_finite_point(key),
{
    let text = hex_text(key);
    let line = public_key_line(key);
    hex_text_is_read_back(key);
    hex_text_is_not_trimmed(key);
    if text.len() > 0 {
        assert(!white_space(text[0]) && line[0] == text[0]);
        assert(trimmed_start(line) == line);
        assert(line.drop_last() =~= text);
        assert(white_space(line.last()));
        assert(!white_space(text[text.len() - 1]));
        assert(trimmed_end(text) == text);
    } else {
        assert(line =~= seq!['\n']);
        assert(line.drop_first() =~= text);
        assert(trimmed_start(line.drop_first()) == line.drop_first());
        assert(trimmed_end(text) == text);
    }
}

/// The script that pays to a key hash: version 0, then 20 bytes.
pub open spec fn p2wpkh_script(key: Seq<u8>) -> Seq<u8> {
    seq![0x00u8, 0x14u8] + key_hash160(key)
}

/// An address that a key controls.
pub struct KeyAddress {
    pub text: String,
    pub script_pubkey: Vec<u8>,
}

/// Whether an address is the regtest address of a key.
pub open spec fn is_address_of(address: KeyAddress, key: Seq<u8>) -> bool {
    address.text@ == regtest_address(key) && address.script_pubkey@ == p2wpkh_script(key)
}

/// The P2WPKH address of the shared key.
pub fn derive_address_b(pubkey: &CompressedPublicKey) -> (address: KeyAddress)
    ensures
        is_address_of(address, pubkey@),
        address.text@ == regtest_address(pubkey@),
        address.script_pubkey@ == seq![0x00u8, 0x14u8] + key_hash160(pubkey@),
{
    KeyAddress { text: p2wpkh_address(pubkey), script_pubkey: p2wpkh_script_pubkey(pubkey) }
}

/// The address of a key that is drawn at random, with the key.
pub fn generate_address_c() -> (drawn: (CompressedPublicKey, KeyAddress))
    ensures
        is_address_of(drawn.1, drawn.0@),
        drawn.1.text@ == regtest_address(drawn.0@),
        drawn.1.script_pubkey@ == seq![0x00u8, 0x14u8] + key_hash160(drawn.0@),
{
    let key = random_key();
    let address = derive_address_b(&key);
    (key, address)
}

/// Calls `bitcoin::Address::p2wpkh` for regtest and writes the address out. `regtest_address` names
/// the text.
#[verifier::external_body]
fn p2wpkh_address(key: &CompressedPublicKey) -> (text: String)
    ensures
        text@ == regtest_address(key@),
{
    let key = bitcoin::CompressedPublicKey::from_slice(&key.bytes).unwrap();
    bitcoin::Address::p2wpkh(&key, bitcoin::Network::Regtest).to_string()
}

/// Calls `bitcoin::ScriptBuf::new_p2wpkh` on `bitcoin::CompressedPublicKey::wpubkey_hash`: an opcode
/// for version 0, one that pushes 20 bytes, and the 20 bytes of the hash.
#[verifier::external_body]
fn p2wpkh_script_pubkey(key: &CompressedPublicKey) -> (script: Vec<u8>)
    ensures
        script@ == seq![0x00u8, 0x14u8] + key_hash160(key@),
        script@.len() == 22,
{
    let key = bitcoin::CompressedPublicKey::from_slice(&key.bytes).unwrap();
    ScriptBuf::new_p2wpkh(&key.wpubkey_hash()).into_bytes()
}

/// Calls `secp256k1::Secp256k1::generate_keypair` with `rand::thread_rng` and keeps the public key.
/// It is drawn at random: nothing is stated of which key it is.
#[verifier::external_body]
fn random_key() -> (key: CompressedPublicKey) {
    let secp = bitcoin::secp256k1::Secp256k1::new();
    let (_, key) = secp.generate_keypair(&mut rand::thread_rng());
    CompressedPublicKey { bytes: key.serialize() }
}

/// What a transaction output holds.
pub struct TxOutData {
    pub value: nat,
    pub script_pubkey: Seq<u8>,
}

/// What a transaction input holds, apart from its witness.
pub struct TxInData {
    pub txid: Seq<u8>,
    pub vout: nat,
    pub script_sig: Seq<u8>,
    pub sequence: nat,
}

/// What a transaction holds, apart from its witnesses.
pub struct TransactionData {
    pub version: int,
    pub lock_time: nat,
    pub inputs: Seq<TxInData>,
    pub outputs: Seq<TxOutData>,
}

/// A transaction output: an amount in satoshi and the script that locks it.
pub struct TxOut {
    pub value: u64,
    pub script_pubkey: Vec<u8>,
}

impl View for TxOut {
    type V = TxOutData;

    open spec fn view(&self) -> TxOutData {
        TxOutData { value: self.value as nat, script_pubkey: self.script_pubkey@ }
    }
}

/// A transaction input: the output that it spends, and what unlocks that.
pub struct TxIn {
    pub txid: [u8; 32],
    pub vout: u32,
    pub script_sig: Vec<u8>,
    pub sequence: u32,
    pub witness: Vec<Vec<u8>>,
}

impl View for TxIn {
    type V = TxInData;

    open spec fn view(&self) -> TxInData {
        TxInData {
            txid: self.txid@,
            vout: self.vout as nat,
            script_sig: self.script_sig@,
            sequence: self.sequence as nat,
        }
    }
}

/// What the items of a witness hold.
pub open spec fn witness_data(witness: Seq<Vec<u8>>) -> Seq<Seq<u8>> {
    witness.map_values(|item: Vec<u8>| item@)
}

/// A transaction.
pub struct Transaction {
    pub version: i32,
    pub lock_time: u32,
    pub inputs: Vec<TxIn>,
    pub outputs: Vec<TxOut>,
}

impl View for Transaction {
    type V = TransactionData;

    open spec fn view(&self) -> TransactionData {
        TransactionData {
            version: self.version as int,
            lock_time: self.lock_time as nat,
            inputs: self.inputs@.map_values(|input: TxIn| input@),
            outputs: self.outputs@.map_values(|output: TxOut| output@),
        }
    }
}

/// The witnesses of a transaction, one for each input.
pub open spec fn witnesses(tx: Transaction) -> Seq<Seq<Seq<u8>>> {
    tx.inputs@.map_values(|input: TxIn| witness_data(input.witness@))
}

/// Whether what was found in a transaction's outputs is the first that a script locks, with its
/// amount.
pub open spec fn is_utxo(
    outputs: Seq<TxOutData>,
    script_pubkey: Seq<u8>,
    found: Option<(u32, u64)>,
) -> bool {
    match found {
        Some((vout, value)) => vout < outputs.len() && outputs[vout as int].script_pubkey
            == script_pubkey && value == outputs[vout as int].value && forall|i: int|
            0 <= i < vout ==> (#[trigger] outputs[i]).script_pubkey != script_pubkey,
        None => forall|i: int|
            0 <= i < outputs.len() ==> (#[trigger] outputs[i]).script_pubkey != script_pubkey,
    }
}

/// What transaction outputs hold, in order.
pub open spec fn outputs_data(outputs: Seq<TxOut>) -> Seq<TxOutData> {
    outputs.map_values(|output: TxOut| output@)
}

/// Finds the first output that a script locks, and gives its place and its amount.
pub fn find_utxo(outputs: &Vec<TxOut>, script_pubkey: &[u8]) -> (found: Option<(u32, u64)>)
    requires
        outputs@.len() <= u32::MAX,
    ensures
        match found {
            Some((vout, value)) => vout < outputs@.len() && outputs@[vout as int].script_pubkey@
                == script_pubkey@ && value == outputs@[vout as int].value && forall|i: int|
                0 <= i < vout ==> (#[trigger] outputs@[i]).script_pubkey@ != script_pubkey@,
            None => forall|i: int|
                0 <= i < outputs@.len() ==> (#[trigger] outputs@[i]).script_pubkey@
                    != script_pubkey@,
        },
        is_utxo(outputs_data(outputs@), script_pubkey@, found),
{
    let mut i: usize = 0;
    while i < outputs.len()
        invariant
            i <= outputs@.len() <= u32::MAX,
            forall|j: int|
                0 <= j < i ==> (#[trigger] outputs@[j]).script_pubkey@ != script_pubkey@,
        decreases outputs@.len() - i,
    {
        if same_bytes(outputs[i].script_pubkey.as_slice(), script_pubkey) {
            proof {
                let data = outputs_data(outputs@);
                assert forall|j: int| 0 <= j < i implies (#[trigger] data[j]).script_pubkey
                    != script_pubkey@ by {
                    assert(outputs@[j].script_pubkey@ != script_pubkey@);
                }
            }
            return Some((i as u32, outputs[i].value));
        }
        i = i + 1;
    }
    proof {
        let data = outputs_data(outputs@);
        assert forall|j: int| 0 <= j < data.len() implies (#[trigger] data[j]).script_pubkey
            != script_pubkey@ by {
            assert(outputs@[j].script_pubkey@ != script_pubkey@);
        }
    }
    None
}

/// Whether two byte strings are the same.
fn same_bytes(a: &[u8], b: &[u8]) -> (same: bool)
    ensures
        same == (a@ == b@),
{
    if a.len() != b.len() {
        return false;
    }
    let mut i: usize = 0;
    while i < a.len()
        invariant
            i <= a@.len(),
            a@.len() == b@.len(),
            forall|j: int| 0 <= j < i ==> a@[j] == b@[j],
        decreases a@.len() - i,
    {
        if a[i] != b[i] {
            return false;
        }
        i = i + 1;
    }
    assert(a@ =~= b@);
    true
}

/// The transaction that spends an output of `utxo_value` satoshi: `SEND_AMOUNT` goes to the
/// destination, and what is left after the fee goes back.
pub open spec fn spending(
    txid: Seq<u8>,
    vout: nat,
    utxo_value: nat,
    destination: Seq<u8>,
    change: Seq<u8>,
) -> TransactionData {
    TransactionData {
        version: 2,
        lock_time: 0,
        inputs: seq![
            TxInData { txid, vout, script_sig: Seq::empty(), sequence: 0xFFFF_FFFD },
        ],
        outputs: seq![
            TxOutData { value: SEND_AMOUNT as nat, script_pubkey: destination },
            TxOutData {
                value: (utxo_value - SEND_AMOUNT - FEE) as nat,
                script_pubkey: change,
            },
        ],
    }
}

/// The sum of the amounts of outputs.
pub open spec fn total_value(outputs: Seq<TxOutData>) -> nat
    decreases outputs.len(),
{
    if outputs.len() == 0 {
        0
    } else {
        total_value(outputs.drop_last()) + outputs.last().value
    }
}

/// Of what is spent, all but the fee goes to the two outputs.
pub proof fn only_the_fee_is_lost(
    txid: Seq<u8>,
    vout: nat,
    utxo_value: nat,
    destination: Seq<u8>,
    change: Seq<u8>,
)
    requires
        utxo_value >= SEND_AMOUNT + FEE,
    ensures
        total_value(spending(txid, vout, utxo_value, destination, change).outputs) + FEE
            == utxo_value,
{
    let outputs = spending(txid, vout, utxo_value, destination, change).outputs;
    reveal_with_fuel(total_value, 3);
    assert(outputs.drop_last().drop_last() =~= Seq::<TxOutData>::empty());
}

/// Builds the transaction that spends an output, without a witness.
pub fn build_unsigned(
    txid: [u8; 32],
    vout: u32,
    utxo_value: u64,
    destination: Vec<u8>,
    change: Vec<u8>,
) -> (tx: Transaction)
    requires
        utxo_value >= SEND_AMOUNT + FEE,
    ensures
        tx@ == spending(txid@, vout as nat, utxo_value as nat, destination@, change@),
        witnesses(tx) == seq![Seq::<Seq<u8>>::empty()],
        tx.inputs@.len() == 1,
        tx.inputs@[0].txid@ == txid@,
        tx.inputs@[0].vout == vout,
        tx.inputs@[0].witness@.len() == 0,
        tx.outputs@.len() == 2,
        tx.outputs@[0].script_pubkey@ == destination@,
        tx.outputs@[1].script_pubkey@ == change@,
        tx.outputs@[0].value + tx.outputs@[1].value + FEE == utxo_value,
{
    let change_value: u64 = utxo_value - SEND_AMOUNT - FEE;
    let tx = Transaction {
        version: 2,
        lock_time: 0,
        inputs: vec![
            TxIn {
                txid,
                vout,
                script_sig: Vec::new(),
                sequence: 0xFFFF_FFFD,
                witness: Vec::new(),
            },
        ],
        outputs: vec![
            TxOut { value: SEND_AMOUNT, script_pubkey: destination },
            TxOut { value: change_value, script_pubkey: change },
        ],
    };
    proof {
        let model = spending(txid@, vout as nat, utxo_value as nat, destination@, change@);
        assert(tx@.inputs =~= model.inputs);
        assert(tx@.outputs =~= model.outputs);
        assert(witnesses(tx)[0] =~= Seq::<Seq<u8>>::empty());
        assert(witnesses(tx) =~= seq![Seq::<Seq<u8>>::empty()]);
    }
    tx
}

/// The BIP-143 hash that `bitcoin::sighash::SighashCache::p2wpkh_signature_hash` gives for an input
/// of a transaction, with all outputs signed.
pub uninterp spec fn p2wpkh_sighash(
    tx: TransactionData,
    input: nat,
    script_pubkey: Seq<u8>,
    value: nat,
) -> Seq<u8>;

/// The hash that is to be signed so that the first input of a transaction may spend `value`
/// satoshi of a key.
pub open spec fn spending_hash(tx: TransactionData, key: Seq<u8>, value: nat) -> Seq<u8> {
    p2wpkh_sighash(tx, 0, p2wpkh_script(key), value)
}

/// The hash that is to be signed so that the first input may spend `utxo_value` satoshi of the
/// key. It does not depend on any witness.
pub fn sighash_payload(tx: &Transaction, pubkey: &CompressedPublicKey, utxo_value: u64) -> (payload:
    [u8; 32])
    requires
        tx@.inputs.len() > 0,
    ensures
        payload@ == p2wpkh_sighash(tx@, 0, p2wpkh_script(pubkey@), utxo_value as nat),
        payload@ == spending_hash(tx@, pubkey@, utxo_value as nat),
{
    segwit_sighash(tx, 0, p2wpkh_script_pubkey(pubkey), utxo_value)
}

/// Calls `bitcoin::sighash::SighashCache::p2wpkh_signature_hash` for `SIGHASH_ALL`, whose hash
/// `p2wpkh_sighash` names. It refuses an input that is not there and a script that does not pay to
/// a key hash. Witnesses take no part in the hash and are not handed over.
#[verifier::external_body]
fn segwit_sighash(tx: &Transaction, input: usize, script: Vec<u8>, value: u64) -> (hash: [u8; 32])
    requires
        input < tx@.inputs.len(),
        script@.len() == 22,
        script@[0] == 0x00,
        script@[1] == 0x14,
    ensures
        hash@ == p2wpkh_sighash(tx@, input as nat, script@, value as nat),
{
    let mut cache = SighashCache::new(BtcTransaction {
        version: Version(tx.version),
        lock_time: LockTime::from_consensus(tx.lock_time),
        input: tx.inputs.iter().map(|i| BtcTxIn {
            previous_output: OutPoint::new(Txid::from_byte_array(i.txid), i.vout),
            script_sig: i.script_sig.clone().into(),
            sequence: Sequence(i.sequence), witness: Witness::default(),
        }).collect(),
        output: tx.outputs.iter().map(|o| BtcTxOut {
            value: Amount::from_sat(o.value), script_pubkey: o.script_pubkey.clone().into(),
        }).collect(),
    });
    let script = ScriptBuf::from(script);
    cache.p2wpkh_signature_hash(input, &script, Amount::from_sat(value), EcdsaSighashType::All)
        .unwrap().to_byte_array()
}

/// How many bytes an integer takes in DER: as few as can be, with room for a sign bit that is
/// zero.
pub open spec fn der_len(value: nat) -> nat
    decreases value,
{
    if value < 128 {
        1
    } else {
        der_len(value / 256) + 1
    }
}

/// An integer in DER.
pub open spec fn der_integer(value: nat) -> Seq<u8> {
    seq![0x02u8, der_len(value) as u8] + be_bytes(value, der_len(value))
}

/// A signature in DER: a sequence of the two integers.
pub open spec fn der_signature(signature: SignatureData) -> Seq<u8> {
    let integers = der_integer(signature.r) + der_integer(signature.s);
    seq![0x30u8, integers.len() as u8] + integers
}

/// The witness that spends from a key hash: the signature in DER with a byte for `SIGHASH_ALL`,
/// and the key.
pub open spec fn p2wpkh_witness(signature: SignatureData, key: Seq<u8>) -> Seq<Seq<u8>> {
    seq![der_signature(signature).push(0x01u8), key]
}

/// The components of a signature in 32 bytes each.
pub fn compact_signature_bytes(signature: &Signature) -> (compact: Vec<u8>)
    ensures
        compact@ == be_bytes(signature@.r, 32) + be_bytes(signature@.s, 32),
        compact@.len() == 64,
        compact_signature(compact@) == signature@,
        signature@.r < curve_order(),
        signature@.s < curve_order(),
{
    let (r, s) = (signature.r().to_be_bytes(), signature.s().to_be_bytes());
    let mut compact = slice_to_vec(&r);
    let mut rest = slice_to_vec(&s);
    compact.append(&mut rest);
    proof {
        assert(compact@.subrange(0, 32) =~= r@);
        assert(compact@.subrange(32, 64) =~= s@);
    }
    compact
}

/// Calls `secp256k1::ecdsa::Signature::from_compact`, which refuses a component that is not below
/// the curve order, and `bitcoin::Witness::p2wpkh` with `SIGHASH_ALL`: the signature in DER and a
/// byte for the hash type, then the key in compressed encoding.
#[verifier::external_body]
fn witness_of_compact(compact: &[u8], key: &CompressedPublicKey) -> (witness: Vec<Vec<u8>>)
    requires
        compact@.len() == 64,
        compact_signature(compact@).r < curve_order(),
        compact_signature(compact@).s < curve_order(),
    ensures
        witness_data(witness@) == p2wpkh_witness(compact_signature(compact@), key@),
        witness@.len() == 2 && witness@[0]@.len() <= 73 && witness@[1]@.len() == 33,
{
    let key = bitcoin::CompressedPublicKey::from_slice(&key.bytes).unwrap();
    let signature = bitcoin::ecdsa::Signature {
        signature: bitcoin::secp256k1::ecdsa::Signature::from_compact(compact).unwrap(),
        sighash_type: EcdsaSighashType::All,
    };
    Witness::p2wpkh(&signature, &key.0).to_vec()
}

/// An upper bound on the size of a witness with the lengths of its items.
pub open spec fn witness_size(witness: Seq<Seq<u8>>) -> nat
    decreases witness.len(),
{
    if witness.len() == 0 {
        0
    } else {
        witness_size(witness.drop_last()) + witness.last().len() + 9
    }
}

/// The witnesses of a transaction after that for a signature was put into the first input.
pub open spec fn injected(
    witnesses: Seq<Seq<Seq<u8>>>,
    signature: SignatureData,
    key: Seq<u8>,
) -> Seq<Seq<Seq<u8>>> {
    witnesses.update(0, p2wpkh_witness(signature, key))
}

/// A signature goes into the first input only; what stood there before does not matter.
pub proof fn only_the_first_witness_changes(
    witnesses: Seq<Seq<Seq<u8>>>,
    signature: SignatureData,
    key: Seq<u8>,
    other: SignatureData,
    i: int,
)
    requires
        0 <= i < witnesses.len(),
    ensures
        injected(witnesses, signature, key).len() == witnesses.len(),
        injected(witnesses, signature, key)[0].len() == 2,
        injected(witnesses, signature, key)[0][1] == key,
        i > 0 ==> injected(witnesses, signature, key)[i] == witnesses[i],
        injected(injected(witnesses, other, key), signature, key) == injected(
            witnesses,
            signature,
            key,
        ),
{
    assert(injected(injected(witnesses, other, key), signature, key) =~= injected(
        witnesses,
        signature,
        key,
    ));
}

/// Puts the witness for a signature into the first input.
pub fn inject_signature(tx: Transaction, signature: &Signature, pubkey: &CompressedPublicKey) -> (
    signed: Transaction)
    requires
        tx@.inputs.len() > 0,
    ensures
        signed@ == tx@,
        witnesses(signed) == witnesses(tx).update(0, p2wpkh_witness(signature@, pubkey@)),
        witnesses(signed) == injected(witnesses(tx), signature@, pubkey@),
        witness_size(witnesses(signed)[0]) <= u32::MAX,
        signed.inputs@.len() == tx.inputs@.len(),
        signed.inputs@[0].witness@.len() == 2,
        signed.inputs@[0].witness@[1]@ == pubkey@,
        signed.outputs@ == tx.outputs@,
{
    let compact = compact_signature_bytes(signature);
    let witness = witness_of_compact(compact.as_slice(), pubkey);
    let ghost items = witness_data(witness@);
    proof {
        reveal_with_fuel(witness_size, 3);
        assert(items.drop_last().drop_last() =~= Seq::<Seq<u8>>::empty());
    }
    let mut signed = tx;
    signed.inputs[0].witness = witness;
    proof {
        assert(signed@.inputs =~= tx@.inputs);
        assert(witnesses(signed) =~= witnesses(tx).update(0, items));
        assert(items[1] == witness@[1]@);
    }
    signed
}

/// The hexadecimal text of the consensus encoding that `bitcoin::consensus::encode::serialize_hex`
/// gives a transaction.
pub uninterp spec fn transaction_hex(tx: TransactionData, witnesses: Seq<Seq<Seq<u8>>>) -> Seq<char>;

/// The transaction in the form in which it is broadcast.
pub fn raw_transaction(tx: &Transaction) -> (raw: String)
    requires
        forall|i: int|
            0 <= i < tx@.inputs.len() ==> witness_size(#[trigger] witnesses(*tx)[i]) <= u32::MAX,
    ensures
        raw@ == transaction_hex(tx@, witnesses(*tx)),
{
    encode_transaction(tx)
}

/// Calls `bitcoin::consensus::encode::serialize_hex`, whose text `transaction_hex` names. A witness
/// has to fit the 32 bits by which `bitcoin::Witness` finds its items.
#[verifier::external_body]
fn encode_transaction(tx: &Transaction) -> (raw: String)
    requires
        forall|i: int|
            0 <= i < tx@.inputs.len() ==> witness_size(#[trigger] witnesses(*tx)[i]) <= u32::MAX,
    ensures
        raw@ == transaction_hex(tx@, witnesses(*tx)),
{
    serialize_hex(&BtcTransaction {
        version: Version(tx.version),
        lock_time: LockTime::from_consensus(tx.lock_time),
        input: tx.inputs.iter().map(|i| BtcTxIn {
            previous_output: OutPoint::new(Txid::from_byte_array(i.txid), i.vout),
            script_sig: i.script_sig.clone().into(),
            sequence: Sequence(i.sequence),
            witness: Witness::from_slice(&i.witness),
        }).collect(),
        output: tx.outputs.iter().map(|o| BtcTxOut {
            value: Amount::from_sat(o.value),
            script_pubkey: o.script_pubkey.clone().into(),
        }).collect(),
    })
}

/// The derived address is that of the key itself, whatever the key: its text is the address of the
/// key, its script pays to the hash of the key, and that script is the one for which the hash of a
/// transaction that spends from the address is made.
pub proof fn address_belongs_to_the_key_that_spends_from_it(
    address: KeyAddress,
    key: Seq<u8>,
    tx: TransactionData,
    value: nat,
)
    requires
        is_address_of(address, key),
    ensures
        address.text@ == regtest_address(key),
        address.script_pubkey@.len() == 2 + key_hash160(key).len(),
        address.script_pubkey@[0] == 0x00 && address.script_pubkey@[1] == 0x14,
        address.script_pubkey@.skip(2) == key_hash160(key),
        spending_hash(tx, key, value) == p2wpkh_sighash(tx, 0, address.script_pubkey@, value),
{
    assert(address.script_pubkey@.skip(2) =~= key_hash160(key));
}

/// A key has one address: whoever derives it gets the same text and the same script. Keys whose
/// hashes differ have scripts that differ.
pub proof fn a_key_has_one_address(a: KeyAddress, key_a: Seq<u8>, b: KeyAddress, key_b: Seq<u8>)
    requires
        is_address_of(a, key_a),
        is_address_of(b, key_b),
    ensures
        key_a == key_b ==> a.text@ == b.text@ && a.script_pubkey@ == b.script_pubkey@,
        a.script_pubkey@ == b.script_pubkey@ ==> key_hash160(key_a) == key_hash160(key_b),
        regtest_address(key_a) != regtest_address(key_b) ==> a.text@ != b.text@,
{
    assert(a.script_pubkey@.skip(2) =~= key_hash160(key_a));
    assert(b.script_pubkey@.skip(2) =~= key_hash160(key_b));
}

/// The transaction spends the output that it is given, whichever that is, and nothing else; two
/// transactions with one input spend one output. It pays to the destination first and gives the
/// change back second, and all but the fee of what it spends.
pub proof fn transaction_spends_the_output_it_is_given(
    txid: Seq<u8>,
    vout: nat,
    utxo_value: nat,
    destination: Seq<u8>,
    change: Seq<u8>,
    other_txid: Seq<u8>,
    other_vout: nat,
)
    requires
        utxo_value >= SEND_AMOUNT + FEE,
    ensures
        ({
            let tx = spending(txid, vout, utxo_value, destination, change);
            let other = spending(other_txid, other_vout, utxo_value, destination, change);
            &&& tx.inputs.len() == 1
            &&& tx.inputs[0].txid == txid
            &&& tx.inputs[0].vout == vout
            &&& tx.inputs[0].script_sig.len() == 0
            &&& tx.outputs.len() == 2
            &&& tx.outputs[0].script_pubkey == destination
            &&& tx.outputs[1].script_pubkey == change
            &&& tx.outputs[0].value == 100_000_000
            &&& tx.outputs[0].value + tx.outputs[1].value + 1000 == utxo_value
            &&& tx.version == 2 && tx.lock_time == 0
            &&& 0xFFFF_FFFF - tx.inputs[0].sequence == 2
            &&& tx.inputs == other.inputs ==> txid == other_txid && vout == other_vout
        }),
{
    let tx = spending(txid, vout, utxo_value, destination, change);
    let other = spending(other_txid, other_vout, utxo_value, destination, change);
    if tx.inputs == other.inputs {
        assert(tx.inputs[0] == other.inputs[0]);
    }
}

/// What is found in the funding transaction is what the spending transaction spends: the output at
/// the place that its input names is locked by the script that was looked for, and its amount is
/// all that is paid out and the fee.
pub proof fn what_is_found_is_what_is_spent(
    funding: Seq<TxOutData>,
    script_pubkey: Seq<u8>,
    vout: u32,
    value: u64,
    txid: Seq<u8>,
    destination: Seq<u8>,
)
    requires
        is_utxo(funding, script_pubkey, Some((vout, value))),
        value >= SEND_AMOUNT + FEE,
    ensures
        ({
            let tx = spending(txid, vout as nat, value as nat, destination, script_pubkey);
            let spent = funding[tx.inputs[0].vout as int];
            &&& tx.inputs[0].vout < funding.len()
            &&& spent.script_pubkey == script_pubkey
            &&& spent.value == total_value(tx.outputs) + 1000
            &&& tx.outputs[1].script_pubkey == spent.script_pubkey
        }),
{
    only_the_fee_is_lost(txid, vout as nat, value as nat, destination, script_pubkey);
}

/// An output is found exactly where a script locks one, and then it is the first: what stands
/// behind it does not matter.
pub proof fn the_first_locked_output_is_found(
    front: Seq<TxOutData>,
    output: TxOutData,
    back: Seq<TxOutData>,
    found: Option<(u32, u64)>,
)
    requires
        forall|i: int|
            0 <= i < front.len() ==> (#[trigger] front[i]).script_pubkey != output.script_pubkey,
        is_utxo(front + seq![output] + back, output.script_pubkey, found),
    ensures
        found matches Some((vout, value)) && vout == front.len() && value == output.value,
{
    let outputs = front + seq![output] + back;
    let place = front.len() as int;
    assert(outputs[place] == output);
    if let Some((vout, value)) = found {
        if vout < place {
            assert(outputs[vout as int] == front[vout as int]);
        }
    }
}

/// The sum of amounts is taken output by output.
pub proof fn total_value_is_the_sum_of_its_parts(front: Seq<TxOutData>, output: TxOutData)
    ensures
        total_value(front + seq![output]) == total_value(front) + output.value,
        total_value(Seq::empty()) == 0,
{
    assert((front + seq![output]).drop_last() =~= front);
}

/// What the address is funded with covers what is sent on and the fee: it is twice what is sent.
/// The coinbase that pays for it is buried by more than a hundred blocks.
pub proof fn funding_covers_the_spending()
    ensures
        FUND_AMOUNT == 2 * SEND_AMOUNT,
        FUND_AMOUNT >= SEND_AMOUNT + FEE,
        MATURITY_BLOCKS > 100,
        FUNDING_BLOCKS >= 1,
        CONFIRMATION_BLOCKS >= FUNDING_BLOCKS,
{
}

/// An integer in DER is a tag, a length and so many bytes. The bytes write the integer, the first
/// of them has no sign bit, and there are as few of them as that allows.
pub proof fn der_integer_is_read_back(value: nat)
    requires
        value < pow(256, 32),
    ensures
        ({
            let der = der_integer(value);
            let bytes = der.skip(2);
            &&& der[0] == 0x02
            &&& der[1] == bytes.len()
            &&& 1 <= bytes.len() <= 33
            &&& be_value(bytes) == value
            &&& bytes[0] < 0x80
            &&& bytes.len() > 1 ==> !(bytes[0] == 0 && bytes[1] < 0x80)
        }),
{
    let len = der_len(value);
    der_len_is_least(value, 32);
    let bytes = be_bytes(value, len);
    lemma_pow_adds(256, 1, (len - 1) as nat);
    lemma_pow1(256);
    be_value_inverts_be_bytes(value, len);
    assert(der_integer(value).skip(2) =~= bytes);
    let rest = bytes.skip(1);
    assert(bytes =~= seq![bytes[0]] + rest);
    be_value_of_joined_bytes(seq![bytes[0]], rest);
    be_value_fits_its_bytes(seq![bytes[0]]);
    be_value_fits_its_bytes(rest);
    let p = pow(256, (len - 1) as nat);
    let b = bytes[0] as int;
    assert(b * p <= value);
    if b >= 0x80 {
        assert(b * p >= 128 * p) by (nonlinear_arith)
            requires
                b >= 128,
                p > 0,
        ;
    }
    if len > 1 && b == 0 && bytes[1] < 0x80 {
        let last = rest.skip(1);
        assert(rest =~= seq![rest[0]] + last);
        be_value_of_joined_bytes(seq![rest[0]], last);
        be_value_fits_its_bytes(seq![rest[0]]);
        be_value_fits_its_bytes(last);
        let q = pow(256, (len - 2) as nat);
        let c = rest[0] as int;
        assert(c * q + q <= 128 * q) by (nonlinear_arith)
            requires
                c <= 127,
                q > 0,
        ;
        assert(0 * p == 0) by (nonlinear_arith);
    }
}

/// An integer takes as few bytes as leave its sign bit zero.
proof fn der_len_is_least(value: nat, room: nat)
    requires
        value < pow(256, room),
    ensures
        1 <= der_len(value) <= room + 1,
        value < 128 * pow(256, (der_len(value) - 1) as nat),
        der_len(value) > 1 ==> value >= 128 * pow(256, (der_len(value) - 2) as nat),
        pow(256, (der_len(value) - 1) as nat) > 0,
    decreases room,
{
    lemma_pow0(256);
    if value >= 128 {
        if room == 0 {
            assert(false);
        }
        lemma_pow_adds(256, 1, (room - 1) as nat);
        lemma_pow1(256);
        der_len_is_least(value / 256, (room - 1) as nat);
        let less = der_len(value / 256);
        lemma_pow_adds(256, 1, (less - 1) as nat);
        if less > 1 {
            lemma_pow_adds(256, 1, (less - 2) as nat);
        }
    }
}

/// A signature in DER holds its two integers one after the other, and its length is that of the two.
/// In a witness a byte for the hash type follows, and the key stands behind the signature.
pub proof fn witness_holds_signature_and_key(signature: SignatureData, key: Seq<u8>)
    requires
        signature.r < curve_order(),
        signature.s < curve_order(),
    ensures
        ({
            let witness = p2wpkh_witness(signature, key);
            let der = witness[0].drop_last();
            let r_len = 2 + der[3] as int;
            &&& witness.len() == 2
            &&& witness[1] == key
            &&& witness[0].last() == 0x01
            &&& witness[0].len() <= 73
            &&& der[0] == 0x30
            &&& der[1] == der.len() - 2
            &&& der.subrange(2, 2 + r_len) == der_integer(signature.r)
            &&& der.skip(2 + r_len) == der_integer(signature.s)
        }),
{
    curve_order_is_just_below_the_bytes();
    der_integer_is_read_back(signature.r);
    der_integer_is_read_back(signature.s);
    let (r, s) = (der_integer(signature.r), der_integer(signature.s));
    let der = der_signature(signature);
    assert(p2wpkh_witness(signature, key)[0].drop_last() =~= der);
    assert(r.len() == 2 + r[1] && s.len() == 2 + s[1]);
    assert(der[3] == r[1]);
    assert(der.subrange(2, 2 + r.len() as int) =~= r);
    assert(der.skip(2 + r.len() as int) =~= s);
}

} // verus!
