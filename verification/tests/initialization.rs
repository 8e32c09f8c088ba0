use ironsign::curve::{Point, Scalar};
use ironsign::fifo_queue::FifoQueue;
use ironsign::initialization::{
    initialize, is_key_share_file_name, key_share_file_count, key_share_file_name, load_key_shares,
    node_dir_name, participants, presig_execution_id, shared_public_key_text, FolderEntry,
    KeyShareFile, KeySharePlan, LoadError, PresigPools,
};
use ironsign::signing::{Presignature, PresignaturePublicData};

const GENERATOR: &str = "0279be667ef9dcbbac55a06295ce870b07029bfcdb2dce28d959f2815b16f81798";

fn point() -> Point {
    Point::from_bytes(&hex::decode(GENERATOR).unwrap()).unwrap()
}

fn scalar(value: u8) -> Scalar {
    Scalar::from_be_bytes(&[value]).unwrap()
}

#[test]
fn names_are_numbered() {
    assert_eq!(key_share_file_name(0), "key_share_0.msgpack");
    assert_eq!(key_share_file_name(12), "key_share_12.msgpack");
    assert_eq!(node_dir_name(3), "node_3");
    assert_eq!(presig_execution_id(10), "init-presig-10");
    assert_eq!(participants(3), [0, 1, 2]);
    assert!(participants(0).is_empty());
}

#[test]
fn key_share_files_are_told_by_their_names() {
    assert!(is_key_share_file_name("key_share_0.msgpack"));
    assert!(is_key_share_file_name("key_share_.msgpack"));
    assert!(!is_key_share_file_name("key_share_0.msgpack.bak"));
    assert!(!is_key_share_file_name("old_key_share_0.msgpack"));
    assert!(!is_key_share_file_name(""));
}

#[test]
fn only_key_share_files_are_counted() {
    let entry = |is_file: bool, name: Option<&str>| FolderEntry { is_file, name: name.map(String::from) };
    let entries = vec![
        entry(true, Some("key_share_0.msgpack")),
        entry(false, Some("key_share_1.msgpack")),
        entry(true, Some("notes.txt")),
        entry(true, None),
        entry(true, Some("key_share_7.msgpack")),
    ];
    assert_eq!(key_share_file_count(&entries), 2);
    assert_eq!(key_share_file_count(&Vec::new()), 0);
}

fn missing(path: &str) -> KeyShareFile<u8> {
    KeyShareFile::Missing { path: path.to_string() }
}

#[test]
fn key_shares_are_loaded_in_index_order() {
    let files = vec![KeyShareFile::Share(7u8), KeyShareFile::Share(8)];
    assert!(matches!(load_key_shares(2, 2, "d".to_string(), files), Ok(shares) if shares == [7, 8]));
    assert!(matches!(load_key_shares::<u8>(0, 0, "d".to_string(), vec![]), Ok(shares) if shares.is_empty()));
}

#[test]
fn a_wrong_count_is_an_error() {
    let error = load_key_shares::<u8>(3, 2, "out/key_shares".to_string(), vec![]).err().unwrap();
    assert_eq!(error.message(), "found 2 key shares in out/key_shares, expected 3");
}

#[test]
fn the_first_file_that_fails_gives_the_error() {
    let unreadable = KeyShareFile::Unreadable { path: "a".to_string(), error: "denied".to_string() };
    let files = vec![KeyShareFile::Share(1), unreadable, missing("b")];
    let error = load_key_shares(3, 3, "d".to_string(), files).err().unwrap();
    assert_eq!(error.message(), "failed reading a: denied");

    let files = vec![missing("d/key_share_0.msgpack"), KeyShareFile::Share(1)];
    let error = load_key_shares(2, 2, "d".to_string(), files).err().unwrap();
    assert_eq!(error.message(), "missing expected key share file d/key_share_0.msgpack");

    let undecodable: KeyShareFile<u8> =
        KeyShareFile::Undecodable { path: "c".to_string(), error: "eof".to_string() };
    let error = load_key_shares(1, 1, "d".to_string(), vec![undecodable]).err().unwrap();
    assert_eq!(error.message(), "failed deserializing c: eof");
}

#[test]
fn key_shares_are_reused_where_possible() {
    assert!(matches!(initialize::<u8>(None), KeySharePlan::Generate));
    assert!(matches!(initialize(Some(Ok(vec![1u8]))), KeySharePlan::Reuse(shares) if shares == [1]));
    let error = LoadError::Missing { path: "p".to_string() };
    assert!(matches!(
        initialize::<u8>(Some(Err(error))),
        KeySharePlan::Replace(LoadError::Missing { path }) if path == "p"
    ));
}

#[test]
fn the_public_key_is_exported_in_hexadecimal() {
    assert_eq!(shared_public_key_text(&point()), format!("{GENERATOR}\n"));
}

fn partial(pool: &mut FifoQueue<Presignature>) -> [u8; 32] {
    pool.pop_next().unwrap().issue_partial_signature(&scalar(1)).to_scalar().to_be_bytes()
}

fn expected(share: u8) -> [u8; 32] {
    let presig = Presignature::from_parts(point(), scalar(share), scalar(0)).unwrap();
    presig.issue_partial_signature(&scalar(1)).to_scalar().to_be_bytes()
}

#[test]
fn rounds_are_dealt_out_in_lock_step() {
    let round = |first: u8| -> Vec<(Presignature, PresignaturePublicData)> {
        (0..3)
            .map(|i| {
                let presig = Presignature::from_parts(point(), scalar(first + i), scalar(0)).unwrap();
                (presig, PresignaturePublicData::from_parts(point(), Vec::new()).unwrap())
            })
            .collect()
    };
    let mut pools = PresigPools::new(3, 2);
    assert_eq!(pools.nodes(), 3);
    pools.add_round(round(10));
    pools.add_round(round(20));
    for node in 0..3usize {
        let bytes = pools.presig_pool(node).to_msgpack().unwrap();
        let mut pool = FifoQueue::from_msgpack(&bytes).unwrap();
        assert_eq!(pool.len(), 2);
        assert_eq!(partial(&mut pool), expected(10 + node as u8));
        assert_eq!(partial(&mut pool), expected(20 + node as u8));
    }
    assert_eq!(pools.into_ppd_pool().len(), 2);
}

#[test]
fn every_round_has_its_number_and_identifier() {
    let seen = std::cell::RefCell::new(Vec::new());
    let pools = ironsign::initialization::regenerate_presignatures(2, 3, |j, id| {
        seen.borrow_mut().push((j, id));
        (0..2u8)
            .map(|i| {
                let share = scalar(10 * j as u8 + i);
                let presig = Presignature::from_parts(point(), share, scalar(0)).unwrap();
                (presig, PresignaturePublicData::from_parts(point(), Vec::new()).unwrap())
            })
            .collect()
    });
    let expected_runs: Vec<(u16, String)> = (0..3).map(|j| (j, format!("init-presig-{j}"))).collect();
    assert_eq!(*seen.borrow(), expected_runs);
    assert_eq!(pools.nodes(), 2);
    let bytes = pools.presig_pool(1).to_msgpack().unwrap();
    let mut pool = FifoQueue::from_msgpack(&bytes).unwrap();
    for j in 0..3 {
        assert_eq!(partial(&mut pool), expected(10 * j + 1));
    }
    assert!(pool.is_empty());
    assert_eq!(pools.into_ppd_pool().len(), 3);
}
