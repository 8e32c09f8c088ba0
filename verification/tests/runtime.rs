use ironsign::coord_runtime::{
    judge_init, signature_file_name, Coordinator, InitOutcome, NodeError, OnlineNode, Task,
};
use ironsign::curve::{Point, Scalar};
use ironsign::fifo_queue::FifoQueue;
use ironsign::message::message_to_sign;
use ironsign::offline_node::{offline_partial_file_name, ppd_file_name, OfflineNode};
use ironsign::ppd_serializer::StoredPresignaturePublicData;
use ironsign::signing::{
    PartialSignature, Presignature, PresignatureCommitment, PresignaturePublicData,
};

const GAMMA: &str = "0375c0da935fd406674f17d95939f15d06b136c975370669ef2d98b1b5b7765a35";
const PUBLIC_KEY: &str = "03f28773c2d975288bc7d1d205c3748651b075fbc6610e58cddeeddf8f19405aa8";
const SHARES: [(u8, u8); 3] = [(5, 100), (7, 50), (11, 149)];
const COMMITMENTS: [(&str, &str); 3] = [
    (
        "03ad6f0e7f0f11c9732701b4ffc1a8c64c1790901ac6ef579f8243951bb8fe8bc7",
        "03f2bc91a8fa68dcb42f48874f25c713a7f6b5267d7f49c3f849e14982bba1bb65",
    ),
    (
        "03bf05f6cf69a73a4fe34ec77d06ec7f2ebbea573dcac8c3ed68b239adb70f9d41",
        "021e8d7b7cb939d015eb6dc5984059fae16178e2e21c33357947c337450c175856",
    ),
    (
        "03307c8f4251f0a584d9e455f8de7589fd3837e0ea9da6bed121fd00526c14e5ed",
        "0374af7baf2d234ce73ab02754d8c351e74be6035c1fedae10b0a0e4b0242de220",
    ),
];

fn point(text: &str) -> Point {
    Point::from_bytes(&hex::decode(text).unwrap()).unwrap()
}

fn scalar(value: u8) -> Scalar {
    Scalar::from_be_bytes(&[value]).unwrap()
}

fn pool(node: usize, size: usize) -> FifoQueue<Presignature> {
    let (k, chi) = SHARES[node];
    let mut pool = FifoQueue::with_capacity(size);
    for _ in 0..size {
        pool.push(Presignature::from_parts(point(GAMMA), scalar(k), scalar(chi)).unwrap());
    }
    pool
}

fn ppd() -> StoredPresignaturePublicData {
    let commitments = COMMITMENTS
        .iter()
        .map(|&(delta, s)| PresignatureCommitment::from_parts(point(delta), point(s)))
        .collect();
    StoredPresignaturePublicData {
        public: PresignaturePublicData::from_parts(point(GAMMA), commitments).unwrap(),
    }
}

fn ppds(size: usize) -> FifoQueue<StoredPresignaturePublicData> {
    let mut pool = FifoQueue::with_capacity(size);
    for _ in 0..size {
        pool.push(ppd());
    }
    pool
}

fn sizes(replies: &[usize]) -> Vec<(u16, Result<usize, String>)> {
    replies.iter().enumerate().map(|(i, size)| (i as u16 + 1, Ok(*size))).collect()
}

fn bytes(partial: PartialSignature) -> [u8; 32] {
    partial.to_scalar().to_be_bytes()
}

#[test]
fn file_names_carry_the_round() {
    assert_eq!(offline_partial_file_name(4), "offline_partial_sig_4.msgpack");
    assert_eq!(ppd_file_name(4), "ppd_4.msgpack");
    assert_eq!(signature_file_name(10), "signature_10.msgpack");
}

#[test]
fn a_node_signs_only_with_a_pool() {
    let mut node = OnlineNode::new(true);
    assert!(matches!(node.sign(&[7]), Err(NodeError::NotInitialized)));
    assert_eq!(node.init::<String>(Ok(pool(1, 1))), Ok(1));
    let expected = "ffaab0c8b769402d72a8736d51242b6a91ac5d11af02eb946bbe9563f07402f5";
    assert_eq!(hex::encode(bytes(node.sign(&[7]).unwrap())), expected);
    assert!(matches!(node.sign(&[7]), Err(NodeError::PoolExhausted)));
    assert_eq!(NodeError::NotInitialized.message(), "node is not initialized");
    assert_eq!(NodeError::PoolExhausted.message(), "presig pool exhausted");
}

#[test]
fn a_node_keeps_its_pool_when_loading_fails() {
    let mut node = OnlineNode::new(true);
    assert_eq!(node.init::<String>(Ok(pool(1, 2))), Ok(2));
    assert_eq!(node.init(Err("gone".to_string())), Err("gone".to_string()));
    assert!(node.sign(&[7]).is_ok());
    assert_eq!(node.init::<String>(Ok(pool(1, 5))), Ok(5));
}

#[test]
fn a_node_hashes_unless_told_otherwise() {
    let payload = b"hello 3-of-3";
    let mut hashing = OnlineNode::new(false);
    hashing.init::<String>(Ok(pool(1, 1))).unwrap();
    let expected = "a82c72ed140819bf3254c7dc5df12c2278edf9929073f66102bd2e149ccd990a";
    assert_eq!(hex::encode(bytes(hashing.sign(payload).unwrap())), expected);
    let mut prehashed = OnlineNode::new(true);
    prehashed.init::<String>(Ok(pool(1, 1))).unwrap();
    assert_ne!(hex::encode(bytes(prehashed.sign(payload).unwrap())), expected);
}

#[test]
fn pools_are_ready_when_all_have_one_size() {
    assert!(matches!(judge_init(sizes(&[4, 4])), InitOutcome::Ready(4)));
    assert!(matches!(judge_init(sizes(&[4, 3])), InitOutcome::Mismatch(s) if s == [4, 3]));
    let mut replies = sizes(&[4, 3]);
    replies.push((3, Err("late".to_string())));
    assert!(matches!(
        judge_init(replies),
        InitOutcome::Failed(failed) if failed == [(3, "late".to_string())]
    ));
}

#[test]
fn a_coordinator_needs_an_online_node() {
    assert!(Coordinator::new(0, false).is_none());
    assert!(Coordinator::new(1, false).is_none());
    assert_eq!(Coordinator::new(2, false).unwrap().online_nodes(), [1]);
    assert_eq!(Coordinator::new(4, false).unwrap().online_nodes(), [1, 2, 3]);
}

#[test]
fn the_coordinator_waits_until_the_pools_are_ready() {
    let mut coord = Coordinator::new(3, true).unwrap();
    assert_eq!(coord.task(), Task::InitNodes);
    coord.nodes_initialized(sizes(&[1, 2]));
    assert_eq!(coord.task(), Task::InitNodes);
    coord.nodes_initialized(vec![(1, Ok(1)), (2, Err("no".to_string()))]);
    assert_eq!(coord.task(), Task::InitNodes);
    coord.nodes_initialized(sizes(&[2, 2]));
    assert_eq!(coord.task(), Task::AskForPayload);
    assert_eq!(coord.remaining(), 2);
}

#[test]
fn empty_pools_are_asked_for_again_at_the_start_only() {
    let mut coord = Coordinator::new(3, true).unwrap();
    coord.nodes_initialized(sizes(&[0, 0]));
    assert_eq!(coord.task(), Task::AskForPools);
    coord.pools_provided();
    assert_eq!(coord.task(), Task::InitNodes);
    coord.nodes_initialized(sizes(&[0, 0]));
    assert_eq!(coord.task(), Task::AskForPayload);
    assert_eq!(coord.payload_named("\n"), None);
    assert_eq!(coord.task(), Task::AskForPools);
}

#[test]
fn a_payload_has_to_be_named_and_readable() {
    let mut coord = Coordinator::new(3, true).unwrap();
    coord.nodes_initialized(sizes(&[2, 2]));
    assert_eq!(coord.payload_named("  \n"), None);
    assert_eq!(coord.task(), Task::AskForPayload);
    assert_eq!(coord.payload_named(" p.bin\n"), Some("p.bin".to_string()));
    assert_eq!(coord.task(), Task::ReadPayload);
    coord.payload_read(None);
    assert_eq!(coord.task(), Task::AskForPayload);
    coord.payload_named("p.bin");
    coord.payload_read(Some(vec![1, 2]));
    assert_eq!(coord.task(), Task::SignOnline);
    assert_eq!(coord.payload(), &[1, 2]);
}

#[test]
fn an_error_of_one_node_forces_a_reload() {
    let mut coord = Coordinator::new(3, true).unwrap();
    coord.nodes_initialized(sizes(&[2, 2]));
    coord.payload_named("p");
    coord.payload_read(Some(vec![7]));
    let partial = PartialSignature::from_scalar(scalar(1));
    let failed = coord.nodes_signed(vec![(1, Ok(partial)), (2, Err("gone".to_string()))]);
    assert_eq!(failed, [(2, "gone".to_string())]);
    assert_eq!(coord.task(), Task::AskForPools);
    assert_eq!(coord.remaining(), 0);
    assert_eq!(coord.round(), 0);
}

#[test]
fn all_nodes_together_sign_round_after_round() {
    let mut coord = Coordinator::new(3, true).unwrap();
    let mut offline = OfflineNode::new(pool(0, 2), ppds(2), true);
    let mut nodes = vec![OnlineNode::new(true), OnlineNode::new(true)];
    let mut replies = Vec::new();
    for (i, node) in nodes.iter_mut().enumerate() {
        replies.push((i as u16 + 1, node.init(Ok(pool(i + 1, 2)))));
    }
    coord.nodes_initialized(replies);
    for round in 0..2u64 {
        let payload = vec![7 + round as u8];
        coord.payload_named("p");
        coord.payload_read(Some(payload.clone()));
        let replies = nodes
            .iter_mut()
            .enumerate()
            .map(|(i, node)| (i as u16 + 1, node.sign(coord.payload()).map_err(|e| e.message().to_string())))
            .collect();
        assert!(coord.nodes_signed(replies).is_empty());
        assert_eq!(coord.task(), Task::AwaitOffline);
        let output = offline.sign(&payload);
        assert_eq!(coord.offline_files(), (output.partial_file, output.ppd_file));
        let signature = coord.offline_signed(output.partial, &output.ppd).unwrap();
        let message = message_to_sign(&payload, true);
        assert_eq!(signature.verify(&point(PUBLIC_KEY), &message), Ok(()));
        if round == 0 {
            assert_eq!(
                hex::encode(signature.s().to_be_bytes()),
                "77c0b5df135c85569f2524c95318587fa745c87338a8a5db260f68aaf603d082"
            );
        }
        assert_eq!(coord.remaining(), 1 - round as usize);
        assert_eq!(offline.remaining(), 1 - round as usize);
        assert_eq!(coord.round(), round + 1);
    }
    assert_eq!(coord.task(), Task::AskForPools);
}

#[test]
fn a_round_that_does_not_combine_is_discarded() {
    let mut coord = Coordinator::new(3, true).unwrap();
    coord.nodes_initialized(sizes(&[5, 5]));
    coord.payload_named("p");
    coord.payload_read(Some(vec![7]));
    let partial = PartialSignature::from_scalar(scalar(1));
    coord.nodes_signed(vec![(1, Ok(partial)), (2, Ok(partial))]);
    assert!(coord.offline_signed(partial, &ppd()).is_none());
    assert_eq!(coord.remaining(), 0);
    assert_eq!(coord.round(), 1);
    assert_eq!(coord.task(), Task::AskForPools);
}

#[test]
fn the_offline_node_counts_on_after_a_reload() {
    let mut node = OfflineNode::new(pool(0, 1), ppds(1), true);
    let output = node.sign(&[7]);
    assert_eq!(output.partial_file, "offline_partial_sig_0.msgpack");
    assert_eq!(output.ppd_file, "ppd_0.msgpack");
    assert_eq!(
        hex::encode(bytes(output.partial)),
        "ff5561916ed2805ae550e6daa24856d668a9dd3caebd36ed17aacc3b10b1c46a"
    );
    assert_eq!(hex::encode(output.ppd.public.gamma().to_bytes()), GAMMA);
    assert_eq!(node.remaining(), 0);
    node.reload(pool(0, 2), ppds(2));
    assert_eq!(node.remaining(), 2);
    assert_eq!(node.sig_counter(), 1);
    assert_eq!(node.sign(&[7]).partial_file, "offline_partial_sig_1.msgpack");
}

#[test]
fn a_node_goes_through_its_pool_from_the_front() {
    let mut pool = FifoQueue::with_capacity(3);
    for share in 1..4 {
        pool.push(Presignature::from_parts(point(GAMMA), scalar(share), scalar(0)).unwrap());
    }
    let mut node = OnlineNode::new(true);
    node.init::<String>(Ok(pool)).unwrap();
    for share in 1..4 {
        assert_eq!(bytes(node.sign(&[2]).unwrap()), scalar(2 * share).to_be_bytes());
    }
}
