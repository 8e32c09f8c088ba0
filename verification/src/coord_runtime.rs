//! The runtime that has a connection: nodes that sign with their own pools, and the coordinator
//! that collects their partial signatures and combines them with that of the offline node.

use crate::bytes::be_value;
use crate::curve::curve_order;
use crate::fifo_queue::{popped_all, popping_skips, FifoQueue};
use crate::initialization::{after_rounds, pools_run_in_lock_step, PoolsData, Round};
use crate::message::{message_to_sign, message_value, sha256};
use crate::msgpack::presignature_data;
use crate::offline_node::{
    after_signing, fresh_offline, offline_files_carry_the_round, offline_output,
    offline_partial_file, offline_partial_file_name, ppd_file, ppd_file_name, OfflineData,
};
use crate::ppd_serializer::StoredPresignaturePublicData;
use crate::signing::{
    combined_signature, combined_signature_is_ecdsa, combines, issued, low_s,
    matching_partials_and_no_others_combine, partial_matches, partial_value, partial_values,
    shared_chi, shared_k, x_scalar, PartialSignature, Presignature, PresignatureData, PublicData,
    Signature, SignatureData,
};
use crate::text::{
    carries_number, decimal, entered, numbered, numbered_text_carries_number,
    numbered_text_is_injective, trimmed,
};
use vstd::prelude::*;

verus! {

/// The folder with the signatures.
pub const SIGNATURES_DIR: &'static str = "signatures";

/// After how many seconds nodes that did not load their pools are asked again.
pub const RETRY_SECONDS: u64 = 10;

/// What a node with a connection holds; the pool is `None` until one was loaded.
pub struct NodeData {
    pub pool: Option<Seq<PresignatureData>>,
    pub prehashed: bool,
}

/// Why a node does not sign.
#[derive(Clone, Copy, Debug, PartialEq, Eq, Structural)]
pub enum NodeError {
    NotInitialized,
    PoolExhausted,
}

impl NodeError {
    /// The text of the error.
    pub fn message(&self) -> (text: &'static str)
        ensures
            text@ == match *self {
                NodeError::NotInitialized => "node is not initialized"@,
                NodeError::PoolExhausted => "presig pool exhausted"@,
            },
    {
        match self {
            NodeError::NotInitialized => "node is not initialized",
            NodeError::PoolExhausted => "presig pool exhausted",
        }
    }
}

/// A node with a connection.
pub struct OnlineNode {
    pool: Option<FifoQueue<Presignature>>,
    prehashed: bool,
}

impl View for OnlineNode {
    type V = NodeData;

    closed spec fn view(&self) -> NodeData {
        NodeData {
            pool: match self.pool {
                Some(pool) => Some(presignature_data(pool@)),
                None => None,
            },
            prehashed: self.prehashed,
        }
    }
}

/// A node that has no pool yet.
pub open spec fn fresh_node(prehashed: bool) -> NodeData {
    NodeData { pool: None, prehashed }
}

/// A node that has loaded a pool in the place of the one that it had.
pub open spec fn node_with_pool(node: NodeData, pool: Seq<PresignatureData>) -> NodeData {
    NodeData { pool: Some(pool), ..node }
}

/// The partial signature that a node gives for a payload.
pub open spec fn node_partial(node: NodeData, payload: Seq<u8>) -> nat {
    partial_value(node.pool->0[0], message_value(payload, node.prehashed))
}

/// A node whose next presignature was used up.
pub open spec fn node_after_signing(node: NodeData) -> NodeData {
    NodeData {
        pool: match node.pool {
            Some(pool) => Some(pool.drop_first()),
            None => None,
        },
        ..node
    }
}

/// A node after `count` more partial signatures.
pub open spec fn node_after_signings(node: NodeData, count: nat) -> NodeData
    decreases count,
{
    if count == 0 {
        node
    } else {
        node_after_signing(node_after_signings(node, (count - 1) as nat))
    }
}

/// A node goes through its pool from the front and takes no presignature twice: the presignature
/// that it uses after `count` others stood at place `count` of the pool that was loaded.
pub proof fn node_uses_each_presignature_once(node: NodeData, count: nat)
    requires
        node.pool is Some,
        count < node.pool->0.len(),
    ensures
        can_sign(node_after_signings(node, count)),
        node_after_signings(node, count).pool->0[0] == node.pool->0[count as int],
        node_after_signings(node, count) == (NodeData {
            pool: Some(node.pool->0.skip(count as int)),
            ..node
        }),
    decreases count,
{
    let pool = node.pool->0;
    if count > 0 {
        node_uses_each_presignature_once(node, (count - 1) as nat);
        assert(pool.skip(count - 1).drop_first() =~= pool.skip(count as int));
    } else {
        assert(pool.skip(0) =~= pool);
    }
}

/// What a node answers when it is asked to sign a payload.
pub open spec fn node_answer(node: NodeData, payload: Seq<u8>) -> Result<nat, NodeError> {
    match node.pool {
        None => Err(NodeError::NotInitialized),
        Some(pool) => if pool.len() == 0 {
            Err(NodeError::PoolExhausted)
        } else {
            Ok(node_partial(node, payload))
        },
    }
}

/// A node after it was asked to sign a payload.
pub open spec fn node_after_request(node: NodeData) -> NodeData {
    if can_sign(node) {
        node_after_signing(node)
    } else {
        node
    }
}

/// A node signs where its pool holds a presignature, and loses that one. Where it has no pool or an
/// empty one it says so, each with its own error, and stays as it is.
pub proof fn node_signs_or_says_why_not(node: NodeData, payload: Seq<u8>)
    ensures
        node_answer(node, payload) == Err::<nat, NodeError>(NodeError::NotInitialized)
            <==> node.pool is None,
        node_answer(node, payload) == Err::<nat, NodeError>(NodeError::PoolExhausted)
            <==> node.pool is Some && node.pool->0.len() == 0,
        node_answer(node, payload) is Ok <==> node.pool is Some && node.pool->0.len() > 0,
        node_answer(node, payload) is Err ==> node_after_request(node) == node,
        node_answer(node, payload) is Ok ==> node_answer(node, payload)->Ok_0 == partial_value(
            node.pool->0[0],
            if node.prehashed {
                be_value(payload) % curve_order()
            } else {
                be_value(sha256(payload)) % curve_order()
            },
        ) && node_after_request(node).pool->0.len() + 1 == node.pool->0.len() && node.pool->0
            == seq![node.pool->0[0]] + node_after_request(node).pool->0
            && node_after_request(node).prehashed == node.prehashed,
{
    if can_sign(node) {
        assert(node.pool->0 =~= seq![node.pool->0[0]] + node.pool->0.drop_first());
    }
}

/// Whether a node has a presignature to sign with.
pub open spec fn can_sign(node: NodeData) -> bool {
    node.pool matches Some(pool) && pool.len() > 0
}

impl OnlineNode {
    /// A node that has no pool yet.
    pub fn new(prehashed: bool) -> (node: Self)
        ensures
            node@ == (NodeData { pool: None, prehashed }),
            node@ == fresh_node(prehashed),
    {
        OnlineNode { pool: None, prehashed }
    }

    /// Takes a pool, where one could be loaded, and answers with its size. Where none could, the
    /// node keeps what it had and passes the error on.
    pub fn init<E>(&mut self, loaded: Result<FifoQueue<Presignature>, E>) -> (size: Result<usize, E>)
        ensures
            match loaded {
                Ok(pool) => size == Ok::<_, E>(pool@.len() as usize) && pool@.len() <= usize::MAX
                    && final(self)@ == (NodeData {
                    pool: Some(presignature_data(pool@)),
                    ..old(self)@
                }),
                Err(error) => size == Err::<usize, _>(error) && final(self)@ == old(self)@,
            },
            loaded matches Ok(pool) ==> final(self)@ == node_with_pool(
                old(self)@,
                presignature_data(pool@),
            ),
    {
        match loaded {
            Ok(pool) => {
                let size: usize = pool.len();
                self.pool = Some(pool);
                Ok(size)
            },
            Err(error) => Err(error),
        }
    }

    /// Signs a payload with the next presignature.
    pub fn sign(&mut self, payload: &[u8]) -> (partial: Result<PartialSignature, NodeError>)
        ensures
            match partial {
                Ok(p) => can_sign(old(self)@) && p@ == partial_value(
                    old(self)@.pool->0[0],
                    message_value(payload@, old(self)@.prehashed),
                ) && final(self)@ == node_after_signing(old(self)@),
                Err(NodeError::NotInitialized) => old(self)@.pool is None && final(self)@ == old(
                    self,
                )@,
                Err(NodeError::PoolExhausted) => old(self)@.pool is Some && !can_sign(old(self)@)
                    && final(self)@ == old(self)@,
            },
            partial matches Ok(p) ==> p@ == node_partial(old(self)@, payload@),
            match partial {
                Ok(p) => node_answer(old(self)@, payload@) == Ok::<nat, NodeError>(p@),
                Err(error) => node_answer(old(self)@, payload@) == Err::<nat, NodeError>(error),
            },
            final(self)@ == node_after_request(old(self)@),
    {
        let ghost before = self@;
        let prehashed: bool = self.prehashed;
        let presig = match &mut self.pool {
            Some(pool) => pool.pop_next(),
            None => {
                return Err(NodeError::NotInitialized);
            },
        };
        match presig {
            Some(presig) => {
                proof {
                    assert(self@.pool->0 =~= before.pool->0.drop_first());
                }
                Ok(presig.issue_partial_signature(&message_to_sign(payload, prehashed)))
            },
            None => Err(NodeError::PoolExhausted),
        }
    }
}

/// What the nodes that answered gave, in order.
pub open spec fn answers<T, E>(replies: Seq<(u16, Result<T, E>)>) -> Seq<T>
    decreases replies.len(),
{
    if replies.len() == 0 {
        Seq::empty()
    } else {
        let earlier = answers(replies.drop_last());
        match replies.last().1 {
            Ok(answer) => earlier.push(answer),
            Err(_) => earlier,
        }
    }
}

/// The nodes that failed, each with its error, in order.
pub open spec fn failures<T, E>(replies: Seq<(u16, Result<T, E>)>) -> Seq<(u16, E)>
    decreases replies.len(),
{
    if replies.len() == 0 {
        Seq::empty()
    } else {
        let earlier = failures(replies.drop_last());
        match replies.last().1 {
            Ok(_) => earlier,
            Err(error) => earlier.push((replies.last().0, error)),
        }
    }
}

/// Parts what the nodes gave from their errors.
fn split_replies<T, E>(replies: Vec<(u16, Result<T, E>)>) -> (parts: (Vec<T>, Vec<(u16, E)>))
    ensures
        parts.0@ == answers(replies@),
        parts.1@ == failures(replies@),
{
    let mut ok: Vec<T> = Vec::new();
    let mut failed: Vec<(u16, E)> = Vec::new();
    proof {
        assert(replies@.take(0) =~= Seq::empty());
    }
    for reply in it: replies
        invariant
            it.seq() == replies@,
            ok@ == answers(replies@.take(it.index() as int)),
            failed@ == failures(replies@.take(it.index() as int)),
    {
        let ghost i = it.index() as int;
        proof {
            assert(replies@.take(i + 1).drop_last() =~= replies@.take(i));
            assert(replies@.take(i + 1).last() == replies@[i]);
        }
        let (node, result) = reply;
        match result {
            Ok(answer) => ok.push(answer),
            Err(error) => failed.push((node, error)),
        }
    }
    proof {
        assert(replies@.take(replies@.len() as int) =~= replies@);
    }
    (ok, failed)
}

/// Where no node failed, every node answered, and the answers stand in the order of the nodes.
pub proof fn without_failures_all_nodes_answer<T, E>(replies: Seq<(u16, Result<T, E>)>)
    requires
        failures(replies).len() == 0,
    ensures
        answers(replies).len() == replies.len(),
        forall|i: int|
            0 <= i < replies.len() ==> (#[trigger] replies[i]).1 == Ok::<T, E>(answers(replies)[i]),
    decreases replies.len(),
{
    if replies.len() > 0 {
        without_failures_all_nodes_answer(replies.drop_last());
        assert forall|i: int| 0 <= i < replies.len() implies (#[trigger] replies[i]).1 == Ok::<T, E>(
            answers(replies)[i],
        ) by {
            if i < replies.len() - 1 {
                assert(replies.drop_last()[i] == replies[i]);
            }
        }
    }
}

/// What came of asking all nodes to load their pools.
pub enum InitOutcome {
    /// Some nodes failed: ask all of them again.
    Failed(Vec<(u16, String)>),
    /// The pools are not of one size: ask all nodes again.
    Mismatch(Vec<usize>),
    /// All pools have this size.
    Ready(usize),
}

/// Whether all sizes are `size`.
pub open spec fn all_equal(sizes: Seq<usize>, size: usize) -> bool {
    forall|i: int| 0 <= i < sizes.len() ==> #[trigger] sizes[i] == size
}

/// Whether the outcome is what the replies call for.
pub open spec fn is_judged(
    replies: Seq<(u16, Result<usize, String>)>,
    outcome: InitOutcome,
) -> bool {
    match outcome {
        InitOutcome::Failed(failed) => failed@ == failures(replies) && failed@.len() > 0,
        InitOutcome::Mismatch(sizes) => failures(replies).len() == 0 && sizes@ == answers(replies)
            && !all_equal(sizes@, sizes@[0]),
        InitOutcome::Ready(size) => failures(replies).len() == 0 && all_equal(
            answers(replies),
            size,
        ),
    }
}

/// Judges what the nodes replied when they were asked to load their pools.
pub fn judge_init(replies: Vec<(u16, Result<usize, String>)>) -> (outcome: InitOutcome)
    requires
        replies@.len() > 0,
    ensures
        match outcome {
            InitOutcome::Failed(failed) => failed@ == failures(replies@) && failed@.len() > 0,
            InitOutcome::Mismatch(sizes) => failures(replies@).len() == 0 && sizes@ == answers(
                replies@,
            ) && !all_equal(sizes@, sizes@[0]),
            InitOutcome::Ready(size) => failures(replies@).len() == 0 && all_equal(
                answers(replies@),
                size,
            ),
        },
        is_judged(replies@, outcome),
{
    let (sizes, failed) = split_replies(replies);
    if failed.len() > 0 {
        return InitOutcome::Failed(failed);
    }
    proof {
        without_failures_all_nodes_answer(replies@);
    }
    let first: usize = sizes[0];
    let mut i: usize = 0;
    while i < sizes.len()
        invariant
            i <= sizes@.len(),
            first == sizes@[0],
            sizes@ == answers(replies@),
            failures(replies@).len() == 0,
            forall|j: int| 0 <= j < i ==> #[trigger] sizes@[j] == first,
        decreases sizes@.len() - i,
    {
        if sizes[i] != first {
            return InitOutcome::Mismatch(sizes);
        }
        i = i + 1;
    }
    InitOutcome::Ready(first)
}

/// The name of the file with the signature of a round.
pub open spec fn signature_file(round: nat) -> Seq<char> {
    "signature_"@ + decimal(round) + ".msgpack"@
}

/// The name of the file with the signature of a round.
pub fn signature_file_name(round: u64) -> (name: String)
    ensures
        name@ == signature_file(round as nat),
{
    numbered("signature_", round, ".msgpack")
}

/// No two rounds share a signature file.
pub proof fn signature_files_are_distinct(i: nat, j: nat)
    requires
        signature_file(i) == signature_file(j),
    ensures
        i == j,
{
    numbered_text_is_injective("signature_"@, i, j, ".msgpack"@);
}

/// What the coordinator waits for.
pub enum PhaseData {
    /// The nodes to load their first pools.
    Starting,
    /// The user to provide fresh pools.
    Exhausted,
    /// The nodes to load fresh pools.
    Reloading,
    /// The user to name a payload.
    Naming,
    /// The payload to be read.
    Reading,
    /// The nodes to sign.
    Signing { payload: Seq<u8> },
    /// The offline node to sign.
    Waiting { payload: Seq<u8>, online: Seq<nat> },
}

/// What the coordinator holds.
pub struct CoordinatorData {
    pub n: nat,
    pub prehashed: bool,
    pub remaining: nat,
    pub round: nat,
    pub phase: PhaseData,
}

/// The coordinator at the beginning of a round with `remaining` presignatures left: it asks for a
/// payload, or for fresh pools where there is no presignature left.
pub open spec fn at_rest(coord: CoordinatorData, remaining: nat, round: nat) -> CoordinatorData {
    CoordinatorData {
        remaining,
        round,
        phase: if remaining == 0 {
            PhaseData::Exhausted
        } else {
            PhaseData::Naming
        },
        ..coord
    }
}

/// A coordinator whose nodes have no pools yet.
pub open spec fn fresh_coordinator(n: nat, prehashed: bool) -> CoordinatorData {
    CoordinatorData { n, prehashed, remaining: 0, round: 0, phase: PhaseData::Starting }
}

/// The coordinator after the user provided fresh pools.
pub open spec fn after_providing(coord: CoordinatorData) -> CoordinatorData {
    CoordinatorData { phase: PhaseData::Reloading, ..coord }
}

/// The coordinator after the nodes loaded pools of one size.
pub open spec fn after_init(coord: CoordinatorData, size: nat) -> CoordinatorData {
    if coord.phase is Starting {
        at_rest(coord, size, coord.round)
    } else {
        CoordinatorData { remaining: size, phase: PhaseData::Naming, ..coord }
    }
}

/// The coordinator after the user was asked to name a payload and entered `name`, without the
/// white space around it.
pub open spec fn after_naming(coord: CoordinatorData, name: Seq<char>) -> CoordinatorData {
    if name.len() > 0 {
        CoordinatorData { phase: PhaseData::Reading, ..coord }
    } else {
        at_rest(coord, coord.remaining, coord.round)
    }
}

/// The coordinator after the payload was read, or could not be.
pub open spec fn after_reading(
    coord: CoordinatorData,
    payload: Option<Seq<u8>>,
) -> CoordinatorData {
    match payload {
        Some(payload) => CoordinatorData { phase: PhaseData::Signing { payload }, ..coord },
        None => at_rest(coord, coord.remaining, coord.round),
    }
}

/// The coordinator after all nodes signed, or some of them did not.
pub open spec fn after_replies(coord: CoordinatorData, online: Option<Seq<nat>>) -> CoordinatorData {
    match online {
        Some(online) => CoordinatorData {
            phase: PhaseData::Waiting { payload: coord.phase->Signing_payload, online },
            ..coord
        },
        None => at_rest(coord, 0, coord.round),
    }
}

/// The coordinator after the partial signatures of a round combined, or did not.
pub open spec fn after_offline(coord: CoordinatorData, signed: bool) -> CoordinatorData {
    if signed {
        at_rest(coord, (coord.remaining - 1) as nat, coord.round + 1)
    } else {
        at_rest(coord, 0, coord.round + 1)
    }
}

/// What is to be done in a phase.
pub open spec fn task_of(phase: PhaseData) -> Task {
    match phase {
        PhaseData::Starting => Task::InitNodes,
        PhaseData::Exhausted => Task::AskForPools,
        PhaseData::Reloading => Task::InitNodes,
        PhaseData::Naming => Task::AskForPayload,
        PhaseData::Reading => Task::ReadPayload,
        PhaseData::Signing { .. } => Task::SignOnline,
        PhaseData::Waiting { .. } => Task::AwaitOffline,
    }
}

/// The nodes with a connection among `n` nodes.
pub open spec fn online_ids(n: nat) -> Seq<u16> {
    Seq::new((n - 1) as nat, |i: int| (i + 1) as u16)
}

/// The names of the files in which the coordinator looks for the offline node's partial signature
/// and public data.
pub open spec fn expected_files(coord: CoordinatorData) -> (Seq<char>, Seq<char>) {
    (offline_partial_file(coord.round), ppd_file(coord.round))
}

/// The message that is signed for the payload at hand.
pub open spec fn coordinator_message(coord: CoordinatorData) -> nat {
    match coord.phase {
        PhaseData::Signing { payload } => message_value(payload, coord.prehashed),
        PhaseData::Waiting { payload, .. } => message_value(payload, coord.prehashed),
        _ => 0,
    }
}

/// All partial signatures of a round, that of the offline node first.
pub open spec fn all_partials(coord: CoordinatorData, offline: nat) -> Seq<nat> {
    match coord.phase {
        PhaseData::Waiting { online, .. } => seq![offline] + online,
        _ => seq![offline],
    }
}

/// What the coordinator waits for, with what it has got so far.
enum Phase {
    Starting,
    Exhausted,
    Reloading,
    Naming,
    Reading,
    Signing { payload: Vec<u8> },
    Waiting { payload: Vec<u8>, online: Vec<PartialSignature> },
}

impl View for Phase {
    type V = PhaseData;

    closed spec fn view(&self) -> PhaseData {
        match self {
            Phase::Starting => PhaseData::Starting,
            Phase::Exhausted => PhaseData::Exhausted,
            Phase::Reloading => PhaseData::Reloading,
            Phase::Naming => PhaseData::Naming,
            Phase::Reading => PhaseData::Reading,
            Phase::Signing { payload } => PhaseData::Signing { payload: payload@ },
            Phase::Waiting { payload, online } => PhaseData::Waiting {
                payload: payload@,
                online: partial_values(online@),
            },
        }
    }
}

/// The coordinator.
pub struct Coordinator {
    n: u16,
    prehashed: bool,
    remaining: usize,
    round: u64,
    phase: Phase,
}

impl View for Coordinator {
    type V = CoordinatorData;

    closed spec fn view(&self) -> CoordinatorData {
        CoordinatorData {
            n: self.n as nat,
            prehashed: self.prehashed,
            remaining: self.remaining as nat,
            round: self.round as nat,
            phase: self.phase@,
        }
    }
}

/// What is to be done next.
#[derive(Clone, Copy, Debug, PartialEq, Eq, Structural)]
pub enum Task {
    InitNodes,
    AskForPools,
    AskForPayload,
    ReadPayload,
    SignOnline,
    AwaitOffline,
}

impl Coordinator {
    #[verifier::type_invariant]
    closed spec fn has_online_node(&self) -> bool {
        self.n >= 2
    }

    /// A coordinator for `n` nodes, of which the first has no connection; `None` where that leaves
    /// no other.
    pub fn new(n: u16, prehashed: bool) -> (coord: Option<Self>)
        ensures
            match coord {
                Some(c) => n >= 2 && c@ == (CoordinatorData {
                    n: n as nat,
                    prehashed,
                    remaining: 0,
                    round: 0,
                    phase: PhaseData::Starting,
                }),
                None => n < 2,
            },
            coord matches Some(c) ==> c@ == fresh_coordinator(n as nat, prehashed),
    {
        if n < 2 {
            None
        } else {
            Some(Coordinator { n, prehashed, remaining: 0, round: 0, phase: Phase::Starting })
        }
    }

    /// The nodes with a connection, `1` to `n - 1`.
    pub fn online_nodes(&self) -> (nodes: Vec<u16>)
        ensures
            nodes@.len() > 0,
            nodes@ == online_ids(self@.n),
            nodes@ == Seq::new((self@.n - 1) as nat, |i: int| (i + 1) as u16),
    {
        proof {
            use_type_invariant(self);
        }
        let mut nodes: Vec<u16> = Vec::new();
        let mut node: u16 = 1;
        while node < self.n
            invariant
                1 <= node <= self.n,
                nodes@ == Seq::new((node - 1) as nat, |i: int| (i + 1) as u16),
            decreases self.n - node,
        {
            nodes.push(node);
            node = node + 1;
            proof {
                assert(nodes@ =~= Seq::new((node - 1) as nat, |i: int| (i + 1) as u16));
            }
        }
        nodes
    }

    /// How many presignatures are left.
    pub fn remaining(&self) -> (remaining: usize)
        ensures
            remaining == self@.remaining,
    {
        self.remaining
    }

    /// The number of the round.
    pub fn round(&self) -> (round: u64)
        ensures
            round == self@.round,
    {
        self.round
    }

    /// What is to be done next.
    pub fn task(&self) -> (task: Task)
        ensures
            task == match self@.phase {
                PhaseData::Starting => Task::InitNodes,
                PhaseData::Exhausted => Task::AskForPools,
                PhaseData::Reloading => Task::InitNodes,
                PhaseData::Naming => Task::AskForPayload,
                PhaseData::Reading => Task::ReadPayload,
                PhaseData::Signing { .. } => Task::SignOnline,
                PhaseData::Waiting { .. } => Task::AwaitOffline,
            },
            task == task_of(self@.phase),
    {
        match &self.phase {
            Phase::Starting => Task::InitNodes,
            Phase::Exhausted => Task::AskForPools,
            Phase::Reloading => Task::InitNodes,
            Phase::Naming => Task::AskForPayload,
            Phase::Reading => Task::ReadPayload,
            Phase::Signing { .. } => Task::SignOnline,
            Phase::Waiting { .. } => Task::AwaitOffline,
        }
    }

    /// Begins a round with `remaining` presignatures left.
    fn rest(&mut self, remaining: usize, round: u64)
        ensures
            final(self)@ == at_rest(old(self)@, remaining as nat, round as nat),
    {
        proof {
            use_type_invariant(&*self);
        }
        self.remaining = remaining;
        self.round = round;
        self.phase = if remaining == 0 {
            Phase::Exhausted
        } else {
            Phase::Naming
        };
    }

    /// Takes the replies of the nodes that were asked to load their pools. Where these are ready
    /// the coordinator goes on with their size, else it stays where it is. After the first time a
    /// size of zero has it ask for fresh pools; after a reload it asks for a payload all the same.
    pub fn nodes_initialized(&mut self, replies: Vec<(u16, Result<usize, String>)>) -> (outcome:
        InitOutcome)
        requires
            old(self)@.phase is Starting || old(self)@.phase is Reloading,
            replies@.len() > 0,
        ensures
            match outcome {
                InitOutcome::Failed(failed) => failed@ == failures(replies@) && failed@.len() > 0
                    && final(self)@ == old(self)@,
                InitOutcome::Mismatch(sizes) => failures(replies@).len() == 0 && sizes@ == answers(
                    replies@,
                ) && !all_equal(sizes@, sizes@[0]) && final(self)@ == old(self)@,
                InitOutcome::Ready(size) => failures(replies@).len() == 0 && all_equal(
                    answers(replies@),
                    size,
                ) && final(self)@ == if old(self)@.phase is Starting {
                    at_rest(old(self)@, size as nat, old(self)@.round)
                } else {
                    CoordinatorData {
                        remaining: size as nat,
                        phase: PhaseData::Naming,
                        ..old(self)@
                    }
                },
            },
            is_judged(replies@, outcome),
            !(outcome is Ready) ==> final(self)@ == old(self)@,
            outcome matches InitOutcome::Ready(size) ==> final(self)@ == after_init(
                old(self)@,
                size as nat,
            ),
    {
        proof {
            use_type_invariant(&*self);
        }
        let outcome = judge_init(replies);
        if let InitOutcome::Ready(size) = &outcome {
            let size: usize = *size;
            let first_time = match &self.phase {
                Phase::Starting => true,
                _ => false,
            };
            if first_time {
                self.rest(size, self.round);
            } else {
                self.remaining = size;
                self.phase = Phase::Naming;
            }
        }
        outcome
    }

    /// Fresh pools are there.
    pub fn pools_provided(&mut self)
        requires
            old(self)@.phase is Exhausted,
        ensures
            final(self)@ == (CoordinatorData { phase: PhaseData::Reloading, ..old(self)@ }),
            final(self)@ == after_providing(old(self)@),
    {
        proof {
            use_type_invariant(&*self);
        }
        self.phase = Phase::Reloading;
    }

    /// Takes the line on which the user named a payload, and gives the path on it; `None` where
    /// the line is blank.
    pub fn payload_named(&mut self, line: &str) -> (path: Option<String>)
        requires
            old(self)@.phase is Naming,
        ensures
            match path {
                Some(p) => p@ == trimmed(line@) && p@.len() > 0 && final(self)@ == (
                CoordinatorData { phase: PhaseData::Reading, ..old(self)@ }),
                None => trimmed(line@).len() == 0 && final(self)@ == at_rest(
                    old(self)@,
                    old(self)@.remaining,
                    old(self)@.round,
                ),
            },
            final(self)@ == after_naming(old(self)@, trimmed(line@)),
    {
        proof {
            use_type_invariant(&*self);
        }
        let path = entered(line);
        if path.is_some() {
            self.phase = Phase::Reading;
        } else {
            self.rest(self.remaining, self.round);
        }
        path
    }

    /// Takes the payload, or `None` where it could not be read.
    pub fn payload_read(&mut self, payload: Option<Vec<u8>>)
        requires
            old(self)@.phase is Reading,
        ensures
            final(self)@ == match payload {
                Some(p) => CoordinatorData {
                    phase: PhaseData::Signing { payload: p@ },
                    ..old(self)@
                },
                None => at_rest(old(self)@, old(self)@.remaining, old(self)@.round),
            },
            final(self)@ == after_reading(
                old(self)@,
                match payload {
                    Some(p) => Some(p@),
                    None => None,
                },
            ),
    {
        proof {
            use_type_invariant(&*self);
        }
        match payload {
            Some(payload) => {
                self.phase = Phase::Signing { payload };
            },
            None => {
                self.rest(self.remaining, self.round);
            },
        }
    }

    /// Takes the replies of the nodes that were asked to sign the payload, and gives the errors
    /// among them. One error is enough to have the pools loaded again before the next payload.
    pub fn nodes_signed(
        &mut self,
        replies: Vec<(u16, Result<PartialSignature, String>)>,
    ) -> (failed: Vec<(u16, String)>)
        requires
            old(self)@.phase is Signing,
        ensures
            failed@ == failures(replies@),
            failed@.len() > 0 ==> final(self)@ == at_rest(old(self)@, 0, old(self)@.round),
            failed@.len() == 0 ==> final(self)@ == (CoordinatorData {
                phase: PhaseData::Waiting {
                    payload: old(self)@.phase->Signing_payload,
                    online: partial_values(answers(replies@)),
                },
                ..old(self)@
            }),
            final(self)@ == after_replies(
                old(self)@,
                if failures(replies@).len() == 0 {
                    Some(partial_values(answers(replies@)))
                } else {
                    None
                },
            ),
    {
        proof {
            use_type_invariant(&*self);
        }
        let (online, failed) = split_replies(replies);
        if failed.len() > 0 {
            self.rest(0, self.round);
        } else {
            let mut phase = Phase::Reading;
            core::mem::swap(&mut self.phase, &mut phase);
            if let Phase::Signing { payload } = phase {
                self.phase = Phase::Waiting { payload, online };
            }
        }
        failed
    }

    /// The payload that the nodes are to sign.
    pub fn payload(&self) -> (payload: &Vec<u8>)
        requires
            self@.phase is Signing,
        ensures
            payload@ == self@.phase->Signing_payload,
    {
        match &self.phase {
            Phase::Signing { payload } => payload,
            _ => vstd::pervasive::unreached(),
        }
    }

    /// The names of the files with the offline node's partial signature and public data for the
    /// round.
    pub fn offline_files(&self) -> (names: (String, String))
        ensures
            names.0@ == offline_partial_file(self@.round),
            names.1@ == ppd_file(self@.round),
            (names.0@, names.1@) == expected_files(self@),
    {
        (offline_partial_file_name(self.round), ppd_file_name(self.round))
    }

    /// Takes what the offline node left for the round, and combines all partial signatures. With
    /// a signature the round has used up one presignature; without one the pools are to be loaded
    /// again. Either way the round is over.
    pub fn offline_signed(
        &mut self,
        offline: PartialSignature,
        ppd: &StoredPresignaturePublicData,
    ) -> (signature: Option<Signature>)
        requires
            old(self)@.phase is Waiting,
            old(self)@.remaining > 0,
            old(self)@.round < u64::MAX,
        ensures
            signature is Some == combines(
                all_partials(old(self)@, offline@),
                ppd.public@,
                coordinator_message(old(self)@),
            ),
            match signature {
                Some(s) => s@ == combined_signature(
                    all_partials(old(self)@, offline@),
                    ppd.public@,
                ) && final(self)@ == at_rest(
                    old(self)@,
                    (old(self)@.remaining - 1) as nat,
                    old(self)@.round + 1,
                ),
                None => final(self)@ == at_rest(old(self)@, 0, old(self)@.round + 1),
            },
            final(self)@ == after_offline(old(self)@, signature is Some),
    {
        proof {
            use_type_invariant(&*self);
        }
        let ghost before = self@;
        let mut phase = Phase::Reading;
        core::mem::swap(&mut self.phase, &mut phase);
        let signature = if let Phase::Waiting { payload, online } = phase {
            let message = message_to_sign(payload.as_slice(), self.prehashed);
            let mut partials: Vec<PartialSignature> = vec![offline];
            let mut online = online;
            partials.append(&mut online);
            proof {
                assert(partial_values(partials@) =~= all_partials(before, offline@));
            }
            PartialSignature::combine(partials.as_slice(), &ppd.public, &message)
        } else {
            None
        };
        let remaining: usize = if signature.is_some() {
            self.remaining - 1
        } else {
            0
        };
        self.rest(remaining, self.round + 1);
        signature
    }
}

/// Whether every node with a connection has as many presignatures as the coordinator counts.
pub open spec fn in_step(coord: CoordinatorData, nodes: Seq<NodeData>) -> bool {
    &&& nodes.len() == coord.n - 1
    &&& forall|i: int|
        0 <= i < nodes.len() ==> (#[trigger] nodes[i]).pool is Some && nodes[i].pool->0.len()
            == coord.remaining
}

/// Once the coordinator takes the pools as ready, its count is that of every node, whether it was
/// the first time or a reload.
pub proof fn ready_pools_are_in_step(
    coord: CoordinatorData,
    nodes: Seq<NodeData>,
    replies: Seq<(u16, Result<usize, String>)>,
    size: usize,
)
    requires
        nodes.len() == coord.n - 1,
        replies.len() == nodes.len(),
        forall|i: int|
            0 <= i < nodes.len() ==> (#[trigger] nodes[i]).pool is Some && (replies[i].1 matches Ok(
                reported,
            ) ==> reported == nodes[i].pool->0.len()),
        failures(replies).len() == 0,
        all_equal(answers(replies), size),
    ensures
        in_step(at_rest(coord, size as nat, coord.round), nodes),
        in_step(
            (CoordinatorData { remaining: size as nat, phase: PhaseData::Naming, ..coord }),
            nodes,
        ),
{
    without_failures_all_nodes_answer(replies);
    assert forall|i: int| 0 <= i < nodes.len() implies (#[trigger] nodes[i]).pool->0.len() == size by {
        assert(replies[i].1 == Ok::<usize, String>(answers(replies)[i]));
        assert(answers(replies)[i] == size);
    }
}

/// While the nodes are in step, they can all sign exactly where the coordinator counts a
/// presignature; so a round that every node has signed has one to take from the count, and after
/// it coordinator and nodes are in step again.
pub proof fn signed_rounds_keep_nodes_in_step(coord: CoordinatorData, nodes: Seq<NodeData>)
    requires
        coord.n >= 2,
        in_step(coord, nodes),
    ensures
        (forall|i: int| 0 <= i < nodes.len() ==> can_sign(#[trigger] nodes[i])) <==> coord.remaining
            > 0,
        coord.remaining > 0 ==> in_step(
            at_rest(coord, (coord.remaining - 1) as nat, coord.round + 1),
            nodes.map_values(|node: NodeData| node_after_signing(node)),
        ),
{
    if forall|i: int| 0 <= i < nodes.len() ==> can_sign(#[trigger] nodes[i]) {
        assert(can_sign(nodes[0]));
    }
}

/// The presignatures of all parties in one round.
pub open spec fn presigs_of(round: Round) -> Seq<PresignatureData> {
    round.map_values(|p: (PresignatureData, PublicData)| p.0)
}

/// The partial signatures that nodes give with the presignatures that stand first in their pools
/// after `used` others have left.
pub open spec fn partials_after(pools: PoolsData, used: nat, message: nat) -> Seq<nat> {
    Seq::new(
        pools.presigs.len(),
        |i: int| partial_value(popped_all(pools.presigs[i], used)[0], message),
    )
}

/// Let the pools be filled by rounds with all `n` parties, and let all nodes have signed `used`
/// times. The partial signatures that they give next come from one round; so does the public data
/// that the offline node gives next; and the signature that these combine to solves the ECDSA
/// equation for the secrets that the parties share in that round.
pub proof fn next_signature_comes_from_one_round(n: nat, rounds: Seq<Round>, used: nat, message: nat)
    requires
        n > 0,
        used < rounds.len(),
        forall|j: int| 0 <= j < rounds.len() ==> (#[trigger] rounds[j]).len() == n,
        forall|i: int|
            0 <= i < n ==> (#[trigger] rounds[used as int][i]).0.gamma
                == rounds[used as int][0].1.gamma,
    ensures
        ({
            let pools = after_rounds(n, rounds);
            let presigs = presigs_of(rounds[used as int]);
            let public = popped_all(pools.public, used)[0];
            let partials = partials_after(pools, used, message);
            &&& public == rounds[used as int][0].1
            &&& partials == issued(presigs, message)
            &&& combined_signature(partials, public) == (SignatureData {
                r: x_scalar(public.gamma),
                s: low_s(
                    (shared_k(presigs) * message + x_scalar(public.gamma) * shared_chi(presigs))
                        % curve_order(),
                ),
            })
        }),
{
    let pools = after_rounds(n, rounds);
    let round = rounds[used as int];
    let presigs = presigs_of(round);
    let partials = partials_after(pools, used, message);
    assert(round.len() == n);
    pools_run_in_lock_step(n, rounds);
    popping_skips(pools.public, used);
    assert(pools.public[used as int] == round[0].1);
    assert forall|i: int| 0 <= i < n implies #[trigger] partials[i] == issued(presigs, message)[i] by {
        assert(pools.presigs[i].len() == rounds.len());
        popping_skips(pools.presigs[i], used);
        assert(pools.presigs[i][used as int] == round[i].0);
    }
    assert(partials =~= issued(presigs, message));
    assert forall|i: int| 0 <= i < presigs.len() implies (#[trigger] presigs[i]).gamma
        == round[0].1.gamma by {
        assert(round[i].0.gamma == round[0].1.gamma);
    }
    combined_signature_is_ecdsa(presigs, round[0].1, message);
}

/// What the coordinator combines is what the nodes gave, in the order of the nodes: the offline
/// node is the first of them.
pub proof fn partials_stand_in_node_order(coord: CoordinatorData, partials: Seq<nat>)
    requires
        partials.len() > 0,
        coord.phase matches PhaseData::Waiting { online, .. } && online == partials.skip(1),
    ensures
        all_partials(coord, partials[0]) == partials,
{
    assert(all_partials(coord, partials[0]) =~= partials);
}

/// Once the count is zero, whether the pools ran out, a node failed or a round was discarded, the
/// next thing that the coordinator asks for is fresh pools.
pub proof fn zero_count_forces_reload(coord: CoordinatorData, round: nat)
    ensures
        at_rest(coord, 0, round).phase is Exhausted,
        at_rest(coord, 0, round).remaining == 0,
{
}

/// The offline node numbers its output as the coordinator numbers its rounds: where the two agree
/// before a round they agree after it, and the coordinator looks for the files that the offline
/// node writes.
pub proof fn offline_node_keeps_count_with_coordinator(
    offline: OfflineData,
    coord: CoordinatorData,
    remaining: nat,
)
    requires
        offline.sig_counter == coord.round,
    ensures
        offline_partial_file(offline.sig_counter) == offline_partial_file(coord.round),
        ppd_file(offline.sig_counter) == ppd_file(coord.round),
        after_signing(offline).sig_counter == at_rest(coord, remaining, coord.round + 1).round,
{
}

/// The coordinator combines for the message that the nodes signed. A node with a connection and the
/// offline node, which take payloads as the coordinator does, sign the payload with the very message
/// for which the coordinator combines: the payload itself where it is a hash already, else its
/// SHA-256 hash.
pub proof fn nodes_and_coordinator_agree_on_the_message(
    coord: CoordinatorData,
    payload: Seq<u8>,
    online: Seq<nat>,
    node: NodeData,
    offline: OfflineData,
)
    requires
        coord.phase == (PhaseData::Signing { payload }) || coord.phase == (PhaseData::Waiting {
            payload,
            online,
        }),
        node.prehashed == coord.prehashed,
        offline.prehashed == coord.prehashed,
    ensures
        coordinator_message(coord) == if coord.prehashed {
            be_value(payload) % curve_order()
        } else {
            be_value(sha256(payload)) % curve_order()
        },
        node_partial(node, payload) == partial_value(
            node.pool->0[0],
            coordinator_message(coord),
        ),
        offline_output(offline, payload).partial == partial_value(
            offline.presigs[0],
            coordinator_message(coord),
        ),
{
}

/// Coordinator, nodes and offline node that are all started with one flag sign one message for one
/// payload, from their first round on: the payload itself with the flag, its SHA-256 hash without.
pub proof fn one_flag_gives_one_message(
    n: nat,
    prehashed: bool,
    size: nat,
    name: Seq<char>,
    payload: Seq<u8>,
    online: Seq<nat>,
    pool: Seq<PresignatureData>,
    presigs: Seq<PresignatureData>,
    public: Seq<PublicData>,
)
    requires
        name.len() > 0,
    ensures
        ({
            let message = if prehashed {
                be_value(payload) % curve_order()
            } else {
                be_value(sha256(payload)) % curve_order()
            };
            let started = after_init(fresh_coordinator(n, prehashed), size);
            let signing = after_reading(after_naming(started, name), Some(payload));
            let node = node_with_pool(fresh_node(prehashed), pool);
            let offline = fresh_offline(presigs, public, prehashed);
            &&& started.n == n && started.round == 0 && started.remaining == size
            &&& coordinator_message(after_replies(signing, Some(online))) == message
            &&& node_partial(node, payload) == partial_value(pool[0], message)
            &&& offline_output(offline, payload).partial == partial_value(presigs[0], message)
            &&& offline_output(offline, payload).public == public[0]
            &&& offline.sig_counter == started.round
        }),
{
}

/// The coordinator after it asked for fresh pools and got them goes on where it was: only the count
/// is new.
pub proof fn reload_changes_only_the_count(coord: CoordinatorData, size: nat)
    ensures
        after_providing(coord).phase is Reloading,
        after_init(after_providing(coord), size) == (CoordinatorData {
            n: coord.n,
            prehashed: coord.prehashed,
            remaining: size,
            round: coord.round,
            phase: PhaseData::Naming,
        }),
{
}

/// A round in which every partial signature was issued for the payload and matches its commitment
/// is signed: the coordinator, which waits with that payload and the partial signatures of the nodes
/// with a connection, combines them with that of the offline node. The payload is hashed unless it
/// is a hash already.
pub proof fn round_of_matching_partials_is_signed(
    coord: CoordinatorData,
    payload: Seq<u8>,
    partials: Seq<nat>,
    public: PublicData,
)
    requires
        partials.len() > 0,
        partials.len() == public.commitments.len(),
        coord.phase == (PhaseData::Waiting { payload, online: partials.skip(1) }),
        combined_signature(partials, public).r != 0,
        combined_signature(partials, public).s != 0,
        forall|i: int|
            0 <= i < partials.len() ==> partial_matches(
                #[trigger] partials[i],
                public.gamma,
                public.commitments[i],
                if coord.prehashed {
                    be_value(payload) % curve_order()
                } else {
                    be_value(sha256(payload)) % curve_order()
                },
            ),
    ensures
        combines(all_partials(coord, partials[0]), public, coordinator_message(coord)),
        combined_signature(all_partials(coord, partials[0]), public) == combined_signature(
            partials,
            public,
        ),
{
    partials_stand_in_node_order(coord, partials);
    let message = coordinator_message(coord);
    assert forall|i: int| 0 <= i < partials.len() implies partial_matches(
        #[trigger] partials[i],
        public.gamma,
        public.commitments[i],
        message,
    ) by {}
    matching_partials_and_no_others_combine(partials, public, message);
}

/// The coordinator asks for fresh pools only where no presignature is left. As long as one is left
/// it waits for a payload: after the first pools were loaded, after a signed round, after a line
/// without a name, and after a payload that could not be read.
pub proof fn fresh_pools_are_asked_for_only_without_presignatures(
    coord: CoordinatorData,
    size: nat,
)
    ensures
        coord.phase is Starting ==> (after_init(coord, size).phase is Naming <==> size > 0),
        coord.phase is Starting ==> (after_init(coord, size).phase is Exhausted <==> size == 0),
        coord.phase is Reloading ==> after_init(coord, size).phase is Naming,
        coord.remaining > 1 ==> after_offline(coord, true).phase is Naming,
        coord.remaining == 1 ==> after_offline(coord, true).phase is Exhausted,
        after_offline(coord, false).phase is Exhausted,
        coord.remaining > 0 ==> after_naming(coord, Seq::empty()).phase is Naming,
        coord.remaining > 0 ==> after_reading(coord, None).phase is Naming,
        coord.remaining == 0 ==> after_naming(coord, Seq::empty()).phase is Exhausted,
        coord.remaining == 0 ==> after_reading(coord, None).phase is Exhausted,
        after_replies(coord, None).phase is Exhausted,
{
}

/// No event changes the number of nodes or the way in which payloads are taken. The number of the
/// round grows by one when a round is over and stays otherwise. The count is the size of the pools
/// when these were loaded, one less after a signed round, and zero after a round that failed; it
/// stays otherwise.
pub proof fn events_change_only_what_they_concern(
    coord: CoordinatorData,
    size: nat,
    name: Seq<char>,
    payload: Option<Seq<u8>>,
    online: Option<Seq<nat>>,
    signed: bool,
)
    ensures
        ({
            let loaded = after_init(coord, size);
            let named = after_naming(coord, name);
            let read = after_reading(coord, payload);
            let answered = after_replies(coord, online);
            let ended = after_offline(coord, signed);
            &&& loaded.n == coord.n && named.n == coord.n && read.n == coord.n
            &&& answered.n == coord.n && ended.n == coord.n
            &&& loaded.prehashed == coord.prehashed && named.prehashed == coord.prehashed
            &&& read.prehashed == coord.prehashed && answered.prehashed == coord.prehashed
            &&& ended.prehashed == coord.prehashed
            &&& loaded.round == coord.round && named.round == coord.round
            &&& read.round == coord.round && answered.round == coord.round
            &&& ended.round == coord.round + 1
            &&& loaded.remaining == size
            &&& named.remaining == coord.remaining && read.remaining == coord.remaining
            &&& online is Some ==> answered.remaining == coord.remaining
            &&& online is None ==> answered.remaining == 0
            &&& signed && coord.remaining > 0 ==> ended.remaining + 1 == coord.remaining
            &&& !signed ==> ended.remaining == 0
        }),
{
}

/// The coordinator after one whole round: a payload was named and read, all nodes with a
/// connection signed it, and so did the offline node.
pub open spec fn after_whole_round(
    coord: CoordinatorData,
    name: Seq<char>,
    payload: Seq<u8>,
    online: Seq<nat>,
) -> CoordinatorData {
    let signing = after_reading(after_naming(coord, name), Some(payload));
    after_offline(after_replies(signing, Some(online)), true)
}

/// In a round the coordinator hands the nodes the payload that was read, keeps it while it waits
/// for the offline node, and keeps what the nodes answered.
pub proof fn payload_is_kept_through_the_round(
    coord: CoordinatorData,
    name: Seq<char>,
    payload: Seq<u8>,
    online: Seq<nat>,
)
    requires
        name.len() > 0,
    ensures
        after_naming(coord, name).phase is Reading,
        after_reading(after_naming(coord, name), Some(payload)).phase == (PhaseData::Signing {
            payload,
        }),
        after_replies(
            after_reading(after_naming(coord, name), Some(payload)),
            Some(online),
        ).phase == (PhaseData::Waiting { payload, online }),
{
}

/// The coordinator after as many whole rounds as `names` names payloads.
pub open spec fn after_whole_rounds(
    coord: CoordinatorData,
    names: Seq<Seq<char>>,
    payloads: Seq<Seq<u8>>,
    online: Seq<Seq<nat>>,
) -> CoordinatorData
    decreases names.len(),
{
    if names.len() == 0 {
        coord
    } else {
        let last = names.len() - 1;
        after_whole_round(
            after_whole_rounds(coord, names.drop_last(), payloads, online),
            names[last],
            payloads[last],
            online[last],
        )
    }
}

/// Pools of a size last for exactly as many rounds: after fewer the coordinator asks for the next
/// payload, after that many for fresh pools, and it has counted the rounds.
pub proof fn pools_last_for_as_many_rounds_as_they_hold(
    coord: CoordinatorData,
    size: nat,
    names: Seq<Seq<char>>,
    payloads: Seq<Seq<u8>>,
    online: Seq<Seq<nat>>,
)
    requires
        coord.phase is Starting || coord.phase is Reloading && size > 0,
        names.len() <= size,
        forall|i: int| 0 <= i < names.len() ==> (#[trigger] names[i]).len() > 0,
    ensures
        ({
            let after = after_whole_rounds(after_init(coord, size), names, payloads, online);
            &&& after.remaining + names.len() == size
            &&& after.round == coord.round + names.len()
            &&& after.n == coord.n && after.prehashed == coord.prehashed
            &&& after.phase is Naming <==> names.len() < size
            &&& after.phase is Exhausted <==> names.len() == size
        }),
    decreases names.len(),
{
    if names.len() > 0 {
        let earlier = names.drop_last();
        assert forall|i: int| 0 <= i < earlier.len() implies (#[trigger] earlier[i]).len() > 0 by {
            assert(names[i].len() > 0);
        }
        pools_last_for_as_many_rounds_as_they_hold(coord, size, earlier, payloads, online);
        assert(names[names.len() - 1].len() > 0);
    }
}

/// What the coordinator is to do tells what it waits for: each thing to do belongs to one phase,
/// but for loading the pools, which comes at the start and after fresh pools were provided.
pub proof fn task_tells_the_phase(phase: PhaseData)
    ensures
        task_of(phase) == Task::InitNodes <==> phase is Starting || phase is Reloading,
        task_of(phase) == Task::AskForPools <==> phase is Exhausted,
        task_of(phase) == Task::AskForPayload <==> phase is Naming,
        task_of(phase) == Task::ReadPayload <==> phase is Reading,
        task_of(phase) == Task::SignOnline <==> phase is Signing,
        task_of(phase) == Task::AwaitOffline <==> phase is Waiting,
{
}

/// All nodes but the first have a connection, and each is named once.
pub proof fn all_nodes_but_the_first_are_online(n: nat, node: u16)
    requires
        2 <= n <= u16::MAX,
    ensures
        online_ids(n).contains(node) <==> 0 < node < n,
        online_ids(n).no_duplicates(),
        online_ids(n).len() + 1 == n,
{
    let ids = online_ids(n);
    if 0 < node < n {
        assert(ids[node - 1] == node);
    }
    assert forall|i: int, j: int|
        0 <= i < ids.len() && 0 <= j < ids.len() && i != j implies ids[i] != ids[j] by {
        assert(ids[i] == i + 1 && ids[j] == j + 1);
    }
}

/// While the offline node has signed as often as rounds are over, the coordinator looks for the
/// files that the offline node writes next; and their names carry the number of the round.
pub proof fn coordinator_looks_for_what_the_offline_node_writes(
    coord: CoordinatorData,
    offline: OfflineData,
    payload: Seq<u8>,
)
    requires
        offline.sig_counter == coord.round,
    ensures
        expected_files(coord).0 == offline_output(offline, payload).partial_file,
        expected_files(coord).1 == offline_output(offline, payload).ppd_file,
        carries_number(
            expected_files(coord).0,
            "offline_partial_sig_"@,
            coord.round,
            ".msgpack"@,
        ),
        carries_number(expected_files(coord).1, "ppd_"@, coord.round, ".msgpack"@),
{
    offline_files_carry_the_round(coord.round);
}

/// The name of a signature file carries the number of the round.
pub proof fn signature_file_carries_the_round(round: nat)
    ensures
        carries_number(signature_file(round), "signature_"@, round, ".msgpack"@),
{
    numbered_text_carries_number("signature_"@, round, ".msgpack"@);
}

/// Replies are judged one by one: what some nodes replied and then others is what both replied,
/// side by side. A node that answered gives its answer and no error, one that failed its error under
/// its number and no answer.
pub proof fn replies_are_parted_one_by_one<T, E>(
    front: Seq<(u16, Result<T, E>)>,
    back: Seq<(u16, Result<T, E>)>,
    node: u16,
    answer: T,
    error: E,
)
    ensures
        answers(front + back) == answers(front) + answers(back),
        failures(front + back) == failures(front) + failures(back),
        answers(seq![(node, Ok::<T, E>(answer))]) == seq![answer],
        failures(seq![(node, Ok::<T, E>(answer))]) == Seq::<(u16, E)>::empty(),
        answers(seq![(node, Err::<T, E>(error))]) == Seq::<T>::empty(),
        failures(seq![(node, Err::<T, E>(error))]) == seq![(node, error)],
{
    joined_replies(front, back);
    let ok = seq![(node, Ok::<T, E>(answer))];
    let failed = seq![(node, Err::<T, E>(error))];
    assert(ok.drop_last() =~= Seq::empty());
    assert(failed.drop_last() =~= Seq::empty());
    reveal_with_fuel(answers, 2);
    reveal_with_fuel(failures, 2);
    assert(answers(ok) =~= seq![answer]);
    assert(failures(failed) =~= seq![(node, error)]);
}

/// Replies side by side.
proof fn joined_replies<T, E>(front: Seq<(u16, Result<T, E>)>, back: Seq<(u16, Result<T, E>)>)
    ensures
        answers(front + back) == answers(front) + answers(back),
        failures(front + back) == failures(front) + failures(back),
    decreases back.len(),
{
    if back.len() > 0 {
        joined_replies(front, back.drop_last());
        assert((front + back).drop_last() =~= front + back.drop_last());
        assert(answers(front + back) =~= answers(front) + answers(back));
        assert(failures(front + back) =~= failures(front) + failures(back));
    } else {
        assert(front + back =~= front);
        assert(answers(front) + answers(back) =~= answers(front));
        assert(failures(front) + failures(back) =~= failures(front));
    }
}

/// Pools are taken as ready exactly where every node reports one size: where one node fails or two
/// sizes differ they are not.
pub proof fn pools_are_ready_where_all_sizes_agree(
    replies: Seq<(u16, Result<usize, String>)>,
    size: usize,
)
    requires
        replies.len() > 0,
    ensures
        (failures(replies).len() == 0 && all_equal(answers(replies), size)) <==> (forall|i: int|
            0 <= i < replies.len() ==> (#[trigger] replies[i]).1 == Ok::<usize, String>(size)),
{
    if failures(replies).len() == 0 && all_equal(answers(replies), size) {
        without_failures_all_nodes_answer(replies);
        assert forall|i: int| 0 <= i < replies.len() implies (#[trigger] replies[i]).1 == Ok::<
            usize,
            String,
        >(size) by {
            assert(answers(replies)[i] == size);
        }
    }
    if forall|i: int|
        0 <= i < replies.len() ==> (#[trigger] replies[i]).1 == Ok::<usize, String>(size) {
        one_size_throughout(replies, size);
    }
}

/// Replies with one size throughout.
proof fn one_size_throughout(replies: Seq<(u16, Result<usize, String>)>, size: usize)
    requires
        forall|i: int|
            0 <= i < replies.len() ==> (#[trigger] replies[i]).1 == Ok::<usize, String>(size),
    ensures
        failures(replies).len() == 0,
        all_equal(answers(replies), size),
    decreases replies.len(),
{
    if replies.len() > 0 {
        let earlier = replies.drop_last();
        assert forall|i: int| 0 <= i < earlier.len() implies (#[trigger] earlier[i]).1 == Ok::<
            usize,
            String,
        >(size) by {
            assert(replies[i].1 == Ok::<usize, String>(size));
        }
        one_size_throughout(earlier, size);
        assert(replies[replies.len() - 1].1 == Ok::<usize, String>(size));
    }
}

/// A node that has loaded a pool signs as often as the pool is long, with the presignatures of the
/// pool in order, and each time for the payload that it was given.
pub proof fn node_signs_through_the_pool_that_it_loaded(
    node: NodeData,
    pool: Seq<PresignatureData>,
    used: nat,
    payload: Seq<u8>,
)
    requires
        used <= pool.len(),
    ensures
        ({
            let later = node_after_signings(node_with_pool(node, pool), used);
            &&& can_sign(later) <==> used < pool.len()
            &&& later.prehashed == node.prehashed
            &&& used < pool.len() ==> node_partial(later, payload) == partial_value(
                pool[used as int],
                if node.prehashed {
                    be_value(payload) % curve_order()
                } else {
                    be_value(sha256(payload)) % curve_order()
                },
            )
        }),
{
    let loaded = node_with_pool(node, pool);
    if used < pool.len() {
        node_uses_each_presignature_once(loaded, used);
    } else if used > 0 {
        node_uses_each_presignature_once(loaded, (used - 1) as nat);
    }
}

/// Where all nodes report one size the pools are ready with that size. Where one fails the failures
/// are reported, and where none fails but two sizes differ, all sizes are, in the order of the
/// nodes.
pub proof fn init_is_judged_by_all_replies(
    replies: Seq<(u16, Result<usize, String>)>,
    outcome: InitOutcome,
    size: usize,
    i: int,
    j: int,
)
    requires
        replies.len() > 0,
        is_judged(replies, outcome),
        0 <= i < replies.len(),
        0 <= j < replies.len(),
    ensures
        (forall|k: int|
            0 <= k < replies.len() ==> (#[trigger] replies[k]).1 == Ok::<usize, String>(size))
            ==> outcome == InitOutcome::Ready(size),
        replies[i].1 is Err ==> outcome is Failed && outcome->Failed_0@.contains(
            (replies[i].0, replies[i].1->Err_0),
        ),
        replies[i].1 is Ok && replies[j].1 is Ok && replies[i].1 != replies[j].1 ==> !(
        outcome is Ready),
        outcome is Mismatch ==> replies[i].1 == Ok::<usize, String>(outcome->Mismatch_0@[i]),
        outcome is Ready ==> replies[i].1 == Ok::<usize, String>(outcome->Ready_0),
{
    if forall|k: int|
        0 <= k < replies.len() ==> (#[trigger] replies[k]).1 == Ok::<usize, String>(size) {
        one_size_throughout(replies, size);
        without_failures_all_nodes_answer(replies);
        assert(replies[0].1 == Ok::<usize, String>(answers(replies)[0]));
        if outcome is Ready {
            assert(answers(replies)[0] == outcome->Ready_0);
        }
    }
    if replies[i].1 is Err {
        failure_is_reported(replies, i);
        assert(failures(replies).len() > 0);
    }
    if failures(replies).len() == 0 {
        without_failures_all_nodes_answer(replies);
        if outcome is Ready {
            assert(answers(replies)[i] == outcome->Ready_0);
            assert(answers(replies)[j] == outcome->Ready_0);
        }
    }
}

/// A node that fails is among the failures.
proof fn failure_is_reported<T, E>(replies: Seq<(u16, Result<T, E>)>, i: int)
    requires
        0 <= i < replies.len(),
        replies[i].1 is Err,
    ensures
        failures(replies).contains((replies[i].0, replies[i].1->Err_0)),
    decreases replies.len(),
{
    let item = (replies[i].0, replies[i].1->Err_0);
    let all = failures(replies);
    let earlier = failures(replies.drop_last());
    if i == replies.len() - 1 {
        assert(all[all.len() - 1] == item);
    } else {
        assert(replies.drop_last()[i] == replies[i]);
        failure_is_reported(replies.drop_last(), i);
        let k = choose|k: int| 0 <= k < earlier.len() && earlier[k] == item;
        assert(all[k] == item);
    }
}

} // verus!
