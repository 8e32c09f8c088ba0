//! The node that signs without a connection: it takes payloads from files and leaves its partial
//! signatures in files.

use crate::bytes::be_value;
use crate::curve::curve_order;
use crate::fifo_queue::FifoQueue;
use crate::initialization::public_parts;
use crate::message::{message_to_sign, message_value, sha256};
use crate::msgpack::presignature_data;
use crate::ppd_serializer::StoredPresignaturePublicData;
use crate::signing::{partial_value, PartialSignature, Presignature, PresignatureData, PublicData};
use crate::text::{
    carries_number, decimal, numbered, numbered_text_carries_number, numbered_text_is_injective,
};
use vstd::prelude::*;

verus! {

/// The name of the file with the offline node's partial signature for a round.
pub open spec fn offline_partial_file(round: nat) -> Seq<char> {
    "offline_partial_sig_"@ + decimal(round) + ".msgpack"@
}

/// The name of the file with the public presignature data for a round.
pub open spec fn ppd_file(round: nat) -> Seq<char> {
    "ppd_"@ + decimal(round) + ".msgpack"@
}

/// The name of the file with the offline node's partial signature for a round.
pub fn offline_partial_file_name(round: u64) -> (name: String)
    ensures
        name@ == offline_partial_file(round as nat),
{
    numbered("offline_partial_sig_", round, ".msgpack")
}

/// The name of the file with the public presignature data for a round.
pub fn ppd_file_name(round: u64) -> (name: String)
    ensures
        name@ == ppd_file(round as nat),
{
    numbered("ppd_", round, ".msgpack")
}

/// No two files that the offline node writes share a name.
pub proof fn offline_files_are_distinct(i: nat, j: nat)
    ensures
        offline_partial_file(i) == offline_partial_file(j) ==> i == j,
        ppd_file(i) == ppd_file(j) ==> i == j,
        offline_partial_file(i) != ppd_file(j),
{
    let tail = ".msgpack"@;
    if offline_partial_file(i) == offline_partial_file(j) {
        numbered_text_is_injective("offline_partial_sig_"@, i, j, tail);
    }
    if ppd_file(i) == ppd_file(j) {
        numbered_text_is_injective("ppd_"@, i, j, tail);
    }
    reveal_strlit("offline_partial_sig_");
    reveal_strlit("ppd_");
    assert(offline_partial_file(i)[0] == 'o');
    assert(ppd_file(j)[0] == 'p');
}

/// What the offline node holds.
#[verifier::ext_equal]
pub struct OfflineData {
    pub presigs: Seq<PresignatureData>,
    pub public: Seq<PublicData>,
    pub sig_counter: nat,
    pub prehashed: bool,
}

/// What the offline node leaves for one payload.
pub struct OfflineOutputData {
    pub partial: nat,
    pub public: PublicData,
    pub partial_file: Seq<char>,
    pub ppd_file: Seq<char>,
}

/// What the offline node leaves for a payload.
pub open spec fn offline_output(node: OfflineData, payload: Seq<u8>) -> OfflineOutputData {
    OfflineOutputData {
        partial: partial_value(node.presigs[0], message_value(payload, node.prehashed)),
        public: node.public[0],
        partial_file: offline_partial_file(node.sig_counter),
        ppd_file: ppd_file(node.sig_counter),
    }
}

/// An offline node with freshly loaded pools, which has signed nothing.
pub open spec fn fresh_offline(
    presigs: Seq<PresignatureData>,
    public: Seq<PublicData>,
    prehashed: bool,
) -> OfflineData {
    OfflineData { presigs, public, sig_counter: 0, prehashed }
}

/// The offline node with freshly loaded pools in the place of the old ones.
pub open spec fn reloaded(
    node: OfflineData,
    presigs: Seq<PresignatureData>,
    public: Seq<PublicData>,
) -> OfflineData {
    OfflineData { presigs, public, ..node }
}

/// The offline node after one more partial signature.
pub open spec fn after_signing(node: OfflineData) -> OfflineData {
    OfflineData {
        presigs: node.presigs.drop_first(),
        public: node.public.drop_first(),
        sig_counter: node.sig_counter + 1,
        prehashed: node.prehashed,
    }
}

/// The offline node after `count` more partial signatures.
pub open spec fn after_signings(node: OfflineData, count: nat) -> OfflineData
    decreases count,
{
    if count == 0 {
        node
    } else {
        after_signing(after_signings(node, (count - 1) as nat))
    }
}

/// The offline node goes through its two pools side by side and numbers what it does: with each
/// partial signature both pools lose their first item and the counter grows by one.
pub proof fn offline_node_counts_what_it_uses(node: OfflineData, count: nat)
    requires
        node.presigs.len() == node.public.len(),
        count <= node.presigs.len(),
    ensures
        after_signings(node, count) == (OfflineData {
            presigs: node.presigs.skip(count as int),
            public: node.public.skip(count as int),
            sig_counter: node.sig_counter + count,
            prehashed: node.prehashed,
        }),
    decreases count,
{
    if count > 0 {
        offline_node_counts_what_it_uses(node, (count - 1) as nat);
        assert(node.presigs.skip(count - 1).drop_first() =~= node.presigs.skip(count as int));
        assert(node.public.skip(count - 1).drop_first() =~= node.public.skip(count as int));
    } else {
        assert(node.presigs.skip(0) =~= node.presigs);
        assert(node.public.skip(0) =~= node.public);
    }
}

/// Let an offline node have freshly loaded pools. What it leaves for the payload after `used` others
/// comes from the presignature at place `used` and the public data at the same place, and its files
/// have a number that is `used` more than that of the first.
pub proof fn offline_output_comes_from_one_place(
    node: OfflineData,
    presigs: Seq<PresignatureData>,
    public: Seq<PublicData>,
    used: nat,
    payload: Seq<u8>,
)
    requires
        presigs.len() == public.len(),
        used < presigs.len(),
    ensures
        ({
            let output = offline_output(
                after_signings(reloaded(node, presigs, public), used),
                payload,
            );
            let message = if node.prehashed {
                be_value(payload) % curve_order()
            } else {
                be_value(sha256(payload)) % curve_order()
            };
            &&& output.partial == partial_value(presigs[used as int], message)
            &&& output.public == public[used as int]
            &&& carries_number(
                output.partial_file,
                "offline_partial_sig_"@,
                node.sig_counter + used,
                ".msgpack"@,
            )
            &&& carries_number(output.ppd_file, "ppd_"@, node.sig_counter + used, ".msgpack"@)
        }),
{
    offline_node_counts_what_it_uses(reloaded(node, presigs, public), used);
    offline_files_carry_the_round(node.sig_counter + used);
}

/// The names of the offline node's files carry the number of the round.
pub proof fn offline_files_carry_the_round(round: nat)
    ensures
        carries_number(
            offline_partial_file(round),
            "offline_partial_sig_"@,
            round,
            ".msgpack"@,
        ),
        carries_number(ppd_file(round), "ppd_"@, round, ".msgpack"@),
{
    numbered_text_carries_number("offline_partial_sig_"@, round, ".msgpack"@);
    numbered_text_carries_number("ppd_"@, round, ".msgpack"@);
}

/// Whether loaded or reloaded, the pools of the offline node are those that were read; its counter
/// and the way in which it takes payloads stay.
pub proof fn reloading_keeps_the_counter(
    node: OfflineData,
    presigs: Seq<PresignatureData>,
    public: Seq<PublicData>,
)
    ensures
        reloaded(node, presigs, public).presigs == presigs,
        reloaded(node, presigs, public).public == public,
        reloaded(node, presigs, public).sig_counter == node.sig_counter,
        reloaded(node, presigs, public).prehashed == node.prehashed,
{
}

/// What the offline node leaves for one payload: a partial signature and the public data that
/// belongs to it, each with the name of its file.
pub struct OfflineOutput {
    pub partial: PartialSignature,
    pub partial_file: String,
    pub ppd: StoredPresignaturePublicData,
    pub ppd_file: String,
}

impl View for OfflineOutput {
    type V = OfflineOutputData;

    open spec fn view(&self) -> OfflineOutputData {
        OfflineOutputData {
            partial: self.partial@,
            public: self.ppd.public@,
            partial_file: self.partial_file@,
            ppd_file: self.ppd_file@,
        }
    }
}

/// Presignatures and the public data that belongs to them, in the same order.
struct Pools {
    presigs: FifoQueue<Presignature>,
    public: FifoQueue<StoredPresignaturePublicData>,
}

/// The node that signs without a connection.
pub struct OfflineNode {
    pools: Pools,
    sig_counter: u64,
    prehashed: bool,
}

impl View for OfflineNode {
    type V = OfflineData;

    closed spec fn view(&self) -> OfflineData {
        OfflineData {
            presigs: presignature_data(self.pools.presigs@),
            public: public_parts(self.pools.public@),
            sig_counter: self.sig_counter as nat,
            prehashed: self.prehashed,
        }
    }
}

impl OfflineNode {
    #[verifier::type_invariant]
    closed spec fn pools_are_as_long(&self) -> bool {
        self.pools.presigs@.len() == self.pools.public@.len()
    }

    /// A node with freshly loaded pools, which has signed nothing.
    pub fn new(
        presig_pool: FifoQueue<Presignature>,
        ppd_pool: FifoQueue<StoredPresignaturePublicData>,
        prehashed: bool,
    ) -> (node: Self)
        requires
            presig_pool@.len() == ppd_pool@.len(),
        ensures
            node@ == (OfflineData {
                presigs: presignature_data(presig_pool@),
                public: public_parts(ppd_pool@),
                sig_counter: 0,
                prehashed,
            }),
            node@ == fresh_offline(
                presignature_data(presig_pool@),
                public_parts(ppd_pool@),
                prehashed,
            ),
    {
        OfflineNode {
            pools: Pools { presigs: presig_pool, public: ppd_pool },
            sig_counter: 0,
            prehashed,
        }
    }

    /// Puts freshly loaded pools in the place of the old ones. The counter goes on.
    pub fn reload(
        &mut self,
        presig_pool: FifoQueue<Presignature>,
        ppd_pool: FifoQueue<StoredPresignaturePublicData>,
    )
        requires
            presig_pool@.len() == ppd_pool@.len(),
        ensures
            final(self)@ == (OfflineData {
                presigs: presignature_data(presig_pool@),
                public: public_parts(ppd_pool@),
                ..old(self)@
            }),
            final(self)@ == reloaded(
                old(self)@,
                presignature_data(presig_pool@),
                public_parts(ppd_pool@),
            ),
    {
        self.pools = Pools { presigs: presig_pool, public: ppd_pool };
    }

    /// How many payloads can be signed before the pools have to be loaded again.
    pub fn remaining(&self) -> (remaining: usize)
        ensures
            remaining == self@.presigs.len(),
            remaining == self@.public.len(),
    {
        proof {
            use_type_invariant(self);
        }
        self.pools.presigs.len()
    }

    /// How many payloads were signed.
    pub fn sig_counter(&self) -> (sig_counter: u64)
        ensures
            sig_counter == self@.sig_counter,
    {
        self.sig_counter
    }

    /// Signs a payload with the next presignature.
    pub fn sign(&mut self, payload: &[u8]) -> (output: OfflineOutput)
        requires
            old(self)@.presigs.len() > 0,
            old(self)@.sig_counter < u64::MAX,
        ensures
            final(self)@ == after_signing(old(self)@),
            output.partial@ == partial_value(
                old(self)@.presigs[0],
                message_value(payload@, old(self)@.prehashed),
            ),
            output.ppd.public@ == old(self)@.public[0],
            output.partial_file@ == offline_partial_file(old(self)@.sig_counter),
            output.ppd_file@ == ppd_file(old(self)@.sig_counter),
            output@ == offline_output(old(self)@, payload@),
    {
        proof {
            use_type_invariant(&*self);
        }
        let ghost before = self@;
        let message = message_to_sign(payload, self.prehashed);
        let mut pools = Pools {
            presigs: FifoQueue::with_capacity(0),
            public: FifoQueue::with_capacity(0),
        };
        core::mem::swap(&mut self.pools, &mut pools);
        let presig = pools.presigs.pop_next().unwrap();
        let ppd = pools.public.pop_next().unwrap();
        self.pools = pools;
        let round: u64 = self.sig_counter;
        self.sig_counter = round + 1;
        proof {
            assert(self@ =~= after_signing(before));
        }
        OfflineOutput {
            partial: presig.issue_partial_signature(&message),
            partial_file: offline_partial_file_name(round),
            ppd,
            ppd_file: ppd_file_name(round),
        }
    }
}

} // verus!
