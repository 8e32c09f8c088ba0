//! What initialization decides and hands out: whether stored key shares can be used again, and
//! how the presignatures of all rounds are dealt to the nodes.

use crate::curve::Point;
use crate::fifo_queue::FifoQueue;
use crate::hex_text::{hex_encode, hex_text};
use crate::ppd_serializer::StoredPresignaturePublicData;
use crate::signing::{Presignature, PresignatureData, PresignaturePublicData, PublicData};
use crate::msgpack::presignature_data;
use crate::text::{
    carries_number, decimal, ends_with, numbered, numbered_text_carries_number,
    numbered_text_is_injective, push_decimal, starts_with,
};
use vstd::prelude::*;

verus! {

/// The folder with the key shares.
pub const KEY_SHARES_DIR: &'static str = "key_shares";

/// The folder with the shared public key.
pub const PUBLIC_KEY_DIR: &'static str = "public_key";

/// The file with the shared public key.
pub const PUBLIC_KEY_FILE: &'static str = "shared_public_key.hex";

/// The file with a node's presignatures.
pub const PRESIG_POOL_FILE: &'static str = "presig_pool.msgpack";

/// The file with the public data of the presignatures.
pub const PPD_POOL_FILE: &'static str = "ppd_pool.msgpack";

/// The name of the file with the key share of party `i`.
pub open spec fn key_share_file(i: nat) -> Seq<char> {
    "key_share_"@ + decimal(i) + ".msgpack"@
}

/// Whether a file of this name counts as a key share.
pub open spec fn names_key_share(name: Seq<char>) -> bool {
    "key_share_"@.is_prefix_of(name) && ".msgpack"@.is_suffix_of(name)
}

/// The name of the file with the key share of party `i`.
pub fn key_share_file_name(i: u64) -> (name: String)
    ensures
        name@ == key_share_file(i as nat),
{
    numbered("key_share_", i, ".msgpack")
}

/// Whether a file of this name counts as a key share.
pub fn is_key_share_file_name(name: &str) -> (counts: bool)
    ensures
        counts == names_key_share(name@),
{
    starts_with(name, "key_share_") && ends_with(name, ".msgpack")
}

/// Every key share that is stored counts as one, and no two of them share a file.
pub proof fn key_share_files_are_counted_and_distinct(i: nat, j: nat)
    ensures
        names_key_share(key_share_file(i)),
        key_share_file(i) == key_share_file(j) ==> i == j,
{
    let (head, tail) = ("key_share_"@, ".msgpack"@);
    let name = key_share_file(i);
    assert(name.subrange(0, head.len() as int) =~= head);
    assert(name.subrange(name.len() - tail.len(), name.len() as int) =~= tail);
    if key_share_file(i) == key_share_file(j) {
        numbered_text_is_injective(head, i, j, tail);
    }
}

/// An entry of a folder; the name is `None` where it is no text.
pub struct FolderEntry {
    pub is_file: bool,
    pub name: Option<String>,
}

/// Whether a folder entry is a key share.
pub open spec fn is_key_share(entry: FolderEntry) -> bool {
    entry.is_file && (entry.name matches Some(name) && names_key_share(name@))
}

/// How many key shares there are among the entries of a folder.
pub open spec fn key_share_count(entries: Seq<FolderEntry>) -> nat {
    entries.filter(|e: FolderEntry| is_key_share(e)).len()
}

/// Counts the key shares among the entries of a folder.
pub fn key_share_file_count(entries: &Vec<FolderEntry>) -> (count: usize)
    ensures
        count == entries@.filter(|e: FolderEntry| is_key_share(e)).len(),
        count == key_share_count(entries@),
{
    let ghost counts = |e: FolderEntry| is_key_share(e);
    let mut count: usize = 0;
    let mut i: usize = 0;
    proof {
        assert(entries@.take(0) =~= Seq::empty());
        reveal(Seq::filter);
    }
    while i < entries.len()
        invariant
            i <= entries@.len(),
            count <= i,
            counts == (|e: FolderEntry| is_key_share(e)),
            count == entries@.take(i as int).filter(counts).len(),
        decreases entries@.len() - i,
    {
        let entry = &entries[i];
        proof {
            reveal(Seq::filter);
            assert(entries@.take(i + 1).drop_last() =~= entries@.take(i as int));
            assert(entries@.take(i + 1).last() == entries@[i as int]);
        }
        if entry.is_file {
            if let Some(name) = &entry.name {
                if is_key_share_file_name(name.as_str()) {
                    count = count + 1;
                }
            }
        }
        i = i + 1;
    }
    proof {
        assert(entries@.take(entries@.len() as int) =~= entries@);
    }
    count
}

/// What came of reading one key share, each error with the path of the file.
pub enum KeyShareFile<S> {
    Missing { path: String },
    Unreadable { path: String, error: String },
    Undecodable { path: String, error: String },
    Share(S),
}

/// Why stored key shares cannot be used again.
pub enum LoadError {
    Count { existing: usize, dir: String, n: u16 },
    Missing { path: String },
    Unreadable { path: String, error: String },
    Undecodable { path: String, error: String },
}

/// The text of a load error.
pub open spec fn load_error_text(error: LoadError) -> Seq<char> {
    match error {
        LoadError::Count { existing, dir, n } => "found "@ + decimal(existing as nat)
            + " key shares in "@ + dir@ + ", expected "@ + decimal(n as nat),
        LoadError::Missing { path } => "missing expected key share file "@ + path@,
        LoadError::Unreadable { path, error } => "failed reading "@ + path@ + ": "@ + error@,
        LoadError::Undecodable { path, error } => "failed deserializing "@ + path@ + ": "@ + error@,
    }
}

impl LoadError {
    /// The text of the error.
    pub fn message(&self) -> (text: String)
        ensures
            text@ == load_error_text(*self),
    {
        match self {
            LoadError::Count { existing, dir, n } => {
                let mut text = numbered("found ", *existing as u64, " key shares in ");
                text.append(dir.as_str());
                text.append(", expected ");
                push_decimal(&mut text, *n as u64);
                text
            },
            LoadError::Missing { path } => {
                let mut text = String::from_str("missing expected key share file ");
                text.append(path.as_str());
                text
            },
            LoadError::Unreadable { path, error } => failed("failed reading ", path, error),
            LoadError::Undecodable { path, error } => failed("failed deserializing ", path, error),
        }
    }
}

/// `what`, the path, a colon and the error.
fn failed(what: &str, path: &String, error: &String) -> (text: String)
    ensures
        text@ == what@ + path@ + ": "@ + error@,
{
    let mut text = String::from_str(what);
    text.append(path.as_str());
    text.append(": ");
    text.append(error.as_str());
    text
}

/// The error that a file gives, where it gives one.
pub open spec fn file_error<S>(file: KeyShareFile<S>) -> Option<LoadError> {
    match file {
        KeyShareFile::Missing { path } => Some(LoadError::Missing { path }),
        KeyShareFile::Unreadable { path, error } => Some(LoadError::Unreadable { path, error }),
        KeyShareFile::Undecodable { path, error } => Some(LoadError::Undecodable { path, error }),
        KeyShareFile::Share(_) => None,
    }
}

/// Takes exactly `n` key shares in index order. `existing` is how many key shares the folder `dir`
/// was found to hold, and `files` is what came of reading the key shares from the first on. The
/// error is that of the first file that gives one, unless the count is wrong already.
pub fn load_key_shares<S>(
    n: u16,
    existing: usize,
    dir: String,
    files: Vec<KeyShareFile<S>>,
) -> (loaded: Result<Vec<S>, LoadError>)
    requires
        existing == n ==> files@.len() == n,
    ensures
        existing != n ==> loaded == Err::<Vec<S>, _>(LoadError::Count { existing, dir, n }),
        existing == n ==> match loaded {
            Ok(shares) => shares@.len() == n && forall|i: int|
                0 <= i < n ==> #[trigger] files@[i] == KeyShareFile::Share(shares@[i]),
            Err(error) => exists|i: int|
                0 <= i < n && file_error(#[trigger] files@[i]) == Some(error) && forall|j: int|
                    0 <= j < i ==> files@[j] is Share,
        },
        is_loaded(
            n as nat,
            existing,
            dir@,
            files@,
            match loaded {
                Ok(shares) => Ok(shares@),
                Err(error) => Err(error),
            },
        ),
{
    if existing != n as usize {
        return Err(LoadError::Count { existing, dir, n });
    }
    let mut shares: Vec<S> = Vec::new();
    for file in it: files
        invariant
            it.seq() == files@,
            existing == n,
            files@.len() == n,
            shares@.len() == it.index(),
            forall|i: int|
                0 <= i < it.index() ==> #[trigger] files@[i] == KeyShareFile::Share(shares@[i]),
    {
        let ghost i = it.index();
        assert(file == files@[i]);
        assert(forall|j: int| 0 <= j < i ==> files@[j] is Share);
        match file {
            KeyShareFile::Missing { path } => {
                assert(file_error(files@[i]) == Some(LoadError::Missing { path }));
                return Err(LoadError::Missing { path });
            },
            KeyShareFile::Unreadable { path, error } => {
                assert(file_error(files@[i]) == Some(LoadError::Unreadable { path, error }));
                return Err(LoadError::Unreadable { path, error });
            },
            KeyShareFile::Undecodable { path, error } => {
                assert(file_error(files@[i]) == Some(LoadError::Undecodable { path, error }));
                return Err(LoadError::Undecodable { path, error });
            },
            KeyShareFile::Share(share) => {
                shares.push(share);
            },
        }
    }
    Ok(shares)
}

/// What initialization does about key shares.
pub enum KeySharePlan<S> {
    /// There is no folder: generate key shares.
    Generate,
    /// The folder holds what is needed: use it again.
    Reuse(Vec<S>),
    /// The folder cannot be used: remove it, then generate key shares.
    Replace(LoadError),
}

/// What is done about key shares.
pub open spec fn key_share_plan<S>(loaded: Option<Result<Vec<S>, LoadError>>) -> KeySharePlan<S> {
    match loaded {
        None => KeySharePlan::Generate,
        Some(Ok(shares)) => KeySharePlan::Reuse(shares),
        Some(Err(reason)) => KeySharePlan::Replace(reason),
    }
}

/// Whether stored key shares were loaded as they should: `existing` of them were found in `dir`,
/// `files` came of reading them, and `loaded` is the answer.
pub open spec fn is_loaded<S>(
    n: nat,
    existing: usize,
    dir: Seq<char>,
    files: Seq<KeyShareFile<S>>,
    loaded: Result<Seq<S>, LoadError>,
) -> bool {
    if existing != n {
        loaded matches Err(LoadError::Count { existing: e, dir: d, n: m }) && e == existing && d@
            == dir && m == n
    } else {
        match loaded {
            Ok(shares) => shares.len() == n && forall|i: int|
                0 <= i < n ==> #[trigger] files[i] == KeyShareFile::Share(shares[i]),
            Err(error) => exists|i: int|
                0 <= i < n && file_error(#[trigger] files[i]) == Some(error) && forall|j: int|
                    0 <= j < i ==> files[j] is Share,
        }
    }
}

/// Decides what is done about key shares. `loaded` is `None` where there is no folder, else what
/// came of loading it.
pub fn initialize<S>(loaded: Option<Result<Vec<S>, LoadError>>) -> (plan: KeySharePlan<S>)
    ensures
        plan == match loaded {
            None => KeySharePlan::<S>::Generate,
            Some(Ok(shares)) => KeySharePlan::Reuse(shares),
            Some(Err(reason)) => KeySharePlan::Replace(reason),
        },
        plan == key_share_plan(loaded),
{
    match loaded {
        None => KeySharePlan::Generate,
        Some(Ok(shares)) => KeySharePlan::Reuse(shares),
        Some(Err(reason)) => KeySharePlan::Replace(reason),
    }
}

/// The text of the public key file: the key in compressed encoding, in hexadecimal, and a line
/// end.
pub open spec fn public_key_line(public_key: Seq<u8>) -> Seq<char> {
    hex_text(public_key).push('\n')
}

/// The text of the public key file.
pub fn shared_public_key_text(public_key: &Point) -> (text: String)
    ensures
        text@ == public_key_line(public_key@),
{
    let mut text = hex_encode(&public_key.to_bytes());
    text.append("\n");
    proof {
        reveal_strlit("\n");
        assert(text@ =~= public_key_line(public_key@));
    }
    text
}

/// The parties of a run, `0` to `n - 1`.
pub open spec fn parties_of(n: nat) -> Seq<u16> {
    Seq::new(n, |i: int| i as u16)
}

/// The parties of a run, `0` to `n - 1`.
pub fn participants(n: u16) -> (parties: Vec<u16>)
    ensures
        parties@ == Seq::new(n as nat, |i: int| i as u16),
        parties@ == parties_of(n as nat),
{
    let mut parties: Vec<u16> = Vec::new();
    let mut i: u16 = 0;
    while i < n
        invariant
            i <= n,
            parties@ == Seq::new(i as nat, |j: int| j as u16),
        decreases n - i,
    {
        parties.push(i);
        i = i + 1;
        proof {
            assert(parties@ =~= Seq::new(i as nat, |j: int| j as u16));
        }
    }
    parties
}

/// The identifier of the run that makes the `j`-th presignature of every node.
pub open spec fn presig_run(j: nat) -> Seq<char> {
    "init-presig-"@ + decimal(j)
}

/// The identifier of the run that makes the `j`-th presignature of every node.
pub fn presig_execution_id(j: u16) -> (id: String)
    ensures
        id@ == presig_run(j as nat),
{
    let id = numbered("init-presig-", j as u64, "");
    proof {
        reveal_strlit("");
        assert(id@ =~= presig_run(j as nat));
    }
    id
}

/// No two runs for presignatures share an identifier.
pub proof fn presig_runs_are_distinct(i: nat, j: nat)
    requires
        presig_run(i) == presig_run(j),
    ensures
        i == j,
{
    let head = "init-presig-"@;
    let none = Seq::<char>::empty();
    assert(presig_run(i) =~= head + decimal(i) + none);
    assert(presig_run(j) =~= head + decimal(j) + none);
    numbered_text_is_injective(head, i, j, none);
}

/// The name of the folder of a node.
pub open spec fn node_dir(node: nat) -> Seq<char> {
    "node_"@ + decimal(node)
}

/// The name of the folder of a node.
pub fn node_dir_name(node: u16) -> (name: String)
    ensures
        name@ == node_dir(node as nat),
{
    let name = numbered("node_", node as u64, "");
    proof {
        reveal_strlit("");
        assert(name@ =~= node_dir(node as nat));
    }
    name
}

/// No two nodes share a folder.
pub proof fn node_dirs_are_distinct(i: nat, j: nat)
    requires
        node_dir(i) == node_dir(j),
    ensures
        i == j,
{
    let head = "node_"@;
    let none = Seq::<char>::empty();
    assert(node_dir(i) =~= head + decimal(i) + none);
    assert(node_dir(j) =~= head + decimal(j) + none);
    numbered_text_is_injective(head, i, j, none);
}

/// What one round gives: for each party its presignature and the public part.
pub type Round = Seq<(PresignatureData, PublicData)>;

/// What the pools of all nodes hold.
#[verifier::ext_equal]
pub struct PoolsData {
    pub presigs: Seq<Seq<PresignatureData>>,
    pub public: Seq<PublicData>,
}

/// The pools of `n` nodes before the first round.
pub open spec fn empty_pools(n: nat) -> PoolsData {
    PoolsData { presigs: Seq::new(n, |i: int| Seq::empty()), public: Seq::empty() }
}

/// The pools after one more round: each party's presignature goes into the pool of its node, and
/// the public part of the first party into the shared pool.
pub open spec fn with_round(pools: PoolsData, round: Round) -> PoolsData {
    PoolsData {
        presigs: Seq::new(
            pools.presigs.len(),
            |i: int|
                if i < round.len() {
                    pools.presigs[i].push(round[i].0)
                } else {
                    pools.presigs[i]
                },
        ),
        public: if round.len() > 0 {
            pools.public.push(round[0].1)
        } else {
            pools.public
        },
    }
}

/// The pools of `n` nodes after the given rounds.
pub open spec fn after_rounds(n: nat, rounds: Seq<Round>) -> PoolsData
    decreases rounds.len(),
{
    if rounds.len() == 0 {
        empty_pools(n)
    } else {
        with_round(after_rounds(n, rounds.drop_last()), rounds.last())
    }
}

/// After rounds with all `n` parties every pool is as long as there were rounds, and holds at
/// each place what the round of that place gave: all nodes take the shares of one presignature
/// together, and with it the public part that belongs to it.
pub proof fn pools_run_in_lock_step(n: nat, rounds: Seq<Round>)
    requires
        n > 0,
        forall|j: int| 0 <= j < rounds.len() ==> (#[trigger] rounds[j]).len() == n,
    ensures
        after_rounds(n, rounds).presigs.len() == n,
        after_rounds(n, rounds).public.len() == rounds.len(),
        forall|i: int|
            0 <= i < n ==> (#[trigger] after_rounds(n, rounds).presigs[i]).len() == rounds.len(),
        forall|i: int, j: int|
            0 <= i < n && 0 <= j < rounds.len() ==> #[trigger] after_rounds(n, rounds).presigs[i][j]
                == rounds[j][i].0,
        forall|j: int|
            0 <= j < rounds.len() ==> #[trigger] after_rounds(n, rounds).public[j] == rounds[j][0].1,
    decreases rounds.len(),
{
    if rounds.len() > 0 {
        let earlier = rounds.drop_last();
        assert forall|j: int| 0 <= j < earlier.len() implies (#[trigger] earlier[j]).len() == n by {
            assert(rounds[j].len() == n);
        }
        pools_run_in_lock_step(n, earlier);
        assert(rounds[rounds.len() - 1].len() == n);
    }
}

/// What a round holds.
pub open spec fn round_data(round: Seq<(Presignature, PresignaturePublicData)>) -> Round {
    round.map_values(|p: (Presignature, PresignaturePublicData)| (p.0@, p.1@))
}

/// What stored public data holds, in order.
pub open spec fn public_parts(stored: Seq<StoredPresignaturePublicData>) -> Seq<PublicData> {
    stored.map_values(|s: StoredPresignaturePublicData| s.public@)
}

/// The pool of a node.
pub open spec fn pool_of(pools: PoolsData, node: int) -> Seq<PresignatureData> {
    pools.presigs[node]
}

/// What is handed out to the nodes after rounds with all `n` parties: the pool of a node holds its
/// own share of every round, in the order of the rounds, and no share of another node.
pub proof fn each_node_gets_its_own_shares(n: nat, rounds: Seq<Round>, node: int, j: int)
    requires
        0 <= node < n,
        0 <= j < rounds.len(),
        forall|j: int| 0 <= j < rounds.len() ==> (#[trigger] rounds[j]).len() == n,
    ensures
        pool_of(after_rounds(n, rounds), node).len() == rounds.len(),
        pool_of(after_rounds(n, rounds), node)[j] == rounds[j][node].0,
        after_rounds(n, rounds).public[j] == rounds[j][0].1,
{
    pools_run_in_lock_step(n, rounds);
}

/// The pools that are filled for all nodes.
pub struct PresigPools {
    presig_pools: Vec<FifoQueue<Presignature>>,
    ppd_pool: FifoQueue<StoredPresignaturePublicData>,
}

impl View for PresigPools {
    type V = PoolsData;

    closed spec fn view(&self) -> PoolsData {
        PoolsData {
            presigs: self.presig_pools@.map_values(
                |q: FifoQueue<Presignature>| presignature_data(q@),
            ),
            public: public_parts(self.ppd_pool@),
        }
    }
}

impl PresigPools {
    /// Empty pools for `n` nodes, with room for `k` presignatures each.
    pub fn new(n: u16, k: u16) -> (pools: Self)
        ensures
            pools@ == empty_pools(n as nat),
    {
        let mut presig_pools: Vec<FifoQueue<Presignature>> = Vec::new();
        let mut i: u16 = 0;
        while i < n
            invariant
                i <= n,
                presig_pools@.len() == i,
                forall|j: int| 0 <= j < i ==> (#[trigger] presig_pools@[j])@.len() == 0,
            decreases n - i,
        {
            presig_pools.push(FifoQueue::with_capacity(k as usize));
            i = i + 1;
        }
        let pools = PresigPools { presig_pools, ppd_pool: FifoQueue::with_capacity(k as usize) };
        proof {
            assert(pools@.presigs.len() == n);
            assert forall|j: int| 0 <= j < n implies #[trigger] pools@.presigs[j] == Seq::<
                PresignatureData,
            >::empty() by {
                assert(presig_pools@[j]@.len() == 0);
                assert(pools@.presigs[j] =~= Seq::<PresignatureData>::empty());
            }
            assert(pools@ =~= empty_pools(n as nat));
        }
        pools
    }

    /// How many nodes have a pool.
    pub fn nodes(&self) -> (nodes: usize)
        ensures
            nodes == self@.presigs.len(),
    {
        self.presig_pools.len()
    }

    /// Deals out what one round gave, the presignature of party `i` standing at place `i`.
    pub fn add_round(&mut self, round: Vec<(Presignature, PresignaturePublicData)>)
        requires
            round@.len() <= old(self)@.presigs.len(),
        ensures
            final(self)@ == with_round(old(self)@, round_data(round@)),
    {
        let ghost before = *self;
        let nodes: usize = self.presig_pools.len();
        let mut i: usize = 0;
        for pair in it: round
            invariant
                it.seq() == round@,
                i == it.index(),
                round@.len() <= nodes,
                nodes == before.presig_pools@.len(),
                self.presig_pools@.len() == before.presig_pools@.len(),
                forall|j: int|
                    0 <= j < before.presig_pools@.len() ==> (#[trigger] self.presig_pools@[j])@
                        == if j < i {
                        before.presig_pools@[j]@.push(round@[j].0)
                    } else {
                        before.presig_pools@[j]@
                    },
                i == 0 ==> self.ppd_pool@ == before.ppd_pool@,
                i > 0 ==> self.ppd_pool@ == before.ppd_pool@.push(
                    StoredPresignaturePublicData { public: round@[0].1 },
                ),
        {
            let (presig, public) = pair;
            assert(pair == round@[i as int]);
            self.presig_pools[i].push(presig);
            if i == 0 {
                self.ppd_pool.push(StoredPresignaturePublicData { public });
            }
            i = i + 1;
        }
        proof {
            let after = with_round(before@, round_data(round@));
            assert forall|j: int| 0 <= j < before.presig_pools@.len() implies (
            #[trigger] self@.presigs[j]) == after.presigs[j] by {
                assert(self.presig_pools@[j]@ == if j < round@.len() {
                    before.presig_pools@[j]@.push(round@[j].0)
                } else {
                    before.presig_pools@[j]@
                });
                assert(self@.presigs[j] =~= after.presigs[j]);
            }
            assert(self@.presigs =~= after.presigs);
            assert(self@.public =~= after.public);
        }
    }

    /// The pool of a node.
    pub fn presig_pool(&self, node: usize) -> (pool: &FifoQueue<Presignature>)
        requires
            node < self@.presigs.len(),
        ensures
            presignature_data(pool@) == self@.presigs[node as int],
            presignature_data(pool@) == pool_of(self@, node as int),
    {
        &self.presig_pools[node]
    }

    /// The pool of public parts.
    pub fn into_ppd_pool(self) -> (pool: FifoQueue<StoredPresignaturePublicData>)
        ensures
            public_parts(pool@) == self@.public,
    {
        self.ppd_pool
    }
}

/// Whether `rounds` may have come of `run`, called once for each of them in order, with the number
/// and the identifier of the round.
pub open spec fn came_of<F: Fn(u16, String) -> Vec<(Presignature, PresignaturePublicData)>>(
    run: F,
    rounds: Seq<Round>,
) -> bool {
    forall|j: int| 0 <= j < rounds.len() ==> round_came_of(run, j, #[trigger] rounds[j])
}

/// Whether `round` may have come of `run`, called for round `j`.
pub open spec fn round_came_of<F: Fn(u16, String) -> Vec<(Presignature, PresignaturePublicData)>>(
    run: F,
    j: int,
    round: Round,
) -> bool {
    exists|id: String, made: Vec<(Presignature, PresignaturePublicData)>|
        id@ == presig_run(j as nat) && #[trigger] call_ensures(run, (j as u16, id), made) && round
            == round_data(made@)
}

/// Fills the pools of `n` nodes with `k` presignatures each. `run` has all parties make one
/// presignature; it is called once for each round, under an identifier that no other round has.
pub fn regenerate_presignatures<F: Fn(u16, String) -> Vec<(Presignature, PresignaturePublicData)>>(
    n: u16,
    k: u16,
    run: F,
) -> (pools: PresigPools)
    requires
        forall|j: u16, id: String| #[trigger] call_requires(run, (j, id)),
        forall|j: u16, id: String, made: Vec<(Presignature, PresignaturePublicData)>| #[trigger]
            call_ensures(run, (j, id), made) ==> made@.len() == n,
    ensures
        exists|rounds: Seq<Round>|
            rounds.len() == k && #[trigger] came_of(run, rounds) && pools@ == after_rounds(
                n as nat,
                rounds,
            ),
        pools@.presigs.len() == n,
        forall|i: int| 0 <= i < n ==> (#[trigger] pools@.presigs[i]).len() == k,
        n > 0 ==> pools@.public.len() == k,
{
    let mut pools = PresigPools::new(n, k);
    let ghost mut rounds: Seq<Round> = Seq::empty();
    let mut j: u16 = 0;
    while j < k
        invariant
            j <= k,
            rounds.len() == j,
            came_of(run, rounds),
            pools@ == after_rounds(n as nat, rounds),
            pools@.presigs.len() == n,
            forall|i: int| 0 <= i < rounds.len() ==> (#[trigger] rounds[i]).len() == n,
            forall|j: u16, id: String| #[trigger] call_requires(run, (j, id)),
            forall|j: u16, id: String, made: Vec<(Presignature, PresignaturePublicData)>|
                #[trigger] call_ensures(run, (j, id), made) ==> made@.len() == n,
        decreases k - j,
    {
        let id = presig_execution_id(j);
        let made = run(j, id);
        pools.add_round(made);
        proof {
            let round = round_data(made@);
            assert(call_ensures(run, ((j as int) as u16, id), made));
            assert(round_came_of(run, j as int, round));
            let grown = rounds.push(round);
            assert(grown.drop_last() =~= rounds);
            assert forall|i: int| 0 <= i < grown.len() implies round_came_of(
                run,
                i,
                #[trigger] grown[i],
            ) by {
                if i < rounds.len() {
                    assert(round_came_of(run, i, rounds[i]));
                }
            }
            rounds = grown;
        }
        j = j + 1;
    }
    proof {
        if n > 0 {
            pools_run_in_lock_step(n as nat, rounds);
        }
    }
    pools
}

/// A folder is counted entry by entry. An entry counts as one key share where it is a file whose
/// name begins with `key_share_` and ends with `.msgpack`, and as none otherwise; the count of
/// entries side by side is the sum of their counts.
pub proof fn folder_is_counted_entry_by_entry(
    front: Seq<FolderEntry>,
    back: Seq<FolderEntry>,
    entry: FolderEntry,
)
    ensures
        key_share_count(front + back) == key_share_count(front) + key_share_count(back),
        key_share_count(Seq::empty()) == 0,
        key_share_count(seq![entry]) == if entry.is_file && entry.name is Some
            && "key_share_"@.is_prefix_of(entry.name->0@) && ".msgpack"@.is_suffix_of(
            entry.name->0@,
        ) {
            1nat
        } else {
            0nat
        },
{
    let counts = |e: FolderEntry| is_key_share(e);
    Seq::filter_distributes_over_add(front, back, counts);
    assert(seq![entry].drop_last() =~= Seq::<FolderEntry>::empty());
    reveal_with_fuel(Seq::filter, 3);
}

/// The folder that was written for `n` parties holds `n` key shares: files of all their names, in
/// whatever order, and nothing else.
pub proof fn written_folder_holds_all_key_shares(entries: Seq<FolderEntry>)
    requires
        forall|i: int|
            0 <= i < entries.len() ==> (#[trigger] entries[i]).is_file && entries[i].name is Some
                && exists|party: nat| entries[i].name->0@ == key_share_file(party),
    ensures
        key_share_count(entries) == entries.len(),
    decreases entries.len(),
{
    if entries.len() > 0 {
        let rest = entries.drop_last();
        let last = entries.last();
        assert(last == entries[entries.len() - 1]);
        assert forall|i: int| 0 <= i < rest.len() implies (#[trigger] rest[i]).is_file
            && rest[i].name is Some && exists|party: nat|
            rest[i].name->0@ == key_share_file(party) by {
            assert(rest[i] == entries[i]);
        }
        written_folder_holds_all_key_shares(rest);
        let party = choose|party: nat| last.name->0@ == key_share_file(party);
        key_share_files_are_counted_and_distinct(party, party);
        names_with_head_and_tail_are_key_shares(decimal(party));
        folder_is_counted_entry_by_entry(rest, seq![last], last);
        assert(entries =~= rest + seq![last]);
    } else {
        assert(entries =~= Seq::empty());
        folder_is_counted_entry_by_entry(
            entries,
            entries,
            FolderEntry { is_file: false, name: None },
        );
    }
}

/// Whatever stands between the head and the tail, the name is that of a key share; and a name
/// without the head or without the tail is not.
pub proof fn names_with_head_and_tail_are_key_shares(name: Seq<char>)
    ensures
        names_key_share("key_share_"@ + name + ".msgpack"@),
        !"key_share_"@.is_prefix_of(name) ==> !names_key_share(name),
        !".msgpack"@.is_suffix_of(name) ==> !names_key_share(name),
{
    let (head, tail) = ("key_share_"@, ".msgpack"@);
    let full = head + name + tail;
    assert(full.subrange(0, head.len() as int) =~= head);
    assert(full.subrange(full.len() - tail.len(), full.len() as int) =~= tail);
}

/// The names of files, folders and runs carry their numbers.
pub proof fn names_carry_their_numbers(number: nat)
    ensures
        carries_number(key_share_file(number), "key_share_"@, number, ".msgpack"@),
        carries_number(node_dir(number), "node_"@, number, Seq::empty()),
        carries_number(presig_run(number), "init-presig-"@, number, Seq::empty()),
{
    let none = Seq::<char>::empty();
    numbered_text_carries_number("key_share_"@, number, ".msgpack"@);
    numbered_text_carries_number("node_"@, number, none);
    numbered_text_carries_number("init-presig-"@, number, none);
    assert(node_dir(number) =~= "node_"@ + decimal(number) + none);
    assert(presig_run(number) =~= "init-presig-"@ + decimal(number) + none);
}

/// Key shares that were stored for `n` parties are used again: where the folder holds `n` of them
/// and each can be read, they are loaded in order. With any other count, or where one cannot be
/// read, none are, and the folder is replaced.
pub proof fn stored_key_shares_are_used_again<S>(
    n: nat,
    entries: Seq<FolderEntry>,
    existing: usize,
    dir: Seq<char>,
    shares: Seq<S>,
    files: Seq<KeyShareFile<S>>,
    loaded: Result<Seq<S>, LoadError>,
)
    requires
        existing == key_share_count(entries),
        existing == n ==> files.len() == n,
        is_loaded(n, existing, dir, files, loaded),
    ensures
        (existing == n && shares.len() == n && forall|i: int|
            0 <= i < n ==> #[trigger] files[i] == KeyShareFile::Share(shares[i])) ==> loaded == Ok::<
            Seq<S>,
            LoadError,
        >(shares),
        loaded is Ok <==> existing == n && forall|i: int| 0 <= i < n ==> #[trigger] files[i] is Share,
        existing != n ==> loaded is Err && loaded->Err_0 is Count,
        existing == n ==> !(loaded is Err && loaded->Err_0 is Count),
{
    if existing == n && shares.len() == n && forall|i: int|
        0 <= i < n ==> #[trigger] files[i] == KeyShareFile::Share(shares[i]) {
        match loaded {
            Ok(got) => {
                assert forall|i: int| 0 <= i < n implies #[trigger] got[i] == shares[i] by {
                    assert(files[i] == KeyShareFile::Share(shares[i]));
                }
                assert(got =~= shares);
            },
            Err(error) => {
                let i = choose|i: int|
                    0 <= i < n && file_error(#[trigger] files[i]) == Some(error);
                assert(files[i] == KeyShareFile::Share(shares[i]));
            },
        }
    }
    if existing == n && forall|i: int| 0 <= i < n ==> #[trigger] files[i] is Share {
        if let Err(error) = loaded {
            let i = choose|i: int| 0 <= i < n && file_error(#[trigger] files[i]) == Some(error);
            assert(files[i] is Share);
        }
    }
    if existing == n && loaded is Ok {
        assert forall|i: int| 0 <= i < n implies #[trigger] files[i] is Share by {}
    }
}

/// A file that gives a share gives no error. Any other gives the error of its kind, with its path
/// and with what was reported.
pub proof fn file_errors_are_passed_on<S>(share: S, path: String, error: String)
    ensures
        file_error(KeyShareFile::Share(share)) is None,
        file_error(KeyShareFile::<S>::Missing { path }) == Some(LoadError::Missing { path }),
        file_error(KeyShareFile::<S>::Unreadable { path, error }) == Some(
            LoadError::Unreadable { path, error },
        ),
        file_error(KeyShareFile::<S>::Undecodable { path, error }) == Some(
            LoadError::Undecodable { path, error },
        ),
{
}

/// The text of a load error names what it is about: the two counts and the folder, or the file and
/// what was reported of it.
pub proof fn load_errors_name_what_they_are_about(
    existing: usize,
    dir: String,
    n: u16,
    path: String,
    error: String,
)
    ensures
        ({
            let count = load_error_text(LoadError::Count { existing, dir, n });
            let missing = load_error_text(LoadError::Missing { path });
            let unreadable = load_error_text(LoadError::Unreadable { path, error });
            let undecodable = load_error_text(LoadError::Undecodable { path, error });
            &&& ("found "@ + decimal(existing as nat) + " key shares in "@).is_prefix_of(count)
            &&& (dir@ + ", expected "@ + decimal(n as nat)).is_suffix_of(count)
            &&& "missing expected key share file "@.is_prefix_of(missing)
            &&& path@.is_suffix_of(missing)
            &&& missing.len() == "missing expected key share file "@.len() + path@.len()
            &&& ("failed reading "@ + path@).is_prefix_of(unreadable)
            &&& (": "@ + error@).is_suffix_of(unreadable)
            &&& ("failed deserializing "@ + path@).is_prefix_of(undecodable)
            &&& (": "@ + error@).is_suffix_of(undecodable)
        }),
{
    let front = "found "@ + decimal(existing as nat) + " key shares in "@;
    let back = dir@ + ", expected "@ + decimal(n as nat);
    joined_text(front, back);
    assert(load_error_text(LoadError::Count { existing, dir, n }) =~= front + back);
    joined_text("missing expected key share file "@, path@);
    joined_text("failed reading "@ + path@, ": "@ + error@);
    assert(load_error_text(LoadError::Unreadable { path, error }) =~= "failed reading "@ + path@ + (
    ": "@ + error@));
    joined_text("failed deserializing "@ + path@, ": "@ + error@);
    assert(load_error_text(LoadError::Undecodable { path, error }) =~= "failed deserializing "@
        + path@ + (": "@ + error@));
}

/// Text begins with its first part and ends with its last.
proof fn joined_text(front: Seq<char>, back: Seq<char>)
    ensures
        front.is_prefix_of(front + back),
        back.is_suffix_of(front + back),
{
    let text = front + back;
    assert(text.subrange(0, front.len() as int) =~= front);
    assert(text.subrange(text.len() - back.len(), text.len() as int) =~= back);
}

/// Key shares are generated where there is no folder, used again exactly where they could be
/// loaded, and replaced exactly where they could not.
pub proof fn key_shares_are_reused_exactly_where_loaded<S>(
    loaded: Option<Result<Vec<S>, LoadError>>,
)
    ensures
        key_share_plan(loaded) is Generate <==> loaded is None,
        key_share_plan(loaded) is Reuse <==> loaded is Some && loaded->0 is Ok,
        key_share_plan(loaded) is Replace <==> loaded is Some && loaded->0 is Err,
        loaded is Some && loaded->0 is Ok ==> key_share_plan(loaded)->Reuse_0 == loaded->0->Ok_0,
        loaded is Some && loaded->0 is Err ==> key_share_plan(loaded)->Replace_0
            == loaded->0->Err_0,
{
}

/// All parties take part in a run, each once and at its own place.
pub proof fn every_party_takes_part_once(n: nat, party: u16)
    requires
        n <= u16::MAX,
    ensures
        parties_of(n).contains(party) <==> party < n,
        parties_of(n).no_duplicates(),
        parties_of(n).len() == n,
        party < n ==> parties_of(n)[party as int] == party,
{
    let parties = parties_of(n);
    if party < n {
        assert(parties[party as int] == party);
    }
    assert forall|i: int, j: int|
        0 <= i < parties.len() && 0 <= j < parties.len() && i != j implies parties[i]
        != parties[j] by {
        assert(parties[i] == i && parties[j] == j);
    }
}

/// A round adds one presignature to the pool of each party that took part, behind what the pool
/// held, and leaves the other pools as they are; the public part of the first party is added to
/// the shared pool.
pub proof fn round_adds_one_to_each_pool(pools: PoolsData, round: Round, node: int)
    requires
        0 <= node < pools.presigs.len(),
        0 < round.len() <= pools.presigs.len(),
    ensures
        with_round(pools, round).presigs.len() == pools.presigs.len(),
        node < round.len() ==> with_round(pools, round).presigs[node] == pools.presigs[node] + seq![
            round[node].0,
        ],
        node >= round.len() ==> with_round(pools, round).presigs[node] == pools.presigs[node],
        with_round(pools, round).public == pools.public + seq![round[0].1],
{
    if node < round.len() {
        assert(pools.presigs[node].push(round[node].0) =~= pools.presigs[node] + seq![
            round[node].0,
        ]);
    }
    assert(pools.public.push(round[0].1) =~= pools.public + seq![round[0].1]);
}

/// Rounds that came of a run came of one call each, in order, under an identifier that carries the
/// number of the round; and what the call gave stands in the round, party by party.
pub proof fn rounds_come_of_one_call_each<
    F: Fn(u16, String) -> Vec<(Presignature, PresignaturePublicData)>,
>(run: F, rounds: Seq<Round>, j: int) -> (call: (
    String,
    Vec<(Presignature, PresignaturePublicData)>,
))
    requires
        came_of(run, rounds),
        0 <= j < rounds.len(),
    ensures
        call_ensures(run, (j as u16, call.0), call.1),
        carries_number(call.0@, "init-presig-"@, j as nat, Seq::empty()),
        rounds[j].len() == call.1@.len(),
        forall|i: int|
            0 <= i < rounds[j].len() ==> (#[trigger] rounds[j][i]).0 == call.1@[i].0@
                && rounds[j][i].1 == call.1@[i].1@,
{
    assert(round_came_of(run, j, rounds[j]));
    let (id, made) = choose|id: String, made: Vec<(Presignature, PresignaturePublicData)>|
        id@ == presig_run(j as nat) && #[trigger] call_ensures(run, (j as u16, id), made)
            && rounds[j] == round_data(made@);
    names_carry_their_numbers(j as nat);
    (id, made)
}

} // verus!
