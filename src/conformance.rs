//! Routines that exercise a persistence backend: each starts from a fresh
//! store, persists known changesets and reads the state back.
use vstd::prelude::*;
use crate::changeset::{text_equal, empty_model, merge_models, ChangeSet, ChangeSetModel};
use crate::persist::{lemma_merge_empty_left, StoreCall, WalletPersister};
use crate::keychain::KeychainModel;
use crate::primitives::{
    create_one_inp_one_out_tx, one_inp_one_out, BlockId, ConfirmationBlockTime, Hash32, Network,
    ScriptBuf,
};
use crate::tx_graph::TxGraphModel;

verus! {

/// Four descriptor templates: a taproot and a segwit account, each on its
/// `/1/*` branch and its `/0/*` branch. By the usual convention `/0/*` is the
/// receive (external) chain and `/1/*` the change (internal) chain. The
/// routines below use the taproot ones only: the scenarios keep the `/1/*`
/// descriptor as the wallet's main descriptor and the `/0/*` one as its change
/// descriptor, and the reversed scenario swaps the two roles.
pub const TR_DESCRIPTOR_BRANCH_1: &'static str = "tr([5940b9b9/86'/0'/0']tpubDDVNqmq75GNPWQ9UNKfP43UwjaHU4GYfoPavojQbfpyfZp2KetWgjGBRRAy4tYCrAA6SB11mhQAkqxjh1VtQHyKwT4oYxpwLaGHvoKmtxZf/1/*)#ypcpw2dr";

pub const TR_DESCRIPTOR_BRANCH_0: &'static str = "tr([5940b9b9/86'/0'/0']tpubDDVNqmq75GNPWQ9UNKfP43UwjaHU4GYfoPavojQbfpyfZp2KetWgjGBRRAy4tYCrAA6SB11mhQAkqxjh1VtQHyKwT4oYxpwLaGHvoKmtxZf/0/*)#44aqnlam";

pub const WPKH_DESCRIPTOR_BRANCH_1: &'static str = "wpkh([41f2aed0/84h/1h/0h]tpubDDFSdQWw75hk1ewbwnNpPp5DvXFRKt68ioPoyJDY752cNHKkFxPWqkqCyCf4hxrEfpuxh46QisehL3m8Bi6MsAv394QVLopwbtfvryFQNUH/1/*)#emtwewtk";

pub const WPKH_DESCRIPTOR_BRANCH_0: &'static str = "wpkh([41f2aed0/84h/1h/0h]tpubDDFSdQWw75hk1ewbwnNpPp5DvXFRKt68ioPoyJDY752cNHKkFxPWqkqCyCf4hxrEfpuxh46QisehL3m8Bi6MsAv394QVLopwbtfvryFQNUH/0/*)#g0w0ymmw";

/// Why a run against a backend stopped.
#[derive(Debug)]
pub enum PersistCheckError<E> {
    /// The backend failed.
    Backend(E),
    /// The store was not fresh: its first read was not the empty changeset.
    NotFresh,
    /// A read-back differed from what had been persisted.
    Mismatch,
}

/// The calls made on a store between two points of its call log.
pub open spec fn made_calls(before: Seq<StoreCall>, after: Seq<StoreCall>) -> Seq<StoreCall> {
    after.subrange(before.len() as int, after.len() as int)
}

/// Whether a call returned without error.
pub open spec fn succeeded(c: StoreCall) -> bool {
    match c {
        StoreCall::Initialize { read } => read is Some,
        StoreCall::Persist { ok, .. } => ok,
    }
}

/// What a successful read handed back.
pub open spec fn read_of(c: StoreCall) -> ChangeSetModel {
    match c {
        StoreCall::Initialize { read: Some(x) } => x,
        _ => empty_model(),
    }
}

/// Whether a call is the step of a plan: `None` stands for a read,
/// `Some(x)` for a write of `x`.
pub open spec fn step_matches(c: StoreCall, step: Option<ChangeSetModel>) -> bool {
    match (c, step) {
        (StoreCall::Initialize { .. }, None) => true,
        (StoreCall::Persist { changeset, .. }, Some(x)) => changeset == x,
        _ => false,
    }
}

/// What a run against a store does, whatever the store does.
///
/// The calls it makes are the first steps of `plan`, in order; every call
/// but the last succeeded, so no call is made again after a failure. It
/// stops with `Backend` exactly when its last call failed, and as not fresh
/// exactly when it made a single read that handed back a non-empty state;
/// otherwise its first read was empty. It stops with `Mismatch` only when
/// a read-back failed `checks`, and succeeds only after the whole plan, with
/// `checks` met and the last read handed back.
pub open spec fn run_outcome<E>(
    before: Seq<StoreCall>,
    after: Seq<StoreCall>,
    plan: Seq<Option<ChangeSetModel>>,
    checks: bool,
    r: Result<ChangeSet, PersistCheckError<E>>,
) -> bool {
    let made = made_calls(before, after);
    &&& before.len() <= after.len()
    &&& after.subrange(0, before.len() as int) == before
    &&& made.len() <= plan.len()
    &&& forall|i: int| 0 <= i < made.len() ==> step_matches(#[trigger] made[i], plan[i])
    &&& forall|i: int| 0 <= i < made.len() - 1 ==> succeeded(#[trigger] made[i])
    &&& made.len() > 1 ==> read_of(made[0]) == empty_model()
    &&& (r matches Err(PersistCheckError::Backend(_))) == (made.len() > 0 && !succeeded(
        made.last(),
    ))
    &&& (r matches Err(PersistCheckError::NotFresh)) == (made.len() == 1 && succeeded(made[0])
        && read_of(made[0]) != empty_model())
    &&& r matches Err(PersistCheckError::Mismatch) ==> made.len() > 1 && succeeded(made.last())
        && !checks
    &&& r matches Ok(c) ==> {
        &&& made.len() == plan.len()
        &&& succeeded(made.last())
        &&& checks
        &&& c@ == read_of(made.last())
    }
}

/// What a run does on a store that keeps the contract: if the store starts
/// empty the run neither finds it not fresh nor reads back a mismatch, and
/// on success leaves the store in `expected`; if it does not start empty,
/// the run does not succeed.
pub open spec fn conforming_outcome<E>(
    was: bool,
    state_before: ChangeSetModel,
    is: bool,
    state_after: ChangeSetModel,
    expected: ChangeSetModel,
    r: Result<ChangeSet, PersistCheckError<E>>,
) -> bool {
    was ==> {
        &&& is
        &&& state_before == empty_model() ==> !(r matches Err(PersistCheckError::NotFresh))
            && !(r matches Err(PersistCheckError::Mismatch))
        &&& state_before != empty_model() ==> !(r is Ok)
        &&& r is Ok ==> state_after == expected
    }
}

proof fn lemma_made_push(before: Seq<StoreCall>, mid: Seq<StoreCall>, c: StoreCall)
    requires
        before.len() <= mid.len(),
        mid.subrange(0, before.len() as int) == before,
    ensures
        made_calls(before, mid.push(c)) == made_calls(before, mid).push(c),
        mid.push(c).subrange(0, before.len() as int) == before,
{
    assert(made_calls(before, mid.push(c)) =~= made_calls(before, mid).push(c));
    assert(mid.push(c).subrange(0, before.len() as int) =~= mid.subrange(0, before.len() as int));
}

/// The plan of a round trip: read, write `x`, read.
pub open spec fn round_trip_plan(x: ChangeSetModel) -> Seq<Option<ChangeSetModel>> {
    seq![None, Some(x), None]
}

/// The plan of the wallet scenario: read, write the first changeset, read,
/// write the second, read.
pub open spec fn wallet_plan() -> Seq<Option<ChangeSetModel>> {
    seq![None, Some(wallet_first_model()), None, Some(wallet_second_model()), None]
}

/// The read-backs of the wallet scenario: the first changeset after it is
/// written, their merge after the second is.
pub open spec fn wallet_checks(made: Seq<StoreCall>) -> bool {
    &&& made.len() >= 3 ==> read_of(made[2]) == wallet_first_model()
    &&& made.len() >= 5 ==> read_of(made[4]) == merge_models(
        wallet_first_model(),
        wallet_second_model(),
    )
}

/// The read-back of the network round trip: the main network.
pub open spec fn network_checks(made: Seq<StoreCall>) -> bool {
    made.len() >= 3 ==> read_of(made[2]).network == Some(Network::Bitcoin)
}

/// The read-back of a descriptor round trip: the descriptors of `m`.
pub open spec fn descriptor_checks(made: Seq<StoreCall>, m: ChangeSetModel) -> bool {
    made.len() >= 3 ==> read_of(made[2]).descriptor == m.descriptor && read_of(
        made[2],
    ).change_descriptor == m.change_descriptor
}

/// A hash or identifier whose last word is `w` and whose other words are zero.
pub open spec fn tag(w: u64) -> Hash32 {
    Hash32 { w0: 0, w1: 0, w2: 0, w3: w }
}

fn make_tag(w: u64) -> (r: Hash32)
    ensures
        r == tag(w),
{
    Hash32::new(0, 0, 0, w)
}

/// Tags of the blocks, transactions and derivation paths of the scenario.
pub const BLOCK_B: u64 = 0x42;

pub const BLOCK_T: u64 = 0x54;

pub const BLOCK_C: u64 = 0x43;

pub const BLOCK_RE: u64 = 0x5245;

pub const BLOCK_DB: u64 = 0x4442;

pub const BLOCK_BDK: u64 = 0x42444b;

pub const BLOCK_BITCOIN: u64 = 0x426974636f696e;

pub const TX_FIRST: u64 = 0x7831;

pub const TX_SECOND: u64 = 0x7832;

pub const KEYCHAIN_MAIN: u64 = 0xd0;

pub const KEYCHAIN_CHANGE: u64 = 0xd1;

/// The first changeset of the wallet scenario: both descriptors, the main
/// network, blocks at heights 0 to 2, one transaction anchored at height 1,
/// its seen and evicted times, and revealed indices and scripts for both
/// paths.
pub open spec fn wallet_first_model() -> ChangeSetModel {
    ChangeSetModel {
        descriptor: Some(TR_DESCRIPTOR_BRANCH_1@),
        change_descriptor: Some(TR_DESCRIPTOR_BRANCH_0@),
        network: Some(Network::Bitcoin),
        local_chain: map![
            0u32 => Some(tag(BLOCK_B)),
            1u32 => Some(tag(BLOCK_T)),
            2u32 => Some(tag(BLOCK_C)),
        ],
        tx_graph: TxGraphModel {
            txs: set![one_inp_one_out(tag(0), 30_000)],
            txouts: Map::empty(),
            anchors: set![
                (
                    ConfirmationBlockTime {
                        block_id: BlockId { height: 1, hash: tag(BLOCK_BDK) },
                        confirmation_time: 123,
                    },
                    tag(TX_FIRST),
                ),
            ],
            last_seen: map![tag(TX_FIRST) => 100],
            first_seen: map![tag(TX_FIRST) => 80],
            last_evicted: map![tag(TX_FIRST) => 150],
        },
        indexer: KeychainModel {
            last_revealed: map![tag(KEYCHAIN_MAIN) => 12, tag(KEYCHAIN_CHANGE) => 10],
            spk_cache: map![
                (tag(KEYCHAIN_MAIN), 0u32) => seq![245u8, 123, 112],
                (tag(KEYCHAIN_CHANGE), 100u32) => seq![145u8, 234, 98],
                (tag(KEYCHAIN_CHANGE), 1000u32) => seq![5u8, 6, 8],
            ],
        },
    }
}

/// The second changeset of the wallet scenario: the same descriptors and
/// network, blocks at heights 4 and 5, a transaction spending the first one
/// anchored at height 2, its times, a higher revealed index on the main
/// path and two more scripts on the change path.
pub open spec fn wallet_second_model() -> ChangeSetModel {
    ChangeSetModel {
        descriptor: Some(TR_DESCRIPTOR_BRANCH_1@),
        change_descriptor: Some(TR_DESCRIPTOR_BRANCH_0@),
        network: Some(Network::Bitcoin),
        local_chain: map![4u32 => Some(tag(BLOCK_RE)), 5u32 => Some(tag(BLOCK_DB))],
        tx_graph: TxGraphModel {
            txs: set![one_inp_one_out(tag(TX_FIRST), 20_000)],
            txouts: Map::empty(),
            anchors: set![
                (
                    ConfirmationBlockTime {
                        block_id: BlockId { height: 2, hash: tag(BLOCK_BITCOIN) },
                        confirmation_time: 214,
                    },
                    tag(TX_SECOND),
                ),
            ],
            last_seen: map![tag(TX_SECOND) => 200],
            first_seen: map![tag(TX_SECOND) => 160],
            last_evicted: map![tag(TX_SECOND) => 300],
        },
        indexer: KeychainModel {
            last_revealed: map![tag(KEYCHAIN_MAIN) => 14],
            spk_cache: map![
                (tag(KEYCHAIN_CHANGE), 102u32) => seq![8u8, 45, 78],
                (tag(KEYCHAIN_CHANGE), 1001u32) => seq![29u8, 56, 47],
            ],
        },
    }
}

pub fn wallet_first_changeset() -> (r: ChangeSet)
    ensures
        r@ == wallet_first_model(),
{
    let mut cs = ChangeSet::new();
    cs.descriptor = Some(TR_DESCRIPTOR_BRANCH_1.to_owned());
    cs.change_descriptor = Some(TR_DESCRIPTOR_BRANCH_0.to_owned());
    cs.network = Some(Network::Bitcoin);
    cs.local_chain.insert(0, Some(make_tag(BLOCK_B)));
    cs.local_chain.insert(1, Some(make_tag(BLOCK_T)));
    cs.local_chain.insert(2, Some(make_tag(BLOCK_C)));
    let tx1 = make_tag(TX_FIRST);
    cs.tx_graph.insert_tx(create_one_inp_one_out_tx(Hash32::all_zero(), 30_000));
    let anchor = ConfirmationBlockTime {
        block_id: BlockId { height: 1, hash: make_tag(BLOCK_BDK) },
        confirmation_time: 123,
    };
    cs.tx_graph.insert_anchor(anchor, tx1);
    cs.tx_graph.insert_last_seen(tx1, 100);
    cs.tx_graph.insert_first_seen(tx1, 80);
    cs.tx_graph.insert_evicted_at(tx1, 150);
    let main = make_tag(KEYCHAIN_MAIN);
    let change = make_tag(KEYCHAIN_CHANGE);
    cs.indexer.insert_revealed(main, 12);
    cs.indexer.insert_revealed(change, 10);
    cs.indexer.cache_script(main, 0, ScriptBuf::from_bytes(vec![245, 123, 112]));
    cs.indexer.cache_script(change, 100, ScriptBuf::from_bytes(vec![145, 234, 98]));
    cs.indexer.cache_script(change, 1000, ScriptBuf::from_bytes(vec![5, 6, 8]));
    let ghost m = wallet_first_model();
    assert(cs@.local_chain =~= m.local_chain);
    assert(cs@.tx_graph.txs =~= m.tx_graph.txs);
    assert(cs@.tx_graph.anchors =~= m.tx_graph.anchors);
    assert(cs@.tx_graph.last_seen =~= m.tx_graph.last_seen);
    assert(cs@.tx_graph.first_seen =~= m.tx_graph.first_seen);
    assert(cs@.tx_graph.last_evicted =~= m.tx_graph.last_evicted);
    assert(cs@.indexer.last_revealed =~= m.indexer.last_revealed);
    assert(cs@.indexer.spk_cache =~= m.indexer.spk_cache);
    cs
}

pub fn wallet_second_changeset() -> (r: ChangeSet)
    ensures
        r@ == wallet_second_model(),
{
    let mut cs = ChangeSet::new();
    cs.descriptor = Some(TR_DESCRIPTOR_BRANCH_1.to_owned());
    cs.change_descriptor = Some(TR_DESCRIPTOR_BRANCH_0.to_owned());
    cs.network = Some(Network::Bitcoin);
    cs.local_chain.insert(4, Some(make_tag(BLOCK_RE)));
    cs.local_chain.insert(5, Some(make_tag(BLOCK_DB)));
    let tx2 = make_tag(TX_SECOND);
    cs.tx_graph.insert_tx(create_one_inp_one_out_tx(make_tag(TX_FIRST), 20_000));
    let anchor = ConfirmationBlockTime {
        block_id: BlockId { height: 2, hash: make_tag(BLOCK_BITCOIN) },
        confirmation_time: 214,
    };
    cs.tx_graph.insert_anchor(anchor, tx2);
    cs.tx_graph.insert_last_seen(tx2, 200);
    cs.tx_graph.insert_first_seen(tx2, 160);
    cs.tx_graph.insert_evicted_at(tx2, 300);
    let main = make_tag(KEYCHAIN_MAIN);
    let change = make_tag(KEYCHAIN_CHANGE);
    cs.indexer.insert_revealed(main, 14);
    cs.indexer.cache_script(change, 102, ScriptBuf::from_bytes(vec![8, 45, 78]));
    cs.indexer.cache_script(change, 1001, ScriptBuf::from_bytes(vec![29, 56, 47]));
    let ghost m = wallet_second_model();
    assert(cs@.local_chain =~= m.local_chain);
    assert(cs@.tx_graph.txs =~= m.tx_graph.txs);
    assert(cs@.tx_graph.anchors =~= m.tx_graph.anchors);
    assert(cs@.tx_graph.last_seen =~= m.tx_graph.last_seen);
    assert(cs@.tx_graph.first_seen =~= m.tx_graph.first_seen);
    assert(cs@.tx_graph.last_evicted =~= m.tx_graph.last_evicted);
    assert(cs@.indexer.last_revealed =~= m.indexer.last_revealed);
    assert(cs@.indexer.spk_cache =~= m.indexer.spk_cache);
    cs
}

/// Reads the fresh store, persists `changeset` and reads the state back.
/// What was read is handed back unchecked: each caller compares the parts
/// it tests.
fn round_trip<Db: WalletPersister>(db: &mut Db, changeset: &ChangeSet) -> (r: Result<
    ChangeSet,
    PersistCheckError<Db::Error>,
>)
    ensures
        run_outcome(old(db).calls(), final(db).calls(), round_trip_plan(changeset@), true, r),
        conforming_outcome(
            old(db).conforms(),
            old(db).state(),
            final(db).conforms(),
            final(db).state(),
            changeset@,
            r,
        ),
        old(db).conforms() ==> (r matches Ok(c) ==> c@ == changeset@),
{
    let ghost before = db.calls();
    proof {
        assert(before.subrange(0, before.len() as int) =~= before);
        assert(made_calls(before, before) =~= Seq::<StoreCall>::empty());
        lemma_merge_empty_left(changeset@);
    }
    let initial = match db.initialize() {
        Ok(c) => c,
        Err(e) => {
            proof {
                lemma_made_push(before, before, db.calls().last());
            }
            return Err(PersistCheckError::Backend(e));
        },
    };
    proof {
        lemma_made_push(before, before, db.calls().last());
    }
    if !initial.is_empty() {
        return Err(PersistCheckError::NotFresh);
    }
    let ghost mid = db.calls();
    let p = db.persist(changeset);
    proof {
        lemma_made_push(before, mid, db.calls().last());
    }
    match p {
        Ok(()) => {},
        Err(e) => return Err(PersistCheckError::Backend(e)),
    }
    let ghost mid2 = db.calls();
    let read = match db.initialize() {
        Ok(c) => c,
        Err(e) => {
            proof {
                lemma_made_push(before, mid2, db.calls().last());
            }
            return Err(PersistCheckError::Backend(e));
        },
    };
    proof {
        lemma_made_push(before, mid2, db.calls().last());
    }
    Ok(read)
}

/// Runs the wallet scenario against a fresh store: persists the first
/// changeset and checks that the read-back equals it, then persists the
/// second and checks that the read-back equals their merge.
pub fn persist_wallet_changeset<Db: WalletPersister>(db: &mut Db) -> (r: Result<
    ChangeSet,
    PersistCheckError<Db::Error>,
>)
    ensures
        run_outcome(
            old(db).calls(),
            final(db).calls(),
            wallet_plan(),
            wallet_checks(made_calls(old(db).calls(), final(db).calls())),
            r,
        ),
        conforming_outcome(
            old(db).conforms(),
            old(db).state(),
            final(db).conforms(),
            final(db).state(),
            merge_models(wallet_first_model(), wallet_second_model()),
            r,
        ),
        r matches Ok(c) ==> c@ == merge_models(wallet_first_model(), wallet_second_model()),
{
    let ghost before = db.calls();
    let changeset = wallet_first_changeset();
    let first = match round_trip(db, &changeset) {
        Ok(c) => c,
        Err(e) => return Err(e),
    };
    if !first.same_state(&changeset) {
        return Err(PersistCheckError::Mismatch);
    }
    let changeset_new = wallet_second_changeset();
    let ghost mid = db.calls();
    let p = db.persist(&changeset_new);
    proof {
        lemma_made_push(before, mid, db.calls().last());
    }
    match p {
        Ok(()) => {},
        Err(e) => return Err(PersistCheckError::Backend(e)),
    }
    let ghost mid2 = db.calls();
    let read = match db.initialize() {
        Ok(c) => c,
        Err(e) => {
            proof {
                lemma_made_push(before, mid2, db.calls().last());
            }
            return Err(PersistCheckError::Backend(e));
        },
    };
    proof {
        lemma_made_push(before, mid2, db.calls().last());
    }
    let mut expected = changeset.duplicate();
    expected.merge(changeset_new.duplicate());
    if !read.same_state(&expected) {
        return Err(PersistCheckError::Mismatch);
    }
    Ok(read)
}

/// The changeset that sets the network to the main network and nothing
/// else.
pub open spec fn network_model() -> ChangeSetModel {
    ChangeSetModel { network: Some(Network::Bitcoin), ..empty_model() }
}

/// The changeset that sets the two descriptors and nothing else.
pub open spec fn descriptors_model(
    descriptor: Option<Seq<char>>,
    change_descriptor: Option<Seq<char>>,
) -> ChangeSetModel {
    ChangeSetModel { descriptor, change_descriptor, ..empty_model() }
}

/// Persists the main network into a fresh store, reads it back and checks
/// the network read.
pub fn persist_network<Db: WalletPersister>(db: &mut Db) -> (r: Result<
    ChangeSet,
    PersistCheckError<Db::Error>,
>)
    ensures
        run_outcome(
            old(db).calls(),
            final(db).calls(),
            round_trip_plan(network_model()),
            network_checks(made_calls(old(db).calls(), final(db).calls())),
            r,
        ),
        conforming_outcome(
            old(db).conforms(),
            old(db).state(),
            final(db).conforms(),
            final(db).state(),
            network_model(),
            r,
        ),
        r matches Ok(c) ==> c@.network == Some(Network::Bitcoin),
{
    let mut changeset = ChangeSet::new();
    changeset.network = Some(Network::Bitcoin);
    let read = match round_trip(db, &changeset) {
        Ok(c) => c,
        Err(e) => return Err(e),
    };
    match read.network {
        Some(Network::Bitcoin) => Ok(read),
        _ => Err(PersistCheckError::Mismatch),
    }
}

/// Persists the two descriptors, as given, into a fresh store, reads them
/// back and compares them with what was persisted.
fn persist_descriptors<Db: WalletPersister>(
    db: &mut Db,
    descriptor: &str,
    change_descriptor: Option<&str>,
) -> (r: Result<ChangeSet, PersistCheckError<Db::Error>>)
    ensures
        ({
            let m = descriptors_model(
                Some(descriptor@),
                match change_descriptor {
                    Some(c) => Some(c@),
                    None => None,
                },
            );
            &&& run_outcome(
                old(db).calls(),
                final(db).calls(),
                round_trip_plan(m),
                descriptor_checks(made_calls(old(db).calls(), final(db).calls()), m),
                r,
            )
            &&& conforming_outcome(
                old(db).conforms(),
                old(db).state(),
                final(db).conforms(),
                final(db).state(),
                m,
                r,
            )
        }),
{
    let mut changeset = ChangeSet::new();
    changeset.descriptor = Some(descriptor.to_owned());
    changeset.change_descriptor = match change_descriptor {
        Some(c) => Some(c.to_owned()),
        None => None,
    };
    let read = match round_trip(db, &changeset) {
        Ok(c) => c,
        Err(e) => return Err(e),
    };
    if !text_equal(&read.descriptor, &changeset.descriptor) || !text_equal(
        &read.change_descriptor,
        &changeset.change_descriptor,
    ) {
        return Err(PersistCheckError::Mismatch);
    }
    Ok(read)
}

/// Persists the taproot `/1/*` descriptor as the main one and the `/0/*`
/// descriptor as the change one into a fresh store, reads them back and
/// compares them with what was persisted.
pub fn persist_keychains<Db: WalletPersister>(db: &mut Db) -> (r: Result<
    ChangeSet,
    PersistCheckError<Db::Error>,
>)
    ensures
        ({
            let m = descriptors_model(Some(TR_DESCRIPTOR_BRANCH_1@), Some(TR_DESCRIPTOR_BRANCH_0@));
            &&& run_outcome(
                old(db).calls(),
                final(db).calls(),
                round_trip_plan(m),
                descriptor_checks(made_calls(old(db).calls(), final(db).calls()), m),
                r,
            )
            &&& conforming_outcome(
                old(db).conforms(),
                old(db).state(),
                final(db).conforms(),
                final(db).state(),
                m,
                r,
            )
        }),
{
    persist_descriptors(db, TR_DESCRIPTOR_BRANCH_1, Some(TR_DESCRIPTOR_BRANCH_0))
}

/// Persists the taproot descriptors in the other roles, `/0/*` as the main
/// one and `/1/*` as the change one, reads them back and compares them.
pub fn persist_keychains_reversed<Db: WalletPersister>(db: &mut Db) -> (r: Result<
    ChangeSet,
    PersistCheckError<Db::Error>,
>)
    ensures
        ({
            let m = descriptors_model(Some(TR_DESCRIPTOR_BRANCH_0@), Some(TR_DESCRIPTOR_BRANCH_1@));
            &&& run_outcome(
                old(db).calls(),
                final(db).calls(),
                round_trip_plan(m),
                descriptor_checks(made_calls(old(db).calls(), final(db).calls()), m),
                r,
            )
            &&& conforming_outcome(
                old(db).conforms(),
                old(db).state(),
                final(db).conforms(),
                final(db).state(),
                m,
                r,
            )
        }),
{
    persist_descriptors(db, TR_DESCRIPTOR_BRANCH_0, Some(TR_DESCRIPTOR_BRANCH_1))
}

/// Persists the taproot `/0/*` descriptor alone, with no change
/// descriptor, reads it back and checks that the change descriptor stays
/// unset.
pub fn persist_single_keychain<Db: WalletPersister>(db: &mut Db) -> (r: Result<
    ChangeSet,
    PersistCheckError<Db::Error>,
>)
    ensures
        ({
            let m = descriptors_model(Some(TR_DESCRIPTOR_BRANCH_0@), None);
            &&& run_outcome(
                old(db).calls(),
                final(db).calls(),
                round_trip_plan(m),
                descriptor_checks(made_calls(old(db).calls(), final(db).calls()), m),
                r,
            )
            &&& conforming_outcome(
                old(db).conforms(),
                old(db).state(),
                final(db).conforms(),
                final(db).state(),
                m,
                r,
            )
        }),
{
    persist_descriptors(db, TR_DESCRIPTOR_BRANCH_0, None)
}

} // verus!
