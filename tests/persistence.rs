use wallet_changeset::changeset::{ChangeSet, ChangeSetModel, MergeConflict};
use vstd::seq::Seq;
use wallet_changeset::conformance::{
    persist_keychains, persist_keychains_reversed, persist_network, persist_single_keychain,
    persist_wallet_changeset, wallet_first_changeset, wallet_second_changeset, PersistCheckError,
    BLOCK_B, BLOCK_BDK, BLOCK_BITCOIN, BLOCK_C, BLOCK_DB, BLOCK_RE, BLOCK_T,
    TR_DESCRIPTOR_BRANCH_1, TR_DESCRIPTOR_BRANCH_0, KEYCHAIN_MAIN, KEYCHAIN_CHANGE,
    TX_FIRST, TX_SECOND,
};
use wallet_changeset::persist::{MemoryStore, StoreCall, WalletPersister};
use wallet_changeset::primitives::{
    create_one_inp_one_out_tx, BlockId, ConfirmationBlockTime, Hash32, Network, OutPoint,
    ScriptBuf, TxOut, SEQUENCE_MAX,
};

fn tag(w: u64) -> Hash32 {
    Hash32::new(0, 0, 0, w)
}

#[test]
fn one_input_one_output_transaction() {
    let tx = create_one_inp_one_out_tx(tag(7), 30_000);
    assert_eq!(tx.version, 1);
    assert_eq!(tx.lock_time, 0);
    assert_eq!(tx.input.len(), 1);
    assert_eq!(tx.input[0].previous_output, OutPoint::new(tag(7), 0));
    assert_eq!(tx.input[0].sequence, SEQUENCE_MAX);
    assert!(tx.input[0].script_sig.bytes.is_empty());
    assert!(tx.input[0].witness.is_empty());
    assert_eq!(tx.output.len(), 1);
    assert_eq!(tx.output[0].value, 30_000);
    assert!(tx.output[0].script_pubkey.bytes.is_empty());
}

#[test]
fn fresh_store_reads_empty() {
    let mut db = MemoryStore::new();
    let c = db.initialize().unwrap();
    assert!(c.is_empty());
    assert!(ChangeSet::default().is_empty());
}

#[test]
fn wallet_changeset_scenario() {
    let mut db = MemoryStore::new();
    let c = persist_wallet_changeset(&mut db).unwrap();
    assert_eq!(c.descriptor.as_deref(), Some(TR_DESCRIPTOR_BRANCH_1));
    assert_eq!(c.change_descriptor.as_deref(), Some(TR_DESCRIPTOR_BRANCH_0));
    assert_eq!(c.network, Some(Network::Bitcoin));
    for (h, b) in [(0u32, BLOCK_B), (1, BLOCK_T), (2, BLOCK_C), (4, BLOCK_RE), (5, BLOCK_DB)] {
        assert_eq!(c.local_chain.get(h), Some(Some(tag(b))));
    }
    assert_eq!(c.local_chain.get(3), None);
    assert_eq!(c.tx_graph.txs.len(), 2);
    let a1 = ConfirmationBlockTime {
        block_id: BlockId { height: 1, hash: tag(BLOCK_BDK) },
        confirmation_time: 123,
    };
    let a2 = ConfirmationBlockTime {
        block_id: BlockId { height: 2, hash: tag(BLOCK_BITCOIN) },
        confirmation_time: 214,
    };
    assert!(c.tx_graph.has_anchor(a1, tag(TX_FIRST)));
    assert!(c.tx_graph.has_anchor(a2, tag(TX_SECOND)));
    assert!(!c.tx_graph.has_anchor(a1, tag(TX_SECOND)));
    assert_eq!(c.tx_graph.last_seen_of(tag(TX_FIRST)), Some(100));
    assert_eq!(c.tx_graph.last_seen_of(tag(TX_SECOND)), Some(200));
    assert_eq!(c.tx_graph.first_seen_of(tag(TX_FIRST)), Some(80));
    assert_eq!(c.tx_graph.first_seen_of(tag(TX_SECOND)), Some(160));
    assert_eq!(c.tx_graph.last_evicted_of(tag(TX_FIRST)), Some(150));
    assert_eq!(c.tx_graph.last_evicted_of(tag(TX_SECOND)), Some(300));
    assert_eq!(c.indexer.last_revealed_of(tag(KEYCHAIN_MAIN)), Some(14));
    assert_eq!(c.indexer.last_revealed_of(tag(KEYCHAIN_CHANGE)), Some(10));
    let script = |k: u64, i: u32| c.indexer.cached_script(tag(k), i).map(|s| s.bytes);
    assert_eq!(script(KEYCHAIN_MAIN, 0), Some(vec![245, 123, 112]));
    assert_eq!(script(KEYCHAIN_CHANGE, 100), Some(vec![145, 234, 98]));
    assert_eq!(script(KEYCHAIN_CHANGE, 1000), Some(vec![5, 6, 8]));
    assert_eq!(script(KEYCHAIN_CHANGE, 102), Some(vec![8, 45, 78]));
    assert_eq!(script(KEYCHAIN_CHANGE, 1001), Some(vec![29, 56, 47]));
    assert_eq!(script(KEYCHAIN_MAIN, 100), None);
    assert_eq!(script(KEYCHAIN_CHANGE, 0), None);
}

#[test]
fn wallet_changeset_matches_manual_merge() {
    let mut db = MemoryStore::new();
    let read = persist_wallet_changeset(&mut db).unwrap();
    let mut expected = wallet_first_changeset();
    expected.merge(wallet_second_changeset());
    let again = db.initialize().unwrap();
    for c in [&read, &again] {
        for h in 0u32..7 {
            assert_eq!(c.local_chain.get(h), expected.local_chain.get(h));
        }
        for t in [TX_FIRST, TX_SECOND] {
            assert_eq!(c.tx_graph.last_seen_of(tag(t)), expected.tx_graph.last_seen_of(tag(t)));
            assert_eq!(c.tx_graph.first_seen_of(tag(t)), expected.tx_graph.first_seen_of(tag(t)));
        }
        for k in [KEYCHAIN_MAIN, KEYCHAIN_CHANGE] {
            assert_eq!(
                c.indexer.last_revealed_of(tag(k)),
                expected.indexer.last_revealed_of(tag(k))
            );
        }
    }
}

#[test]
fn wallet_changeset_needs_fresh_store() {
    let mut db = MemoryStore::new();
    persist_network(&mut db).unwrap();
    assert!(matches!(persist_wallet_changeset(&mut db), Err(PersistCheckError::NotFresh)));
}

#[test]
fn network_round_trip() {
    let mut db = MemoryStore::new();
    let c = persist_network(&mut db).unwrap();
    assert_eq!(c.network, Some(Network::Bitcoin));
    assert_eq!(c.descriptor, None);
}

#[test]
fn keychains_round_trip() {
    let mut db = MemoryStore::new();
    let c = persist_keychains(&mut db).unwrap();
    assert_eq!(c.descriptor.as_deref(), Some(TR_DESCRIPTOR_BRANCH_1));
    assert_eq!(c.change_descriptor.as_deref(), Some(TR_DESCRIPTOR_BRANCH_0));
}

#[test]
fn keychains_reversed_round_trip() {
    let mut db = MemoryStore::new();
    let c = persist_keychains_reversed(&mut db).unwrap();
    assert_eq!(c.descriptor.as_deref(), Some(TR_DESCRIPTOR_BRANCH_0));
    assert_eq!(c.change_descriptor.as_deref(), Some(TR_DESCRIPTOR_BRANCH_1));
}

#[test]
fn single_keychain_round_trip() {
    let mut db = MemoryStore::new();
    let c = persist_single_keychain(&mut db).unwrap();
    assert_eq!(c.descriptor.as_deref(), Some(TR_DESCRIPTOR_BRANCH_0));
    assert_eq!(c.change_descriptor, None);
}

#[test]
fn round_trip_one_then_two() {
    let mut db = MemoryStore::new();
    let mut x = ChangeSet::new();
    x.local_chain.insert(1, Some(tag(11)));
    x.tx_graph.insert_last_seen(tag(1), 10);
    db.persist(&x).unwrap();
    let r = db.initialize().unwrap();
    assert_eq!(r.local_chain.get(1), Some(Some(tag(11))));
    assert_eq!(r.tx_graph.last_seen_of(tag(1)), Some(10));
    let mut y = ChangeSet::new();
    y.local_chain.insert(2, Some(tag(22)));
    y.tx_graph.insert_last_seen(tag(1), 30);
    db.persist(&y).unwrap();
    let r = db.initialize().unwrap();
    assert_eq!(r.local_chain.get(1), Some(Some(tag(11))));
    assert_eq!(r.local_chain.get(2), Some(Some(tag(22))));
    assert_eq!(r.tx_graph.last_seen_of(tag(1)), Some(30));
}

#[test]
fn reorg_tombstone_precedence() {
    let mut db = MemoryStore::new();
    let mut base = ChangeSet::new();
    base.local_chain.insert(5, Some(tag(0x51)));
    let anchor = ConfirmationBlockTime {
        block_id: BlockId { height: 5, hash: tag(0x51) },
        confirmation_time: 500,
    };
    base.tx_graph.insert_anchor(anchor, tag(3));
    db.persist(&base).unwrap();
    let before = db.initialize().unwrap();
    assert!(before.local_chain.confirms(anchor.block_id));
    let mut delta = ChangeSet::new();
    delta.local_chain.insert(5, None);
    delta.local_chain.insert(6, Some(tag(0x62)));
    db.persist(&delta).unwrap();
    let r = db.initialize().unwrap();
    assert_eq!(r.local_chain.get(5), Some(None));
    assert_eq!(r.local_chain.get(6), Some(Some(tag(0x62))));
    assert_eq!(r.local_chain.get(7), None);
    assert!(r.tx_graph.has_anchor(anchor, tag(3)));
    assert!(!r.local_chain.confirms(anchor.block_id));
    assert!(r.local_chain.confirms(BlockId { height: 6, hash: tag(0x62) }));
    assert!(!r.local_chain.confirms(BlockId { height: 6, hash: tag(0x51) }));
}

#[test]
fn monotonic_timestamps() {
    let mut db = MemoryStore::new();
    let mut a = ChangeSet::new();
    a.tx_graph.insert_last_seen(tag(1), 100);
    a.tx_graph.insert_first_seen(tag(1), 80);
    a.tx_graph.insert_evicted_at(tag(1), 90);
    db.persist(&a).unwrap();
    let mut b = ChangeSet::new();
    b.tx_graph.insert_last_seen(tag(1), 50);
    b.tx_graph.insert_first_seen(tag(1), 120);
    b.tx_graph.insert_evicted_at(tag(1), 40);
    db.persist(&b).unwrap();
    let r = db.initialize().unwrap();
    assert_eq!(r.tx_graph.last_seen_of(tag(1)), Some(100));
    assert_eq!(r.tx_graph.first_seen_of(tag(1)), Some(80));
    assert_eq!(r.tx_graph.last_evicted_of(tag(1)), Some(90));
    assert_eq!(r.tx_graph.last_seen_of(tag(2)), None);
}

#[test]
fn revealed_index_never_goes_down() {
    let mut a = ChangeSet::new();
    a.indexer.insert_revealed(tag(0xd0), 12);
    let mut b = ChangeSet::new();
    b.indexer.insert_revealed(tag(0xd0), 3);
    b.indexer.insert_revealed(tag(0xd1), 4);
    a.merge(b);
    assert_eq!(a.indexer.last_revealed_of(tag(0xd0)), Some(12));
    assert_eq!(a.indexer.last_revealed_of(tag(0xd1)), Some(4));
}

fn sample(seen: u64, height: u32) -> ChangeSet {
    let mut c = ChangeSet::new();
    c.network = Some(Network::Signet);
    c.local_chain.insert(height, Some(tag(height as u64)));
    c.tx_graph.insert_tx(create_one_inp_one_out_tx(tag(seen), seen));
    c.tx_graph.insert_last_seen(tag(1), seen);
    c.tx_graph.insert_first_seen(tag(1), seen);
    c.tx_graph.insert_txout(
        OutPoint::new(tag(9), height),
        TxOut { value: seen, script_pubkey: ScriptBuf::from_bytes(vec![1, 2]) },
    );
    c.indexer.insert_revealed(tag(0xd0), height);
    c.indexer.cache_script(tag(0xd0), height, ScriptBuf::from_bytes(vec![height as u8]));
    c
}

fn same_parts(x: &ChangeSet, y: &ChangeSet) {
    assert_eq!(x.network, y.network);
    assert_eq!(x.tx_graph.last_seen_of(tag(1)), y.tx_graph.last_seen_of(tag(1)));
    assert_eq!(x.tx_graph.first_seen_of(tag(1)), y.tx_graph.first_seen_of(tag(1)));
    assert_eq!(
        x.indexer.last_revealed_of(tag(0xd0)),
        y.indexer.last_revealed_of(tag(0xd0))
    );
    for h in 0u32..10 {
        assert_eq!(x.local_chain.get(h), y.local_chain.get(h));
    }
}

#[test]
fn merge_twice_is_merge_once() {
    let mut once = sample(10, 1);
    once.merge(sample(20, 2));
    let mut twice = sample(10, 1);
    twice.merge(sample(20, 2));
    twice.merge(sample(20, 2));
    same_parts(&once, &twice);
    assert_eq!(twice.tx_graph.last_seen_of(tag(1)), Some(20));
    assert_eq!(twice.tx_graph.first_seen_of(tag(1)), Some(10));
}

#[test]
fn merge_associative_and_commutative() {
    let mut left = sample(10, 1);
    left.merge(sample(30, 2));
    left.merge(sample(20, 3));
    let mut bc = sample(30, 2);
    bc.merge(sample(20, 3));
    let mut right = sample(10, 1);
    right.merge(bc);
    same_parts(&left, &right);
    let mut ab = sample(10, 1);
    ab.merge(sample(30, 2));
    let mut ba = sample(30, 2);
    ba.merge(sample(10, 1));
    same_parts(&ab, &ba);
    assert_eq!(ab.tx_graph.last_seen_of(tag(1)), Some(30));
    assert_eq!(ab.tx_graph.first_seen_of(tag(1)), Some(10));
}

#[test]
fn chain_last_applied_wins() {
    let mut a = ChangeSet::new();
    a.local_chain.insert(3, Some(tag(1)));
    a.local_chain.insert(4, Some(tag(2)));
    let mut b = ChangeSet::new();
    b.local_chain.insert(3, Some(tag(7)));
    a.merge(b);
    assert_eq!(a.local_chain.get(3), Some(Some(tag(7))));
    assert_eq!(a.local_chain.get(4), Some(Some(tag(2))));
}

#[test]
fn conflicting_set_once_fields_are_reported() {
    let mut a = ChangeSet::new();
    a.descriptor = Some(TR_DESCRIPTOR_BRANCH_1.to_string());
    a.change_descriptor = Some(TR_DESCRIPTOR_BRANCH_0.to_string());
    a.network = Some(Network::Bitcoin);

    let mut d = ChangeSet::new();
    d.descriptor = Some(TR_DESCRIPTOR_BRANCH_0.to_string());
    assert!(!a.can_merge(&d));
    assert_eq!(a.try_merge(d), Err(MergeConflict::Descriptor));

    let mut cd = ChangeSet::new();
    cd.change_descriptor = Some(TR_DESCRIPTOR_BRANCH_1.to_string());
    assert_eq!(a.try_merge(cd), Err(MergeConflict::ChangeDescriptor));

    let mut n = ChangeSet::new();
    n.network = Some(Network::Testnet);
    n.local_chain.insert(1, Some(tag(1)));
    assert_eq!(a.try_merge(n), Err(MergeConflict::Network));
    assert_eq!(a.local_chain.get(1), None);
    assert_eq!(a.network, Some(Network::Bitcoin));

    let mut same = ChangeSet::new();
    same.network = Some(Network::Bitcoin);
    same.descriptor = Some(TR_DESCRIPTOR_BRANCH_1.to_string());
    same.local_chain.insert(1, Some(tag(1)));
    assert!(a.can_merge(&same));
    assert_eq!(a.try_merge(same), Ok(()));
    assert_eq!(a.local_chain.get(1), Some(Some(tag(1))));
}

#[test]
fn empty_incoming_keeps_set_once_fields() {
    let mut a = ChangeSet::new();
    a.network = Some(Network::Regtest);
    a.merge(ChangeSet::new());
    assert_eq!(a.network, Some(Network::Regtest));
    let mut e = ChangeSet::new();
    e.merge(a);
    assert_eq!(e.network, Some(Network::Regtest));
    assert!(!e.is_empty());
}

/// How a test store misbehaves.
#[derive(Clone, Copy, PartialEq)]
enum Fault {
    /// Forgets the network of every changeset it is given.
    ForgetNetwork,
    /// Records every changeset twice.
    Redeliver,
    /// Fails the n-th call (counting from zero).
    FailCall(usize),
}

/// A store around the in-memory one that misbehaves as told, and counts the
/// calls made on it.
struct FaultyStore {
    inner: MemoryStore,
    fault: Fault,
    calls: usize,
}

impl FaultyStore {
    fn new(fault: Fault) -> FaultyStore {
        FaultyStore { inner: MemoryStore::new(), fault, calls: 0 }
    }

    fn fails_now(&mut self) -> bool {
        let n = self.calls;
        self.calls += 1;
        self.fault == Fault::FailCall(n)
    }
}

impl WalletPersister for FaultyStore {
    type Error = MergeConflict;

    fn conforms(&self) -> bool {
        unreachable!()
    }

    fn state(&self) -> ChangeSetModel {
        unreachable!()
    }

    fn calls(&self) -> Seq<StoreCall> {
        unreachable!()
    }

    fn initialize(&mut self) -> Result<ChangeSet, MergeConflict> {
        if self.fails_now() {
            return Err(MergeConflict::Network);
        }
        self.inner.initialize()
    }

    fn persist(&mut self, changeset: &ChangeSet) -> Result<(), MergeConflict> {
        if self.fails_now() {
            return Err(MergeConflict::Network);
        }
        match self.fault {
            Fault::ForgetNetwork => {
                let mut copy = changeset.duplicate();
                copy.network = None;
                self.inner.persist(&copy)
            }
            Fault::Redeliver => {
                self.inner.persist(changeset)?;
                self.inner.persist(changeset)
            }
            Fault::FailCall(_) => self.inner.persist(changeset),
        }
    }
}

#[test]
fn redelivered_changesets_still_pass() {
    let mut db = FaultyStore::new(Fault::Redeliver);
    let c = persist_wallet_changeset(&mut db).unwrap();
    assert_eq!(c.tx_graph.last_seen_of(tag(TX_SECOND)), Some(200));
    assert_eq!(db.calls, 5);
    let mut db = FaultyStore::new(Fault::Redeliver);
    assert_eq!(persist_network(&mut db).unwrap().network, Some(Network::Bitcoin));
    assert_eq!(db.calls, 3);
}

#[test]
fn store_error_ends_the_run() {
    for n in 0..5usize {
        let mut db = FaultyStore::new(Fault::FailCall(n));
        let r = persist_wallet_changeset(&mut db);
        assert!(matches!(r, Err(PersistCheckError::Backend(MergeConflict::Network))));
        assert_eq!(db.calls, n + 1);
    }
    for n in 0..3usize {
        let mut db = FaultyStore::new(Fault::FailCall(n));
        assert!(matches!(persist_network(&mut db), Err(PersistCheckError::Backend(_))));
        assert_eq!(db.calls, n + 1);
    }
}

#[test]
fn lossy_backend_is_caught() {
    let mut db = FaultyStore::new(Fault::ForgetNetwork);
    assert!(matches!(persist_network(&mut db), Err(PersistCheckError::Mismatch)));
    assert_eq!(db.calls, 3);
    let mut db = FaultyStore::new(Fault::ForgetNetwork);
    assert!(matches!(persist_wallet_changeset(&mut db), Err(PersistCheckError::Mismatch)));
    assert_eq!(db.calls, 3);
    let mut db = FaultyStore::new(Fault::ForgetNetwork);
    assert!(persist_keychains(&mut db).is_ok());
}

#[test]
fn not_fresh_persists_nothing() {
    let mut db = MemoryStore::new();
    persist_network(&mut db).unwrap();
    assert!(matches!(persist_keychains(&mut db), Err(PersistCheckError::NotFresh)));
    let c = db.initialize().unwrap();
    assert_eq!(c.descriptor, None);
    assert_eq!(c.network, Some(Network::Bitcoin));
}

#[test]
fn same_state_compares_every_part() {
    let a = wallet_first_changeset();
    assert!(a.same_state(&a.duplicate()));
    assert!(!a.same_state(&wallet_second_changeset()));
    let mut b = a.duplicate();
    b.tx_graph.insert_last_seen(tag(TX_FIRST), 99);
    assert!(a.same_state(&b));
    b.tx_graph.insert_last_seen(tag(TX_FIRST), 101);
    assert!(!a.same_state(&b));
    let mut c = a.duplicate();
    c.indexer.cache_script(tag(KEYCHAIN_MAIN), 0, ScriptBuf::from_bytes(vec![245, 123, 113]));
    assert!(!a.same_state(&c));
    let mut d = a.duplicate();
    d.tx_graph.insert_tx(create_one_inp_one_out_tx(tag(0), 30_000));
    assert!(a.same_state(&d));
    d.tx_graph.insert_tx(create_one_inp_one_out_tx(tag(0), 30_001));
    assert!(!a.same_state(&d));
    let mut e = a.duplicate();
    e.local_chain.insert(1, None);
    assert!(!a.same_state(&e));
    assert!(ChangeSet::new().same_state(&ChangeSet::default()));
}

#[test]
fn memory_store_refuses_conflicts() {
    let mut db = MemoryStore::new();
    let mut a = ChangeSet::new();
    a.network = Some(Network::Bitcoin);
    db.persist(&a).unwrap();
    let mut b = ChangeSet::new();
    b.network = Some(Network::Signet);
    b.local_chain.insert(3, Some(tag(3)));
    assert_eq!(db.persist(&b), Err(MergeConflict::Network));
    let c = db.initialize().unwrap();
    assert_eq!(c.network, Some(Network::Bitcoin));
    assert_eq!(c.local_chain.get(3), None);
}

#[test]
fn duplicate_keeps_content() {
    let c = wallet_first_changeset();
    let d = c.duplicate();
    let script = |k: u64, i: u32| d.indexer.cached_script(tag(k), i).map(|s| s.bytes);
    assert_eq!(script(KEYCHAIN_MAIN, 0), Some(vec![245, 123, 112]));
    assert_eq!(script(KEYCHAIN_CHANGE, 100), Some(vec![145, 234, 98]));
    assert_eq!(script(KEYCHAIN_CHANGE, 1000), Some(vec![5, 6, 8]));
    assert_eq!(script(KEYCHAIN_CHANGE, 102), None);
    assert_eq!(d.tx_graph.txs[0].output[0].value, 30_000);
    assert_eq!(d.descriptor, c.descriptor);
}
