//! The persistence contract that every durable backend meets, and a
//! backend that keeps the state in memory.
use vstd::prelude::*;
use crate::changeset::{
    compatible, empty_model, merge_models, ChangeSet, ChangeSetModel, MergeConflict,
};
use crate::laws::{lemma_merge_associative, lemma_merge_idempotent};

verus! {

/// The state that a history of persisted changesets stands for: each
/// merged in turn, in the order persisted, into the empty changeset.
pub open spec fn fold_models(history: Seq<ChangeSetModel>) -> ChangeSetModel
    decreases history.len(),
{
    if history.len() == 0 {
        empty_model()
    } else {
        merge_models(fold_models(history.drop_last()), history.last())
    }
}

/// One call made on a store, with what it returned.
pub enum StoreCall {
    /// A read: the changeset handed back, or `None` when the read failed.
    Initialize { read: Option<ChangeSetModel> },
    /// A write of `changeset`, and whether it succeeded.
    Persist { changeset: ChangeSetModel, ok: bool },
}

/// A durable store of wallet changesets.
///
/// `calls` records every call made on the store and what it returned.
/// A store that `conforms` keeps the contract: `state` is the fold of every
/// changeset it recorded, `initialize` hands it back, and `persist` merges
/// one more changeset into it, entirely or, when it fails, not at all. The
/// contract is stated over the fold, so a store that records a redelivered
/// changeset a second time still conforms: merging it again changes nothing.
/// Nothing is promised of the data of a store that does not conform.
pub trait WalletPersister {
    type Error;

    spec fn conforms(&self) -> bool;

    spec fn state(&self) -> ChangeSetModel;

    spec fn calls(&self) -> Seq<StoreCall>;

    fn initialize(&mut self) -> (r: Result<ChangeSet, Self::Error>)
        ensures
            final(self).calls() == old(self).calls().push(
                StoreCall::Initialize {
                    read: match r {
                        Ok(c) => Some(c@),
                        Err(_) => None,
                    },
                },
            ),
            old(self).conforms() ==> {
                &&& final(self).conforms()
                &&& final(self).state() == old(self).state()
                &&& r matches Ok(c) ==> c@ == old(self).state()
            },
    ;

    /// Records `changeset`. A conforming store refuses, with an error, a
    /// changeset whose set-once fields contradict its state.
    fn persist(&mut self, changeset: &ChangeSet) -> (r: Result<(), Self::Error>)
        ensures
            final(self).calls() == old(self).calls().push(
                StoreCall::Persist { changeset: changeset@, ok: r is Ok },
            ),
            old(self).conforms() ==> {
                &&& final(self).conforms()
                &&& r is Ok ==> compatible(old(self).state(), changeset@)
                &&& r is Ok ==> final(self).state() == merge_models(old(self).state(), changeset@)
                &&& r is Err ==> final(self).state() == old(self).state()
            },
    ;
}

/// Merging into the empty changeset gives the incoming one.
pub proof fn lemma_merge_empty_left(x: ChangeSetModel)
    ensures
        merge_models(empty_model(), x) == x,
{
    let m = merge_models(empty_model(), x);
    assert(m.local_chain =~= x.local_chain);
    assert(m.tx_graph.txs =~= x.tx_graph.txs);
    assert(m.tx_graph.txouts =~= x.tx_graph.txouts);
    assert(m.tx_graph.anchors =~= x.tx_graph.anchors);
    assert(m.tx_graph.last_seen =~= x.tx_graph.last_seen);
    assert(m.tx_graph.first_seen =~= x.tx_graph.first_seen);
    assert(m.tx_graph.last_evicted =~= x.tx_graph.last_evicted);
    assert(m.indexer.last_revealed =~= x.indexer.last_revealed);
    assert(m.indexer.spk_cache =~= x.indexer.spk_cache);
}

/// Merging the empty changeset changes nothing.
pub proof fn lemma_merge_empty_right(x: ChangeSetModel)
    ensures
        merge_models(x, empty_model()) == x,
{
    let m = merge_models(x, empty_model());
    assert(m.local_chain =~= x.local_chain);
    assert(m.tx_graph.txs =~= x.tx_graph.txs);
    assert(m.tx_graph.txouts =~= x.tx_graph.txouts);
    assert(m.tx_graph.anchors =~= x.tx_graph.anchors);
    assert(m.tx_graph.last_seen =~= x.tx_graph.last_seen);
    assert(m.tx_graph.first_seen =~= x.tx_graph.first_seen);
    assert(m.tx_graph.last_evicted =~= x.tx_graph.last_evicted);
    assert(m.indexer.last_revealed =~= x.indexer.last_revealed);
    assert(m.indexer.spk_cache =~= x.indexer.spk_cache);
}

/// A store holding one changeset hands back exactly that changeset, and a
/// store holding two hands back the second merged into the first.
pub proof fn lemma_round_trip(x: ChangeSetModel, y: ChangeSetModel)
    ensures
        fold_models(Seq::empty()) == empty_model(),
        fold_models(seq![x]) == x,
        fold_models(seq![x, y]) == merge_models(x, y),
{
    lemma_merge_empty_left(x);
    assert(seq![x].drop_last() =~= Seq::<ChangeSetModel>::empty());
    assert(seq![x, y].drop_last() =~= seq![x]);
}

/// The fold of a history followed by more changesets is the fold of the
/// later ones merged into the fold of the history.
pub proof fn lemma_fold_append(h: Seq<ChangeSetModel>, g: Seq<ChangeSetModel>)
    ensures
        fold_models(h + g) == merge_models(fold_models(h), fold_models(g)),
    decreases g.len(),
{
    lemma_merge_empty_right(fold_models(h));
    if g.len() == 0 {
        assert(h + g =~= h);
    } else {
        assert((h + g).drop_last() =~= h + g.drop_last());
        lemma_fold_append(h, g.drop_last());
        lemma_merge_associative(fold_models(h), fold_models(g.drop_last()), g.last());
    }
}

/// A changeset recorded a second time, as a store may do when it is
/// redelivered after a crash, leaves the fold as one recording did.
pub proof fn lemma_redelivery(h: Seq<ChangeSetModel>, x: ChangeSetModel)
    ensures
        fold_models(h.push(x).push(x)) == fold_models(h.push(x)),
{
    assert(h.push(x).push(x).drop_last() =~= h.push(x));
    assert(h.push(x).drop_last() =~= h);
    lemma_merge_idempotent(fold_models(h), x);
}

/// A store that keeps, in memory, the fold of what was persisted. It
/// refuses a changeset that conflicts with its state, naming the field.
pub struct MemoryStore {
    state: ChangeSet,
    history: Ghost<Seq<ChangeSetModel>>,
    log: Ghost<Seq<StoreCall>>,
}

impl MemoryStore {
    pub fn new() -> (r: MemoryStore)
        ensures
            r.conforms(),
            r.state() == empty_model(),
            r.persisted() == Seq::<ChangeSetModel>::empty(),
            r.calls() == Seq::<StoreCall>::empty(),
    {
        MemoryStore { state: ChangeSet::new(), history: Ghost(Seq::empty()), log: Ghost(Seq::empty()) }
    }

    /// The changesets persisted so far, in order.
    pub closed spec fn persisted(&self) -> Seq<ChangeSetModel> {
        self.history@
    }

    /// The state of the store is the fold of what it was given.
    pub proof fn lemma_state_is_fold(&self)
        requires
            self.conforms(),
        ensures
            self.state() == fold_models(self.persisted()),
    {
    }
}

impl WalletPersister for MemoryStore {
    type Error = MergeConflict;

    closed spec fn conforms(&self) -> bool {
        self.state@ == fold_models(self.history@)
    }

    closed spec fn state(&self) -> ChangeSetModel {
        self.state@
    }

    closed spec fn calls(&self) -> Seq<StoreCall> {
        self.log@
    }

    fn initialize(&mut self) -> (r: Result<ChangeSet, MergeConflict>)
        ensures
            r is Ok,
            final(self).persisted() == old(self).persisted(),
    {
        let c = self.state.duplicate();
        self.log = Ghost(self.log@.push(StoreCall::Initialize { read: Some(c@) }));
        Ok(c)
    }

    fn persist(&mut self, changeset: &ChangeSet) -> (r: Result<(), MergeConflict>)
        ensures
            r is Ok == compatible(old(self).state(), changeset@),
            r is Ok ==> final(self).persisted() == old(self).persisted().push(changeset@),
            r is Err ==> final(self).persisted() == old(self).persisted(),
    {
        let r = self.state.try_merge(changeset.duplicate());
        if r.is_ok() {
            self.history = Ghost(self.history@.push(changeset@));
            assert(self.history@.drop_last() =~= old(self).history@);
        }
        self.log = Ghost(self.log@.push(StoreCall::Persist { changeset: changeset@, ok: r is Ok }));
        r
    }
}

} // verus!
