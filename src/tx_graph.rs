//! The transaction graph: known transactions, floating outputs, anchors,
//! and when transactions were seen in or evicted from the mempool.
use vstd::prelude::*;
use crate::entries::{
    copies_sub, extreme_sub64, latest_sub, lemma_sub_map_both, lemma_subset_both, views_sub,
    copy_all, duplicate_all, duplicate_entries, lemma_extreme_single, lemma_single_to_set, entry_views, extreme, extreme_lookup64, holds64, join,
    latest, lemma_entry_views_append, lemma_extreme_append, lemma_extreme_nonempty,
    lemma_latest_append, lemma_latest_nonempty, lemma_widen64_append, widen64,
};
use crate::primitives::{
    ConfirmationBlockTime, Transaction, TransactionModel, TxOut, TxOutModel, Txid, OutPoint,
};

verus! {

/// What a transaction graph changeset says.
pub struct TxGraphModel {
    pub txs: Set<TransactionModel>,
    pub txouts: Map<OutPoint, TxOutModel>,
    pub anchors: Set<(ConfirmationBlockTime, Txid)>,
    pub last_seen: Map<Txid, int>,
    pub first_seen: Map<Txid, int>,
    pub last_evicted: Map<Txid, int>,
}

/// A change to the transaction graph.
///
/// Transactions and anchors are sets; floating outputs are keyed by
/// outpoint; the three time maps keep, per transaction, the latest last
/// sighting, the earliest first sighting and the latest eviction.
///
/// Anchors are never pruned when the chain ledger retracts their block: a
/// reader checks each anchor against the ledger (`LocalChainChangeSet::confirms`)
/// and treats the ones it does not confirm as void.
#[derive(Debug)]
pub struct TxGraphChangeSet {
    pub txs: Vec<Transaction>,
    pub txouts: Vec<(OutPoint, TxOut)>,
    pub anchors: Vec<(ConfirmationBlockTime, Txid)>,
    pub last_seen: Vec<(Txid, u64)>,
    pub first_seen: Vec<(Txid, u64)>,
    pub last_evicted: Vec<(Txid, u64)>,
}

pub open spec fn tx_set(s: Seq<Transaction>) -> Set<TransactionModel> {
    s.map_values(|t: Transaction| t@).to_set()
}

impl View for TxGraphChangeSet {
    type V = TxGraphModel;

    open spec fn view(&self) -> TxGraphModel {
        TxGraphModel {
            txs: tx_set(self.txs@),
            txouts: latest(entry_views(self.txouts@)),
            anchors: self.anchors@.to_set(),
            last_seen: extreme(widen64(self.last_seen@), true),
            first_seen: extreme(widen64(self.first_seen@), false),
            last_evicted: extreme(widen64(self.last_evicted@), true),
        }
    }
}

pub open spec fn empty_tx_graph() -> TxGraphModel {
    TxGraphModel {
        txs: Set::empty(),
        txouts: Map::empty(),
        anchors: Set::empty(),
        last_seen: Map::empty(),
        first_seen: Map::empty(),
        last_evicted: Map::empty(),
    }
}

/// Transaction graph merge: union of transactions and anchors, incoming
/// floating outputs by outpoint, latest last-seen and eviction times and
/// earliest first-seen time per transaction.
pub open spec fn merge_tx_graph(a: TxGraphModel, b: TxGraphModel) -> TxGraphModel {
    TxGraphModel {
        txs: a.txs.union(b.txs),
        txouts: a.txouts.union_prefer_right(b.txouts),
        anchors: a.anchors.union(b.anchors),
        last_seen: join(a.last_seen, b.last_seen, true),
        first_seen: join(a.first_seen, b.first_seen, false),
        last_evicted: join(a.last_evicted, b.last_evicted, true),
    }
}

pub proof fn lemma_to_set_append<T>(a: Seq<T>, b: Seq<T>)
    ensures
        (a + b).to_set() == a.to_set().union(b.to_set()),
{
    assert forall|x: T| #[trigger] (a + b).to_set().contains(x) implies a.to_set().union(
        b.to_set(),
    ).contains(x) by {
        let i = choose|i: int| 0 <= i < (a + b).len() && (a + b)[i] == x;
        if i < a.len() {
            assert(a[i] == x);
        } else {
            assert(b[i - a.len()] == x);
        }
    }
    assert forall|x: T| #[trigger] a.to_set().union(b.to_set()).contains(x) implies (a
        + b).to_set().contains(x) by {
        if a.contains(x) {
            let i = choose|i: int| 0 <= i < a.len() && a[i] == x;
            assert((a + b)[i] == x);
        } else {
            let i = choose|i: int| 0 <= i < b.len() && b[i] == x;
            assert((a + b)[i + a.len()] == x);
        }
    }
    assert((a + b).to_set() =~= a.to_set().union(b.to_set()));
}

impl TxGraphChangeSet {
    pub fn new() -> (r: TxGraphChangeSet)
        ensures
            r@ == empty_tx_graph(),
    {
        let r = TxGraphChangeSet {
            txs: Vec::new(),
            txouts: Vec::new(),
            anchors: Vec::new(),
            last_seen: Vec::new(),
            first_seen: Vec::new(),
            last_evicted: Vec::new(),
        };
        assert(r@.txs =~= Set::<TransactionModel>::empty());
        assert(r@.anchors =~= Set::<(ConfirmationBlockTime, Txid)>::empty());
        assert(r@.txouts =~= Map::<OutPoint, TxOutModel>::empty());
        r
    }

    pub fn insert_tx(&mut self, tx: Transaction)
        ensures
            final(self)@ == (TxGraphModel { txs: old(self)@.txs.insert(tx@), ..old(self)@ }),
    {
        let ghost t = tx@;
        self.txs.push(tx);
        proof {
            lemma_to_set_append(old(self).txs@.map_values(|t: Transaction| t@), seq![t]);
            assert(self.txs@.map_values(|t: Transaction| t@) =~= old(self).txs@.map_values(
                |t: Transaction| t@,
            ) + seq![t]);
            lemma_single_to_set(t);
            assert(final(self)@.txs =~= old(self)@.txs.insert(t));
        }
    }

    pub fn insert_txout(&mut self, outpoint: OutPoint, txout: TxOut)
        ensures
            final(self)@ == (TxGraphModel {
                txouts: old(self)@.txouts.insert(outpoint, txout@),
                ..old(self)@
            }),
    {
        self.txouts.push((outpoint, txout));
        assert(entry_views(self.txouts@).drop_last() =~= entry_views(old(self).txouts@));
    }

    pub fn insert_anchor(&mut self, anchor: ConfirmationBlockTime, txid: Txid)
        ensures
            final(self)@ == (TxGraphModel {
                anchors: old(self)@.anchors.insert((anchor, txid)),
                ..old(self)@
            }),
    {
        self.anchors.push((anchor, txid));
        proof {
            lemma_to_set_append(old(self).anchors@, seq![(anchor, txid)]);
            assert(self.anchors@ =~= old(self).anchors@ + seq![(anchor, txid)]);
            lemma_single_to_set((anchor, txid));
            assert(final(self)@.anchors =~= old(self)@.anchors.insert((anchor, txid)));
        }
    }

    /// Records that `txid` was last seen in the mempool at `time`.
    pub fn insert_last_seen(&mut self, txid: Txid, time: u64)
        ensures
            final(self)@ == (TxGraphModel {
                last_seen: join(old(self)@.last_seen, map![txid => time as int], true),
                ..old(self)@
            }),
    {
        let ghost one = seq![(txid, time)];
        proof {
            lemma_widen64_append(self.last_seen@, one);
            lemma_extreme_append(widen64(self.last_seen@), widen64(one), true);
            assert(widen64(one) =~= seq![(txid, time as int)]);
            lemma_extreme_single(txid, time as int, true);
        }
        self.last_seen.push((txid, time));
        assert(self.last_seen@ =~= old(self).last_seen@ + one);
    }

    /// Records that `txid` was first seen in the mempool at `time`.
    pub fn insert_first_seen(&mut self, txid: Txid, time: u64)
        ensures
            final(self)@ == (TxGraphModel {
                first_seen: join(old(self)@.first_seen, map![txid => time as int], false),
                ..old(self)@
            }),
    {
        let ghost one = seq![(txid, time)];
        proof {
            lemma_widen64_append(self.first_seen@, one);
            lemma_extreme_append(widen64(self.first_seen@), widen64(one), false);
            assert(widen64(one) =~= seq![(txid, time as int)]);
            lemma_extreme_single(txid, time as int, false);
        }
        self.first_seen.push((txid, time));
        assert(self.first_seen@ =~= old(self).first_seen@ + one);
    }

    /// Records that `txid` was evicted from the mempool at `time`.
    pub fn insert_evicted_at(&mut self, txid: Txid, time: u64)
        ensures
            final(self)@ == (TxGraphModel {
                last_evicted: join(old(self)@.last_evicted, map![txid => time as int], true),
                ..old(self)@
            }),
    {
        let ghost one = seq![(txid, time)];
        proof {
            lemma_widen64_append(self.last_evicted@, one);
            lemma_extreme_append(widen64(self.last_evicted@), widen64(one), true);
            assert(widen64(one) =~= seq![(txid, time as int)]);
            lemma_extreme_single(txid, time as int, true);
        }
        self.last_evicted.push((txid, time));
        assert(self.last_evicted@ =~= old(self).last_evicted@ + one);
    }

    /// Folds `other` in.
    pub fn merge(&mut self, other: TxGraphChangeSet)
        ensures
            final(self)@ == merge_tx_graph(old(self)@, other@),
    {
        let mut other = other;
        proof {
            let f = |t: Transaction| t@;
            assert((self.txs@ + other.txs@).map_values(f) =~= self.txs@.map_values(f)
                + other.txs@.map_values(f));
            lemma_to_set_append(self.txs@.map_values(f), other.txs@.map_values(f));
            lemma_entry_views_append(self.txouts@, other.txouts@);
            lemma_latest_append(entry_views(self.txouts@), entry_views(other.txouts@));
            lemma_to_set_append(self.anchors@, other.anchors@);
            lemma_widen64_append(self.last_seen@, other.last_seen@);
            lemma_extreme_append(widen64(self.last_seen@), widen64(other.last_seen@), true);
            lemma_widen64_append(self.first_seen@, other.first_seen@);
            lemma_extreme_append(widen64(self.first_seen@), widen64(other.first_seen@), false);
            lemma_widen64_append(self.last_evicted@, other.last_evicted@);
            lemma_extreme_append(
                widen64(self.last_evicted@),
                widen64(other.last_evicted@),
                true,
            );
        }
        self.txs.append(&mut other.txs);
        self.txouts.append(&mut other.txouts);
        self.anchors.append(&mut other.anchors);
        self.last_seen.append(&mut other.last_seen);
        self.first_seen.append(&mut other.first_seen);
        self.last_evicted.append(&mut other.last_evicted);
    }

    /// The latest time `txid` was last seen, if recorded.
    pub fn last_seen_of(&self, txid: Txid) -> (r: Option<u64>)
        ensures
            holds64(self@.last_seen, txid, r),
    {
        extreme_lookup64(&self.last_seen, txid, true)
    }

    /// The earliest time `txid` was first seen, if recorded.
    pub fn first_seen_of(&self, txid: Txid) -> (r: Option<u64>)
        ensures
            holds64(self@.first_seen, txid, r),
    {
        extreme_lookup64(&self.first_seen, txid, false)
    }

    /// The latest time `txid` was evicted, if recorded.
    pub fn last_evicted_of(&self, txid: Txid) -> (r: Option<u64>)
        ensures
            holds64(self@.last_evicted, txid, r),
    {
        extreme_lookup64(&self.last_evicted, txid, true)
    }

    /// Whether `txid` is anchored in the block of `anchor`.
    pub fn has_anchor(&self, anchor: ConfirmationBlockTime, txid: Txid) -> (r: bool)
        ensures
            r == self@.anchors.contains((anchor, txid)),
    {
        let mut i: usize = 0;
        while i < self.anchors.len()
            invariant
                i <= self.anchors@.len(),
                forall|j: int| 0 <= j < i ==> self.anchors@[j] != (anchor, txid),
            decreases self.anchors@.len() - i,
        {
            let (a, t) = self.anchors[i];
            if a == anchor && t == txid {
                assert(self.anchors@[i as int] == (anchor, txid));
                return true;
            }
            i = i + 1;
        }
        false
    }

    /// Whether the two changesets say the same of every transaction.
    pub fn same(&self, o: &TxGraphChangeSet) -> (r: bool)
        ensures
            r == (self@ == o@),
    {
        let txs = views_sub(&self.txs, &o.txs) && views_sub(&o.txs, &self.txs);
        let txouts = latest_sub(&self.txouts, &o.txouts) && latest_sub(&o.txouts, &self.txouts);
        let anchors = copies_sub(&self.anchors, &o.anchors) && copies_sub(&o.anchors, &self.anchors);
        let last_seen = extreme_sub64(&self.last_seen, &o.last_seen, true) && extreme_sub64(
            &o.last_seen,
            &self.last_seen,
            true,
        );
        let first_seen = extreme_sub64(&self.first_seen, &o.first_seen, false) && extreme_sub64(
            &o.first_seen,
            &self.first_seen,
            false,
        );
        let last_evicted = extreme_sub64(&self.last_evicted, &o.last_evicted, true)
            && extreme_sub64(&o.last_evicted, &self.last_evicted, true);
        proof {
            lemma_subset_both(self@.txs, o@.txs);
            lemma_sub_map_both(self@.txouts, o@.txouts);
            lemma_subset_both(self@.anchors, o@.anchors);
            lemma_sub_map_both(self@.last_seen, o@.last_seen);
            lemma_sub_map_both(self@.first_seen, o@.first_seen);
            lemma_sub_map_both(self@.last_evicted, o@.last_evicted);
        }
        txs && txouts && anchors && last_seen && first_seen && last_evicted
    }

    pub fn is_empty(&self) -> (r: bool)
        ensures
            r == (self@ == empty_tx_graph()),
    {
        proof {
            if self.txs@.len() > 0 {
                let t = self.txs@[0]@;
                assert(self.txs@.map_values(|t: Transaction| t@)[0] == t);
                assert(self@.txs.contains(t));
            }
            if self.txouts@.len() > 0 {
                lemma_latest_nonempty(entry_views(self.txouts@));
            }
            if self.anchors@.len() > 0 {
                assert(self@.anchors.contains(self.anchors@[0]));
            }
            if self.last_seen@.len() > 0 {
                lemma_extreme_nonempty(widen64(self.last_seen@), true);
            }
            if self.first_seen@.len() > 0 {
                lemma_extreme_nonempty(widen64(self.first_seen@), false);
            }
            if self.last_evicted@.len() > 0 {
                lemma_extreme_nonempty(widen64(self.last_evicted@), true);
            }
            let e = empty_tx_graph();
            if self.txs@.len() == 0 && self.txouts@.len() == 0 && self.anchors@.len() == 0
                && self.last_seen@.len() == 0 && self.first_seen@.len() == 0
                && self.last_evicted@.len() == 0 {
                assert(self@.txs =~= e.txs);
                assert(self@.anchors =~= e.anchors);
                assert(self@.txouts =~= e.txouts);
            }
        }
        self.txs.len() == 0 && self.txouts.len() == 0 && self.anchors.len() == 0
            && self.last_seen.len() == 0 && self.first_seen.len() == 0
            && self.last_evicted.len() == 0
    }

    pub fn duplicate(&self) -> (r: TxGraphChangeSet)
        ensures
            r@ == self@,
    {
        let txs = duplicate_all(&self.txs);
        assert(txs@.map_values(|t: Transaction| t@) =~= self.txs@.map_values(|t: Transaction| t@));
        let txouts = duplicate_entries(&self.txouts);
        let last_seen = duplicate_entries(&self.last_seen);
        let first_seen = duplicate_entries(&self.first_seen);
        let last_evicted = duplicate_entries(&self.last_evicted);
        assert(entry_views(last_seen@) =~= last_seen@);
        assert(entry_views(self.last_seen@) =~= self.last_seen@);
        assert(entry_views(first_seen@) =~= first_seen@);
        assert(entry_views(self.first_seen@) =~= self.first_seen@);
        assert(entry_views(last_evicted@) =~= last_evicted@);
        assert(entry_views(self.last_evicted@) =~= self.last_evicted@);
        TxGraphChangeSet {
            txs,
            txouts,
            anchors: copy_all(&self.anchors),
            last_seen,
            first_seen,
            last_evicted,
        }
    }
}

} // verus!
