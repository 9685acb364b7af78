//! Laws of the merge: what holds of every changeset.
use vstd::prelude::*;
use crate::changeset::{compatible, merge_models, ChangeSetModel};
use crate::entries::{agree, join, pick};
use crate::keychain::{merge_keychain, KeychainModel};
use crate::primitives::Txid;
use crate::tx_graph::{merge_tx_graph, TxGraphModel};

verus! {

proof fn lemma_join_laws<K>(a: Map<K, int>, b: Map<K, int>, c: Map<K, int>, hi: bool)
    ensures
        join(join(a, b, hi), b, hi) == join(a, b, hi),
        join(join(a, b, hi), c, hi) == join(a, join(b, c, hi), hi),
        join(a, b, hi) == join(b, a, hi),
{
    assert(join(join(a, b, hi), b, hi) =~= join(a, b, hi));
    assert(join(join(a, b, hi), c, hi) =~= join(a, join(b, c, hi), hi));
    assert(join(a, b, hi) =~= join(b, a, hi));
}

proof fn lemma_union_laws<K, W>(a: Map<K, W>, b: Map<K, W>, c: Map<K, W>)
    ensures
        a.union_prefer_right(b).union_prefer_right(b) == a.union_prefer_right(b),
        a.union_prefer_right(b).union_prefer_right(c) == a.union_prefer_right(
            b.union_prefer_right(c),
        ),
        agree(a, b) ==> a.union_prefer_right(b) == b.union_prefer_right(a),
{
    assert(a.union_prefer_right(b).union_prefer_right(b) =~= a.union_prefer_right(b));
    assert(a.union_prefer_right(b).union_prefer_right(c) =~= a.union_prefer_right(
        b.union_prefer_right(c),
    ));
    if agree(a, b) {
        assert(a.union_prefer_right(b) =~= b.union_prefer_right(a));
    }
}

proof fn lemma_set_laws<T>(a: Set<T>, b: Set<T>, c: Set<T>)
    ensures
        a.union(b).union(b) == a.union(b),
        a.union(b).union(c) == a.union(b.union(c)),
        a.union(b) == b.union(a),
{
    assert(a.union(b).union(b) =~= a.union(b));
    assert(a.union(b).union(c) =~= a.union(b.union(c)));
    assert(a.union(b) =~= b.union(a));
}

proof fn lemma_tx_graph_laws(a: TxGraphModel, b: TxGraphModel, c: TxGraphModel)
    ensures
        merge_tx_graph(merge_tx_graph(a, b), b) == merge_tx_graph(a, b),
        merge_tx_graph(merge_tx_graph(a, b), c) == merge_tx_graph(a, merge_tx_graph(b, c)),
        agree(a.txouts, b.txouts) ==> merge_tx_graph(a, b) == merge_tx_graph(b, a),
{
    lemma_set_laws(a.txs, b.txs, c.txs);
    lemma_set_laws(a.anchors, b.anchors, c.anchors);
    lemma_union_laws(a.txouts, b.txouts, c.txouts);
    lemma_join_laws(a.last_seen, b.last_seen, c.last_seen, true);
    lemma_join_laws(a.first_seen, b.first_seen, c.first_seen, false);
    lemma_join_laws(a.last_evicted, b.last_evicted, c.last_evicted, true);
}

proof fn lemma_keychain_laws(a: KeychainModel, b: KeychainModel, c: KeychainModel)
    ensures
        merge_keychain(merge_keychain(a, b), b) == merge_keychain(a, b),
        merge_keychain(merge_keychain(a, b), c) == merge_keychain(a, merge_keychain(b, c)),
        agree(a.spk_cache, b.spk_cache) ==> merge_keychain(a, b) == merge_keychain(b, a),
{
    lemma_union_laws(a.spk_cache, b.spk_cache, c.spk_cache);
    lemma_join_laws(a.last_revealed, b.last_revealed, c.last_revealed, true);
}

/// Merging the same changeset a second time changes nothing: a changeset
/// delivered again after a crash leaves the state as one delivery did.
pub proof fn lemma_merge_idempotent(a: ChangeSetModel, b: ChangeSetModel)
    ensures
        merge_models(merge_models(a, b), b) == merge_models(a, b),
{
    lemma_union_laws(a.local_chain, b.local_chain, b.local_chain);
    lemma_tx_graph_laws(a.tx_graph, b.tx_graph, b.tx_graph);
    lemma_keychain_laws(a.indexer, b.indexer, b.indexer);
}

/// Merging is associative: folding `b` then `c` into `a` gives what
/// folding the merge of `b` and `c` into `a` gives.
pub proof fn lemma_merge_associative(a: ChangeSetModel, b: ChangeSetModel, c: ChangeSetModel)
    ensures
        merge_models(merge_models(a, b), c) == merge_models(a, merge_models(b, c)),
{
    lemma_union_laws(a.local_chain, b.local_chain, c.local_chain);
    lemma_tx_graph_laws(a.tx_graph, b.tx_graph, c.tx_graph);
    lemma_keychain_laws(a.indexer, b.indexer, c.indexer);
}

/// For two changesets whose set-once fields do not conflict, and whose
/// floating outputs and cached scripts agree where both name one, the order
/// of the merge does not matter outside the chain ledger.
pub proof fn lemma_merge_commutative(a: ChangeSetModel, b: ChangeSetModel)
    requires
        compatible(a, b),
        agree(a.tx_graph.txouts, b.tx_graph.txouts),
        agree(a.indexer.spk_cache, b.indexer.spk_cache),
    ensures
        merge_models(a, b) == (ChangeSetModel {
            local_chain: merge_models(a, b).local_chain,
            ..merge_models(b, a)
        }),
{
    lemma_tx_graph_laws(a.tx_graph, b.tx_graph, b.tx_graph);
    lemma_keychain_laws(a.indexer, b.indexer, b.indexer);
}

/// On the chain ledger the changeset merged last wins at every height it
/// names, a tombstone as much as a block; every other height keeps what it
/// held.
pub proof fn lemma_chain_last_applied_wins(a: ChangeSetModel, b: ChangeSetModel, height: u32)
    ensures
        b.local_chain.contains_key(height) ==> merge_models(a, b).local_chain.contains_key(height)
            && merge_models(a, b).local_chain[height] == b.local_chain[height],
        !b.local_chain.contains_key(height) ==> (merge_models(a, b).local_chain.contains_key(
            height,
        ) == a.local_chain.contains_key(height) && (a.local_chain.contains_key(height)
            ==> merge_models(a, b).local_chain[height] == a.local_chain[height])),
{
}

/// Observed times only move one way under a merge: the last-seen and
/// eviction times of a transaction become the later of the two, its
/// first-seen time the earlier, and a revealed index never goes down.
pub proof fn lemma_merge_times_monotonic(a: ChangeSetModel, b: ChangeSetModel, txid: Txid)
    ensures
        ({
            let (x, y, m) = (a.tx_graph, b.tx_graph, merge_models(a, b).tx_graph);
            &&& x.last_seen.contains_key(txid) && y.last_seen.contains_key(txid)
                ==> m.last_seen[txid] == pick(x.last_seen[txid], y.last_seen[txid], true)
            &&& x.first_seen.contains_key(txid) && y.first_seen.contains_key(txid)
                ==> m.first_seen[txid] == pick(x.first_seen[txid], y.first_seen[txid], false)
            &&& x.last_evicted.contains_key(txid) && y.last_evicted.contains_key(txid)
                ==> m.last_evicted[txid] == pick(
                x.last_evicted[txid],
                y.last_evicted[txid],
                true,
            )
            &&& x.last_seen.contains_key(txid) ==> m.last_seen[txid] >= x.last_seen[txid]
            &&& y.last_seen.contains_key(txid) ==> m.last_seen[txid] >= y.last_seen[txid]
            &&& x.first_seen.contains_key(txid) ==> m.first_seen[txid] <= x.first_seen[txid]
            &&& y.first_seen.contains_key(txid) ==> m.first_seen[txid] <= y.first_seen[txid]
            &&& x.last_evicted.contains_key(txid) ==> m.last_evicted[txid]
                >= x.last_evicted[txid]
            &&& y.last_evicted.contains_key(txid) ==> m.last_evicted[txid]
                >= y.last_evicted[txid]
        }),
        ({
            let (x, y, m) = (a.indexer, b.indexer, merge_models(a, b).indexer);
            forall|k| #[trigger] m.last_revealed.contains_key(k) ==> (x.last_revealed.contains_key(k)
                ==> m.last_revealed[k] >= x.last_revealed[k]) && (y.last_revealed.contains_key(k)
                ==> m.last_revealed[k] >= y.last_revealed[k])
        }),
{
}

} // verus!
