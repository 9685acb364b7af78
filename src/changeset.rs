//! The wallet changeset: one change to each component plus the wallet's
//! identity fields, and the rules that merge two changesets.
use vstd::prelude::*;
use crate::chain::{merge_chain, LocalChainChangeSet};
use crate::keychain::{empty_keychain, merge_keychain, KeychainChangeSet, KeychainModel};
use crate::primitives::{BlockHash, Network};
use crate::tx_graph::{empty_tx_graph, merge_tx_graph, TxGraphChangeSet, TxGraphModel};

verus! {

/// What a wallet changeset says.
pub struct ChangeSetModel {
    pub descriptor: Option<Seq<char>>,
    pub change_descriptor: Option<Seq<char>>,
    pub network: Option<Network>,
    pub local_chain: Map<u32, Option<BlockHash>>,
    pub tx_graph: TxGraphModel,
    pub indexer: KeychainModel,
}

/// One atomic change to the wallet's state.
///
/// `descriptor` and `change_descriptor` hold the text of the two
/// derivation templates. They and `network` are set once: a changeset that
/// names a different value than the one already held is a producer's error,
/// which `try_merge` reports and `merge` rules out. Descriptors are held
/// and compared as text: what a descriptor means is not this library's
/// concern, so two spellings of one descriptor count as different.
#[derive(Debug)]
pub struct ChangeSet {
    pub descriptor: Option<String>,
    pub change_descriptor: Option<String>,
    pub network: Option<Network>,
    pub local_chain: LocalChainChangeSet,
    pub tx_graph: TxGraphChangeSet,
    pub indexer: KeychainChangeSet,
}

pub open spec fn text_of(o: Option<String>) -> Option<Seq<char>> {
    match o {
        Some(s) => Some(s@),
        None => None,
    }
}

impl View for ChangeSet {
    type V = ChangeSetModel;

    open spec fn view(&self) -> ChangeSetModel {
        ChangeSetModel {
            descriptor: text_of(self.descriptor),
            change_descriptor: text_of(self.change_descriptor),
            network: self.network,
            local_chain: self.local_chain@,
            tx_graph: self.tx_graph@,
            indexer: self.indexer@,
        }
    }
}

/// The changeset that changes nothing.
pub open spec fn empty_model() -> ChangeSetModel {
    ChangeSetModel {
        descriptor: None,
        change_descriptor: None,
        network: None,
        local_chain: Map::empty(),
        tx_graph: empty_tx_graph(),
        indexer: empty_keychain(),
    }
}

/// A set-once field after a merge: the incoming value if there is one,
/// else the one held.
pub open spec fn set_once<T>(held: Option<T>, incoming: Option<T>) -> Option<T> {
    if incoming is Some {
        incoming
    } else {
        held
    }
}

/// Merging `incoming` into `held` does not change a value already set.
pub open spec fn settles<T>(held: Option<T>, incoming: Option<T>) -> bool {
    held is None || incoming is None || held == incoming
}

/// No set-once field of `b` contradicts `a`.
pub open spec fn compatible(a: ChangeSetModel, b: ChangeSetModel) -> bool {
    &&& settles(a.descriptor, b.descriptor)
    &&& settles(a.change_descriptor, b.change_descriptor)
    &&& settles(a.network, b.network)
}

/// The result of merging `b` into `a`.
pub open spec fn merge_models(a: ChangeSetModel, b: ChangeSetModel) -> ChangeSetModel {
    ChangeSetModel {
        descriptor: set_once(a.descriptor, b.descriptor),
        change_descriptor: set_once(a.change_descriptor, b.change_descriptor),
        network: set_once(a.network, b.network),
        local_chain: merge_chain(a.local_chain, b.local_chain),
        tx_graph: merge_tx_graph(a.tx_graph, b.tx_graph),
        indexer: merge_keychain(a.indexer, b.indexer),
    }
}

/// The set-once field on which a merge was refused.
#[derive(Clone, Copy, Debug, PartialEq, Eq, Structural)]
pub enum MergeConflict {
    Descriptor,
    ChangeDescriptor,
    Network,
}

fn text_settles(held: &Option<String>, incoming: &Option<String>) -> (r: bool)
    ensures
        r == settles(text_of(*held), text_of(*incoming)),
{
    match (held, incoming) {
        (Some(a), Some(b)) => a.eq(b),
        _ => true,
    }
}

/// Whether two optional texts are equal.
pub fn text_equal(a: &Option<String>, b: &Option<String>) -> (r: bool)
    ensures
        r == (text_of(*a) == text_of(*b)),
{
    match (a, b) {
        (Some(x), Some(y)) => x.eq(y),
        (None, None) => true,
        _ => false,
    }
}

fn network_settles(held: Option<Network>, incoming: Option<Network>) -> (r: bool)
    ensures
        r == settles(held, incoming),
{
    match (held, incoming) {
        (Some(a), Some(b)) => a == b,
        _ => true,
    }
}

fn duplicate_text(o: &Option<String>) -> (r: Option<String>)
    ensures
        text_of(r) == text_of(*o),
{
    match o {
        Some(s) => Some(s.clone()),
        None => None,
    }
}

impl ChangeSet {
    /// The changeset that changes nothing.
    pub fn new() -> (r: ChangeSet)
        ensures
            r@ == empty_model(),
    {
        ChangeSet {
            descriptor: None,
            change_descriptor: None,
            network: None,
            local_chain: LocalChainChangeSet::new(),
            tx_graph: TxGraphChangeSet::new(),
            indexer: KeychainChangeSet::new(),
        }
    }

    /// Whether this changeset changes nothing.
    pub fn is_empty(&self) -> (r: bool)
        ensures
            r == (self@ == empty_model()),
    {
        self.descriptor.is_none() && self.change_descriptor.is_none() && self.network.is_none()
            && self.local_chain.is_empty() && self.tx_graph.is_empty() && self.indexer.is_empty()
    }

    /// Whether the two changesets say the same: every field of one equals the
    /// same field of the other.
    pub fn same_state(&self, o: &ChangeSet) -> (r: bool)
        ensures
            r == (self@ == o@),
    {
        text_equal(&self.descriptor, &o.descriptor) && text_equal(
            &self.change_descriptor,
            &o.change_descriptor,
        ) && self.network == o.network && self.local_chain.same(&o.local_chain)
            && self.tx_graph.same(&o.tx_graph) && self.indexer.same(&o.indexer)
    }

    /// Whether `other` can be merged into this changeset, that is, names no
    /// set-once value different from one held here.
    pub fn can_merge(&self, other: &ChangeSet) -> (r: bool)
        ensures
            r == compatible(self@, other@),
    {
        text_settles(&self.descriptor, &other.descriptor) && text_settles(
            &self.change_descriptor,
            &other.change_descriptor,
        ) && network_settles(self.network, other.network)
    }

    /// Merges `other` in whatever its set-once fields hold; an incoming
    /// value replaces the one held.
    pub(crate) fn absorb(&mut self, other: ChangeSet)
        ensures
            final(self)@ == merge_models(old(self)@, other@),
    {
        let ChangeSet { descriptor, change_descriptor, network, local_chain, tx_graph, indexer } =
            other;
        if descriptor.is_some() {
            self.descriptor = descriptor;
        }
        if change_descriptor.is_some() {
            self.change_descriptor = change_descriptor;
        }
        if network.is_some() {
            self.network = network;
        }
        self.local_chain.merge(local_chain);
        self.tx_graph.merge(tx_graph);
        self.indexer.merge(indexer);
    }

    /// Merges `other` into this changeset, consuming it.
    pub fn merge(&mut self, other: ChangeSet)
        requires
            compatible(old(self)@, other@),
        ensures
            final(self)@ == merge_models(old(self)@, other@),
    {
        self.absorb(other);
    }

    /// Merges `other` into this changeset if no set-once field conflicts;
    /// otherwise leaves it unchanged and names the first conflicting field
    /// (descriptor, change descriptor, network).
    pub fn try_merge(&mut self, other: ChangeSet) -> (r: Result<(), MergeConflict>)
        ensures
            r is Ok <==> compatible(old(self)@, other@),
            r is Ok ==> final(self)@ == merge_models(old(self)@, other@),
            r is Err ==> final(self)@ == old(self)@,
            r == Err::<(), MergeConflict>(MergeConflict::Descriptor) <==> !settles(
                old(self)@.descriptor,
                other@.descriptor,
            ),
            r == Err::<(), MergeConflict>(MergeConflict::ChangeDescriptor) <==> settles(
                old(self)@.descriptor,
                other@.descriptor,
            ) && !settles(old(self)@.change_descriptor, other@.change_descriptor),
            r == Err::<(), MergeConflict>(MergeConflict::Network) <==> settles(
                old(self)@.descriptor,
                other@.descriptor,
            ) && settles(old(self)@.change_descriptor, other@.change_descriptor) && !settles(
                old(self)@.network,
                other@.network,
            ),
    {
        if !text_settles(&self.descriptor, &other.descriptor) {
            return Err(MergeConflict::Descriptor);
        }
        if !text_settles(&self.change_descriptor, &other.change_descriptor) {
            return Err(MergeConflict::ChangeDescriptor);
        }
        if !network_settles(self.network, other.network) {
            return Err(MergeConflict::Network);
        }
        self.absorb(other);
        Ok(())
    }

    /// A copy of this changeset.
    pub fn duplicate(&self) -> (r: ChangeSet)
        ensures
            r@ == self@,
    {
        ChangeSet {
            descriptor: duplicate_text(&self.descriptor),
            change_descriptor: duplicate_text(&self.change_descriptor),
            network: self.network,
            local_chain: self.local_chain.duplicate(),
            tx_graph: self.tx_graph.duplicate(),
            indexer: self.indexer.duplicate(),
        }
    }
}

impl Default for ChangeSet {
    fn default() -> (r: ChangeSet)
        ensures
            r@ == empty_model(),
    {
        ChangeSet::new()
    }
}

} // verus!
