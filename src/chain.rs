//! The chain ledger: what the wallet believes about blocks, by height.
use vstd::prelude::*;
use crate::entries::{duplicate_entries, entry_views, latest, latest_sub, lemma_sub_map_both, lemma_latest_append, lemma_latest_nonempty, lookup};
use crate::primitives::{BlockHash, BlockId};

verus! {

/// A change to the chain ledger.
///
/// Each entry says of one height either that it holds the given block
/// (`Some`) or that the block once known there is retracted (`None`, a
/// tombstone). A height without an entry carries no information. A later
/// entry for a height replaces an earlier one.
#[derive(Debug)]
pub struct LocalChainChangeSet {
    pub blocks: Vec<(u32, Option<BlockHash>)>,
}

impl View for LocalChainChangeSet {
    type V = Map<u32, Option<BlockHash>>;

    open spec fn view(&self) -> Map<u32, Option<BlockHash>> {
        latest(self.blocks@)
    }
}

/// Chain ledger merge: the incoming entry wins at every height it names.
pub open spec fn merge_chain(
    a: Map<u32, Option<BlockHash>>,
    b: Map<u32, Option<BlockHash>>,
) -> Map<u32, Option<BlockHash>> {
    a.union_prefer_right(b)
}

impl LocalChainChangeSet {
    pub fn new() -> (r: LocalChainChangeSet)
        ensures
            r@ == Map::<u32, Option<BlockHash>>::empty(),
    {
        LocalChainChangeSet { blocks: Vec::new() }
    }

    /// Records `hash` at `height`: a block, or a tombstone for `None`.
    pub fn insert(&mut self, height: u32, hash: Option<BlockHash>)
        ensures
            final(self)@ == old(self)@.insert(height, hash),
    {
        self.blocks.push((height, hash));
        assert(self.blocks@.drop_last() == old(self).blocks@);
    }

    /// Folds `other` in: its entries replace this one's at the same height.
    pub fn merge(&mut self, other: LocalChainChangeSet)
        ensures
            final(self)@ == merge_chain(old(self)@, other@),
    {
        let mut other = other;
        proof {
            lemma_latest_append(self.blocks@, other.blocks@);
        }
        self.blocks.append(&mut other.blocks);
    }

    /// What the ledger says of `height`: `None` when nothing, else the
    /// block or the tombstone recorded there.
    pub fn get(&self, height: u32) -> (r: Option<Option<BlockHash>>)
        ensures
            r == lookup(self@, height),
    {
        let mut r: Option<Option<BlockHash>> = None;
        let mut i: usize = 0;
        while i < self.blocks.len()
            invariant
                i <= self.blocks@.len(),
                r == lookup(latest(self.blocks@.take(i as int)), height),
            decreases self.blocks@.len() - i,
        {
            let (h, b) = self.blocks[i];
            if h == height {
                r = Some(b);
            }
            proof {
                assert(self.blocks@.take(i + 1).drop_last() =~= self.blocks@.take(i as int));
            }
            i = i + 1;
        }
        assert(self.blocks@.take(i as int) =~= self.blocks@);
        r
    }

    /// Whether the ledger holds `block` at its height: neither absent nor
    /// tombstoned nor a different block. An anchor in a block for which this
    /// is false is void.
    pub fn confirms(&self, block: BlockId) -> (r: bool)
        ensures
            r == (self@.contains_key(block.height) && self@[block.height] == Some(block.hash)),
    {
        match self.get(block.height) {
            Some(Some(h)) => h == block.hash,
            _ => false,
        }
    }

    /// Whether the two changesets say the same of every height.
    pub fn same(&self, o: &LocalChainChangeSet) -> (r: bool)
        ensures
            r == (self@ == o@),
    {
        assert(entry_views(self.blocks@) =~= self.blocks@);
        assert(entry_views(o.blocks@) =~= o.blocks@);
        proof {
            lemma_sub_map_both(self@, o@);
        }
        latest_sub(&self.blocks, &o.blocks) && latest_sub(&o.blocks, &self.blocks)
    }

    pub fn is_empty(&self) -> (r: bool)
        ensures
            r == (self@ == Map::<u32, Option<BlockHash>>::empty()),
    {
        proof {
            if self.blocks@.len() > 0 {
                lemma_latest_nonempty(self.blocks@);
            }
        }
        self.blocks.len() == 0
    }

    pub fn duplicate(&self) -> (r: LocalChainChangeSet)
        ensures
            r@ == self@,
    {
        let blocks = duplicate_entries(&self.blocks);
        assert(entry_views(blocks@) =~= blocks@);
        assert(entry_views(self.blocks@) =~= self.blocks@);
        LocalChainChangeSet { blocks }
    }
}

} // verus!
