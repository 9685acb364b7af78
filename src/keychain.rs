//! The keychain index: how far each derivation path has been revealed, and
//! the scripts derived so far.
use vstd::prelude::*;
use crate::entries::{
    last_index, lemma_latest_dom, lemma_latest_value,
    extreme_sub32, latest_sub, lemma_sub_map_both,
    duplicate_entries, entry_views, extreme, extreme_lookup32, holds32, join, latest,
    lemma_entry_views_append, lemma_extreme_append, lemma_extreme_nonempty,
    lemma_extreme_single, lemma_latest_append, lemma_latest_nonempty, lemma_widen32_append,
    widen32,
};
use crate::primitives::{DescriptorId, Duplicate, ScriptBuf};

verus! {

/// What a keychain index changeset says.
pub struct KeychainModel {
    pub last_revealed: Map<DescriptorId, int>,
    pub spk_cache: Map<(DescriptorId, u32), Seq<u8>>,
}

/// A change to the keychain index.
///
/// `last_revealed` keeps, per derivation path, the highest index handed
/// out; `spk_cache` holds the script derived at a path and an index.
#[derive(Debug)]
pub struct KeychainChangeSet {
    pub last_revealed: Vec<(DescriptorId, u32)>,
    pub spk_cache: Vec<((DescriptorId, u32), ScriptBuf)>,
}

impl View for KeychainChangeSet {
    type V = KeychainModel;

    open spec fn view(&self) -> KeychainModel {
        KeychainModel {
            last_revealed: extreme(widen32(self.last_revealed@), true),
            spk_cache: latest(entry_views(self.spk_cache@)),
        }
    }
}

pub open spec fn empty_keychain() -> KeychainModel {
    KeychainModel { last_revealed: Map::empty(), spk_cache: Map::empty() }
}

/// Keychain index merge: the highest revealed index per path, and the
/// union of the script caches.
pub open spec fn merge_keychain(a: KeychainModel, b: KeychainModel) -> KeychainModel {
    KeychainModel {
        last_revealed: join(a.last_revealed, b.last_revealed, true),
        spk_cache: a.spk_cache.union_prefer_right(b.spk_cache),
    }
}

impl KeychainChangeSet {
    pub fn new() -> (r: KeychainChangeSet)
        ensures
            r@ == empty_keychain(),
    {
        let r = KeychainChangeSet { last_revealed: Vec::new(), spk_cache: Vec::new() };
        assert(r@.spk_cache =~= Map::<(DescriptorId, u32), Seq<u8>>::empty());
        r
    }

    /// Records that `index` was revealed on the path `keychain`.
    pub fn insert_revealed(&mut self, keychain: DescriptorId, index: u32)
        ensures
            final(self)@ == (KeychainModel {
                last_revealed: join(old(self)@.last_revealed, map![keychain => index as int], true),
                ..old(self)@
            }),
    {
        let ghost one = seq![(keychain, index)];
        proof {
            lemma_widen32_append(self.last_revealed@, one);
            lemma_extreme_append(widen32(self.last_revealed@), widen32(one), true);
            assert(widen32(one) =~= seq![(keychain, index as int)]);
            lemma_extreme_single(keychain, index as int, true);
        }
        self.last_revealed.push((keychain, index));
        assert(self.last_revealed@ =~= old(self).last_revealed@ + one);
    }

    /// Caches `script` as derived at `index` on the path `keychain`.
    pub fn cache_script(&mut self, keychain: DescriptorId, index: u32, script: ScriptBuf)
        ensures
            final(self)@ == (KeychainModel {
                spk_cache: old(self)@.spk_cache.insert((keychain, index), script@),
                ..old(self)@
            }),
    {
        self.spk_cache.push(((keychain, index), script));
        assert(entry_views(self.spk_cache@).drop_last() =~= entry_views(old(self).spk_cache@));
    }

    /// Folds `other` in.
    pub fn merge(&mut self, other: KeychainChangeSet)
        ensures
            final(self)@ == merge_keychain(old(self)@, other@),
    {
        let mut other = other;
        proof {
            lemma_widen32_append(self.last_revealed@, other.last_revealed@);
            lemma_extreme_append(widen32(self.last_revealed@), widen32(other.last_revealed@), true);
            lemma_entry_views_append(self.spk_cache@, other.spk_cache@);
            lemma_latest_append(entry_views(self.spk_cache@), entry_views(other.spk_cache@));
        }
        self.last_revealed.append(&mut other.last_revealed);
        self.spk_cache.append(&mut other.spk_cache);
    }

    /// The highest index revealed on `keychain`, if any.
    pub fn last_revealed_of(&self, keychain: DescriptorId) -> (r: Option<u32>)
        ensures
            holds32(self@.last_revealed, keychain, r),
    {
        extreme_lookup32(&self.last_revealed, keychain, true)
    }

    /// Whether the two changesets say the same of every path.
    pub fn same(&self, o: &KeychainChangeSet) -> (r: bool)
        ensures
            r == (self@ == o@),
    {
        proof {
            lemma_sub_map_both(self@.last_revealed, o@.last_revealed);
            lemma_sub_map_both(self@.spk_cache, o@.spk_cache);
        }
        extreme_sub32(&self.last_revealed, &o.last_revealed, true) && extreme_sub32(
            &o.last_revealed,
            &self.last_revealed,
            true,
        ) && latest_sub(&self.spk_cache, &o.spk_cache) && latest_sub(&o.spk_cache, &self.spk_cache)
    }

    /// The script cached at `index` on `keychain`, if any.
    pub fn cached_script(&self, keychain: DescriptorId, index: u32) -> (r: Option<ScriptBuf>)
        ensures
            match r {
                Some(s) => self@.spk_cache.contains_key((keychain, index))
                    && self@.spk_cache[(keychain, index)] == s@,
                None => !self@.spk_cache.contains_key((keychain, index)),
            },
    {
        let key = (keychain, index);
        proof {
            lemma_latest_dom(self.spk_cache@, key);
        }
        match last_index(&self.spk_cache, &key) {
            Some(i) => {
                proof {
                    lemma_latest_value(self.spk_cache@, i as int);
                }
                Some(self.spk_cache[i].1.duplicate())
            },
            None => None,
        }
    }

    pub fn is_empty(&self) -> (r: bool)
        ensures
            r == (self@ == empty_keychain()),
    {
        proof {
            if self.last_revealed@.len() > 0 {
                lemma_extreme_nonempty(widen32(self.last_revealed@), true);
            }
            if self.spk_cache@.len() > 0 {
                lemma_latest_nonempty(entry_views(self.spk_cache@));
            }
            if self.spk_cache@.len() == 0 {
                assert(self@.spk_cache =~= Map::<(DescriptorId, u32), Seq<u8>>::empty());
            }
        }
        self.last_revealed.len() == 0 && self.spk_cache.len() == 0
    }

    pub fn duplicate(&self) -> (r: KeychainChangeSet)
        ensures
            r@ == self@,
    {
        let last_revealed = duplicate_entries(&self.last_revealed);
        let spk_cache = duplicate_entries(&self.spk_cache);
        assert(entry_views(last_revealed@) =~= last_revealed@);
        assert(entry_views(self.last_revealed@) =~= self.last_revealed@);
        KeychainChangeSet { last_revealed, spk_cache }
    }
}

} // verus!
