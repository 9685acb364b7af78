//! Lists of keyed entries and the maps they stand for.
//!
//! A changeset holds each keyed component as a list of `(key, value)`
//! entries. Its meaning is the map obtained by applying the entries in
//! order: either the later entry for a key replaces the earlier one, or
//! the entries for a key are combined by maximum (or minimum). Merging two
//! changesets then appends their lists, and the lemmas here give the map of
//! the appended list in terms of the two maps. Holding lists rather than
//! ordered maps lets one pair of lemmas prove the merge of every component;
//! the compare and lookup routines below read a list as the map it stands
//! for.
use vstd::prelude::*;
use crate::primitives::{Duplicate, Hash32, KeyEq, ViewEq};

verus! {

/// The map in which each key holds its last entry's value.
pub open spec fn latest<K, W>(s: Seq<(K, W)>) -> Map<K, W>
    decreases s.len(),
{
    if s.len() == 0 {
        Map::empty()
    } else {
        latest(s.drop_last()).insert(s.last().0, s.last().1)
    }
}

/// The larger of two values when `hi`, else the smaller.
pub open spec fn pick(a: int, b: int, hi: bool) -> int {
    if hi {
        if a >= b { a } else { b }
    } else {
        if a <= b { a } else { b }
    }
}

/// `m` with the value `v` combined into key `k`.
pub open spec fn fold_in<K>(m: Map<K, int>, k: K, v: int, hi: bool) -> Map<K, int> {
    if m.contains_key(k) {
        m.insert(k, pick(m[k], v, hi))
    } else {
        m.insert(k, v)
    }
}

/// The map in which each key holds the maximum (`hi`) or the minimum of
/// its entries' values.
pub open spec fn extreme<K>(s: Seq<(K, int)>, hi: bool) -> Map<K, int>
    decreases s.len(),
{
    if s.len() == 0 {
        Map::empty()
    } else {
        fold_in(extreme(s.drop_last(), hi), s.last().0, s.last().1, hi)
    }
}

/// Pointwise combination of two maps: the keys of both, a shared key
/// holding the maximum (`hi`) or minimum of its two values.
pub open spec fn join<K>(a: Map<K, int>, b: Map<K, int>, hi: bool) -> Map<K, int> {
    Map::new(
        |k: K| a.contains_key(k) || b.contains_key(k),
        |k: K|
            if a.contains_key(k) && b.contains_key(k) {
                pick(a[k], b[k], hi)
            } else if a.contains_key(k) {
                a[k]
            } else {
                b[k]
            },
    )
}

/// Two maps agree on the keys they share.
pub open spec fn agree<K, W>(a: Map<K, W>, b: Map<K, W>) -> bool {
    forall|k: K| a.contains_key(k) && b.contains_key(k) ==> a[k] == b[k]
}

/// What a map holds at a key, if anything.
pub open spec fn lookup<K, W>(m: Map<K, W>, k: K) -> Option<W> {
    if m.contains_key(k) {
        Some(m[k])
    } else {
        None
    }
}

/// What a map of integers holds at a key, read back as a 64-bit value.
pub open spec fn holds64<K>(m: Map<K, int>, k: K, r: Option<u64>) -> bool {
    match r {
        Some(x) => m.contains_key(k) && m[k] == x as int,
        None => !m.contains_key(k),
    }
}

/// What a map of integers holds at a key, read back as a 32-bit value.
pub open spec fn holds32<K>(m: Map<K, int>, k: K, r: Option<u32>) -> bool {
    match r {
        Some(x) => m.contains_key(k) && m[k] == x as int,
        None => !m.contains_key(k),
    }
}

/// Entries with each value replaced by its view.
pub open spec fn entry_views<K, V: View>(s: Seq<(K, V)>) -> Seq<(K, V::V)> {
    s.map_values(|e: (K, V)| (e.0, e.1@))
}

/// Entries with 64-bit values read as integers.
pub open spec fn widen64<K>(s: Seq<(K, u64)>) -> Seq<(K, int)> {
    s.map_values(|e: (K, u64)| (e.0, e.1 as int))
}

/// Entries with 32-bit values read as integers.
pub open spec fn widen32<K>(s: Seq<(K, u32)>) -> Seq<(K, int)> {
    s.map_values(|e: (K, u32)| (e.0, e.1 as int))
}

pub proof fn lemma_latest_append<K, W>(a: Seq<(K, W)>, b: Seq<(K, W)>)
    ensures
        latest(a + b) == latest(a).union_prefer_right(latest(b)),
    decreases b.len(),
{
    if b.len() == 0 {
        assert(a + b =~= a);
        assert(latest(a).union_prefer_right(latest(b)) =~= latest(a));
    } else {
        assert((a + b).drop_last() =~= a + b.drop_last());
        assert((a + b).last() == b.last());
        lemma_latest_append(a, b.drop_last());
        assert(latest(a + b) =~= latest(a).union_prefer_right(latest(b)));
    }
}

pub proof fn lemma_extreme_append<K>(a: Seq<(K, int)>, b: Seq<(K, int)>, hi: bool)
    ensures
        extreme(a + b, hi) == join(extreme(a, hi), extreme(b, hi), hi),
    decreases b.len(),
{
    if b.len() == 0 {
        assert(a + b =~= a);
        assert(join(extreme(a, hi), extreme(b, hi), hi) =~= extreme(a, hi));
    } else {
        assert((a + b).drop_last() =~= a + b.drop_last());
        assert((a + b).last() == b.last());
        lemma_extreme_append(a, b.drop_last(), hi);
        assert(extreme(a + b, hi) =~= join(extreme(a, hi), extreme(b, hi), hi));
    }
}

pub proof fn lemma_latest_nonempty<K, W>(s: Seq<(K, W)>)
    requires
        s.len() > 0,
    ensures
        latest(s).contains_key(s.last().0),
{
}

pub proof fn lemma_extreme_nonempty<K>(s: Seq<(K, int)>, hi: bool)
    requires
        s.len() > 0,
    ensures
        extreme(s, hi).contains_key(s.last().0),
{
}

pub proof fn lemma_entry_views_append<K, V: View>(a: Seq<(K, V)>, b: Seq<(K, V)>)
    ensures
        entry_views(a + b) == entry_views(a) + entry_views(b),
{
    assert(entry_views(a + b) =~= entry_views(a) + entry_views(b));
}

pub proof fn lemma_widen64_append<K>(a: Seq<(K, u64)>, b: Seq<(K, u64)>)
    ensures
        widen64(a + b) == widen64(a) + widen64(b),
{
    assert(widen64(a + b) =~= widen64(a) + widen64(b));
}

pub proof fn lemma_widen32_append<K>(a: Seq<(K, u32)>, b: Seq<(K, u32)>)
    ensures
        widen32(a + b) == widen32(a) + widen32(b),
{
    assert(widen32(a + b) =~= widen32(a) + widen32(b));
}

pub proof fn lemma_extreme_single<K>(k: K, v: int, hi: bool)
    ensures
        extreme(seq![(k, v)], hi) == map![k => v],
{
    let s = seq![(k, v)];
    assert(s.drop_last() =~= Seq::<(K, int)>::empty());
    assert(extreme(s.drop_last(), hi) == Map::<K, int>::empty());
    assert(s.last() == (k, v));
    assert(extreme(s, hi) == Map::<K, int>::empty().insert(k, v));
    assert(extreme(s, hi) =~= map![k => v]);
}

pub proof fn lemma_single_to_set<T>(x: T)
    ensures
        seq![x].to_set() == set![x],
{
    assert forall|y: T| #[trigger] seq![x].to_set().contains(y) <==> set![x].contains(y) by {
        if y == x {
            assert(seq![x][0] == x);
        }
    }
    assert(seq![x].to_set() =~= set![x]);
}

/// Every key of `a` is a key of `b` with the same value.
pub open spec fn sub_map<K, W>(a: Map<K, W>, b: Map<K, W>) -> bool {
    forall|k: K| #[trigger] a.contains_key(k) ==> b.contains_key(k) && b[k] == a[k]
}

pub proof fn lemma_sub_map_both<K, W>(a: Map<K, W>, b: Map<K, W>)
    ensures
        (sub_map(a, b) && sub_map(b, a)) == (a == b),
{
    if sub_map(a, b) && sub_map(b, a) {
        assert(a =~= b);
    }
}

pub proof fn lemma_subset_both<T>(a: Set<T>, b: Set<T>)
    ensures
        (a.subset_of(b) && b.subset_of(a)) == (a == b),
{
    if a.subset_of(b) && b.subset_of(a) {
        assert(a =~= b);
    }
}

/// The keys of the map of a list are its entries' keys.
pub proof fn lemma_latest_dom<K, V: View>(s: Seq<(K, V)>, k: K)
    ensures
        latest(entry_views(s)).contains_key(k) <==> exists|i: int|
            0 <= i < s.len() && #[trigger] s[i].0 == k,
    decreases s.len(),
{
    if s.len() > 0 {
        let t = s.drop_last();
        assert(entry_views(s).drop_last() =~= entry_views(t));
        lemma_latest_dom(t, k);
        if latest(entry_views(s)).contains_key(k) {
            if s.last().0 == k {
                assert(s[s.len() - 1].0 == k);
            } else {
                let i = choose|i: int| 0 <= i < t.len() && #[trigger] t[i].0 == k;
                assert(s[i].0 == k);
            }
        }
        if exists|i: int| 0 <= i < s.len() && #[trigger] s[i].0 == k {
            let i = choose|i: int| 0 <= i < s.len() && #[trigger] s[i].0 == k;
            if i < t.len() {
                assert(t[i].0 == k);
            }
        }
    }
}

/// A key of the map of a list holds the value of its last entry.
pub proof fn lemma_latest_value<K, V: View>(s: Seq<(K, V)>, i: int)
    requires
        0 <= i < s.len(),
        forall|j: int| i < j < s.len() ==> #[trigger] s[j].0 != s[i].0,
    ensures
        latest(entry_views(s)).contains_key(s[i].0),
        latest(entry_views(s))[s[i].0] == s[i].1@,
    decreases s.len(),
{
    let t = s.drop_last();
    assert(entry_views(s).drop_last() =~= entry_views(t));
    if i < s.len() - 1 {
        assert(s[s.len() - 1].0 != s[i].0);
        assert forall|j: int| i < j < t.len() implies #[trigger] t[j].0 != t[i].0 by {
            assert(s[j].0 != s[i].0);
        }
        lemma_latest_value(t, i);
    }
}

/// The keys of the combined map of a list are its entries' keys.
pub proof fn lemma_extreme_dom<K>(s: Seq<(K, int)>, hi: bool, k: K)
    ensures
        extreme(s, hi).contains_key(k) <==> exists|i: int| 0 <= i < s.len() && #[trigger] s[i].0 == k,
    decreases s.len(),
{
    if s.len() > 0 {
        let t = s.drop_last();
        lemma_extreme_dom(t, hi, k);
        if extreme(s, hi).contains_key(k) {
            if s.last().0 == k {
                assert(s[s.len() - 1].0 == k);
            } else {
                let i = choose|i: int| 0 <= i < t.len() && #[trigger] t[i].0 == k;
                assert(s[i].0 == k);
            }
        }
        if exists|i: int| 0 <= i < s.len() && #[trigger] s[i].0 == k {
            let i = choose|i: int| 0 <= i < s.len() && #[trigger] s[i].0 == k;
            if i < t.len() {
                assert(t[i].0 == k);
            }
        }
    }
}

/// The index of the last entry for `k`, if any.
pub fn last_index<K: KeyEq, V>(v: &Vec<(K, V)>, k: &K) -> (r: Option<usize>)
    ensures
        match r {
            Some(i) => i < v@.len() && v@[i as int].0 == *k && forall|j: int|
                i < j < v@.len() ==> #[trigger] v@[j].0 != *k,
            None => forall|j: int| 0 <= j < v@.len() ==> #[trigger] v@[j].0 != *k,
        },
{
    let mut r: Option<usize> = None;
    let mut i: usize = 0;
    while i < v.len()
        invariant
            i <= v@.len(),
            match r {
                Some(x) => x < i && v@[x as int].0 == *k && forall|j: int|
                    x < j < i ==> #[trigger] v@[j].0 != *k,
                None => forall|j: int| 0 <= j < i ==> #[trigger] v@[j].0 != *k,
            },
        decreases v@.len() - i,
    {
        if v[i].0.key_eq(k) {
            r = Some(i);
        }
        i = i + 1;
    }
    r
}

/// Whether every key of the map of `a` holds the same value in the map of `b`.
pub fn latest_sub<K: KeyEq, V: ViewEq>(a: &Vec<(K, V)>, b: &Vec<(K, V)>) -> (r: bool)
    ensures
        r == sub_map(latest(entry_views(a@)), latest(entry_views(b@))),
{
    let ghost ma = latest(entry_views(a@));
    let ghost mb = latest(entry_views(b@));
    let mut i: usize = 0;
    while i < a.len()
        invariant
            i <= a@.len(),
            ma == latest(entry_views(a@)),
            mb == latest(entry_views(b@)),
            forall|j: int|
                0 <= j < i ==> mb.contains_key(#[trigger] a@[j].0) && mb[a@[j].0] == ma[a@[j].0],
        decreases a@.len() - i,
    {
        let k = &a[i].0;
        let ia = last_index(a, k);
        let ib = last_index(b, k);
        proof {
            lemma_latest_dom(a@, *k);
            lemma_latest_dom(b@, *k);
        }
        match (ia, ib) {
            (Some(x), Some(y)) => {
                proof {
                    lemma_latest_value(a@, x as int);
                    lemma_latest_value(b@, y as int);
                }
                if !a[x].1.view_eq(&b[y].1) {
                    return false;
                }
            },
            (_, None) => {
                return false;
            },
            (None, Some(_)) => {
                return false;
            },
        }
        i = i + 1;
    }
    proof {
        assert forall|k: K| #[trigger] ma.contains_key(k) implies mb.contains_key(k) && mb[k]
            == ma[k] by {
            lemma_latest_dom(a@, k);
            let j = choose|j: int| 0 <= j < a@.len() && #[trigger] a@[j].0 == k;
        }
    }
    true
}

/// Whether every key of the combined map of `a` holds the same value in
/// that of `b`.
pub fn extreme_sub64(a: &Vec<(Hash32, u64)>, b: &Vec<(Hash32, u64)>, hi: bool) -> (r: bool)
    ensures
        r == sub_map(extreme(widen64(a@), hi), extreme(widen64(b@), hi)),
{
    let ghost ma = extreme(widen64(a@), hi);
    let ghost mb = extreme(widen64(b@), hi);
    let mut i: usize = 0;
    while i < a.len()
        invariant
            i <= a@.len(),
            ma == extreme(widen64(a@), hi),
            mb == extreme(widen64(b@), hi),
            forall|j: int|
                0 <= j < i ==> mb.contains_key(#[trigger] a@[j].0) && mb[a@[j].0] == ma[a@[j].0],
        decreases a@.len() - i,
    {
        let k = a[i].0;
        proof {
            lemma_extreme_dom(widen64(a@), hi, k);
            assert(widen64(a@)[i as int].0 == k);
            assert(exists|j: int| 0 <= j < widen64(a@).len() && #[trigger] widen64(a@)[j].0 == k);
            assert(ma.contains_key(k));
        }
        let x = extreme_lookup64(a, k, hi);
        let y = extreme_lookup64(b, k, hi);
        assert(ma.contains_key(k));
        match (x, y) {
            (Some(p), Some(q)) => {
                if p != q {
                    return false;
                }
                assert(mb.contains_key(a@[i as int].0) && mb[a@[i as int].0] == ma[a@[i as int].0]);
            },
            _ => {
                return false;
            },
        }
        i = i + 1;
    }
    proof {
        assert forall|k: Hash32| #[trigger] ma.contains_key(k) implies mb.contains_key(k) && mb[k]
            == ma[k] by {
            lemma_extreme_dom(widen64(a@), hi, k);
            let j = choose|j: int| 0 <= j < widen64(a@).len() && #[trigger] widen64(a@)[j].0 == k;
            assert(a@[j].0 == k);
        }
    }
    true
}

/// Whether every key of the combined map of `a` holds the same value in
/// that of `b`.
pub fn extreme_sub32(a: &Vec<(Hash32, u32)>, b: &Vec<(Hash32, u32)>, hi: bool) -> (r: bool)
    ensures
        r == sub_map(extreme(widen32(a@), hi), extreme(widen32(b@), hi)),
{
    let ghost ma = extreme(widen32(a@), hi);
    let ghost mb = extreme(widen32(b@), hi);
    let mut i: usize = 0;
    while i < a.len()
        invariant
            i <= a@.len(),
            ma == extreme(widen32(a@), hi),
            mb == extreme(widen32(b@), hi),
            forall|j: int|
                0 <= j < i ==> mb.contains_key(#[trigger] a@[j].0) && mb[a@[j].0] == ma[a@[j].0],
        decreases a@.len() - i,
    {
        let k = a[i].0;
        proof {
            lemma_extreme_dom(widen32(a@), hi, k);
            assert(widen32(a@)[i as int].0 == k);
            assert(exists|j: int| 0 <= j < widen32(a@).len() && #[trigger] widen32(a@)[j].0 == k);
            assert(ma.contains_key(k));
        }
        let x = extreme_lookup32(a, k, hi);
        let y = extreme_lookup32(b, k, hi);
        assert(ma.contains_key(k));
        match (x, y) {
            (Some(p), Some(q)) => {
                if p != q {
                    return false;
                }
                assert(mb.contains_key(a@[i as int].0) && mb[a@[i as int].0] == ma[a@[i as int].0]);
            },
            _ => {
                return false;
            },
        }
        i = i + 1;
    }
    proof {
        assert forall|k: Hash32| #[trigger] ma.contains_key(k) implies mb.contains_key(k) && mb[k]
            == ma[k] by {
            lemma_extreme_dom(widen32(a@), hi, k);
            let j = choose|j: int| 0 <= j < widen32(a@).len() && #[trigger] widen32(a@)[j].0 == k;
            assert(a@[j].0 == k);
        }
    }
    true
}

/// Whether the view of every value of `a` is the view of some value of `b`.
pub fn views_sub<V: ViewEq>(a: &Vec<V>, b: &Vec<V>) -> (r: bool)
    ensures
        r == a@.map_values(|x: V| x@).to_set().subset_of(b@.map_values(|x: V| x@).to_set()),
{
    let ghost sa = a@.map_values(|x: V| x@);
    let ghost sb = b@.map_values(|x: V| x@);
    let mut i: usize = 0;
    while i < a.len()
        invariant
            i <= a@.len(),
            sa == a@.map_values(|x: V| x@),
            sb == b@.map_values(|x: V| x@),
            forall|j: int| 0 <= j < i ==> sb.contains(#[trigger] sa[j]),
        decreases a@.len() - i,
    {
        let mut found = false;
        let mut m: usize = 0;
        while m < b.len()
            invariant
                i < a@.len(),
                m <= b@.len(),
                sa == a@.map_values(|x: V| x@),
                sb == b@.map_values(|x: V| x@),
                found ==> sb.contains(sa[i as int]),
                !found ==> forall|j: int| 0 <= j < m ==> sb[j] != sa[i as int],
            decreases b@.len() - m,
        {
            if !found && a[i].view_eq(&b[m]) {
                found = true;
                assert(sb[m as int] == sa[i as int]);
            }
            m = m + 1;
        }
        if !found {
            proof {
                assert(sa.to_set().contains(sa[i as int]));
                assert(!sb.contains(sa[i as int]));
            }
            return false;
        }
        i = i + 1;
    }
    proof {
        assert forall|x: V::V| #[trigger] sa.to_set().contains(x) implies sb.to_set().contains(
            x,
        ) by {
            let j = choose|j: int| 0 <= j < sa.len() && sa[j] == x;
            assert(sb.contains(sa[j]));
        }
    }
    true
}

/// Whether every value of `a` is a value of `b`.
pub fn copies_sub<T: KeyEq>(a: &Vec<T>, b: &Vec<T>) -> (r: bool)
    ensures
        r == a@.to_set().subset_of(b@.to_set()),
{
    let mut i: usize = 0;
    while i < a.len()
        invariant
            i <= a@.len(),
            forall|j: int| 0 <= j < i ==> b@.contains(#[trigger] a@[j]),
        decreases a@.len() - i,
    {
        let mut found = false;
        let mut m: usize = 0;
        while m < b.len()
            invariant
                i < a@.len(),
                m <= b@.len(),
                found ==> b@.contains(a@[i as int]),
                !found ==> forall|j: int| 0 <= j < m ==> b@[j] != a@[i as int],
            decreases b@.len() - m,
        {
            if !found && a[i].key_eq(&b[m]) {
                found = true;
                assert(b@[m as int] == a@[i as int]);
            }
            m = m + 1;
        }
        if !found {
            proof {
                assert(a@.to_set().contains(a@[i as int]));
            }
            return false;
        }
        i = i + 1;
    }
    proof {
        assert forall|x: T| #[trigger] a@.to_set().contains(x) implies b@.to_set().contains(x) by {
            let j = choose|j: int| 0 <= j < a@.len() && a@[j] == x;
            assert(b@.contains(a@[j]));
        }
    }
    true
}

/// A copy of a list of plain values.
pub fn copy_all<T: Copy>(v: &Vec<T>) -> (r: Vec<T>)
    ensures
        r@ == v@,
{
    let mut r: Vec<T> = Vec::new();
    let mut i: usize = 0;
    while i < v.len()
        invariant
            i <= v@.len(),
            r@ == v@.take(i as int),
        decreases v@.len() - i,
    {
        r.push(v[i]);
        i = i + 1;
        assert(r@ =~= v@.take(i as int));
    }
    assert(v@.take(i as int) =~= v@);
    r
}

impl Duplicate for u64 {
    fn duplicate(&self) -> (r: u64) {
        *self
    }
}

impl Duplicate for u32 {
    fn duplicate(&self) -> (r: u32) {
        *self
    }
}

impl Duplicate for Option<Hash32> {
    fn duplicate(&self) -> (r: Option<Hash32>) {
        *self
    }
}

/// A copy of a list of entries, value by value.
pub fn duplicate_entries<K: Copy, V: Duplicate>(v: &Vec<(K, V)>) -> (r: Vec<(K, V)>)
    ensures
        entry_views(r@) == entry_views(v@),
{
    let mut r: Vec<(K, V)> = Vec::new();
    let mut i: usize = 0;
    while i < v.len()
        invariant
            i <= v@.len(),
            r@.len() == i,
            forall|j: int| 0 <= j < i ==> #[trigger] r@[j].0 == v@[j].0 && r@[j].1@ == v@[j].1@,
        decreases v@.len() - i,
    {
        let k = v[i].0;
        let x = v[i].1.duplicate();
        r.push((k, x));
        i = i + 1;
    }
    assert(entry_views(r@) =~= entry_views(v@));
    r
}

/// A copy of a list of values, each keeping its view.
pub fn duplicate_all<V: Duplicate>(v: &Vec<V>) -> (r: Vec<V>)
    ensures
        r@.map_values(|x: V| x@) == v@.map_values(|x: V| x@),
{
    let mut r: Vec<V> = Vec::new();
    let mut i: usize = 0;
    while i < v.len()
        invariant
            i <= v@.len(),
            r@.len() == i,
            forall|j: int| 0 <= j < i ==> #[trigger] r@[j]@ == v@[j]@,
        decreases v@.len() - i,
    {
        r.push(v[i].duplicate());
        i = i + 1;
    }
    assert(r@.map_values(|x: V| x@) =~= v@.map_values(|x: V| x@));
    r
}

/// The combined value of the entries for `k`: their maximum when `hi`,
/// else their minimum.
pub fn extreme_lookup64(v: &Vec<(Hash32, u64)>, k: Hash32, hi: bool) -> (r: Option<u64>)
    ensures
        holds64(extreme(widen64(v@), hi), k, r),
{
    let mut r: Option<u64> = None;
    let mut i: usize = 0;
    while i < v.len()
        invariant
            i <= v@.len(),
            holds64(extreme(widen64(v@.take(i as int)), hi), k, r),
        decreases v@.len() - i,
    {
        let (key, x) = v[i];
        if key == k {
            r = match r {
                None => Some(x),
                Some(y) => {
                    if hi {
                        if y >= x { Some(y) } else { Some(x) }
                    } else {
                        if y <= x { Some(y) } else { Some(x) }
                    }
                },
            };
        }
        proof {
            assert(widen64(v@.take(i + 1)).drop_last() =~= widen64(v@.take(i as int)));
        }
        i = i + 1;
    }
    assert(v@.take(i as int) =~= v@);
    r
}

/// The combined value of the entries for `k`: their maximum when `hi`,
/// else their minimum.
pub fn extreme_lookup32(v: &Vec<(Hash32, u32)>, k: Hash32, hi: bool) -> (r: Option<u32>)
    ensures
        holds32(extreme(widen32(v@), hi), k, r),
{
    let mut r: Option<u32> = None;
    let mut i: usize = 0;
    while i < v.len()
        invariant
            i <= v@.len(),
            holds32(extreme(widen32(v@.take(i as int)), hi), k, r),
        decreases v@.len() - i,
    {
        let (key, x) = v[i];
        if key == k {
            r = match r {
                None => Some(x),
                Some(y) => {
                    if hi {
                        if y >= x { Some(y) } else { Some(x) }
                    } else {
                        if y <= x { Some(y) } else { Some(x) }
                    }
                },
            };
        }
        proof {
            assert(widen32(v@.take(i + 1)).drop_last() =~= widen32(v@.take(i as int)));
        }
        i = i + 1;
    }
    assert(v@.take(i as int) =~= v@);
    r
}

} // verus!
