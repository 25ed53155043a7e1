use vstd::prelude::*;
use crate::symbol::Symbol;

verus! {

/// The map that a list of (key, value) entries denotes; a later entry for a key
/// replaces an earlier one.
pub open spec fn assoc_map<K, V>(s: Seq<(K, V)>) -> Map<K, V>
    decreases s.len(),
{
    if s.len() == 0 {
        Map::empty()
    } else {
        assoc_map(s.drop_last()).insert(s.last().0, s.last().1)
    }
}

/// No key has two entries.
pub open spec fn assoc_keys_unique<K, V>(s: Seq<(K, V)>) -> bool {
    forall|i: int, j: int| 0 <= i < j < s.len() ==> s[i].0 != s[j].0
}

/// With unique keys, each entry is found in the map, nothing else is, and the map has
/// one key per entry.
pub proof fn lemma_assoc_map<K, V>(s: Seq<(K, V)>)
    requires
        assoc_keys_unique(s),
    ensures
        forall|i: int| 0 <= i < s.len() ==> #[trigger] assoc_map(s).contains_key(s[i].0) && assoc_map(s)[s[i].0] == s[i].1,
        forall|k: K| assoc_map(s).contains_key(k) ==> exists|i: int| 0 <= i < s.len() && s[i].0 == k,
        assoc_map(s).dom().finite(),
        assoc_map(s).dom().len() == s.len(),
    decreases s.len(),
{
    if s.len() > 0 {
        let p = s.drop_last();
        assert(assoc_keys_unique(p));
        lemma_assoc_map(p);
        let m = assoc_map(p);
        assert(!m.contains_key(s.last().0)) by {
            if m.contains_key(s.last().0) {
                let i = choose|i: int| 0 <= i < p.len() && p[i].0 == s.last().0;
                assert(s[i].0 == s[s.len() - 1].0);
            }
        }
        assert(assoc_map(s).dom() == m.dom().insert(s.last().0));
        assert forall|k: K| assoc_map(s).contains_key(k) implies exists|i: int| 0 <= i < s.len() && s[i].0 == k by {
            if k != s.last().0 {
                let i = choose|i: int| 0 <= i < p.len() && p[i].0 == k;
                assert(s[i].0 == k);
            } else {
                assert(s[s.len() - 1].0 == k);
            }
        }
        assert forall|i: int| 0 <= i < s.len() implies #[trigger] assoc_map(s).contains_key(s[i].0) && assoc_map(s)[s[i].0] == s[i].1 by {
            if i < s.len() - 1 {
                assert(p[i] == s[i]);
            }
        }
    }
}

/// Replacing the entry at `i` (keys unique) updates the map at that key.
pub proof fn lemma_assoc_map_set<K, V>(s: Seq<(K, V)>, i: int, v: V)
    requires
        assoc_keys_unique(s),
        0 <= i < s.len(),
    ensures
        assoc_keys_unique(s.update(i, (s[i].0, v))),
        assoc_map(s.update(i, (s[i].0, v))) == assoc_map(s).insert(s[i].0, v),
{
    let t = s.update(i, (s[i].0, v));
    let k = s[i].0;
    assert(assoc_keys_unique(t));
    lemma_assoc_map(s);
    lemma_assoc_map(t);
    assert forall|q: K| assoc_map(t).contains_key(q) <==> assoc_map(s).insert(k, v).contains_key(q) by {
        if assoc_map(s).contains_key(q) {
            let j = choose|j: int| 0 <= j < s.len() && s[j].0 == q;
            assert(t[j].0 == q);
        }
        if assoc_map(t).contains_key(q) {
            let j = choose|j: int| 0 <= j < t.len() && t[j].0 == q;
            assert(s[j].0 == q);
        }
    }
    assert forall|q: K| #[trigger] assoc_map(t).contains_key(q) implies assoc_map(t)[q] == assoc_map(s).insert(k, v)[q] by {
        let j = choose|j: int| 0 <= j < t.len() && t[j].0 == q;
        if j != i {
            assert(s[j] == t[j]);
        }
    }
    assert(assoc_map(t) =~= assoc_map(s).insert(k, v));
}

/// Appending an entry for a new key inserts it into the map.
pub proof fn lemma_assoc_map_push<K, V>(s: Seq<(K, V)>, k: K, v: V)
    requires
        assoc_keys_unique(s),
        forall|i: int| 0 <= i < s.len() ==> s[i].0 != k,
    ensures
        assoc_keys_unique(s.push((k, v))),
        assoc_map(s.push((k, v))) == assoc_map(s).insert(k, v),
{
    assert(s.push((k, v)).drop_last() == s);
}

/// Sets the entry of `k` to `val`, replacing an earlier entry of `k`.
pub fn assoc_upsert<V>(v: &mut Vec<(Symbol, V)>, k: Symbol, val: V)
    requires
        assoc_keys_unique(old(v)@),
    ensures
        assoc_keys_unique(final(v)@),
        assoc_map(final(v)@) == assoc_map(old(v)@).insert(k, val),
        forall|i: int| 0 <= i < old(v)@.len() && old(v)@[i].0 != k ==> final(v)@[i] == old(v)@[i],
        final(v)@.len() >= old(v)@.len(),
        forall|i: int| 0 <= i < old(v)@.len() ==> final(v)@[i].0 == old(v)@[i].0,
        forall|i: int| old(v)@.len() <= i < final(v)@.len() ==> final(v)@[i].0 == k,
        forall|i: int| 0 <= i < final(v)@.len() && final(v)@[i].0 == k ==> final(v)@[i].1 == val,
{
    let mut i: usize = 0;
    while i < v.len()
        invariant
            0 <= i <= v@.len(),
            v@ == old(v)@,
            assoc_keys_unique(v@),
            forall|j: int| 0 <= j < i ==> v@[j].0 != k,
        decreases v@.len() - i,
    {
        if v[i].0 == k {
            let ghost s = v@;
            v.set(i, (k, val));
            proof {
                lemma_assoc_map_set(s, i as int, val);
                assert(v@ == s.update(i as int, (s[i as int].0, val)));
            }
            return;
        }
        i = i + 1;
    }
    let ghost s = v@;
    v.push((k, val));
    proof {
        lemma_assoc_map_push(s, k, val);
    }
}

/// The value of the entry of `k`, if any.
pub fn assoc_find<V: Copy>(v: &Vec<(Symbol, V)>, k: Symbol) -> (r: Option<V>)
    requires
        assoc_keys_unique(v@),
    ensures
        match r {
            Some(x) => assoc_map(v@).contains_key(k) && assoc_map(v@)[k] == x,
            None => !assoc_map(v@).contains_key(k),
        },
{
    let mut i: usize = 0;
    while i < v.len()
        invariant
            0 <= i <= v@.len(),
            assoc_keys_unique(v@),
            forall|j: int| 0 <= j < i ==> v@[j].0 != k,
        decreases v@.len() - i,
    {
        if v[i].0 == k {
            proof {
                lemma_assoc_map(v@);
            }
            assert(assoc_map(v@).contains_key(v@[i as int].0));
            return Some(v[i].1);
        }
        i = i + 1;
    }
    proof {
        lemma_assoc_map(v@);
    }
    None
}

/// The keys of the entries, in order.
pub fn assoc_keys<V>(v: &Vec<(Symbol, V)>) -> (r: Vec<Symbol>)
    ensures
        r@.len() == v@.len(),
        forall|i: int| 0 <= i < v@.len() ==> r@[i] == v@[i].0,
{
    let mut out: Vec<Symbol> = Vec::new();
    let mut i: usize = 0;
    while i < v.len()
        invariant
            0 <= i <= v@.len(),
            out@.len() == i,
            forall|j: int| 0 <= j < i ==> out@[j] == v@[j].0,
        decreases v@.len() - i,
    {
        out.push(v[i].0);
        i = i + 1;
    }
    out
}

} // verus!
