//! Association lists, read as maps: a later pair replaces
//! an earlier one of the same key.
use vstd::prelude::*;

verus! {

/// The map that the pairs of `s` describe.
pub open spec fn assoc<K, V>(s: Seq<(K, V)>) -> Map<K, V>
    decreases s.len(),
{
    if s.len() == 0 {
        Map::empty()
    } else {
        assoc(s.drop_last()).insert(s.last().0, s.last().1)
    }
}

/// No two pairs share a key.
pub open spec fn keys_distinct<K, V>(s: Seq<(K, V)>) -> bool {
    forall|i: int, j: int| 0 <= i < j < s.len() ==> s[i].0 != s[j].0
}

/// With distinct keys, every pair is in the map under its key, and nothing
/// else is.
pub proof fn lemma_assoc_lookup<K, V>(s: Seq<(K, V)>)
    requires
        keys_distinct(s),
    ensures
        forall|i: int|
            0 <= i < s.len() ==> assoc(s).contains_key(#[trigger] s[i].0) && assoc(s)[s[i].0] == s[i].1,
        forall|k: K| #[trigger] assoc(s).contains_key(k) ==> exists|i: int| 0 <= i < s.len() && s[i].0 == k,
        assoc(s).dom().finite(),
        assoc(s).len() == s.len(),
    decreases s.len(),
{
    if s.len() > 0 {
        let init = s.drop_last();
        lemma_assoc_lookup(init);
        assert forall|i: int| 0 <= i < s.len() implies assoc(s).contains_key(#[trigger] s[i].0) && assoc(
            s,
        )[s[i].0] == s[i].1 by {
            if i < s.len() - 1 {
                assert(init[i] == s[i]);
            }
        }
        assert forall|k: K| #[trigger] assoc(s).contains_key(k) implies exists|i: int|
            0 <= i < s.len() && s[i].0 == k by {
            if k != s.last().0 {
                let i = choose|i: int| 0 <= i < init.len() && init[i].0 == k;
                assert(s[i] == init[i]);
            } else {
                assert(s[s.len() - 1].0 == k);
            }
        }
        assert(!assoc(init).contains_key(s.last().0)) by {
            if assoc(init).contains_key(s.last().0) {
                let i = choose|i: int| 0 <= i < init.len() && init[i].0 == s.last().0;
                assert(s[i] == init[i]);
            }
        }
    }
}

/// Giving a pair a new value gives its key that value in the map.
pub proof fn lemma_assoc_replace<K, V>(s: Seq<(K, V)>, i: int, v: V)
    requires
        keys_distinct(s),
        0 <= i < s.len(),
    ensures
        assoc(s.update(i, (s[i].0, v))) == assoc(s).insert(s[i].0, v),
        keys_distinct(s.update(i, (s[i].0, v))),
    decreases s.len(),
{
    let k = s[i].0;
    let u = s.update(i, (k, v));
    if i == s.len() - 1 {
        assert(u.drop_last() =~= s.drop_last());
        assert(assoc(u) =~= assoc(s).insert(k, v));
    } else {
        let init = s.drop_last();
        assert(u.drop_last() =~= init.update(i, (k, v)));
        assert(init[i] == s[i]);
        lemma_assoc_replace(init, i, v);
        assert(s.last().0 != k) by {
            assert(s[s.len() - 1] == s.last());
        }
        assert(assoc(u) =~= assoc(s).insert(k, v));
    }
}

/// Dropping a pair drops its key from the map.
pub proof fn lemma_assoc_remove<K, V>(s: Seq<(K, V)>, i: int)
    requires
        keys_distinct(s),
        0 <= i < s.len(),
    ensures
        assoc(s.remove(i)) == assoc(s).remove(s[i].0),
        keys_distinct(s.remove(i)),
    decreases s.len(),
{
    let k = s[i].0;
    let r = s.remove(i);
    let init = s.drop_last();
    lemma_assoc_lookup(init);
    if i == s.len() - 1 {
        assert(r =~= init);
        assert(!assoc(init).contains_key(k)) by {
            if assoc(init).contains_key(k) {
                let j = choose|j: int| 0 <= j < init.len() && init[j].0 == k;
                assert(s[j] == init[j]);
            }
        }
        assert(assoc(r) =~= assoc(s).remove(k));
    } else {
        assert(r.drop_last() =~= init.remove(i));
        assert(r.last() == s.last());
        assert(init[i] == s[i]);
        lemma_assoc_remove(init, i);
        assert(s.last().0 != k) by {
            assert(s[s.len() - 1] == s.last());
        }
        assert(assoc(r) =~= assoc(s).remove(k));
    }
}

/// Adding a pair of a new key keeps the keys distinct.
pub proof fn lemma_assoc_push<K, V>(s: Seq<(K, V)>, k: K, v: V)
    requires
        keys_distinct(s),
        !assoc(s).contains_key(k),
    ensures
        keys_distinct(s.push((k, v))),
        assoc(s.push((k, v))) == assoc(s).insert(k, v),
{
    lemma_assoc_lookup(s);
    let t = s.push((k, v));
    assert(t.drop_last() =~= s);
    assert forall|i: int, j: int| 0 <= i < j < t.len() implies t[i].0 != t[j].0 by {
        if j == t.len() - 1 {
            assert(t[i] == s[i]);
        } else {
            assert(t[i] == s[i]);
            assert(t[j] == s[j]);
        }
    }
}

} // verus!
