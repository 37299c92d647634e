//! Association lists with string-like keys, compared by key view.
//!
//! The pending-changes buffer, the table-settings registry and the index's
//! document store all keep `Vec<(key, value)>` pairs whose keys are unique.
//! The spec functions here give those vectors their map-like meaning, and
//! the lemmas relate lookups to the pushes and in-place updates the
//! executable code performs.

use vstd::prelude::*;

verus! {

/// The value stored under key view `k`, if any. Later entries shadow
/// earlier ones; under `distinct_key_views` at most one entry matches, so
/// the shadowing order is immaterial.
pub open spec fn assoc_at<K: View, V>(s: Seq<(K, V)>, k: K::V) -> Option<V>
    decreases s.len(),
{
    if s.len() == 0 {
        None
    } else if s.last().0@ == k {
        Some(s.last().1)
    } else {
        assoc_at(s.drop_last(), k)
    }
}

/// No two entries share a key view.
pub open spec fn distinct_key_views<K: View, V>(s: Seq<(K, V)>) -> bool {
    forall|i: int, j: int| 0 <= i < j < s.len() ==> s[i].0@ != s[j].0@
}

/// Appending an entry decides its own key and leaves every other key alone.
pub proof fn lemma_assoc_push<K: View, V>(s: Seq<(K, V)>, e: (K, V), k: K::V)
    ensures
        assoc_at(s.push(e), k) == (if e.0@ == k {
            Some(e.1)
        } else {
            assoc_at(s, k)
        }),
{
    assert(s.push(e).drop_last() =~= s);
    assert(s.push(e).last() == e);
}

/// Replacing entry `i` in place, keeping its key view, changes exactly that
/// key's value.
pub proof fn lemma_assoc_update<K: View, V>(s: Seq<(K, V)>, i: int, e: (K, V), k: K::V)
    requires
        0 <= i < s.len(),
        distinct_key_views(s),
        e.0@ == s[i].0@,
    ensures
        assoc_at(s.update(i, e), k) == (if k == s[i].0@ {
            Some(e.1)
        } else {
            assoc_at(s, k)
        }),
    decreases s.len(),
{
    let t = s.update(i, e);
    if i == s.len() - 1 {
        assert(t.drop_last() =~= s.drop_last());
    } else {
        assert(t.last() == s.last());
        assert(t.drop_last() =~= s.drop_last().update(i, e));
        assert(s.last().0@ != s[i].0@);
        assert(distinct_key_views(s.drop_last())) by {
            assert(forall|m: int| 0 <= m < s.len() - 1 ==> s.drop_last()[m] == s[m]);
        }
        assert(s.drop_last()[i] == s[i]);
        lemma_assoc_update(s.drop_last(), i, e, k);
    }
}

/// Removing the unique entry carrying key view `kk` empties that key and
/// leaves every other key's lookup alone.
pub proof fn lemma_assoc_remove<K: View, V>(s: Seq<(K, V)>, i: int, k: K::V)
    requires
        0 <= i < s.len(),
        distinct_key_views(s),
    ensures
        assoc_at(s.remove(i), k) == (if k == s[i].0@ {
            None::<V>
        } else {
            assoc_at(s, k)
        }),
    decreases s.len(),
{
    let t = s.remove(i);
    if i == s.len() - 1 {
        assert(t =~= s.drop_last());
        if k == s[i].0@ {
            assert(forall|j: int| 0 <= j < t.len() ==> t[j] == s[j]);
            assert(forall|j: int| 0 <= j < t.len() ==> t[j].0@ != k);
            lemma_assoc_absent(t, k);
        }
    } else {
        assert(t.len() == s.len() - 1);
        assert(t.last() == s.last());
        assert(t.drop_last() =~= s.drop_last().remove(i));
        assert(forall|m: int| 0 <= m < s.len() - 1 ==> s.drop_last()[m] == s[m]);
        assert(distinct_key_views(s.drop_last()));
        lemma_assoc_remove(s.drop_last(), i, k);
        if s.last().0@ == k {
            assert(s[i].0@ != k);
        }
    }
}

/// Removing the first entry leaves every other key's lookup alone.
pub proof fn lemma_assoc_drop_first<K: View, V>(s: Seq<(K, V)>, k: K::V)
    requires
        s.len() > 0,
        s[0].0@ != k,
    ensures
        assoc_at(s.drop_first(), k) == assoc_at(s, k),
    decreases s.len(),
{
    if s.len() == 1 {
        assert(s.drop_first() =~= Seq::<(K, V)>::empty());
        assert(s.drop_last() =~= Seq::<(K, V)>::empty());
        assert(assoc_at(s.drop_first(), k) is None);
        assert(assoc_at(s.drop_last(), k) is None);
    } else {
        let d = s.drop_first();
        assert(d.len() == s.len() - 1);
        assert(d.last() == s.last());
        if s.last().0@ == k {
            assert(assoc_at(s, k) == Some(s.last().1));
            assert(assoc_at(d, k) == Some(d.last().1));
        } else {
            assert(d.drop_last() =~= s.drop_last().drop_first());
            assert(s.drop_last()[0] == s[0]);
            lemma_assoc_drop_first(s.drop_last(), k);
            assert(assoc_at(d, k) == assoc_at(d.drop_last(), k));
            assert(assoc_at(s, k) == assoc_at(s.drop_last(), k));
        }
    }
}

/// A key view that no entry carries is absent.
pub proof fn lemma_assoc_absent<K: View, V>(s: Seq<(K, V)>, k: K::V)
    requires
        forall|i: int| 0 <= i < s.len() ==> s[i].0@ != k,
    ensures
        assoc_at(s, k) is None,
    decreases s.len(),
{
    if s.len() > 0 {
        assert(forall|i: int| 0 <= i < s.len() - 1 ==> s.drop_last()[i] == s[i]);
        lemma_assoc_absent(s.drop_last(), k);
    }
}

/// The unique entry carrying key view `k` decides the lookup.
pub proof fn lemma_assoc_found<K: View, V>(s: Seq<(K, V)>, i: int, k: K::V)
    requires
        0 <= i < s.len(),
        distinct_key_views(s),
        s[i].0@ == k,
    ensures
        assoc_at(s, k) == Some(s[i].1),
    decreases s.len(),
{
    if i < s.len() - 1 {
        assert(s.last().0@ != k);
        assert(forall|m: int| 0 <= m < s.len() - 1 ==> s.drop_last()[m] == s[m]);
        lemma_assoc_found(s.drop_last(), i, k);
    }
}

} // verus!
