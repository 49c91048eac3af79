//! Specification-level theory of association sequences.
//!
//! Every keyed collection of the registry is stored as a vector of
//! `(key, value)` entries whose keys are pairwise distinct.  The lookup
//! function below is the mathematical model those collections are specified
//! against, and the lemmas relate it to the sequence operations the
//! executable code performs (scan, push, update in place, remove).

use vstd::prelude::*;

verus! {

/// First-match lookup of `k` in the entry sequence `s`.
pub open spec fn assoc_get<K, V>(s: Seq<(K, V)>, k: K) -> Option<V>
    decreases s.len(),
{
    if s.len() == 0 {
        None
    } else if s[0].0 == k {
        Some(s[0].1)
    } else {
        assoc_get(s.drop_first(), k)
    }
}

/// Whether `s` holds an entry for `k`.
pub open spec fn assoc_has<K, V>(s: Seq<(K, V)>, k: K) -> bool {
    assoc_get(s, k) is Some
}

/// Pairwise-distinct keys.
pub open spec fn unique_keys<K, V>(s: Seq<(K, V)>) -> bool {
    forall|i: int, j: int| 0 <= i < j < s.len() ==> (#[trigger] s[i]).0 != (#[trigger] s[j]).0
}

/// The lookup misses exactly when no entry carries the key.
pub proof fn lemma_assoc_get_none_iff<K, V>(s: Seq<(K, V)>, k: K)
    ensures
        assoc_get(s, k) is None <==> (forall|j: int| 0 <= j < s.len() ==> (#[trigger] s[j]).0 != k),
    decreases s.len(),
{
    if s.len() > 0 {
        lemma_assoc_get_none_iff(s.drop_first(), k);
        assert forall|j: int| 1 <= j < s.len() implies s.drop_first()[j - 1] == s[j] by {}
    }
}

/// The first entry carrying the key decides the lookup.
pub proof fn lemma_assoc_get_index<K, V>(s: Seq<(K, V)>, k: K, i: int)
    requires
        0 <= i < s.len(),
        s[i].0 == k,
        forall|j: int| 0 <= j < i ==> (#[trigger] s[j]).0 != k,
    ensures
        assoc_get(s, k) == Some(s[i].1),
    decreases s.len(),
{
    if i > 0 {
        lemma_assoc_get_index(s.drop_first(), k, i - 1);
    }
}

/// Appending an entry only affects the lookup of its own key, and only when
/// that key was absent.
pub proof fn lemma_assoc_get_push<K, V>(s: Seq<(K, V)>, k: K, k2: K, v2: V)
    ensures
        assoc_get(s.push((k2, v2)), k) == (if assoc_get(s, k) is Some {
            assoc_get(s, k)
        } else if k2 == k {
            Some(v2)
        } else {
            None::<V>
        }),
    decreases s.len(),
{
    assert(s.push((k2, v2))[0] == (if s.len() == 0 { (k2, v2) } else { s[0] }));
    if s.len() == 0 {
        assert(s.push((k2, v2)).drop_first() =~= s);
        assert(assoc_get(s, k) is None);
        assert(assoc_get(s.push((k2, v2)), k) == (if k2 == k {
            Some(v2)
        } else {
            None::<V>
        }));
    } else {
        lemma_assoc_get_push(s.drop_first(), k, k2, v2);
        assert(s.push((k2, v2)).drop_first() =~= s.drop_first().push((k2, v2)));
    }
}

/// Replacing the entry at index `i` by one with the same key moves the
/// lookup of that key to the new value and leaves every other key alone.
pub proof fn lemma_assoc_get_update<K, V>(s: Seq<(K, V)>, i: int, e2: (K, V), k: K)
    requires
        0 <= i < s.len(),
        unique_keys(s),
        e2.0 == s[i].0,
    ensures
        assoc_get(s.update(i, e2), k) == (if k == s[i].0 {
            Some(e2.1)
        } else {
            assoc_get(s, k)
        }),
    decreases s.len(),
{
    let s2 = s.update(i, e2);
    if i == 0 {
        assert(s2.drop_first() =~= s.drop_first());
    } else {
        assert(s2[0] == s[0]);
        assert(s2.drop_first() =~= s.drop_first().update(i - 1, e2));
        lemma_assoc_get_update(s.drop_first(), i - 1, e2, k);
    }
}

/// Removing the entry at index `i` clears the lookup of its key and leaves
/// every other key alone.
pub proof fn lemma_assoc_get_remove<K, V>(s: Seq<(K, V)>, i: int, k: K)
    requires
        0 <= i < s.len(),
        unique_keys(s),
    ensures
        assoc_get(s.remove(i), k) == (if k == s[i].0 {
            None::<V>
        } else {
            assoc_get(s, k)
        }),
    decreases s.len(),
{
    let s2 = s.remove(i);
    if i == 0 {
        assert(s2 =~= s.drop_first());
        if s.len() > 1 {
            lemma_assoc_get_none_iff(s.drop_first(), s[0].0);
        }
        if k == s[0].0 {
            lemma_assoc_get_none_iff(s.drop_first(), k);
        }
    } else {
        assert(s2[0] == s[0]);
        assert(s2.drop_first() =~= s.drop_first().remove(i - 1));
        lemma_assoc_get_remove(s.drop_first(), i - 1, k);
    }
}

/// A fresh key appended to a unique-key sequence keeps the keys unique.
pub proof fn lemma_unique_push<K, V>(s: Seq<(K, V)>, k: K, v: V)
    requires
        unique_keys(s),
        assoc_get(s, k) is None,
    ensures
        unique_keys(s.push((k, v))),
{
    lemma_assoc_get_none_iff(s, k);
}

/// Replacing an entry by one with the same key keeps the keys unique.
pub proof fn lemma_unique_update<K, V>(s: Seq<(K, V)>, i: int, e2: (K, V))
    requires
        0 <= i < s.len(),
        unique_keys(s),
        e2.0 == s[i].0,
    ensures
        unique_keys(s.update(i, e2)),
{
}

/// Pairwise-distinct elements: the sequence represents a set.
pub open spec fn distinct<T>(s: Seq<T>) -> bool {
    forall|i: int, j: int| 0 <= i < j < s.len() ==> s[i] != s[j]
}

/// Removing the element at index `i` from a distinct sequence removes
/// exactly that element and keeps the rest distinct.
pub proof fn lemma_distinct_remove<T>(s: Seq<T>, i: int)
    requires
        0 <= i < s.len(),
        distinct(s),
    ensures
        distinct(s.remove(i)),
        forall|x: T| #[trigger] s.remove(i).contains(x) <==> (s.contains(x) && x != s[i]),
{
    let s2 = s.remove(i);
    assert forall|x: T| #[trigger] s2.contains(x) implies (s.contains(x) && x != s[i]) by {
        let j = choose|j: int| 0 <= j < s2.len() && s2[j] == x;
        let j0: int = if j < i {
            j
        } else {
            j + 1
        };
        assert(s[j0] == x);
    }
    assert forall|x: T| s.contains(x) && x != s[i] implies #[trigger] s2.contains(x) by {
        let j0 = choose|j0: int| 0 <= j0 < s.len() && s[j0] == x;
        let j: int = if j0 < i {
            j0
        } else {
            j0 - 1
        };
        assert(s2[j] == x);
    }
    assert forall|a: int, b: int| 0 <= a < b < s2.len() implies s2[a] != s2[b] by {
        let a0: int = if a < i {
            a
        } else {
            a + 1
        };
        let b0: int = if b < i {
            b
        } else {
            b + 1
        };
        assert(s2[a] == s[a0] && s2[b] == s[b0]);
    }
}

/// Removing an entry keeps the keys unique.
pub proof fn lemma_unique_remove<K, V>(s: Seq<(K, V)>, i: int)
    requires
        0 <= i < s.len(),
        unique_keys(s),
    ensures
        unique_keys(s.remove(i)),
{
    let s2 = s.remove(i);
    assert forall|a: int, b: int| 0 <= a < b < s2.len() implies s2[a].0 != s2[b].0 by {
        let a0 = if a < i { a } else { a + 1 };
        let b0 = if b < i { b } else { b + 1 };
        assert(s2[a] == s[a0]);
        assert(s2[b] == s[b0]);
    }
}

} // verus!
