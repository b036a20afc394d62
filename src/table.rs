//! Association tables kept as sequences of entries, sorted by key, with at most one
//! entry per key; their meaning is the map from each key to its entry's value.
use vstd::prelude::*;

verus! {

/// No key occurs in two entries.
pub open spec fn keys_unique<K, V>(s: Seq<(K, V)>) -> bool {
    forall|i: int, j: int| 0 <= i < s.len() && 0 <= j < s.len() && i != j ==> s[i].0 != s[j].0
}

/// Some entry has key `k`.
pub open spec fn has_key<K, V>(s: Seq<(K, V)>, k: K) -> bool {
    exists|i: int| 0 <= i < s.len() && s[i].0 == k
}

/// The map from each key of the table to the value of its entry.
pub open spec fn table_map<K, V>(s: Seq<(K, V)>) -> Map<K, V> {
    Map::new(|k: K| has_key(s, k), |k: K| s[choose|i: int| 0 <= i < s.len() && s[i].0 == k].1)
}

/// `lt` is a strict order: irreflexive and transitive.
pub open spec fn strict_order<K>(lt: spec_fn(K, K) -> bool) -> bool {
    &&& forall|a: K| !(#[trigger] lt(a, a))
    &&& forall|a: K, b: K, c: K| #[trigger] lt(a, b) && #[trigger] lt(b, c) ==> lt(a, c)
}

/// The entries are in strictly ascending order of key.
pub open spec fn sorted_by<K, V>(s: Seq<(K, V)>, lt: spec_fn(K, K) -> bool) -> bool {
    forall|i: int, j: int| 0 <= i < j < s.len() ==> lt(#[trigger] s[i].0, #[trigger] s[j].0)
}

/// The map after inserting the entries one after the other; a later entry overrides
/// an earlier one with the same key.
pub open spec fn insert_all<K, V>(m: Map<K, V>, s: Seq<(K, V)>) -> Map<K, V>
    decreases s.len(),
{
    if s.len() == 0 {
        m
    } else {
        insert_all(m, s.drop_last()).insert(s.last().0, s.last().1)
    }
}

/// A table sorted by a strict order has no key twice.
pub proof fn lemma_sorted_unique_keys<K, V>(s: Seq<(K, V)>, lt: spec_fn(K, K) -> bool)
    requires
        strict_order(lt),
        sorted_by(s, lt),
    ensures
        keys_unique(s),
{
    assert forall|i: int, j: int|
        0 <= i < s.len() && 0 <= j < s.len() && i != j implies s[i].0 != s[j].0 by {
        if i < j {
            assert(lt(s[i].0, s[j].0));
        } else {
            assert(lt(s[j].0, s[i].0));
        }
    }
}

/// The map sends the key of each entry to that entry's value.
pub proof fn lemma_lookup<K, V>(s: Seq<(K, V)>, i: int)
    requires
        keys_unique(s),
        0 <= i < s.len(),
    ensures
        table_map(s).dom().contains(s[i].0),
        table_map(s)[s[i].0] == s[i].1,
{
    let k = s[i].0;
    assert(has_key(s, k));
    let j = choose|j: int| 0 <= j < s.len() && s[j].0 == k;
    assert(j == i);
}

/// Inserting an entry for a new key anywhere adds that key to the map.
pub proof fn lemma_insert_new<K, V>(s: Seq<(K, V)>, p: int, k: K, v: V)
    requires
        keys_unique(s),
        !has_key(s, k),
        0 <= p <= s.len(),
    ensures
        keys_unique(s.insert(p, (k, v))),
        table_map(s.insert(p, (k, v))) == table_map(s).insert(k, v),
{
    let t = s.insert(p, (k, v));
    assert forall|i: int, j: int|
        0 <= i < t.len() && 0 <= j < t.len() && i != j implies t[i].0 != t[j].0 by {
        if i != p && j != p {
            let a = if i < p { i } else { i - 1 };
            let b = if j < p { j } else { j - 1 };
            assert(t[i] == s[a] && t[j] == s[b]);
        } else if i == p {
            let b = if j < p { j } else { j - 1 };
            assert(t[j] == s[b]);
        } else {
            let a = if i < p { i } else { i - 1 };
            assert(t[i] == s[a]);
        }
    }
    let m = table_map(s).insert(k, v);
    assert forall|kk: K| #[trigger] table_map(t).dom().contains(kk) <==> m.dom().contains(kk) by {
        if table_map(t).dom().contains(kk) {
            let i = choose|i: int| 0 <= i < t.len() && t[i].0 == kk;
            if i != p {
                let a = if i < p { i } else { i - 1 };
                assert(t[i] == s[a]);
                assert(has_key(s, kk));
            }
        }
        if m.dom().contains(kk) && kk != k {
            let a = choose|a: int| 0 <= a < s.len() && s[a].0 == kk;
            let i = if a < p { a } else { a + 1 };
            assert(t[i] == s[a]);
            assert(has_key(t, kk));
        }
        if kk == k {
            assert(t[p].0 == k);
            assert(has_key(t, kk));
        }
    }
    assert forall|kk: K| #[trigger] table_map(t).dom().contains(kk) implies table_map(t)[kk]
        == m[kk] by {
        if kk == k {
            lemma_lookup(t, p);
        } else {
            let a = choose|a: int| 0 <= a < s.len() && s[a].0 == kk;
            let i = if a < p { a } else { a + 1 };
            assert(t[i] == s[a]);
            lemma_lookup(t, i);
            lemma_lookup(s, a);
        }
    }
    assert(table_map(t) =~= m);
}

/// Replacing the value of an entry replaces the value of its key in the map.
pub proof fn lemma_update<K, V>(s: Seq<(K, V)>, p: int, v: V)
    requires
        keys_unique(s),
        0 <= p < s.len(),
    ensures
        keys_unique(s.update(p, (s[p].0, v))),
        table_map(s.update(p, (s[p].0, v))) == table_map(s).insert(s[p].0, v),
{
    let k = s[p].0;
    let t = s.update(p, (k, v));
    assert forall|i: int, j: int|
        0 <= i < t.len() && 0 <= j < t.len() && i != j implies t[i].0 != t[j].0 by {
        assert(t[i].0 == s[i].0 && t[j].0 == s[j].0);
    }
    let m = table_map(s).insert(k, v);
    assert forall|kk: K| #[trigger] table_map(t).dom().contains(kk) <==> m.dom().contains(kk) by {
        if table_map(t).dom().contains(kk) {
            let i = choose|i: int| 0 <= i < t.len() && t[i].0 == kk;
            assert(s[i].0 == kk);
            assert(has_key(s, kk));
        }
        if m.dom().contains(kk) {
            if kk == k {
                assert(t[p].0 == kk);
            } else {
                let a = choose|a: int| 0 <= a < s.len() && s[a].0 == kk;
                assert(t[a].0 == kk);
            }
            assert(has_key(t, kk));
        }
    }
    assert forall|kk: K| #[trigger] table_map(t).dom().contains(kk) implies table_map(t)[kk]
        == m[kk] by {
        if kk == k {
            lemma_lookup(t, p);
        } else {
            let a = choose|a: int| 0 <= a < s.len() && s[a].0 == kk;
            assert(t[a] == s[a]);
            lemma_lookup(t, a);
            lemma_lookup(s, a);
        }
    }
    assert(table_map(t) =~= m);
}

/// Removing an entry removes its key from the map.
pub proof fn lemma_remove<K, V>(s: Seq<(K, V)>, p: int)
    requires
        keys_unique(s),
        0 <= p < s.len(),
    ensures
        keys_unique(s.remove(p)),
        table_map(s.remove(p)) == table_map(s).remove(s[p].0),
{
    let k = s[p].0;
    let t = s.remove(p);
    assert forall|i: int, j: int|
        0 <= i < t.len() && 0 <= j < t.len() && i != j implies t[i].0 != t[j].0 by {
        let a = if i < p { i } else { i + 1 };
        let b = if j < p { j } else { j + 1 };
        assert(t[i] == s[a] && t[j] == s[b]);
    }
    let m = table_map(s).remove(k);
    assert forall|kk: K| #[trigger] table_map(t).dom().contains(kk) <==> m.dom().contains(kk) by {
        if table_map(t).dom().contains(kk) {
            let i = choose|i: int| 0 <= i < t.len() && t[i].0 == kk;
            let a = if i < p { i } else { i + 1 };
            assert(t[i] == s[a]);
            assert(has_key(s, kk));
        }
        if m.dom().contains(kk) {
            let a = choose|a: int| 0 <= a < s.len() && s[a].0 == kk;
            assert(a != p);
            let i = if a < p { a } else { a - 1 };
            assert(t[i] == s[a]);
            assert(has_key(t, kk));
        }
    }
    assert forall|kk: K| #[trigger] table_map(t).dom().contains(kk) implies table_map(t)[kk]
        == m[kk] by {
        let i = choose|i: int| 0 <= i < t.len() && t[i].0 == kk;
        let a = if i < p { i } else { i + 1 };
        assert(t[i] == s[a]);
        lemma_lookup(t, i);
        lemma_lookup(s, a);
    }
    assert(table_map(t) =~= m);
}

/// Replacing every value through `f` maps the table's meaning through `f`.
pub proof fn lemma_map_values<K, V, W>(s: Seq<(K, V)>, f: spec_fn(V) -> W)
    requires
        keys_unique(s),
    ensures
        keys_unique(s.map_values(|e: (K, V)| (e.0, f(e.1)))),
        table_map(s.map_values(|e: (K, V)| (e.0, f(e.1)))) == table_map(s).map_values(f),
{
    let t = s.map_values(|e: (K, V)| (e.0, f(e.1)));
    assert forall|i: int, j: int|
        0 <= i < t.len() && 0 <= j < t.len() && i != j implies t[i].0 != t[j].0 by {
        assert(t[i].0 == s[i].0 && t[j].0 == s[j].0);
    }
    let m = table_map(s).map_values(f);
    assert forall|kk: K| #[trigger] table_map(t).dom().contains(kk) <==> m.dom().contains(kk) by {
        if table_map(t).dom().contains(kk) {
            let i = choose|i: int| 0 <= i < t.len() && t[i].0 == kk;
            assert(s[i].0 == kk);
            assert(has_key(s, kk));
        }
        if m.dom().contains(kk) {
            let a = choose|a: int| 0 <= a < s.len() && s[a].0 == kk;
            assert(t[a].0 == kk);
            assert(has_key(t, kk));
        }
    }
    assert forall|kk: K| #[trigger] table_map(t).dom().contains(kk) implies table_map(t)[kk]
        == m[kk] by {
        let i = choose|i: int| 0 <= i < t.len() && t[i].0 == kk;
        assert(s[i].0 == kk);
        lemma_lookup(t, i);
        lemma_lookup(s, i);
    }
    assert(table_map(t) =~= m);
}

/// A table sorted by a strict order is determined by its meaning: two sorted tables
/// with the same map are the same sequence of entries.
pub proof fn lemma_sorted_determined<K, V>(
    s1: Seq<(K, V)>,
    s2: Seq<(K, V)>,
    lt: spec_fn(K, K) -> bool,
)
    requires
        strict_order(lt),
        sorted_by(s1, lt),
        sorted_by(s2, lt),
        table_map(s1) == table_map(s2),
    ensures
        s1 == s2,
    decreases s1.len() + s2.len(),
{
    lemma_sorted_unique_keys(s1, lt);
    lemma_sorted_unique_keys(s2, lt);
    if s1.len() == 0 || s2.len() == 0 {
        if s1.len() > 0 {
            lemma_lookup(s1, 0);
        }
        if s2.len() > 0 {
            lemma_lookup(s2, 0);
        }
        assert(s1 =~= s2);
    } else {
        let k1 = s1[0].0;
        let k2 = s2[0].0;
        lemma_lookup(s1, 0);
        lemma_lookup(s2, 0);
        if k1 != k2 {
            let j = choose|j: int| 0 <= j < s2.len() && s2[j].0 == k1;
            let i = choose|i: int| 0 <= i < s1.len() && s1[i].0 == k2;
            assert(j != 0 && i != 0);
            assert(lt(s2[0].0, s2[j].0));
            assert(lt(s1[0].0, s1[i].0));
            assert(lt(k1, k1));
        }
        assert(s1[0] == s2[0]);
        lemma_remove(s1, 0);
        lemma_remove(s2, 0);
        let t1 = s1.remove(0);
        let t2 = s2.remove(0);
        assert(sorted_by(t1, lt)) by {
            assert forall|i: int, j: int| 0 <= i < j < t1.len() implies lt(
                #[trigger] t1[i].0,
                #[trigger] t1[j].0,
            ) by {
                assert(t1[i] == s1[i + 1] && t1[j] == s1[j + 1]);
            }
        }
        assert(sorted_by(t2, lt)) by {
            assert forall|i: int, j: int| 0 <= i < j < t2.len() implies lt(
                #[trigger] t2[i].0,
                #[trigger] t2[j].0,
            ) by {
                assert(t2[i] == s2[i + 1] && t2[j] == s2[j + 1]);
            }
        }
        lemma_sorted_determined(t1, t2, lt);
        assert(s1 =~= s2) by {
            assert forall|i: int| 0 <= i < s1.len() implies s1[i] == s2[i] by {
                if i > 0 {
                    assert(s1[i] == t1[i - 1]);
                    assert(s2[i] == t2[i - 1]);
                }
            }
        }
    }
}

} // verus!
