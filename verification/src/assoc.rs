//! Association lists. The keyed stores of this crate (the spatial index,
//! the key bindings) keep their entries in a vector of pairs with unique
//! keys, scanned linearly: the collections are tiny and fixed in size, so
//! nothing faster is needed.

use vstd::prelude::*;

verus! {

/// The value of the first entry carrying `k`, if any.
pub open spec fn spec_assoc<K, V>(s: Seq<(K, V)>, k: K) -> Option<V>
    decreases s.len(),
{
    if s.len() == 0 {
        Option::None
    } else if s[0].0 == k {
        Option::Some(s[0].1)
    } else {
        spec_assoc(s.drop_first(), k)
    }
}

/// No key appears twice among the entries.
pub open spec fn unique_keys<K, V>(s: Seq<(K, V)>) -> bool {
    forall|i: int, j: int| 0 <= i < j < s.len() ==> (#[trigger] s[i]).0 != (#[trigger] s[j]).0
}

/// The value a batch of upserts leaves for `k`: the last update carrying
/// `k` wins, and a key no update carries keeps its prior value.
pub open spec fn spec_upsert_all<K, V>(prior: Option<V>, updates: Seq<(K, V)>, k: K) -> Option<V>
    decreases updates.len(),
{
    if updates.len() == 0 {
        prior
    } else if updates.last().0 == k {
        Option::Some(updates.last().1)
    } else {
        spec_upsert_all(prior, updates.drop_last(), k)
    }
}

/// Overwriting the first entry that carries `id` in place keeps every key
/// unique.
pub proof fn lemma_unique_update<K, V>(s: Seq<(K, V)>, i: int, id: K, v: V)
    requires
        unique_keys(s),
        0 <= i < s.len(),
        s[i].0 == id,
    ensures
        unique_keys(s.update(i, (id, v))),
{
    let t = s.update(i, (id, v));
    assert forall|a: int, b: int| 0 <= a < b < t.len() implies (#[trigger] t[a]).0 != (
    #[trigger] t[b]).0 by {
        assert(s[a].0 != s[b].0);
        assert(t[a] == if a == i {
            (id, v)
        } else {
            s[a]
        });
        assert(t[b] == if b == i {
            (id, v)
        } else {
            s[b]
        });
    }
}

/// Appending an entry whose key is new keeps every key unique.
pub proof fn lemma_unique_push<K, V>(s: Seq<(K, V)>, id: K, v: V)
    requires
        unique_keys(s),
        forall|j: int| 0 <= j < s.len() ==> (#[trigger] s[j]).0 != id,
    ensures
        unique_keys(s.push((id, v))),
{
    let t = s.push((id, v));
    assert forall|a: int, b: int| 0 <= a < b < t.len() implies (#[trigger] t[a]).0 != (
    #[trigger] t[b]).0 by {
        if b < s.len() {
            assert(t[a] == s[a]);
            assert(t[b] == s[b]);
        } else {
            assert(t[a] == s[a]);
            assert(t[b] == (id, v));
        }
    }
}

/// Overwriting the first entry that carries `id` stores `v` under `id` and
/// leaves every other key's value unchanged.
pub proof fn lemma_assoc_update<K, V>(s: Seq<(K, V)>, i: int, id: K, v: V, q: K)
    requires
        0 <= i < s.len(),
        s[i].0 == id,
        forall|j: int| 0 <= j < i ==> (#[trigger] s[j]).0 != id,
    ensures
        spec_assoc(s.update(i, (id, v)), q) == if q == id {
            Option::Some(v)
        } else {
            spec_assoc(s, q)
        },
    decreases s.len(),
{
    let t = s.update(i, (id, v));
    if i == 0 {
        if q != id {
            assert(t.drop_first() =~= s.drop_first());
        }
    } else {
        assert(t[0] == s[0]);
        if s[0].0 == q {
        } else {
            assert(t.drop_first() =~= s.drop_first().update(i - 1, (id, v)));
            lemma_assoc_update(s.drop_first(), i - 1, id, v, q);
        }
    }
}

/// Appending an entry whose key is new stores `v` under `id` and leaves
/// every other key's value unchanged.
pub proof fn lemma_assoc_push<K, V>(s: Seq<(K, V)>, id: K, v: V, q: K)
    requires
        forall|j: int| 0 <= j < s.len() ==> (#[trigger] s[j]).0 != id,
    ensures
        spec_assoc(s.push((id, v)), q) == if q == id {
            Option::Some(v)
        } else {
            spec_assoc(s, q)
        },
    decreases s.len(),
{
    let t = s.push((id, v));
    if s.len() == 0 {
        assert(t[0] == (id, v));
        if q != id {
            assert(t.drop_first().len() == 0);
            assert(spec_assoc(t.drop_first(), q) == Option::<V>::None);
        }
    } else {
        assert(t[0] == s[0]);
        if s[0].0 == q {
        } else {
            assert(t.drop_first() =~= s.drop_first().push((id, v)));
            lemma_assoc_push(s.drop_first(), id, v, q);
        }
    }
}

} // verus!
