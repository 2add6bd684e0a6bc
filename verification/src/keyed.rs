//! Sequences of (key, value) pairs in insertion order, as an ordered map
//! holds them, and the facts about looking a key up in one.

use vstd::prelude::*;

verus! {

/// The index of the first pair whose key is `k`, or -1 when there is none.
pub open spec fn index_of<V>(s: Seq<(String, V)>, k: Seq<char>) -> int
    decreases s.len(),
{
    if s.len() == 0 {
        -1
    } else {
        let p = index_of(s.drop_last(), k);
        if p >= 0 {
            p
        } else if s.last().0@ == k {
            s.len() - 1
        } else {
            -1
        }
    }
}

/// Whether some pair has the key `k`.
pub open spec fn has_key<V>(s: Seq<(String, V)>, k: Seq<char>) -> bool {
    index_of(s, k) >= 0
}

/// The value stored under `k`, if any.
pub open spec fn lookup<V>(s: Seq<(String, V)>, k: Seq<char>) -> Option<V> {
    if index_of(s, k) >= 0 {
        Some(s[index_of(s, k)].1)
    } else {
        None
    }
}

/// The keys, in order.
pub open spec fn keys_of<V>(s: Seq<(String, V)>) -> Seq<Seq<char>> {
    s.map_values(|e: (String, V)| e.0@)
}

/// No key occurs twice, as in an ordered map.
pub open spec fn keys_distinct<V>(s: Seq<(String, V)>) -> bool {
    keys_of(s).no_duplicates()
}

/// Inserting `(k, v)`: an existing key keeps its place and its text and
/// takes the value; a new key goes last.
pub open spec fn inserted<V>(s: Seq<(String, V)>, k: String, v: V) -> Seq<(String, V)> {
    if index_of(s, k@) >= 0 {
        s.update(index_of(s, k@), (s[index_of(s, k@)].0, v))
    } else {
        s.push((k, v))
    }
}

/// Removing the pair with key `k`, if any; the pairs after it keep their
/// order.
pub open spec fn removed<V>(s: Seq<(String, V)>, k: Seq<char>) -> Seq<(String, V)> {
    if index_of(s, k) >= 0 {
        s.remove(index_of(s, k))
    } else {
        s
    }
}

/// The pair with key `old_key` given the key `new_key`, in its place.
pub open spec fn renamed<V>(s: Seq<(String, V)>, old_key: Seq<char>, new_key: String) -> Seq<(String, V)> {
    s.update(index_of(s, old_key), (new_key, s[index_of(s, old_key)].1))
}

/// `index_of` finds the first pair with the key, and nothing before it.
pub broadcast proof fn lemma_index_of<V>(s: Seq<(String, V)>, k: Seq<char>)
    ensures
        -1 <= #[trigger] index_of(s, k) < s.len(),
        index_of(s, k) >= 0 ==> s[index_of(s, k)].0@ == k,
        forall|j: int|
            0 <= j < s.len() && (index_of(s, k) < 0 || j < index_of(s, k)) ==> s[j].0@ != k,
    decreases s.len(),
{
    if s.len() > 0 {
        let d = s.drop_last();
        lemma_index_of(d, k);
        assert forall|j: int|
            0 <= j < s.len() && (index_of(s, k) < 0 || j < index_of(s, k)) implies s[j].0@ != k by {
            if j < d.len() {
                assert(s[j] == d[j]);
            }
        }
    }
}

/// A key that some pair holds is found at an index no later than that pair.
pub proof fn lemma_index_of_found<V>(s: Seq<(String, V)>, k: Seq<char>, j: int)
    requires
        0 <= j < s.len(),
        s[j].0@ == k,
    ensures
        0 <= index_of(s, k) <= j,
{
    lemma_index_of(s, k);
}

/// Looking a key up after a pair is appended.
pub proof fn lemma_index_of_push<V>(s: Seq<(String, V)>, e: (String, V), k: Seq<char>)
    ensures
        index_of(s.push(e), k) == if index_of(s, k) >= 0 {
            index_of(s, k)
        } else if e.0@ == k {
            s.len() as int
        } else {
            -1
        },
{
    assert(s.push(e).drop_last() =~= s);
}

/// Keys that are the same as sequences of characters are the same keys:
/// two sequences with equal key lists find every key at the same index.
pub proof fn lemma_index_of_same_keys<V, W>(s: Seq<(String, V)>, t: Seq<(String, W)>, k: Seq<char>)
    requires
        s.len() == t.len(),
        forall|i: int| 0 <= i < s.len() ==> s[i].0@ == t[i].0@,
    ensures
        index_of(s, k) == index_of(t, k),
    decreases s.len(),
{
    if s.len() > 0 {
        lemma_index_of_same_keys(s.drop_last(), t.drop_last(), k);
    }
}

/// The index of the first pair of a model sequence whose key is `k`, or -1.
pub open spec fn index_of_model<V>(s: Seq<(Seq<char>, V)>, k: Seq<char>) -> int
    decreases s.len(),
{
    if s.len() == 0 {
        -1
    } else {
        let p = index_of_model(s.drop_last(), k);
        if p >= 0 {
            p
        } else if s.last().0 == k {
            s.len() - 1
        } else {
            -1
        }
    }
}

/// What inserting `(k, v)` does to the pairs of an ordered map: an existing
/// key keeps its place and takes the value; a new key goes last.
pub open spec fn insert_model<V>(s: Seq<(Seq<char>, V)>, k: Seq<char>, v: V) -> Seq<(Seq<char>, V)> {
    if index_of_model(s, k) >= 0 {
        s.update(index_of_model(s, k), (k, v))
    } else {
        s.push((k, v))
    }
}

/// The pairs as models: keys by their text, values through `f`.
pub open spec fn pairs_model<V, W>(s: Seq<(String, V)>, f: spec_fn(V) -> W) -> Seq<(Seq<char>, W)> {
    s.map_values(|p: (String, V)| (p.0@, f(p.1)))
}

/// Keys are found at the same index in the pairs and in their models.
pub proof fn lemma_index_of_model<V, W>(s: Seq<(String, V)>, f: spec_fn(V) -> W, k: Seq<char>)
    ensures
        index_of(s, k) == index_of_model(pairs_model(s, f), k),
    decreases s.len(),
{
    if s.len() > 0 {
        assert(pairs_model(s, f).drop_last() =~= pairs_model(s.drop_last(), f));
        lemma_index_of_model(s.drop_last(), f, k);
    }
}

} // verus!
