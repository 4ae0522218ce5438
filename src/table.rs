//! Tables keyed by text, kept as sequences of pairs with distinct keys.
use vstd::prelude::*;
use crate::media::same_text;

verus! {

/// Whether some pair of the table has key `k`.
pub open spec fn has_key<V>(s: Seq<(Seq<char>, V)>, k: Seq<char>) -> bool {
    exists|i: int| 0 <= i < s.len() && #[trigger] s[i].0 == k
}

/// Whether no key stands twice in the table.
pub open spec fn keys_unique<V>(s: Seq<(Seq<char>, V)>) -> bool {
    forall|i: int, j: int| 0 <= i < s.len() && 0 <= j < s.len() && #[trigger] s[i].0 == #[trigger] s[j].0 ==> i == j
}

/// The position of key `k` in the table.
pub open spec fn index_of<V>(s: Seq<(Seq<char>, V)>, k: Seq<char>) -> int {
    choose|i: int| 0 <= i < s.len() && #[trigger] s[i].0 == k
}

/// The value that the table holds under `k`, if any.
pub open spec fn value_of<V>(s: Seq<(Seq<char>, V)>, k: Seq<char>) -> Option<V> {
    if has_key(s, k) {
        Some(s[index_of(s, k)].1)
    } else {
        None
    }
}

/// The table without the pair of key `k`; the other pairs keep their order.
pub open spec fn without_key<V>(s: Seq<(Seq<char>, V)>, k: Seq<char>) -> Seq<(Seq<char>, V)> {
    if has_key(s, k) {
        s.remove(index_of(s, k))
    } else {
        s
    }
}

/// The table with `v` under `k`: in place where `k` is held, else at the end.
pub open spec fn with_value<V>(s: Seq<(Seq<char>, V)>, k: Seq<char>, v: V) -> Seq<(Seq<char>, V)> {
    if has_key(s, k) {
        s.update(index_of(s, k), (k, v))
    } else {
        s.push((k, v))
    }
}

/// In a table with distinct keys, a key's position is where it stands.
pub proof fn lemma_index_of<V>(s: Seq<(Seq<char>, V)>, i: int)
    requires
        keys_unique(s),
        0 <= i < s.len(),
    ensures
        has_key(s, s[i].0),
        index_of(s, s[i].0) == i,
        value_of(s, s[i].0) == Some(s[i].1),
{
    assert(has_key(s, s[i].0));
}

/// Removing a key keeps the keys distinct, drops that key, and leaves every
/// other key's value.
pub proof fn lemma_without_key<V>(s: Seq<(Seq<char>, V)>, k: Seq<char>)
    requires
        keys_unique(s),
    ensures
        keys_unique(without_key(s, k)),
        !has_key(without_key(s, k), k),
        without_key(s, k).len() <= s.len(),
        forall|k2: Seq<char>| k2 != k ==> value_of(without_key(s, k), k2) == value_of(s, k2),
{
    if has_key(s, k) {
        let i = index_of(s, k);
        let t = s.remove(i);
        assert forall|a: int, b: int| 0 <= a < t.len() && 0 <= b < t.len() && #[trigger] t[a].0 == #[trigger] t[b].0 implies a == b by {
            let a2 = if a < i { a } else { a + 1 };
            let b2 = if b < i { b } else { b + 1 };
            assert(s[a2].0 == s[b2].0);
        }
        assert forall|k2: Seq<char>| k2 != k implies value_of(t, k2) == value_of(s, k2) by {
            if has_key(s, k2) {
                let j = index_of(s, k2);
                let j2 = if j < i { j } else { j - 1 };
                assert(t[j2] == s[j]);
                lemma_index_of(t, j2);
            }
            if has_key(t, k2) {
                let j = index_of(t, k2);
                let j2 = if j < i { j } else { j + 1 };
                assert(t[j] == s[j2]);
            }
        }
        if has_key(t, k) {
            let j = index_of(t, k);
            let j2 = if j < i { j } else { j + 1 };
            assert(t[j] == s[j2]);
        }
    }
}

/// Setting a key's value keeps the keys distinct, holds the new value under
/// that key, and leaves every other key's value.
pub proof fn lemma_with_value<V>(s: Seq<(Seq<char>, V)>, k: Seq<char>, v: V)
    requires
        keys_unique(s),
    ensures
        keys_unique(with_value(s, k, v)),
        value_of(with_value(s, k, v), k) == Some(v),
        forall|k2: Seq<char>| k2 != k ==> value_of(with_value(s, k, v), k2) == value_of(s, k2),
{
    let t = with_value(s, k, v);
    if has_key(s, k) {
        let i = index_of(s, k);
        assert forall|a: int, b: int| 0 <= a < t.len() && 0 <= b < t.len() && #[trigger] t[a].0 == #[trigger] t[b].0 implies a == b by {
            assert(t[a].0 == s[a].0);
            assert(t[b].0 == s[b].0);
        }
    } else {
        assert forall|a: int, b: int| 0 <= a < t.len() && 0 <= b < t.len() && #[trigger] t[a].0 == #[trigger] t[b].0 implies a == b by {
            if a < s.len() && b < s.len() {
                assert(t[a] == s[a] && t[b] == s[b]);
            } else if a < s.len() {
                assert(s[a].0 == k);
            } else if b < s.len() {
                assert(s[b].0 == k);
            }
        }
    }
    lemma_index_of(t, if has_key(s, k) { index_of(s, k) } else { s.len() as int });
    assert forall|k2: Seq<char>| k2 != k implies value_of(t, k2) == value_of(s, k2) by {
        if has_key(s, k2) {
            let j = index_of(s, k2);
            assert(t[j] == s[j]);
            lemma_index_of(t, j);
        }
        if has_key(t, k2) {
            let j = index_of(t, k2);
            assert(t[j] == s[j]);
        }
    }
}

/// Where `key` stands among the keys of `entries`, if anywhere.
pub fn find_key<V>(entries: &Vec<(String, V)>, key: &str) -> (r: Option<usize>)
    ensures
        match r {
            Some(i) => i < entries@.len() && entries@[i as int].0@ == key@,
            None => forall|i: int| 0 <= i < entries@.len() ==> (#[trigger] entries@[i]).0@ != key@,
        },
{
    let mut i: usize = 0;
    while i < entries.len()
        invariant
            i <= entries@.len(),
            forall|j: int| 0 <= j < i ==> (#[trigger] entries@[j]).0@ != key@,
        decreases entries@.len() - i,
    {
        if same_text(entries[i].0.as_str(), key) {
            return Some(i);
        }
        i = i + 1;
    }
    None
}

} // verus!
