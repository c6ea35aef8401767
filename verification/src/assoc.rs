//! Association lists: sequences of pairs of a name and a value, read by the
//! first pair that has the name.

use vstd::prelude::*;
use crate::text::str_eq;

verus! {

/// The first position at which `key` stands in `keys`, or the length of
/// `keys` where it stands nowhere.
pub open spec fn index_of(keys: Seq<Seq<char>>, key: Seq<char>) -> int
    decreases keys.len(),
{
    if keys.len() == 0 {
        0
    } else if keys[0] == key {
        0
    } else {
        1 + index_of(keys.drop_first(), key)
    }
}

/// The names of an association list, in order.
pub open spec fn names<V>(s: Seq<(Seq<char>, V)>) -> Seq<Seq<char>> {
    Seq::new(s.len(), |i: int| s[i].0)
}

/// Whether the list binds `key`.
pub open spec fn binds<V>(s: Seq<(Seq<char>, V)>, key: Seq<char>) -> bool {
    index_of(names(s), key) < s.len()
}

/// What the list binds `key` to.
pub open spec fn lookup<V>(s: Seq<(Seq<char>, V)>, key: Seq<char>) -> Option<V> {
    let i = index_of(names(s), key);
    if i < s.len() {
        Some(s[i].1)
    } else {
        None
    }
}

/// The list with `key` bound to `v`: in place where `key` was bound, at the
/// end where it was not.
pub open spec fn bind<V>(s: Seq<(Seq<char>, V)>, key: Seq<char>, v: V) -> Seq<(Seq<char>, V)> {
    let i = index_of(names(s), key);
    if i < s.len() {
        s.update(i, (key, v))
    } else {
        s.push((key, v))
    }
}

/// The names of the entries of an executable association list.
pub open spec fn entry_names<V>(s: Seq<(String, V)>) -> Seq<Seq<char>> {
    Seq::new(s.len(), |i: int| s[i].0@)
}

/// `index_of` is a position of `key`, and the first.
pub proof fn lemma_index_of(keys: Seq<Seq<char>>, key: Seq<char>)
    ensures
        0 <= index_of(keys, key) <= keys.len(),
        index_of(keys, key) < keys.len() ==> keys[index_of(keys, key)] == key,
        forall|j: int| 0 <= j < index_of(keys, key) ==> keys[j] != key,
    decreases keys.len(),
{
    if keys.len() > 0 && keys[0] != key {
        let rest = keys.drop_first();
        lemma_index_of(rest, key);
        assert forall|j: int| 0 <= j < index_of(keys, key) implies keys[j] != key by {
            if j > 0 {
                assert(keys[j] == rest[j - 1]);
            }
        }
    }
}

/// A position before which `key` does not stand, and at which it stands
/// unless it is the length, is `index_of`.
pub proof fn lemma_index_of_is(keys: Seq<Seq<char>>, key: Seq<char>, i: int)
    requires
        0 <= i <= keys.len(),
        forall|j: int| 0 <= j < i ==> keys[j] != key,
        i < keys.len() ==> keys[i] == key,
    ensures
        index_of(keys, key) == i,
{
    lemma_index_of(keys, key);
}

/// After `bind`, `key` is bound to `v` and every other name is bound as before.
pub proof fn lemma_bind_lookup<V>(s: Seq<(Seq<char>, V)>, key: Seq<char>, v: V, other: Seq<char>)
    ensures
        lookup(bind(s, key, v), key) == Some(v),
        other != key ==> lookup(bind(s, key, v), other) == lookup(s, other),
{
    let i = index_of(names(s), key);
    let t = bind(s, key, v);
    lemma_index_of(names(s), key);
    lemma_index_of(names(s), other);
    assert forall|j: int| 0 <= j < i implies names(t)[j] != key by {
        assert(names(s)[j] != key);
    }
    lemma_index_of_is(names(t), key, i);
    if other != key {
        let k = index_of(names(s), other);
        assert forall|j: int| 0 <= j < k implies names(t)[j] != other by {
            assert(names(s)[j] != other);
        }
        if k < s.len() {
            lemma_index_of_is(names(t), other, k);
        } else {
            assert forall|j: int| 0 <= j < t.len() implies names(t)[j] != other by {
                if j < s.len() {
                    assert(names(s)[j] != other);
                }
            }
            lemma_index_of_is(names(t), other, t.len() as int);
        }
    }
}

/// Whether no name occurs twice.
pub open spec fn distinct(keys: Seq<Seq<char>>) -> bool {
    forall|i: int, j: int| 0 <= i < j < keys.len() ==> #[trigger] keys[i] != #[trigger] keys[j]
}

/// Binding a name in a list in which no name occurs twice gives such a list.
pub proof fn lemma_bind_distinct<V>(s: Seq<(Seq<char>, V)>, key: Seq<char>, v: V)
    requires
        distinct(names(s)),
    ensures
        distinct(names(bind(s, key, v))),
{
    let i = index_of(names(s), key);
    lemma_index_of(names(s), key);
    let t = names(bind(s, key, v));
    assert forall|a: int, b: int| 0 <= a < b < t.len() implies #[trigger] t[a]
        != #[trigger] t[b] by {
        if i < s.len() {
            if a == i {
                assert(t[b] == names(s)[b]);
                assert(names(s)[i] == key);
            } else if b == i {
                assert(t[a] == names(s)[a]);
                assert(names(s)[i] == key);
            } else {
                assert(t[a] == names(s)[a] && t[b] == names(s)[b]);
            }
        } else {
            if b == s.len() {
                assert(names(s)[a] != key);
                assert(t[a] == names(s)[a]);
            } else {
                assert(t[a] == names(s)[a] && t[b] == names(s)[b]);
            }
        }
    }
}

/// The first position of `key` among the entries, or their number.
pub fn position<V>(entries: &Vec<(String, V)>, key: &str) -> (r: usize)
    ensures
        r == index_of(entry_names(entries@), key@),
{
    let mut i: usize = 0;
    while i < entries.len()
        invariant
            i <= entries.len(),
            forall|j: int| 0 <= j < i ==> entry_names(entries@)[j] != key@,
        decreases entries.len() - i,
    {
        if str_eq(entries[i].0.as_str(), key) {
            proof {
                lemma_index_of_is(entry_names(entries@), key@, i as int);
            }
            return i;
        }
        i += 1;
    }
    proof {
        lemma_index_of_is(entry_names(entries@), key@, i as int);
    }
    i
}

} // verus!
