//! Finding a key in a list of keys.

use vstd::prelude::*;

verus! {

/// Index of the first key of `keys` that equals `key`, or the length.
pub open spec fn first_index(keys: Seq<Seq<char>>, key: Seq<char>) -> int
    decreases keys.len(),
{
    if keys.len() == 0 || keys[0] == key {
        0
    } else {
        1 + first_index(keys.skip(1), key)
    }
}

/// The first index of `key` lies within the keys or just behind them; no
/// key before it is `key`, and the key at it, if there is one, is.
pub proof fn lemma_first_index(keys: Seq<Seq<char>>, key: Seq<char>)
    ensures
        0 <= first_index(keys, key) <= keys.len(),
        forall|k: int| 0 <= k < first_index(keys, key) ==> keys[k] != key,
        first_index(keys, key) < keys.len() ==> keys[first_index(keys, key)] == key,
    decreases keys.len(),
{
    if keys.len() == 0 || keys[0] == key {
    } else {
        let t = keys.skip(1);
        lemma_first_index(t, key);
        assert forall|k: int| 0 <= k < first_index(keys, key) implies keys[k] != key by {
            if k > 0 {
                assert(t[k - 1] == keys[k]);
            }
        }
        if first_index(t, key) < t.len() {
            assert(t[first_index(t, key)] == keys[first_index(t, key) + 1]);
        }
    }
}

/// The first index of `key` is `i` where no key before `i` is `key` and
/// the key at `i`, if there is one, is.
pub proof fn lemma_first_index_is(keys: Seq<Seq<char>>, key: Seq<char>, i: int)
    requires
        0 <= i <= keys.len(),
        forall|k: int| 0 <= k < i ==> keys[k] != key,
        i < keys.len() ==> keys[i] == key,
    ensures
        first_index(keys, key) == i,
    decreases keys.len(),
{
    if keys.len() == 0 || keys[0] == key {
    } else {
        let t = keys.skip(1);
        assert forall|k: int| 0 <= k < i - 1 implies t[k] != key by {
            assert(t[k] == keys[k + 1]);
        }
        if i - 1 < t.len() {
            assert(t[i - 1] == keys[i]);
        }
        lemma_first_index_is(t, key, i - 1);
    }
}

/// A key added at the end is found there when it was absent; every other
/// key is found where it was.
pub proof fn lemma_first_index_push(keys: Seq<Seq<char>>, added: Seq<char>, key: Seq<char>)
    ensures
        first_index(keys, key) < keys.len() ==> first_index(keys.push(added), key) == first_index(
            keys,
            key,
        ),
        first_index(keys, key) == keys.len() && key == added ==> first_index(keys.push(added), key)
            == keys.len(),
        first_index(keys, key) == keys.len() && key != added ==> first_index(keys.push(added), key)
            == keys.len() + 1,
{
    lemma_first_index(keys, key);
    let i = first_index(keys, key);
    let grown = keys.push(added);
    if i < keys.len() {
        assert forall|k: int| 0 <= k < i implies grown[k] != key by {
            assert(grown[k] == keys[k]);
        }
        assert(grown[i] == keys[i]);
        lemma_first_index_is(grown, key, i);
    } else {
        assert forall|k: int| 0 <= k < keys.len() implies grown[k] != key by {
            assert(grown[k] == keys[k]);
        }
        if key == added {
            lemma_first_index_is(grown, key, keys.len() as int);
        } else {
            lemma_first_index_is(grown, key, (keys.len() + 1) as int);
        }
    }
}

} // verus!
