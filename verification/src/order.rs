//! The order of identities: that of their characters, which is the order of
//! the bytes of the strings that hold them.

use vstd::prelude::*;
use vstd::std_specs::iter::IteratorSpec;

verus! {

/// Whether `a` and `b` agree on their first `k` characters, and `a` then
/// ends while `b` goes on, or goes on with a smaller character than `b`.
pub open spec fn before_at(a: Seq<char>, b: Seq<char>, k: int) -> bool {
    &&& 0 <= k <= a.len()
    &&& k < b.len()
    &&& forall|i: int| 0 <= i < k ==> a[i] == b[i]
    &&& (k == a.len() || a[k] < b[k])
}

/// Whether `a` comes before `b`: where the two first differ, `a` has ended
/// or has the smaller character.
pub open spec fn key_before(a: Seq<char>, b: Seq<char>) -> bool {
    exists|k: int| before_at(a, b, k)
}

/// Whether each of `keys` comes before all that follow it.
pub open spec fn ascending(keys: Seq<Seq<char>>) -> bool {
    forall|i: int, j: int| 0 <= i < j < keys.len() ==> key_before(keys[i], keys[j])
}

/// How many of `keys` come before `key`: the place of `key` among them where
/// they are ascending.
pub open spec fn place(keys: Seq<Seq<char>>, key: Seq<char>) -> int
    decreases keys.len(),
{
    if keys.len() == 0 {
        0
    } else if key_before(keys.last(), key) {
        place(keys.drop_last(), key) + 1
    } else {
        place(keys.drop_last(), key)
    }
}

/// Of two identities at most one comes before the other, and none before
/// itself.
pub proof fn lemma_before_is_one_way(a: Seq<char>, b: Seq<char>)
    requires
        key_before(a, b),
    ensures
        !key_before(b, a),
        a != b,
{
    let k = choose|k: int| before_at(a, b, k);
    if a == b {
        assert(false);
    }
    if key_before(b, a) {
        let m = choose|m: int| before_at(b, a, m);
        if m < k {
            assert(a[m] == b[m]);
        } else if k < m {
            assert(b[k] == a[k]);
        }
        assert(false);
    }
}

/// Of two different identities one comes before the other.
pub proof fn lemma_before_is_total(a: Seq<char>, b: Seq<char>)
    requires
        a != b,
    ensures
        key_before(a, b) || key_before(b, a),
{
    lemma_first_difference(a, b, 0);
}

/// Two identities that agree on their first `from` characters are the same,
/// or one comes before the other.
proof fn lemma_first_difference(a: Seq<char>, b: Seq<char>, from: int)
    requires
        0 <= from <= a.len(),
        from <= b.len(),
        forall|i: int| 0 <= i < from ==> a[i] == b[i],
    ensures
        a == b || key_before(a, b) || key_before(b, a),
    decreases a.len() - from,
{
    if from == a.len() {
        if from == b.len() {
            assert(a =~= b);
        } else {
            assert(before_at(a, b, from));
        }
    } else if from == b.len() {
        assert(before_at(b, a, from));
    } else if a[from] == b[from] {
        lemma_first_difference(a, b, from + 1);
    } else if a[from] < b[from] {
        assert(before_at(a, b, from));
    } else {
        assert(before_at(b, a, from));
    }
}

/// What comes before an identity comes before all that the identity comes
/// before.
pub proof fn lemma_before_is_transitive(a: Seq<char>, b: Seq<char>, c: Seq<char>)
    requires
        key_before(a, b),
        key_before(b, c),
    ensures
        key_before(a, c),
{
    let k = choose|k: int| before_at(a, b, k);
    let m = choose|m: int| before_at(b, c, m);
    if k <= m {
        if k < m {
            assert(b[k] == c[k]);
        }
        assert(before_at(a, c, k));
    } else {
        assert(a[m] == b[m]);
        assert(before_at(a, c, m));
    }
}

/// Ascending identities are distinct.
pub proof fn lemma_ascending_is_distinct(keys: Seq<Seq<char>>)
    requires
        ascending(keys),
    ensures
        keys.no_duplicates(),
{
    assert forall|i: int, j: int| 0 <= i < keys.len() && 0 <= j < keys.len() && i != j implies keys[i]
        != keys[j] by {
        if i < j {
            lemma_before_is_one_way(keys[i], keys[j]);
        } else {
            lemma_before_is_one_way(keys[j], keys[i]);
        }
    }
}

/// Where the first `p` of `keys` come before `key` and none of the others
/// does, the place of `key` is `p`.
pub proof fn lemma_place(keys: Seq<Seq<char>>, key: Seq<char>, p: int)
    requires
        0 <= p <= keys.len(),
        forall|i: int| 0 <= i < p ==> key_before(#[trigger] keys[i], key),
        forall|i: int| p <= i < keys.len() ==> !key_before(#[trigger] keys[i], key),
    ensures
        place(keys, key) == p,
    decreases keys.len(),
{
    if keys.len() > 0 {
        let earlier = keys.drop_last();
        let last = keys.len() - 1;
        assert(keys.last() == keys[last]);
        assert forall|i: int| 0 <= i < earlier.len() implies earlier[i] == keys[i] by {}
        if p == keys.len() {
            assert(key_before(keys[last], key));
            assert forall|i: int| 0 <= i < p - 1 implies key_before(#[trigger] earlier[i], key) by {
                assert(earlier[i] == keys[i]);
            }
            lemma_place(earlier, key, p - 1);
        } else {
            assert(!key_before(keys[last], key));
            assert forall|i: int| 0 <= i < p implies key_before(#[trigger] earlier[i], key) by {
                assert(earlier[i] == keys[i]);
            }
            assert forall|i: int| p <= i < earlier.len() implies !key_before(
                #[trigger] earlier[i],
                key,
            ) by {
                assert(earlier[i] == keys[i]);
            }
            lemma_place(earlier, key, p);
        }
    }
}

/// In ascending identities, the place of one that is not among them parts
/// those before it from those after it.
pub proof fn lemma_place_parts(keys: Seq<Seq<char>>, key: Seq<char>)
    requires
        ascending(keys),
        !keys.contains(key),
    ensures
        0 <= place(keys, key) <= keys.len(),
        forall|i: int| 0 <= i < place(keys, key) ==> key_before(#[trigger] keys[i], key),
        forall|i: int| place(keys, key) <= i < keys.len() ==> key_before(key, #[trigger] keys[i]),
        ascending(keys.insert(place(keys, key), key)),
    decreases keys.len(),
{
    if keys.len() > 0 {
        let earlier = keys.drop_last();
        let last = keys.len() - 1;
        assert(keys.last() == keys[last]);
        assert forall|i: int, j: int| 0 <= i < j < earlier.len() implies key_before(
            earlier[i],
            earlier[j],
        ) by {
            assert(earlier[i] == keys[i] && earlier[j] == keys[j]);
        }
        assert(!earlier.contains(key)) by {
            if earlier.contains(key) {
                let i = earlier.index_of(key);
                assert(keys[i] == key);
            }
        }
        lemma_place_parts(earlier, key);
        assert(keys[last] != key);
        lemma_before_is_total(keys[last], key);
        if key_before(keys[last], key) {
            assert forall|i: int| 0 <= i < keys.len() implies key_before(#[trigger] keys[i], key) by {
                if i < last {
                    lemma_before_is_transitive(keys[i], keys[last], key);
                }
            }
            lemma_place(keys, key, keys.len() as int);
        } else {
            lemma_before_is_one_way(key, keys[last]);
            let p = place(earlier, key);
            assert forall|i: int| 0 <= i < p implies key_before(#[trigger] keys[i], key) by {
                assert(earlier[i] == keys[i]);
            }
            assert forall|i: int| p <= i < keys.len() implies key_before(key, #[trigger] keys[i]) by {
                if i < last {
                    assert(earlier[i] == keys[i]);
                }
            }
            assert forall|i: int| p <= i < keys.len() implies !key_before(#[trigger] keys[i], key) by {
                lemma_before_is_one_way(key, keys[i]);
            }
            lemma_place(keys, key, p);
        }
    }
    let p = place(keys, key);
    let grown = keys.insert(p, key);
    assert forall|i: int, j: int| 0 <= i < j < grown.len() implies key_before(grown[i], grown[j]) by {
        if j < p {
            assert(grown[i] == keys[i] && grown[j] == keys[j]);
        } else if j == p {
            assert(grown[i] == keys[i] && grown[j] == key);
        } else if i < p {
            assert(grown[i] == keys[i] && grown[j] == keys[j - 1]);
            lemma_before_is_transitive(keys[i], key, keys[j - 1]);
        } else if i == p {
            assert(grown[i] == key && grown[j] == keys[j - 1]);
        } else {
            assert(grown[i] == keys[i - 1] && grown[j] == keys[j - 1]);
        }
    }
}

/// How two identities stand to each other.
#[derive(Clone, Copy, Debug, PartialEq, Eq, Structural)]
pub enum KeyOrder {
    Before,
    Same,
    After,
}

/// Where `a` stands to `b`, found in one pass over the characters of both.
pub fn key_order(a: &String, b: &String) -> (r: KeyOrder)
    ensures
        match r {
            KeyOrder::Before => key_before(a@, b@),
            KeyOrder::Same => a@ == b@,
            KeyOrder::After => key_before(b@, a@),
        },
{
    let mut xs = a.as_str().chars();
    let mut ys = b.as_str().chars();
    let ghost mut i: int = 0;
    assert(a@.skip(0) =~= a@);
    assert(b@.skip(0) =~= b@);
    loop
        invariant
            0 <= i <= a@.len(),
            i <= b@.len(),
            xs.remaining() == a@.skip(i),
            ys.remaining() == b@.skip(i),
            forall|j: int| 0 <= j < i ==> a@[j] == b@[j],
        decreases a@.len() - i,
    {
        let x = xs.next();
        let y = ys.next();
        match (x, y) {
            (None, None) => {
                assert(a@ =~= b@);
                return KeyOrder::Same;
            },
            (None, Some(_)) => {
                assert(before_at(a@, b@, i));
                return KeyOrder::Before;
            },
            (Some(_), None) => {
                assert(before_at(b@, a@, i));
                return KeyOrder::After;
            },
            (Some(x), Some(y)) => {
                assert(x == a@[i] && y == b@[i]);
                if x < y {
                    assert(before_at(a@, b@, i));
                    return KeyOrder::Before;
                }
                if y < x {
                    assert(before_at(b@, a@, i));
                    return KeyOrder::After;
                }
                proof {
                    assert(a@.skip(i).drop_first() =~= a@.skip(i + 1));
                    assert(b@.skip(i).drop_first() =~= b@.skip(i + 1));
                    i = i + 1;
                }
            },
        }
    }
}

} // verus!
