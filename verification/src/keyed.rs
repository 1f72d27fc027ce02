//! Lists of entries keyed by a string, read as finite maps: the first
//! entry with a key is the one that counts, and the lists kept here never
//! hold a key twice.

use vstd::prelude::*;

verus! {

/// Position of the first entry with key `k`.
pub open spec fn find_key<V>(s: Seq<(Seq<char>, V)>, k: Seq<char>) -> Option<int>
    decreases s.len(),
{
    if s.len() == 0 {
        None
    } else if s[0].0 == k {
        Some(0)
    } else {
        match find_key(s.drop_first(), k) {
            Some(i) => Some(i + 1),
            None => None,
        }
    }
}

pub open spec fn keys_unique<V>(s: Seq<(Seq<char>, V)>) -> bool {
    forall|i: int, j: int| 0 <= i < j < s.len() ==> s[i].0 != s[j].0
}

/// The map the list stands for.
pub open spec fn as_map<V>(s: Seq<(Seq<char>, V)>) -> Map<Seq<char>, V> {
    Map::new(|k: Seq<char>| find_key(s, k) is Some, |k: Seq<char>| s[find_key(s, k)->0].1)
}

/// The keys in list order.
pub open spec fn keys_of<V>(s: Seq<(Seq<char>, V)>) -> Seq<Seq<char>> {
    s.map_values(|e: (Seq<char>, V)| e.0)
}

pub proof fn lemma_find_key<V>(s: Seq<(Seq<char>, V)>, k: Seq<char>)
    ensures
        match find_key(s, k) {
            Some(i) => 0 <= i < s.len() && s[i].0 == k && forall|j: int| 0 <= j < i ==> s[j].0 != k,
            None => forall|j: int| 0 <= j < s.len() ==> s[j].0 != k,
        },
    decreases s.len(),
{
    if s.len() > 0 && s[0].0 != k {
        lemma_find_key(s.drop_first(), k);
        match find_key(s.drop_first(), k) {
            Some(i) => {
                assert forall|j: int| 0 <= j < i + 1 implies s[j].0 != k by {
                    if j > 0 {
                        assert(s[j] == s.drop_first()[j - 1]);
                    }
                }
            },
            None => {
                assert forall|j: int| 0 <= j < s.len() implies s[j].0 != k by {
                    if j > 0 {
                        assert(s[j] == s.drop_first()[j - 1]);
                    }
                }
            },
        }
    }
}

/// `find_key` is the first position holding the key.
pub proof fn lemma_find_key_is<V>(s: Seq<(Seq<char>, V)>, k: Seq<char>, i: int)
    requires
        0 <= i <= s.len(),
        i < s.len() ==> s[i].0 == k,
        forall|j: int| 0 <= j < i ==> s[j].0 != k,
    ensures
        find_key(s, k) == if i < s.len() {
            Some(i)
        } else {
            None::<int>
        },
{
    lemma_find_key(s, k);
    match find_key(s, k) {
        Some(m) => {
            if m < i {
                assert(s[m].0 != k);
            }
            if m > i {
                assert(s[i].0 == k);
            }
        },
        None => {
            if i < s.len() {
                assert(s[i].0 == k);
            }
        },
    }
}

pub proof fn lemma_unique_find<V>(s: Seq<(Seq<char>, V)>, i: int)
    requires
        keys_unique(s),
        0 <= i < s.len(),
    ensures
        find_key(s, s[i].0) == Some(i),
{
    lemma_find_key_is(s, s[i].0, i);
}

pub proof fn lemma_update_value<V>(s: Seq<(Seq<char>, V)>, i: int, v: V)
    requires
        keys_unique(s),
        0 <= i < s.len(),
    ensures
        keys_unique(s.update(i, (s[i].0, v))),
        as_map(s.update(i, (s[i].0, v))) == as_map(s).insert(s[i].0, v),
        keys_of(s.update(i, (s[i].0, v))) == keys_of(s),
{
    let t = s.update(i, (s[i].0, v));
    assert forall|k: Seq<char>| #[trigger] find_key(t, k) == find_key(s, k) by {
        lemma_find_key(s, k);
        match find_key(s, k) {
            Some(m) => lemma_find_key_is(t, k, m),
            None => lemma_find_key_is(t, k, t.len() as int),
        }
    }
    lemma_unique_find(s, i);
    assert forall|q: Seq<char>| #[trigger] as_map(t).contains_key(q) implies as_map(t)[q]
        == as_map(s).insert(s[i].0, v)[q] by {
        lemma_find_key(s, q);
        let m = find_key(s, q)->0;
        if m != i {
            assert(t[m] == s[m]);
        }
    }
    assert(as_map(t) =~= as_map(s).insert(s[i].0, v));
    assert(keys_of(t) =~= keys_of(s));
}

pub proof fn lemma_push_new<V>(s: Seq<(Seq<char>, V)>, k: Seq<char>, v: V)
    requires
        keys_unique(s),
        find_key(s, k) is None,
    ensures
        keys_unique(s.push((k, v))),
        as_map(s.push((k, v))) == as_map(s).insert(k, v),
        keys_of(s.push((k, v))) == keys_of(s).push(k),
{
    let t = s.push((k, v));
    lemma_find_key(s, k);
    assert forall|q: Seq<char>| #[trigger] find_key(t, q) == (if q == k {
        Some(s.len() as int)
    } else {
        find_key(s, q)
    }) by {
        lemma_find_key(s, q);
        if q == k {
            lemma_find_key_is(t, q, s.len() as int);
        } else {
            match find_key(s, q) {
                Some(m) => lemma_find_key_is(t, q, m),
                None => lemma_find_key_is(t, q, t.len() as int),
            }
        }
    }
    assert forall|q: Seq<char>| #[trigger] as_map(t).contains_key(q) implies as_map(t)[q]
        == as_map(s).insert(k, v)[q] by {
        lemma_find_key(s, q);
        if q != k {
            let m = find_key(s, q)->0;
            assert(t[m] == s[m]);
        }
    }
    assert(as_map(t) =~= as_map(s).insert(k, v));
    assert(keys_of(t) =~= keys_of(s).push(k));
}

pub proof fn lemma_remove_at<V>(s: Seq<(Seq<char>, V)>, i: int)
    requires
        keys_unique(s),
        0 <= i < s.len(),
    ensures
        keys_unique(s.remove(i)),
        as_map(s.remove(i)) == as_map(s).remove(s[i].0),
        keys_of(s.remove(i)) == keys_of(s).remove(i),
{
    let t = s.remove(i);
    let k = s[i].0;
    assert forall|q: Seq<char>| #[trigger] find_key(t, q) == (if q == k {
        None::<int>
    } else {
        match find_key(s, q) {
            Some(m) => Some(if m < i {
                m
            } else {
                m - 1
            }),
            None => None::<int>,
        }
    }) by {
        lemma_find_key(s, q);
        if q == k {
            assert forall|j: int| 0 <= j < t.len() implies t[j].0 != q by {
                if j < i {
                    assert(t[j] == s[j]);
                } else {
                    assert(t[j] == s[j + 1]);
                }
            }
            lemma_find_key_is(t, q, t.len() as int);
        } else {
            match find_key(s, q) {
                Some(m) => {
                    if m < i {
                        lemma_find_key_is(t, q, m);
                    } else {
                        assert(m != i);
                        assert forall|j: int| 0 <= j < m - 1 implies t[j].0 != q by {
                            if j < i {
                                assert(t[j] == s[j]);
                            } else {
                                assert(t[j] == s[j + 1]);
                            }
                        }
                        lemma_find_key_is(t, q, m - 1);
                    }
                },
                None => {
                    assert forall|j: int| 0 <= j < t.len() implies t[j].0 != q by {
                        if j < i {
                            assert(t[j] == s[j]);
                        } else {
                            assert(t[j] == s[j + 1]);
                        }
                    }
                    lemma_find_key_is(t, q, t.len() as int);
                },
            }
        }
    }
    assert forall|q: Seq<char>| #[trigger] as_map(t).contains_key(q) implies as_map(t)[q]
        == as_map(s)[q] by {
        lemma_find_key(s, q);
        let m = find_key(s, q)->0;
        if m < i {
            assert(t[m] == s[m]);
        } else {
            assert(t[m - 1] == s[m]);
        }
    }
    assert(as_map(t) =~= as_map(s).remove(k));
    assert forall|a: int, b: int| 0 <= a < b < t.len() implies t[a].0 != t[b].0 by {
        let a2 = if a < i {
            a
        } else {
            a + 1
        };
        let b2 = if b < i {
            b
        } else {
            b + 1
        };
        assert(t[a] == s[a2]);
        assert(t[b] == s[b2]);
    }
    assert(keys_of(t) =~= keys_of(s).remove(i));
}

} // verus!
