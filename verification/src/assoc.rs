//! Small maps from names to values, kept as lists of pairs: a name appears
//! at most once.
use vstd::prelude::*;
use crate::text::{str_eq, str_to_string};

verus! {

/// The position of name `k`.
pub open spec fn key_index<T>(s: Seq<(String, T)>, k: Seq<char>) -> Option<int>
    decreases s.len(),
{
    if s.len() == 0 {
        None
    } else if s.last().0@ == k {
        Some(s.len() - 1)
    } else {
        key_index(s.drop_last(), k)
    }
}

/// The value of name `k`.
pub open spec fn assoc_get<T>(s: Seq<(String, T)>, k: Seq<char>) -> Option<T> {
    match key_index(s, k) {
        Some(i) => Some(s[i].1),
        None => None,
    }
}

/// No name appears twice.
pub open spec fn distinct_keys<T>(s: Seq<(String, T)>) -> bool {
    forall|a: int, b: int| 0 <= a < b < s.len() ==> (#[trigger] s[a]).0@ != (#[trigger] s[b]).0@
}

pub proof fn lemma_key_index<T>(s: Seq<(String, T)>, k: Seq<char>)
    ensures
        match key_index(s, k) {
            Some(i) => 0 <= i < s.len() && s[i].0@ == k,
            None => forall|j: int| 0 <= j < s.len() ==> s[j].0@ != k,
        },
    decreases s.len(),
{
    if s.len() > 0 && s.last().0@ != k {
        lemma_key_index(s.drop_last(), k);
        assert forall|j: int| 0 <= j < s.len() - 1 implies s[j] == s.drop_last()[j] by {}
    }
}

proof fn lemma_key_index_unique<T>(s: Seq<(String, T)>, k: Seq<char>, j: int)
    requires
        distinct_keys(s),
        0 <= j < s.len(),
        s[j].0@ == k,
    ensures
        key_index(s, k) == Some(j),
{
    lemma_key_index(s, k);
    let i = key_index(s, k)->0;
    if i != j {
        if i < j {
            assert(s[i].0@ != s[j].0@);
        } else {
            assert(s[j].0@ != s[i].0@);
        }
    }
}

/// Finds the position of name `k`.
pub fn find_key<T>(v: &Vec<(String, T)>, k: &str) -> (r: Option<usize>)
    ensures
        match r {
            Some(i) => key_index(v@, k@) == Some(i as int) && i < v@.len(),
            None => key_index(v@, k@) is None,
        },
{
    let mut j = v.len();
    assert(v@.take(j as int) =~= v@);
    while j > 0
        invariant
            j <= v@.len(),
            key_index(v@, k@) == key_index(v@.take(j as int), k@),
        decreases j,
    {
        assert(v@.take(j as int).drop_last() =~= v@.take(j - 1));
        if str_eq(v[j - 1].0.as_str(), k) {
            return Some(j - 1);
        }
        j = j - 1;
    }
    None
}

/// Sets name `k` to `val`.
pub fn assoc_set<T>(v: &mut Vec<(String, T)>, k: &str, val: T)
    requires
        distinct_keys(old(v)@),
    ensures
        distinct_keys(final(v)@),
        assoc_get(final(v)@, k@) == Some(val),
        forall|n: Seq<char>| n != k@ ==> #[trigger] assoc_get(final(v)@, n) == assoc_get(old(v)@, n),
{
    let ghost o = v@;
    proof {
        lemma_key_index(o, k@);
    }
    match find_key(v, k) {
        Some(i) => {
            let name = str_to_string(k);
            v.set(i, (name, val));
            proof {
                let s = v@;
                assert forall|a: int, b: int| 0 <= a < b < s.len() implies (#[trigger] s[a]).0@
                    != (#[trigger] s[b]).0@ by {
                    assert(o[a].0@ != o[b].0@);
                }
                lemma_key_index_unique(s, k@, i as int);
                assert forall|n: Seq<char>| n != k@ implies #[trigger] assoc_get(s, n) == assoc_get(o, n) by {
                    lemma_key_index(o, n);
                    lemma_key_index(s, n);
                    match key_index(o, n) {
                        Some(j) => {
                            lemma_key_index_unique(s, n, j);
                        },
                        None => {
                            if key_index(s, n) is Some {
                                let j = key_index(s, n)->0;
                                assert(s[j].0@ == o[j].0@ || j == i);
                            }
                        },
                    }
                }
            }
        },
        None => {
            let name = str_to_string(k);
            v.push((name, val));
            proof {
                let s = v@;
                assert(s.drop_last() =~= o);
                assert forall|a: int, b: int| 0 <= a < b < s.len() implies (#[trigger] s[a]).0@
                    != (#[trigger] s[b]).0@ by {
                    if b < s.len() - 1 {
                        assert(o[a].0@ != o[b].0@);
                    } else {
                        assert(o[a].0@ != k@);
                    }
                }
                assert forall|n: Seq<char>| n != k@ implies #[trigger] assoc_get(s, n) == assoc_get(o, n) by {
                    lemma_key_index(o, n);
                }
            }
        },
    }
}

/// Removes name `k`.
pub fn assoc_remove<T>(v: &mut Vec<(String, T)>, k: &str)
    requires
        distinct_keys(old(v)@),
    ensures
        distinct_keys(final(v)@),
        assoc_get(final(v)@, k@) is None,
        forall|n: Seq<char>| n != k@ ==> #[trigger] assoc_get(final(v)@, n) == assoc_get(old(v)@, n),
{
    let ghost o = v@;
    proof {
        lemma_key_index(o, k@);
    }
    match find_key(v, k) {
        Some(i) => {
            v.remove(i);
            proof {
                let s = v@;
                assert(s =~= o.remove(i as int));
                assert forall|a: int, b: int| 0 <= a < b < s.len() implies (#[trigger] s[a]).0@
                    != (#[trigger] s[b]).0@ by {
                    let a2 = if a < i { a } else { a + 1 };
                    let b2 = if b < i { b } else { b + 1 };
                    assert(s[a] == o[a2] && s[b] == o[b2]);
                    assert(o[a2].0@ != o[b2].0@);
                }
                lemma_key_index(s, k@);
                if key_index(s, k@) is Some {
                    let j = key_index(s, k@)->0;
                    let j2 = if j < i { j } else { j + 1 };
                    assert(s[j] == o[j2]);
                    if j2 < i {
                        assert(o[j2].0@ != o[i as int].0@);
                    } else {
                        assert(o[i as int].0@ != o[j2].0@);
                    }
                }
                assert forall|n: Seq<char>| n != k@ implies #[trigger] assoc_get(s, n) == assoc_get(o, n) by {
                    lemma_key_index(o, n);
                    lemma_key_index(s, n);
                    match key_index(o, n) {
                        Some(j) => {
                            let j2 = if j < i { j } else { j - 1 };
                            assert(s[j2] == o[j]);
                            lemma_key_index_unique(s, n, j2);
                        },
                        None => {
                            if key_index(s, n) is Some {
                                let j = key_index(s, n)->0;
                                let j2 = if j < i { j } else { j + 1 };
                                assert(s[j] == o[j2]);
                            }
                        },
                    }
                }
            }
        },
        None => {},
    }
}

} // verus!
