//! Name-keyed association lists.
//!
//! The operator keeps several process-wide registries keyed by a destination
//! or deployment name. They are modelled as vectors of `(String, V)` pairs,
//! looked up by the first matching key; callers that need map semantics keep
//! the keys unique.

use vstd::prelude::*;

verus! {

/// The value bound to `k`, searching pairs from the front.
pub open spec fn assoc_get<V>(s: Seq<(String, V)>, k: Seq<char>) -> Option<V>
    decreases s.len(),
{
    if s.len() == 0 {
        None
    } else if s[0].0@ == k {
        Some(s[0].1)
    } else {
        assoc_get(s.drop_first(), k)
    }
}

pub open spec fn assoc_has<V>(s: Seq<(String, V)>, k: Seq<char>) -> bool {
    assoc_get(s, k) is Some
}

/// No two pairs carry the same key.
pub open spec fn unique_keys<V>(s: Seq<(String, V)>) -> bool {
    forall|i: int, j: int| 0 <= i < j < s.len() ==> s[i].0@ != s[j].0@
}

/// Skipping pairs whose keys all differ from `k` does not change the lookup.
proof fn lemma_assoc_get_skip<V>(s: Seq<(String, V)>, k: Seq<char>, i: int)
    requires
        0 <= i <= s.len(),
        forall|j: int| 0 <= j < i ==> s[j].0@ != k,
    ensures
        assoc_get(s, k) == assoc_get(s.skip(i), k),
    decreases i,
{
    if i > 0 {
        assert(s.drop_first().skip(i - 1) =~= s.skip(i));
        lemma_assoc_get_skip(s.drop_first(), k, i - 1);
    } else {
        assert(s.skip(0) =~= s);
    }
}

/// Index of the first pair bound to `k`, if any.
pub fn assoc_index_of<V>(m: &Vec<(String, V)>, k: &String) -> (r: Option<usize>)
    ensures
        match r {
            Some(i) => i < m@.len() && m@[i as int].0@ == k@
                && assoc_get(m@, k@) == Some(m@[i as int].1)
                && (forall|j: int| 0 <= j < i ==> m@[j].0@ != k@),
            None => assoc_get(m@, k@) is None,
        },
{
    let n = m.len();
    let mut i: usize = 0;
    while i < n
        invariant
            i <= n,
            n == m@.len(),
            forall|j: int| 0 <= j < i ==> m@[j].0@ != k@,
        decreases n - i,
    {
        if m[i].0 == *k {
            proof {
                lemma_assoc_get_skip(m@, k@, i as int);
                assert(m@.skip(i as int)[0] == m@[i as int]);
            }
            return Some(i);
        }
        i = i + 1;
    }
    proof {
        lemma_assoc_get_skip(m@, k@, n as int);
        assert(m@.skip(n as int).len() == 0);
    }
    None
}

pub fn assoc_contains<V>(m: &Vec<(String, V)>, k: &String) -> (r: bool)
    ensures
        r == assoc_has(m@, k@),
{
    assoc_index_of(m, k).is_some()
}

/// Borrow the value bound to `k`.
pub fn assoc_get_ref<'a, V>(m: &'a Vec<(String, V)>, k: &String) -> (r: Option<&'a V>)
    ensures
        match r {
            Some(v) => assoc_get(m@, k@) == Some(*v),
            None => assoc_get(m@, k@) is None,
        },
{
    match assoc_index_of(m, k) {
        Some(i) => Some(&m[i].1),
        None => None,
    }
}

/// Replacing the first pair bound to `k` rebinds `k` and nothing else.
proof fn lemma_assoc_get_update<V>(s: Seq<(String, V)>, i: int, p: (String, V), k2: Seq<char>)
    requires
        0 <= i < s.len(),
        s[i].0@ == p.0@,
        forall|j: int| 0 <= j < i ==> s[j].0@ != p.0@,
    ensures
        assoc_get(s.update(i, p), k2) == if k2 == p.0@ {
            Some(p.1)
        } else {
            assoc_get(s, k2)
        },
    decreases i,
{
    let t = s.update(i, p);
    if i == 0 {
        if t[0].0@ != k2 {
            assert(t.drop_first() =~= s.drop_first());
            if s[0].0@ == k2 {
            } else {
            }
        }
    } else {
        assert(t[0] == s[0]);
        assert(t.drop_first() =~= s.drop_first().update(i - 1, p));
        if s[0].0@ == k2 {
        } else {
            lemma_assoc_get_update(s.drop_first(), i - 1, p, k2);
        }
    }
}

/// Appending a pair with a fresh key binds that key and nothing else.
proof fn lemma_assoc_get_push<V>(s: Seq<(String, V)>, p: (String, V), k2: Seq<char>)
    requires
        !assoc_has(s, p.0@),
    ensures
        assoc_get(s.push(p), k2) == if k2 == p.0@ {
            Some(p.1)
        } else {
            assoc_get(s, k2)
        },
    decreases s.len(),
{
    let t = s.push(p);
    if s.len() == 0 {
        assert(t[0] == p);
        assert(t.drop_first() =~= Seq::<(String, V)>::empty());
    } else {
        assert(t[0] == s[0]);
        assert(t.drop_first() =~= s.drop_first().push(p));
        if s[0].0@ == k2 {
        } else {
            lemma_assoc_get_push(s.drop_first(), p, k2);
        }
    }
}

/// Bind `k` to `v`, replacing the first existing binding or appending one.
pub fn assoc_set<V>(m: &mut Vec<(String, V)>, k: String, v: V)
    ensures
        forall|k2: Seq<char>| #[trigger] assoc_get(final(m)@, k2) == if k2 == k@ {
            Some(v)
        } else {
            assoc_get(old(m)@, k2)
        },
        unique_keys(old(m)@) ==> unique_keys(final(m)@),
        final(m)@.len() <= old(m)@.len() + 1,
        forall|j: int|
            0 <= j < final(m)@.len() ==> old(m)@.contains(#[trigger] final(m)@[j])
                || final(m)@[j] == (k, v),
{
    let ghost s0 = m@;
    match assoc_index_of(m, &k) {
        Some(i) => {
            m.remove(i);
            m.insert(i, (k, v));
            proof {
                assert(m@ =~= s0.update(i as int, m@[i as int]));
                assert forall|j: int| 0 <= j < m@.len() && j != i implies s0.contains(
                    #[trigger] m@[j],
                ) by {
                    assert(m@[j] == s0[j]);
                }
                assert forall|k2: Seq<char>| #[trigger] assoc_get(m@, k2) == if k2 == m@[i as int].0@ {
                    Some(m@[i as int].1)
                } else {
                    assoc_get(s0, k2)
                } by {
                    lemma_assoc_get_update(s0, i as int, m@[i as int], k2);
                }
                assert forall|ii: int, jj: int|
                    unique_keys(s0) && 0 <= ii < jj < m@.len() implies m@[ii].0@ != m@[jj].0@ by {
                    assert(m@[ii].0@ == s0[ii].0@);
                    assert(m@[jj].0@ == s0[jj].0@);
                }
            }
        },
        None => {
            let ghost kv = k@;
            m.push((k, v));
            proof {
                assert forall|j: int| 0 <= j < m@.len() - 1 implies s0.contains(
                    #[trigger] m@[j],
                ) by {
                    assert(m@[j] == s0[j]);
                }
                assert forall|k2: Seq<char>| #[trigger] assoc_get(m@, k2) == if k2 == kv {
                    Some(m@[m@.len() - 1].1)
                } else {
                    assoc_get(s0, k2)
                } by {
                    lemma_assoc_get_push(s0, m@[m@.len() - 1], k2);
                }
                assert forall|ii: int, jj: int|
                    unique_keys(s0) && 0 <= ii < jj < m@.len() implies m@[ii].0@ != m@[jj].0@ by {
                    if jj < m@.len() - 1 {
                    } else {
                        assert(m@[ii].0@ == s0[ii].0@);
                        lemma_assoc_get_skip(s0, s0[ii].0@, ii);
                        assert(s0.skip(ii)[0] == s0[ii]);
                    }
                }
            }
        },
    }
}

/// Removing the first pair bound to `k` unbinds `k` and, when keys are
/// unique, nothing else.
proof fn lemma_assoc_get_remove<V>(s: Seq<(String, V)>, i: int, k2: Seq<char>)
    requires
        unique_keys(s),
        0 <= i < s.len(),
        forall|j: int| 0 <= j < i ==> s[j].0@ != s[i].0@,
    ensures
        assoc_get(s.remove(i), k2) == if k2 == s[i].0@ {
            None
        } else {
            assoc_get(s, k2)
        },
    decreases i,
{
    let t = s.remove(i);
    if i == 0 {
        assert(t =~= s.drop_first());
        if k2 == s[0].0@ {
            lemma_assoc_get_absent(s.drop_first(), k2, 0);
        }
    } else {
        assert(t[0] == s[0]);
        assert(t.drop_first() =~= s.drop_first().remove(i - 1));
        if s[0].0@ == k2 {
        } else {
            lemma_assoc_get_remove(s.drop_first(), i - 1, k2);
        }
    }
}

/// A key that no pair carries looks up to nothing.
proof fn lemma_assoc_get_absent<V>(s: Seq<(String, V)>, k: Seq<char>, start: int)
    requires
        forall|j: int| 0 <= j < s.len() ==> s[j].0@ != k,
    ensures
        assoc_get(s, k) is None,
    decreases s.len(),
{
    if s.len() > 0 {
        lemma_assoc_get_absent(s.drop_first(), k, start);
    }
}

/// Drop the binding for `k`, if present.
pub fn assoc_remove<V>(m: &mut Vec<(String, V)>, k: &String)
    requires
        unique_keys(old(m)@),
    ensures
        unique_keys(final(m)@),
        forall|k2: Seq<char>| #[trigger] assoc_get(final(m)@, k2) == if k2 == k@ {
            None::<V>
        } else {
            assoc_get(old(m)@, k2)
        },
        forall|j: int| 0 <= j < final(m)@.len() ==> old(m)@.contains(#[trigger] final(m)@[j]),
{
    let ghost s0 = m@;
    match assoc_index_of(m, k) {
        Some(i) => {
            m.remove(i);
            proof {
                assert forall|j: int| 0 <= j < m@.len() implies s0.contains(#[trigger] m@[j]) by {
                    let i0 = i as int;
                    if j < i0 {
                        assert(m@[j] == s0[j]);
                    } else {
                        assert(m@[j] == s0[j + 1]);
                    }
                }
                assert forall|k2: Seq<char>| #[trigger] assoc_get(m@, k2) == if k2 == k@ {
                    None::<V>
                } else {
                    assoc_get(s0, k2)
                } by {
                    lemma_assoc_get_remove(s0, i as int, k2);
                }
                assert forall|ii: int, jj: int| 0 <= ii < jj < m@.len() implies m@[ii].0@
                    != m@[jj].0@ by {
                    let i0 = i as int;
                    let pi = if ii < i0 { ii } else { ii + 1 };
                    let pj = if jj < i0 { jj } else { jj + 1 };
                    assert(m@[ii] == s0[pi]);
                    assert(m@[jj] == s0[pj]);
                }
            }
        },
        None => {
            proof {
                assert forall|k2: Seq<char>| #[trigger] assoc_get(m@, k2) == if k2 == k@ {
                    None::<V>
                } else {
                    assoc_get(s0, k2)
                } by {}
            }
        },
    }
}

} // verus!
