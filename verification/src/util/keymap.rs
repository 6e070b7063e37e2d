//! Small helpers over vectors of `(key, value)` pairs with string keys.
//!
//! The child maps of the tree are kept as such vectors, in insertion order,
//! with the well-formedness condition that keys never repeat.

use vstd::prelude::*;

use crate::util::strings::str_eq;

verus! {

/// The value stored under the first occurrence of key `k`, if any.
pub open spec fn spec_get<V>(m: Seq<(String, V)>, k: Seq<char>) -> Option<V>
    decreases m.len(),
{
    if m.len() == 0 {
        None
    } else if m[0].0@ == k {
        Some(m[0].1)
    } else {
        spec_get(m.drop_first(), k)
    }
}

/// Whether some pair of `m` carries key `k`.
pub open spec fn has_key<V>(m: Seq<(String, V)>, k: Seq<char>) -> bool {
    spec_get(m, k) is Some
}

/// No two pairs of `m` carry the same key.
pub open spec fn uniq_keys<V>(m: Seq<(String, V)>) -> bool {
    forall|i: int, j: int| 0 <= i < j < m.len() ==> m[i].0@ != m[j].0@
}

/// A key that first occurs at index `i` looks up to the value stored there.
pub proof fn lemma_get_index<V>(m: Seq<(String, V)>, i: int)
    requires
        0 <= i < m.len(),
        forall|j: int| 0 <= j < i ==> m[j].0@ != m[i].0@,
    ensures
        spec_get(m, m[i].0@) == Some(m[i].1),
    decreases i,
{
    if i == 0 {
    } else {
        assert(m[0].0@ != m[i].0@);
        assert(m.drop_first()[i - 1] == m[i]);
        assert(forall|j: int| 0 <= j < i - 1 ==> #[trigger] m.drop_first()[j].0@ != m[i].0@) by {
            assert(forall|j: int| 0 <= j < i - 1 ==> m.drop_first()[j] == m[j + 1]);
        }
        lemma_get_index(m.drop_first(), i - 1);
    }
}

/// A key that no pair of `m` carries looks up to nothing.
pub proof fn lemma_get_none<V>(m: Seq<(String, V)>, k: Seq<char>)
    requires
        forall|i: int| 0 <= i < m.len() ==> m[i].0@ != k,
    ensures
        spec_get(m, k) is None,
    decreases m.len(),
{
    if m.len() == 0 {
    } else {
        assert(forall|i: int| 0 <= i < m.drop_first().len() ==> #[trigger] m.drop_first()[i].0@
            != k) by {
            assert(forall|i: int|
                0 <= i < m.drop_first().len() ==> m.drop_first()[i] == m[i + 1]);
        }
        lemma_get_none(m.drop_first(), k);
    }
}

/// A successful lookup names a pair of `m`.
pub proof fn lemma_get_witness<V>(m: Seq<(String, V)>, k: Seq<char>) -> (i: int)
    requires
        has_key(m, k),
    ensures
        0 <= i < m.len(),
        m[i].0@ == k,
        spec_get(m, k) == Some(m[i].1),
    decreases m.len(),
{
    if m[0].0@ == k {
        0
    } else {
        let j = lemma_get_witness(m.drop_first(), k);
        assert(m.drop_first()[j] == m[j + 1]);
        j + 1
    }
}

/// Appending a pair does not disturb lookups of present keys, and gives the
/// appended value to its own key when that key was absent.
pub proof fn lemma_get_push<V>(m: Seq<(String, V)>, p: (String, V), k: Seq<char>)
    ensures
        spec_get(m.push(p), k) == (if has_key(m, k) {
            spec_get(m, k)
        } else if p.0@ == k {
            Some(p.1)
        } else {
            None::<V>
        }),
    decreases m.len(),
{
    if m.len() == 0 {
        assert(m.push(p)[0] == p);
        assert(m.push(p).drop_first() =~= Seq::<(String, V)>::empty());
        if p.0@ == k {
            assert(spec_get(m.push(p), k) == Some(p.1));
        } else {
            assert(spec_get(m.push(p), k) == spec_get(Seq::<(String, V)>::empty(), k));
            assert(spec_get(m.push(p), k) is None);
        }
        assert(spec_get(m, k) is None);
    } else {
        assert(m.push(p)[0] == m[0]);
        assert(m.push(p).drop_first() =~= m.drop_first().push(p));
        lemma_get_push(m.drop_first(), p, k);
        if m[0].0@ == k {
            assert(spec_get(m.push(p), k) == Some(m[0].1));
            assert(spec_get(m, k) == Some(m[0].1));
        } else {
            assert(spec_get(m.push(p), k) == spec_get(m.drop_first().push(p), k));
            assert(spec_get(m, k) == spec_get(m.drop_first(), k));
        }
    }
}

/// Replacing the value stored at the sole occurrence of a key rewrites that
/// key's lookup and no other.
pub proof fn lemma_get_update<V>(m: Seq<(String, V)>, i: int, p: (String, V), k: Seq<char>)
    requires
        0 <= i < m.len(),
        p.0@ == m[i].0@,
    ensures
        p.0@ != k ==> spec_get(m.update(i, p), k) == spec_get(m, k),
        (p.0@ == k && (forall|j: int| 0 <= j < i ==> m[j].0@ != k)) ==> spec_get(
            m.update(i, p),
            k,
        ) == Some(p.1),
    decreases m.len(),
{
    let mu = m.update(i, p);
    if i == 0 {
        assert(mu[0] == p);
        assert(mu.drop_first() =~= m.drop_first());
    } else {
        assert(mu[0] == m[0]);
        assert(mu.drop_first() =~= m.drop_first().update(i - 1, p));
        assert(m.drop_first()[i - 1] == m[i]);
        if p.0@ == k {
            assert(forall|j: int| 0 <= j < i ==> m[j].0@ != k ==> true);
            assert(forall|j: int| 0 <= j < i - 1 ==> m.drop_first()[j] == m[j + 1]);
        }
        lemma_get_update(m.drop_first(), i - 1, p, k);
    }
}

/// A key is present exactly when some pair carries it.
pub proof fn lemma_has_key_index<V>(m: Seq<(String, V)>, k: Seq<char>)
    ensures
        has_key(m, k) <==> (exists|i: int| 0 <= i < m.len() && (#[trigger] m[i]).0@ == k),
    decreases m.len(),
{
    if m.len() == 0 {
    } else {
        lemma_has_key_index(m.drop_first(), k);
        if m[0].0@ == k {
        } else {
            assert forall|i: int|
                0 <= i < m.drop_first().len() && (#[trigger] m.drop_first()[i]).0@
                    == k implies exists|i2: int| 0 <= i2 < m.len() && (#[trigger] m[i2]).0@
                == k by {
                assert(m[i + 1].0@ == k);
            }
            assert forall|i: int|
                0 < i < m.len() && (#[trigger] m[i]).0@ == k implies exists|i2: int|
                0 <= i2 < m.drop_first().len() && (#[trigger] m.drop_first()[i2]).0@ == k by {
                assert(m.drop_first()[i - 1].0@ == k);
            }
        }
    }
}

/// Appending a pair with a fresh key keeps keys unique.
pub proof fn lemma_uniq_push<V>(m: Seq<(String, V)>, p: (String, V))
    requires
        uniq_keys(m),
        !has_key(m, p.0@),
    ensures
        uniq_keys(m.push(p)),
{
    lemma_has_key_index(m, p.0@);
    assert forall|i: int, j: int|
        0 <= i < j < m.push(p).len() implies m.push(p)[i].0@ != m.push(p)[j].0@ by {
        if j == m.len() {
            assert(m.push(p)[j] == p);
            assert(m.push(p)[i] == m[i]);
        } else {
            assert(m.push(p)[i] == m[i]);
            assert(m.push(p)[j] == m[j]);
        }
    }
}

/// A key found within a prefix looks up to the same value in the whole.
pub proof fn lemma_get_take<V>(m: Seq<(String, V)>, j: int, k: Seq<char>)
    requires
        0 <= j <= m.len(),
    ensures
        has_key(m.take(j), k) ==> spec_get(m, k) == spec_get(m.take(j), k),
    decreases j,
{
    if j == 0 {
    } else if m.take(j).len() == 0 {
    } else {
        assert(m.take(j)[0] == m[0]);
        if m[0].0@ == k {
        } else {
            assert(m.take(j).drop_first() =~= m.drop_first().take(j - 1));
            lemma_get_take(m.drop_first(), j - 1, k);
        }
    }
}

/// The keys of a map, as their own vector.
pub fn key_strings<V>(m: &Vec<(String, V)>) -> (r: Vec<String>)
    ensures
        r@.len() == m@.len(),
        forall|i: int| 0 <= i < r@.len() ==> (#[trigger] r@[i])@ == m@[i].0@,
{
    let mut r: Vec<String> = Vec::new();
    let mut i: usize = 0;
    while i < m.len()
        invariant
            i <= m@.len(),
            r@.len() == i,
            forall|j: int| 0 <= j < i ==> (#[trigger] r@[j])@ == m@[j].0@,
        decreases m@.len() - i,
    {
        r.push(m[i].0.clone());
        i += 1;
    }
    r
}

/// Tests whether the keys of `m` are pairwise distinct.
pub fn check_uniq<V>(m: &Vec<(String, V)>) -> (r: bool)
    ensures
        r == uniq_keys(m@),
{
    let mut i: usize = 0;
    while i < m.len()
        invariant
            i <= m@.len(),
            forall|x: int, y: int| 0 <= x < y < i ==> m@[x].0@ != m@[y].0@,
        decreases m@.len() - i,
    {
        let mut j: usize = 0;
        while j < i
            invariant
                j <= i < m@.len(),
                forall|x: int| 0 <= x < j ==> m@[x].0@ != m@[i as int].0@,
            decreases i - j,
        {
            if str_eq(m[j].0.as_str(), m[i].0.as_str()) {
                return false;
            }
            j += 1;
        }
        i += 1;
    }
    true
}

/// Finds the index of the pair carrying key `k`, scanning from the front.
pub fn find_index<V>(m: &Vec<(String, V)>, k: &str) -> (r: Option<usize>)
    ensures
        match r {
            Some(i) => {
                &&& i < m@.len()
                &&& m@[i as int].0@ == k@
                &&& forall|j: int| 0 <= j < i ==> m@[j].0@ != k@
                &&& spec_get(m@, k@) == Some(m@[i as int].1)
            },
            None => !has_key(m@, k@),
        },
{
    let mut i: usize = 0;
    while i < m.len()
        invariant
            i <= m@.len(),
            forall|j: int| 0 <= j < i ==> m@[j].0@ != k@,
        decreases m@.len() - i,
    {
        if str_eq(m[i].0.as_str(), k) {
            proof {
                lemma_get_index(m@, i as int);
            }
            return Some(i);
        }
        i += 1;
    }
    proof {
        lemma_get_none(m@, k@);
    }
    None
}

} // verus!
