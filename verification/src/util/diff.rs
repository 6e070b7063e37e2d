//! Three-way set difference between two key collections.

use vstd::prelude::*;

use crate::util::strings::{contains_str, views};

verus! {

/// No two strings in `v` read the same.
pub open spec fn unique_keys(v: Seq<String>) -> bool {
    forall|i: int, j: int| 0 <= i < j < v.len() ==> v[i]@ != v[j]@
}

/// Appending a string extends the set of views by exactly its view.
pub proof fn lemma_views_push(s: Seq<String>, e: String)
    ensures
        forall|k: Seq<char>|
            #[trigger] views(s.push(e)).contains(k) <==> (views(s).contains(k) || k == e@),
{
    assert(views(s.push(e)) =~= views(s).push(e@));
    assert forall|k: Seq<char>|
        #[trigger] views(s.push(e)).contains(k) <==> (views(s).contains(k) || k == e@) by {
        if views(s.push(e)).contains(k) {
            let j = choose|j: int|
                0 <= j < views(s.push(e)).len() && views(s.push(e))[j] == k;
            if j < views(s).len() {
                assert(views(s)[j] == k);
            }
        }
        if views(s).contains(k) {
            let j = choose|j: int| 0 <= j < views(s).len() && views(s)[j] == k;
            assert(views(s.push(e))[j] == k);
        }
        if k == e@ {
            assert(views(s.push(e))[s.len() as int] == k);
        }
    }
}

/// A string absent from the views of `s` differs from every element of `s`.
pub proof fn lemma_not_contained(s: Seq<String>, k: Seq<char>)
    requires
        !views(s).contains(k),
    ensures
        forall|j: int| 0 <= j < s.len() ==> s[j]@ != k,
{
    assert forall|j: int| 0 <= j < s.len() implies s[j]@ != k by {
        assert(views(s)[j] == s[j]@);
    }
}

/// Performs a set difference between two key vectors.
///
/// Returns the keys that are only in `a`, the keys that are in both `a` and
/// `b`, and the keys that are only in `b`.
pub fn diff(a: &Vec<String>, b: &Vec<String>) -> (r: (Vec<String>, Vec<String>, Vec<String>))
    requires
        unique_keys(a@),
        unique_keys(b@),
    ensures
        unique_keys(r.0@),
        unique_keys(r.1@),
        unique_keys(r.2@),
        forall|k: Seq<char>|
            #[trigger] views(r.0@).contains(k) <==> views(a@).contains(k) && !views(b@).contains(
                k,
            ),
        forall|k: Seq<char>|
            #[trigger] views(r.1@).contains(k) <==> views(a@).contains(k) && views(b@).contains(k),
        forall|k: Seq<char>|
            #[trigger] views(r.2@).contains(k) <==> views(b@).contains(k) && !views(a@).contains(
                k,
            ),
{
    let mut a_only: Vec<String> = Vec::new();
    let mut both: Vec<String> = Vec::new();
    let mut b_only: Vec<String> = Vec::new();

    let mut i: usize = 0;
    while i < a.len()
        invariant
            i <= a@.len(),
            unique_keys(a@),
            unique_keys(b@),
            unique_keys(a_only@),
            unique_keys(both@),
            forall|k: Seq<char>|
                #[trigger] views(a_only@).contains(k) <==> views(a@.take(i as int)).contains(k)
                    && !views(b@).contains(k),
            forall|k: Seq<char>|
                #[trigger] views(both@).contains(k) <==> views(a@.take(i as int)).contains(k)
                    && views(b@).contains(k),
        decreases a@.len() - i,
    {
        let ghost prev = a@.take(i as int);
        let ghost key = a@[i as int]@;
        proof {
            assert(a@.take(i + 1) =~= prev.push(a@[i as int]));
            lemma_views_push(prev, a@[i as int]);
            // the key at i never occurred in the processed prefix
            assert forall|j: int| 0 <= j < i implies views(prev)[j] != key by {
                assert(prev[j] == a@[j]);
            }
            assert(!views(prev).contains(key));
        }
        if contains_str(b, a[i].as_str()) {
            proof {
                lemma_views_push(both@, a@[i as int]);
                lemma_not_contained(both@, key);
            }
            both.push(a[i].clone());
        } else {
            proof {
                lemma_views_push(a_only@, a@[i as int]);
                lemma_not_contained(a_only@, key);
            }
            a_only.push(a[i].clone());
        }
        i += 1;
    }
    proof {
        assert(a@.take(a@.len() as int) =~= a@);
    }

    let mut i: usize = 0;
    while i < b.len()
        invariant
            i <= b@.len(),
            unique_keys(a@),
            unique_keys(b@),
            unique_keys(b_only@),
            forall|k: Seq<char>|
                #[trigger] views(b_only@).contains(k) <==> views(b@.take(i as int)).contains(k)
                    && !views(a@).contains(k),
        decreases b@.len() - i,
    {
        let ghost prev = b@.take(i as int);
        let ghost key = b@[i as int]@;
        proof {
            assert(b@.take(i + 1) =~= prev.push(b@[i as int]));
            lemma_views_push(prev, b@[i as int]);
            assert forall|j: int| 0 <= j < i implies views(prev)[j] != key by {
                assert(prev[j] == b@[j]);
            }
            assert(!views(prev).contains(key));
        }
        if !contains_str(a, b[i].as_str()) {
            proof {
                lemma_views_push(b_only@, b@[i as int]);
                lemma_not_contained(b_only@, key);
            }
            b_only.push(b[i].clone());
        }
        i += 1;
    }
    proof {
        assert(b@.take(b@.len() as int) =~= b@);
    }

    (a_only, both, b_only)
}

} // verus!
