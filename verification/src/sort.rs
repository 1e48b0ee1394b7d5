//! Sorting keyed accounts by address.
//!
//! Program-account scans must hand results back sorted by address
//! whatever order the backend produced them in; backends that scan
//! unsorted sort here before returning.

use vstd::prelude::*;
use vstd::seq_lib::group_to_multiset_ensures;
use vstd::multiset::group_multiset_axioms;
use vstd::multiset::Multiset;
use crate::account::Account;
use crate::addr::{spec_address_lt, Address};
use crate::capability::spec_sorted_by_address;

verus! {

/// Non-strict sortedness by address: no later element comes before an
/// earlier one.
pub open spec fn spec_sorted_le_by_address(s: Seq<(Address, Account)>) -> bool {
    forall|i: int, j: int| 0 <= i < j < s.len() ==> !spec_address_lt(s[j].0, s[i].0)
}

proof fn lemma_empty_seq_multiset(s: Seq<(Address, Account)>)
    requires
        s.len() == 0,
    ensures
        s.to_multiset() =~= Multiset::<(Address, Account)>::empty(),
{
    broadcast use group_multiset_axioms;
    broadcast use group_to_multiset_ensures;

    assert forall|x: (Address, Account)| s.to_multiset().count(x) == 0 by {
        if s.to_multiset().count(x) > 0 {
            assert(s.contains(x));
        }
    }
}

/// The index of an entry with the smallest address.
fn min_address_index(src: &Vec<(Address, Account)>) -> (m: usize)
    requires
        src@.len() > 0,
    ensures
        m < src@.len(),
        forall|j: int| 0 <= j < src@.len() ==> !spec_address_lt(src@[j].0, src@[m as int].0),
{
    let mut m: usize = 0;
    let mut j: usize = 1;
    while j < src.len()
        invariant
            m < j <= src@.len(),
            forall|k: int| 0 <= k < j ==> !spec_address_lt(src@[k].0, src@[m as int].0),
        decreases src@.len() - j,
    {
        if src[j].0.lt(&src[m].0) {
            m = j;
        }
        j = j + 1;
    }
    m
}

/// Sorts keyed accounts by address (selection sort). The result is a
/// permutation of the input, non-strictly sorted.
pub fn sort_by_address(v: Vec<(Address, Account)>) -> (r: Vec<(Address, Account)>)
    ensures
        r@.to_multiset() == v@.to_multiset(),
        r@.len() == v@.len(),
        spec_sorted_le_by_address(r@),
{
    let mut src = v;
    let mut out: Vec<(Address, Account)> = Vec::new();
    proof {
        broadcast use group_multiset_axioms;

        lemma_empty_seq_multiset(out@);
        assert(out@.to_multiset().add(src@.to_multiset()) =~= src@.to_multiset());
    }
    while src.len() > 0
        invariant
            out@.to_multiset().add(src@.to_multiset()) == v@.to_multiset(),
            out@.len() + src@.len() == v@.len(),
            spec_sorted_le_by_address(out@),
            forall|i: int, j: int|
                0 <= i < out@.len() && 0 <= j < src@.len() ==> !spec_address_lt(
                    src@[j].0,
                    out@[i].0,
                ),
        decreases src@.len(),
    {
        let ghost old_src = src@;
        let ghost old_out = out@;
        let m = min_address_index(&src);
        let e = src.remove(m);
        out.push(e);
        proof {
            broadcast use group_multiset_axioms;
            broadcast use group_to_multiset_ensures;

            assert(src@.to_multiset() =~= old_src.to_multiset().remove(e));
            assert(out@.to_multiset() =~= old_out.to_multiset().insert(e));
            assert(old_src.contains(e));
            assert(old_src.to_multiset().count(e) > 0);
            assert(out@.to_multiset().add(src@.to_multiset()) =~= old_out.to_multiset().add(
                old_src.to_multiset(),
            ));
            assert forall|i: int, j: int|
                0 <= i < out@.len() && 0 <= j < src@.len() implies !spec_address_lt(
                src@[j].0,
                out@[i].0,
            ) by {
                assert(src@[j] == if j < m { old_src[j] } else { old_src[j + 1] });
                if i < old_out.len() {
                    assert(out@[i] == old_out[i]);
                } else {
                    assert(out@[i] == e);
                }
            }
            assert forall|i: int, j: int| 0 <= i < j < out@.len() implies !spec_address_lt(
                out@[j].0,
                out@[i].0,
            ) by {
                if j == out@.len() - 1 {
                    assert(out@[j] == e);
                    assert(!spec_address_lt(e.0, old_out[i].0));
                }
            }
        }
    }
    proof {
        broadcast use group_multiset_axioms;

        lemma_empty_seq_multiset(src@);
        assert(out@.to_multiset() =~= out@.to_multiset().add(src@.to_multiset()));
    }
    out
}

/// A permutation keeps exactly the same members.
pub proof fn lemma_permutation_same_members(a: Seq<(Address, Account)>, b: Seq<(Address, Account)>)
    requires
        a.to_multiset() == b.to_multiset(),
    ensures
        forall|x: (Address, Account)| a.contains(x) <==> b.contains(x),
{
    broadcast use group_to_multiset_ensures;

    assert forall|x: (Address, Account)| a.contains(x) implies b.contains(x) by {
        assert(a.to_multiset().count(x) > 0);
        assert(b.to_multiset().count(x) > 0);
    }
    assert forall|x: (Address, Account)| b.contains(x) implies a.contains(x) by {
        assert(b.to_multiset().count(x) > 0);
        assert(a.to_multiset().count(x) > 0);
    }
}

/// A permutation of a sequence whose addresses are pairwise distinct has
/// pairwise distinct addresses itself.
pub proof fn lemma_permutation_keeps_distinct_addresses(
    a: Seq<(Address, Account)>,
    b: Seq<(Address, Account)>,
)
    requires
        a.to_multiset() == b.to_multiset(),
        forall|i: int, j: int| 0 <= i < j < a.len() ==> a[i].0 != a[j].0,
    ensures
        forall|i: int, j: int| 0 <= i < j < b.len() ==> b[i].0 != b[j].0,
{
    broadcast use group_to_multiset_ensures;

    assert forall|i: int, j: int|
        0 <= i < a.len() && 0 <= j < a.len() && i != j implies a[i] != a[j] by {
        if i < j {
            assert(a[i].0 != a[j].0);
        } else {
            assert(a[j].0 != a[i].0);
        }
    }
    assert(a.no_duplicates());
    a.lemma_multiset_has_no_duplicates();
    b.lemma_multiset_has_no_duplicates_conv();
    assert(b.no_duplicates());
    lemma_permutation_same_members(a, b);
    assert forall|i: int, j: int| 0 <= i < j < b.len() implies b[i].0 != b[j].0 by {
        if b[i].0 == b[j].0 {
            assert(b[i] != b[j]);
            assert(b.contains(b[i]));
            assert(b.contains(b[j]));
            assert(a.contains(b[i]));
            assert(a.contains(b[j]));
            let p = choose|p: int| 0 <= p < a.len() && a[p] == b[i];
            let q = choose|q: int| 0 <= q < a.len() && a[q] == b[j];
            assert(p != q);
            assert(a[p].0 == a[q].0);
        }
    }
}

/// Non-strict sortedness plus pairwise distinct addresses is strict
/// sortedness.
pub proof fn lemma_sorted_le_distinct_is_strict(s: Seq<(Address, Account)>)
    requires
        spec_sorted_le_by_address(s),
        forall|i: int, j: int| 0 <= i < j < s.len() ==> s[i].0 != s[j].0,
    ensures
        spec_sorted_by_address(s),
{
    assert forall|i: int, j: int| 0 <= i < j < s.len() implies spec_address_lt(
        s[i].0,
        s[j].0,
    ) by {
        assert(!spec_address_lt(s[j].0, s[i].0));
        assert(s[i].0 != s[j].0);
    }
}

} // verus!
