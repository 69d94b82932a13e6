use vstd::prelude::*;
use vstd::relations::{sorted_by, total_ordering};

verus! {

/// The order in which replication indices are sorted: ascending.
pub open spec fn ascending() -> spec_fn(u64, u64) -> bool {
    |a: u64, b: u64| a <= b
}

/// `s` in ascending order.
pub open spec fn sorted_values(s: Seq<u64>) -> Seq<u64> {
    s.sort_by(ascending())
}

/// Calls `slice::sort_unstable`, which the documentation says sorts in ascending order:
/// the result holds the same values, in ascending order.
#[verifier::external_body]
fn sort_unstable(v: &mut Vec<u64>)
    ensures
        final(v)@.to_multiset() == old(v)@.to_multiset(),
        sorted_by(final(v)@, ascending()),
{
    v.sort_unstable();
}

proof fn lemma_ascending_total()
    ensures
        total_ordering(ascending()),
{
}

/// What `sorted_values` gives: a permutation of its input, in ascending order.
pub proof fn lemma_sorted_values(s: Seq<u64>)
    ensures
        sorted_values(s).to_multiset() == s.to_multiset(),
        sorted_values(s).len() == s.len(),
        forall|i: int, j: int|
            0 <= i <= j < s.len() ==> sorted_values(s)[i] <= sorted_values(s)[j],
{
    lemma_ascending_total();
    s.lemma_sort_by_ensures(ascending());
    broadcast use vstd::seq_lib::group_to_multiset_ensures;

    assert(sorted_values(s).to_multiset().len() == sorted_values(s).len());
    assert(s.to_multiset().len() == s.len());
    assert forall|i: int, j: int| 0 <= i <= j < s.len() implies sorted_values(s)[i]
        <= sorted_values(s)[j] by {
        if i < j {
            assert(ascending()(sorted_values(s)[i], sorted_values(s)[j]));
        }
    }
}

/// The test that a value reaches `x`.
pub open spec fn at_least(x: u64) -> spec_fn(u64) -> bool {
    |v: u64| v >= x
}

/// How many of `values` are at least `x`, each occurrence counted.
pub open spec fn count_at_least(values: Seq<u64>, x: u64) -> nat {
    values.to_multiset().filter(at_least(x)).len()
}

/// Whether `x` is one of `values`, at least `k` of them reach it, and no larger value
/// is reached by `k` of them.
pub open spec fn is_largest_reached_by(values: Seq<u64>, k: nat, x: u64) -> bool {
    &&& values.contains(x)
    &&& count_at_least(values, x) >= k
    &&& forall|y: u64| #[trigger] count_at_least(values, y) >= k ==> y <= x
}

/// The largest of `values` that at least `k` of them reach.
pub open spec fn largest_reached_by(values: Seq<u64>, k: nat) -> u64 {
    choose|x: u64| is_largest_reached_by(values, k, x)
}

pub proof fn lemma_count_push(t: Seq<u64>, a: u64, x: u64)
    ensures
        count_at_least(t.push(a), x) == count_at_least(t, x) + (if a >= x {
            1nat
        } else {
            0nat
        }),
{
    broadcast use vstd::multiset::group_multiset_axioms;
    broadcast use vstd::seq_lib::group_to_multiset_ensures;

    let m = t.to_multiset();
    let f = at_least(x);
    assert(t.push(a).to_multiset() =~= m.insert(a));
    if a >= x {
        assert(m.insert(a).filter(f) =~= m.filter(f).insert(a));
        vstd::multiset::lemma_insert_len(m.filter(f), a);
    } else {
        assert(m.insert(a).filter(f) =~= m.filter(f));
    }
}

proof fn lemma_count_bounds(t: Seq<u64>, x: u64, p: int)
    requires
        0 <= p <= t.len(),
    ensures
        (forall|j: int| p <= j < t.len() ==> t[j] >= x) ==> count_at_least(t, x) >= t.len() - p,
        (forall|j: int| 0 <= j < p ==> t[j] < x) ==> count_at_least(t, x) <= t.len() - p,
    decreases t.len(),
{
    broadcast use vstd::multiset::group_multiset_axioms;
    broadcast use vstd::seq_lib::group_to_multiset_ensures;

    if t.len() == 0 {
        assert(t.to_multiset().filter(at_least(x)).len() == 0) by {
            assert(t.to_multiset().filter(at_least(x)) =~= vstd::multiset::Multiset::<u64>::empty());
        }
    } else {
        let u = t.drop_last();
        let a = t.last();
        assert(u.push(a) =~= t);
        lemma_count_push(u, a, x);
        if p == t.len() {
            lemma_count_bounds(u, x, u.len() as int);
        } else {
            lemma_count_bounds(u, x, p);
        }
        assert(a == t[t.len() - 1]);
        assert forall|j: int| 0 <= j < u.len() implies u[j] == t[j] by {}
    }
}

/// The value at position `len - k` of `values` sorted in ascending order is the largest
/// that at least `k` of them reach.
pub proof fn lemma_largest_reached_by(values: Seq<u64>, k: nat)
    requires
        1 <= k <= values.len(),
    ensures
        is_largest_reached_by(values, k, largest_reached_by(values, k)),
        largest_reached_by(values, k) == sorted_values(values)[values.len() - k],
{
    broadcast use vstd::seq_lib::group_to_multiset_ensures;

    lemma_sorted_values(values);
    let t = sorted_values(values);
    let n = values.len() as int;
    let p = n - k;
    let c = t[p];
    assert(count_at_least(values, c) == count_at_least(t, c));
    lemma_count_bounds(t, c, p);
    assert(t.contains(c));
    assert(t.to_multiset().count(c) > 0);
    assert(values.contains(c));
    assert forall|y: u64| #[trigger] count_at_least(values, y) >= k implies y <= c by {
        if y > c {
            assert(count_at_least(values, y) == count_at_least(t, y));
            lemma_count_bounds(t, y, p + 1);
        }
    }
    assert(is_largest_reached_by(values, k, c));
    let x = largest_reached_by(values, k);
    assert(is_largest_reached_by(values, k, x));
}

/// `v` sorted in ascending order.
pub fn sort_ascending(v: Vec<u64>) -> (r: Vec<u64>)
    ensures
        r@ == sorted_values(v@),
{
    let mut r = v;
    sort_unstable(&mut r);
    proof {
        lemma_ascending_total();
        v@.lemma_sort_by_ensures(ascending());
        vstd::seq_lib::lemma_sorted_unique(r@, sorted_values(v@), ascending());
    }
    r
}

} // verus!
