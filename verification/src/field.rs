//! Percentile (rank) normalization of scalar fields.
//!
//! Each vertex that passes an inclusion predicate is ranked by its position
//! in the ascending sort of the included field values (ties broken by vertex
//! index, so the sort order is unique), and its rank is the exact rational
//! `position / (count - 1)`.  Excluded vertices rank 0.  When fewer than two
//! vertices are included the denominator would be degenerate; the fixed rule
//! here is that every vertex then ranks `0 / 1`.

use vstd::prelude::*;
use vstd::relations::{sorted_by, total_ordering};
use vstd::seq_lib::lemma_sorted_unique;

verus! {

/// Total "value, then index" order over vertex indices: `i` comes before `j`
/// when its field value is smaller, with ties broken by the vertex index.
pub open spec fn lex_leq(f: Seq<i64>) -> spec_fn(usize, usize) -> bool {
    |i: usize, j: usize| f[i as int] < f[j as int] || (f[i as int] == f[j as int] && i <= j)
}

/// The strict version of `lex_leq`.
pub open spec fn lex_lt(f: Seq<i64>, i: usize, j: usize) -> bool {
    f[i as int] < f[j as int] || (f[i as int] == f[j as int] && i < j)
}

pub proof fn lemma_lex_leq_total(f: Seq<i64>)
    ensures
        total_ordering(lex_leq(f)),
{
}

/// Indices of the vertices that pass the inclusion predicate, in index order.
pub open spec fn included_indices(incl: Seq<bool>) -> Seq<usize>
    decreases incl.len(),
{
    if incl.len() == 0 {
        Seq::empty()
    } else if incl.last() {
        included_indices(incl.drop_last()).push((incl.len() - 1) as usize)
    } else {
        included_indices(incl.drop_last())
    }
}

/// How many vertices pass the inclusion predicate.
pub open spec fn included_count(incl: Seq<bool>) -> nat {
    included_indices(incl).len()
}

pub proof fn lemma_included_indices(incl: Seq<bool>)
    requires
        incl.len() <= usize::MAX,
    ensures
        forall|k: int|
            0 <= k < included_indices(incl).len() ==> #[trigger] included_indices(incl)[k]
                < incl.len() && incl[included_indices(incl)[k] as int],
        forall|k1: int, k2: int|
            0 <= k1 < k2 < included_indices(incl).len() ==> #[trigger] included_indices(
                incl,
            )[k1] < #[trigger] included_indices(incl)[k2],
        forall|i: int|
            0 <= i < incl.len() && incl[i] ==> included_indices(incl).contains(i as usize),
        included_indices(incl).no_duplicates(),
        included_indices(incl).len() <= incl.len(),
    decreases incl.len(),
{
    if incl.len() > 0 {
        lemma_included_indices(incl.drop_last());
        let s = included_indices(incl);
        let prev = included_indices(incl.drop_last());
        assert(s == if incl.last() {
            prev.push((incl.len() - 1) as usize)
        } else {
            prev
        });
        assert forall|k: int| 0 <= k < s.len() implies #[trigger] s[k] < incl.len()
            && incl[s[k] as int] by {
            if k < prev.len() {
                assert(s[k] == prev[k]);
                assert(incl.drop_last()[prev[k] as int] == incl[prev[k] as int]);
            } else {
                assert(incl.last());
                assert(s[k] == (incl.len() - 1) as usize);
            }
        }
        assert forall|k1: int, k2: int| 0 <= k1 < k2 < s.len() implies #[trigger] s[k1]
            < #[trigger] s[k2] by {
            if k2 < prev.len() {
                assert(s[k1] == prev[k1] && s[k2] == prev[k2]);
            } else {
                assert(s[k2] == (incl.len() - 1) as usize);
                assert(s[k1] == prev[k1]);
                assert(prev[k1] < incl.drop_last().len());
            }
        }
        assert forall|i: int| 0 <= i < incl.len() && incl[i] implies s.contains(i as usize) by {
            if i < incl.len() - 1 {
                assert(incl.drop_last()[i] == incl[i]);
                assert(prev.contains(i as usize));
                let k = choose|k: int| 0 <= k < prev.len() && prev[k] == i as usize;
                assert(s[k] == i as usize);
            } else {
                assert(incl.last());
                assert(s.last() == i as usize);
            }
        }
        assert(s.no_duplicates()) by {
            assert forall|k1: int, k2: int|
                0 <= k1 < s.len() && 0 <= k2 < s.len() && k1 != k2 implies s[k1] != s[k2] by {
                if k1 < k2 {
                    assert(s[k1] < s[k2]);
                } else {
                    assert(s[k2] < s[k1]);
                }
            }
        }
    }
}

/// The included vertex indices, sorted ascending by (field value, index).
/// A vertex's rank numerator is its position in this sequence.
pub open spec fn rank_order(f: Seq<i64>, incl: Seq<bool>) -> Seq<usize> {
    included_indices(incl).sort_by(lex_leq(f))
}

/// Denominator of the rank fractions: `count - 1`, or 1 when fewer than two
/// vertices are included (every rank is then exactly 0).
pub open spec fn rank_den_spec(incl: Seq<bool>) -> nat {
    if included_count(incl) <= 1 {
        1
    } else {
        (included_count(incl) - 1) as nat
    }
}

/// The sorted rank order is a duplicate-free ordering of exactly the included
/// vertex indices.
pub proof fn lemma_rank_order(f: Seq<i64>, incl: Seq<bool>)
    requires
        incl.len() <= usize::MAX,
    ensures
        rank_order(f, incl).len() == included_count(incl),
        rank_order(f, incl).no_duplicates(),
        sorted_by(rank_order(f, incl), lex_leq(f)),
        forall|k: int|
            0 <= k < rank_order(f, incl).len() ==> #[trigger] rank_order(f, incl)[k] < incl.len()
                && incl[rank_order(f, incl)[k] as int],
        forall|i: int|
            0 <= i < incl.len() && incl[i] ==> rank_order(f, incl).contains(i as usize),
{
    broadcast use vstd::seq_lib::group_to_multiset_ensures;

    let base = included_indices(incl);
    let s = rank_order(f, incl);
    lemma_included_indices(incl);
    lemma_lex_leq_total(f);
    base.lemma_sort_by_ensures(lex_leq(f));
    base.lemma_multiset_has_no_duplicates();
    assert(s.to_multiset().len() == base.to_multiset().len());
    assert(s.len() == base.len());
    assert(forall|x: usize| s.to_multiset().contains(x) ==> s.to_multiset().count(x) == 1);
    s.lemma_multiset_has_no_duplicates_conv();
    assert forall|k: int| 0 <= k < s.len() implies #[trigger] s[k] < incl.len()
        && incl[s[k] as int] by {
        assert(s.to_multiset().contains(s[k]));
        assert(base.to_multiset().contains(s[k]));
        assert(base.contains(s[k]));
        let k2 = choose|k2: int| 0 <= k2 < base.len() && base[k2] == s[k];
        assert(base[k2] < incl.len() && incl[base[k2] as int]);
    }
    assert forall|i: int| 0 <= i < incl.len() && incl[i] implies s.contains(i as usize) by {
        assert(base.contains(i as usize));
        assert(base.to_multiset().contains(i as usize));
        assert(s.to_multiset().contains(i as usize));
    }
}

/// What it means for `nums` / `den` to be the rank normalization of the
/// field `f` under the inclusion predicate `incl`: every included vertex's
/// numerator is its position in `rank_order`, every excluded vertex's is 0,
/// and the shared denominator follows the degenerate-count rule.
pub open spec fn rank_field_matches(
    f: Seq<i64>,
    incl: Seq<bool>,
    nums: Seq<usize>,
    den: nat,
) -> bool {
    &&& nums.len() == f.len()
    &&& den == rank_den_spec(incl)
    &&& forall|i: int| 0 <= i < incl.len() && !incl[i] ==> nums[i] == 0
    &&& forall|i: int|
        0 <= i < incl.len() && incl[i] ==> #[trigger] nums[i] < rank_order(f, incl).len()
            && rank_order(f, incl)[nums[i] as int] == i as usize
    &&& forall|i: int| 0 <= i < incl.len() ==> #[trigger] nums[i] as int <= den
}

/// A rank-normalized field: vertex `i` has the exact rational rank
/// `nums[i] / den`.
pub struct RankField {
    /// Rank numerator per vertex: the vertex's position in the ascending sort
    /// of the included values; 0 for excluded vertices.
    pub nums: Vec<usize>,
    /// Shared denominator: `included count - 1`, or 1 in the degenerate case.
    pub den: usize,
}

fn lex_less(field: &Vec<i64>, a: usize, b: usize) -> (r: bool)
    requires
        a < field@.len(),
        b < field@.len(),
    ensures
        r == lex_lt(field@, a, b),
{
    field[a] < field[b] || (field[a] == field[b] && a < b)
}

/// Rank-normalize a scalar field over the vertices selected by `incl`.
///
/// Each included vertex is assigned its 0-based position in the ascending
/// sort of the included values (ties broken by vertex index); each excluded
/// vertex is assigned 0.  The shared denominator is `count - 1`, or 1 when
/// fewer than two vertices are included, so that every rank is a rational in
/// `[0, 1]`.
pub fn get_sorted_idx(field: &Vec<i64>, incl: &Vec<bool>) -> (r: RankField)
    requires
        field@.len() == incl@.len(),
    ensures
        rank_field_matches(field@, incl@, r.nums@, r.den as nat),
{
    let n = field.len();
    let mut order: Vec<usize> = Vec::new();

    let mut i: usize = 0;
    while i < n
        invariant
            i <= n,
            field@.len() == n,
            incl@.len() == n,
            order@ == included_indices(incl@.subrange(0, i as int)),
        decreases n - i,
    {
        proof {
            let sub1 = incl@.subrange(0, i + 1 as int);
            assert(sub1.drop_last() =~= incl@.subrange(0, i as int));
            assert(sub1.last() == incl@[i as int]);
        }
        if incl[i] {
            order.push(i);
        }
        i += 1;
    }
    proof {
        assert(incl@.subrange(0, n as int) =~= incl@);
        lemma_included_indices(incl@);
    }

    sort_by_value(field, &mut order);
    proof {
        broadcast use vstd::seq_lib::group_to_multiset_ensures;

        lemma_lex_leq_total(field@);
        included_indices(incl@).lemma_sort_by_ensures(lex_leq(field@));
        lemma_sorted_unique(order@, rank_order(field@, incl@), lex_leq(field@));
        assert(order@ == rank_order(field@, incl@));
        lemma_rank_order(field@, incl@);
    }

    let count = order.len();
    let mut nums: Vec<usize> = Vec::new();
    let mut i: usize = 0;
    while i < n
        invariant
            i <= n,
            nums@.len() == i,
            forall|v: int| 0 <= v < i ==> nums@[v] == 0,
        decreases n - i,
    {
        nums.push(0);
        i += 1;
    }

    let mut k: usize = 0;
    while k < count
        invariant
            k <= count,
            count == order@.len(),
            nums@.len() == n,
            field@.len() == n,
            incl@.len() == n,
            order@ == rank_order(field@, incl@),
            order@.no_duplicates(),
            forall|j: int| 0 <= j < order@.len() ==> #[trigger] order@[j] < n,
            forall|j: int| 0 <= j < k ==> #[trigger] nums@[order@[j] as int] == j,
            forall|v: int|
                0 <= v < n && !order@.subrange(0, k as int).contains(v as usize) ==> #[trigger] nums@[v]
                    == 0,
        decreases count - k,
    {
        let v = order[k];
        nums[v] = k;
        proof {
            assert forall|j: int| 0 <= j < k + 1 implies #[trigger] nums@[order@[j] as int]
                == j by {
                if j < k {
                    assert(order@[j] != order@[k as int]);
                }
            }
            assert forall|v2: int|
                0 <= v2 < n && !order@.subrange(0, k + 1 as int).contains(
                    v2 as usize,
                ) implies #[trigger] nums@[v2] == 0 by {
                assert(order@.subrange(0, k + 1 as int)[k as int] == order@[k as int]);
                assert(v2 as usize != order@[k as int]);
                assert(!order@.subrange(0, k as int).contains(v2 as usize)) by {
                    if order@.subrange(0, k as int).contains(v2 as usize) {
                        let jj = choose|jj: int|
                            0 <= jj < k && order@.subrange(0, k as int)[jj] == v2 as usize;
                        assert(order@.subrange(0, k + 1 as int)[jj] == v2 as usize);
                    }
                }
            }
        }
        k += 1;
    }

    let den = if count <= 1 {
        1
    } else {
        count - 1
    };

    proof {
        assert(order@.subrange(0, count as int) =~= order@);
        assert forall|i2: int| 0 <= i2 < incl@.len() && incl@[i2] implies #[trigger] nums@[i2]
            < rank_order(field@, incl@).len() && rank_order(field@, incl@)[nums@[i2] as int]
            == i2 as usize by {
            assert(order@.contains(i2 as usize));
            let p = choose|p: int| 0 <= p < order@.len() && order@[p] == i2 as usize;
            assert(nums@[order@[p] as int] == p);
        }
        assert forall|i2: int| 0 <= i2 < incl@.len() && !incl@[i2] implies #[trigger] nums@[i2]
            == 0 by {
            if order@.contains(i2 as usize) {
                let p = choose|p: int| 0 <= p < order@.len() && order@[p] == i2 as usize;
                assert(incl@[order@[p] as int]);
            }
        }
    }

    RankField { nums, den }
}

/// Insertion sort of vertex indices by (field value, index).
fn sort_by_value(field: &Vec<i64>, order: &mut Vec<usize>)
    requires
        forall|k: int| 0 <= k < old(order)@.len() ==> #[trigger] old(order)@[k] < field@.len(),
    ensures
        final(order)@.len() == old(order)@.len(),
        final(order)@.to_multiset() == old(order)@.to_multiset(),
        sorted_by(final(order)@, lex_leq(field@)),
        forall|k: int| 0 <= k < final(order)@.len() ==> #[trigger] final(order)@[k] < field@.len(),
{
    broadcast use vstd::seq_lib::group_to_multiset_ensures;

    let len = order.len();
    if len <= 1 {
        proof {
            lemma_lex_leq_total(field@);
        }
        return ;
    }
    let ghost m0 = order@.to_multiset();
    let ghost leq = lex_leq(field@);
    let mut idx: usize = 1;
    while idx < len
        invariant
            1 <= idx <= len,
            order@.len() == len,
            order@.to_multiset() == m0,
            leq == lex_leq(field@),
            sorted_by(order@.subrange(0, idx as int), leq),
            forall|k: int| 0 <= k < order@.len() ==> #[trigger] order@[k] < field@.len(),
        decreases len - idx,
    {
        proof {
            let s = order@.subrange(0, idx as int);
            assert forall|a: int, b: int|
                0 <= a < b <= idx && a != idx && b != idx implies #[trigger] leq(
                order@[a],
                order@[b],
            ) by {
                assert(s[a] == order@[a] && s[b] == order@[b]);
            }
        }
        let mut j: usize = idx;
        while j > 0 && lex_less(field, order[j], order[j - 1])
            invariant
                0 <= j <= idx < len,
                order@.len() == len,
                order@.to_multiset() == m0,
                leq == lex_leq(field@),
                forall|k: int| 0 <= k < order@.len() ==> #[trigger] order@[k] < field@.len(),
                forall|a: int, b: int|
                    0 <= a < b <= idx && a != j && b != j ==> #[trigger] leq(
                        order@[a],
                        order@[b],
                    ),
                forall|b: int| j < b <= idx ==> #[trigger] leq(order@[j as int], order@[b]),
            decreases j,
        {
            proof {
                lemma_lex_leq_total(field@);
            }
            let ghost before = order@;
            let x = order[j];
            let y = order[j - 1];
            order[j] = y;
            order[j - 1] = x;
            proof {
                assert(order@ =~= before.update(j as int, y).update(j - 1, x));
                assert(order@.to_multiset() == before.to_multiset()) by {
                    broadcast use vstd::multiset::group_multiset_axioms;
                    broadcast use vstd::seq_lib::group_to_multiset_ensures;

                    assert(before.contains(x));
                    assert(before.to_multiset().count(x) > 0);
                    vstd::seq_lib::to_multiset_update(before, j as int, y);
                    vstd::seq_lib::to_multiset_update(before.update(j as int, y), j - 1, x);
                    assert(before.update(j as int, y)[j - 1] == y);
                    assert(before.update(j as int, y).update(j - 1, x).to_multiset()
                        =~= before.to_multiset());
                }
                assert(lex_lt(field@, x, y));
                assert(!leq(y, x));
                assert forall|a: int, b: int|
                    0 <= a < b <= idx && a != j - 1 && b != j - 1 implies #[trigger] leq(
                    order@[a],
                    order@[b],
                ) by {
                    if a == j {
                        // order[j] is now y == before[j - 1]
                        if b > j {
                            assert(leq(before[j - 1], before[b]));
                        }
                    } else if b == j {
                        assert(leq(before[a], before[j - 1]));
                    } else {
                        assert(leq(before[a], before[b]));
                    }
                }
                assert forall|b: int| j - 1 < b <= idx implies #[trigger] leq(
                    order@[j - 1],
                    order@[b],
                ) by {
                    if b == j {
                        assert(leq(x, y));
                    } else {
                        assert(leq(before[j as int], before[b]));
                        assert(order@[j - 1] == before[j as int]);
                    }
                }
            }
            j -= 1;
        }
        proof {
            lemma_lex_leq_total(field@);
            let s = order@.subrange(0, idx + 1 as int);
            assert forall|a: int, b: int| 0 <= a < b < s.len() implies #[trigger] leq(
                s[a],
                s[b],
            ) by {
                assert(s[a] == order@[a] && s[b] == order@[b]);
                if j == 0 {
                    if a == 0 && b > 0 {
                        assert(leq(order@[0], order@[b]));
                    }
                } else {
                    // loop ended with leq(order[j - 1], order[j])
                    assert(!lex_lt(field@, order@[j as int], order@[j - 1]));
                    assert(leq(order@[j - 1], order@[j as int]));
                    if a == j {
                        assert(leq(order@[a], order@[b]));
                    } else if b == j {
                        if a < j - 1 {
                            assert(leq(order@[a], order@[j - 1]));
                        }
                        assert(leq(order@[a], order@[j - 1]) && leq(order@[j - 1], order@[b]));
                    } else {
                        assert(leq(order@[a], order@[b]));
                    }
                }
            }
            assert(sorted_by(s, leq));
        }
        idx += 1;
    }
    proof {
        assert(order@.subrange(0, len as int) =~= order@);
    }
}

/// The rank numerator of vertex `i`: its position in the sorted rank order
/// when it is included, 0 otherwise.
pub open spec fn rank_num_spec(f: Seq<i64>, incl: Seq<bool>, i: int) -> int {
    if 0 <= i < incl.len() && incl[i] {
        rank_order(f, incl).index_of(i as usize)
    } else {
        0
    }
}

/// A rank field that matches the contract carries exactly the spec-level
/// rank numerators.
pub proof fn lemma_rank_nums_unique(f: Seq<i64>, incl: Seq<bool>, nums: Seq<usize>, den: nat)
    requires
        f.len() == incl.len(),
        incl.len() <= usize::MAX,
        rank_field_matches(f, incl, nums, den),
    ensures
        forall|i: int| 0 <= i < incl.len() ==> #[trigger] nums[i] as int == rank_num_spec(f, incl, i),
{
    lemma_rank_order(f, incl);
    let order = rank_order(f, incl);
    assert forall|i: int| 0 <= i < incl.len() implies #[trigger] nums[i] as int == rank_num_spec(
        f,
        incl,
        i,
    ) by {
        if incl[i] {
            assert(order[nums[i] as int] == i as usize);
            assert(order.contains(i as usize));
            let k = order.index_of(i as usize);
            assert(0 <= k < order.len() && order[k] == i as usize);
            if k != nums[i] as int {
                assert(order.no_duplicates());
            }
        }
    }
}

/// Inclusion flags selecting every vertex.
pub fn include_all(n: usize) -> (r: Vec<bool>)
    ensures
        r@ == Seq::new(n as nat, |i: int| true),
{
    let mut r: Vec<bool> = Vec::new();
    let mut i: usize = 0;
    while i < n
        invariant
            i <= n,
            r@.len() == i,
            forall|j: int| 0 <= j < i ==> r@[j] == true,
        decreases n - i,
    {
        r.push(true);
        i += 1;
    }
    proof {
        assert(r@ =~= Seq::new(n as nat, |i: int| true));
    }
    r
}

/// Inclusion flags selecting the vertices whose field value is at least
/// `threshold`.
pub fn include_at_least(field: &Vec<i64>, threshold: i64) -> (r: Vec<bool>)
    ensures
        r@ == Seq::new(field@.len(), |i: int| field@[i] >= threshold),
{
    let n = field.len();
    let mut r: Vec<bool> = Vec::new();
    let mut i: usize = 0;
    while i < n
        invariant
            i <= n,
            field@.len() == n,
            r@.len() == i,
            forall|j: int| 0 <= j < i ==> r@[j] == (field@[j] >= threshold),
        decreases n - i,
    {
        r.push(field[i] >= threshold);
        i += 1;
    }
    proof {
        assert(r@ =~= Seq::new(field@.len(), |i: int| field@[i] >= threshold));
    }
    r
}

proof fn lemma_all_included(incl: Seq<bool>)
    requires
        forall|i: int| 0 <= i < incl.len() ==> incl[i],
    ensures
        included_count(incl) == incl.len(),
    decreases incl.len(),
{
    if incl.len() > 0 {
        lemma_all_included(incl.drop_last());
    }
}

/// Some vertex carries the rank numerator `k`.
pub open spec fn some_vertex_has_rank(nums: Seq<usize>, k: int) -> bool {
    exists|i: int| 0 <= i < nums.len() && #[trigger] nums[i] == k
}

/// Law: for a field of length at least two ranked with the always-true
/// predicate and pairwise distinct values, the rank numerators form a
/// bijection onto `{0, ..., n - 1}` over the shared denominator `n - 1`:
/// every grid point `k / (n - 1)` is covered exactly once.
pub proof fn lemma_rank_covers_grid(f: Seq<i64>, incl: Seq<bool>, nums: Seq<usize>, den: nat)
    requires
        incl.len() == f.len(),
        f.len() <= usize::MAX,
        2 <= f.len(),
        forall|i: int| 0 <= i < incl.len() ==> incl[i],
        forall|i: int, j: int| 0 <= i < j < f.len() ==> f[i] != f[j],
        rank_field_matches(f, incl, nums, den),
    ensures
        den == f.len() - 1,
        forall|i: int, j: int| 0 <= i < j < f.len() ==> nums[i] != nums[j],
        forall|k: int| 0 <= k < f.len() ==> #[trigger] some_vertex_has_rank(nums, k),
{
    lemma_all_included(incl);
    lemma_rank_order(f, incl);
    let order = rank_order(f, incl);
    assert forall|i: int, j: int| 0 <= i < j < f.len() implies nums[i] != nums[j] by {
        assert(order[nums[i] as int] == i as usize);
        assert(order[nums[j] as int] == j as usize);
    }
    assert forall|k: int| 0 <= k < f.len() implies #[trigger] some_vertex_has_rank(nums, k) by {
        let i = order[k] as int;
        assert(incl[i]);
        assert(order[nums[i] as int] == i as usize);
        assert(nums[i] == k) by {
            if nums[i] != k {
                assert(order[nums[i] as int] == order[k]);
            }
        }
    }
}

/// Law: ranks are invariant under a strictly order-preserving transform of
/// the source field.  If two fields induce the same strict order on every
/// pair of vertices, they produce identical rank numerators and denominator.
pub proof fn lemma_rank_order_preserving(
    f: Seq<i64>,
    g: Seq<i64>,
    incl: Seq<bool>,
    nums_f: Seq<usize>,
    nums_g: Seq<usize>,
    den_f: nat,
    den_g: nat,
)
    requires
        f.len() == incl.len(),
        g.len() == incl.len(),
        incl.len() <= usize::MAX,
        forall|i: int, j: int|
            0 <= i < incl.len() && 0 <= j < incl.len() ==> ((f[i] < f[j]) <==> (g[i] < g[j])),
        rank_field_matches(f, incl, nums_f, den_f),
        rank_field_matches(g, incl, nums_g, den_g),
    ensures
        den_f == den_g,
        forall|i: int| 0 <= i < incl.len() ==> #[trigger] nums_f[i] == nums_g[i],
{
    broadcast use vstd::seq_lib::group_to_multiset_ensures;

    lemma_rank_order(f, incl);
    lemma_rank_order(g, incl);
    lemma_lex_leq_total(f);
    let of = rank_order(f, incl);
    let og = rank_order(g, incl);
    // `og` is also sorted under the order of `f`, because the two fields
    // order every in-range pair of vertices alike.
    assert forall|a: int, b: int| 0 <= a < b < og.len() implies #[trigger] lex_leq(f)(
        og[a],
        og[b],
    ) by {
        assert(lex_leq(g)(og[a], og[b]));
        assert(og[a] < incl.len() && og[b] < incl.len());
        assert((f[og[a] as int] < f[og[b] as int]) <==> (g[og[a] as int] < g[og[b] as int]));
        assert((f[og[b] as int] < f[og[a] as int]) <==> (g[og[b] as int] < g[og[a] as int]));
    }
    let base = included_indices(incl);
    lemma_lex_leq_total(g);
    base.lemma_sort_by_ensures(lex_leq(f));
    base.lemma_sort_by_ensures(lex_leq(g));
    lemma_sorted_unique(of, og, lex_leq(f));
    assert(of == og);
    assert forall|i: int| 0 <= i < incl.len() implies #[trigger] nums_f[i] == nums_g[i] by {
        if incl[i] {
            assert(of[nums_f[i] as int] == i as usize);
            assert(og[nums_g[i] as int] == i as usize);
            if nums_f[i] != nums_g[i] {
                assert(of.no_duplicates());
            }
        }
    }
}

} // verus!
