//! The summary engine: pure aggregation over stored records, by process and
//! by domain, producing ranked totals with percentage shares.
//!
//! Each row carries its exact share as the pair (row total, grouped total);
//! the caller divides to display a percentage, and because the row totals
//! sum to the grouped total, the shares of a non-empty grouping sum to
//! precisely 100 percent.

use vstd::prelude::*;
use vstd::pervasive::VecAdditionalExecFns;
use crate::record::ActivityRecord;
use crate::store::{sum_durations, ActivityStore};
use crate::time::Date;

verus! {

broadcast use vstd::seq_lib::group_to_multiset_ensures;

/// One ranked row of an aggregation: the grouping key (a process name or a
/// domain), its total tracked seconds, and the grouped total of the whole
/// aggregation. The row's percentage share is the exact quotient
/// `total_seconds / grand_total` (0 when the grouped total is 0); it is
/// handed out as this pair, not pre-rounded, so that the displayed shares
/// of a grouping sum to exactly 100 percent.
pub struct SummaryRow {
    pub key: String,
    pub total_seconds: u64,
    pub grand_total: u64,
}

/// Sum of the durations of a sequence of (key, duration) pairs.
pub open spec fn sum_pairs(s: Seq<(String, u64)>) -> int
    decreases s.len(),
{
    if s.len() == 0 {
        0
    } else {
        sum_pairs(s.drop_last()) + s.last().1
    }
}

/// Sum of the durations of the pairs whose key is `k`.
pub open spec fn sum_for_key(s: Seq<(String, u64)>, k: Seq<char>) -> int
    decreases s.len(),
{
    if s.len() == 0 {
        0
    } else {
        sum_for_key(s.drop_last(), k) + if s.last().0@ == k {
            s.last().1 as int
        } else {
            0
        }
    }
}

/// Sum of the totals of a sequence of summary rows.
pub open spec fn sum_rows(s: Seq<SummaryRow>) -> int
    decreases s.len(),
{
    if s.len() == 0 {
        0
    } else {
        sum_rows(s.drop_last()) + s.last().total_seconds
    }
}

/// Whether some row carries the key `k`.
pub open spec fn rows_have_key(rows: Seq<SummaryRow>, k: Seq<char>) -> bool {
    exists|i: int| 0 <= i < rows.len() && (#[trigger] rows[i]).key@ == k
}

/// Whether some pair carries the key `k`.
pub open spec fn pairs_have_key(pairs: Seq<(String, u64)>, k: Seq<char>) -> bool {
    exists|j: int| 0 <= j < pairs.len() && (#[trigger] pairs[j]).0@ == k
}

/// What an aggregation returns for the projected `pairs`: one row per
/// distinct key, holding exactly the key's duration sum; every key of the
/// input is represented once; rows are ranked by descending total; each
/// row carries the grouped total its share is taken of; the rows' totals
/// sum to the grouped total; and the result is empty exactly when the
/// input is.
pub open spec fn summary_ok(pairs: Seq<(String, u64)>, rows: Seq<SummaryRow>) -> bool {
    let grand = sum_pairs(pairs);
    &&& forall|i: int|
        0 <= i < rows.len() ==> (#[trigger] rows[i]).total_seconds == sum_for_key(
            pairs,
            rows[i].key@,
        )
    &&& forall|i: int, j: int|
        0 <= i < j < rows.len() ==> (#[trigger] rows[i]).key@ != (#[trigger] rows[j]).key@
    &&& forall|j: int| 0 <= j < pairs.len() ==> rows_have_key(rows, (#[trigger] pairs[j]).0@)
    &&& forall|i: int| 0 <= i < rows.len() ==> pairs_have_key(pairs, (#[trigger] rows[i]).key@)
    &&& forall|i: int, j: int|
        0 <= i < j < rows.len() ==> (#[trigger] rows[i]).total_seconds >= (
        #[trigger] rows[j]).total_seconds
    &&& forall|i: int| 0 <= i < rows.len() ==> (#[trigger] rows[i]).grand_total == grand
    &&& sum_rows(rows) == grand
    &&& (rows.len() == 0 <==> pairs.len() == 0)
}

pub proof fn lemma_sum_pairs_nonneg(s: Seq<(String, u64)>)
    ensures
        sum_pairs(s) >= 0,
    decreases s.len(),
{
    if s.len() > 0 {
        lemma_sum_pairs_nonneg(s.drop_last());
    }
}

pub proof fn lemma_sum_pairs_prefix(s: Seq<(String, u64)>, i: int)
    requires
        0 <= i <= s.len(),
    ensures
        sum_pairs(s.subrange(0, i)) <= sum_pairs(s),
    decreases s.len() - i,
{
    if i == s.len() {
        assert(s.subrange(0, i) =~= s);
    } else {
        lemma_sum_pairs_prefix(s, i + 1);
        assert(s.subrange(0, i + 1).drop_last() =~= s.subrange(0, i));
        assert(s.subrange(0, i + 1).last() == s[i]);
    }
}

/// A key that occurs in no pair contributes nothing.
pub proof fn lemma_sum_for_key_absent(s: Seq<(String, u64)>, k: Seq<char>)
    requires
        forall|j: int| 0 <= j < s.len() ==> (#[trigger] s[j]).0@ != k,
    ensures
        sum_for_key(s, k) == 0,
    decreases s.len(),
{
    if s.len() > 0 {
        lemma_sum_for_key_absent(s.drop_last(), k);
    }
}

pub proof fn lemma_sum_rows_nonneg(s: Seq<SummaryRow>)
    ensures
        sum_rows(s) >= 0,
    decreases s.len(),
{
    if s.len() > 0 {
        lemma_sum_rows_nonneg(s.drop_last());
    }
}

pub proof fn lemma_sum_rows_push(s: Seq<SummaryRow>, x: SummaryRow)
    ensures
        sum_rows(s.push(x)) == sum_rows(s) + x.total_seconds,
{
    assert(s.push(x).drop_last() =~= s);
    assert(s.push(x).last() == x);
}

pub proof fn lemma_sum_rows_remove(s: Seq<SummaryRow>, i: int)
    requires
        0 <= i < s.len(),
    ensures
        sum_rows(s.remove(i)) == sum_rows(s) - s[i].total_seconds,
    decreases s.len(),
{
    if i == s.len() - 1 {
        assert(s.remove(i) =~= s.drop_last());
    } else {
        let t = s.drop_last();
        lemma_sum_rows_remove(t, i);
        assert(s.remove(i) =~= t.remove(i).push(s.last()));
        lemma_sum_rows_push(t.remove(i), s.last());
    }
}

pub proof fn lemma_sum_rows_update(s: Seq<SummaryRow>, i: int, x: SummaryRow)
    requires
        0 <= i < s.len(),
    ensures
        sum_rows(s.update(i, x)) == sum_rows(s) - s[i].total_seconds + x.total_seconds,
    decreases s.len(),
{
    if i == s.len() - 1 {
        assert(s.update(i, x).drop_last() =~= s.drop_last());
        assert(s.update(i, x).last() == x);
    } else {
        lemma_sum_rows_update(s.drop_last(), i, x);
        assert(s.update(i, x).drop_last() =~= s.drop_last().update(i, x));
        assert(s.update(i, x).last() == s.last());
    }
}

/// Two row sequences with pointwise-equal totals have the same sum.
pub proof fn lemma_sum_rows_congruent(a: Seq<SummaryRow>, b: Seq<SummaryRow>)
    requires
        a.len() == b.len(),
        forall|i: int| 0 <= i < a.len() ==> (#[trigger] a[i]).total_seconds == b[i].total_seconds,
    ensures
        sum_rows(a) == sum_rows(b),
    decreases a.len(),
{
    if a.len() > 0 {
        lemma_sum_rows_congruent(a.drop_last(), b.drop_last());
    }
}

/// Every row's total is at most the sum of all rows' totals.
pub proof fn lemma_row_le_sum(s: Seq<SummaryRow>, i: int)
    requires
        0 <= i < s.len(),
    ensures
        s[i].total_seconds <= sum_rows(s),
    decreases s.len(),
{
    if i == s.len() - 1 {
        lemma_sum_rows_nonneg(s.drop_last());
    } else {
        lemma_row_le_sum(s.drop_last(), i);
    }
}

pub proof fn lemma_sum_for_key_push(s: Seq<(String, u64)>, p: (String, u64), k: Seq<char>)
    ensures
        sum_for_key(s.push(p), k) == sum_for_key(s, k) + if p.0@ == k {
            p.1 as int
        } else {
            0
        },
{
    assert(s.push(p).drop_last() =~= s);
    assert(s.push(p).last() == p);
}

pub proof fn lemma_sum_pairs_push(s: Seq<(String, u64)>, p: (String, u64))
    ensures
        sum_pairs(s.push(p)) == sum_pairs(s) + p.1,
{
    assert(s.push(p).drop_last() =~= s);
    assert(s.push(p).last() == p);
}

/// The exact shares of a ranking sum to exactly 100 percent: scaled by
/// 10000 (hundredths of a percent), the rows' totals sum to 10000 times the
/// grouped total, so dividing each by the grouped total distributes
/// precisely one whole (100.00 percent) over the rows.
pub proof fn lemma_shares_sum_exact(pairs: Seq<(String, u64)>, rows: Seq<SummaryRow>)
    requires
        summary_ok(pairs, rows),
        sum_pairs(pairs) > 0,
    ensures
        sum_scaled_rows(rows) == 10000 * sum_pairs(pairs),
        rows.len() > 0,
{
    lemma_scaled_is_scaled(rows);
}

/// Sum of the rows' totals, each scaled by 10000.
pub open spec fn sum_scaled_rows(s: Seq<SummaryRow>) -> int
    decreases s.len(),
{
    if s.len() == 0 {
        0
    } else {
        sum_scaled_rows(s.drop_last()) + 10000 * s.last().total_seconds
    }
}

proof fn lemma_scaled_is_scaled(s: Seq<SummaryRow>)
    ensures
        sum_scaled_rows(s) == 10000 * sum_rows(s),
    decreases s.len(),
{
    if s.len() > 0 {
        lemma_scaled_is_scaled(s.drop_last());
    }
}

/// Groups `pairs` by key, sums each key's durations, ranks the groups by
/// descending total and attaches percentage shares; see `summary_ok`.
#[verifier::rlimit(100)]
pub fn summarize(pairs: Vec<(String, u64)>) -> (r: Vec<SummaryRow>)
    requires
        sum_pairs(pairs@) <= u64::MAX,
    ensures
        summary_ok(pairs@, r@),
{
    let ghost all = pairs@;
    let mut rows: Vec<SummaryRow> = Vec::new();
    let n = pairs.len();
    let mut idx: usize = 0;
    proof {
        lemma_sum_pairs_nonneg(all);
    }
    while idx < n
        invariant
            n == all.len(),
            0 <= idx <= n,
            pairs@ == all,
            sum_pairs(all) <= u64::MAX,
            forall|i: int|
                0 <= i < rows@.len() ==> (#[trigger] rows@[i]).total_seconds == sum_for_key(
                    all.subrange(0, idx as int),
                    rows@[i].key@,
                ),
            forall|i: int, j: int|
                0 <= i < j < rows@.len() ==> (#[trigger] rows@[i]).key@ != (
                #[trigger] rows@[j]).key@,
            forall|j: int| 0 <= j < idx ==> rows_have_key(rows@, (#[trigger] all[j]).0@),
            forall|i: int|
                0 <= i < rows@.len() ==> pairs_have_key(
                    all.subrange(0, idx as int),
                    (#[trigger] rows@[i]).key@,
                ),
            sum_rows(rows@) == sum_pairs(all.subrange(0, idx as int)),
        decreases n - idx,
    {
        let ghost pre = all.subrange(0, idx as int);
        let ghost cur = all.subrange(0, idx as int + 1);
        proof {
            assert(cur =~= pre.push(all[idx as int]));
            lemma_sum_pairs_push(pre, all[idx as int]);
            lemma_sum_pairs_prefix(all, idx as int + 1);
        }
        let key_ref: &String = &pairs[idx].0;
        let dur: u64 = pairs[idx].1;

        // linear scan for an existing group with this key
        let mut found: Option<usize> = None;
        let mut j: usize = 0;
        while j < rows.len() && found.is_none()
            invariant
                0 <= j <= rows@.len(),
                key_ref@ == all[idx as int].0@,
                found matches Some(f) ==> f < rows@.len() && rows@[f as int].key@ == key_ref@,
                found is None ==> forall|t: int|
                    0 <= t < j ==> (#[trigger] rows@[t]).key@ != key_ref@,
            decreases rows@.len() - j,
        {
            if rows[j].key.eq(key_ref) {
                found = Some(j);
            }
            j = j + 1;
        }
        proof {
            if found is None {
                assert(j == rows@.len());
            }
        }

        let ghost rows_pre = rows@;
        match found {
            Some(f) => {
                proof {
                    lemma_row_le_sum(rows@, f as int);
                    lemma_sum_rows_nonneg(rows@);
                }
                let old_row_key = rows[f].key.clone();
                let old_total = rows[f].total_seconds;
                rows.set(
                    f,
                    SummaryRow {
                        key: old_row_key,
                        total_seconds: old_total + dur,
                        grand_total: 0,
                    },
                );
                proof {
                    let row_new = rows@[f as int];
                    assert(rows@ =~= rows_pre.update(f as int, row_new));
                    lemma_sum_rows_update(rows_pre, f as int, row_new);
                    assert(forall|i: int|
                        0 <= i < rows@.len() ==> (#[trigger] rows@[i]).key@ == rows_pre[i].key@);
                    assert forall|i: int| 0 <= i < rows@.len() implies (
                    #[trigger] rows@[i]).total_seconds == sum_for_key(cur, rows@[i].key@) by {
                        lemma_sum_for_key_push(pre, all[idx as int], rows@[i].key@);
                        if i != f as int {
                            assert(rows@[i].key@ != rows_pre[f as int].key@);
                        }
                    }
                    assert forall|j2: int| 0 <= j2 < idx as int + 1 implies rows_have_key(
                        rows@,
                        (#[trigger] all[j2]).0@,
                    ) by {
                        if j2 < idx as int {
                            let w = choose|w: int|
                                0 <= w < rows_pre.len() && (#[trigger] rows_pre[w]).key@
                                    == all[j2].0@;
                            assert(rows@[w].key@ == all[j2].0@);
                        } else {
                            assert(rows@[f as int].key@ == all[idx as int].0@);
                        }
                    }
                    assert forall|i: int| 0 <= i < rows@.len() implies pairs_have_key(
                        cur,
                        (#[trigger] rows@[i]).key@,
                    ) by {
                        let w = choose|w: int|
                            0 <= w < pre.len() && (#[trigger] pre[w]).0@ == rows_pre[i].key@;
                        assert(cur[w] == pre[w]);
                        assert(cur[w].0@ == rows@[i].key@);
                    }
                }
            },
            None => {
                proof {
                    assert forall|j2: int| 0 <= j2 < pre.len() implies (#[trigger] pre[j2]).0@
                        != key_ref@ by {
                        assert(pre[j2] == all[j2]);
                        if all[j2].0@ == key_ref@ {
                            assert(rows_have_key(rows_pre, all[j2].0@));
                            let w = choose|w: int|
                                0 <= w < rows_pre.len() && (#[trigger] rows_pre[w]).key@
                                    == all[j2].0@;
                            assert(rows@[w].key@ == key_ref@);
                            assert(false);
                        }
                    }
                    lemma_sum_for_key_absent(pre, key_ref@);
                }
                rows.push(
                    SummaryRow { key: key_ref.clone(), total_seconds: dur, grand_total: 0 },
                );
                proof {
                    let row_new = rows@.last();
                    assert(rows@ =~= rows_pre.push(row_new));
                    lemma_sum_rows_push(rows_pre, row_new);
                    assert(row_new.key@ == key_ref@);
                    assert forall|i: int| 0 <= i < rows@.len() implies (
                    #[trigger] rows@[i]).total_seconds == sum_for_key(cur, rows@[i].key@) by {
                        lemma_sum_for_key_push(pre, all[idx as int], rows@[i].key@);
                        if i < rows_pre.len() {
                            assert(rows@[i] == rows_pre[i]);
                            assert(rows@[i].key@ != key_ref@);
                        } else {
                            assert(rows@[i] == row_new);
                        }
                    }
                    assert forall|j2: int| 0 <= j2 < idx as int + 1 implies rows_have_key(
                        rows@,
                        (#[trigger] all[j2]).0@,
                    ) by {
                        if j2 < idx as int {
                            let w = choose|w: int|
                                0 <= w < rows_pre.len() && (#[trigger] rows_pre[w]).key@
                                    == all[j2].0@;
                            assert(rows@[w].key@ == all[j2].0@);
                        } else {
                            assert(rows@[rows@.len() - 1].key@ == all[idx as int].0@);
                        }
                    }
                    assert forall|i: int| 0 <= i < rows@.len() implies pairs_have_key(
                        cur,
                        (#[trigger] rows@[i]).key@,
                    ) by {
                        if i < rows_pre.len() {
                            let w = choose|w: int|
                                0 <= w < pre.len() && (#[trigger] pre[w]).0@ == rows_pre[i].key@;
                            assert(cur[w] == pre[w]);
                            assert(cur[w].0@ == rows@[i].key@);
                        } else {
                            assert(cur[cur.len() - 1].0@ == rows@[i].key@);
                        }
                    }
                }
            },
        }
        idx = idx + 1;
    }
    proof {
        assert(all.subrange(0, n as int) =~= all);
    }
    let ghost grouped = rows@;
    let ranked = sort_rows_desc(rows);
    let out = attach_grand_total(ranked, Ghost(all));
    proof {
        let rv = ranked@;
        let ov = out@;
        assert forall|i: int| 0 <= i < ov.len() implies (#[trigger] ov[i]).total_seconds
            == sum_for_key(all, ov[i].key@) by {
            assert(rv.contains(rv[i]));
            assert(grouped.contains(rv[i]));
            let t = choose|t: int| 0 <= t < grouped.len() && grouped[t] == rv[i];
            assert(grouped[t].total_seconds == sum_for_key(all, grouped[t].key@));
        }
        assert forall|j: int| 0 <= j < all.len() implies rows_have_key(
            ov,
            (#[trigger] all[j]).0@,
        ) by {
            assert(rows_have_key(grouped, all[j].0@));
            let g = choose|g: int|
                0 <= g < grouped.len() && (#[trigger] grouped[g]).key@ == all[j].0@;
            assert(grouped.contains(grouped[g]));
            assert(rv.contains(grouped[g]));
            let t = choose|t: int| 0 <= t < rv.len() && rv[t] == grouped[g];
            assert(ov[t].key@ == all[j].0@);
        }
        assert forall|i: int| 0 <= i < ov.len() implies pairs_have_key(
            all,
            (#[trigger] ov[i]).key@,
        ) by {
            assert(rv.contains(rv[i]));
            assert(grouped.contains(rv[i]));
            let t = choose|t: int| 0 <= t < grouped.len() && grouped[t] == rv[i];
            assert(pairs_have_key(all, grouped[t].key@));
        }
        if all.len() > 0 {
            assert(rows_have_key(ov, all[0].0@));
            let w = choose|w: int| 0 <= w < ov.len() && (#[trigger] ov[w]).key@ == all[0].0@;
            assert(ov.len() > 0);
        }
    }
    out
}

/// Sorts summary rows by descending total. The result is a permutation of
/// the input (same membership, same total sum), and key-distinctness is
/// preserved.
fn sort_rows_desc(v: Vec<SummaryRow>) -> (r: Vec<SummaryRow>)
    requires
        forall|i: int, j: int|
            0 <= i < j < v@.len() ==> (#[trigger] v@[i]).key@ != (#[trigger] v@[j]).key@,
    ensures
        r@.to_multiset() == v@.to_multiset(),
        r@.len() == v@.len(),
        sum_rows(r@) == sum_rows(v@),
        forall|i: int, j: int|
            0 <= i < j < r@.len() ==> (#[trigger] r@[i]).total_seconds >= (
            #[trigger] r@[j]).total_seconds,
        forall|i: int, j: int|
            0 <= i < j < r@.len() ==> (#[trigger] r@[i]).key@ != (#[trigger] r@[j]).key@,
        forall|x: SummaryRow| r@.contains(x) ==> v@.contains(x),
        forall|x: SummaryRow| v@.contains(x) ==> r@.contains(x),
{
    let mut src = v;
    let mut out: Vec<SummaryRow> = Vec::new();
    while src.len() > 0
        invariant
            out@.to_multiset().add(src@.to_multiset()) =~= v@.to_multiset(),
            out@.len() + src@.len() == v@.len(),
            sum_rows(out@) + sum_rows(src@) == sum_rows(v@),
            forall|i: int, j: int|
                0 <= i < j < out@.len() ==> (#[trigger] out@[i]).total_seconds >= (
                #[trigger] out@[j]).total_seconds,
            forall|i: int, j: int|
                0 <= i < out@.len() && 0 <= j < src@.len() ==> (#[trigger] out@[i]).total_seconds
                    >= (#[trigger] src@[j]).total_seconds,
            forall|i: int, j: int|
                0 <= i < j < out@.len() ==> (#[trigger] out@[i]).key@ != (#[trigger] out@[j]).key@,
            forall|i: int, j: int|
                0 <= i < out@.len() && 0 <= j < src@.len() ==> (#[trigger] out@[i]).key@ != (
                #[trigger] src@[j]).key@,
            forall|i: int, j: int|
                0 <= i < j < src@.len() ==> (#[trigger] src@[i]).key@ != (#[trigger] src@[j]).key@,
        decreases src@.len(),
    {
        let mut m: usize = 0;
        let mut k: usize = 1;
        let mut m_total: u64 = src[0].total_seconds;
        while k < src.len()
            invariant
                0 <= m < src@.len(),
                m < k <= src@.len(),
                m_total == src@[m as int].total_seconds,
                forall|t: int|
                    0 <= t < k ==> m_total >= (#[trigger] src@[t]).total_seconds,
            decreases src@.len() - k,
        {
            let k_total = src[k].total_seconds;
            if k_total > m_total {
                m = k;
                m_total = k_total;
            }
            k = k + 1;
        }
        let ghost src_pre = src@;
        let ghost out_pre = out@;
        let x = src.remove(m);
        proof {
            lemma_sum_rows_remove(src_pre, m as int);
            lemma_sum_rows_push(out_pre, x);
            assert(out_pre.push(x).to_multiset().add(src_pre.remove(m as int).to_multiset())
                =~= out_pre.to_multiset().add(src_pre.to_multiset()));
        }
        out.push(x);
    }
    proof {
        assert(src@.to_multiset().len() == 0);
        assert(out@.to_multiset().add(src@.to_multiset()) =~= out@.to_multiset());
        assert forall|x: SummaryRow| out@.contains(x) implies v@.contains(x) by {
            assert(out@.to_multiset().count(x) > 0);
            assert(v@.to_multiset().count(x) > 0);
        }
        assert forall|x: SummaryRow| v@.contains(x) implies out@.contains(x) by {
            assert(v@.to_multiset().count(x) > 0);
            assert(out@.to_multiset().count(x) > 0);
        }
    }
    out
}

/// Fills in each ranked row's grouped total; every other field stays as it
/// was.
fn attach_grand_total(v: Vec<SummaryRow>, pairs: Ghost<Seq<(String, u64)>>) -> (r: Vec<SummaryRow>)
    requires
        sum_rows(v@) == sum_pairs(pairs@),
        sum_pairs(pairs@) <= u64::MAX,
    ensures
        r@.len() == v@.len(),
        forall|i: int|
            0 <= i < r@.len() ==> (#[trigger] r@[i]).key@ == v@[i].key@ && r@[i].total_seconds
                == v@[i].total_seconds,
        forall|i: int| 0 <= i < r@.len() ==> (#[trigger] r@[i]).grand_total == sum_pairs(pairs@),
        sum_rows(r@) == sum_rows(v@),
{
    proof {
        lemma_sum_rows_nonneg(v@);
    }
    // the grouped total, recomputed from the rows
    let mut grand: u64 = 0;
    let mut i: usize = 0;
    while i < v.len()
        invariant
            0 <= i <= v@.len(),
            grand == sum_rows(v@.subrange(0, i as int)),
            sum_rows(v@) <= u64::MAX,
        decreases v@.len() - i,
    {
        let ghost pre = v@.subrange(0, i as int);
        let ghost cur = v@.subrange(0, i as int + 1);
        proof {
            assert(cur.drop_last() =~= pre);
            assert(cur.last() == v@[i as int]);
            lemma_sum_rows_prefix(v@, i as int + 1);
            lemma_sum_rows_nonneg(pre);
        }
        grand = grand + v[i].total_seconds;
        i = i + 1;
    }
    proof {
        assert(v@.subrange(0, v@.len() as int) =~= v@);
    }

    let mut out: Vec<SummaryRow> = Vec::new();
    let mut i: usize = 0;
    while i < v.len()
        invariant
            0 <= i <= v@.len(),
            grand == sum_rows(v@),
            sum_rows(v@) == sum_pairs(pairs@) <= u64::MAX,
            out@.len() == i,
            forall|t: int|
                0 <= t < i ==> (#[trigger] out@[t]).key@ == v@[t].key@ && out@[t].total_seconds
                    == v@[t].total_seconds,
            forall|t: int| 0 <= t < i ==> (#[trigger] out@[t]).grand_total == grand,
        decreases v@.len() - i,
    {
        out.push(
            SummaryRow {
                key: v[i].key.clone(),
                total_seconds: v[i].total_seconds,
                grand_total: grand,
            },
        );
        i = i + 1;
    }
    proof {
        lemma_sum_rows_congruent(out@, v@);
    }
    out
}

/// The (process name, duration) pairs of the records whose start falls on
/// `day`, in stored order.
pub open spec fn process_pairs(recs: Seq<ActivityRecord>, day: Date) -> Seq<(String, u64)>
    decreases recs.len(),
{
    if recs.len() == 0 {
        Seq::empty()
    } else {
        let rest = process_pairs(recs.drop_last(), day);
        let r = recs.last();
        if r.start_time.date == day {
            rest.push((r.process_name, r.duration_seconds))
        } else {
            rest
        }
    }
}

/// The (domain, duration) pairs of the records whose start falls on `day`
/// and that carry a non-empty domain, in stored order.
pub open spec fn domain_pairs(recs: Seq<ActivityRecord>, day: Date) -> Seq<(String, u64)>
    decreases recs.len(),
{
    if recs.len() == 0 {
        Seq::empty()
    } else {
        let rest = domain_pairs(recs.drop_last(), day);
        let r = recs.last();
        if r.start_time.date == day {
            match r.domain {
                Some(d) => if d@.len() > 0 {
                    rest.push((d, r.duration_seconds))
                } else {
                    rest
                },
                None => rest,
            }
        } else {
            rest
        }
    }
}

pub proof fn lemma_process_pairs_sum(recs: Seq<ActivityRecord>, day: Date)
    ensures
        0 <= sum_pairs(process_pairs(recs, day)) <= sum_durations(recs),
    decreases recs.len(),
{
    if recs.len() == 0 {
    } else {
        let t = recs.drop_last();
        lemma_process_pairs_sum(t, day);
        let r = recs.last();
        if r.start_time.date == day {
            lemma_sum_pairs_push(process_pairs(t, day), (r.process_name, r.duration_seconds));
        }
    }
}

pub proof fn lemma_domain_pairs_sum(recs: Seq<ActivityRecord>, day: Date)
    ensures
        0 <= sum_pairs(domain_pairs(recs, day)) <= sum_durations(recs),
    decreases recs.len(),
{
    if recs.len() == 0 {
    } else {
        let t = recs.drop_last();
        lemma_domain_pairs_sum(t, day);
        let r = recs.last();
        if r.start_time.date == day {
            match r.domain {
                Some(d) => {
                    if d@.len() > 0 {
                        lemma_sum_pairs_push(domain_pairs(t, day), (d, r.duration_seconds));
                    }
                },
                None => {},
            }
        }
    }
}

impl ActivityStore {
    /// Ranked process totals for `day`: the stored records of that day,
    /// grouped by process name, ranked by descending total with percentage
    /// shares of the day's grouped total.
    pub fn aggregate_by_process(&self, day: Date) -> (r: Vec<SummaryRow>)
        requires
            self.wf(),
        ensures
            summary_ok(process_pairs(self.records_view(), day), r@),
    {
        let recs = self.records();
        let n = recs.len();
        let mut pairs: Vec<(String, u64)> = Vec::new();
        let mut i: usize = 0;
        while i < n
            invariant
                n == self.records_view().len(),
                recs@ == self.records_view(),
                0 <= i <= n,
                pairs@ == process_pairs(self.records_view().subrange(0, i as int), day),
            decreases n - i,
        {
            let ghost pre = self.records_view().subrange(0, i as int);
            let ghost cur = self.records_view().subrange(0, i as int + 1);
            proof {
                assert(cur.drop_last() =~= pre);
                assert(cur.last() == self.records_view()[i as int]);
            }
            let rec = &recs[i];
            if rec.start_time.date.year == day.year && rec.start_time.date.month == day.month
                && rec.start_time.date.day == day.day {
                proof {
                    assert(rec.start_time.date == day);
                }
                pairs.push((rec.process_name.clone(), rec.duration_seconds));
            }
            i = i + 1;
        }
        proof {
            assert(self.records_view().subrange(0, n as int) =~= self.records_view());
            lemma_process_pairs_sum(self.records_view(), day);
        }
        summarize(pairs)
    }

    /// Ranked domain totals for `day`: like `aggregate_by_process`, over the
    /// day's records that carry a non-empty domain, grouped by domain.
    pub fn aggregate_by_domain(&self, day: Date) -> (r: Vec<SummaryRow>)
        requires
            self.wf(),
        ensures
            summary_ok(domain_pairs(self.records_view(), day), r@),
    {
        let recs = self.records();
        let n = recs.len();
        let mut pairs: Vec<(String, u64)> = Vec::new();
        let mut i: usize = 0;
        while i < n
            invariant
                n == self.records_view().len(),
                recs@ == self.records_view(),
                0 <= i <= n,
                pairs@ == domain_pairs(self.records_view().subrange(0, i as int), day),
            decreases n - i,
        {
            let ghost pre = self.records_view().subrange(0, i as int);
            let ghost cur = self.records_view().subrange(0, i as int + 1);
            proof {
                assert(cur.drop_last() =~= pre);
                assert(cur.last() == self.records_view()[i as int]);
            }
            let rec = &recs[i];
            if rec.start_time.date.year == day.year && rec.start_time.date.month == day.month
                && rec.start_time.date.day == day.day {
                proof {
                    assert(rec.start_time.date == day);
                }
                match &rec.domain {
                    Some(d) => {
                        if !d.as_str().is_empty() {
                            pairs.push((d.clone(), rec.duration_seconds));
                        }
                    },
                    None => {},
                }
            }
            i = i + 1;
        }
        proof {
            assert(self.records_view().subrange(0, n as int) =~= self.records_view());
            lemma_domain_pairs_sum(self.records_view(), day);
        }
        summarize(pairs)
    }
}

pub proof fn lemma_sum_rows_prefix(s: Seq<SummaryRow>, i: int)
    requires
        0 <= i <= s.len(),
    ensures
        sum_rows(s.subrange(0, i)) <= sum_rows(s),
    decreases s.len() - i,
{
    if i == s.len() {
        assert(s.subrange(0, i) =~= s);
    } else {
        lemma_sum_rows_prefix(s, i + 1);
        assert(s.subrange(0, i + 1).drop_last() =~= s.subrange(0, i));
        assert(s.subrange(0, i + 1).last() == s[i]);
    }
}

} // verus!
