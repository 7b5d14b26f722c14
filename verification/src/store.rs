//! The activity store: an append-only table of activity intervals with a
//! day-range query. Persistence to disk is layered on top by unverified
//! code; this store is the single serialized access point the rest of the
//! library reasons about.

use vstd::prelude::*;
use crate::record::{ActivityRecord, NewActivity};
use crate::time::{spec_to_secs, Date};

verus! {

broadcast use vstd::seq_lib::group_to_multiset_ensures;

/// Sum of the cached durations of a sequence of records.
pub open spec fn sum_durations(s: Seq<ActivityRecord>) -> int
    decreases s.len(),
{
    if s.len() == 0 {
        0
    } else {
        sum_durations(s.drop_last()) + s.last().duration_seconds
    }
}

pub proof fn lemma_sum_durations_nonneg(s: Seq<ActivityRecord>)
    ensures
        sum_durations(s) >= 0,
    decreases s.len(),
{
    if s.len() > 0 {
        lemma_sum_durations_nonneg(s.drop_last());
    }
}

pub proof fn lemma_sum_durations_push(s: Seq<ActivityRecord>, x: ActivityRecord)
    ensures
        sum_durations(s.push(x)) == sum_durations(s) + x.duration_seconds,
{
    assert(s.push(x).drop_last() =~= s);
    assert(s.push(x).last() == x);
}

pub proof fn lemma_sum_durations_remove(s: Seq<ActivityRecord>, i: int)
    requires
        0 <= i < s.len(),
    ensures
        sum_durations(s.remove(i)) == sum_durations(s) - s[i].duration_seconds,
    decreases s.len(),
{
    if i == s.len() - 1 {
        assert(s.remove(i) =~= s.drop_last());
    } else {
        let t = s.drop_last();
        lemma_sum_durations_remove(t, i);
        assert(s.remove(i) =~= t.remove(i).push(s.last()));
        lemma_sum_durations_push(t.remove(i), s.last());
    }
}

/// Records ordered (non-strictly) by start time.
pub open spec fn sorted_by_start(s: Seq<ActivityRecord>) -> bool {
    forall|i: int, j: int|
        0 <= i < j < s.len() ==> spec_to_secs((#[trigger] s[i]).start_time) <= spec_to_secs(
            (#[trigger] s[j]).start_time,
        )
}

/// The error an append can report: the store's machine-level capacity
/// (identifier space or total tracked seconds) is exhausted.
#[derive(Clone, Copy, Debug, PartialEq, Eq, Structural)]
pub enum StoreError {
    CapacityExceeded,
}

/// Append-only store of activity intervals, with identifiers assigned in
/// strictly increasing order.
pub struct ActivityStore {
    records: Vec<ActivityRecord>,
    next_id: i64,
    total_seconds: u64,
}

impl ActivityStore {
    /// The persisted records, in insertion order.
    pub closed spec fn records_view(self) -> Seq<ActivityRecord> {
        self.records@
    }

    /// The identifier the next accepted interval will get.
    pub closed spec fn next_id_view(self) -> int {
        self.next_id as int
    }

    /// Total tracked seconds over all persisted records.
    pub closed spec fn total_view(self) -> int {
        self.total_seconds as int
    }

    /// The store invariant: every record is well-formed (non-empty process,
    /// valid timestamps, cached duration equal to end minus start and at
    /// least one second), identifiers are strictly increasing and below the
    /// next one, and the running total matches the records.
    pub open spec fn wf(self) -> bool {
        &&& forall|i: int|
            0 <= i < self.records_view().len() ==> (#[trigger] self.records_view()[i])@.wf()
        &&& forall|i: int, j: int|
            0 <= i < j < self.records_view().len() ==> (#[trigger] self.records_view()[i]).id < (
            #[trigger] self.records_view()[j]).id
        &&& forall|i: int|
            0 <= i < self.records_view().len() ==> (#[trigger] self.records_view()[i]).id
                < self.next_id_view()
        &&& self.next_id_view() >= 1
        &&& self.total_view() == sum_durations(self.records_view())
        &&& 0 <= self.total_view() <= u64::MAX
    }

    /// An empty store; the first interval gets identifier 1.
    pub fn new() -> (r: ActivityStore)
        ensures
            r.wf(),
            r.records_view() == Seq::<ActivityRecord>::empty(),
            r.next_id_view() == 1,
            r.total_view() == 0,
    {
        ActivityStore { records: Vec::new(), next_id: 1, total_seconds: 0 }
    }

    /// The persisted records, for read access in insertion order.
    pub fn records(&self) -> (r: &Vec<ActivityRecord>)
        ensures
            r@ == self.records_view(),
    {
        &self.records
    }

    /// Number of persisted records.
    pub fn len(&self) -> (r: usize)
        ensures
            r == self.records_view().len(),
    {
        self.records.len()
    }

    /// Appends one closed interval. The interval is persisted exactly as
    /// handed in, under the next identifier; the append is refused only when
    /// the identifier space or the total-seconds counter would overflow.
    pub fn append(&mut self, a: NewActivity) -> (r: Result<i64, StoreError>)
        requires
            old(self).wf(),
            a@.wf(),
        ensures
            final(self).wf(),
            r matches Ok(id) ==> {
                &&& id == old(self).next_id_view()
                &&& final(self).records_view() == old(self).records_view().push(
                    (ActivityRecord {
                        id: (old(self).next_id_view()) as i64,
                        process_name: a.process_name,
                        window_title: a.window_title,
                        domain: a.domain,
                        start_time: a.start_time,
                        end_time: a.end_time,
                        duration_seconds: a.duration_seconds,
                    }),
                )
                &&& final(self).next_id_view() == old(self).next_id_view() + 1
                &&& final(self).total_view() == old(self).total_view() + a.duration_seconds
            },
            r is Err ==> *final(self) == *old(self),
            r is Ok <==> (old(self).next_id_view() < i64::MAX && old(self).total_view()
                + a.duration_seconds <= u64::MAX),
    {
        if self.next_id == i64::MAX {
            return Err(StoreError::CapacityExceeded);
        }
        match self.total_seconds.checked_add(a.duration_seconds) {
            None => Err(StoreError::CapacityExceeded),
            Some(new_total) => {
                let id = self.next_id;
                let rec = ActivityRecord {
                    id,
                    process_name: a.process_name,
                    window_title: a.window_title,
                    domain: a.domain,
                    start_time: a.start_time,
                    end_time: a.end_time,
                    duration_seconds: a.duration_seconds,
                };
                proof {
                    lemma_sum_durations_push(self.records@, rec);
                }
                self.records.push(rec);
                self.next_id = id + 1;
                self.total_seconds = new_total;
                Ok(id)
            },
        }
    }

    /// All persisted intervals whose start timestamp falls on `day`
    /// (the closed range from 00:00:00 to 23:59:59 of that local day),
    /// ascending by start time: the result holds exactly the records of that
    /// day, sorted.
    pub fn query_range(&self, day: Date) -> (r: Vec<ActivityRecord>)
        requires
            self.wf(),
        ensures
            r@.to_multiset() == self.records_view().filter(
                |rec: ActivityRecord| rec.start_time.date == day,
            ).to_multiset(),
            sorted_by_start(r@),
            forall|i: int| 0 <= i < r@.len() ==> (#[trigger] r@[i])@.wf(),
            forall|i: int| 0 <= i < r@.len() ==> (#[trigger] r@[i]).start_time.date == day,
            sum_durations(r@) == sum_durations(
                self.records_view().filter(|rec: ActivityRecord| rec.start_time.date == day),
            ),
    {
        let ghost pred = |rec: ActivityRecord| rec.start_time.date == day;
        let mut picked: Vec<ActivityRecord> = Vec::new();
        let n = self.records.len();
        let mut i: usize = 0;
        while i < n
            invariant
                n == self.records_view().len(),
                0 <= i <= n,
                self.wf(),
                picked@ == self.records_view().subrange(0, i as int).filter(pred),
                pred == (|rec: ActivityRecord| rec.start_time.date == day),
                forall|t: int|
                    0 <= t < picked@.len() ==> (#[trigger] picked@[t])@.wf()
                        && picked@[t].start_time.date == day,
            decreases n - i,
        {
            let ghost pre = self.records_view().subrange(0, i as int);
            let ghost cur = self.records_view().subrange(0, i as int + 1);
            proof {
                reveal(Seq::filter);
                assert(cur.drop_last() =~= pre);
                assert(cur.last() == self.records_view()[i as int]);
            }
            let rec = &self.records[i];
            if rec.start_time.date.year == day.year && rec.start_time.date.month == day.month
                && rec.start_time.date.day == day.day {
                proof {
                    assert(rec.start_time.date == day);
                }
                picked.push(rec.clone_record());
                proof {
                    assert(picked@ =~= cur.filter(pred));
                }
            } else {
                proof {
                    assert(picked@ =~= cur.filter(pred));
                }
            }
            i = i + 1;
        }
        proof {
            assert(self.records_view().subrange(0, n as int) =~= self.records_view());
        }
        let r = sort_by_start(picked);
        proof {
            assert forall|t: int| 0 <= t < r@.len() implies (#[trigger] r@[t]).start_time.date
                == day by {
                assert(r@.contains(r@[t]));
            }
        }
        r
    }
}

/// Sorts records ascending by start time; the result is a permutation of the
/// input with the same duration sum.
fn sort_by_start(v: Vec<ActivityRecord>) -> (r: Vec<ActivityRecord>)
    requires
        forall|i: int| 0 <= i < v@.len() ==> (#[trigger] v@[i])@.wf(),
    ensures
        r@.to_multiset() == v@.to_multiset(),
        sorted_by_start(r@),
        sum_durations(r@) == sum_durations(v@),
        forall|i: int| 0 <= i < r@.len() ==> (#[trigger] r@[i])@.wf(),
        forall|rec: ActivityRecord| r@.contains(rec) ==> v@.contains(rec),
    decreases v@.len(),
{
    let mut src = v;
    let mut out: Vec<ActivityRecord> = Vec::new();
    proof {
        lemma_sum_durations_nonneg(src@);
    }
    while src.len() > 0
        invariant
            out@.to_multiset().add(src@.to_multiset()) =~= v@.to_multiset(),
            sum_durations(out@) + sum_durations(src@) == sum_durations(v@),
            sorted_by_start(out@),
            forall|i: int, j: int|
                0 <= i < out@.len() && 0 <= j < src@.len() ==> spec_to_secs(
                    (#[trigger] out@[i]).start_time,
                ) <= spec_to_secs((#[trigger] src@[j]).start_time),
            forall|i: int| 0 <= i < out@.len() ==> (#[trigger] out@[i])@.wf(),
            forall|i: int| 0 <= i < src@.len() ==> (#[trigger] src@[i])@.wf(),
        decreases src@.len(),
    {
        let mut m: usize = 0;
        let mut k: usize = 1;
        let mut m_secs: u64 = src[0].start_time.to_secs();
        while k < src.len()
            invariant
                0 <= m < src@.len(),
                m < k <= src@.len(),
                forall|i: int| 0 <= i < src@.len() ==> (#[trigger] src@[i])@.wf(),
                m_secs == spec_to_secs(src@[m as int].start_time),
                forall|t: int|
                    0 <= t < k ==> m_secs <= spec_to_secs((#[trigger] src@[t]).start_time),
            decreases src@.len() - k,
        {
            let k_secs = src[k].start_time.to_secs();
            if k_secs < m_secs {
                m = k;
                m_secs = k_secs;
            }
            k = k + 1;
        }
        let ghost src_pre = src@;
        let ghost out_pre = out@;
        let x = src.remove(m);
        proof {
            lemma_sum_durations_remove(src_pre, m as int);
            lemma_sum_durations_push(out_pre, x);
            assert(out_pre.push(x).to_multiset().add(src_pre.remove(m as int).to_multiset())
                =~= out_pre.to_multiset().add(src_pre.to_multiset()));
        }
        out.push(x);
    }
    proof {
        assert(src@.to_multiset().len() == 0);
        assert(out@.to_multiset().add(src@.to_multiset()) =~= out@.to_multiset());
        assert forall|rec: ActivityRecord| out@.contains(rec) implies v@.contains(rec) by {
            assert(out@.to_multiset().count(rec) > 0);
            assert(v@.to_multiset().count(rec) > 0);
        }
    }
    out
}

} // verus!
