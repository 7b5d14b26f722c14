//! The activity recorder: a debounced state machine that turns one probe
//! sample per fixed tick into closed activity intervals.
//!
//! The recorder is `Idle` or holds one `Open` interval. On every tick it
//! closes the open interval when tracking is off or the focused triple
//! changed, and an interval is emitted only if its process name is non-empty
//! and its duration is at least one second; sub-second flicker and intervals
//! cut short by a clock that moved backwards are discarded.

use vstd::prelude::*;
use crate::record::{FocusSample, FocusSampleV, NewActivity, NewActivityV};
use crate::time::{spec_to_secs, Timestamp};

verus! {

/// Recorder state: no open interval, or one open interval with the triple
/// that owns it and its start time.
pub enum RecorderState {
    Idle,
    Open { sample: FocusSample, start: Timestamp },
}

/// Spec view of the recorder state.
pub enum RecorderStateV {
    Idle,
    Open { sample: FocusSampleV, start: Timestamp },
}

impl View for RecorderState {
    type V = RecorderStateV;

    open spec fn view(&self) -> RecorderStateV {
        match self {
            RecorderState::Idle => RecorderStateV::Idle,
            RecorderState::Open { sample, start } => RecorderStateV::Open {
                sample: sample@,
                start: *start,
            },
        }
    }
}

impl RecorderStateV {
    /// Any timestamp held by the state is valid.
    pub open spec fn wf(self) -> bool {
        match self {
            RecorderStateV::Idle => true,
            RecorderStateV::Open { sample, start } => start.wf(),
        }
    }
}

pub open spec fn same_triple(a: FocusSampleV, b: FocusSampleV) -> bool {
    a.process_name == b.process_name && a.window_title == b.window_title && a.domain == b.domain
}

/// The emission rule: closing an open interval at `end` yields an interval
/// only if the process name is non-empty and at least one whole second
/// elapsed; otherwise the segment is discarded.
pub open spec fn spec_close(sample: FocusSampleV, start: Timestamp, end: Timestamp) -> Option<
    NewActivityV,
> {
    if sample.process_name.len() > 0 && spec_to_secs(end) >= spec_to_secs(start) + 1 {
        Some(
            NewActivityV {
                process_name: sample.process_name,
                window_title: sample.window_title,
                domain: sample.domain,
                start_time: start,
                end_time: end,
                duration_seconds: (spec_to_secs(end) - spec_to_secs(start)) as u64,
            },
        )
    } else {
        None
    }
}

/// The transition rule, evaluated once per tick: the next state and the
/// interval emitted by this tick, if any.
pub open spec fn spec_tick(
    state: RecorderStateV,
    tracking: bool,
    sample: Option<FocusSampleV>,
    now: Timestamp,
) -> (RecorderStateV, Option<NewActivityV>) {
    if !tracking {
        match state {
            RecorderStateV::Idle => (RecorderStateV::Idle, None),
            RecorderStateV::Open { sample: open, start } => (
                RecorderStateV::Idle,
                spec_close(open, start, now),
            ),
        }
    } else {
        match sample {
            None => (state, None),
            Some(probe) => match state {
                RecorderStateV::Idle => (
                    RecorderStateV::Open { sample: probe, start: now },
                    None,
                ),
                RecorderStateV::Open { sample: open, start } => {
                    if same_triple(open, probe) {
                        (state, None)
                    } else {
                        (
                            RecorderStateV::Open { sample: probe, start: now },
                            spec_close(open, start, now),
                        )
                    }
                },
            },
        }
    }
}

/// The recorder. Besides its state it carries, in ghost form, the history of
/// every interval it ever emitted, as `(start, end)` second pairs, and the
/// last tick time it saw; the history is what the ordering laws speak of.
pub struct Recorder {
    state: RecorderState,
    emitted: Ghost<Seq<(int, int)>>,
    last_tick: Ghost<int>,
}

impl Recorder {
    pub closed spec fn state_view(self) -> RecorderStateV {
        self.state@
    }

    pub closed spec fn emitted_view(self) -> Seq<(int, int)> {
        self.emitted@
    }

    pub closed spec fn last_tick_view(self) -> int {
        self.last_tick@
    }

    /// The timestamps the state holds are valid.
    pub open spec fn state_wf(self) -> bool {
        self.state_view().wf()
    }

    /// The recorder's history invariant, maintained as long as tick times
    /// are non-decreasing: emitted intervals are at least one second long,
    /// never overlap, are ordered by start time, and lie before the last
    /// tick; an open interval starts no earlier than every emitted end.
    pub open spec fn wf(self) -> bool {
        &&& self.state_wf()
        &&& forall|i: int|
            0 <= i < self.emitted_view().len() ==> (#[trigger] self.emitted_view()[i]).0 + 1
                <= self.emitted_view()[i].1
        &&& forall|i: int, j: int|
            0 <= i < j < self.emitted_view().len() ==> (#[trigger] self.emitted_view()[i]).1 <= (
            #[trigger] self.emitted_view()[j]).0
        &&& forall|i: int|
            0 <= i < self.emitted_view().len() ==> (#[trigger] self.emitted_view()[i]).1
                <= self.last_tick_view()
        &&& match self.state_view() {
            RecorderStateV::Idle => true,
            RecorderStateV::Open { sample, start } => {
                &&& spec_to_secs(start) <= self.last_tick_view()
                &&& forall|i: int|
                    0 <= i < self.emitted_view().len() ==> (#[trigger] self.emitted_view()[i]).1
                        <= spec_to_secs(start)
            },
        }
    }

    /// A fresh recorder: idle, nothing emitted yet.
    pub fn new() -> (r: Recorder)
        ensures
            r.state_view() is Idle,
            r.emitted_view() == Seq::<(int, int)>::empty(),
            r.last_tick_view() == 0,
            r.wf(),
    {
        Recorder { state: RecorderState::Idle, emitted: Ghost(Seq::empty()), last_tick: Ghost(0) }
    }

    /// One tick of the sampling loop. `tracking` is the toggle as sampled
    /// this tick, `sample` what the focus probe returned (`None` makes no
    /// transition while tracking), `now` the tick's wall-clock time.
    ///
    /// The transition and the emitted interval follow `spec_tick` exactly;
    /// whatever the clock does, an emitted interval is at least one second
    /// long with a non-empty process name. As long as tick times never
    /// decrease, the history invariant `wf` (ordering and non-overlap of
    /// everything ever emitted) is preserved.
    pub fn tick(&mut self, tracking: bool, sample: Option<FocusSample>, now: Timestamp) -> (r:
        Option<NewActivity>)
        requires
            old(self).state_wf(),
            now.wf(),
        ensures
            ({
                let (next, emit) = spec_tick(
                    old(self).state_view(),
                    tracking,
                    match sample {
                        Some(ref s) => Some(s@),
                        None => None,
                    },
                    now,
                );
                &&& final(self).state_view() == next
                &&& match (r, emit) {
                    (Some(a), Some(e)) => a@ == e,
                    (None, None) => true,
                    _ => false,
                }
            }),
            r matches Some(a) ==> a@.wf() && a@.duration_seconds >= 1
                && a@.process_name.len() > 0,
            final(self).emitted_view() == match r {
                Some(a) => old(self).emitted_view().push(
                    (spec_to_secs(a@.start_time), spec_to_secs(a@.end_time)),
                ),
                None => old(self).emitted_view(),
            },
            final(self).last_tick_view() == spec_to_secs(now),
            final(self).state_wf(),
            old(self).wf() && spec_to_secs(now) >= old(self).last_tick_view() ==> final(self).wf(),
    {
        let now_secs = now.to_secs();
        let mut emitted: Option<NewActivity> = None;

        if !tracking {
            let mut prev = RecorderState::Idle;
            core::mem::swap(&mut self.state, &mut prev);
            if let RecorderState::Open { sample: open, start } = prev {
                emitted = Self::close_open(open, start, now);
            }
        } else if let Some(probe) = sample {
            let changed = match &self.state {
                RecorderState::Idle => true,
                RecorderState::Open { sample: open, .. } => !Self::sample_eq(open, &probe),
            };
            if changed {
                let mut prev = RecorderState::Open { sample: probe, start: now };
                core::mem::swap(&mut self.state, &mut prev);
                if let RecorderState::Open { sample: open, start } = prev {
                    emitted = Self::close_open(open, start, now);
                }
            }
        }

        proof {
            self.last_tick@ = spec_to_secs(now);
            match emitted {
                Some(ref a) => {
                    self.emitted@ = self.emitted@.push(
                        (spec_to_secs(a@.start_time), spec_to_secs(a@.end_time)),
                    );
                },
                None => (),
            }
            if old(self).wf() && spec_to_secs(now) >= old(self).last_tick@ {
                let pre = old(self).emitted_view();
                let post = self.emitted@;
                assert(forall|i: int|
                    0 <= i < pre.len() ==> (#[trigger] pre[i]).0 + 1 <= pre[i].1 && pre[i].1
                        <= old(self).last_tick_view());
                assert(forall|i: int, j: int|
                    0 <= i < j < pre.len() ==> (#[trigger] pre[i]).1 <= (#[trigger] pre[j]).0);
                assert forall|i: int| 0 <= i < post.len() implies (#[trigger] post[i]).0 + 1
                    <= post[i].1 && post[i].1 <= self.last_tick@ by {
                    if i < pre.len() {
                        assert(post[i] == pre[i]);
                        assert(pre[i].1 <= old(self).last_tick@);
                    }
                }
                assert forall|i: int, j: int| 0 <= i < j < post.len() implies (
                #[trigger] post[i]).1 <= (#[trigger] post[j]).0 by {
                    if j < pre.len() {
                        assert(post[i] == pre[i] && post[j] == pre[j]);
                    } else {
                        assert(post[i] == pre[i]);
                    }
                }
                match self.state@ {
                    RecorderStateV::Idle => (),
                    RecorderStateV::Open { sample: sv, start } => {
                        assert forall|i: int| 0 <= i < post.len() implies (
                        #[trigger] post[i]).1 <= spec_to_secs(start) by {
                            if i < pre.len() {
                                assert(post[i] == pre[i]);
                                assert(pre[i].1 <= old(self).last_tick@);
                            }
                        }
                    },
                }
            }
        }
        emitted
    }

    /// Closing an open interval at `end`: the executable form of
    /// `spec_close`.
    fn close_open(open: FocusSample, start: Timestamp, end: Timestamp) -> (r: Option<NewActivity>)
        requires
            start.wf(),
            end.wf(),
        ensures
            match (r, spec_close(open@, start, end)) {
                (Some(a), Some(e)) => a@ == e,
                (None, None) => true,
                _ => false,
            },
            r matches Some(a) ==> a@.wf(),
    {
        let start_secs = start.to_secs();
        let end_secs = end.to_secs();
        if !open.process_name.as_str().is_empty() && end_secs >= start_secs + 1 {
            Some(
                NewActivity {
                    process_name: open.process_name,
                    window_title: open.window_title,
                    domain: open.domain,
                    start_time: start,
                    end_time: end,
                    duration_seconds: end_secs - start_secs,
                },
            )
        } else {
            None
        }
    }

    /// Change detection: whether two samples are the same
    /// process/title/domain triple.
    fn sample_eq(a: &FocusSample, b: &FocusSample) -> (r: bool)
        ensures
            r == same_triple(a@, b@),
    {
        if !a.process_name.eq(&b.process_name) {
            return false;
        }
        if !a.window_title.eq(&b.window_title) {
            return false;
        }
        match (&a.domain, &b.domain) {
            (None, None) => true,
            (Some(x), Some(y)) => x.eq(y),
            _ => false,
        }
    }
}

/// Every interval a well-formed recorder has emitted lasts at least one
/// second: the minimum-duration filter holds whatever the probe did.
pub proof fn lemma_emitted_min_duration(r: Recorder)
    requires
        r.wf(),
    ensures
        forall|i: int|
            0 <= i < r.emitted_view().len() ==> (#[trigger] r.emitted_view()[i]).0 + 1
                <= r.emitted_view()[i].1,
{
}

/// The intervals a well-formed recorder has emitted never overlap and are
/// ordered by start time: each one ends no later than the next begins.
pub proof fn lemma_emitted_ordered(r: Recorder)
    requires
        r.wf(),
    ensures
        forall|i: int, j: int|
            0 <= i < j < r.emitted_view().len() ==> (#[trigger] r.emitted_view()[i]).1 <= (
            #[trigger] r.emitted_view()[j]).0,
        forall|i: int, j: int|
            0 <= i < j < r.emitted_view().len() ==> (#[trigger] r.emitted_view()[i]).0 < (
            #[trigger] r.emitted_view()[j]).0,
{
    assert forall|i: int, j: int| 0 <= i < j < r.emitted_view().len() implies (
    #[trigger] r.emitted_view()[i]).0 < (#[trigger] r.emitted_view()[j]).0 by {
        assert(r.emitted_view()[i].1 <= r.emitted_view()[j].0);
        assert(r.emitted_view()[i].0 + 1 <= r.emitted_view()[i].1);
    }
}

/// Toggling tracking off with an interval open emits exactly that interval
/// and goes idle; re-enabling with a fresh sample emits nothing and opens a
/// new interval at the later tick's time.
pub proof fn lemma_pause_resume_emits_once(
    open: FocusSampleV,
    start: Timestamp,
    off_sample: Option<FocusSampleV>,
    t1: Timestamp,
    resumed: FocusSampleV,
    t2: Timestamp,
)
    requires
        open.process_name.len() > 0,
        spec_to_secs(t1) >= spec_to_secs(start) + 1,
    ensures
        ({
            let (s1, e1) = spec_tick(
                RecorderStateV::Open { sample: open, start },
                false,
                off_sample,
                t1,
            );
            let (s2, e2) = spec_tick(s1, true, Some(resumed), t2);
            &&& s1 is Idle
            &&& e1 == Some(
                NewActivityV {
                    process_name: open.process_name,
                    window_title: open.window_title,
                    domain: open.domain,
                    start_time: start,
                    end_time: t1,
                    duration_seconds: (spec_to_secs(t1) - spec_to_secs(start)) as u64,
                },
            )
            &&& s2 == RecorderStateV::Open { sample: resumed, start: t2 }
            &&& e2 is None
        }),
{
}

} // verus!
