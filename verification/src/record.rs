//! Activity records: the closed, timed intervals the recorder emits and the
//! store persists, and the plugin-facing copy of one record.

use vstd::prelude::*;
use crate::time::{spec_to_secs, Timestamp};

verus! {

/// One probe sample: the focused window's process, title and, for a browser,
/// the navigated domain.
#[derive(Clone, Debug)]
pub struct FocusSample {
    pub process_name: String,
    pub window_title: String,
    pub domain: Option<String>,
}

/// Spec view of a probe sample.
pub struct FocusSampleV {
    pub process_name: Seq<char>,
    pub window_title: Seq<char>,
    pub domain: Option<Seq<char>>,
}

impl View for FocusSample {
    type V = FocusSampleV;

    open spec fn view(&self) -> FocusSampleV {
        FocusSampleV {
            process_name: self.process_name@,
            window_title: self.window_title@,
            domain: match self.domain {
                Some(ref d) => Some(d@),
                None => None,
            },
        }
    }
}

/// A closed interval as the recorder emits it, before the store assigns an
/// identifier.
#[derive(Clone, Debug)]
pub struct NewActivity {
    pub process_name: String,
    pub window_title: String,
    pub domain: Option<String>,
    pub start_time: Timestamp,
    pub end_time: Timestamp,
    pub duration_seconds: u64,
}

/// Spec view of an emitted interval.
pub struct NewActivityV {
    pub process_name: Seq<char>,
    pub window_title: Seq<char>,
    pub domain: Option<Seq<char>>,
    pub start_time: Timestamp,
    pub end_time: Timestamp,
    pub duration_seconds: u64,
}

impl View for NewActivity {
    type V = NewActivityV;

    open spec fn view(&self) -> NewActivityV {
        NewActivityV {
            process_name: self.process_name@,
            window_title: self.window_title@,
            domain: match self.domain {
                Some(ref d) => Some(d@),
                None => None,
            },
            start_time: self.start_time,
            end_time: self.end_time,
            duration_seconds: self.duration_seconds,
        }
    }
}

impl NewActivityV {
    /// What the store accepts: valid timestamps, a non-empty process name,
    /// and a cached duration that equals end minus start and is at least one
    /// second.
    pub open spec fn wf(self) -> bool {
        &&& self.start_time.wf()
        &&& self.end_time.wf()
        &&& self.process_name.len() > 0
        &&& self.duration_seconds == spec_to_secs(self.end_time) - spec_to_secs(self.start_time)
        &&& self.duration_seconds >= 1
    }
}

/// A persisted activity interval, as the store hands it back.
#[derive(Clone, Debug)]
pub struct ActivityRecord {
    pub id: i64,
    pub process_name: String,
    pub window_title: String,
    pub domain: Option<String>,
    pub start_time: Timestamp,
    pub end_time: Timestamp,
    pub duration_seconds: u64,
}

/// Spec view of a persisted record.
pub struct ActivityRecordV {
    pub id: i64,
    pub process_name: Seq<char>,
    pub window_title: Seq<char>,
    pub domain: Option<Seq<char>>,
    pub start_time: Timestamp,
    pub end_time: Timestamp,
    pub duration_seconds: u64,
}

impl View for ActivityRecord {
    type V = ActivityRecordV;

    open spec fn view(&self) -> ActivityRecordV {
        ActivityRecordV {
            id: self.id,
            process_name: self.process_name@,
            window_title: self.window_title@,
            domain: match self.domain {
                Some(ref d) => Some(d@),
                None => None,
            },
            start_time: self.start_time,
            end_time: self.end_time,
            duration_seconds: self.duration_seconds,
        }
    }
}

impl ActivityRecordV {
    /// The store's per-record invariant.
    pub open spec fn wf(self) -> bool {
        &&& self.start_time.wf()
        &&& self.end_time.wf()
        &&& self.process_name.len() > 0
        &&& self.duration_seconds == spec_to_secs(self.end_time) - spec_to_secs(self.start_time)
        &&& self.duration_seconds >= 1
        &&& self.id >= 1
    }
}

/// The copy of a record handed to integration plugins.
#[derive(Clone, Debug)]
pub struct ActivityInfo {
    pub id: i64,
    pub process_name: String,
    pub window_title: String,
    pub domain: Option<String>,
    pub start_time: Timestamp,
    pub end_time: Timestamp,
    pub duration_seconds: u64,
}

/// Spec view of a plugin-facing record.
pub struct ActivityInfoV {
    pub id: i64,
    pub process_name: Seq<char>,
    pub window_title: Seq<char>,
    pub domain: Option<Seq<char>>,
    pub start_time: Timestamp,
    pub end_time: Timestamp,
    pub duration_seconds: u64,
}

impl View for ActivityInfo {
    type V = ActivityInfoV;

    open spec fn view(&self) -> ActivityInfoV {
        ActivityInfoV {
            id: self.id,
            process_name: self.process_name@,
            window_title: self.window_title@,
            domain: match self.domain {
                Some(ref d) => Some(d@),
                None => None,
            },
            start_time: self.start_time,
            end_time: self.end_time,
            duration_seconds: self.duration_seconds,
        }
    }
}

impl ActivityRecord {
    /// An equal copy of this record.
    pub fn clone_record(&self) -> (r: ActivityRecord)
        ensures
            r == *self,
    {
        let domain = match &self.domain {
            Some(d) => Some(d.clone()),
            None => None,
        };
        ActivityRecord {
            id: self.id,
            process_name: self.process_name.clone(),
            window_title: self.window_title.clone(),
            domain,
            start_time: self.start_time,
            end_time: self.end_time,
            duration_seconds: self.duration_seconds,
        }
    }

    /// The plugin-facing copy of this record, field for field.
    pub fn to_activity_info(&self) -> (r: ActivityInfo)
        ensures
            r@.id == self@.id,
            r@.process_name == self@.process_name,
            r@.window_title == self@.window_title,
            r@.domain == self@.domain,
            r@.start_time == self@.start_time,
            r@.end_time == self@.end_time,
            r@.duration_seconds == self@.duration_seconds,
    {
        let domain = match &self.domain {
            Some(d) => Some(d.clone()),
            None => None,
        };
        ActivityInfo {
            id: self.id,
            process_name: self.process_name.clone(),
            window_title: self.window_title.clone(),
            domain,
            start_time: self.start_time,
            end_time: self.end_time,
            duration_seconds: self.duration_seconds,
        }
    }
}

} // verus!
