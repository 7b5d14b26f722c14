//! The focus probe's library-side pieces: the development stub that stands
//! in for the platform window-inspection capability, and the local clock
//! read the sampling loop stamps ticks with.

use vstd::prelude::*;
use chrono::{Datelike, Timelike};
use crate::time::{spec_days_in_month, Timestamp};

verus! {

/// The development focus probe: a fixed demo window. The real platform
/// window-inspection capability lives in unverified platform glue; this
/// stub keeps the rest of the pipeline exercisable anywhere.
pub fn get_active_window_info() -> (r: Option<(String, String)>)
    ensures
        r matches Some(p) ==> p.0@ == "DemoApp.exe"@ && p.1@
            == "Demo Window - Development Mode"@,
        r is Some,
{
    Some((String::from_str("DemoApp.exe"), String::from_str("Demo Window - Development Mode")))
}

/// Relies on chrono's `Local::now` and its `Datelike`/`Timelike` accessors:
/// the current local civil time as (year, month, day, hour, minute,
/// second), each calendar field within its documented range. The date
/// components come from a `NaiveDate`, which is always a valid proleptic
/// Gregorian date, so the day fits its month (chrono cannot report a
/// february 30th). The year is whatever the clock says and carries no
/// promise.
#[verifier::external_body]
fn now_civil_parts() -> (r: (i32, u32, u32, u32, u32, u32))
    ensures
        1 <= r.1 <= 12,
        1 <= r.2 <= spec_days_in_month(r.0 as int, r.1 as int),
        r.3 <= 23,
        r.4 <= 59,
        r.5 <= 59,
{
    let now = chrono::Local::now();
    (now.year(), now.month(), now.day(), now.hour(), now.minute(), now.second())
}

/// The current local wall-clock time, validated into a timestamp; `None` if
/// the clock is outside the library's four-digit-year range or reports an
/// impossible calendar day.
pub fn now_local() -> (r: Option<Timestamp>)
    ensures
        r matches Some(t) ==> t.wf(),
{
    let (y, mo, d, h, mi, s) = now_civil_parts();
    if 1 <= y && y <= 9999 {
        Timestamp::new(y as u32, mo, d, h, mi, s)
    } else {
        None
    }
}

} // verus!
