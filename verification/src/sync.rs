//! The sync client's verified half: building the time-entry request (URL,
//! credential header value, JSON body framed and escaped by hand) and
//! interpreting the remote response (status plus body) into a structured
//! result. The network transfer itself is unverified glue that carries
//! these plain values.

use vstd::prelude::*;
use crate::record::ActivityInfo;
use crate::text::{
    all_digits, dec_value, digits_after_keys, i64_to_dec, json_escape, json_escaped, pad_dec,
    parse_u64, spec_dec_digits, spec_digits_after_keys, spec_i64_digits, spec_pad_digits,
    u64_to_dec,
};
use crate::time::spec_format_date;

verus! {

/// Outcome of one synchronization attempt, handed back to the caller and
/// never persisted.
#[derive(Clone, Debug)]
pub struct SyncResult {
    pub success: bool,
    pub message: String,
    pub external_id: Option<String>,
}

/// The failures a sync or connection test can report.
#[derive(Clone, Debug)]
pub enum SyncError {
    /// The named plugin is not in the active list.
    PluginNotFound { name: String },
    /// The ticket identifier is not a (fitting) decimal number.
    InvalidTicketId { ticket: String },
    /// The remote answered success but the body was not decodable.
    ResponseParse,
    /// The remote refused the request; status and body are carried verbatim.
    Remote { status: u16, body: String },
    /// The authenticated read of a connection test was refused.
    AuthenticationFailed { status: u16 },
}

/// An HTTP-level success status.
pub open spec fn spec_is_success(status: u16) -> bool {
    200 <= status < 300
}

/// Checks a status for HTTP-level success.
pub fn is_success_status(status: u16) -> (r: bool)
    ensures
        r == spec_is_success(status),
{
    200 <= status && status < 300
}

/// A base URL with its trailing slashes removed.
pub open spec fn spec_trim_slashes(s: Seq<char>) -> Seq<char>
    decreases s.len(),
{
    if s.len() > 0 && s.last() == '/' {
        spec_trim_slashes(s.drop_last())
    } else {
        s
    }
}

/// Removes trailing slashes; exactly `spec_trim_slashes`.
pub fn trim_slashes(s: &str) -> (r: String)
    ensures
        r@ == spec_trim_slashes(s@),
{
    let n = s.unicode_len();
    let mut k: usize = n;
    proof {
        assert(s@.subrange(0, n as int) =~= s@);
    }
    while k > 0 && s.get_char(k - 1) == '/'
        invariant
            n == s@.len(),
            0 <= k <= n,
            spec_trim_slashes(s@) == spec_trim_slashes(s@.subrange(0, k as int)),
        decreases k,
    {
        proof {
            assert(s@.subrange(0, k as int).last() == s@[k as int - 1]);
            assert(s@.subrange(0, k as int).drop_last() =~= s@.subrange(0, k as int - 1));
        }
        k = k - 1;
    }
    let r = String::from_str(s.substring_char(0, k));
    proof {
        if k > 0 {
            assert(s@.subrange(0, k as int).last() == s@[k as int - 1]);
        }
        assert(spec_trim_slashes(s@.subrange(0, k as int)) =~= s@.subrange(0, k as int));
    }
    r
}

/// Elapsed time as fractional hours with six decimal digits, rounded down:
/// whole hours, a point, then millionths of an hour.
pub open spec fn spec_hours_chars(d: u64) -> Seq<char> {
    spec_dec_digits(d as int / 3600) + seq!['.'] + spec_pad_digits(
        (d as int % 3600) * 1000000 / 3600,
        6,
    )
}

/// Formats a duration in seconds as fractional hours; exactly
/// `spec_hours_chars`.
pub fn hours_string(d: u64) -> (r: String)
    ensures
        r@ == spec_hours_chars(d),
{
    proof {
        reveal_strlit(".");
    }
    let mut s = u64_to_dec(d / 3600);
    s.append(".");
    let frac: u64 = (d % 3600) * 1000000 / 3600;
    let f = pad_dec(frac, 6);
    s.append(f.as_str());
    proof {
        assert("."@ =~= seq!['.']);
        assert(s@ =~= spec_hours_chars(d));
    }
    s
}

/// The JSON body of a time-entry creation request: issue number, fractional
/// hours, the optional activity category, the escaped comment, and the
/// calendar date the time is booked on.
pub open spec fn spec_sync_body(
    issue_id: int,
    duration: u64,
    activity_id: Option<i64>,
    comments: Seq<char>,
    spent_on: Seq<char>,
) -> Seq<char> {
    "{\"time_entry\":{\"issue_id\":"@ + spec_dec_digits(issue_id) + ",\"hours\":"@
        + spec_hours_chars(duration) + (match activity_id {
        Some(a) => ",\"activity_id\":"@ + spec_i64_digits(a as int),
        None => Seq::<char>::empty(),
    }) + ",\"comments\":\""@ + json_escaped(comments) + "\",\"spent_on\":\""@ + spent_on
        + "\"}}"@
}

/// A planned time-entry request: where to post, the credential to attach,
/// and the body to send.
#[derive(Clone, Debug)]
pub struct SyncRequest {
    pub url: String,
    pub api_key: String,
    pub body: String,
}

/// A planned connection test: the authenticated read to issue.
#[derive(Clone, Debug)]
pub struct TestRequest {
    pub url: String,
    pub api_key: String,
}

/// A ticket identifier the tracker accepts: a non-empty decimal number that
/// fits a signed 64-bit issue id.
pub open spec fn spec_ticket_ok(t: Seq<char>) -> bool {
    t.len() > 0 && all_digits(t) && dec_value(t) <= i64::MAX as int
}

/// Plans a time-entry request against the tracker at `url`. Accepts
/// exactly the fitting decimal ticket identifiers; the body carries the
/// record's duration as fractional hours, a comment built from process and
/// title, and the record's start date.
pub fn build_sync_request(
    url: &str,
    api_key: &str,
    default_activity_id: Option<i64>,
    a: &ActivityInfo,
    ticket_id: &str,
) -> (r: Result<SyncRequest, SyncError>)
    requires
        a.start_time.wf(),
    ensures
        r is Ok <==> spec_ticket_ok(ticket_id@),
        r matches Ok(req) ==> {
            &&& req.url@ == spec_trim_slashes(url@) + "/time_entries.json"@
            &&& req.api_key@ == api_key@
            &&& req.body@ == spec_sync_body(
                dec_value(ticket_id@),
                a.duration_seconds,
                default_activity_id,
                a.process_name@ + " - "@ + a.window_title@,
                spec_format_date(a.start_time.date),
            )
        },
        r matches Err(e) ==> e matches SyncError::InvalidTicketId { ticket } && ticket@
            == ticket_id@,
{
    let issue_id: u64 = match parse_u64(ticket_id) {
        Some(v) => {
            if v <= i64::MAX as u64 {
                v
            } else {
                return Err(SyncError::InvalidTicketId { ticket: String::from_str(ticket_id) });
            }
        },
        None => {
            return Err(SyncError::InvalidTicketId { ticket: String::from_str(ticket_id) });
        },
    };

    let mut target = trim_slashes(url);
    target.append("/time_entries.json");

    let mut comments = a.process_name.clone();
    comments.append(" - ");
    comments.append(a.window_title.as_str());
    proof {
        reveal_strlit(" - ");
    }

    let escaped = json_escape(comments.as_str());
    let spent_on = a.start_time.date.format();
    let hours = hours_string(a.duration_seconds);
    let issue = u64_to_dec(issue_id);

    let mut body = String::from_str("{\"time_entry\":{\"issue_id\":");
    body.append(issue.as_str());
    body.append(",\"hours\":");
    body.append(hours.as_str());
    match default_activity_id {
        Some(act) => {
            body.append(",\"activity_id\":");
            let acts = i64_to_dec(act);
            body.append(acts.as_str());
        },
        None => {},
    }
    body.append(",\"comments\":\"");
    body.append(escaped.as_str());
    body.append("\",\"spent_on\":\"");
    body.append(spent_on.as_str());
    body.append("\"}}");
    proof {
        assert(body@ =~= spec_sync_body(
            dec_value(ticket_id@),
            a.duration_seconds,
            default_activity_id,
            a.process_name@ + " - "@ + a.window_title@,
            spec_format_date(a.start_time.date),
        ));
    }

    Ok(SyncRequest { url: target, api_key: String::from_str(api_key), body })
}

/// Plans the lightweight authenticated read of a connection test.
pub fn build_test_request(url: &str, api_key: &str) -> (r: TestRequest)
    ensures
        r.url@ == spec_trim_slashes(url@) + "/users/current.json"@,
        r.api_key@ == api_key@,
{
    let mut target = trim_slashes(url);
    target.append("/users/current.json");
    TestRequest { url: target, api_key: String::from_str(api_key) }
}

/// The digit run of the identifier a time-entry creation response carries
/// (the `id` number inside the `time_entry` object), if the body has one.
pub open spec fn spec_time_entry_id(body: Seq<char>) -> Option<Seq<char>> {
    spec_digits_after_keys(body, "\"time_entry\""@, "\"id\""@)
}

/// Whether a sync response is accepted: HTTP success and a fitting
/// identifier in the body.
pub open spec fn spec_sync_accepted(status: u16, body: Seq<char>) -> bool {
    spec_is_success(status) && match spec_time_entry_id(body) {
        Some(d) => dec_value(d) <= i64::MAX as int,
        None => false,
    }
}

/// Interprets a sync response. A success status with a decodable body
/// yields a successful result carrying the remote identifier; a success
/// status without one is a parse failure; anything else carries the remote
/// status and body back verbatim.
pub fn interpret_sync_response(status: u16, body: &str) -> (r: Result<SyncResult, SyncError>)
    ensures
        r is Ok <==> spec_sync_accepted(status, body@),
        r matches Ok(res) ==> {
            &&& res.success
            &&& spec_time_entry_id(body@) matches Some(d) && (res.message@
                == "Created time entry #"@ + d && (res.external_id matches Some(e) && e@ == d))
        },
        r matches Err(e) ==> match e {
            SyncError::ResponseParse => spec_is_success(status) && !spec_sync_accepted(
                status,
                body@,
            ),
            SyncError::Remote { status: st, body: b } => !spec_is_success(status) && st == status
                && b@ == body@,
            _ => false,
        },
{
    if !is_success_status(status) {
        return Err(SyncError::Remote { status, body: String::from_str(body) });
    }
    match digits_after_keys(body, "\"time_entry\"", "\"id\"") {
        Some(digits) => {
            proof {
                reveal_strlit("\"time_entry\"");
                reveal_strlit("\"id\"");
            }
            match parse_u64(digits.as_str()) {
                Some(v) => {
                    if v <= i64::MAX as u64 {
                        let mut message = String::from_str("Created time entry #");
                        message.append(digits.as_str());
                        Ok(
                            SyncResult {
                                success: true,
                                message,
                                external_id: Some(digits),
                            },
                        )
                    } else {
                        Err(SyncError::ResponseParse)
                    }
                },
                None => {
                    proof {
                        lemma_digit_run_digits(body@, digits@);
                    }
                    Err(SyncError::ResponseParse)
                },
            }
        },
        None => Err(SyncError::ResponseParse),
    }
}

/// A digit run found in a response body consists of digits and is
/// non-empty.
proof fn lemma_digit_run_digits(body: Seq<char>, d: Seq<char>)
    requires
        spec_digits_after_keys(body, "\"time_entry\""@, "\"id\""@) == Some(d),
    ensures
        d.len() > 0 && all_digits(d),
{
    crate::text::lemma_digits_after_keys_digits(body, "\"time_entry\""@, "\"id\""@, d);
}

/// Whether a connection-test response decodes: HTTP success and a user
/// identifier in the body.
pub open spec fn spec_test_accepted(status: u16, body: Seq<char>) -> bool {
    spec_is_success(status) && spec_digits_after_keys(body, "\"user\""@, "\"id\""@) is Some
}

/// Interprets a connection-test response: true on a decodable success,
/// a parse failure on an undecodable success, and an authentication
/// failure carrying the status otherwise.
pub fn interpret_test_response(status: u16, body: &str) -> (r: Result<bool, SyncError>)
    ensures
        r matches Ok(b) ==> b && spec_test_accepted(status, body@),
        r is Ok <==> spec_test_accepted(status, body@),
        r matches Err(e) ==> match e {
            SyncError::ResponseParse => spec_is_success(status) && !spec_test_accepted(
                status,
                body@,
            ),
            SyncError::AuthenticationFailed { status: st } => !spec_is_success(status) && st
                == status,
            _ => false,
        },
{
    if !is_success_status(status) {
        return Err(SyncError::AuthenticationFailed { status });
    }
    proof {
        reveal_strlit("\"user\"");
        reveal_strlit("\"id\"");
    }
    match digits_after_keys(body, "\"user\"", "\"id\"") {
        Some(_) => Ok(true),
        None => Err(SyncError::ResponseParse),
    }
}

} // verus!
