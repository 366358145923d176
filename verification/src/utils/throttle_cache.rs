//! Checks that are made only once in a while.
use vstd::prelude::*;

use crate::json;
use crate::text;

verus! {

/// How long ago a moment in RFC 3339 form was, seen from a moment in seconds and nanoseconds
/// since the epoch, as `chrono` reckons it: whole seconds towards zero, and the nanoseconds left.
pub uninterp spec fn chrono_elapsed(last: Seq<char>, secs: i64, nanos: u32) -> Option<(i64, i32)>;

/// `DateTime::parse_from_rfc3339` of `chrono`, and `signed_duration_since` from a moment that
/// `DateTime::from_timestamp` makes. `None` stands for a text that is no such moment, and for a
/// moment that cannot be made. Named [`chrono_elapsed`].
#[verifier::external_body]
fn elapsed(last: &str, secs: i64, nanos: u32) -> (r: Option<(i64, i32)>)
    ensures
        r == chrono_elapsed(last@, secs, nanos),
{
    let then = chrono::DateTime::parse_from_rfc3339(last).ok()?;
    let now = chrono::DateTime::<chrono::Utc>::from_timestamp(secs, nanos)?;
    let passed = now.signed_duration_since(then);
    Some((passed.num_seconds(), passed.subsec_nanos()))
}

/// Whether a time span, in whole seconds and nanoseconds of the same sign, reaches an interval.
pub fn reaches(passed: Option<(i64, i32)>, interval: i64) -> (r: bool)
    ensures
        r == (match passed {
            Some((s, n)) => s > interval || (s == interval && n >= 0),
            None => true,
        }),
{
    match passed {
        Some((s, n)) => s > interval || (s == interval && n >= 0),
        None => true,
    }
}

/// Whether a check is due: at least `interval` seconds have passed since the last one. A check
/// of which nothing is recorded, or nothing that can be read, is due.
pub fn is_due(last_checked: Option<&str>, secs: i64, nanos: u32, interval: i64) -> (r: bool)
    ensures
        r == (match last_checked {
            Some(l) => match chrono_elapsed(l@, secs, nanos) {
                Some((s, n)) => s > interval || (s == interval && n >= 0),
                None => true,
            },
            None => true,
        }),
{
    match last_checked {
        Some(l) => reaches(elapsed(l, secs, nanos), interval),
        None => true,
    }
}

/// What is recorded of a check that was made at a moment.
pub fn record(now: &str) -> (r: String)
    ensures
        r@ == "{\"last_checked\":"@ + json::json_quoted(now@) + "}"@,
{
    let mut r = text::owned("{\"last_checked\":");
    r.append(json::quote(now).as_str());
    r.append("}");
    r
}

} // verus!
