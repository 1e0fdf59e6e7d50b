//! Normalisation of the three timestamp encodings that sources use (RFC 3339
//! text, epoch seconds, epoch milliseconds) to whole seconds since the Unix
//! epoch, in UTC.

use vstd::prelude::*;
use crate::json::{Json, text_of, int_of};

verus! {

/// An epoch value above this many seconds (a date in the year 33658) is read
/// as milliseconds.
pub const MILLIS_THRESHOLD: i64 = 1_000_000_000_000;

pub uninterp spec fn rfc3339_seconds(s: Seq<char>) -> Option<i64>;

pub uninterp spec fn instant_in_range(secs: i64) -> bool;

/// Relies on `chrono::DateTime::parse_from_rfc3339` and `DateTime::timestamp`:
/// the instant that an RFC 3339 text denotes, in whole seconds since the epoch
/// in UTC, or `None` where the text is not RFC 3339.
#[verifier::external_body]
pub(crate) fn parse_rfc3339(s: &str) -> (r: Option<i64>)
    ensures
        r == rfc3339_seconds(s@),
{
    chrono::DateTime::parse_from_rfc3339(s).ok().map(|d| d.timestamp())
}

/// Relies on `chrono::DateTime::from_timestamp`: whether a count of seconds
/// since the epoch is an instant that chrono can represent. Its range spans
/// more than 262,000 years on either side of the epoch.
#[verifier::external_body]
pub(crate) fn seconds_in_range(secs: i64) -> (r: bool)
    ensures
        r == ((-8_000_000_000_000 <= secs <= 8_000_000_000_000) || instant_in_range(secs)),
{
    chrono::DateTime::from_timestamp(secs, 0).is_some()
}

/// Whether chrono can represent an instant: every instant within about
/// 253,000 years of the epoch is.
pub open spec fn representable(secs: i64) -> bool {
    (-8_000_000_000_000 <= secs <= 8_000_000_000_000) || instant_in_range(secs)
}

/// An epoch value in seconds, reading one above the threshold as milliseconds.
pub open spec fn epoch_seconds(v: i64) -> i64 {
    if v > MILLIS_THRESHOLD {
        (v / 1000) as i64
    } else {
        v
    }
}

/// The instant of an epoch value, or `now` where it is out of range.
pub open spec fn epoch_instant(v: i64, now: i64) -> i64 {
    if representable(epoch_seconds(v)) {
        epoch_seconds(v)
    } else {
        now
    }
}

/// The instant of an RFC 3339 text, or `now` where it does not parse.
pub open spec fn text_instant(s: Seq<char>, now: i64) -> i64 {
    match rfc3339_seconds(s) {
        Some(t) => t,
        None => now,
    }
}

/// The instant of a JSON timestamp in any of the three encodings, or `now`
/// where it is absent or unreadable.
pub open spec fn json_instant(v: Option<Json>, now: i64) -> i64 {
    match text_of(v) {
        Some(s) => text_instant(s, now),
        None => match int_of(v) {
            Some(i) => epoch_instant(i, now),
            None => now,
        },
    }
}

/// The instant of a JSON timestamp where it is readable: an RFC 3339 string,
/// or an integer in epoch seconds or milliseconds within range.
pub open spec fn json_stamp(v: Option<Json>) -> Option<i64> {
    match text_of(v) {
        Some(s) => rfc3339_seconds(s),
        None => match int_of(v) {
            Some(i) => if representable(epoch_seconds(i)) {
                Some(epoch_seconds(i))
            } else {
                None
            },
            None => None,
        },
    }
}

/// Reads an epoch value as seconds, taking one above the threshold as
/// milliseconds.
pub fn to_epoch_seconds(v: i64) -> (r: i64)
    ensures
        r == epoch_seconds(v),
{
    if v > MILLIS_THRESHOLD {
        v / 1000
    } else {
        v
    }
}

/// The instant of an epoch value in seconds or milliseconds; `now` where it is
/// out of range.
pub fn epoch_to_instant(v: i64, now: i64) -> (r: i64)
    ensures
        r == epoch_instant(v, now),
{
    let secs = to_epoch_seconds(v);
    if seconds_in_range(secs) {
        secs
    } else {
        now
    }
}

/// The instant of an RFC 3339 text; `now` where it does not parse.
pub fn text_to_instant(s: &str, now: i64) -> (r: i64)
    ensures
        r == text_instant(s@, now),
{
    match parse_rfc3339(s) {
        Some(t) => t,
        None => now,
    }
}

/// The instant of a JSON timestamp: an RFC 3339 string, or an integer in epoch
/// seconds or milliseconds; `now` for anything else.
pub fn json_to_instant(v: Option<&Json>, now: i64) -> (r: i64)
    ensures
        r == json_instant(match v { Some(x) => Some(*x), None => None }, now),
{
    match v {
        Some(x) => match x.as_str() {
            Some(s) => text_to_instant(s, now),
            None => match x.as_i64() {
                Some(i) => epoch_to_instant(i, now),
                None => now,
            },
        },
        None => now,
    }
}

/// Whole seconds in a count of milliseconds, rounded toward zero.
pub open spec fn millis_seconds(ms: i64) -> i64 {
    if ms >= 0 {
        (ms / 1000) as i64
    } else {
        (-((-ms) / 1000)) as i64
    }
}

/// The instant of a JSON timestamp, where it is readable.
pub fn json_to_stamp(v: Option<&Json>) -> (r: Option<i64>)
    ensures
        r == json_stamp(match v { Some(x) => Some(*x), None => None }),
{
    match v {
        Some(x) => match x.as_str() {
            Some(s) => parse_rfc3339(s),
            None => match x.as_i64() {
                Some(i) => {
                    let secs = to_epoch_seconds(i);
                    if seconds_in_range(secs) {
                        Some(secs)
                    } else {
                        None
                    }
                },
                None => None,
            },
        },
        None => None,
    }
}

/// The instant of an epoch value that a source always writes in
/// milliseconds; `now` where it is out of range.
pub fn millis_to_instant(ms: i64, now: i64) -> (r: i64)
    ensures
        r == (if representable(millis_seconds(ms)) { millis_seconds(ms) } else { now }),
{
    let m = ms as i128;
    let q: i128 = if m >= 0 { m / 1000 } else { -((-m) / 1000) };
    let secs = q as i64;
    if seconds_in_range(secs) {
        secs
    } else {
        now
    }
}

/// One instant written as RFC 3339 text, as epoch seconds and as epoch
/// milliseconds normalises to the same instant. Below about 2001-09-09 a
/// millisecond count is not above the threshold and reads as seconds, so the
/// law holds from there on.
pub proof fn lemma_timestamp_encodings_agree(t: Seq<char>, secs: i64, now: i64)
    requires
        rfc3339_seconds(t) == Some(secs),
        1_000_000_000 < secs < MILLIS_THRESHOLD,
    ensures
        text_instant(t, now) == secs,
        epoch_instant(secs, now) == secs,
        epoch_instant((secs * 1000) as i64, now) == secs,
{
    assert((secs * 1000) / 1000 == secs) by (nonlinear_arith);
    assert(secs * 1000 > MILLIS_THRESHOLD) by (nonlinear_arith)
        requires secs > 1_000_000_000;
}

} // verus!
