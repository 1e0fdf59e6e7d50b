//! Relative date filters: `Nd` days, `Nh` hours, `Nw` weeks and `Nm` months
//! of thirty days, as a number of seconds.

use vstd::prelude::*;
use vstd::string::*;
use crate::text::{i64_of_text, parse_i64, ends_with_char, ends_with_str, ends_with_text, to_owned_text};

verus! {

/// The largest span in seconds that a filter may give: chrono's spans hold
/// whole milliseconds in an `i64`.
pub const MAX_SPAN_SECONDS: i64 = 9_223_372_036_854_775;

/// Seconds in one unit of a suffix, where the suffix is one of the grammar.
pub open spec fn unit_seconds(s: Seq<char>) -> Option<int> {
    if s.len() == 0 {
        None
    } else if s.last() == 'd' {
        Some(86_400)
    } else if s.last() == 'h' {
        Some(3_600)
    } else if s.last() == 'w' {
        Some(604_800)
    } else if s.last() == 'm' && !ends_with_text(s, "min"@) {
        Some(2_592_000)
    } else {
        None
    }
}

/// The span in seconds that a filter text denotes: a decimal count and a
/// unit suffix, within the span limit.
pub open spec fn span_of(s: Seq<char>) -> Option<i64> {
    match unit_seconds(s) {
        Some(u) => match i64_of_text(s.drop_last()) {
            Some(n) => if -MAX_SPAN_SECONDS <= n * u <= MAX_SPAN_SECONDS {
                Some((n * u) as i64)
            } else {
                None
            },
            None => None,
        },
        None => None,
    }
}

/// The span in seconds of a filter text, or the validation error.
pub fn parse_duration(s: &str) -> (r: Result<i64, String>)
    ensures
        match span_of(s@) {
            Some(x) => r == Ok::<i64, String>(x),
            None => r matches Err(e) && e@ == "Invalid duration format: "@ + s@ + ". Use Nd, Nh, Nw, Nm"@,
        },
{
    let err = to_owned_text("Invalid duration format: ").concat(s).concat(". Use Nd, Nh, Nw, Nm");
    let n = s.unicode_len();
    let unit: i64 = if ends_with_char(s, 'd') {
        86_400
    } else if ends_with_char(s, 'h') {
        3_600
    } else if ends_with_char(s, 'w') {
        604_800
    } else if ends_with_char(s, 'm') && !ends_with_str(s, "min") {
        2_592_000
    } else {
        return Err(err);
    };
    let digits = s.substring_char(0, n - 1);
    assert(digits@ == s@.drop_last());
    match parse_i64(digits) {
        Some(count) => {
            let limit = MAX_SPAN_SECONDS / unit;
            if count < -limit || count > limit {
                assert(!(-MAX_SPAN_SECONDS <= count * unit <= MAX_SPAN_SECONDS)) by (nonlinear_arith)
                    requires
                        count < -limit || count > limit,
                        limit == MAX_SPAN_SECONDS / unit,
                        unit > 0,
                ;
                Err(err)
            } else {
                assert(-MAX_SPAN_SECONDS <= count * unit <= MAX_SPAN_SECONDS) by (nonlinear_arith)
                    requires
                        -limit <= count <= limit,
                        limit == MAX_SPAN_SECONDS / unit,
                        unit > 0,
                ;
                Ok(count * unit)
            }
        },
        None => Err(err),
    }
}

/// The instant that a filter reaches back to from `now`; an empty filter is
/// no filter.
pub fn parse_since(s: &str, now: i64) -> (r: Result<Option<i64>, String>)
    requires
        now - MAX_SPAN_SECONDS >= i64::MIN,
        now + MAX_SPAN_SECONDS <= i64::MAX,
    ensures
        s@.len() == 0 ==> r == Ok::<Option<i64>, String>(None),
        s@.len() > 0 ==> match span_of(s@) {
            Some(x) => r == Ok::<Option<i64>, String>(Some((now - x) as i64)),
            None => r is Err,
        },
{
    if s.unicode_len() == 0 {
        return Ok(None);
    }
    match parse_duration(s) {
        Ok(span) => Ok(Some(now - span)),
        Err(e) => Err(e),
    }
}

} // verus!
