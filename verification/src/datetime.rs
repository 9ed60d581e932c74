//! Calendar time for directory timestamps.
//!
//! The network time source hands over an HTTP date line such as
//! `"Sun, 06 Nov 1994 08:49:37 GMT"`. It is parsed here into seconds since
//! the epoch, and epoch seconds are decomposed back into the fields a
//! directory entry's modification timestamp stores. When no network time
//! is available, the monotonic uptime clock degrades into an approximate
//! timestamp instead. The two calendar conversions themselves go through
//! the `utc_dt` crate; everything around them is verified against the
//! civil day count of `crate::civil`, which is the formula those calls
//! are trusted to compute.

use vstd::arithmetic::div_mod::lemma_fundamental_div_mod_converse;
use vstd::prelude::*;

use crate::civil::{
    epoch_days_of, lemma_epoch_days_injective, lemma_epoch_days_le, lemma_epoch_days_nonneg,
    lemma_epoch_days_strict_mono, valid_civil_date,
};
use crate::namer::{all_digits, digits_value, parse_number};

verus! {

/// Relies on utc_dt's UTCDate::try_from_components (which accepts exactly
/// the calendar dates from 1970 on), UTCTimeOfDay::try_from_hhmmss and
/// UTCTimestamp::from_day_and_tod / as_secs: the epoch seconds of a
/// calendar date and in-day time, through the civil day count
/// `epoch_days_of` (the same era/year-of-era formula the crate's day
/// conversion computes).
#[verifier::external_body]
fn civil_to_unix_secs(year: u64, month: u8, day: u8, hour: u8, minute: u8, second: u8) -> (r:
    Option<u64>)
    requires
        year <= 9999,
        hour < 24,
        minute < 60,
        second < 60,
    ensures
        r is Some <==> valid_civil_date(year as int, month as int, day as int),
        r matches Some(t) ==> t == epoch_days_of(year as int, month as int, day as int) * 86400
            + hour * 3600 + minute * 60 + second,
{
    let date = match utc_dt::date::UTCDate::try_from_components(year, month, day) {
        Ok(d) => d,
        Err(_) => return None,
    };
    let tod = match utc_dt::time::UTCTimeOfDay::try_from_hhmmss(hour, minute, second, 0) {
        Ok(t) => t,
        Err(_) => return None,
    };
    Some(utc_dt::time::UTCTimestamp::from_day_and_tod(date.as_day(), tod).as_secs())
}

/// Relies on utc_dt's UTCTimestamp::from_secs, UTCDate::as_components and
/// UTCTimeOfDay::as_hhmmss: epoch seconds decomposed into the calendar
/// date (inverse of the `epoch_days_of` day count) and the in-day time.
#[verifier::external_body]
fn unix_secs_to_civil(t: u64) -> (r: (u64, u8, u8, u8, u8, u8))
    ensures
        valid_civil_date(r.0 as int, r.1 as int, r.2 as int),
        epoch_days_of(r.0 as int, r.1 as int, r.2 as int) == t / 86400,
        r.3 == (t % 86400) / 3600,
        r.4 == (t % 3600) / 60,
        r.5 == t % 60,
{
    let ts = utc_dt::time::UTCTimestamp::from_secs(t);
    let (year, month, day) = utc_dt::date::UTCDate::from(ts).as_components();
    let (hours, minutes, seconds) = utc_dt::time::UTCTimeOfDay::from_timestamp(ts).as_hhmmss();
    (year, month, day, hours, minutes, seconds)
}

/// A directory-entry modification timestamp, as the storage layer counts
/// it: years since 1970, month and day zero-indexed.
#[derive(Debug, PartialEq, Eq, Structural, Clone, Copy)]
pub struct SdTimestamp {
    /// Years since 1970, saturated at 255.
    pub year_since_1970: u8,
    /// Month, 0 = January.
    pub zero_indexed_month: u8,
    /// Day of month, 0 = first.
    pub zero_indexed_day: u8,
    /// Hours, 0..24.
    pub hours: u8,
    /// Minutes, 0..60.
    pub minutes: u8,
    /// Seconds, 0..60.
    pub seconds: u8,
}

/// Decompose epoch seconds into a directory timestamp. The in-day fields
/// are exact. As long as `t` falls before year 2226 — the first year the
/// 8-bit counter cannot hold — the date fields name exactly the calendar
/// day of `t`; from then on the year count sits saturated at 255.
pub fn timestamp_from_unix(t: u64) -> (r: SdTimestamp)
    ensures
        r.hours == (t % 86400) / 3600,
        r.minutes == (t % 3600) / 60,
        r.seconds == t % 60,
        r.zero_indexed_month < 12,
        r.zero_indexed_day < 31,
        t / 86400 < epoch_days_of(2226, 1, 1) ==> {
            &&& valid_civil_date(
                1970 + r.year_since_1970,
                r.zero_indexed_month + 1,
                r.zero_indexed_day + 1,
            )
            &&& epoch_days_of(
                1970 + r.year_since_1970,
                r.zero_indexed_month + 1,
                r.zero_indexed_day + 1,
            ) == t / 86400
        },
        t / 86400 >= epoch_days_of(2226, 1, 1) ==> r.year_since_1970 == 255,
        r.year_since_1970 == 255 ==> t / 86400 >= epoch_days_of(2225, 1, 1),
{
    let (year, month, day, hours, minutes, seconds) = unix_secs_to_civil(t);
    proof {
        let y = year as int;
        let mo = month as int;
        let d = day as int;
        if y <= 2225 {
            lemma_epoch_days_strict_mono(y, mo, d, 2226, 1, 1);
        } else {
            lemma_epoch_days_le(2226, 1, 1, y, mo, d);
        }
        if y == 2225 || y > 2225 {
            lemma_epoch_days_le(2225, 1, 1, y, mo, d);
        }
    }
    let since_1970: u64 = year - 1970;
    let year_since_1970: u8 = if since_1970 > 255 {
        255
    } else {
        since_1970 as u8
    };
    SdTimestamp {
        year_since_1970,
        zero_indexed_month: month - 1,
        zero_indexed_day: day - 1,
        hours,
        minutes,
        seconds,
    }
}

/// Approximate a directory timestamp from the monotonic uptime clock, used
/// when no network time is available: every year counts 365 days and every
/// month 30.4 days, exactly as the running seconds divide out.
pub fn uptime_timestamp(uptime_secs: u64) -> (r: SdTimestamp)
    ensures
        r.year_since_1970 == (uptime_secs / 31536000) % 256,
        r.zero_indexed_month == (uptime_secs / 2628000) % 12,
        r.zero_indexed_day == (uptime_secs / 86400) % 30,
        r.hours == (uptime_secs / 3600) % 24,
        r.minutes == (uptime_secs / 60) % 60,
        r.seconds == uptime_secs % 60,
{
    SdTimestamp {
        year_since_1970: ((uptime_secs / 31536000) % 256) as u8,
        zero_indexed_month: ((uptime_secs / 2628000) % 12) as u8,
        zero_indexed_day: ((uptime_secs / 86400) % 30) as u8,
        hours: ((uptime_secs / 3600) % 24) as u8,
        minutes: ((uptime_secs / 60) % 60) as u8,
        seconds: (uptime_secs % 60) as u8,
    }
}

/// The month number (1..=12) denoted by a three-letter month name.
pub open spec fn month_number(s: Seq<u8>) -> Option<u8> {
    if s == seq![74u8, 97u8, 110u8] {
        Some(1u8)
    } else if s == seq![70u8, 101u8, 98u8] {
        Some(2u8)
    } else if s == seq![77u8, 97u8, 114u8] {
        Some(3u8)
    } else if s == seq![65u8, 112u8, 114u8] {
        Some(4u8)
    } else if s == seq![77u8, 97u8, 121u8] {
        Some(5u8)
    } else if s == seq![74u8, 117u8, 110u8] {
        Some(6u8)
    } else if s == seq![74u8, 117u8, 108u8] {
        Some(7u8)
    } else if s == seq![65u8, 117u8, 103u8] {
        Some(8u8)
    } else if s == seq![83u8, 101u8, 112u8] {
        Some(9u8)
    } else if s == seq![79u8, 99u8, 116u8] {
        Some(10u8)
    } else if s == seq![78u8, 111u8, 118u8] {
        Some(11u8)
    } else if s == seq![68u8, 101u8, 99u8] {
        Some(12u8)
    } else {
        None
    }
}

fn eq3(s: &[u8], a: u8, b: u8, c: u8) -> (r: bool)
    requires
        s@.len() == 3,
    ensures
        r <==> s@ == seq![a, b, c],
{
    let r = s[0] == a && s[1] == b && s[2] == c;
    proof {
        if r {
            assert(s@ =~= seq![a, b, c]);
        } else {
            assert(s@ != seq![a, b, c]) by {
                if s@ == seq![a, b, c] {
                    assert(s@[0] == a && s@[1] == b && s@[2] == c);
                }
            }
        }
    }
    r
}

/// Parse a three-letter English month name into its number.
pub fn parse_month(input: &[u8]) -> (r: Option<u8>)
    ensures
        r == month_number(input@),
{
    if input.len() != 3 {
        assert(month_number(input@) is None);
        return None;
    }
    if eq3(input, 74, 97, 110) {
        Some(1)
    } else if eq3(input, 70, 101, 98) {
        Some(2)
    } else if eq3(input, 77, 97, 114) {
        Some(3)
    } else if eq3(input, 65, 112, 114) {
        Some(4)
    } else if eq3(input, 77, 97, 121) {
        Some(5)
    } else if eq3(input, 74, 117, 110) {
        Some(6)
    } else if eq3(input, 74, 117, 108) {
        Some(7)
    } else if eq3(input, 65, 117, 103) {
        Some(8)
    } else if eq3(input, 83, 101, 112) {
        Some(9)
    } else if eq3(input, 79, 99, 116) {
        Some(10)
    } else if eq3(input, 78, 111, 118) {
        Some(11)
    } else if eq3(input, 68, 101, 99) {
        Some(12)
    } else {
        None
    }
}

/// Day-of-month field of an HTTP date line.
pub open spec fn http_day(s: Seq<u8>) -> nat {
    digits_value(s.subrange(5, 7))
}

/// Month-name field of an HTTP date line.
pub open spec fn http_month(s: Seq<u8>) -> Option<u8> {
    month_number(s.subrange(8, 11))
}

/// Year field of an HTTP date line.
pub open spec fn http_year(s: Seq<u8>) -> nat {
    digits_value(s.subrange(12, 16))
}

/// Hour field of an HTTP date line.
pub open spec fn http_hour(s: Seq<u8>) -> nat {
    digits_value(s.subrange(17, 19))
}

/// Minute field of an HTTP date line.
pub open spec fn http_minute(s: Seq<u8>) -> nat {
    digits_value(s.subrange(20, 22))
}

/// Second field of an HTTP date line.
pub open spec fn http_second(s: Seq<u8>) -> nat {
    digits_value(s.subrange(23, 25))
}

/// An HTTP date line the parser accepts: long enough, every numeric field
/// made of digits, a known month name, the in-day fields in range, and a
/// date the calendar has.
pub open spec fn http_date_ok(s: Seq<u8>) -> bool {
    &&& s.len() >= 29
    &&& all_digits(s.subrange(5, 7))
    &&& all_digits(s.subrange(12, 16))
    &&& all_digits(s.subrange(17, 19))
    &&& all_digits(s.subrange(20, 22))
    &&& all_digits(s.subrange(23, 25))
    &&& http_month(s) is Some
    &&& http_hour(s) < 24
    &&& http_minute(s) < 60
    &&& http_second(s) < 60
    &&& valid_civil_date(
        http_year(s) as int,
        http_month(s).unwrap() as int,
        http_day(s) as int,
    )
}

/// The epoch seconds an accepted HTTP date line denotes.
pub open spec fn http_date_value(s: Seq<u8>) -> int {
    epoch_days_of(http_year(s) as int, http_month(s).unwrap() as int, http_day(s) as int) * 86400
        + http_hour(s) * 3600 + http_minute(s) * 60 + http_second(s)
}

/// Parse an HTTP date line (`"Sun, 06 Nov 1994 08:49:37 GMT"`) into epoch
/// seconds. Accepts exactly the lines `http_date_ok` describes.
pub fn parse_http_date(input: &[u8]) -> (r: Option<u64>)
    ensures
        r is Some <==> http_date_ok(input@),
        r matches Some(t) ==> t == http_date_value(input@),
{
    if input.len() < 29 {
        return None;
    }
    let day16 = match parse_number(vstd::slice::slice_subrange(input, 5, 7)) {
        Some(v) => v,
        None => {
            proof {
                if all_digits(input@.subrange(5, 7)) {
                    lemma_window_bound(input@.subrange(5, 7));
                }
            }
            return None;
        },
    };
    let month = match parse_month(vstd::slice::slice_subrange(input, 8, 11)) {
        Some(v) => v,
        None => {
            return None;
        },
    };
    let year = match parse_number(vstd::slice::slice_subrange(input, 12, 16)) {
        Some(v) => v,
        None => {
            proof {
                if all_digits(input@.subrange(12, 16)) {
                    lemma_window_bound(input@.subrange(12, 16));
                }
            }
            return None;
        },
    };
    let hour = match parse_number(vstd::slice::slice_subrange(input, 17, 19)) {
        Some(v) => v,
        None => {
            proof {
                if all_digits(input@.subrange(17, 19)) {
                    lemma_window_bound(input@.subrange(17, 19));
                }
            }
            return None;
        },
    };
    let minute = match parse_number(vstd::slice::slice_subrange(input, 20, 22)) {
        Some(v) => v,
        None => {
            proof {
                if all_digits(input@.subrange(20, 22)) {
                    lemma_window_bound(input@.subrange(20, 22));
                }
            }
            return None;
        },
    };
    let second = match parse_number(vstd::slice::slice_subrange(input, 23, 25)) {
        Some(v) => v,
        None => {
            proof {
                if all_digits(input@.subrange(23, 25)) {
                    lemma_window_bound(input@.subrange(23, 25));
                }
            }
            return None;
        },
    };
    if day16 == 0 || day16 > 31 || hour >= 24 || minute >= 60 || second >= 60 {
        return None;
    }
    proof {
        lemma_window_bound(input@.subrange(12, 16));
    }
    civil_to_unix_secs(
        year as u64,
        month,
        day16 as u8,
        hour as u8,
        minute as u8,
        second as u8,
    )
}

proof fn lemma_window_bound(s: Seq<u8>)
    requires
        s.len() <= 4,
        all_digits(s),
    ensures
        digits_value(s) <= 9999,
{
    crate::namer::lemma_digits_value_bound(s);
    assert(crate::namer::pow10(4) == 10000 && crate::namer::pow10(3) == 1000
        && crate::namer::pow10(2) == 100 && crate::namer::pow10(1) == 10 && crate::namer::pow10(0)
        == 1) by {
        reveal_with_fuel(crate::namer::pow10, 5);
    }
}

/// A parsed HTTP date line, with the epoch seconds it denotes and the
/// directory timestamp derived from them.
pub struct MiniDateTime {
    /// The line's instant as a directory timestamp.
    pub sd_timestamp: SdTimestamp,
    /// The line's instant in epoch seconds.
    pub unix_timestamp: u64,
}

/// Splitting epoch seconds built from a day count and in-day components
/// recovers each part.
proof fn lemma_civil_secs_split(days: int, h: int, mi: int, s: int, t: int)
    requires
        days >= 0,
        0 <= h < 24,
        0 <= mi < 60,
        0 <= s < 60,
        t == days * 86400 + h * 3600 + mi * 60 + s,
    ensures
        t / 86400 == days,
        (t % 86400) / 3600 == h,
        (t % 3600) / 60 == mi,
        t % 60 == s,
{
    let rest = h * 3600 + mi * 60 + s;
    lemma_fundamental_div_mod_converse(t, 86400, days, rest);
    lemma_fundamental_div_mod_converse(rest, 3600, h, mi * 60 + s);
    assert(t == (days * 24 + h) * 3600 + (mi * 60 + s)) by (nonlinear_arith)
        requires
            t == days * 86400 + h * 3600 + mi * 60 + s,
    ;
    lemma_fundamental_div_mod_converse(t, 3600, days * 24 + h, mi * 60 + s);
    lemma_fundamental_div_mod_converse(mi * 60 + s, 60, mi, s);
    assert(t == (days * 1440 + h * 60 + mi) * 60 + s) by (nonlinear_arith)
        requires
            t == days * 86400 + h * 3600 + mi * 60 + s,
    ;
    lemma_fundamental_div_mod_converse(t, 60, days * 1440 + h * 60 + mi, s);
}

impl MiniDateTime {
    /// Parse an HTTP date line. The line must be well-formed: rejecting
    /// malformed time sources is the caller's task. The directory
    /// timestamp recovers exactly the components the line named — the
    /// in-day fields always, the date fields for every year the 8-bit
    /// counter holds (through 2225).
    pub fn new(input: &[u8]) -> (r: MiniDateTime)
        requires
            input@.len() == 29,
            http_date_ok(input@),
        ensures
            r.unix_timestamp == http_date_value(input@),
            r.sd_timestamp.hours == http_hour(input@),
            r.sd_timestamp.minutes == http_minute(input@),
            r.sd_timestamp.seconds == http_second(input@),
            http_year(input@) <= 2225 ==> {
                &&& 1970 + r.sd_timestamp.year_since_1970 == http_year(input@)
                &&& r.sd_timestamp.zero_indexed_month + 1 == http_month(input@).unwrap()
                &&& r.sd_timestamp.zero_indexed_day + 1 == http_day(input@)
            },
            http_year(input@) > 2225 ==> r.sd_timestamp.year_since_1970 == 255,
    {
        let unix_timestamp = match parse_http_date(input) {
            Some(t) => t,
            None => {
                proof {
                    assert(false);
                }
                vstd::pervasive::unreached()
            },
        };
        let sd_timestamp = timestamp_from_unix(unix_timestamp);
        proof {
            let s = input@;
            let y = http_year(s) as int;
            let mo = http_month(s).unwrap() as int;
            let d = http_day(s) as int;
            let days = epoch_days_of(y, mo, d);
            lemma_epoch_days_nonneg(y, mo, d);
            lemma_civil_secs_split(
                days,
                http_hour(s) as int,
                http_minute(s) as int,
                http_second(s) as int,
                unix_timestamp as int,
            );
            if y <= 2225 {
                lemma_epoch_days_strict_mono(y, mo, d, 2226, 1, 1);
                let ts = sd_timestamp;
                lemma_epoch_days_injective(
                    1970 + ts.year_since_1970 as int,
                    ts.zero_indexed_month + 1,
                    ts.zero_indexed_day + 1,
                    y,
                    mo,
                    d,
                );
            } else {
                lemma_epoch_days_le(2226, 1, 1, y, mo, d);
            }
        }
        MiniDateTime { sd_timestamp, unix_timestamp }
    }
}

} // verus!
