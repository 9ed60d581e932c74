use diane::datetime::{
    parse_http_date, parse_month, timestamp_from_unix, uptime_timestamp, MiniDateTime,
};

/// The classic example line denotes 784111777 seconds since the epoch.
#[test]
fn parse_reference_date() {
    let t = parse_http_date(b"Sun, 06 Nov 1994 08:49:37 GMT");
    assert_eq!(t, Some(784_111_777));
}

#[test]
fn parse_epoch_start() {
    let t = parse_http_date(b"Thu, 01 Jan 1970 00:00:00 GMT");
    assert_eq!(t, Some(0));
}

#[test]
fn parse_leap_day() {
    // 2000-02-29 is a leap day (divisible by 400).
    let t = parse_http_date(b"Tue, 29 Feb 2000 12:00:00 GMT");
    assert_eq!(t, Some(951_825_600));
}

#[test]
fn reject_impossible_dates() {
    assert_eq!(parse_http_date(b"Mon, 31 Feb 1994 08:49:37 GMT"), None);
    assert_eq!(parse_http_date(b"Mon, 29 Feb 1900 08:49:37 GMT"), None);
    assert_eq!(parse_http_date(b"Mon, 00 Nov 1994 08:49:37 GMT"), None);
}

#[test]
fn reject_pre_epoch_year() {
    assert_eq!(parse_http_date(b"Wed, 31 Dec 1969 23:59:59 GMT"), None);
}

#[test]
fn reject_out_of_range_time() {
    assert_eq!(parse_http_date(b"Sun, 06 Nov 1994 24:49:37 GMT"), None);
    assert_eq!(parse_http_date(b"Sun, 06 Nov 1994 08:60:37 GMT"), None);
    assert_eq!(parse_http_date(b"Sun, 06 Nov 1994 08:49:60 GMT"), None);
}

#[test]
fn reject_malformed_lines() {
    assert_eq!(parse_http_date(b""), None);
    assert_eq!(parse_http_date(b"Sun, 06 Nov 1994 08:49:3"), None);
    assert_eq!(parse_http_date(b"Sun, xx Nov 1994 08:49:37 GMT"), None);
    assert_eq!(parse_http_date(b"Sun, 06 Foo 1994 08:49:37 GMT"), None);
}

#[test]
fn month_names() {
    assert_eq!(parse_month(b"Jan"), Some(1));
    assert_eq!(parse_month(b"Feb"), Some(2));
    assert_eq!(parse_month(b"Mar"), Some(3));
    assert_eq!(parse_month(b"Apr"), Some(4));
    assert_eq!(parse_month(b"May"), Some(5));
    assert_eq!(parse_month(b"Jun"), Some(6));
    assert_eq!(parse_month(b"Jul"), Some(7));
    assert_eq!(parse_month(b"Aug"), Some(8));
    assert_eq!(parse_month(b"Sep"), Some(9));
    assert_eq!(parse_month(b"Oct"), Some(10));
    assert_eq!(parse_month(b"Nov"), Some(11));
    assert_eq!(parse_month(b"Dec"), Some(12));
    assert_eq!(parse_month(b"jan"), None);
    assert_eq!(parse_month(b"Janx"), None);
    assert_eq!(parse_month(b""), None);
}

#[test]
fn timestamp_fields_from_unix() {
    let ts = timestamp_from_unix(784_111_777);
    assert_eq!(ts.year_since_1970, 24);
    assert_eq!(ts.zero_indexed_month, 10); // November
    assert_eq!(ts.zero_indexed_day, 5); // the 6th
    assert_eq!(ts.hours, 8);
    assert_eq!(ts.minutes, 49);
    assert_eq!(ts.seconds, 37);
}

#[test]
fn timestamp_at_epoch() {
    let ts = timestamp_from_unix(0);
    assert_eq!(ts.year_since_1970, 0);
    assert_eq!(ts.zero_indexed_month, 0);
    assert_eq!(ts.zero_indexed_day, 0);
    assert_eq!(ts.hours, 0);
    assert_eq!(ts.minutes, 0);
    assert_eq!(ts.seconds, 0);
}

/// The last instant the 8-bit year counter represents exactly.
#[test]
fn timestamp_before_saturation() {
    // 2225-12-31 23:59:59 UTC
    let ts = timestamp_from_unix(8_078_572_799);
    assert_eq!(ts.year_since_1970, 255);
    assert_eq!(ts.zero_indexed_month, 11);
    assert_eq!(ts.zero_indexed_day, 30);
    assert_eq!(ts.hours, 23);
    assert_eq!(ts.minutes, 59);
    assert_eq!(ts.seconds, 59);
}

/// From year 2226 on the year counter sits saturated.
#[test]
fn timestamp_saturates_after_2225() {
    // 2226-01-01 00:00:00 UTC
    let ts = timestamp_from_unix(8_078_572_800);
    assert_eq!(ts.year_since_1970, 255);
    assert_eq!(ts.zero_indexed_month, 0);
    assert_eq!(ts.zero_indexed_day, 0);
    // Far beyond: in-day fields stay exact.
    let far = timestamp_from_unix(u64::MAX);
    assert_eq!(far.year_since_1970, 255);
    assert_eq!(far.seconds, (u64::MAX % 60) as u8);
}

/// The directory timestamp recovers the components the line named.
#[test]
fn mini_date_time_recovers_components() {
    let m = MiniDateTime::new(b"Tue, 29 Feb 2000 23:05:09 GMT");
    assert_eq!(m.sd_timestamp.year_since_1970, 30);
    assert_eq!(m.sd_timestamp.zero_indexed_month, 1);
    assert_eq!(m.sd_timestamp.zero_indexed_day, 28);
    assert_eq!(m.sd_timestamp.hours, 23);
    assert_eq!(m.sd_timestamp.minutes, 5);
    assert_eq!(m.sd_timestamp.seconds, 9);
}

#[test]
fn uptime_fallback_fields() {
    let ts = uptime_timestamp(3661);
    assert_eq!(ts.hours, 1);
    assert_eq!(ts.minutes, 1);
    assert_eq!(ts.seconds, 1);
    assert_eq!(ts.year_since_1970, 0);
    let ts2 = uptime_timestamp(31_536_000 + 86_400);
    assert_eq!(ts2.year_since_1970, 1);
    // The divisions run over the whole uptime: 366 days, modulo 30.
    assert_eq!(ts2.zero_indexed_day, 6);
}

#[test]
fn mini_date_time_from_line() {
    let m = MiniDateTime::new(b"Sun, 06 Nov 1994 08:49:37 GMT");
    assert_eq!(m.unix_timestamp, 784_111_777);
    assert_eq!(m.sd_timestamp.year_since_1970, 24);
    assert_eq!(m.sd_timestamp.hours, 8);
}
