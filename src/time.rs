//! Times as listed by `ls`, and their formatting, in seconds since the Unix
//! epoch (UTC).
use std::fmt::Write;

use chrono::format::ParseError;
use chrono::{DateTime, Datelike, NaiveDate, NaiveDateTime, Utc};
use vstd::prelude::*;

use crate::text::{decimal, push_decimal};

verus! {

#[verifier::external_type_specification]
#[verifier::external_body]
pub struct ExParseError(ParseError);

/// Midnight UTC, as a Unix timestamp, of the date that `NaiveDate::parse_from_str`
/// reads from `s` with the strftime format `fmt`; `None` where it reads none.
pub uninterp spec fn date_timestamp(s: Seq<char>, fmt: Seq<char>) -> Option<i64>;

/// The Unix timestamp of the date and time that
/// `NaiveDateTime::parse_from_str` reads from `s` with `fmt`, taken as UTC;
/// `None` where it reads none.
pub uninterp spec fn datetime_timestamp(s: Seq<char>, fmt: Seq<char>) -> Option<i64>;

/// What chrono's `format` writes for the UTC time `secs` seconds after the
/// epoch with the strftime format `fmt`; `None` where the format has an
/// invalid item or the time is out of chrono's range.
pub uninterp spec fn utc_formatted(secs: i64, fmt: Seq<char>) -> Option<Seq<char>>;

/// Relies on `NaiveDate::parse_from_str`, then `and_hms_opt(0, 0, 0)`,
/// `and_utc` and `timestamp`: the result depends on the text and the format
/// alone.
#[verifier::external_body]
fn parse_date(s: &str, fmt: &str) -> (r: Option<i64>)
    ensures
        r == date_timestamp(s@, fmt@),
{
    let date = NaiveDate::parse_from_str(s, fmt).ok()?;
    let midnight = date.and_hms_opt(0, 0, 0)?;
    Some(midnight.and_utc().timestamp())
}

/// Relies on `NaiveDateTime::parse_from_str`, then `and_utc` and `timestamp`:
/// the result depends on the text and the format alone.
#[verifier::external_body]
fn parse_datetime(s: &str, fmt: &str) -> (r: Result<i64, ParseError>)
    ensures
        r is Ok <==> datetime_timestamp(s@, fmt@) is Some,
        r is Ok ==> datetime_timestamp(s@, fmt@) == Some(r->Ok_0),
{
    match NaiveDateTime::parse_from_str(s, fmt) {
        Ok(t) => Ok(t.and_utc().timestamp()),
        Err(e) => Err(e),
    }
}

/// Relies on `Utc::now().year()`: the current year, which depends on the
/// clock, so nothing is stated of it.
#[verifier::external_body]
fn current_year() -> i32 {
    Utc::now().year()
}

/// Relies on `DateTime::<Utc>::from_timestamp` and `DateTime::format`,
/// written through `write!` so that an invalid format item gives `None`.
#[verifier::external_body]
fn format_utc(secs: i64, fmt: &str) -> (r: Option<String>)
    ensures
        r is Some <==> utc_formatted(secs, fmt@) is Some,
        r is Some ==> utc_formatted(secs, fmt@) == Some(r->Some_0@),
{
    let time = DateTime::<Utc>::from_timestamp(secs, 0)?;
    let mut out = String::new();
    write!(out, "{}", time.format(fmt)).ok()?;
    Some(out)
}

/// Seconds since the epoch of a timestamp; times before the epoch count as
/// the epoch.
pub open spec fn since_epoch(ts: i64) -> u64 {
    if ts < 0 {
        0
    } else {
        ts as u64
    }
}

/// The decimal text of a year, with a `-` before a negative one.
pub open spec fn year_text(year: i32) -> Seq<char> {
    if year < 0 {
        seq!['-'] + decimal((-year) as nat)
    } else {
        decimal(year as nat)
    }
}

/// `tm` followed by a space and `year`.
pub open spec fn with_year(tm: Seq<char>, year: i32) -> Seq<char> {
    tm + seq![' '] + year_text(year)
}

/// What `parse_lstime` gives when the current year is `year`: the date read
/// with `fmt_year` at midnight; failing that, the date and time read with
/// `fmt_hours` from `tm` completed with `year`.
pub open spec fn lstime_in_year(
    tm: Seq<char>,
    fmt_year: Seq<char>,
    fmt_hours: Seq<char>,
    year: i32,
) -> Option<u64> {
    match date_timestamp(tm, fmt_year) {
        Some(ts) => Some(since_epoch(ts)),
        None => match datetime_timestamp(with_year(tm, year), fmt_hours + seq![' ', '%', 'Y']) {
            Some(ts) => Some(since_epoch(ts)),
            None => None,
        },
    }
}

fn append_year(s: &mut String, year: i32)
    ensures
        final(s)@ == old(s)@ + year_text(year),
{
    if year < 0 {
        s.push('-');
        let magnitude: u64 = (0i64 - year as i64) as u64;
        push_decimal(s, magnitude);
        assert(final(s)@ =~= old(s)@ + year_text(year));
    } else {
        push_decimal(s, year as u64);
    }
}

/// Reads an `ls` time, as `parse_lstime` does, for a given current year.
pub fn parse_lstime_in_year(tm: &str, fmt_year: &str, fmt_hours: &str, year: i32) -> (r: Result<
    u64,
    ParseError,
>)
    ensures
        r is Ok <==> lstime_in_year(tm@, fmt_year@, fmt_hours@, year) is Some,
        r is Ok ==> lstime_in_year(tm@, fmt_year@, fmt_hours@, year) == Some(r->Ok_0),
{
    if let Some(ts) = parse_date(tm, fmt_year) {
        return Ok(if ts < 0 { 0 } else { ts as u64 });
    }
    let mut text = tm.to_owned();
    text.push(' ');
    append_year(&mut text, year);
    let mut fmt = fmt_hours.to_owned();
    fmt.append(" %Y");
    proof {
        reveal_strlit(" %Y");
        assert(fmt@ =~= fmt_hours@ + seq![' ', '%', 'Y']);
        assert(text@ =~= with_year(tm@, year));
    }
    match parse_datetime(text.as_str(), fmt.as_str()) {
        Ok(ts) => Ok(if ts < 0 { 0 } else { ts as u64 }),
        Err(e) => Err(e),
    }
}

/// Converts an `ls` time to seconds since the epoch. `ls` writes either
/// `fmt_year` (month, day and year, e.g. `Nov 5 2019`) for files of another
/// year, or `fmt_hours` (month, day and time, e.g. `Nov 5 13:46`) for files
/// of the current year, which is then taken from the clock.
pub fn parse_lstime(tm: &str, fmt_year: &str, fmt_hours: &str) -> (r: Result<u64, ParseError>)
    ensures
        date_timestamp(tm@, fmt_year@) is Some ==> r == Ok::<u64, ParseError>(
            since_epoch(date_timestamp(tm@, fmt_year@)->Some_0),
        ),
        r is Ok ==> exists|year: i32| lstime_in_year(tm@, fmt_year@, fmt_hours@, year) == Some(r->Ok_0),
{
    if let Some(ts) = parse_date(tm, fmt_year) {
        assert(lstime_in_year(tm@, fmt_year@, fmt_hours@, 0) == Some(since_epoch(ts)));
        return Ok(if ts < 0 { 0 } else { ts as u64 });
    }
    let year = current_year();
    parse_lstime_in_year(tm, fmt_year, fmt_hours, year)
}

/// Formats the time `secs` seconds after the epoch, in UTC, with the
/// strftime format `fmt`; `None` where the format has an invalid item or the
/// time is beyond chrono's range.
pub fn fmt_time_utc(secs: u64, fmt: &str) -> (r: Option<String>)
    ensures
        secs > i64::MAX ==> r is None,
        secs <= i64::MAX ==> (r is Some <==> utc_formatted(secs as i64, fmt@) is Some),
        secs <= i64::MAX && r is Some ==> utc_formatted(secs as i64, fmt@) == Some(r->Some_0@),
{
    if secs > i64::MAX as u64 {
        return None;
    }
    format_utc(secs as i64, fmt)
}

} // verus!
