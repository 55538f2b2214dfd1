//! The time of an image, as the metadata gives it and as URLs and file names
//! write it.
use vstd::prelude::*;
use chrono::{Datelike, Timelike};
use crate::error::AppErr;
use crate::text::{push_zero_padded, zero_padded};

verus! {

#[verifier::external_type_specification]
#[verifier::external_body]
pub struct ExParseError(chrono::ParseError);

/// The fields (year, month, day, hour, minute, second, nanosecond) that
/// chrono reads from `s` with the format `%Y-%m-%d %H:%M:%S`, or none where
/// it rejects `s`.
pub uninterp spec fn utc_fields(s: Seq<char>) -> Option<(int, int, int, int, int, int, int)>;

/// Relies on chrono's `NaiveDateTime::parse_from_str` with the format
/// `%Y-%m-%d %H:%M:%S` (the same parse as `Utc.datetime_from_str`, no offset),
/// and on the ranges that chrono's `Datelike` and `Timelike` document for the
/// fields read back.
#[verifier::external_body]
fn parse_utc_fields(s: &str) -> (r: Result<(i32, u32, u32, u32, u32, u32, u32), chrono::ParseError>)
    ensures
        match r {
            Ok(f) => {
                &&& utc_fields(s@) == Some(
                    (
                        f.0 as int,
                        f.1 as int,
                        f.2 as int,
                        f.3 as int,
                        f.4 as int,
                        f.5 as int,
                        f.6 as int,
                    ),
                )
                &&& 1 <= f.1 <= 12
                &&& 1 <= f.2 <= 31
                &&& f.3 <= 23
                &&& f.4 <= 59
                &&& f.5 <= 59
                &&& f.6 < 2_000_000_000
            },
            Err(_) => utc_fields(s@) is None,
        },
{
    match chrono::NaiveDateTime::parse_from_str(s, "%Y-%m-%d %H:%M:%S") {
        Ok(d) => Ok((d.year(), d.month(), d.day(), d.hour(), d.minute(), d.second(), d.nanosecond())),
        Err(e) => Err(e),
    }
}

/// The tag of an error from chrono's parser.
pub const PARSE_ERROR_KIND: &'static str = "chrono::ParseError";

/// The UTC time of an image, to the second. A leap second has `second` 60.
#[derive(Clone, Copy, Debug, PartialEq, Eq, Structural)]
pub struct ImageTimestamp {
    pub year: i32,
    pub month: u32,
    pub day: u32,
    pub hour: u32,
    pub minute: u32,
    pub second: u32,
}

/// The timestamp that chrono's fields stand for: a nanosecond count of a
/// second or more marks a leap second, which is shown as second 60.
pub open spec fn timestamp_of(f: (int, int, int, int, int, int, int)) -> ImageTimestamp {
    ImageTimestamp {
        year: f.0 as i32,
        month: f.1 as u32,
        day: f.2 as u32,
        hour: f.3 as u32,
        minute: f.4 as u32,
        second: (f.5 + f.6 / 1_000_000_000) as u32,
    }
}

/// `%Y` as chrono writes it: four digits for the years 0 to 9999, else a sign
/// and at least four digits.
pub open spec fn year_text(y: int) -> Seq<char> {
    if 0 <= y <= 9999 {
        zero_padded(y as nat, 4)
    } else if y < 0 {
        seq!['-'] + zero_padded((-y) as nat, 4)
    } else {
        seq!['+'] + zero_padded(y as nat, 4)
    }
}

/// Two digits at least, as `%m`, `%d`, `%H`, `%M` and `%S` write a field.
pub open spec fn two_digits(n: u32) -> Seq<char> {
    zero_padded(n as nat, 2)
}

/// `YYYYMMDD`.
pub open spec fn date_text(t: ImageTimestamp) -> Seq<char> {
    year_text(t.year as int) + two_digits(t.month) + two_digits(t.day)
}

/// `HHMMSS`.
pub open spec fn time_text(t: ImageTimestamp) -> Seq<char> {
    two_digits(t.hour) + two_digits(t.minute) + two_digits(t.second)
}

/// The timestamp that a metadata date string stands for, where chrono reads it.
pub open spec fn resolved(date: Seq<char>) -> Option<ImageTimestamp> {
    match utc_fields(date) {
        Some(f) => Some(timestamp_of(f)),
        None => None,
    }
}

impl ImageTimestamp {
    /// The timestamp from the fields that chrono reads: a nanosecond count of
    /// a second or more (a leap second) adds one to `second`.
    pub fn from_fields(
        year: i32,
        month: u32,
        day: u32,
        hour: u32,
        minute: u32,
        second: u32,
        nanosecond: u32,
    ) -> (r: ImageTimestamp)
        requires
            second <= 59,
            nanosecond < 2_000_000_000,
        ensures
            r == timestamp_of(
                (
                    year as int,
                    month as int,
                    day as int,
                    hour as int,
                    minute as int,
                    second as int,
                    nanosecond as int,
                ),
            ),
    {
        let leap: u32 = if nanosecond >= 1_000_000_000 { 1 } else { 0 };
        ImageTimestamp { year, month, day, hour, minute, second: second + leap }
    }

    /// Reads the date of the metadata document, `YYYY-MM-DD HH:MM:SS` in UTC.
    /// Where chrono rejects it, the error carries chrono's message.
    pub fn resolve(date: &str) -> (r: Result<ImageTimestamp, AppErr>)
        ensures
            match resolved(date@) {
                Some(t) => r == Ok::<ImageTimestamp, AppErr>(t),
                None => r matches Err(e) && e.kind@ == PARSE_ERROR_KIND@ && e.cause is Some,
            },
    {
        match parse_utc_fields(date) {
            Ok(f) => Ok(ImageTimestamp::from_fields(f.0, f.1, f.2, f.3, f.4, f.5, f.6)),
            Err(e) => Err(AppErr::from_err(PARSE_ERROR_KIND, e.to_string())),
        }
    }
}

/// Appends the year as `%Y` writes it.
pub fn push_year(s: &mut String, y: i32)
    ensures
        final(s)@ == old(s)@ + year_text(y as int),
{
    if 0 <= y && y <= 9999 {
        push_zero_padded(s, y as u64, 4);
    } else if y < 0 {
        proof { reveal_strlit("-"); }
        s.append("-");
        push_zero_padded(s, (-(y as i64)) as u64, 4);
        assert(s@ =~= old(s)@ + year_text(y as int));
    } else {
        proof { reveal_strlit("+"); }
        s.append("+");
        push_zero_padded(s, y as u64, 4);
        assert(s@ =~= old(s)@ + year_text(y as int));
    }
}

/// Appends `YYYYMMDD`.
pub fn push_date(s: &mut String, t: &ImageTimestamp)
    ensures
        final(s)@ == old(s)@ + date_text(*t),
{
    push_year(s, t.year);
    push_zero_padded(s, t.month as u64, 2);
    push_zero_padded(s, t.day as u64, 2);
    assert(s@ =~= old(s)@ + date_text(*t));
}

/// Appends `HHMMSS`.
pub fn push_time(s: &mut String, t: &ImageTimestamp)
    ensures
        final(s)@ == old(s)@ + time_text(*t),
{
    push_zero_padded(s, t.hour as u64, 2);
    push_zero_padded(s, t.minute as u64, 2);
    push_zero_padded(s, t.second as u64, 2);
    assert(s@ =~= old(s)@ + time_text(*t));
}

} // verus!
