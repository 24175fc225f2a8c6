//! Publish timestamps and their text form `YYYY-MM-DDTHH:MM:SS+ZZZZ`.

use vstd::prelude::*;
use chrono::{DateTime, Datelike, FixedOffset};

verus! {

/// A point in time together with the UTC offset it was written in.
///
/// Two timestamps are ordered by their instant alone: the whole seconds since
/// the Unix epoch first, the nanoseconds within the second after that. The
/// calendar fields are the date as it reads at `offset_seconds`.
#[derive(Debug, Clone, Copy, PartialEq, Eq)]
pub struct Timestamp {
    /// Whole non-leap seconds since 1970-01-01T00:00:00 UTC.
    pub epoch_seconds: i64,
    /// Nanoseconds within the second; one thousand million or more during a
    /// leap second.
    pub subsec_nanos: u32,
    /// Seconds that local time is ahead of UTC.
    pub offset_seconds: i32,
    /// Calendar year of the local date.
    pub year: i32,
    /// Month of the local date, counted from 1.
    pub month: u32,
    /// Day of the month of the local date, counted from 1.
    pub day: u32,
}

impl Timestamp {
    /// Whether `self` is an earlier instant than `other`.
    pub open spec fn is_before(self, other: Timestamp) -> bool {
        ||| self.epoch_seconds < other.epoch_seconds
        ||| (self.epoch_seconds == other.epoch_seconds && self.subsec_nanos < other.subsec_nanos)
    }

    /// Whether `self` is an earlier instant than `other`.
    pub fn before(&self, other: &Timestamp) -> (earlier: bool)
        ensures
            earlier == self.is_before(*other),
    {
        self.epoch_seconds < other.epoch_seconds || (self.epoch_seconds == other.epoch_seconds
            && self.subsec_nanos < other.subsec_nanos)
    }
}

/// What `chrono` reads out of `text` under the layout `%Y-%m-%dT%H:%M:%S%z`,
/// or `None` where it rejects the text.
pub uninterp spec fn parsed_timestamp(text: Seq<char>) -> Option<Timestamp>;

/// How `chrono` writes the instant `(seconds, nanos)` at the UTC offset
/// `offset` under the layout `%Y-%m-%dT%H:%M:%S%z`, or `None` where the three
/// numbers lie outside what `chrono` can represent.
pub uninterp spec fn formatted_timestamp(seconds: int, nanos: int, offset: int) -> Option<
    Seq<char>,
>;

/// `DateTime::parse_from_str` with the layout `%Y-%m-%dT%H:%M:%S%z`. A value
/// that was read is copied out field by field: `timestamp`,
/// `timestamp_subsec_nanos`, the offset's `local_minus_utc`, and `year`,
/// `month` and `day` of the local date. The answer depends on the text alone.
#[verifier::external_body]
fn parse_with_chrono(text: &str) -> (parsed: Option<Timestamp>)
    ensures
        parsed == parsed_timestamp(text@),
{
    match DateTime::parse_from_str(text, "%Y-%m-%dT%H:%M:%S%z") {
        Ok(dt) => Some(
            Timestamp {
                epoch_seconds: dt.timestamp(),
                subsec_nanos: dt.timestamp_subsec_nanos(),
                offset_seconds: dt.offset().local_minus_utc(),
                year: dt.year(),
                month: dt.month(),
                day: dt.day(),
            },
        ),
        Err(_) => None,
    }
}

/// Rebuilds the `chrono` value for an instant and an offset
/// (`FixedOffset::east_opt`, `DateTime::from_timestamp`, `with_timezone`) and
/// writes it with `format` under the layout `%Y-%m-%dT%H:%M:%S%z`. `None` is
/// returned where `chrono` refuses the offset or the instant.
#[verifier::external_body]
fn format_with_chrono(seconds: i64, nanos: u32, offset: i32) -> (text: Option<String>)
    ensures
        match text {
            Some(s) => formatted_timestamp(seconds as int, nanos as int, offset as int) == Some(
                s@,
            ),
            None => formatted_timestamp(seconds as int, nanos as int, offset as int) is None,
        },
{
    let zone = FixedOffset::east_opt(offset)?;
    let utc = DateTime::from_timestamp(seconds, nanos)?;
    Some(utc.with_timezone(&zone).format("%Y-%m-%dT%H:%M:%S%z").to_string())
}

/// A date text that could not be read.
#[derive(Debug, Clone, PartialEq, Eq)]
pub struct InvalidDate {
    /// The text as it was given.
    pub text: String,
}

/// The outcome of reading `text`, given what the date parser made of it.
pub open spec fn read_outcome(text: Seq<char>, parsed: Option<Timestamp>) -> Result<
    Timestamp,
    Seq<char>,
> {
    match parsed {
        Some(t) => Ok(t),
        None => Err(text),
    }
}

/// Turns the date parser's answer for `text` into a result: the timestamp
/// where there is one, else an error that carries the text.
pub fn date_or_error(text: &str, parsed: Option<Timestamp>) -> (date: Result<Timestamp, InvalidDate>)
    ensures
        match date {
            Ok(t) => read_outcome(text@, parsed) == Ok::<Timestamp, Seq<char>>(t),
            Err(e) => read_outcome(text@, parsed) == Err::<Timestamp, Seq<char>>(e.text@),
        },
{
    match parsed {
        Some(t) => Ok(t),
        None => Err(InvalidDate { text: text.to_owned() }),
    }
}

/// Reads a timestamp written as `YYYY-MM-DDTHH:MM:SS+ZZZZ`.
pub fn deserialize(text: &str) -> (date: Result<Timestamp, InvalidDate>)
    ensures
        match date {
            Ok(t) => parsed_timestamp(text@) == Some(t),
            Err(e) => parsed_timestamp(text@) is None && e.text@ == text@,
        },
{
    date_or_error(text, parse_with_chrono(text))
}

/// Writes a timestamp as `YYYY-MM-DDTHH:MM:SS+ZZZZ`; `None` where the instant
/// or the offset is one that no date can be made of.
pub fn serialize(date: &Timestamp) -> (text: Option<String>)
    ensures
        match text {
            Some(s) => formatted_timestamp(
                date.epoch_seconds as int,
                date.subsec_nanos as int,
                date.offset_seconds as int,
            ) == Some(s@),
            None => formatted_timestamp(
                date.epoch_seconds as int,
                date.subsec_nanos as int,
                date.offset_seconds as int,
            ) is None,
        },
{
    format_with_chrono(date.epoch_seconds, date.subsec_nanos, date.offset_seconds)
}

} // verus!
