//! Timestamps: an instant with a fixed offset, and the engine's pair of epoch
//! seconds and offset minutes.

use chrono::{DateTime, FixedOffset};
use vstd::prelude::*;

verus! {

/// Seconds in a minute, the unit between the two offset representations.
pub const SECONDS_PER_MINUTE: i32 = 60;

/// Offsets lie strictly within one day on either side of UTC.
pub const OFFSET_LIMIT: i32 = 86_400;

/// Epoch seconds of the first representable instant:
/// midnight UTC on 1 January of the year -262143.
pub const MIN_INSTANT: i64 = -8_334_601_228_800;

/// Epoch seconds of the last representable instant:
/// 23:59:59 UTC on 31 December of the year 262142.
pub const MAX_INSTANT: i64 = 8_210_266_876_799;

/// The engine's native timestamp.
#[derive(Clone, Copy, Debug, PartialEq, Eq, Structural)]
pub struct EngineTime {
    /// Seconds since the epoch, UTC.
    pub seconds: i64,
    /// Offset east of UTC, in minutes.
    pub offset_minutes: i32,
}

/// Why an engine timestamp names no date.
#[derive(Clone, Copy, Debug, PartialEq, Eq, Structural)]
pub enum InvalidTimestamp {
    /// The offset is not a fixed-offset timezone.
    Offset,
    /// The epoch seconds are not a calendar instant.
    Instant,
}

/// Whether a number of seconds east of UTC is a fixed-offset timezone.
pub open spec fn valid_offset(offset_seconds: int) -> bool {
    -OFFSET_LIMIT < offset_seconds < OFFSET_LIMIT
}

/// Whether a number of epoch seconds is a representable calendar instant.
pub open spec fn valid_instant(seconds: int) -> bool {
    MIN_INSTANT <= seconds <= MAX_INSTANT
}

/// Whole minutes in a number of seconds, rounded toward zero.
pub open spec fn whole_minutes(offset_seconds: int) -> int {
    if offset_seconds >= 0 {
        offset_seconds / (SECONDS_PER_MINUTE as int)
    } else {
        -((-offset_seconds) / (SECONDS_PER_MINUTE as int))
    }
}

/// What a date is: an absolute instant and the offset it was written in.
pub struct DateModel {
    /// Seconds since the epoch, UTC.
    pub instant: int,
    /// Offset east of UTC, in seconds.
    pub offset: int,
}

impl DateModel {
    /// Both parts are in range.
    pub open spec fn valid(self) -> bool {
        valid_instant(self.instant) && valid_offset(self.offset)
    }

    /// The offset has no seconds beyond its minutes.
    pub open spec fn whole_minute_offset(self) -> bool {
        self.offset % (SECONDS_PER_MINUTE as int) == 0
    }
}

/// The engine timestamp of a date: the same instant, the offset in minutes.
pub open spec fn engine_time_of(date: DateModel) -> EngineTime {
    EngineTime {
        seconds: date.instant as i64,
        offset_minutes: whole_minutes(date.offset) as i32,
    }
}

/// The date of an engine timestamp, or why there is none.  The offset is
/// judged first.
pub open spec fn date_of(time: EngineTime) -> Result<DateModel, InvalidTimestamp> {
    let offset = time.offset_minutes * SECONDS_PER_MINUTE;
    if !valid_offset(offset) {
        Err(InvalidTimestamp::Offset)
    } else if !valid_instant(time.seconds as int) {
        Err(InvalidTimestamp::Instant)
    } else {
        Ok(DateModel { instant: time.seconds as int, offset })
    }
}

/// An instant with a fixed offset.  Every value is a valid date.
#[derive(Clone, Copy, Debug, PartialEq, Eq)]
pub struct CommitDate {
    seconds: i64,
    offset_seconds: i32,
}

impl View for CommitDate {
    type V = DateModel;

    closed spec fn view(&self) -> DateModel {
        DateModel { instant: self.seconds as int, offset: self.offset_seconds as int }
    }
}

/// `chrono::FixedOffset::east_opt`, read back through `local_minus_utc`.
/// Trusted, not proved: the offset is accepted exactly when it lies strictly
/// within a day of UTC, and the zone made from it carries the same number of
/// seconds.
#[verifier::external_body]
fn fixed_offset_east(offset_seconds: i32) -> (zone: Option<i32>)
    ensures
        zone == if valid_offset(offset_seconds as int) {
            Some(offset_seconds)
        } else {
            None
        },
{
    match FixedOffset::east_opt(offset_seconds) {
        Some(zone) => Some(zone.local_minus_utc()),
        None => None,
    }
}

/// `chrono::DateTime::from_timestamp` with no nanoseconds, read back through
/// `timestamp`.  Trusted, not proved: the seconds are accepted exactly when
/// they fall in the years -262143 to 262142, the range of the crate's
/// calendar, and the instant made from them gives the same seconds back.
#[verifier::external_body]
fn utc_from_timestamp(seconds: i64) -> (instant: Option<i64>)
    ensures
        instant == if valid_instant(seconds as int) {
            Some(seconds)
        } else {
            None
        },
{
    match DateTime::from_timestamp(seconds, 0) {
        Some(instant) => Some(instant.timestamp()),
        None => None,
    }
}

impl CommitDate {
    #[verifier::type_invariant]
    spec fn in_range(self) -> bool {
        valid_instant(self.seconds as int) && valid_offset(self.offset_seconds as int)
    }

    /// A date from epoch seconds and an offset in seconds east of UTC.
    pub fn new(seconds: i64, offset_seconds: i32) -> (made: Result<CommitDate, InvalidTimestamp>)
        ensures
            made is Ok <==> valid_offset(offset_seconds as int) && valid_instant(seconds as int),
            made matches Ok(date) ==> date@ == (DateModel {
                instant: seconds as int,
                offset: offset_seconds as int,
            }),
            made matches Err(fault) ==> fault == if valid_offset(offset_seconds as int) {
                InvalidTimestamp::Instant
            } else {
                InvalidTimestamp::Offset
            },
    {
        let zone = match fixed_offset_east(offset_seconds) {
            Some(zone) => zone,
            None => {
                return Err(InvalidTimestamp::Offset);
            },
        };
        let instant = match utc_from_timestamp(seconds) {
            Some(instant) => instant,
            None => {
                return Err(InvalidTimestamp::Instant);
            },
        };
        Ok(CommitDate { seconds: instant, offset_seconds: zone })
    }

    /// Seconds since the epoch, UTC.
    pub fn timestamp(&self) -> (seconds: i64)
        ensures
            seconds == self@.instant,
            valid_instant(seconds as int),
    {
        proof {
            use_type_invariant(self);
        }
        self.seconds
    }

    /// Offset east of UTC, in seconds.
    pub fn offset_seconds(&self) -> (offset: i32)
        ensures
            offset == self@.offset,
            valid_offset(offset as int),
    {
        proof {
            use_type_invariant(self);
        }
        self.offset_seconds
    }
}

/// The engine's timestamp for a date: the instant unchanged, the offset cut
/// down to whole minutes.
pub fn chrono_to_git2_time(date: &CommitDate) -> (time: EngineTime)
    ensures
        time == engine_time_of(date@),
        date@.valid(),
{
    let seconds = date.timestamp();
    let offset_minutes = date.offset_seconds() / SECONDS_PER_MINUTE;
    EngineTime { seconds, offset_minutes }
}

/// The date that an engine timestamp names.  Fails when the offset is a day
/// or more from UTC, and otherwise when the seconds fall outside the
/// calendar.
pub fn git2_to_chrono_date(time: &EngineTime) -> (made: Result<CommitDate, InvalidTimestamp>)
    ensures
        match (made, date_of(*time)) {
            (Ok(date), Ok(model)) => date@ == model,
            (Err(fault), Err(expected)) => fault == expected,
            _ => false,
        },
{
    match time.offset_minutes.checked_mul(SECONDS_PER_MINUTE) {
        Some(offset_seconds) => CommitDate::new(time.seconds, offset_seconds),
        None => Err(InvalidTimestamp::Offset),
    }
}

/// Round trip from the engine: a timestamp that names a date is the engine
/// timestamp of that date.
pub proof fn lemma_engine_time_round_trip(time: EngineTime)
    requires
        date_of(time) is Ok,
    ensures
        engine_time_of(date_of(time)->Ok_0) == time,
{
}

/// Round trip from a date: converting a valid date with a whole-minute offset
/// to the engine's timestamp and back gives the same instant and the same
/// offset.  The offset is kept as written, never normalised to UTC.
pub proof fn lemma_date_round_trip(date: DateModel)
    requires
        date.valid(),
        date.whole_minute_offset(),
    ensures
        date_of(engine_time_of(date)) == Ok::<DateModel, InvalidTimestamp>(date),
{
}

/// Two dates at one instant whose offsets differ have different engine
/// timestamps, and are still two dates after the round trip.
pub proof fn lemma_offset_distinguishes(a: DateModel, b: DateModel)
    requires
        a.valid(),
        b.valid(),
        a.whole_minute_offset(),
        b.whole_minute_offset(),
        a.instant == b.instant,
        a.offset != b.offset,
    ensures
        engine_time_of(a) != engine_time_of(b),
        date_of(engine_time_of(a)) != date_of(engine_time_of(b)),
{
    lemma_date_round_trip(a);
    lemma_date_round_trip(b);
}

} // verus!
