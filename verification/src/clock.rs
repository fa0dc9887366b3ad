//! Time as the trash sees it: instants are whole Unix seconds, and the moment
//! of a deletion is also kept as local wall-clock text of the form
//! `YYYY-MM-DD HH:MM:SS`, which is what the metadata file stores.
//!
//! Reading the clock and converting between wall-clock text and instants is
//! left to `chrono`. Those calls are the trusted part of this module; what is
//! decided from their results is verified.

use vstd::prelude::*;

verus! {

/// The `chrono` format of a stored deletion time.
pub const WALL_CLOCK_FORMAT: &'static str = "%Y-%m-%d %H:%M:%S";

/// The wall-clock reading that `text` denotes, as seconds since the Unix epoch
/// on a clock without time zone, or `None` when `text` is not a valid
/// `YYYY-MM-DD HH:MM:SS` reading. This is the value of
/// `chrono::NaiveDateTime::parse_from_str` for that format.
pub uninterp spec fn wall_clock_seconds(text: Seq<char>) -> Option<i64>;

/// What the machine's time zone makes of a wall-clock reading.
#[derive(Debug, Clone, Copy, PartialEq, Eq, Structural)]
pub enum LocalTime {
    /// The reading denotes exactly one instant.
    Single(i64),
    /// The reading occurs twice, at these two instants (clocks were set back).
    Ambiguous(i64, i64),
    /// The reading never occurs (clocks were set forward), or cannot be
    /// represented.
    Missing,
}

/// One reading of the clock, in both forms the trash needs: the instant in
/// Unix seconds and the local wall-clock text.
#[derive(Debug)]
pub struct Moment {
    pub unix: i64,
    pub text: String,
}

/// Trusted: `chrono::Local::now`, the current time, handed on as its Unix
/// timestamp and as its local wall-clock text. Nothing is claimed about the
/// values.
#[verifier::external_body]
fn read_clock() -> (moment: Moment) {
    let now = chrono::Local::now();
    Moment { unix: now.timestamp(), text: now.format(WALL_CLOCK_FORMAT).to_string() }
}

/// Trusted: `chrono::NaiveDateTime::parse_from_str` with the wall-clock
/// format. The contract only names the result: the same text always parses to
/// the same reading, on every machine.
#[verifier::external_body]
fn parse_wall_clock(text: &str) -> (r: Option<i64>)
    ensures
        r == wall_clock_seconds(text@),
{
    match chrono::NaiveDateTime::parse_from_str(text, WALL_CLOCK_FORMAT) {
        Ok(reading) => Some(reading.and_utc().timestamp()),
        Err(_) => None,
    }
}

/// Trusted: `chrono::TimeZone::from_local_datetime` on `chrono::Local`, which
/// maps a wall-clock reading to the instants it denotes in the machine's time
/// zone. The answer depends on that zone, so nothing is claimed about it.
#[verifier::external_body]
fn resolve_local(reading: i64) -> (r: LocalTime) {
    let Some(as_utc) = chrono::DateTime::from_timestamp(reading, 0) else {
        return LocalTime::Missing;
    };
    match chrono::TimeZone::from_local_datetime(&chrono::Local, &as_utc.naive_utc()) {
        chrono::LocalResult::Single(t) => LocalTime::Single(t.timestamp()),
        chrono::LocalResult::Ambiguous(a, b) => LocalTime::Ambiguous(a.timestamp(), b.timestamp()),
        chrono::LocalResult::None => LocalTime::Missing,
    }
}

/// The instant that a resolved wall-clock reading stands for. Of two
/// candidates the later one is taken, so that an item is never held to have
/// been deleted earlier than it may have been.
pub open spec fn settled(local: LocalTime) -> Option<i64> {
    match local {
        LocalTime::Single(t) => Some(t),
        LocalTime::Ambiguous(a, b) => Some(if a >= b { a } else { b }),
        LocalTime::Missing => None,
    }
}

/// Picks the instant for a resolved wall-clock reading.
pub fn settle(local: LocalTime) -> (r: Option<i64>)
    ensures
        r == settled(local),
{
    match local {
        LocalTime::Single(t) => Some(t),
        LocalTime::Ambiguous(a, b) => Some(if a >= b { a } else { b }),
        LocalTime::Missing => None,
    }
}

/// The instant at which an item with the stored deletion time `text` was
/// deleted, in Unix seconds, as the machine's time zone resolves it. The
/// result is `None` when the text is not a wall-clock reading; it may also be
/// `None` when the reading does not occur in the local time zone.
pub fn deletion_instant(text: &str) -> (r: Option<i64>)
    ensures
        wall_clock_seconds(text@) is None ==> r is None,
{
    match parse_wall_clock(text) {
        None => None,
        Some(reading) => settle(resolve_local(reading)),
    }
}

impl Moment {
    /// Reads the clock.
    pub fn now() -> Moment {
        read_clock()
    }
}

} // verus!
