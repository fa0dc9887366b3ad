//! The expiry policy: when an entry expires and how much time it has left.
//!
//! All instants are Unix seconds. The policy is stated over mathematical
//! integers; the executable functions compute in 128 bits, which holds every
//! value that 64-bit instants and retention periods can produce.

use vstd::prelude::*;
use crate::text::{decimal_text, render_decimal};

verus! {

pub const SECONDS_PER_HOUR: i128 = 3_600;

pub const SECONDS_PER_DAY: i128 = 86_400;

/// The instant at which an entry deleted at `deleted_at` and kept for `days`
/// days expires.
pub open spec fn expire_time(deleted_at: int, days: int) -> int {
    deleted_at + days * 86_400
}

/// An entry is expired once the current instant lies strictly after its
/// expiry instant.
pub open spec fn is_expired(deleted_at: int, days: int, now: int) -> bool {
    now > expire_time(deleted_at, days)
}

/// The seconds that remain until expiry; zero or negative once it is reached.
pub open spec fn seconds_left(deleted_at: int, days: int, now: int) -> int {
    expire_time(deleted_at, days) - now
}

/// Computes the expiry instant.
pub fn expires_at(deleted_at: i64, days: i64) -> (t: i128)
    ensures
        t == expire_time(deleted_at as int, days as int),
{
    deleted_at as i128 + days as i128 * SECONDS_PER_DAY
}

/// Decides whether an entry is expired at `now`.
pub fn expired(deleted_at: i64, days: i64, now: i64) -> (b: bool)
    ensures
        b == is_expired(deleted_at as int, days as int, now as int),
{
    now as i128 > expires_at(deleted_at, days)
}

/// Computes the seconds that remain until expiry.
pub fn remaining_seconds(deleted_at: i64, days: i64, now: i64) -> (s: i128)
    ensures
        s == seconds_left(deleted_at as int, days as int, now as int),
{
    expires_at(deleted_at, days) - now as i128
}

/// The coarse remaining-time class shown in listings.
#[derive(Debug, Clone, Copy, PartialEq, Eq, Structural)]
pub enum TimeLeft {
    /// At least one whole day remains; the count of whole days.
    Days(i128),
    /// Less than a day but at least one whole hour remains; the count of
    /// whole hours.
    Hours(i128),
    /// Less than an hour remains, or none at all.
    Expired,
}

/// The listing class for a number of remaining seconds.
pub open spec fn time_left_of(remaining: int) -> TimeLeft {
    if remaining >= 86_400 {
        TimeLeft::Days((remaining / 86_400) as i128)
    } else if remaining >= 3_600 {
        TimeLeft::Hours((remaining / 3_600) as i128)
    } else {
        TimeLeft::Expired
    }
}

/// Classifies the time an entry has left at `now` for a listing.
pub fn time_left(deleted_at: i64, days: i64, now: i64) -> (t: TimeLeft)
    ensures
        t == time_left_of(seconds_left(deleted_at as int, days as int, now as int)),
{
    let remaining = remaining_seconds(deleted_at, days, now);
    if remaining >= SECONDS_PER_DAY {
        TimeLeft::Days(remaining / SECONDS_PER_DAY)
    } else if remaining >= SECONDS_PER_HOUR {
        TimeLeft::Hours(remaining / SECONDS_PER_HOUR)
    } else {
        TimeLeft::Expired
    }
}

impl TimeLeft {
    /// The words a listing shows for this class.
    pub open spec fn label_text(self) -> Seq<char> {
        match self {
            TimeLeft::Days(n) => decimal_text(n as int) + " days left"@,
            TimeLeft::Hours(n) => decimal_text(n as int) + " hours left"@,
            TimeLeft::Expired => "Expired"@,
        }
    }

    /// Renders the class as `N days left`, `N hours left` or `Expired`.
    pub fn label(&self) -> (s: String)
        ensures
            s@ == self.label_text(),
    {
        match self {
            TimeLeft::Days(n) => {
                let mut s = render_decimal(*n);
                s.append(" days left");
                s
            },
            TimeLeft::Hours(n) => {
                let mut s = render_decimal(*n);
                s.append(" hours left");
                s
            },
            TimeLeft::Expired => String::from_str("Expired"),
        }
    }
}

/// The detailed expiry state shown by an expiry check.
#[derive(Debug, Clone, Copy, PartialEq, Eq, Structural)]
pub enum ExpiryStatus {
    /// Time remains: whole days, and the whole hours beyond those days.
    Remaining { days: i128, hours: i128 },
    /// No time remains; the whole hours since expiry.
    Expired { hours_ago: i128 },
}

/// The detailed state for a number of remaining seconds. Time remains only
/// while that number is positive.
pub open spec fn status_of(remaining: int) -> ExpiryStatus {
    if remaining > 0 {
        ExpiryStatus::Remaining {
            days: (remaining / 86_400) as i128,
            hours: ((remaining / 3_600) % 24) as i128,
        }
    } else {
        ExpiryStatus::Expired { hours_ago: ((-remaining) / 3_600) as i128 }
    }
}

impl ExpiryStatus {
    /// The words an expiry check shows for this state.
    pub open spec fn label_text(self) -> Seq<char> {
        match self {
            ExpiryStatus::Remaining { days, hours } => decimal_text(days as int) + " days, "@
                + decimal_text(hours as int) + " hours"@,
            ExpiryStatus::Expired { hours_ago } => "Expired ("@ + decimal_text(hours_ago as int)
                + " hours ago)"@,
        }
    }

    /// Renders the state as `D days, H hours` or `Expired (N hours ago)`.
    pub fn label(&self) -> (s: String)
        ensures
            s@ == self.label_text(),
    {
        match self {
            ExpiryStatus::Remaining { days, hours } => {
                let mut s = render_decimal(*days);
                s.append(" days, ");
                let h = render_decimal(*hours);
                s.append(h.as_str());
                s.append(" hours");
                s
            },
            ExpiryStatus::Expired { hours_ago } => {
                let mut s = String::from_str("Expired (");
                let n = render_decimal(*hours_ago);
                s.append(n.as_str());
                s.append(" hours ago)");
                s
            },
        }
    }
}

/// Works out the detailed expiry state of an entry at `now`.
pub fn expiry_status(deleted_at: i64, days: i64, now: i64) -> (s: ExpiryStatus)
    ensures
        s == status_of(seconds_left(deleted_at as int, days as int, now as int)),
{
    let remaining = remaining_seconds(deleted_at, days, now);
    if remaining > 0 {
        ExpiryStatus::Remaining {
            days: remaining / SECONDS_PER_DAY,
            hours: (remaining / SECONDS_PER_HOUR) % 24,
        }
    } else {
        ExpiryStatus::Expired { hours_ago: (-remaining) / SECONDS_PER_HOUR }
    }
}

} // verus!
