//! The time of day.

use vstd::prelude::*;

verus! {

/// A time of day in UTC, on a day of the Gregorian calendar.
pub struct Moment {
    pub year: nat,
    pub month: nat,
    pub day: nat,
    pub hour: nat,
    pub minute: nat,
    pub second: nat,
    pub nanosecond: nat,
}

/// How many days `month` has in `year`.
pub open spec fn days_in(year: nat, month: nat) -> nat {
    if month == 2 {
        if year % 4 == 0 && (year % 100 != 0 || year % 400 == 0) {
            29
        } else {
            28
        }
    } else if month == 4 || month == 6 || month == 9 || month == 11 {
        30
    } else {
        31
    }
}

impl Moment {
    /// Tells whether there is such a time, not before 1970.
    pub open spec fn well_formed(self) -> bool {
        &&& 1970 <= self.year
        &&& 1 <= self.month <= 12
        &&& 1 <= self.day <= days_in(self.year, self.month)
        &&& self.hour < 24
        &&& self.minute < 60
        &&& self.second < 60
        &&& self.nanosecond < 1_000_000_000
    }
}

/// The last `width` decimal digits of `n`, with leading zeros.
pub open spec fn padded(n: nat, width: nat) -> Seq<char>
    decreases width,
{
    if width == 0 {
        Seq::empty()
    } else {
        padded(n / 10, (width - 1) as nat).push(crate::text::digit(n % 10))
    }
}

/// The year of a time: four digits, or a sign and more of them.
pub open spec fn year_text(year: nat) -> Seq<char> {
    if year <= 9999 {
        padded(year, 4)
    } else {
        "+"@ + crate::text::decimal(year)
    }
}

/// The fraction of a second: nothing, or a point and as many groups of three
/// digits as it takes.
pub open spec fn fraction_text(nanosecond: nat) -> Seq<char> {
    if nanosecond == 0 {
        Seq::empty()
    } else if nanosecond % 1_000_000 == 0 {
        "."@ + padded(nanosecond / 1_000_000, 3)
    } else if nanosecond % 1_000 == 0 {
        "."@ + padded(nanosecond / 1_000, 6)
    } else {
        "."@ + padded(nanosecond, 9)
    }
}

/// The form of a time in RFC 3339: `YYYY-MM-DDThh:mm:ss+00:00`, with a fraction
/// of the second where there is one.
pub open spec fn rfc3339(m: Moment) -> Seq<char> {
    year_text(m.year) + "-"@ + padded(m.month, 2) + "-"@ + padded(m.day, 2) + "T"@ + padded(
        m.hour,
        2,
    ) + ":"@ + padded(m.minute, 2) + ":"@ + padded(m.second, 2) + fraction_text(m.nanosecond)
        + "+00:00"@
}

/// Tells whether `s` is a UTC time in the form of RFC 3339.
pub open spec fn is_utc_time(s: Seq<char>) -> bool {
    exists|m: Moment| m.well_formed() && s == #[trigger] rfc3339(m)
}

/// Calls `chrono::Utc::now` and `chrono::DateTime::to_rfc3339`.
///
/// Believed of them: the text is that of some time since 1970, written in UTC
/// in the form of RFC 3339. Which time it is stays open. `now` panics where the clock of the
/// machine stands before 1970, or beyond the years that `chrono` can hold.
#[verifier::external_body]
pub(crate) fn now_rfc3339() -> (r: String)
    ensures
        is_utc_time(r@),
{
    chrono::Utc::now().to_rfc3339()
}

} // verus!
