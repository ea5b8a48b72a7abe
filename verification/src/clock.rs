//! Instants in UTC and their text.

use vstd::prelude::*;

verus! {

/// The first second that a date can be given for: the start of the year
/// -262143.
pub const FIRST_SECOND: i64 = -8_334_601_228_800;

/// The last one: the end of the year 262142.
pub const LAST_SECOND: i64 = 8_210_266_876_799;

/// A point in time.
#[derive(Debug, Clone, Copy)]
pub struct UtcInstant {
    /// Whole seconds since the start of 1970 in UTC, leap seconds not counted.
    pub secs: i64,
    /// Nanoseconds since that second.
    pub nanos: u32,
}

impl UtcInstant {
    /// The instant has a date.
    pub open spec fn valid(self) -> bool {
        FIRST_SECOND <= self.secs <= LAST_SECOND && self.nanos < 1_000_000_000
    }

    /// Tells whether the instant has a date.
    pub fn is_valid(&self) -> (r: bool)
        ensures
            r == self.valid(),
    {
        FIRST_SECOND <= self.secs && self.secs <= LAST_SECOND && self.nanos < 1_000_000_000
    }
}

/// What `chrono` prints for an instant with `DateTime::to_rfc3339`.
pub uninterp spec fn rfc3339_text(secs: i64, nanos: u32) -> Seq<char>;

/// Prints an instant with `chrono::DateTime::to_rfc3339`. The text depends on
/// the instant alone: it is [`rfc3339_text`] of it. `DateTime::from_timestamp`
/// has a date for every valid instant.
#[verifier::external_body]
fn format_rfc3339(secs: i64, nanos: u32) -> (r: String)
    requires
        FIRST_SECOND <= secs <= LAST_SECOND,
        nanos < 1_000_000_000,
    ensures
        r@ == rfc3339_text(secs, nanos),
{
    chrono::DateTime::<chrono::Utc>::from_timestamp(secs, nanos).unwrap().to_rfc3339()
}

/// Adds whole hours to an instant with the `+` of `chrono::DateTime` and
/// `chrono::Duration::hours`. While the result has a date, this adds 3600
/// seconds for each hour and leaves the nanoseconds as they are.
#[verifier::external_body]
fn add_hours(secs: i64, nanos: u32, hours: i64) -> (r: (i64, u32))
    requires
        FIRST_SECOND <= secs <= LAST_SECOND,
        nanos < 1_000_000_000,
        FIRST_SECOND <= secs + 3600 * hours <= LAST_SECOND,
    ensures
        r.0 == secs + 3600 * hours,
        r.1 == nanos,
{
    let start = chrono::DateTime::<chrono::Utc>::from_timestamp(secs, nanos).unwrap();
    let end = start + chrono::Duration::hours(hours);
    (end.timestamp(), end.timestamp_subsec_nanos())
}

impl UtcInstant {
    /// The instant as RFC 3339 text.
    pub fn to_rfc3339(&self) -> (r: String)
        requires
            self.valid(),
        ensures
            r@ == rfc3339_text(self.secs, self.nanos),
    {
        format_rfc3339(self.secs, self.nanos)
    }

    /// The instant lies within the dates after `hours` more hours.
    pub open spec fn has_later(self, hours: int) -> bool {
        FIRST_SECOND <= self.secs + 3600 * hours <= LAST_SECOND
    }

    /// Tells whether there is a date `hours` hours later.
    pub fn can_add_hours(&self, hours: i64) -> (r: bool)
        ensures
            r == self.has_later(hours as int),
    {
        let end: i128 = self.secs as i128 + 3600 * (hours as i128);
        FIRST_SECOND as i128 <= end && end <= LAST_SECOND as i128
    }

    /// The instant `hours` hours later.
    pub fn plus_hours(&self, hours: i64) -> (r: UtcInstant)
        requires
            self.valid(),
            self.has_later(hours as int),
        ensures
            r.valid(),
            r.secs == self.secs + 3600 * hours,
            r.nanos == self.nanos,
    {
        let (secs, nanos) = add_hours(self.secs, self.nanos, hours);
        UtcInstant { secs, nanos }
    }
}

} // verus!
