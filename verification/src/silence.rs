//! Silences: what is sent to silence the alerts of one name for some hours.

use vstd::prelude::*;
use crate::clock::UtcInstant;
#[allow(unused_imports)]
use crate::clock::rfc3339_text;

verus! {

/// A condition on one label of an alert.
#[derive(Debug)]
pub struct SilenceMatcher {
    pub name: String,
    pub value: String,
    pub is_regex: bool,
    pub is_equal: bool,
}

/// A silence, as it is posted.
#[derive(Debug)]
pub struct SilencePayload {
    pub matchers: Vec<SilenceMatcher>,
    pub starts_at: String,
    pub ends_at: String,
    pub created_by: String,
    pub comment: String,
}

/// The hours that a requested duration stands for: it is read as a signed
/// number, so that one too large for that counts backwards.
pub open spec fn signed_hours(duration_hours: u64) -> int {
    if duration_hours <= i64::MAX {
        duration_hours as int
    } else {
        duration_hours - 0x1_0000_0000_0000_0000
    }
}

fn to_signed(duration_hours: u64) -> (r: i64)
    ensures
        r == signed_hours(duration_hours),
{
    if duration_hours <= 0x7FFF_FFFF_FFFF_FFFF {
        duration_hours as i64
    } else {
        -((0xFFFF_FFFF_FFFF_FFFF - duration_hours) as i64) - 1
    }
}

/// Tells whether a silence of the given length ends at a date.
pub fn silence_fits(now: &UtcInstant, duration_hours: u64) -> (r: bool)
    ensures
        r == now.has_later(signed_hours(duration_hours)),
{
    now.can_add_hours(to_signed(duration_hours))
}

/// The silence of all alerts with exactly the given name, between two instants
/// given as text.
pub open spec fn silences(
    payload: SilencePayload,
    alertname: Seq<char>,
    starts_at: Seq<char>,
    ends_at: Seq<char>,
) -> bool {
    &&& payload.matchers@.len() == 1
    &&& payload.matchers@[0].name@ == "alertname"@
    &&& payload.matchers@[0].value@ == alertname
    &&& !payload.matchers@[0].is_regex
    &&& payload.matchers@[0].is_equal
    &&& payload.starts_at@ == starts_at
    &&& payload.ends_at@ == ends_at
    &&& payload.created_by@ == "Notify App"@
    &&& payload.comment@ == "Silenced via Notify desktop app"@
}

/// The silence of all alerts with exactly the given name, between two instants
/// given as text.
pub fn silence_between(alertname: String, starts_at: String, ends_at: String) -> (r: SilencePayload)
    ensures
        silences(r, alertname@, starts_at@, ends_at@),
{
    let mut matchers: Vec<SilenceMatcher> = Vec::new();
    matchers.push(
        SilenceMatcher {
            name: "alertname".to_owned(),
            value: alertname,
            is_regex: false,
            is_equal: true,
        },
    );
    SilencePayload {
        matchers,
        starts_at,
        ends_at,
        created_by: "Notify App".to_owned(),
        comment: "Silenced via Notify desktop app".to_owned(),
    }
}

/// The silence of all alerts with exactly the given name, from now on for the
/// given number of hours.
pub fn silence_payload(alertname: String, now: &UtcInstant, duration_hours: u64) -> (r:
    SilencePayload)
    requires
        now.valid(),
        now.has_later(signed_hours(duration_hours)),
    ensures
        silences(
            r,
            alertname@,
            rfc3339_text(now.secs, now.nanos),
            rfc3339_text((now.secs + 3600 * signed_hours(duration_hours)) as i64, now.nanos),
        ),
        duration_hours <= i64::MAX ==> r.ends_at@ == rfc3339_text(
            (now.secs + 3600 * duration_hours) as i64,
            now.nanos,
        ),
{
    let ends = now.plus_hours(to_signed(duration_hours));
    silence_between(alertname, now.to_rfc3339(), ends.to_rfc3339())
}

} // verus!
