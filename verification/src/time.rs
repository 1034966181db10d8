//! Points in time (UTC), their display, and the timeout rule.

use vstd::prelude::*;
use crate::text::opt_text;
use std::fmt::Write;

verus! {

/// The text `chrono` writes for a UTC instant with the format `fmt`, or
/// `None` when `chrono::DateTime::from_timestamp` refuses the instant or the
/// format cannot be written.
pub uninterp spec fn spec_utc_format(secs: i64, nanos: u32, fmt: Seq<char>) -> Option<Seq<char>>;

/// Writes an instant with `chrono::DateTime::from_timestamp` and `format(fmt)`.
/// Trusted: the result equals `spec_utc_format` of the arguments.
#[verifier::external_body]
fn utc_format(secs: i64, nanos: u32, fmt: &str) -> (r: Option<String>)
    ensures
        opt_text(r) == spec_utc_format(secs, nanos, fmt@),
{
    let t = chrono::DateTime::from_timestamp(secs, nanos)?;
    let mut s = String::new();
    match write!(s, "{}", t.format(fmt)) {
        Ok(()) => Some(s),
        Err(_) => None,
    }
}

/// How instants are shown: date and time to the second.
pub const TIME_FORMAT: &'static str = "%Y-%m-%d %H:%M:%S";

/// The displayed text of an instant (see `TIME_FORMAT`), if chrono can show it.
pub open spec fn spec_utc_text(secs: i64, nanos: u32) -> Option<Seq<char>> {
    spec_utc_format(secs, nanos, TIME_FORMAT@)
}

/// Nanoseconds in a second.
pub const NANOS_PER_SEC: u32 = 1_000_000_000;

/// An instant in UTC: whole seconds since the Unix epoch and the nanoseconds
/// past them. Only instants that chrono can represent, without leap seconds.
#[derive(Clone, Copy, Debug, PartialEq, Eq)]
pub struct Timestamp {
    secs: i64,
    nanos: u32,
}

/// The plain contents of an instant.
pub struct TimestampView {
    pub secs: i64,
    pub nanos: u32,
}

impl View for Timestamp {
    type V = TimestampView;

    closed spec fn view(&self) -> TimestampView {
        TimestampView { secs: self.secs, nanos: self.nanos }
    }
}

/// An instant in nanoseconds since the epoch.
pub open spec fn total_nanos(t: TimestampView) -> int {
    t.secs * 1_000_000_000 + t.nanos
}

/// Whether the seconds and nanoseconds make an instant.
pub open spec fn valid_instant(secs: i64, nanos: u32) -> bool {
    nanos < NANOS_PER_SEC && spec_utc_text(secs, nanos) is Some
}

/// Whole seconds of a signed span of nanoseconds, rounded toward zero.
pub open spec fn whole_seconds(ns: int) -> int {
    if ns >= 0 { ns / 1_000_000_000 } else { -((-ns) / 1_000_000_000) }
}

impl Timestamp {
    #[verifier::type_invariant]
    spec fn inv(self) -> bool {
        valid_instant(self.secs, self.nanos)
    }

    /// The instant `secs` seconds and `nanos` nanoseconds after the epoch;
    /// `None` when it is not one (see `valid_instant`).
    pub fn new(secs: i64, nanos: u32) -> (r: Option<Timestamp>)
        ensures
            valid_instant(secs, nanos) <==> r is Some,
            r matches Some(t) ==> t@ == (TimestampView { secs, nanos }),
    {
        if nanos >= NANOS_PER_SEC {
            return None;
        }
        match utc_format(secs, nanos, TIME_FORMAT) {
            Some(_) => Some(Timestamp { secs, nanos }),
            None => None,
        }
    }

    /// Seconds since the epoch.
    pub fn secs(&self) -> (s: i64)
        ensures
            s == self@.secs,
    {
        self.secs
    }

    /// Nanoseconds past the second.
    pub fn nanos(&self) -> (n: u32)
        ensures
            n == self@.nanos,
    {
        self.nanos
    }

    /// The instant as `YYYY-MM-DD HH:MM:SS`.
    pub fn text(&self) -> (s: String)
        ensures
            spec_utc_text(self@.secs, self@.nanos) == Some(s@),
    {
        proof { use_type_invariant(self); }
        match utc_format(self.secs, self.nanos, TIME_FORMAT) {
            Some(s) => s,
            None => String::new(),
        }
    }

    /// Whole seconds from `earlier` to `self`, rounded toward zero (negative
    /// when `earlier` is later).
    pub fn seconds_since(&self, earlier: &Timestamp) -> (d: i128)
        ensures
            d == whole_seconds(total_nanos(self@) - total_nanos(earlier@)),
    {
        proof {
            use_type_invariant(self);
            use_type_invariant(earlier);
        }
        let a: i128 = self.secs as i128 * 1_000_000_000 + self.nanos as i128;
        let b: i128 = earlier.secs as i128 * 1_000_000_000 + earlier.nanos as i128;
        let ns: i128 = a - b;
        if ns >= 0 {
            ((ns as u128) / 1_000_000_000) as i128
        } else {
            -(((-ns) as u128 / 1_000_000_000) as i128)
        }
    }
}

/// A sandbox created at `created` with a timeout of `timeout_secs` seconds has
/// run out at `now` when more whole seconds than the timeout have passed (the
/// timeout read as a signed 64-bit number of seconds).
pub open spec fn spec_timed_out(created: TimestampView, now: TimestampView, timeout_secs: u64) -> bool {
    whole_seconds(total_nanos(now) - total_nanos(created)) > (timeout_secs as i64) as int
}

/// Whether a sandbox has run out of time.
pub fn timed_out(created: &Timestamp, now: &Timestamp, timeout_secs: u64) -> (b: bool)
    ensures
        b == spec_timed_out(created@, now@, timeout_secs),
{
    let elapsed = now.seconds_since(created);
    elapsed > (timeout_secs as i64) as i128
}

} // verus!
