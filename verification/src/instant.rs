//! Points in time, as the number of seconds since the Unix epoch (UTC) and the
//! nanoseconds within that second.

use chrono::{DateTime, Utc};
use vstd::prelude::*;

verus! {

/// Seconds of the earliest instant that a `chrono::DateTime<Utc>` can hold:
/// the first of January of the year -262143, at midnight.
pub const MIN_SECONDS: i64 = -8_334_601_228_800i64;

/// Seconds of the last second that a `chrono::DateTime<Utc>` can hold: the
/// 31st of December of the year 262142, at 23:59:59.
pub const MAX_SECONDS: i64 = 8_210_266_876_799i64;

/// Nanoseconds in a second.
pub const NANOS_PER_SECOND: u32 = 1_000_000_000u32;

/// Whether `chrono` has an instant for this pair: the seconds lie in its
/// range of dates, and the nanoseconds stay below one second, or below two
/// seconds in the last second of a minute (a leap second).
pub open spec fn representable(secs: int, nanos: int) -> bool {
    &&& MIN_SECONDS <= secs <= MAX_SECONDS
    &&& 0 <= nanos
    &&& (nanos < NANOS_PER_SECOND || (nanos < 2 * NANOS_PER_SECOND && secs % 60 == 59))
}

/// The text that `chrono` prints for the instant `secs`, `nanos` in UTC.
pub uninterp spec fn utc_text(secs: int, nanos: int) -> Seq<char>;

/// Calls `chrono::DateTime::<Utc>::from_timestamp` and then `to_string` on the
/// instant it made. The contract claims that `from_timestamp` succeeds on every
/// representable pair, and names the printed text `utc_text`, which depends on
/// nothing but the pair: the time zone is fixed and no locale is consulted.
#[verifier::external_body]
fn utc_display(secs: i64, nanos: u32) -> (r: String)
    requires
        representable(secs as int, nanos as int),
    ensures
        r@ == utc_text(secs as int, nanos as int),
{
    DateTime::<Utc>::from_timestamp(secs, nanos).unwrap().to_string()
}

/// An instant in UTC.
#[derive(Clone, Copy, Debug, PartialEq, Eq, Structural)]
pub struct Timestamp {
    /// Whole seconds since 1970-01-01 00:00:00 UTC; negative before it.
    pub secs: i64,
    /// Nanoseconds since the start of that second.
    pub nanos: u32,
}

impl Timestamp {
    /// The instant can be printed: `chrono` can hold it.
    pub open spec fn wf(self) -> bool {
        representable(self.secs as int, self.nanos as int)
    }

    /// `self` is not after `other`.
    pub open spec fn at_most(self, other: Timestamp) -> bool {
        self.secs < other.secs || (self.secs == other.secs && self.nanos <= other.nanos)
    }

    /// `self` is strictly after `other`.
    pub open spec fn after(self, other: Timestamp) -> bool {
        !self.at_most(other)
    }

    /// The later of two instants.
    pub open spec fn latest(self, other: Timestamp) -> Timestamp {
        if self.at_most(other) {
            other
        } else {
            self
        }
    }

    /// The earliest well-formed instant.
    pub open spec fn earliest() -> Timestamp {
        Timestamp { secs: MIN_SECONDS, nanos: 0 }
    }

    /// The printed form of the instant.
    pub open spec fn text_spec(self) -> Seq<char> {
        utc_text(self.secs as int, self.nanos as int)
    }

    /// The instant `secs`, `nanos`, where it is representable.
    pub fn new(secs: i64, nanos: u32) -> (r: Option<Timestamp>)
        ensures
            r.is_some() <==> representable(secs as int, nanos as int),
            r matches Some(t) ==> t.secs == secs && t.nanos == nanos && t.wf(),
    {
        let in_range = MIN_SECONDS <= secs && secs <= MAX_SECONDS;
        let leap = nanos < 2 * NANOS_PER_SECOND && Self::minute_ends(secs);
        if in_range && (nanos < NANOS_PER_SECOND || leap) {
            Some(Timestamp { secs, nanos })
        } else {
            None
        }
    }

    /// Whether `secs` is the last second of a minute.
    fn minute_ends(secs: i64) -> (r: bool)
        ensures
            r == (secs as int % 60 == 59),
    {
        if secs >= 0 {
            secs % 60 == 59
        } else {
            // Rust rounds towards zero: -1 is the last second of its minute.
            secs % 60 == -1
        }
    }

    /// The earliest well-formed instant: no well-formed instant lies before it.
    pub fn min() -> (r: Timestamp)
        ensures
            r == Timestamp::earliest(),
            r.wf(),
            forall|t: Timestamp| t.wf() ==> r.at_most(t),
    {
        Timestamp { secs: MIN_SECONDS, nanos: 0 }
    }

    /// Whether `self` is not after `other`.
    pub fn le(&self, other: &Timestamp) -> (r: bool)
        ensures
            r == self.at_most(*other),
    {
        self.secs < other.secs || (self.secs == other.secs && self.nanos <= other.nanos)
    }

    /// The later of the two instants.
    pub fn max(self, other: Timestamp) -> (r: Timestamp)
        ensures
            r == self.latest(other),
    {
        if self.le(&other) {
            other
        } else {
            self
        }
    }

    /// The instant as text, in the form `2015-05-15 00:00:00 UTC`, with the
    /// fraction of the second where there is one.
    pub fn text(&self) -> (r: String)
        requires
            self.wf(),
        ensures
            r@ == self.text_spec(),
    {
        utc_display(self.secs, self.nanos)
    }
}

/// The order of instants is total and transitive, and two instants that are
/// each not after the other are the same instant.
pub proof fn lemma_instant_order(a: Timestamp, b: Timestamp, c: Timestamp)
    ensures
        a.at_most(a),
        a.at_most(b) || b.at_most(a),
        a.at_most(b) && b.at_most(c) ==> a.at_most(c),
        a.at_most(b) && b.at_most(a) ==> a == b,
        a.latest(b) == b.latest(a),
        a.latest(b).latest(c) == a.latest(b.latest(c)),
{
}

} // verus!
