//! Moments in time, as the tracker records them.

use vstd::prelude::*;

verus! {

/// A moment in UTC: the whole seconds since 1970-01-01 00:00:00, and the
/// nanoseconds that have passed since that second began.
#[derive(Clone, Copy, Debug, PartialEq, Eq, Structural)]
pub struct Timestamp {
    pub secs: i64,
    pub nanos: u32,
}

impl Timestamp {
    /// `self` is not later than `other`: seconds decide, nanoseconds break
    /// the tie.
    pub open spec fn le(self, other: Timestamp) -> bool {
        self.secs < other.secs || (self.secs == other.secs && self.nanos <= other.nanos)
    }

    /// The moment `nanos` nanoseconds after the second `secs`.
    pub fn new(secs: i64, nanos: u32) -> (t: Timestamp)
        ensures
            t == (Timestamp { secs, nanos }),
    {
        Timestamp { secs, nanos }
    }

    /// Whether `self` is not later than `other`.
    pub fn is_le(&self, other: &Timestamp) -> (r: bool)
        ensures
            r == self.le(*other),
    {
        self.secs < other.secs || (self.secs == other.secs && self.nanos <= other.nanos)
    }
}

/// Reads the system clock with `chrono::Utc::now` and keeps what
/// `DateTime::timestamp` and `DateTime::timestamp_subsec_nanos` report of it.
///
/// Nothing is claimed of the moment that comes back: it depends on the clock
/// alone, and two readings need not even be in order. `Utc::now` panics where
/// the clock is set before 1970.
#[verifier::external_body]
pub(crate) fn current_time() -> Timestamp {
    let now = chrono::Utc::now();
    Timestamp { secs: now.timestamp(), nanos: now.timestamp_subsec_nanos() }
}

/// The text that chrono shows for the moment `nanos` nanoseconds after the
/// second `secs`, or `None` where chrono does not hold such a moment.
pub uninterp spec fn moment_text(secs: i64, nanos: u32) -> Option<Seq<char>>;

/// Renders a moment with chrono: `DateTime::from_timestamp` makes the moment
/// from the seconds and nanoseconds, and `to_string`, which goes through the
/// `Display` of `DateTime<Utc>`, gives its text: the date, the time of day
/// and the letters `UTC`.
///
/// The text depends on the two numbers alone, and `moment_text` is the name
/// for it. It is `None` exactly where `from_timestamp` gives `None`: where
/// the seconds are out of the range of dates that chrono holds, or the
/// nanoseconds are not those of a second or of a leap second.
#[verifier::external_body]
pub(crate) fn show_moment(secs: i64, nanos: u32) -> (text: Option<String>)
    ensures
        match text {
            Some(t) => moment_text(secs, nanos) == Some(t@),
            None => moment_text(secs, nanos) is None,
        },
{
    match chrono::DateTime::from_timestamp(secs, nanos) {
        Some(moment) => Some(moment.to_string()),
        None => None,
    }
}

} // verus!
