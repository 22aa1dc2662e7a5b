//! Calendar time as plain numbers, and the millisecond clock that record ids
//! are read from.

use vstd::prelude::*;

verus! {

/// The first second that the calendar can name, counted from the epoch:
/// the one that opens the year -262143.
pub const MIN_SECONDS: i64 = -8_334_601_228_800;

/// The last second that the calendar can name, counted from the epoch:
/// the one that closes the year 262142.
pub const MAX_SECONDS: i64 = 8_210_266_876_799;

/// An instant in UTC: whole seconds since 1970-01-01T00:00:00Z and the
/// nanoseconds past that second. During a leap second the nanoseconds run
/// on from 1_000_000_000 to 1_999_999_999.
#[derive(Clone, Copy, Debug, PartialEq, Eq, Structural)]
pub struct Timestamp {
    pub secs: i64,
    pub nanos: u32,
}

/// Whether `secs` and `nanos` name an instant of the calendar: the seconds
/// lie within the calendar's years, and the nanoseconds pass one second only
/// in the last second of a minute, where a leap second may stand. The
/// second within the minute is counted upwards before the epoch too, so the
/// second before the epoch is the 59th of its minute.
pub open spec fn representable(secs: i64, nanos: u32) -> bool {
    &&& MIN_SECONDS <= secs <= MAX_SECONDS
    &&& nanos < 2_000_000_000
    &&& nanos >= 1_000_000_000 ==> secs % 60 == 59
}

/// Milliseconds since the epoch at the instant `secs`, `nanos`.
pub open spec fn epoch_millis(secs: i64, nanos: u32) -> int {
    secs * 1000 + nanos / 1_000_000
}

/// Builds the instant with `chrono::DateTime::from_timestamp` and reads
/// `chrono::DateTime::timestamp_millis` from it. Believed of chrono, not
/// proved: an instant is built exactly for the representable pairs, and its
/// millisecond reading is the seconds times 1000 plus the whole milliseconds
/// held in the nanoseconds.
#[verifier::external_body]
fn chrono_millis(secs: i64, nanos: u32) -> (r: Option<i64>)
    ensures
        r.is_some() <==> representable(secs, nanos),
        r matches Some(ms) ==> ms == epoch_millis(secs, nanos),
{
    match chrono::DateTime::from_timestamp(secs, nanos) {
        Some(instant) => Some(instant.timestamp_millis()),
        None => None,
    }
}

impl Timestamp {
    /// The instants that the calendar can name.
    pub open spec fn wf(&self) -> bool {
        representable(self.secs, self.nanos)
    }

    /// The millisecond reading of a well-formed instant.
    pub open spec fn spec_millis(&self) -> int {
        epoch_millis(self.secs, self.nanos)
    }

    /// The instant `secs`, `nanos`, if the calendar can name it.
    pub fn new(secs: i64, nanos: u32) -> (r: Option<Timestamp>)
        ensures
            r.is_some() <==> representable(secs, nanos),
            r matches Some(t) ==> t.secs == secs && t.nanos == nanos,
    {
        match chrono_millis(secs, nanos) {
            Some(_) => Some(Timestamp { secs, nanos }),
            None => None,
        }
    }

    /// Whether the calendar can name this instant.
    pub fn is_valid(&self) -> (r: bool)
        ensures
            r == self.wf(),
    {
        chrono_millis(self.secs, self.nanos).is_some()
    }

    /// Milliseconds since the epoch, or `None` for an instant that the
    /// calendar cannot name.
    pub fn millis(&self) -> (r: Option<i64>)
        ensures
            r.is_some() <==> self.wf(),
            r matches Some(ms) ==> ms == self.spec_millis(),
    {
        chrono_millis(self.secs, self.nanos)
    }
}

} // verus!
