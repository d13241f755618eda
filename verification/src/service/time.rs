//! Instants as the store and the messages carry them.

use vstd::prelude::*;

verus! {

/// Whether `chrono` has an instant with these seconds and nanoseconds: whether
/// `chrono::DateTime::from_timestamp` gives one for them.
pub uninterp spec fn chrono_has(secs: i64, nanos: u32) -> bool;

/// An instant in UTC: whole seconds since 1970-01-01T00:00:00Z, not counting leap
/// seconds, and the nanoseconds past that second. A leap second is written as in
/// `chrono`, with a billion or more nanoseconds on a second whose number ends a minute.
#[derive(Clone, Copy, Debug, PartialEq, Eq, Structural, Hash)]
pub struct Timestamp {
    pub secs: i64,
    pub nanos: u32,
}

impl Timestamp {
    /// The instant 1970-01-01T00:00:00Z.
    pub open spec fn epoch() -> Timestamp {
        Timestamp { secs: 0, nanos: 0 }
    }

    /// The second of the day in which the instant lies.
    pub open spec fn second_of_day(self) -> int {
        self.secs as int % 86_400
    }

    /// The nanoseconds from `earlier` to this instant as `chrono` takes them: the
    /// seconds and nanoseconds of the one less those of the other, and one second more
    /// where `earlier` lies in a leap second and this instant in a later second of the
    /// day, one second less where this instant lies in a leap second and `earlier` in a
    /// later second of the day.
    pub open spec fn spec_since(self, earlier: Timestamp) -> int {
        let leap: int = if self.second_of_day() > earlier.second_of_day() && earlier.nanos
            >= 1_000_000_000 {
            1
        } else if self.second_of_day() < earlier.second_of_day() && self.nanos >= 1_000_000_000 {
            -1
        } else {
            0
        };
        (self.secs - earlier.secs + leap) * 1_000_000_000 + (self.nanos - earlier.nanos)
    }

    /// Whether both are instants that `chrono` has and this one lies at most `seconds`
    /// after `earlier`; an instant before `earlier` does.
    pub open spec fn spec_within(self, earlier: Timestamp, seconds: u32) -> bool {
        &&& chrono_has(self.secs, self.nanos)
        &&& chrono_has(earlier.secs, earlier.nanos)
        &&& self.spec_since(earlier) <= seconds * 1_000_000_000
    }

    /// Whether this instant comes before `other`: by the second, then by the nanoseconds.
    pub open spec fn spec_before(self, other: Timestamp) -> bool {
        self.secs < other.secs || (self.secs == other.secs && self.nanos < other.nanos)
    }

    pub fn new(secs: i64, nanos: u32) -> (t: Timestamp)
        ensures
            t == (Timestamp { secs, nanos }),
    {
        Timestamp { secs, nanos }
    }

    pub fn unix_epoch() -> (t: Timestamp)
        ensures
            t == Timestamp::epoch(),
    {
        Timestamp { secs: 0, nanos: 0 }
    }

    pub fn before(&self, other: &Timestamp) -> (b: bool)
        ensures
            b == self.spec_before(*other),
    {
        self.secs < other.secs || (self.secs == other.secs && self.nanos < other.nanos)
    }

    /// Whether this instant lies at most `seconds` after `earlier`, by the difference
    /// that `chrono` takes of the two. Where `chrono` has no instant for one of them,
    /// it does not.
    pub fn within(&self, earlier: &Timestamp, seconds: u32) -> (b: bool)
        ensures
            b == self.spec_within(*earlier, seconds),
    {
        match elapsed(*self, *earlier) {
            Some((secs, nanos)) => {
                let gap: i128 = (secs as i128) * 1_000_000_000 + (nanos as i128);
                gap <= (seconds as i128) * 1_000_000_000
            },
            None => false,
        }
    }
}

/// `chrono::DateTime::signed_duration_since` on the two instants, each made by
/// `chrono::DateTime::from_timestamp`, the difference read through `num_seconds` and
/// `subsec_nanos`, which add up to it. The source takes the difference of the dates and
/// that of the times of day, and counts a leap second in which one of the two lies when
/// the other lies in another second of the day on the far side of it.
#[verifier::external_body]
fn elapsed(later: Timestamp, earlier: Timestamp) -> (gap: Option<(i64, i32)>)
    ensures
        match gap {
            Some((secs, nanos)) => chrono_has(later.secs, later.nanos) && chrono_has(
                earlier.secs,
                earlier.nanos,
            ) && secs * 1_000_000_000 + nanos == later.spec_since(earlier) && -1_000_000_000
                < nanos < 1_000_000_000,
            None => !(chrono_has(later.secs, later.nanos) && chrono_has(
                earlier.secs,
                earlier.nanos,
            )),
        },
{
    let later = chrono::DateTime::from_timestamp(later.secs, later.nanos)?;
    let earlier = chrono::DateTime::from_timestamp(earlier.secs, earlier.nanos)?;
    let gap = later.signed_duration_since(earlier);
    Some((gap.num_seconds(), gap.subsec_nanos()))
}

/// `chrono::Utc::now`, read as seconds and nanoseconds since the epoch. The clock decides
/// the value; the source only shows that it is taken from a duration since the epoch, so
/// the seconds are not negative and the nanoseconds stay under a billion.
#[verifier::external_body]
pub(crate) fn now() -> (t: Timestamp)
    ensures
        t.secs >= 0,
        t.nanos < 1_000_000_000,
{
    let reading = chrono::Utc::now();
    Timestamp { secs: reading.timestamp(), nanos: reading.timestamp_subsec_nanos() }
}

} // verus!
