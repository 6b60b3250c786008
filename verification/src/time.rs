//! Points in time.
use crate::order::{self, Comparison};
use vstd::prelude::*;
use vstd::string::*;

verus! {

/// Nanoseconds in a second.
pub const NANOS_PER_SECOND: u32 = 1_000_000_000;

/// A point in time: `nanos` nanoseconds after the second `secs`, counted from
/// 1970-01-01 00:00:00 UTC.
#[derive(Clone, Copy, Debug, PartialEq, Eq, Structural, Hash)]
pub struct Timestamp {
    pub secs: i64,
    pub nanos: u32,
}

/// A point in time lies before 1970-01-01 00:00:00 UTC.
#[derive(Clone, Copy, Debug, PartialEq, Eq, Structural)]
pub struct BeforeEpoch;

impl BeforeEpoch {
    /// The error in words.
    pub fn message(&self) -> (result: String)
        ensures
            result@ == "SystemTime before UNIX EPOCH"@,
    {
        "SystemTime before UNIX EPOCH".to_owned()
    }
}

impl Timestamp {
    /// The nanoseconds are less than a second.
    pub open spec fn valid(self) -> bool {
        self.nanos < NANOS_PER_SECOND
    }

    /// The nanoseconds since 1970-01-01 00:00:00 UTC.
    pub open spec fn nanos_since_epoch(self) -> int {
        self.secs * NANOS_PER_SECOND + self.nanos
    }

    /// The second in which the point lies, as a point in time.
    pub open spec fn whole_second(self) -> Timestamp {
        Timestamp { secs: self.secs, nanos: 0 }
    }

    /// How this point stands to another: earlier ones are less.
    pub fn compare(self, other: Timestamp) -> (result: Comparison)
        ensures
            result == time_order(self, other),
    {
        if self.secs < other.secs {
            Comparison::Less
        } else if self.secs > other.secs {
            Comparison::Greater
        } else if self.nanos < other.nanos {
            Comparison::Less
        } else if self.nanos > other.nanos {
            Comparison::Greater
        } else {
            Comparison::Equal
        }
    }
}

/// The order of points in time: by second, then by nanosecond.
pub open spec fn time_order(a: Timestamp, b: Timestamp) -> Comparison {
    order::int_order(a.secs as int, b.secs as int).or_else(
        order::int_order(a.nanos as int, b.nanos as int),
    )
}

/// Of valid points in time, the order compares the nanoseconds since
/// 1970-01-01 00:00:00 UTC.
pub proof fn time_order_is_chronological(a: Timestamp, b: Timestamp)
    requires
        a.valid(),
        b.valid(),
    ensures
        time_order(a, b) == order::int_order(a.nanos_since_epoch(), b.nanos_since_epoch()),
{
}

/// Drops the part of a second. Fails for a point before 1970-01-01 00:00:00 UTC.
pub fn truncate_to_seconds(time: Timestamp) -> (result: Result<Timestamp, BeforeEpoch>)
    ensures
        result == (if time.secs < 0 {
            Err::<Timestamp, BeforeEpoch>(BeforeEpoch)
        } else {
            Ok(time.whole_second())
        }),
{
    if time.secs < 0 {
        Err(BeforeEpoch)
    } else {
        Ok(Timestamp { secs: time.secs, nanos: 0 })
    }
}

/// Dropping the part of a second from a valid point in time gives a point no
/// later than it, less than a second earlier, at which a second starts; dropping
/// it again changes nothing.
pub proof fn whole_second_is_nearest_below(time: Timestamp)
    requires
        time.valid(),
    ensures
        time.whole_second().valid(),
        time.whole_second().nanos_since_epoch() % (NANOS_PER_SECOND as int) == 0,
        time.whole_second().nanos_since_epoch() <= time.nanos_since_epoch(),
        time.nanos_since_epoch() < time.whole_second().nanos_since_epoch() + NANOS_PER_SECOND,
        time.whole_second().whole_second() == time.whole_second(),
{
}

} // verus!
