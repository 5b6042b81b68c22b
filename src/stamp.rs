use chrono::Offset;
use vstd::prelude::*;

verus! {

/// A moment in time as seconds and nanoseconds since the Unix epoch (UTC), together
/// with the UTC offset, in seconds east, of the zone it was taken in.
#[derive(Clone, Copy, Debug, PartialEq, Eq, Structural)]
pub struct Timestamp {
    pub secs: i64,
    pub nanos: u32,
    pub offset: i32,
}

/// `a` is not later than `b` (the zone offset plays no part).
pub open spec fn stamp_le(a: Timestamp, b: Timestamp) -> bool {
    a.secs < b.secs || (a.secs == b.secs && a.nanos <= b.nanos)
}

/// The text chrono gives for the moment in its zone, as `%m/%d/%Y %H:%M:%S`.
pub uninterp spec fn stamp_format(secs: i64, nanos: u32, offset: i32) -> Seq<char>;

impl Timestamp {
    /// Whether this moment is not later than `other`.
    pub fn not_after(&self, other: &Timestamp) -> (r: bool)
        ensures
            r == stamp_le(*self, *other),
    {
        self.secs < other.secs || (self.secs == other.secs && self.nanos <= other.nanos)
    }

    /// Month/day/year hour:minute:second of this moment in its own zone.
    pub fn display(&self) -> (r: String)
        ensures
            r@ == stamp_format(self.secs, self.nanos, self.offset),
    {
        format_stamp(self.secs, self.nanos, self.offset)
    }
}

/// Relies on chrono's `Local::now`: the current time and the local UTC offset.
#[verifier::external_body]
pub(crate) fn now() -> (r: Timestamp) {
    let t = chrono::Local::now();
    Timestamp { secs: t.timestamp(), nanos: t.timestamp_subsec_nanos(), offset: t.offset().local_minus_utc() }
}

/// Relies on chrono's `DateTime::from_timestamp`, `FixedOffset::east_opt` and
/// `format("%m/%d/%Y %H:%M:%S")`; out-of-range values fall back to the epoch and UTC.
#[verifier::external_body]
fn format_stamp(secs: i64, nanos: u32, offset: i32) -> (r: String)
    ensures
        r@ == stamp_format(secs, nanos, offset),
{
    let utc = chrono::DateTime::from_timestamp(secs, nanos).unwrap_or_default();
    let zone = chrono::FixedOffset::east_opt(offset).unwrap_or(chrono::Utc.fix());
    utc.with_timezone(&zone).format("%m/%d/%Y %H:%M:%S").to_string()
}

} // verus!
