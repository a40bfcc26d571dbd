//! Points in time, to the nanosecond, within the range of calendar dates that
//! `chrono` represents.

use vstd::prelude::*;

verus! {

/// The first second of the year -262143.
pub const FIRST_SECOND: i64 = -8_334_601_228_800;

/// The last second of the year 262142.
pub const LAST_SECOND: i64 = 8_210_266_876_799;

pub open spec fn in_calendar(secs: int) -> bool {
    FIRST_SECOND <= secs <= LAST_SECOND
}

/// A point in time: seconds since the Unix epoch, and nanoseconds into that second.
#[derive(Clone, Copy, Debug, PartialEq, Eq, Structural)]
pub struct Moment {
    secs: i64,
    nanos: u32,
}

impl Moment {
    #[verifier::type_invariant]
    pub closed spec fn wf(self) -> bool {
        in_calendar(self.secs as int) && self.nanos < 1_000_000_000
    }

    /// Seconds since the Unix epoch, rounded down.
    pub closed spec fn spec_secs(self) -> int {
        self.secs as int
    }

    /// Nanoseconds since the Unix epoch.
    pub closed spec fn nanos_since_epoch(self) -> int {
        self.secs * 1_000_000_000 + self.nanos
    }

    /// The moment `secs` seconds later, with the same fraction of a second.
    pub closed spec fn later_by(self, secs: int) -> Moment {
        Moment { secs: (self.secs + secs) as i64, nanos: self.nanos }
    }

    /// The moment `nanos` nanoseconds into the second `secs`, if it is in the calendar.
    pub fn new(secs: i64, nanos: u32) -> (r: Option<Moment>)
        ensures
            r is Some <==> in_calendar(secs as int) && nanos < 1_000_000_000,
            r matches Some(m) ==> m.spec_secs() == secs && m.nanos_since_epoch() == secs
                * 1_000_000_000 + nanos,
    {
        if FIRST_SECOND <= secs && secs <= LAST_SECOND && nanos < 1_000_000_000 {
            Some(Moment { secs, nanos })
        } else {
            None
        }
    }

    /// Seconds since the Unix epoch, rounded down.
    pub fn secs(self) -> (r: i64)
        ensures
            r == self.spec_secs(),
    {
        self.secs
    }

    /// Nanoseconds into the second that [`Moment::secs`] gives.
    pub fn subsec_nanos(self) -> (r: u32)
        ensures
            r == self.nanos_since_epoch() - self.spec_secs() * 1_000_000_000,
    {
        self.nanos
    }

    /// Whether `self` lies strictly after `other`.
    pub fn is_after(self, other: Moment) -> (r: bool)
        ensures
            r == (self.nanos_since_epoch() > other.nanos_since_epoch()),
    {
        proof {
            use_type_invariant(&self);
            use_type_invariant(&other);
        }
        self.secs > other.secs || (self.secs == other.secs && self.nanos > other.nanos)
    }
}

/// [`Moment::later_by`] adds to the time since the epoch.
pub broadcast proof fn later_by_adds(moment: Moment, secs: int)
    requires
        in_calendar(moment.spec_secs() + secs),
    ensures
        (#[trigger] moment.later_by(secs)).spec_secs() == moment.spec_secs() + secs,
        moment.later_by(secs).nanos_since_epoch() == moment.nanos_since_epoch() + secs
            * 1_000_000_000,
{
}

/// The whole seconds in a span of nanoseconds, rounded towards zero.
pub open spec fn whole_seconds(nanos: int) -> int {
    if nanos < 0 {
        -((-nanos) / 1_000_000_000)
    } else {
        nanos / 1_000_000_000
    }
}

/// `DateTime::signed_duration_since` followed by `TimeDelta::num_seconds`: the
/// whole seconds from `earlier` to `later`, rounded towards zero, and negative
/// when `later` comes first.
#[verifier::external_body]
pub(crate) fn seconds_between(later: Moment, earlier: Moment) -> (r: i64)
    ensures
        r == whole_seconds(later.nanos_since_epoch() - earlier.nanos_since_epoch()),
{
    let to = chrono::DateTime::<chrono::Utc>::from_timestamp(later.secs, later.nanos).unwrap();
    let from = chrono::DateTime::<chrono::Utc>::from_timestamp(earlier.secs, earlier.nanos).unwrap();
    to.signed_duration_since(from).num_seconds()
}

/// `DateTime + TimeDelta::seconds(secs)`: `secs` seconds later, with the same
/// fraction of a second. `chrono` panics when that leaves the calendar.
#[verifier::external_body]
pub(crate) fn plus_seconds(moment: Moment, secs: i64) -> (r: Moment)
    requires
        in_calendar(moment.spec_secs() + secs),
    ensures
        r == moment.later_by(secs as int),
{
    let start = chrono::DateTime::<chrono::Utc>::from_timestamp(moment.secs, moment.nanos).unwrap();
    let end = start + chrono::TimeDelta::seconds(secs);
    Moment { secs: end.timestamp(), nanos: end.timestamp_subsec_nanos() }
}

/// The whole seconds in a span fall short of it by less than a second, towards
/// zero; turned round, the span has as many the other way.
pub proof fn whole_seconds_round_towards_zero(nanos: int)
    ensures
        nanos >= 0 ==> 0 <= whole_seconds(nanos) * 1_000_000_000 <= nanos < (whole_seconds(nanos)
            + 1) * 1_000_000_000,
        whole_seconds(-nanos) == -whole_seconds(nanos),
{
}

} // verus!
