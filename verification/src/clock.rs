//! Points in time, counted in UTC from the start of 1970.

use vstd::prelude::*;

verus! {

/// The first second that a date can have (-262143-01-01 00:00:00).
pub const FIRST_SECOND: i64 = -8_334_601_228_800;

/// The last second that a date can have (262142-12-31 23:59:59).
pub const LAST_SECOND: i64 = 8_210_266_876_799;

/// A point in time: whole seconds since 1970-01-01 00:00:00 UTC and the
/// nanoseconds within the second.
#[derive(Debug, Clone, Copy, PartialEq, Eq, Structural)]
pub struct Timestamp {
    pub secs: i64,
    pub nanos: u32,
}

impl Timestamp {
    /// A date that the calendar has, and no leap second.
    pub open spec fn valid(self) -> bool {
        FIRST_SECOND <= self.secs <= LAST_SECOND && self.nanos < 1_000_000_000
    }

    /// `self` is at `other` or before it.
    pub open spec fn at_or_before(self, other: Timestamp) -> bool {
        self.secs < other.secs || (self.secs == other.secs && self.nanos <= other.nanos)
    }

    /// A time that the system clock has shown. What makes it one is not told
    /// outside this module, so nothing there is known to be one but what `now`
    /// gave.
    pub closed spec fn shown_by_clock(self) -> bool {
        self.valid() && self.secs >= 0
    }

    pub fn is_at_or_before(&self, other: &Timestamp) -> (r: bool)
        ensures
            r == self.at_or_before(*other),
    {
        self.secs < other.secs || (self.secs == other.secs && self.nanos <= other.nanos)
    }
}

/// `chrono::Utc::now`: the current time. Any date from 1970 on may come back;
/// chrono gives up on a host whose clock is set before that.
#[verifier::external_body]
pub(crate) fn now() -> (t: Timestamp)
    ensures
        t.valid(),
        t.secs >= 0,
        t.shown_by_clock(),
{
    let t = chrono::Utc::now();
    Timestamp { secs: t.timestamp(), nanos: t.timestamp_subsec_nanos() }
}

/// `chrono::DateTime<Utc> + chrono::TimeDelta` for a whole number of seconds:
/// the seconds add up and the nanoseconds stay. The sum panics past the ends
/// of the calendar, which `requires` leaves out.
#[verifier::external_body]
fn plus_seconds(t: Timestamp, secs: i64) -> (r: Timestamp)
    requires
        t.valid(),
        FIRST_SECOND <= t.secs + secs <= LAST_SECOND,
    ensures
        r.secs == t.secs + secs,
        r.nanos == t.nanos,
{
    let d = chrono::DateTime::<chrono::Utc>::from_timestamp(t.secs, t.nanos).unwrap()
        + chrono::Duration::seconds(secs);
    Timestamp { secs: d.timestamp(), nanos: d.timestamp_subsec_nanos() }
}

/// `n` read as a signed 64-bit number in two's complement.
pub open spec fn as_signed(n: u64) -> int {
    if n <= i64::MAX {
        n as int
    } else {
        n - 0x1_0000_0000_0000_0000
    }
}

fn to_signed(n: u64) -> (r: i64)
    ensures
        r == as_signed(n),
{
    if n <= 0x7fff_ffff_ffff_ffff {
        n as i64
    } else {
        let below: u64 = 0xffff_ffff_ffff_ffff - n;
        -(below as i64) - 1
    }
}

/// `ttl` seconds after `t` is a date that the calendar has.
pub open spec fn expiry_fits(t: Timestamp, ttl: u64) -> bool {
    FIRST_SECOND <= t.secs + as_signed(ttl) <= LAST_SECOND
}

pub fn expiry_in_range(t: Timestamp, ttl: u64) -> (r: bool)
    ensures
        r == expiry_fits(t, ttl),
{
    let s: i128 = t.secs as i128 + to_signed(ttl) as i128;
    FIRST_SECOND as i128 <= s && s <= LAST_SECOND as i128
}

/// The point in time `ttl` seconds after `t`.
pub open spec fn expiry(t: Timestamp, ttl: u64) -> Timestamp {
    Timestamp { secs: (t.secs + as_signed(ttl)) as i64, nanos: t.nanos }
}

/// When something started at `t` with `ttl` seconds to live expires. The
/// seconds are taken as a signed number: above `i64::MAX` they point into the
/// past.
pub fn expiry_after(t: Timestamp, ttl: u64) -> (r: Timestamp)
    requires
        t.valid(),
        expiry_fits(t, ttl),
    ensures
        r == expiry(t, ttl),
        r.valid(),
{
    plus_seconds(t, to_signed(ttl))
}

// ------------------------------------------------------------------------ laws

/// What the clock shows is a date from 1970 on.
pub proof fn the_clock_shows_dates(t: Timestamp)
    requires
        t.shown_by_clock(),
    ensures
        t.valid(),
        t.secs >= 0,
{
}

/// Points in time are ordered by the nanoseconds that have passed.
pub proof fn time_is_ordered_by_nanoseconds(a: Timestamp, b: Timestamp)
    requires
        a.nanos < 1_000_000_000,
        b.nanos < 1_000_000_000,
    ensures
        a.at_or_before(b) <==> a.secs * 1_000_000_000 + a.nanos <= b.secs * 1_000_000_000 + b.nanos,
{
}

/// What lives for a number of seconds that a signed number holds expires exactly
/// so many seconds after it started, if the calendar has that date. A greater
/// number lies that much further in the past as it is too great.
pub proof fn an_expiry_is_so_many_seconds_later(t: Timestamp, ttl: u64)
    requires
        t.valid(),
    ensures
        ttl <= 0x7fff_ffff_ffff_ffff ==> {
            &&& expiry_fits(t, ttl) <==> t.secs + ttl <= 8_210_266_876_799
            &&& expiry_fits(t, ttl) ==> expiry(t, ttl).secs == t.secs + ttl
        },
        ttl > 0x7fff_ffff_ffff_ffff ==> {
            &&& expiry_fits(t, ttl) <==> t.secs + ttl - 0x1_0000_0000_0000_0000
                >= -8_334_601_228_800
            &&& expiry_fits(t, ttl) ==> expiry(t, ttl).secs == t.secs + ttl
                - 0x1_0000_0000_0000_0000
        },
        expiry(t, ttl).nanos == t.nanos,
{
}

} // verus!
