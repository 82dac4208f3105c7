//! Points in time and spans of time, counted in ticks of the system clock.
use vstd::prelude::*;

verus! {

/// Ticks of the system clock in one second.
pub const TICK_HZ: u64 = 1_000_000;

/// A point in time, in ticks since boot.
#[derive(Copy, Clone, Debug, PartialEq, Eq, PartialOrd, Ord, Structural)]
pub struct Instant {
    pub ticks: u64,
}

/// A span of time, in ticks.
#[derive(Copy, Clone, Debug, PartialEq, Eq, PartialOrd, Ord, Structural)]
pub struct Duration {
    pub ticks: u64,
}

/// `embassy_time::Instant::now`: the clock's current reading. Nothing is claimed of it.
#[verifier::external_body]
fn clock_ticks() -> (ticks: u64) {
    embassy_time::Instant::now().as_ticks()
}

/// `embassy_time::Instant + embassy_time::Duration`: the sum of the ticks. The addition
/// panics where the sum leaves `u64`, so such operands are left out.
#[verifier::external_body]
fn add_ticks(instant: u64, duration: u64) -> (sum: u64)
    requires
        instant + duration <= u64::MAX,
    ensures
        sum == instant + duration,
{
    let instant = embassy_time::Instant::from_ticks(instant);
    (instant + embassy_time::Duration::from_ticks(duration)).as_ticks()
}

/// `embassy_time::Instant::saturating_duration_since`: the ticks from `earlier` to `later`,
/// and zero where `later` comes first.
#[verifier::external_body]
fn ticks_since(later: u64, earlier: u64) -> (elapsed: u64)
    ensures
        elapsed == if later < earlier {
            0
        } else {
            later - earlier
        },
{
    let later = embassy_time::Instant::from_ticks(later);
    later.saturating_duration_since(embassy_time::Instant::from_ticks(earlier)).as_ticks()
}

/// `embassy_time::Duration::as_secs`: the whole seconds in a span of ticks.
#[verifier::external_body]
fn whole_secs(ticks: u64) -> (secs: u64)
    ensures
        secs == ticks / TICK_HZ,
{
    embassy_time::Duration::from_ticks(ticks).as_secs()
}

/// `embassy_time::Duration::from_secs`: the ticks in a number of seconds. The product
/// overflows where it leaves `u64`, so such numbers are left out.
#[verifier::external_body]
fn secs_to_ticks(secs: u64) -> (ticks: u64)
    requires
        secs * TICK_HZ <= u64::MAX,
    ensures
        ticks == secs * TICK_HZ,
{
    embassy_time::Duration::from_secs(secs).as_ticks()
}

impl Instant {
    /// The current time. Two readings are not related here.
    pub fn now() -> (r: Instant) {
        Instant { ticks: clock_ticks() }
    }

    pub fn from_ticks(ticks: u64) -> (r: Instant)
        ensures
            r.ticks == ticks,
    {
        Instant { ticks }
    }

    /// The instant `duration` after this one.
    pub fn plus(self, duration: Duration) -> (r: Instant)
        requires
            self.ticks + duration.ticks <= u64::MAX,
        ensures
            r.ticks == self.ticks + duration.ticks,
    {
        Instant { ticks: add_ticks(self.ticks, duration.ticks) }
    }

    /// What `saturating_duration_since` returns.
    pub open spec fn since(self, earlier: Instant) -> Duration {
        Duration {
            ticks: if self.ticks < earlier.ticks {
                0
            } else {
                (self.ticks - earlier.ticks) as u64
            },
        }
    }

    /// The time from `earlier` to this instant; zero where `earlier` is the later one.
    pub fn saturating_duration_since(self, earlier: Instant) -> (r: Duration)
        ensures
            r == self.since(earlier),
    {
        Duration { ticks: ticks_since(self.ticks, earlier.ticks) }
    }
}

impl Duration {
    pub fn from_ticks(ticks: u64) -> (r: Duration)
        ensures
            r.ticks == ticks,
    {
        Duration { ticks }
    }

    pub fn from_secs(secs: u64) -> (r: Duration)
        requires
            secs * TICK_HZ <= u64::MAX,
        ensures
            r.ticks == secs * TICK_HZ,
    {
        Duration { ticks: secs_to_ticks(secs) }
    }

    /// Whole seconds, rounded down.
    pub fn as_secs(self) -> (r: u64)
        ensures
            r == self.ticks / TICK_HZ,
    {
        whole_secs(self.ticks)
    }
}

/// The time since an earlier instant is what separates the two; since a later one it is zero.
pub proof fn law_time_between(later: Instant, earlier: Instant, r: Duration)
    requires
        call_ensures(Instant::saturating_duration_since, (later, earlier), r),
    ensures
        earlier.ticks <= later.ticks ==> earlier.ticks + r.ticks == later.ticks,
        earlier.ticks > later.ticks ==> r.ticks == 0,
{
}

/// A second has a million ticks, and a part of a second does not count.
pub proof fn law_seconds_are_whole(secs: u64, span: Duration, r: u64)
    requires
        call_ensures(Duration::from_secs, (secs,), span),
        call_ensures(Duration::as_secs, (span,), r),
    ensures
        span.ticks == secs * 1_000_000,
        r == secs,
{
    vstd::arithmetic::div_mod::lemma_div_by_multiple(secs as int, 1_000_000);
}

/// Counted in whole seconds, a span lasts that long and less than a second longer.
pub proof fn law_seconds_are_rounded_down(span: Duration, r: u64)
    requires
        call_ensures(Duration::as_secs, (span,), r),
    ensures
        r * 1_000_000 <= span.ticks < (r + 1) * 1_000_000,
{
}

} // verus!
