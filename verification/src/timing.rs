//! Millisecond time keeping for the embedded build: durations, instants and
//! the tick counter that the main loop advances.

use vstd::prelude::*;

verus! {

/// A span of time in whole milliseconds.
#[derive(Clone, Copy, Debug, PartialEq, Eq, PartialOrd, Ord, Structural)]
pub struct Duration(pub u64);

/// A point in time: milliseconds since the counter started.
#[derive(Clone, Copy, Debug, PartialEq, Eq, PartialOrd, Ord, Structural)]
pub struct Instant(pub u64);

pub open spec fn saturating(v: int) -> u64 {
    if v > u64::MAX {
        u64::MAX
    } else if v < 0 {
        0
    } else {
        v as u64
    }
}

impl Duration {
    /// `secs` seconds, saturating at the largest representable span.
    pub fn from_secs(secs: u64) -> (r: Self)
        ensures
            r.0 == saturating(secs * 1000),
    {
        match secs.checked_mul(1000) {
            Some(ms) => Duration(ms),
            None => Duration(u64::MAX),
        }
    }

    pub fn from_millis(ms: u64) -> (r: Self)
        ensures
            r.0 == ms,
    {
        Duration(ms)
    }

    pub fn as_millis(&self) -> (r: u64)
        ensures
            r == self.0,
    {
        self.0
    }

    /// Whether `self` is shorter than `other`.
    pub fn shorter_than(&self, other: &Duration) -> (r: bool)
        ensures
            r == (self.0 < other.0),
    {
        self.0 < other.0
    }
}

impl Instant {
    /// Time elapsed from `earlier` to `self`, zero if `earlier` is later.
    pub fn duration_since(&self, earlier: Instant) -> (r: Duration)
        ensures
            r.0 == saturating(self.0 - earlier.0),
    {
        Duration(self.0.saturating_sub(earlier.0))
    }

    /// `self` moved back by `rhs`, stopping at the counter's start.
    pub fn sub(self, rhs: Duration) -> (r: Instant)
        ensures
            r.0 == saturating(self.0 - rhs.0),
    {
        Instant(self.0.saturating_sub(rhs.0))
    }
}

/// The millisecond counter that `Instant::now` reads on the embedded build.
pub struct TickCounter {
    ms: u64,
}

impl TickCounter {
    pub closed spec fn millis(&self) -> u64 {
        self.ms
    }

    pub fn new() -> (r: Self)
        ensures
            r.millis() == 0,
    {
        TickCounter { ms: 0 }
    }

    /// Advances the counter by `ms`, saturating at its maximum.
    pub fn advance_ms(&mut self, ms: u64)
        ensures
            final(self).millis() == saturating(old(self).millis() + ms),
    {
        self.ms = self.ms.saturating_add(ms);
    }

    /// The current instant.
    pub fn now(&self) -> (r: Instant)
        ensures
            r.0 == self.millis(),
    {
        Instant(self.ms)
    }
}

/// Law: the counter never runs backwards.
pub proof fn lemma_advance_monotonic(before: u64, ms: u64)
    ensures
        saturating(before + ms) >= before,
{
}

/// Law: going back by `d` and measuring the time since then gives at most
/// `d`, and exactly `d` when the counter had run that long.
pub proof fn lemma_sub_then_since(now: Instant, d: Duration)
    ensures
        saturating(now.0 - saturating(now.0 - d.0)) <= d.0,
        d.0 <= now.0 ==> saturating(now.0 - saturating(now.0 - d.0)) == d.0,
{
}

/// Law: seconds convert to a thousand times as many milliseconds while that
/// fits.
pub proof fn lemma_from_secs_millis(secs: u64)
    ensures
        secs * 1000 <= u64::MAX ==> saturating(secs * 1000) == secs * 1000,
{
}

} // verus!
