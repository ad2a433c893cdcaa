//! Exact time arithmetic in whole nanoseconds.

use vstd::prelude::*;

verus! {

/// Number of nanoseconds in one second.
pub const NANOS_PER_SEC: u128 = 1_000_000_000;

/// A non-negative length of time, counted in nanoseconds.
///
/// One type serves for wall-clock timestamps (time since the epoch), for
/// readings of a monotonic clock and for the intervals between two of either.
/// The view of a span is its number of nanoseconds.
#[derive(Clone, Copy, Debug, PartialEq, Eq, PartialOrd, Ord, Hash, Structural)]
pub struct Span {
    pub nanos: u128,
}

impl View for Span {
    type V = nat;

    open spec fn view(&self) -> nat {
        self.nanos as nat
    }
}

/// Time that has passed at `now` since `since`; zero where the clock went
/// backwards.
pub open spec fn elapsed_between(since: Span, now: Span) -> nat {
    if now@ >= since@ {
        (now@ - since@) as nat
    } else {
        0
    }
}

impl Span {
    /// The empty span.
    pub fn zero() -> (span: Span)
        ensures
            span@ == 0,
    {
        Span { nanos: 0 }
    }

    /// A span of `secs` whole seconds.
    pub fn from_secs(secs: u64) -> (span: Span)
        ensures
            span@ == secs * NANOS_PER_SEC,
    {
        let wide: u128 = secs as u128;
        Span { nanos: wide * NANOS_PER_SEC }
    }

    /// A span of `secs` seconds and `subsec_nanos` nanoseconds.
    pub fn from_parts(secs: u64, subsec_nanos: u32) -> (span: Span)
        ensures
            span@ == secs * NANOS_PER_SEC + subsec_nanos,
    {
        let wide: u128 = secs as u128;
        let rest: u128 = subsec_nanos as u128;
        Span { nanos: wide * NANOS_PER_SEC + rest }
    }

    /// The whole seconds in this span.
    pub fn as_secs(&self) -> (secs: u128)
        ensures
            secs == self@ / (NANOS_PER_SEC as nat),
    {
        self.nanos / NANOS_PER_SEC
    }

    /// What is left of this span beyond its whole seconds, in nanoseconds.
    pub fn subsec_nanos(&self) -> (rest: u32)
        ensures
            rest == self@ % (NANOS_PER_SEC as nat),
    {
        let rest: u128 = self.nanos % NANOS_PER_SEC;
        rest as u32
    }

    /// `self - earlier`, or `None` where `earlier` is the longer span.
    pub fn checked_sub(&self, earlier: Span) -> (diff: Option<Span>)
        ensures
            earlier@ <= self@ ==> diff == Some(Span { nanos: (self.nanos - earlier.nanos) as u128 }),
            earlier@ > self@ ==> diff.is_none(),
    {
        if earlier.nanos <= self.nanos {
            Some(Span { nanos: self.nanos - earlier.nanos })
        } else {
            None
        }
    }

    /// Time that has passed at `now` since this reading of the same clock.
    pub fn elapsed(&self, now: Span) -> (passed: Span)
        ensures
            passed@ == elapsed_between(*self, now),
    {
        if now.nanos >= self.nanos {
            Span { nanos: now.nanos - self.nanos }
        } else {
            Span { nanos: 0 }
        }
    }

    /// Whether this span is strictly longer than `other`.
    pub fn exceeds(&self, other: Span) -> (longer: bool)
        ensures
            longer == (self@ > other@),
    {
        self.nanos > other.nanos
    }
}

} // verus!
