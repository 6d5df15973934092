//! Spans of time, counted in nanoseconds.
use vstd::prelude::*;

verus! {

/// The longest span: `u64::MAX` seconds and 999 999 999 nanoseconds.
pub const MAX_NANOS: u128 = 18_446_744_073_709_551_615_999_999_999;

/// A span of time, or a point in time counted from a fixed start.
#[derive(Clone, Copy, Debug, PartialEq, Eq, Structural)]
pub struct Duration {
    nanos: u128,
}

impl View for Duration {
    type V = nat;

    /// The number of nanoseconds.
    closed spec fn view(&self) -> nat {
        self.nanos as nat
    }
}

impl Duration {
    pub fn zero() -> (r: Self)
        ensures
            r@ == 0,
    {
        Duration { nanos: 0 }
    }

    pub fn from_nanos(n: u64) -> (r: Self)
        ensures
            r@ == n,
    {
        Duration { nanos: n as u128 }
    }

    pub fn from_micros(n: u64) -> (r: Self)
        ensures
            r@ == n * 1_000,
    {
        Duration { nanos: n as u128 * 1_000 }
    }

    pub fn from_millis(n: u64) -> (r: Self)
        ensures
            r@ == n * 1_000_000,
    {
        Duration { nanos: n as u128 * 1_000_000 }
    }

    pub fn from_secs(n: u64) -> (r: Self)
        ensures
            r@ == n * 1_000_000_000,
    {
        Duration { nanos: n as u128 * 1_000_000_000 }
    }

    pub fn as_nanos(&self) -> (r: u128)
        ensures
            r == self@,
    {
        self.nanos
    }

    pub fn as_micros(&self) -> (r: u128)
        ensures
            r == self@ / 1_000,
    {
        self.nanos / 1_000
    }

    pub fn is_zero(&self) -> (r: bool)
        ensures
            r == (self@ == 0),
    {
        self.nanos == 0
    }

    pub fn less(&self, other: &Duration) -> (r: bool)
        ensures
            r == (self@ < other@),
    {
        self.nanos < other.nanos
    }

    /// The sum.
    pub fn plus(&self, other: &Duration) -> (r: Self)
        requires
            self@ + other@ <= MAX_NANOS,
        ensures
            r@ == self@ + other@,
    {
        Duration { nanos: self.nanos + other.nanos }
    }

    /// The difference.
    pub fn minus(&self, other: &Duration) -> (r: Self)
        requires
            other@ <= self@,
        ensures
            r@ == self@ - other@,
    {
        Duration { nanos: self.nanos - other.nanos }
    }

    /// The difference, or zero where `other` is longer.
    pub fn saturating_sub(&self, other: &Duration) -> (r: Self)
        ensures
            r@ == if other@ <= self@ {
                (self@ - other@) as nat
            } else {
                0
            },
    {
        if self.nanos >= other.nanos {
            Duration { nanos: self.nanos - other.nanos }
        } else {
            Duration { nanos: 0 }
        }
    }
}

} // verus!
