//! Lengths of time, counted in whole nanoseconds.
//!
//! A [`Span`] also stands for a moment: the time since the clock of the event
//! loop was started.

use vstd::prelude::*;

verus! {

/// Nanoseconds in one second.
pub const NANOS_PER_SEC: u128 = 1_000_000_000;

/// Nanoseconds in one millisecond.
pub const NANOS_PER_MILLI: u128 = 1_000_000;

/// The longest span: `u64::MAX` seconds and 999,999,999 nanoseconds.
pub const MAX_NANOS: u128 = 18_446_744_073_709_551_615_999_999_999;

/// A length of time of at most [`MAX_NANOS`] nanoseconds.
#[derive(Debug, Clone, Copy, PartialEq, Eq, Structural)]
pub struct Span {
    nanos: u128,
}

impl View for Span {
    type V = nat;

    closed spec fn view(&self) -> nat {
        self.nanos as nat
    }
}

impl Span {
    #[verifier::type_invariant]
    spec fn in_range(self) -> bool {
        self.nanos <= MAX_NANOS
    }

    /// The empty span.
    pub fn zero() -> (span: Span)
        ensures
            span@ == 0,
    {
        Span { nanos: 0 }
    }

    /// A span of whole seconds and of nanoseconds below one second.
    pub fn new(secs: u64, nanos: u32) -> (span: Span)
        requires
            nanos < NANOS_PER_SEC,
        ensures
            span@ == secs * NANOS_PER_SEC + nanos,
    {
        Span { nanos: secs as u128 * NANOS_PER_SEC + nanos as u128 }
    }

    /// A span of whole seconds.
    pub fn from_secs(secs: u64) -> (span: Span)
        ensures
            span@ == secs * NANOS_PER_SEC,
    {
        Span { nanos: secs as u128 * NANOS_PER_SEC }
    }

    /// A span of whole milliseconds.
    pub fn from_millis(millis: u64) -> (span: Span)
        ensures
            span@ == millis * NANOS_PER_MILLI,
    {
        Span { nanos: millis as u128 * NANOS_PER_MILLI }
    }

    /// The length in nanoseconds.
    pub fn as_nanos(&self) -> (nanos: u128)
        ensures
            nanos == self@,
            nanos <= MAX_NANOS,
    {
        proof {
            use_type_invariant(self);
        }
        self.nanos
    }

    /// Whether the span is empty.
    pub fn is_zero(&self) -> (zero: bool)
        ensures
            zero == (self@ == 0),
    {
        self.nanos == 0
    }

    /// Whether this span is shorter than `other`.
    pub fn is_less(&self, other: Span) -> (less: bool)
        ensures
            less == (self@ < other@),
    {
        self.nanos < other.nanos
    }

    /// The time that has passed since `earlier`, or the empty span where
    /// `earlier` lies ahead.
    pub fn since(&self, earlier: Span) -> (span: Span)
        ensures
            span@ == if self@ >= earlier@ {
                self@ - earlier@
            } else {
                0
            },
    {
        proof {
            use_type_invariant(self);
        }
        if self.nanos >= earlier.nanos {
            Span { nanos: self.nanos - earlier.nanos }
        } else {
            Span { nanos: 0 }
        }
    }
}

} // verus!
