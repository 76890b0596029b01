//! Arithmetic on fractions of a whole, and the easing curve.
//!
//! Opacities, brightnesses and the progress of an animation all lie between
//! zero and one. They are counted in parts of which [`WHOLE`] make up one, so
//! every value of up to fifteen decimal places is exact.

use crate::span::Span;
use vstd::arithmetic::div_mod::{
    lemma_div_is_ordered, lemma_fundamental_div_mod, lemma_fundamental_div_mod_converse,
};
use vstd::arithmetic::mul::{lemma_mul_inequality, lemma_mul_is_commutative};
use vstd::prelude::*;

verus! {

/// The number of parts that make up one.
pub const WHOLE: u64 = 1_000_000_000_000_000;

/// The product of two fractions, rounded to the nearest part.
pub open spec fn product(a: int, b: int) -> int {
    (a * b + WHOLE as int / 2) / WHOLE as int
}

/// How far an animation has come after `elapsed` of `duration`: a full
/// [`WHOLE`] at its end and after it, and at once where it takes no time.
pub open spec fn progress_parts(elapsed: nat, duration: nat) -> int {
    if duration == 0 || elapsed >= duration {
        WHOLE as int
    } else {
        (elapsed * WHOLE as nat) as int / duration as int
    }
}

/// Quadratic ease-out: `1 - (1 - t)^2`.
pub open spec fn eased(t: int) -> int {
    WHOLE - product(WHOLE - t, WHOLE - t)
}

/// A product is never negative and no larger than either factor.
pub proof fn lemma_product_bounds(a: int, b: int)
    requires
        0 <= a <= WHOLE,
        0 <= b <= WHOLE,
    ensures
        0 <= product(a, b) <= a,
        product(a, b) <= b,
{
    let w = WHOLE as int;
    lemma_mul_inequality(0, b, a);
    lemma_mul_is_commutative(a, b);
    lemma_mul_inequality(a, w, b);
    lemma_mul_inequality(b, w, a);
    lemma_mul_is_commutative(a, w);
    lemma_mul_is_commutative(b, w);
}

/// A product grows with its factors.
pub proof fn lemma_product_monotone(a: int, b: int, c: int, d: int)
    requires
        0 <= a <= c,
        0 <= b <= d,
    ensures
        product(a, b) <= product(c, d),
{
    lemma_mul_inequality(a, c, b);
    lemma_mul_inequality(b, d, c);
    lemma_mul_is_commutative(b, c);
    lemma_mul_is_commutative(d, c);
}

/// One is neutral and zero absorbs.
pub proof fn lemma_product_units(a: int)
    requires
        0 <= a <= WHOLE,
    ensures
        product(a, WHOLE as int) == a,
        product(WHOLE as int, a) == a,
        product(a, 0) == 0,
        product(0, a) == 0,
{
    lemma_mul_is_commutative(a, WHOLE as int);
}

/// Progress lies between zero and one, and is one exactly when the duration
/// has passed.
pub proof fn lemma_progress_bounds(elapsed: nat, duration: nat)
    ensures
        0 <= progress_parts(elapsed, duration) <= WHOLE,
        progress_parts(elapsed, duration) == WHOLE <==> elapsed >= duration,
        elapsed == 0 && duration > 0 ==> progress_parts(elapsed, duration) == 0,
{
    if elapsed < duration {
        let w = WHOLE as int;
        let n = (elapsed * WHOLE as nat) as int;
        let d = duration as int;
        let q = n / d;
        lemma_fundamental_div_mod(n, d);
        assert(0 <= q < w) by (nonlinear_arith)
            requires
                n == d * q + n % d,
                0 <= n % d < d,
                0 <= n,
                n < d * w,
                d > 0,
        ;
    }
}

/// Progress never goes back.
pub proof fn lemma_progress_monotone(earlier: nat, later: nat, duration: nat)
    requires
        earlier <= later,
    ensures
        progress_parts(earlier, duration) <= progress_parts(later, duration),
{
    lemma_progress_bounds(earlier, duration);
    if later < duration {
        lemma_div_is_ordered(
            (earlier * WHOLE as nat) as int,
            (later * WHOLE as nat) as int,
            duration as int,
        );
    }
}

/// The easing curve stays between its argument and one, and starts and ends
/// where its argument does: a fade starts fast and decelerates.
pub proof fn lemma_eased_bounds(t: int)
    requires
        0 <= t <= WHOLE,
    ensures
        t <= eased(t) <= WHOLE,
        eased(0) == 0,
        eased(WHOLE as int) == WHOLE,
{
    lemma_product_bounds(WHOLE - t, WHOLE - t);
    lemma_product_units(WHOLE as int);
    lemma_product_units(0);
}

/// The easing curve never falls.
pub proof fn lemma_eased_monotone(s: int, t: int)
    requires
        0 <= s <= t <= WHOLE,
    ensures
        eased(s) <= eased(t),
{
    lemma_product_monotone(WHOLE - t, WHOLE - t, WHOLE - s, WHOLE - s);
}

/// The product of two fractions, rounded to the nearest part.
pub fn multiply(a: u64, b: u64) -> (parts: u64)
    requires
        a <= WHOLE,
        b <= WHOLE,
    ensures
        parts == product(a as int, b as int),
        parts <= a,
        parts <= b,
{
    proof {
        lemma_product_bounds(a as int, b as int);
        lemma_mul_inequality(a as int, WHOLE as int, b as int);
        lemma_mul_inequality(0, b as int, a as int);
        lemma_mul_is_commutative(a as int, b as int);
    }
    ((a as u128 * b as u128 + WHOLE as u128 / 2) / WHOLE as u128) as u64
}

/// How far an animation of length `duration` has come after `elapsed`.
pub fn progress(elapsed: Span, duration: Span) -> (parts: u64)
    ensures
        parts == progress_parts(elapsed@, duration@),
        parts <= WHOLE,
{
    let e: u128 = elapsed.as_nanos();
    let d: u128 = duration.as_nanos();
    proof {
        lemma_progress_bounds(elapsed@, duration@);
    }
    if d == 0 || e >= d {
        return WHOLE;
    }
    // Divide in two steps, so that no intermediate value outgrows 128 bits.
    let billionths: u128 = e * 1_000_000_000 / d;
    let rest: u128 = e * 1_000_000_000 % d;
    let fine: u128 = rest * 1_000_000 / d;
    proof {
        let last = rest as int * 1_000_000 % d as int;
        let q = billionths as int * 1_000_000 + fine;
        lemma_fundamental_div_mod(e as int * 1_000_000_000, d as int);
        lemma_fundamental_div_mod(rest as int * 1_000_000, d as int);
        assert(e as int * WHOLE == q * d + last) by (nonlinear_arith)
            requires
                e as int * 1_000_000_000 == d as int * billionths + rest,
                rest as int * 1_000_000 == d as int * fine + last,
                q == billionths as int * 1_000_000 + fine,
        ;
        lemma_fundamental_div_mod_converse(e as int * WHOLE, d as int, q, last);
    }
    (billionths * 1_000_000 + fine) as u64
}

/// Quadratic ease-out: fast start, decelerating finish.
///
/// Maps a progress in parts to an eased one, `1 - (1 - t)^2`.
pub fn ease_out_quad(t: u64) -> (parts: u64)
    requires
        t <= WHOLE,
    ensures
        parts == eased(t as int),
        t <= parts <= WHOLE,
{
    proof {
        lemma_eased_bounds(t as int);
    }
    WHOLE - multiply(WHOLE - t, WHOLE - t)
}

} // verus!
