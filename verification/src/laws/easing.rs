//! Numbers: rounding, clamping, and the curve that every fade follows.

use crate::fraction;
use crate::fraction::WHOLE;
use crate::render;
use crate::state;
use crate::transition;
use vstd::prelude::*;

verus! {

/// A product of two fractions is the exact one rounded to the nearest part, and
/// up where it lies halfway.
pub proof fn law_product_rounds_half_up(a: int, b: int)
    ensures
        -(WHOLE / 2) < fraction::product(a, b) * WHOLE - a * b <= WHOLE / 2,
{
    let n = a * b + WHOLE as int / 2;
    vstd::arithmetic::div_mod::lemma_fundamental_div_mod(n, WHOLE as int);
}

/// Progress is a whole from the end of the duration on, and at once where it
/// takes no time. Before that it is the share of the time that has passed,
/// rounded down.
pub proof fn law_progress_is_the_share_of_time(elapsed: nat, duration: nat)
    ensures
        elapsed >= duration ==> fraction::progress_parts(elapsed, duration) == WHOLE,
        elapsed < duration ==> fraction::progress_parts(elapsed, duration) * duration <= elapsed
            * WHOLE < (fraction::progress_parts(elapsed, duration) + 1) * duration,
{
    if elapsed < duration {
        crate::laws::fading::law_progress_rounds_down(elapsed, duration);
    }
}

/// What an eased progress leaves is the square of what the progress leaves, to
/// the nearest part.
pub proof fn law_ease_out_is_quadratic(t: int)
    ensures
        -(WHOLE / 2) < (WHOLE - fraction::eased(t)) * WHOLE - (WHOLE - t) * (WHOLE - t) <= WHOLE
            / 2,
{
    law_product_rounds_half_up(WHOLE - t, WHOLE - t);
}

/// A number of parts is held between zero and one: what lies within stays, what
/// lies outside goes to the nearer end.
pub proof fn law_clamping_keeps_what_is_meaningful(parts: int)
    ensures
        parts <= 0 ==> render::clamped(parts) == 0,
        parts >= WHOLE ==> render::clamped(parts) == WHOLE,
        0 <= parts <= WHOLE ==> render::clamped(parts) == parts,
{
}

/// The alpha byte of an opacity is its share of 255, rounded down.
pub proof fn law_floor_alpha_rounds_down(parts: int)
    ensures
        render::floor_alpha(parts) * WHOLE <= parts * 255 < (render::floor_alpha(parts) + 1)
            * WHOLE,
{
}

/// The alpha byte and the multiplier of the direct engine are the shares of
/// their maxima, to the nearest.
pub proof fn law_nearest_alpha_and_multiplier(parts: int)
    requires
        0 <= parts <= WHOLE,
    ensures
        -(WHOLE / 2) < state::nearest_alpha(parts) * WHOLE - parts * 255 <= WHOLE / 2,
        -(WHOLE / 2) < transition::nearest_multiplier(parts) * WHOLE - parts * u32::MAX <= WHOLE
            / 2,
{
}

/// On the way down to a target the brightness has given up its share of what
/// lies between, and on the way back it has regained it, to the nearest part.
pub proof fn law_brightness_between_normal_and_target(target: int, share: int)
    requires
        0 <= target <= WHOLE,
        0 <= share <= WHOLE,
    ensures
        -(WHOLE / 2) < (WHOLE - render::dimming_parts(target, share)) * WHOLE - (WHOLE - target)
            * share <= WHOLE / 2,
        -(WHOLE / 2) < (render::recovering_parts(target, share) - target) * WHOLE - (WHOLE
            - target) * share <= WHOLE / 2,
{
    law_product_rounds_half_up(WHOLE - target, share);
}

/// What is left of a fade after `elapsed` of `duration` is the square of the
/// time that is left, up to a few parts of rounding.
pub proof fn law_fade_leaves_the_square_of_the_time_left(elapsed: nat, duration: nat)
    requires
        elapsed < duration,
    ensures
        ({
            let left = WHOLE - fraction::eased(fraction::progress_parts(elapsed, duration));
            let rest = duration - elapsed;
            -(duration * duration) <= left * (duration * duration) - (rest * rest) * WHOLE <= 3 * (
            duration * duration)
        }),
{
    let w = WHOLE as int;
    let (e, d) = (elapsed as int, duration as int);
    let p = fraction::progress_parts(elapsed, duration);
    law_progress_is_the_share_of_time(elapsed, duration);
    fraction::lemma_progress_bounds(elapsed, duration);
    law_ease_out_is_quadratic(p);
    let q = w - p;
    let r = w - fraction::eased(p);
    let l = (d - e) * w;
    let m = q * d;
    assert(l <= m && m <= l + d) by (nonlinear_arith)
        requires
            p * d <= e * w,
            e * w < (p + 1) * d,
            q == w - p,
            l == (d - e) * w,
            m == q * d,
    ;
    assert(0 <= l <= d * w) by (nonlinear_arith)
        requires
            l == (d - e) * w,
            0 <= e < d,
            w > 0,
    ;
    // The square of `m` lies between that of `l` and that of `l + d`.
    assert(l * l <= m * m && m * m <= l * l + 2 * (l * d) + d * d) by (nonlinear_arith)
        requires
            0 <= l <= m,
            m <= l + d,
    ;
    let dd = d * d;
    let ss = (d - e) * (d - e);
    assert(m * m == (q * q) * dd) by (nonlinear_arith)
        requires
            m == q * d,
            dd == d * d,
    ;
    assert(l * l == ss * w * w) by (nonlinear_arith)
        requires
            l == (d - e) * w,
            ss == (d - e) * (d - e),
    ;
    assert(l * d <= dd * w) by (nonlinear_arith)
        requires
            0 <= l <= d * w,
            d > 0,
            dd == d * d,
    ;
    assert(dd >= 1) by (nonlinear_arith)
        requires
            d >= 1,
            dd == d * d,
    ;
    let x = r * w - q * q;
    assert(r * w * dd == (q * q) * dd + x * dd) by (nonlinear_arith)
        requires
            x == r * w - q * q,
    ;
    assert(-500_000_000_000_000 * dd <= x * dd <= 500_000_000_000_000 * dd) by (nonlinear_arith)
        requires
            -500_000_000_000_000 <= x <= 500_000_000_000_000,
            dd >= 1,
    ;
    let gap = r * dd - ss * w;
    assert(gap * w == r * w * dd - ss * w * w) by (nonlinear_arith)
        requires
            gap == r * dd - ss * w,
    ;
    assert(-dd <= gap <= 3 * dd) by (nonlinear_arith)
        requires
            w == 1_000_000_000_000_000,
            dd >= 1,
            -500_000_000_000_000 * dd <= gap * w,
            gap * w <= 2 * (dd * w) + dd + 500_000_000_000_000 * dd,
    ;
}

/// A share of what a fade leaves, rounded to the nearest part, follows the same
/// curve.
pub(crate) proof fn lemma_share_of_a_fade(
    whole: int,
    share: int,
    left: int,
    rest: int,
    duration: int,
)
    requires
        0 <= whole <= WHOLE,
        -(WHOLE / 2) <= share * WHOLE - whole * left <= WHOLE / 2,
        -(duration * duration) <= left * (duration * duration) - (rest * rest) * WHOLE <= 3 * (
        duration * duration),
    ensures
        -4 * (duration * duration) <= share * (duration * duration) - whole * (rest * rest) <= 4
            * (duration * duration),
{
    let w = WHOLE as int;
    let dd = duration * duration;
    let ss = rest * rest;
    let gap = left * dd - ss * w;
    assert(dd >= 0) by (nonlinear_arith)
        requires
            dd == duration * duration,
    ;
    let y = share * w - whole * left;
    assert(-500_000_000_000_000 * dd <= y * dd <= 500_000_000_000_000 * dd) by (nonlinear_arith)
        requires
            -500_000_000_000_000 <= y <= 500_000_000_000_000,
            dd >= 0,
    ;
    assert(-1_000_000_000_000_000 * dd <= whole * gap <= 3_000_000_000_000_000 * dd)
        by (nonlinear_arith)
        requires
            0 <= whole <= 1_000_000_000_000_000,
            -dd <= gap <= 3 * dd,
            dd >= 0,
    ;
    let z = share * dd - whole * ss;
    assert(z * w == y * dd + whole * gap) by (nonlinear_arith)
        requires
            z == share * dd - whole * ss,
            y == share * w - whole * left,
            gap == left * dd - ss * w,
    ;
    assert(-4 * dd <= z <= 4 * dd) by (nonlinear_arith)
        requires
            w == 1_000_000_000_000_000,
            dd >= 0,
            -1_500_000_000_000_000 * dd <= z * w <= 3_500_000_000_000_000 * dd,
    ;
}

} // verus!
