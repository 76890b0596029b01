//! Fades over time.

use crate::fraction;
use crate::fraction::WHOLE;
use crate::render;
use crate::state;
use crate::transition;
use crate::transition::TransitionTick;
use vstd::prelude::*;

verus! {

/// The alpha byte and the multiplier of an opacity grow with it, from zero at
/// transparent to their maximum at fully opaque.
pub proof fn law_alpha_of_opacity(a: int, b: int)
    requires
        0 <= a <= b <= WHOLE,
    ensures
        0 <= render::floor_alpha(a) <= render::floor_alpha(b) <= 255,
        0 <= state::nearest_alpha(a) <= state::nearest_alpha(b) <= 255,
        0 <= transition::nearest_multiplier(a) <= transition::nearest_multiplier(b) <= u32::MAX,
        render::floor_alpha(0) == 0,
        render::floor_alpha(WHOLE as int) == 255,
        state::nearest_alpha(0) == 0,
        state::nearest_alpha(WHOLE as int) == 255,
        transition::nearest_multiplier(0) == 0,
        transition::nearest_multiplier(WHOLE as int) == u32::MAX,
{
}

/// What lies outside of zero to one is drawn as the nearer end.
pub proof fn law_alpha_is_clamped(parts: int)
    ensures
        parts < 0 ==> state::nearest_alpha(parts) == 0 && transition::nearest_multiplier(parts)
            == 0,
        parts > WHOLE ==> state::nearest_alpha(parts) == 255 && transition::nearest_multiplier(
            parts,
        ) == u32::MAX,
{
}

/// A transition waits exactly as long as its delay lasts, and is done exactly
/// when delay and fade have both passed.
pub proof fn law_tick_stages(delay: nat, duration: nat, elapsed: nat, target: int)
    ensures
        transition::tick_at(delay, duration, elapsed, target) is Waiting <==> elapsed < delay,
        transition::tick_at(delay, duration, elapsed, target) is Done <==> elapsed >= delay
            + duration,
{
}

/// A fade-out starts at the target opacity.
pub proof fn law_tick_starts_at_target(delay: nat, duration: nat, target: int)
    requires
        duration > 0,
        0 <= target <= WHOLE,
    ensures
        transition::tick_at(delay, duration, delay, target) == (TransitionTick::Fading {
            alpha: state::nearest_alpha(target) as u8,
        }),
{
    fraction::lemma_progress_bounds(0, duration);
    fraction::lemma_eased_bounds(0);
    fraction::lemma_product_units(target);
}

/// A fade-out ends transparent, whatever the opacity was.
pub proof fn law_tick_ends_transparent(delay: nat, duration: nat, elapsed: nat, target: int)
    requires
        elapsed >= delay + duration,
        0 <= target <= WHOLE,
    ensures
        transition::tick_at(delay, duration, elapsed, target) == (TransitionTick::Done {
            alpha: 0,
        }),
{
    fraction::lemma_progress_bounds((elapsed - delay) as nat, duration);
    fraction::lemma_eased_bounds(0);
    fraction::lemma_product_units(target);
}

/// The alpha of a fade-out never rises, and stays at or below that of the
/// target.
pub proof fn law_tick_alpha_falls(
    delay: nat,
    duration: nat,
    earlier: nat,
    later: nat,
    target: int,
)
    requires
        delay <= earlier <= later,
        0 <= target <= WHOLE,
    ensures
        transition::tick_alpha(transition::tick_at(delay, duration, earlier, target)) matches Some(
            before,
        ) && transition::tick_alpha(transition::tick_at(delay, duration, later, target)) matches Some(
            after,
        ) && after <= before <= state::nearest_alpha(target),
{
    let s = fraction::progress_parts((earlier - delay) as nat, duration);
    let t = fraction::progress_parts((later - delay) as nat, duration);
    fraction::lemma_progress_bounds((earlier - delay) as nat, duration);
    fraction::lemma_progress_bounds((later - delay) as nat, duration);
    fraction::lemma_progress_monotone((earlier - delay) as nat, (later - delay) as nat, duration);
    fraction::lemma_eased_bounds(s);
    fraction::lemma_eased_bounds(t);
    fraction::lemma_eased_monotone(s, t);
    let a = fraction::product(WHOLE - fraction::eased(s), target);
    let b = fraction::product(WHOLE - fraction::eased(t), target);
    fraction::lemma_product_monotone(
        WHOLE - fraction::eased(t),
        target,
        WHOLE - fraction::eased(s),
        target,
    );
    fraction::lemma_product_bounds(WHOLE - fraction::eased(s), target);
    fraction::lemma_product_bounds(WHOLE - fraction::eased(t), target);
    law_alpha_of_opacity(b, a);
    law_alpha_of_opacity(a, target);
}

/// How far the eased fade-in has come.
pub open spec fn fade_eased(elapsed: nat, duration: nat) -> int {
    fraction::eased(fraction::progress_parts(elapsed, duration))
}

/// The opacity that a frame of the fade-in shows.
pub open spec fn fade_opacity(elapsed: nat, duration: nat, target: int) -> int {
    fraction::product(fade_eased(elapsed, duration), target)
}

/// The brightness that a frame of the fade-in shows.
pub open spec fn fade_brightness(elapsed: nat, duration: nat, target: int) -> int {
    render::dimming_parts(target, fade_eased(elapsed, duration))
}

/// A fade-in starts transparent and at normal brightness.
pub proof fn law_fade_in_starts_clear(duration: nat, opacity: int, brightness: int)
    requires
        duration > 0,
        0 <= opacity <= WHOLE,
        0 <= brightness <= WHOLE,
    ensures
        fade_opacity(0, duration, opacity) == 0,
        fade_brightness(0, duration, brightness) == WHOLE,
{
    fraction::lemma_progress_bounds(0, duration);
    fraction::lemma_eased_bounds(0);
    fraction::lemma_product_units(opacity);
    fraction::lemma_product_units(WHOLE - brightness);
}

/// A fade-in ends at the target opacity and the target brightness, and stays
/// there.
pub proof fn law_fade_in_ends_at_target(elapsed: nat, duration: nat, opacity: int, brightness: int)
    requires
        elapsed >= duration,
        0 <= opacity <= WHOLE,
        0 <= brightness <= WHOLE,
    ensures
        fade_opacity(elapsed, duration, opacity) == opacity,
        fade_brightness(elapsed, duration, brightness) == brightness,
{
    fraction::lemma_progress_bounds(elapsed, duration);
    fraction::lemma_eased_bounds(0);
    fraction::lemma_product_units(opacity);
    fraction::lemma_product_units(WHOLE - brightness);
}

/// During a fade-in the opacity never falls and the brightness never rises.
/// Both stay between where they start and where they end.
pub proof fn law_fade_in_is_monotone(
    earlier: nat,
    later: nat,
    duration: nat,
    opacity: int,
    brightness: int,
)
    requires
        earlier <= later,
        0 <= opacity <= WHOLE,
        0 <= brightness <= WHOLE,
    ensures
        0 <= fade_opacity(earlier, duration, opacity) <= fade_opacity(later, duration, opacity)
            <= opacity,
        brightness <= fade_brightness(later, duration, brightness) <= fade_brightness(
            earlier,
            duration,
            brightness,
        ) <= WHOLE,
{
    let s = fraction::progress_parts(earlier, duration);
    let t = fraction::progress_parts(later, duration);
    fraction::lemma_progress_bounds(earlier, duration);
    fraction::lemma_progress_bounds(later, duration);
    fraction::lemma_progress_monotone(earlier, later, duration);
    fraction::lemma_eased_bounds(s);
    fraction::lemma_eased_bounds(t);
    fraction::lemma_eased_monotone(s, t);
    let (a, b) = (fraction::eased(s), fraction::eased(t));
    fraction::lemma_product_monotone(a, opacity, b, opacity);
    fraction::lemma_product_bounds(a, opacity);
    fraction::lemma_product_bounds(b, opacity);
    fraction::lemma_product_monotone(WHOLE - brightness, a, WHOLE - brightness, b);
    fraction::lemma_product_bounds(WHOLE - brightness, a);
    fraction::lemma_product_bounds(WHOLE - brightness, b);
}

/// With normal brightness as the target, a fade-in leaves the brightness alone.
pub proof fn law_full_brightness_stays(elapsed: nat, duration: nat)
    ensures
        fade_brightness(elapsed, duration, WHOLE as int) == WHOLE,
{
    fraction::lemma_progress_bounds(elapsed, duration);
    fraction::lemma_eased_bounds(fraction::progress_parts(elapsed, duration));
    fraction::lemma_product_units(fade_eased(elapsed, duration));
}

/// A product of two fractions is the nearest part to the exact one.
pub proof fn law_products_round_to_nearest(a: int, b: int)
    ensures
        -(WHOLE / 2) <= fraction::product(a, b) * WHOLE - a * b <= WHOLE / 2,
{
    let n = a * b + WHOLE as int / 2;
    vstd::arithmetic::div_mod::lemma_fundamental_div_mod(n, WHOLE as int);
}

/// Progress is the largest number of parts that has been reached.
pub proof fn law_progress_rounds_down(elapsed: nat, duration: nat)
    requires
        elapsed < duration,
    ensures
        fraction::progress_parts(elapsed, duration) * duration <= elapsed * WHOLE,
        elapsed * WHOLE < (fraction::progress_parts(elapsed, duration) + 1) * duration,
{
    let n = (elapsed * WHOLE as nat) as int;
    let d = duration as int;
    let q = n / d;
    vstd::arithmetic::div_mod::lemma_fundamental_div_mod(n, d);
    assert(q * d <= n && n < (q + 1) * d) by (nonlinear_arith)
        requires
            n == d * q + n % d,
            0 <= n % d < d,
    ;
}

/// A raw number that is set as an opacity or a brightness is clamped to what is
/// meaningful.
pub proof fn law_raw_numbers_are_clamped(parts: i64)
    ensures
        render::Opacity::of(render::clamped(parts as int))@ == render::clamped(parts as int),
        render::Brightness::of(render::clamped(parts as int))@ == render::clamped(parts as int),
        0 <= render::clamped(parts as int) <= WHOLE,
{
    let clamped = render::clamped(parts as int);
    render::lemma_opacity_of(render::Opacity::of(clamped), clamped);
    render::lemma_brightness_of(render::Brightness::of(clamped), clamped);
}

} // verus!
