//! Fades of a single alpha value, computed from elapsed time alone.

use crate::fraction;
pub use crate::fraction::ease_out_quad;
use crate::fraction::WHOLE;
use crate::names;
use crate::render;
use crate::render::{Brightness, Opacity, Paint};
use crate::seqs;
use crate::span::Span;
use crate::state;
use crate::state::{opacity_to_alpha, OverlaySurface, ZenState};
use crate::surface;
use vstd::prelude::*;

verus! {

/// The alpha multiplier of an opacity, to the nearest one: `u32::MAX` is fully
/// opaque.
pub open spec fn nearest_multiplier(parts: int) -> int {
    (render::clamped(parts) * u32::MAX + WHOLE / 2) / WHOLE as int
}

/// Convert an opacity to an alpha multiplier for the `wp_alpha_modifier_v1`
/// protocol. What lies outside of zero to one is clamped.
pub fn opacity_to_multiplier(opacity: i64) -> (multiplier: u32)
    ensures
        multiplier == nearest_multiplier(opacity as int),
{
    let parts: u64 = Opacity::new(opacity).parts();
    let scaled: u128 = parts as u128 * u32::MAX as u128 + WHOLE as u128 / 2;
    (scaled / WHOLE as u128) as u32
}

/// Fade-out transition on the newly active output.
#[derive(Debug)]
pub struct Transition {
    /// When this transition started.
    pub start: Span,
    /// Wait for the window to settle before fading.
    pub delay: Span,
    /// How long the fade animation takes.
    pub duration: Span,
    /// Output being revealed: its overlay fades out.
    pub revealing: Option<String>,
}

/// Result of a single transition tick.
#[derive(Debug, Clone, Copy, PartialEq, Eq, Structural)]
pub enum TransitionTick {
    /// Still waiting for the window to settle before fading.
    Waiting,
    /// Fading: the overlay on the revealing output should be drawn at this
    /// alpha value.
    Fading { alpha: u8 },
    /// The fade completed this tick: draw the final alpha and clean up.
    Done { alpha: u8 },
}

/// The alpha byte of a fade-out that is `t` along.
pub open spec fn fading_alpha(t: int, target_opacity: int) -> int {
    state::nearest_alpha(fraction::product(WHOLE - fraction::eased(t), target_opacity))
}

/// What a transition does, `elapsed` after its start.
pub open spec fn tick_at(
    delay: nat,
    duration: nat,
    elapsed: nat,
    target_opacity: int,
) -> TransitionTick {
    if elapsed < delay {
        TransitionTick::Waiting
    } else {
        let faded = (elapsed - delay) as nat;
        let alpha = fading_alpha(fraction::progress_parts(faded, duration), target_opacity) as u8;
        if faded >= duration {
            TransitionTick::Done { alpha }
        } else {
            TransitionTick::Fading { alpha }
        }
    }
}

/// An opacity scaled by a fraction is one too.
proof fn lemma_scaled(fraction: int, opacity: int)
    requires
        0 <= fraction <= WHOLE,
        0 <= opacity <= WHOLE,
    ensures
        0 <= fraction::product(fraction, opacity) <= WHOLE,
        0 <= state::nearest_alpha(fraction::product(fraction, opacity)) <= 255,
        0 <= nearest_multiplier(fraction::product(fraction, opacity)) <= u32::MAX,
{
    fraction::lemma_product_bounds(fraction, opacity);
}

impl Transition {
    /// Given the time since the start and the target opacity, what the caller
    /// should do: wait, draw at an alpha, or finish.
    pub fn tick(&self, elapsed: Span, target_opacity: Opacity) -> (tick: TransitionTick)
        ensures
            tick == tick_at(self.delay@, self.duration@, elapsed@, target_opacity@),
    {
        if elapsed.is_less(self.delay) {
            return TransitionTick::Waiting;
        }
        let faded = elapsed.since(self.delay);
        let t: u64 = fraction::progress(faded, self.duration);
        let eased: u64 = fraction::ease_out_quad(t);
        let target: u64 = target_opacity.parts();
        proof {
            lemma_scaled(WHOLE - eased, target as int);
        }
        let scaled: u64 = fraction::multiply(WHOLE - eased, target);
        let alpha: u8 = opacity_to_alpha(scaled as i64);
        if faded.is_less(self.duration) {
            TransitionTick::Fading { alpha }
        } else {
            TransitionTick::Done { alpha }
        }
    }
}

/// Initial fade-in animation parameters.
#[derive(Debug, Clone, Copy)]
pub struct FadeIn {
    /// Total duration of the fade-in animation.
    pub duration: Span,
    /// Target overlay opacity.
    pub target_opacity: Opacity,
    /// Target monitor brightness.
    pub target_brightness: Brightness,
}

/// Values for a single frame of the fade-in animation.
#[derive(Debug, Clone, Copy, PartialEq, Eq, Structural)]
pub struct FadeFrame {
    /// Alpha as a byte, for the software rendering path.
    pub alpha: u8,
    /// Alpha as a multiplier, for the alpha-modifier protocol.
    pub multiplier: u32,
    /// Current brightness, on its way from normal to the target.
    pub brightness: Brightness,
    /// Whether the animation is complete.
    pub done: bool,
}

impl FadeIn {
    /// Compute the frame values at a given elapsed time.
    pub fn frame_at(&self, elapsed: Span) -> (frame: FadeFrame)
        ensures
            ({
                let eased = fraction::eased(
                    fraction::progress_parts(elapsed@, self.duration@),
                );
                let opacity = fraction::product(eased, self.target_opacity@);
                &&& frame.alpha == state::nearest_alpha(opacity)
                &&& frame.multiplier == nearest_multiplier(opacity)
                &&& frame.brightness@ == render::dimming_parts(self.target_brightness@, eased)
                &&& frame.done == (elapsed@ >= self.duration@)
            }),
    {
        let t: u64 = fraction::progress(elapsed, self.duration);
        let eased: u64 = fraction::ease_out_quad(t);
        let target: u64 = self.target_opacity.parts();
        proof {
            lemma_scaled(eased as int, target as int);
        }
        let opacity: i64 = fraction::multiply(eased, target) as i64;
        FadeFrame {
            alpha: opacity_to_alpha(opacity),
            multiplier: opacity_to_multiplier(opacity),
            brightness: self.target_brightness.dimming(eased),
            done: !elapsed.is_less(self.duration),
        }
    }
}

/// The alpha to draw in a tick.
pub open spec fn tick_alpha(tick: TransitionTick) -> Option<u8> {
    match tick {
        TransitionTick::Waiting => None,
        TransitionTick::Fading { alpha } => Some(alpha),
        TransitionTick::Done { alpha } => Some(alpha),
    }
}

impl ZenState {
    /// The overlay that a transition fades: the first on its output.
    pub open spec fn fading_overlay(self, revealing: Option<Seq<char>>) -> Option<OverlaySurface> {
        seqs::first(self.surfaces@, surface::overlay_named(revealing))
    }

    /// What a tick of the transition draws.
    pub open spec fn tick_paint(self, now: nat) -> Option<Paint> {
        match self.transition {
            Some(t) => match tick_alpha(self.tick_now(now)) {
                Some(alpha) => match self.fading_overlay(names::opt_view(t.revealing)) {
                    Some(overlay) => self.alpha_paint(overlay, alpha),
                    None => None,
                },
                None => None,
            },
            None => None,
        }
    }

    /// What the transition in progress does now.
    pub open spec fn tick_now(self, now: nat) -> TransitionTick {
        let t = self.transition->0;
        tick_at(
            t.delay@,
            t.duration@,
            crate::dim::elapsed_since(now, t.start@),
            self.target_opacity@,
        )
    }

    /// Whether a cross-fade transition is in progress.
    pub fn is_transitioning(&self) -> (transitioning: bool)
        ensures
            transitioning == self.transition is Some,
    {
        self.transition.is_some()
    }

    /// Tick the cross-fade transition. Returns whether it is still animating,
    /// and what to draw.
    pub fn tick_transition(&mut self, now: Span) -> (result: (bool, Option<Paint>))
        requires
            old(self).wf(),
        ensures
            final(self).wf(),
            result.0 == (old(self).transition is Some && !(old(self).tick_now(now@) is Done)),
            result.1 == old(self).tick_paint(now@),
            final(self).transition == if result.0 {
                old(self).transition
            } else {
                None
            },
            *final(self) == (ZenState { transition: final(self).transition, ..*old(self) }),
    {
        let (tick, revealing) = match &self.transition {
            Some(transition) => (
                transition.tick(now.since(transition.start), self.target_opacity),
                names::clone_opt_name(&transition.revealing),
            ),
            None => {
                return (false, None);
            },
        };
        let (alpha, done): (u8, bool) = match tick {
            TransitionTick::Waiting => {
                return (true, None);
            },
            TransitionTick::Fading { alpha } => (alpha, false),
            TransitionTick::Done { alpha } => (alpha, true),
        };
        // Only the newly active output's overlay fades.
        let paint = self.draw_overlay_of(&revealing, alpha);
        if done {
            self.transition = None;
        }
        (!done, paint)
    }

    /// Draw the first overlay on an output.
    fn draw_overlay_of(&self, name: &Option<String>, alpha: u8) -> (paint: Option<Paint>)
        requires
            self.wf(),
        ensures
            paint == match self.fading_overlay(names::opt_view(*name)) {
                Some(overlay) => self.alpha_paint(overlay, alpha),
                None => None,
            },
    {
        let ghost wanted = surface::overlay_named(names::opt_view(*name));
        let mut i: usize = 0;
        while i < self.surfaces.len()
            invariant
                i <= self.surfaces.len(),
                self.wf(),
                wanted == surface::overlay_named(names::opt_view(*name)),
                forall|j: int| 0 <= j < i ==> !wanted(#[trigger] self.surfaces@[j]),
            decreases self.surfaces.len() - i,
        {
            let candidate = &self.surfaces[i];
            if !candidate.is_backdrop() && candidate.output_name.is_some()
                && names::same_opt_name(&candidate.output_name, name) {
                proof {
                    seqs::lemma_first_at(self.surfaces@, wanted, i as int);
                }
                return self.draw_surface_alpha(i, alpha);
            }
            i = i + 1;
        }
        proof {
            seqs::lemma_none_fits(self.surfaces@, wanted, i as int);
        }
        None
    }
}

} // verus!
