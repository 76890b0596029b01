//! The direct engine: which surfaces it draws, when, and how.

use crate::fraction;
use crate::fraction::WHOLE;
use crate::gamma::ByteOrder;
use crate::laws::easing;
use crate::laws::pixels;
use crate::laws::pixels::{is_pixel, looks};
use crate::laws::showing::{first_overlay, stands_on};
use crate::laws::tracking;
use crate::laws::windows;
use crate::laws::windows::is_called;
use crate::render;
use crate::render::{Action, Brightness, GammaState, Paint, SurfaceConfig, SurfaceRole};
use crate::seqs;
use crate::state;
use crate::state::{LoopPhase, OverlaySurface, ZenState};
use crate::surface;
use crate::toplevel;
use crate::toplevel::TrackedToplevel;
use crate::transition;
use crate::transition::TransitionTick;
use crate::wayland;
use crate::wayland::ToplevelEvent;
use vstd::prelude::*;

verus! {

/// Whether an optional name is there and says that.
pub open spec fn says(name: Option<String>, expected: Seq<char>) -> bool {
    name matches Some(own) && own@ == expected
}

/// Whether a surface has a size to draw on.
pub open spec fn has_size(surface: OverlaySurface) -> bool {
    surface.config matches SurfaceConfig::Ready { width, height } && width > 0 && height > 0
}

/// Whether some paints draw a surface at an alpha.
pub open spec fn draws_at(
    engine: ZenState,
    paints: Seq<Paint>,
    surface: OverlaySurface,
    alpha: int,
) -> bool {
    exists|paint: Paint|
        #![trigger paints.contains(paint)]
        paints.contains(paint) && looks(
            paint,
            surface,
            engine.color,
            alpha,
            engine.viewporter,
            false,
        )
}

/// A surface is skipped exactly when it is an overlay and its output is either
/// listed by name, or followed and the one with the focus.
pub proof fn law_skipped_surfaces(engine: ZenState, surface: OverlaySurface, name: Seq<char>)
    ensures
        says(surface.output_name, name) ==> (engine.skips(surface) <==> surface.role
            == SurfaceRole::Overlay && (engine.skip_names@.contains(name) || (engine.skip_active
            && says(engine.active_output, name)))),
        surface.output_name is None ==> !engine.skips(surface),
{
}

/// A surface that has a size is drawn over all of it at the alpha: scaled up
/// where the compositor can, and filled where that is asked for. One without a
/// size is not drawn.
pub proof fn law_drawn_surface_looks_right(engine: ZenState, surface: OverlaySurface, alpha: u8)
    ensures
        engine.alpha_paint(surface, alpha) is Some <==> has_size(surface),
        engine.fullsize_paint(surface, alpha) is Some <==> has_size(surface),
        engine.alpha_paint(surface, alpha) matches Some(paint) ==> looks(
            paint,
            surface,
            engine.color,
            alpha as int,
            engine.viewporter,
            false,
        ),
        engine.fullsize_paint(surface, alpha) matches Some(paint) ==> looks(
            paint,
            surface,
            engine.color,
            alpha as int,
            false,
            false,
        ),
{
    pixels::law_pixels_show_their_color(engine.color, alpha);
}

/// Dimming all draws every surface that has a size, but for overlays whose output
/// is listed, or is followed and has the focus. It draws nothing else.
pub proof fn law_dimming_all_draws_what_is_not_skipped(
    engine: ZenState,
    alpha: u8,
    i: int,
    n: int,
)
    ensures
        ({
            let paints = engine.surfaces@.filter_map(engine.dimming_painter(alpha));
            &&& 0 <= i < engine.surfaces@.len() && has_size(engine.surfaces@[i])
                && !engine.skips(engine.surfaces@[i]) ==> draws_at(
                engine,
                paints,
                engine.surfaces@[i],
                alpha as int,
            )
            &&& 0 <= n < paints.len() ==> exists|j: int|
                #![trigger engine.surfaces@[j]]
                0 <= j < engine.surfaces@.len() && !engine.skips(engine.surfaces@[j]) && looks(
                    paints[n],
                    engine.surfaces@[j],
                    engine.color,
                    alpha as int,
                    engine.viewporter,
                    false,
                )
        }),
{
    let painter = engine.dimming_painter(alpha);
    let paints = engine.surfaces@.filter_map(painter);
    if 0 <= i < engine.surfaces@.len() && has_size(engine.surfaces@[i]) && !engine.skips(
        engine.surfaces@[i],
    ) {
        law_drawn_surface_looks_right(engine, engine.surfaces@[i], alpha);
        seqs::lemma_filter_map_contains(engine.surfaces@, painter, i);
        assert(paints.contains(engine.alpha_paint(engine.surfaces@[i], alpha)->0));
    }
    let holds = |paint: Paint|
        exists|j: int|
            #![trigger engine.surfaces@[j]]
            0 <= j < engine.surfaces@.len() && !engine.skips(engine.surfaces@[j]) && looks(
                paint,
                engine.surfaces@[j],
                engine.color,
                alpha as int,
                engine.viewporter,
                false,
            );
    assert forall|j: int| 0 <= j < engine.surfaces@.len() implies (#[trigger] painter(
        engine.surfaces@[j],
    ) matches Some(paint) ==> holds(paint)) by {
        law_drawn_surface_looks_right(engine, engine.surfaces@[j], alpha);
    }
    seqs::lemma_filter_map_all(engine.surfaces@, painter, holds);
    if 0 <= n < paints.len() {
        assert(holds(paints[n]));
    }
}

/// The buffer that is shared when all surfaces are dimmed is one pixel that shows
/// the color at the alpha. The first surface keeps it.
pub proof fn law_shared_buffer_is_one_pixel(engine: ZenState, alpha: u8)
    ensures
        ({
            let shared = engine.shared_buffer(alpha);
            &&& shared.width == 1 && shared.height == 1 && shared.stride == 4
            &&& is_pixel(shared.pixel, engine.color, alpha as int)
            &&& shared.keeper is Some <==> engine.surfaces@.len() > 0
            &&& shared.keeper matches Some(key) ==> key.output == engine.surfaces@[0].output
                && key.role == engine.surfaces@[0].role
        }),
{
    pixels::law_pixels_show_their_color(engine.color, alpha);
}

/// Drawing the overlays of an output draws each of them that has a size, and no
/// backdrop and no surface of another output.
pub proof fn law_drawing_an_output_draws_its_overlays(
    engine: ZenState,
    name: Seq<char>,
    alpha: u8,
    i: int,
    n: int,
)
    ensures
        ({
            let paints = engine.surfaces@.filter_map(engine.overlay_painter(name, alpha));
            &&& 0 <= i < engine.surfaces@.len() && has_size(engine.surfaces@[i])
                && engine.surfaces@[i].role == SurfaceRole::Overlay && stands_on(
                engine.surfaces@[i],
                name,
            ) ==> draws_at(engine, paints, engine.surfaces@[i], alpha as int)
            &&& 0 <= n < paints.len() ==> exists|j: int|
                #![trigger engine.surfaces@[j]]
                0 <= j < engine.surfaces@.len() && engine.surfaces@[j].role == SurfaceRole::Overlay
                    && stands_on(engine.surfaces@[j], name) && looks(
                    paints[n],
                    engine.surfaces@[j],
                    engine.color,
                    alpha as int,
                    engine.viewporter,
                    false,
                )
        }),
{
    let painter = engine.overlay_painter(name, alpha);
    let paints = engine.surfaces@.filter_map(painter);
    if 0 <= i < engine.surfaces@.len() && has_size(engine.surfaces@[i])
        && engine.surfaces@[i].role == SurfaceRole::Overlay && stands_on(
        engine.surfaces@[i],
        name,
    ) {
        law_drawn_surface_looks_right(engine, engine.surfaces@[i], alpha);
        seqs::lemma_filter_map_contains(engine.surfaces@, painter, i);
        assert(paints.contains(engine.alpha_paint(engine.surfaces@[i], alpha)->0));
    }
    let holds = |paint: Paint|
        exists|j: int|
            #![trigger engine.surfaces@[j]]
            0 <= j < engine.surfaces@.len() && engine.surfaces@[j].role == SurfaceRole::Overlay
                && stands_on(engine.surfaces@[j], name) && looks(
                paint,
                engine.surfaces@[j],
                engine.color,
                alpha as int,
                engine.viewporter,
                false,
            );
    assert forall|j: int| 0 <= j < engine.surfaces@.len() implies (#[trigger] painter(
        engine.surfaces@[j],
    ) matches Some(paint) ==> holds(paint)) by {
        law_drawn_surface_looks_right(engine, engine.surfaces@[j], alpha);
    }
    seqs::lemma_filter_map_all(engine.surfaces@, painter, holds);
    if 0 <= n < paints.len() {
        assert(holds(paints[n]));
    }
}

/// Dimming an output draws its overlays at the target opacity; where there is no
/// output to dim, nothing is drawn.
pub proof fn law_dimmed_output_is_at_the_target(engine: ZenState, name: Seq<char>, i: int)
    requires
        0 <= engine.target_opacity@ <= WHOLE,
        0 <= i < engine.surfaces@.len(),
        has_size(engine.surfaces@[i]),
        engine.surfaces@[i].role == SurfaceRole::Overlay,
        stands_on(engine.surfaces@[i], name),
    ensures
        draws_at(
            engine,
            engine.snap_paints(Some(name)),
            engine.surfaces@[i],
            engine.target_opacity@ * 255 / WHOLE as int,
        ),
        engine.snap_paints(None).len() == 0,
{
    law_drawing_an_output_draws_its_overlays(
        engine,
        name,
        render::floor_alpha(engine.target_opacity@) as u8,
        i,
        -1,
    );
}

/// A backdrop that is told its size is at the target opacity. An overlay is
/// transparent while it is to fade in or its output is skipped, and else at the
/// target too.
pub proof fn law_first_look_of_a_surface(engine: ZenState, surface: OverlaySurface)
    requires
        0 <= engine.target_opacity@ <= WHOLE,
    ensures
        surface.role == SurfaceRole::Backdrop ==> engine.initial_alpha(surface)
            == engine.target_opacity@ * 255 / WHOLE as int,
        surface.role == SurfaceRole::Overlay && (engine.phase == LoopPhase::FadingIn
            || engine.skips(surface)) ==> engine.initial_alpha(surface) == 0,
        surface.role == SurfaceRole::Overlay && engine.phase != LoopPhase::FadingIn
            && !engine.skips(surface) ==> engine.initial_alpha(surface) == engine.target_opacity@
            * 255 / WHOLE as int,
{
}

/// Dimming the gamma sets every control that is ready to the brightness, but for
/// those of skipped surfaces, and sets nothing else.
pub proof fn law_gamma_is_dimmed_where_not_skipped(
    engine: ZenState,
    brightness: Brightness,
    i: int,
    n: int,
)
    ensures
        ({
            let actions = engine.surfaces@.filter_map(engine.gamma_setter(brightness));
            &&& 0 <= i < engine.surfaces@.len() && !engine.skips(engine.surfaces@[i]) ==> (
            engine.surfaces@[i].gamma matches GammaState::Ready { control, size }
                ==> actions.contains(Action::SetGamma { control, size, brightness }))
            &&& 0 <= n < actions.len() ==> (actions[n] matches Action::SetGamma {
                control,
                size,
                brightness: set,
            } && set == brightness && exists|j: int|
                #![trigger engine.surfaces@[j]]
                0 <= j < engine.surfaces@.len() && !engine.skips(engine.surfaces@[j])
                    && engine.surfaces@[j].gamma == (GammaState::Ready { control, size }))
        }),
{
    let setter = engine.gamma_setter(brightness);
    let actions = engine.surfaces@.filter_map(setter);
    if 0 <= i < engine.surfaces@.len() && !engine.skips(engine.surfaces@[i]) {
        if engine.surfaces@[i].gamma is Ready {
            seqs::lemma_filter_map_contains(engine.surfaces@, setter, i);
        }
    }
    let holds = |action: Action|
        action matches Action::SetGamma { control, size, brightness: set } && set == brightness
            && exists|j: int|
            #![trigger engine.surfaces@[j]]
            0 <= j < engine.surfaces@.len() && !engine.skips(engine.surfaces@[j])
                && engine.surfaces@[j].gamma == (GammaState::Ready { control, size });
    assert forall|j: int| 0 <= j < engine.surfaces@.len() implies (#[trigger] setter(
        engine.surfaces@[j],
    ) matches Some(action) ==> holds(action)) by {}
    seqs::lemma_filter_map_all(engine.surfaces@, setter, holds);
    if 0 <= n < actions.len() {
        assert(holds(actions[n]));
    }
}

/// A fade-out waits for its delay and is done once its duration has passed too;
/// it is transparent then. In between its alpha is that of the target times the
/// square of the share of time that is left, to the nearest byte.
pub proof fn law_fade_out_follows_the_curve(
    delay: nat,
    duration: nat,
    elapsed: nat,
    target: int,
)
    requires
        0 <= target <= WHOLE,
    ensures
        elapsed < delay ==> transition::tick_at(delay, duration, elapsed, target)
            == TransitionTick::Waiting,
        elapsed >= delay + duration ==> transition::tick_at(delay, duration, elapsed, target) == (
        TransitionTick::Done { alpha: 0 }),
        delay <= elapsed < delay + duration ==> (transition::tick_at(
            delay,
            duration,
            elapsed,
            target,
        ) matches TransitionTick::Fading { alpha } && {
            let rest = delay + duration - elapsed;
            let dd = (duration * duration) as int;
            -(WHOLE / 2 + 1020) * dd <= alpha * WHOLE * dd - 255 * target * (rest * rest) <= (WHOLE
                / 2 + 1020) * dd
        }),
{
    if elapsed >= delay + duration {
        crate::laws::fading::law_tick_ends_transparent(delay, duration, elapsed, target);
    } else if elapsed >= delay {
        let e = (elapsed - delay) as nat;
        let d = duration as int;
        let rest = d - e;
        let p = fraction::progress_parts(e, duration);
        fraction::lemma_progress_bounds(e, duration);
        fraction::lemma_eased_bounds(p);
        let left = WHOLE - fraction::eased(p);
        let x = fraction::product(left, target);
        fraction::lemma_product_bounds(left, target);
        easing::law_fade_leaves_the_square_of_the_time_left(e, duration);
        easing::law_product_rounds_half_up(left, target);
        assert(left * target == target * left) by (nonlinear_arith);
        easing::lemma_share_of_a_fade(target, x, left, rest, d);
        easing::law_nearest_alpha_and_multiplier(x);
        let a = state::nearest_alpha(x);
        let dd = d * d;
        let ss = rest * rest;
        assert(0 <= a <= 255);
        assert(dd >= 1) by (nonlinear_arith)
            requires
                d >= 1,
                dd == d * d,
        ;
        let y = a * WHOLE - x * 255;
        let z = x * dd - target * ss;
        assert(a * WHOLE * dd - 255 * target * ss == y * dd + 255 * z) by (nonlinear_arith)
            requires
                y == a * WHOLE - x * 255,
                z == x * dd - target * ss,
        ;
        assert(-500_000_000_000_000 * dd <= y * dd <= 500_000_000_000_000 * dd)
            by (nonlinear_arith)
            requires
                -500_000_000_000_000 <= y <= 500_000_000_000_000,
                dd >= 1,
        ;
        assert((WHOLE / 2 + 1020) * dd == 500_000_000_001_020 * dd);
        assert(-(WHOLE / 2 + 1020) * dd == -500_000_000_001_020 * dd);
    }
}

/// A tick draws the first overlay of the output being revealed, at the alpha that
/// the fade has come to. Before the delay has passed, and where there is no such
/// overlay, it draws nothing.
pub proof fn law_tick_draws_the_revealed_overlay(
    engine: ZenState,
    now: nat,
    name: Seq<char>,
    i: int,
)
    requires
        engine.transition matches Some(t) && says(t.revealing, name) && t.start@ <= now,
        first_overlay(engine.surfaces@, i, name),
    ensures
        ({
            let t = engine.transition->0;
            let tick = transition::tick_at(
                t.delay@,
                t.duration@,
                (now - t.start@) as nat,
                engine.target_opacity@,
            );
            let paint = engine.tick_paint(now);
            &&& engine.tick_now(now) == tick
            &&& tick is Waiting ==> paint is None
            &&& tick matches TransitionTick::Fading { alpha } ==> (paint is Some <==> has_size(
                engine.surfaces@[i],
            )) && (paint matches Some(p) ==> looks(
                p,
                engine.surfaces@[i],
                engine.color,
                alpha as int,
                engine.viewporter,
                false,
            ))
            &&& tick matches TransitionTick::Done { alpha } ==> (paint is Some <==> has_size(
                engine.surfaces@[i],
            )) && (paint matches Some(p) ==> looks(
                p,
                engine.surfaces@[i],
                engine.color,
                alpha as int,
                engine.viewporter,
                false,
            ))
        }),
{
    let t = engine.transition->0;
    let wanted = surface::overlay_named(Some(name));
    assert forall|j: int| 0 <= j < i implies !wanted(#[trigger] engine.surfaces@[j]) by {}
    seqs::lemma_first_at(engine.surfaces@, wanted, i);
    match engine.tick_now(now) {
        TransitionTick::Waiting => {},
        TransitionTick::Fading { alpha } => {
            law_drawn_surface_looks_right(engine, engine.surfaces@[i], alpha);
        },
        TransitionTick::Done { alpha } => {
            law_drawn_surface_looks_right(engine, engine.surfaces@[i], alpha);
        },
    }
}

/// Without a transition a tick draws nothing, and a clock that stands before the
/// start of one counts as its start.
pub proof fn law_tick_without_a_transition(engine: ZenState, now: nat)
    ensures
        engine.transition is None ==> engine.tick_paint(now) is None,
        engine.transition matches Some(t) ==> (now <= t.start@ ==> engine.tick_now(now)
            == engine.tick_now(t.start@) && engine.tick_paint(now) == engine.tick_paint(t.start@)),
{
}

/// The focus is on the output of the first activated toplevel, if that is on one
/// whose name is known. Without an activated toplevel it is on none.
pub proof fn law_direct_focus_is_on_the_output_of_the_activated_toplevel(
    engine: ZenState,
    i: int,
    name: Seq<char>,
)
    ensures
        0 <= i < engine.toplevels@.len() && engine.toplevels@[i].activated && (forall|j: int|
            0 <= j < i ==> !(#[trigger] engine.toplevels@[j]).activated) ==> (
        engine.focused_name() == Some(name) <==> (engine.toplevels@[i].output is Some && is_called(
            engine.outputs@,
            engine.toplevels@[i].output->0,
            name,
        ))),
        (forall|j: int|
            0 <= j < engine.toplevels@.len() ==> !(#[trigger] engine.toplevels@[j]).activated)
            ==> engine.focused_name() is None,
{
    let wanted = |top: TrackedToplevel| top.activated;
    if 0 <= i < engine.toplevels@.len() && engine.toplevels@[i].activated && (forall|j: int|
        0 <= j < i ==> !(#[trigger] engine.toplevels@[j]).activated) {
        seqs::lemma_first_at(engine.toplevels@, wanted, i);
        if let Some(output) = engine.toplevels@[i].output {
            windows::law_outputs_go_by_their_names(engine.outputs@, output, name);
        }
    }
    if forall|j: int|
        0 <= j < engine.toplevels@.len() ==> !(#[trigger] engine.toplevels@[j]).activated {
        seqs::lemma_none_fits(engine.toplevels@, wanted, engine.toplevels@.len() as int);
    }
}

/// The focus has moved where it is followed and is elsewhere than it was.
pub proof fn law_direct_focus_moves_where_it_is_followed(engine: ZenState, name: Seq<char>)
    ensures
        !engine.skip_active ==> !engine.focus_moved(),
        engine.skip_active && engine.focused_name() == Some(name) ==> (engine.focus_moved()
            <==> !says(engine.active_output, name)),
        engine.skip_active && engine.focused_name() is None ==> (engine.focus_moved()
            <==> engine.active_output is Some),
{
}

/// An activated window that enters an output dims the one it was on. A window
/// that leaves an output dims that one, where it has the focus or is being
/// revealed. No other event dims anything.
pub proof fn law_direct_events_dim_what_is_left(
    engine: ZenState,
    handle: u32,
    event: ToplevelEvent,
    name: Seq<char>,
)
    ensures
        event is OutputEnter ==> (engine.snapped_output(handle, event) == Some(name) <==> ({
            let top = toplevel::lookup(engine.toplevels@, handle);
            top.activated && top.output is Some && is_called(
                engine.outputs@,
                top.output->0,
                name,
            )
        })),
        event matches ToplevelEvent::OutputLeave { output } ==> (engine.snapped_output(
            handle,
            event,
        ) == Some(name) <==> is_called(engine.outputs@, output, name) && (says(
            engine.active_output,
            name,
        ) || (engine.transition is Some && says(engine.transition->0.revealing, name)))),
        !(event is OutputEnter || event is OutputLeave) ==> engine.snapped_output(handle, event)
            is None,
{
    match event {
        ToplevelEvent::OutputEnter { output: _ } => {
            let top = toplevel::lookup(engine.toplevels@, handle);
            if let Some(output) = top.output {
                windows::law_outputs_go_by_their_names(engine.outputs@, output, name);
            }
        },
        ToplevelEvent::OutputLeave { output } => {
            windows::law_outputs_go_by_their_names(engine.outputs@, output, name);
        },
        _ => {},
    }
}

/// A transition is dropped exactly when the output that it reveals is dimmed, and
/// else goes on as it is.
pub proof fn law_direct_transition_survives_elsewhere(engine: ZenState, name: Seq<char>)
    ensures
        engine.surviving(None) == engine.transition,
        engine.transition matches Some(t) ==> (says(t.revealing, name) ==> engine.surviving(
            Some(name),
        ) is None),
        engine.transition matches Some(t) ==> (!says(t.revealing, name) ==> engine.surviving(
            Some(name),
        ) == Some(t)),
        engine.transition is None ==> engine.surviving(Some(name)) is None,
{
}

/// What an event tells of a toplevel is what is known of it from then on, and
/// all else that was known of it stays, and of every other one. A closed one is
/// not known any more.
pub proof fn law_direct_events_tell_of_their_toplevel(
    engine: ZenState,
    handle: u32,
    event: ToplevelEvent,
    order: ByteOrder,
    other: u32,
)
    requires
        engine.wf(),
        other != handle,
        !(event is Closed),
    ensures
        ({
            let before = toplevel::lookup(engine.toplevels@, handle);
            let tops = engine.event_tops(handle, event, order);
            let after = toplevel::lookup(tops, handle);
            &&& after.handle == handle
            &&& event matches ToplevelEvent::OutputEnter { output } ==> after.output == Some(
                output,
            ) && after.activated == before.activated
            &&& event is OutputLeave ==> after.output is None && after.activated
                == before.activated
            &&& event matches ToplevelEvent::State { raw } ==> after.output == before.output
                && after.activated == wayland::words(raw@, order).contains(2)
            &&& event is Done ==> tops == engine.toplevels@
            &&& toplevel::lookup(tops, other) == toplevel::lookup(engine.toplevels@, other)
        }),
{
    let tops = engine.toplevels@;
    let top = toplevel::lookup(tops, handle);
    let hs = toplevel::handles(tops);
    if hs.contains(handle) {
        assert(hs[hs.index_of(handle)] == handle);
    }
    assert(top.handle == handle);
    match event {
        ToplevelEvent::OutputEnter { output } => {
            tracking::law_direct_lookup_finds_what_was_stored(
                tops,
                TrackedToplevel { output: Some(output), ..top },
                other,
            );
        },
        ToplevelEvent::OutputLeave { output: _ } => {
            tracking::law_direct_lookup_finds_what_was_stored(
                tops,
                TrackedToplevel { output: None, ..top },
                other,
            );
        },
        ToplevelEvent::State { raw } => {
            tracking::law_direct_lookup_finds_what_was_stored(
                tops,
                TrackedToplevel {
                    activated: toplevel::has_activated(wayland::words(raw@, order)),
                    ..top
                },
                other,
            );
        },
        _ => {},
    }
}

/// A closed toplevel is not tracked any more; every other one still is.
pub proof fn law_direct_closed_toplevel_is_gone(
    engine: ZenState,
    handle: u32,
    order: ByteOrder,
    i: int,
)
    ensures
        ({
            let tops = engine.event_tops(handle, ToplevelEvent::Closed, order);
            &&& 0 <= i < tops.len() ==> tops[i].handle != handle && engine.toplevels@.contains(
                tops[i],
            )
            &&& 0 <= i < engine.toplevels@.len() && engine.toplevels@[i].handle != handle
                ==> tops.contains(engine.toplevels@[i])
        }),
{
    broadcast use vstd::seq_lib::group_filter_ensures;

    let others = |t: TrackedToplevel| t.handle != handle;
    let tops = engine.event_tops(handle, ToplevelEvent::Closed, order);
    seqs::lemma_filtered_fits(engine.toplevels@, others);
    if 0 <= i < tops.len() {
        assert(others(tops[i]));
    }
    if 0 <= i < engine.toplevels@.len() && engine.toplevels@[i].handle != handle {
        assert(others(engine.toplevels@[i]));
    }
}

/// What is known of a toplevel in the direct engine is its entry; of one without
/// an entry nothing is known.
pub proof fn law_direct_toplevels_go_by_their_handles(tops: Seq<TrackedToplevel>, handle: u32)
    requires
        forall|i: int, j: int|
            0 <= i < j < tops.len() ==> (#[trigger] tops[i]).handle != (#[trigger] tops[j]).handle,
    ensures
        forall|i: int|
            0 <= i < tops.len() && (#[trigger] tops[i]).handle == handle ==> toplevel::lookup(
                tops,
                handle,
            ) == tops[i],
        (forall|i: int| 0 <= i < tops.len() ==> (#[trigger] tops[i]).handle != handle)
            ==> toplevel::lookup(tops, handle) == (TrackedToplevel {
            handle,
            activated: false,
            output: None,
        }),
{
    let hs = toplevel::handles(tops);
    assert forall|i: int|
        0 <= i < tops.len() && (#[trigger] tops[i]).handle == handle implies toplevel::lookup(
        tops,
        handle,
    ) == tops[i] by {
        assert(hs[i] == handle);
        let k = hs.index_of(handle);
        assert(hs[k] == tops[k].handle);
        if k < i {
            assert(tops[k].handle != tops[i].handle);
        } else if i < k {
            assert(tops[i].handle != tops[k].handle);
        }
    }
}

} // verus!
