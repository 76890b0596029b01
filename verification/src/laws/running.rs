//! The life of the event loop.

use crate::app;
use crate::app::{App, AppPhase};
use crate::dim::DimView;
use crate::gamma::ByteOrder;
use crate::laws::dimming;
use crate::laws::tracking;
use crate::run;
use crate::run::{SetupStep, Stage};
use crate::seqs;
use crate::span::Span;
use crate::wayland;
use crate::wayland::{OutputInfo, ToplevelEvent, ToplevelState, ToplevelView};
use crate::window::{Config, SpawnMode};
use vstd::prelude::*;

verus! {

/// How many steps lie between a setup step and the end, where no surface keeps
/// the loop waiting.
pub open spec fn steps_left(step: SetupStep) -> nat {
    match step {
        SetupStep::Settle(_) => 12,
        SetupStep::Connect => 11,
        SetupStep::Registry => 10,
        SetupStep::Compositor => 9,
        SetupStep::LayerShell => 8,
        SetupStep::Shm => 7,
        SetupStep::Pool => 6,
        SetupStep::Globals => 5,
        SetupStep::Discover => 4,
        SetupStep::Describe => 3,
        SetupStep::Surfaces => 2,
        SetupStep::Configure | SetupStep::Await => 1,
        SetupStep::Ready => 0,
    }
}

/// Setup comes one step closer to its end each time, as long as it does not wait
/// for a surface to be configured.
pub proof fn law_setup_comes_to_an_end(step: SetupStep, configured: bool)
    requires
        step != SetupStep::Ready,
        configured || steps_left(step) > 1,
    ensures
        steps_left(run::step_after(step, configured)) == steps_left(step) - 1,
{
}

/// Overlays are reported as ready only once all surfaces are configured.
pub proof fn law_ready_means_configured(step: SetupStep, configured: bool)
    requires
        step != SetupStep::Ready,
    ensures
        run::step_after(step, configured) == SetupStep::Ready ==> configured,
{
}

/// A loop that is shutting down is never taken up again: no event brings it
/// back, and it does not go on.
pub proof fn law_shutdown_is_final(app: App, event: ToplevelEvent)
    requires
        app.phase == AppPhase::ShuttingDown,
    ensures
        app.event_phase(event) == AppPhase::ShuttingDown,
        !run::goes_on(app.phase),
{
}

/// Whether no output has the focus: none is active, and none is skipped.
pub open spec fn none_focused(state: DimView) -> bool {
    &&& state.active is None
    &&& forall|name: Seq<char>|
        state.states.dom().contains(name) ==> !(#[trigger] state.states[name]).skipped
}

/// While a choreographed launch fades in, no event and no new output gives an
/// output the focus, and the phase stays.
pub proof fn law_launch_gives_no_output_the_focus(
    app: App,
    handle: u32,
    event: ToplevelEvent,
    now: nat,
    outputs: Seq<OutputInfo>,
)
    requires
        app.config.spawn_mode == SpawnMode::SpawnWith,
        app.phase == AppPhase::FadingIn,
        none_focused(app.dim@),
    ensures
        none_focused(app.event_dim(handle, event, now)),
        none_focused(app::registered(app.dim@, outputs)),
        app.event_phase(event) == AppPhase::FadingIn,
        event is Done ==> app.event_dim(handle, event, now) == app.dim@ && app.event_actions(
            handle,
            event,
        ) == Seq::<crate::render::Action>::empty(),
    decreases outputs.len(),
{
    if outputs.len() > 0 {
        law_launch_gives_no_output_the_focus(app, handle, event, now, outputs.drop_last());
        let before = app::registered(app.dim@, outputs.drop_last());
        let after = app::registered(app.dim@, outputs);
        assert forall|name: Seq<char>| after.states.dom().contains(name) implies !(
        #[trigger] after.states[name]).skipped by {
            if before.states.dom().contains(name) {
                assert(!before.states[name].skipped);
            }
        }
    } else {
        assert(app::registered(app.dim@, outputs) == app.dim@);
    }
}

/// While a choreographed launch waits for its window, no output is given the
/// focus: neither by an event, unless it tells of that window, nor by a round of
/// the loop, unless the wait is over.
pub proof fn law_waiting_launch_gives_no_output_the_focus(
    app: App,
    handle: u32,
    event: ToplevelEvent,
    now: nat,
    waited: nat,
)
    requires
        app.phase == AppPhase::WaitingForReveal,
        none_focused(app.dim@),
    ensures
        !(event is Done && app.launch_place() is Some) ==> none_focused(
            app.event_dim(handle, event, now),
        ) && app.event_phase(event) == AppPhase::WaitingForReveal,
        !run::overdue(app, waited) ==> none_focused(
            run::settled_dim(app, now, waited).ticked(now),
        ),
{
    let ticked = app.dim@.ticked(now);
    assert forall|name: Seq<char>| ticked.states.dom().contains(name) implies !(
    #[trigger] ticked.states[name]).skipped by {
        assert(app.dim@.states.dom().contains(name));
        assert(!app.dim@.states[name].skipped);
    }
}

/// Whether all outputs are dark: none has the focus, all are dimmed, and nothing
/// fades.
pub open spec fn all_dark(state: DimView) -> bool {
    &&& none_focused(state)
    &&& state.transition is None
    &&& forall|name: Seq<char>|
        state.states.dom().contains(name) ==> #[trigger] state.states[name] == state.dimmed()
}

/// Once all outputs are dark, they stay so until the reveal.
pub proof fn law_darkness_lasts_until_the_reveal(
    app: App,
    handle: u32,
    event: ToplevelEvent,
    now: nat,
    waited: nat,
)
    requires
        app.phase == AppPhase::WaitingForReveal,
        all_dark(app.dim@),
    ensures
        !(event is Done && app.launch_place() is Some) ==> all_dark(
            app.event_dim(handle, event, now),
        ),
        !run::overdue(app, waited) ==> run::settled_dim(app, now, waited).ticked(now) == app.dim@,
{
    law_waiting_launch_gives_no_output_the_focus(app, handle, event, now, waited);
    dimming::law_idle_tick_is_quiet(app.dim@, now);
}

/// Where no output has the focus, the fade-in darkens all of them: its frames
/// give none the focus, and its last one shows every output dimmed.
pub proof fn law_launch_darkens_all_outputs(
    state: DimView,
    elapsed: nat,
    duration: nat,
    name: Seq<char>,
)
    requires
        state.wf(),
        none_focused(state),
        state.states.dom().contains(name),
    ensures
        none_focused(state.faded_in(elapsed, duration)),
        none_focused(state.snapped()),
        state.snapped().states[name] == state.dimmed(),
        elapsed >= duration ==> state.faded_in(elapsed, duration).states[name] == state.dimmed(),
{
    if elapsed >= duration {
        dimming::law_fade_in_frame_ends_snapped(state, elapsed, duration);
    }
    let faded = state.faded_in(elapsed, duration);
    assert forall|n: Seq<char>| faded.states.dom().contains(n) implies !(
    #[trigger] faded.states[n]).skipped by {
        assert(!state.states[n].skipped);
    }
    assert forall|n: Seq<char>| state.snapped().states.dom().contains(n) implies !(
    #[trigger] state.snapped().states[n]).skipped by {
        assert(!state.states[n].skipped);
    }
}

/// A launch reveals the output of a window that was not there before and is
/// fullscreen.
pub proof fn law_launch_reveals_a_new_fullscreen_window(app: App)
    requires
        app.launch_place() is Some,
    ensures
        exists|top: ToplevelView|
            #![trigger app.tops().contains(top)]
            app.tops().contains(top) && !app.launched_over@.contains(top.handle)
                && top.states.contains(ToplevelState::Fullscreen) && app::place(
                app.wl.outputs@,
                top,
            ) == app.launch_place(),
{
    seqs::lemma_first_fits(app.tops(), app.is_launched());
    let top = seqs::first(app.tops(), app.is_launched())->0;
    assert(app.tops().contains(top));
}

/// Windows that were there before a launch reveal nothing.
pub proof fn law_old_windows_reveal_nothing(app: App)
    requires
        forall|i: int|
            0 <= i < app.tops().len() ==> app.launched_over@.contains(
                (#[trigger] app.tops()[i]).handle,
            ),
    ensures
        app.launch_place() is None,
{
    seqs::lemma_none_fits(app.tops(), app.is_launched(), app.tops().len() as int);
}

/// When a focused window starts to move, everything is dimmed and nothing fades.
pub proof fn law_moving_window_dims_everything(app: App, handle: u32, output: u32, now: nat)
    requires
        wayland::lookup(app.tops(), handle).moving_to(output),
    ensures
        ({
            let after = app.event_dim(handle, ToplevelEvent::OutputEnter { output }, now);
            &&& after.transition is None
            &&& forall|name: Seq<char>|
                app.dim@.states.dom().contains(name) ==> after.states.dom().contains(name)
                    && #[trigger] after.states[name] == app.dim@.dimmed()
        }),
{
}

/// Events of windows without the focus dim nothing.
pub proof fn law_unfocused_windows_dim_nothing(app: App, handle: u32, output: u32, now: nat)
    requires
        wayland::lookup(app.tops(), handle).focus == wayland::ToplevelFocus::Inactive,
    ensures
        app.event_dim(handle, ToplevelEvent::OutputEnter { output }, now) == app.dim@,
        app.event_dim(handle, ToplevelEvent::OutputLeave { output }, now) == app.dim@,
        app.event_actions(handle, ToplevelEvent::OutputEnter { output }) == Seq::<
            crate::render::Action,
        >::empty(),
        app.event_actions(handle, ToplevelEvent::OutputLeave { output }) == Seq::<
            crate::render::Action,
        >::empty(),
{
}

/// An event tells of one toplevel: all that is known of another stays.
pub proof fn law_events_touch_one_toplevel(
    app: App,
    handle: u32,
    event: ToplevelEvent,
    order: ByteOrder,
    other: u32,
)
    requires
        app.wf(),
        other != handle,
    ensures
        wayland::handles(app.event_tops(handle, event, order)).no_duplicates(),
        wayland::lookup(app.event_tops(handle, event, order), other) == wayland::lookup(
            app.tops(),
            other,
        ),
{
    let tops = app.tops();
    let top = wayland::lookup(tops, handle);
    if wayland::handles(tops).contains(handle) {
        assert(wayland::handles(tops)[wayland::handles(tops).index_of(handle)] == handle);
    }
    assert(top.handle == handle);
    match event {
        ToplevelEvent::OutputEnter { output } => {
            tracking::law_lookup_finds_what_was_stored(
                tops,
                ToplevelView { output: Some(output), ..top },
                other,
            );
        },
        ToplevelEvent::OutputLeave { output } => {
            tracking::law_lookup_finds_what_was_stored(
                tops,
                top.having_left(output),
                other,
            );
        },
        ToplevelEvent::State { raw } => {
            tracking::law_lookup_finds_what_was_stored(
                tops,
                top.with_states(wayland::known_states(wayland::words(raw@, order))),
                other,
            );
        },
        ToplevelEvent::Done => {},
        ToplevelEvent::Closed => {
            tracking::law_removed_toplevel_is_unknown(tops, handle, other);
        },
    }
}

/// How far a stage is along.
pub open spec fn rank(stage: Stage) -> nat {
    match stage {
        Stage::Ready => 0,
        Stage::Snapping => 1,
        Stage::Fading(_) => 1,
        Stage::Settling => 2,
        Stage::Shown => 3,
        Stage::Launched => 4,
        Stage::Steady(_) => 5,
        Stage::Ended => 6,
    }
}

/// The loop never goes back: it leaves the fade-in and the steady state only
/// forward, and every other stage after one round. So the overlays are reported
/// as ready once, a callback runs at most once, and an end is final.
pub proof fn law_stages_only_go_forward(
    stage: Stage,
    config: Config,
    phase: AppPhase,
    now: Span,
)
    ensures
        rank(run::stage_after(stage, config, phase, now)) >= rank(stage),
        !(stage is Fading || stage is Steady || stage is Ended) ==> rank(
            run::stage_after(stage, config, phase, now),
        ) > rank(stage),
        run::stage_after(Stage::Ended, config, phase, now) == Stage::Ended,
{
}

/// The fade-in lasts exactly as long as configured, counted from its first
/// frame; without one, everything is shown in the round after the overlays are
/// reported as ready.
pub proof fn law_fade_in_lasts_as_configured(
    config: Config,
    duration: Span,
    phase: AppPhase,
    start: Span,
    now: Span,
)
    requires
        config.fade_duration == Some(duration),
        start@ <= now@,
    ensures
        run::stage_after(Stage::Ready, config, phase, start) == Stage::Fading(start),
        run::stage_after(Stage::Fading(start), config, phase, now) == Stage::Settling <==> now@
            - start@ >= duration@,
        run::stage_after(
            Stage::Ready,
            Config { fade_duration: None, ..config },
            phase,
            start,
        ) == Stage::Snapping,
{
}

/// A toplevel that enters one output and then leaves another is on the one it
/// entered, whichever it came from. One that leaves the output it is on is on
/// none.
pub proof fn law_toplevel_is_where_it_entered_last(
    before: App,
    between: App,
    handle: u32,
    from: u32,
    to: u32,
    order: ByteOrder,
)
    requires
        wayland::handles(before.tops()).no_duplicates(),
        from != to,
        between.tops() == before.event_tops(
            handle,
            ToplevelEvent::OutputEnter { output: to },
            order,
        ),
    ensures
        wayland::lookup(between.tops(), handle).output == Some(to),
        wayland::lookup(
            between.event_tops(handle, ToplevelEvent::OutputLeave { output: from }, order),
            handle,
        ) == wayland::lookup(between.tops(), handle),
        wayland::lookup(
            between.event_tops(handle, ToplevelEvent::OutputLeave { output: to }, order),
            handle,
        ).output is None,
{
    let other: u32 = if handle == 0 {
        1
    } else {
        0
    };
    let entered = ToplevelView {
        output: Some(to),
        ..wayland::lookup(before.tops(), handle)
    };
    tracking::law_lookup_finds_what_was_stored(before.tops(), entered, other);
    tracking::law_lookup_finds_what_was_stored(between.tops(), entered.having_left(from), other);
    tracking::law_lookup_finds_what_was_stored(between.tops(), entered.having_left(to), other);
}

} // verus!
