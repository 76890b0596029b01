//! What the loop does when, and how starting up can fail.

use crate::app::{App, AppPhase};
use crate::error::SpawnErrorView;
use crate::laws::windows;
use crate::run;
use crate::run::{SetupStep, Stage};
use crate::span::Span;
use crate::wayland::ToplevelFocus;
use crate::window::{Config, SpawnMode};
use vstd::prelude::*;

verus! {

/// Setup sleeps first where a settle delay is configured, for exactly that long,
/// and then connects; without one it connects at once.
pub proof fn law_setup_waits_for_the_settle_delay(settle_delay: Option<Span>, configured: bool)
    ensures
        settle_delay matches Some(delay) ==> run::first_step(settle_delay) == SetupStep::Settle(
            delay,
        ) && run::step_after(run::first_step(settle_delay), configured) == SetupStep::Connect,
        settle_delay is None ==> run::first_step(settle_delay) == SetupStep::Connect,
{
}

/// Surfaces are created only after the outputs are known and have told of
/// themselves, and setup waits for them until all are configured: ready is
/// reached from waiting alone.
pub proof fn law_setup_waits_for_its_surfaces(step: SetupStep, configured: bool)
    ensures
        run::step_after(step, configured) == SetupStep::Surfaces ==> step == SetupStep::Describe,
        run::step_after(step, configured) == SetupStep::Describe ==> step == SetupStep::Discover,
        run::step_after(step, configured) == SetupStep::Configure <==> step == SetupStep::Surfaces,
        run::step_after(step, configured) == SetupStep::Await <==> !configured && (step
            == SetupStep::Configure || step == SetupStep::Await),
        run::step_after(step, configured) == SetupStep::Ready <==> step == SetupStep::Ready || (
        configured && (step == SetupStep::Configure || step == SetupStep::Await)),
{
}

/// An error tells its cause. Which one it is tells what failed: the connection, a
/// protocol that the compositor lacks, by its name, or anything after that.
pub proof fn law_errors_tell_what_failed(step: SetupStep, cause: Seq<char>)
    ensures
        run::failure(step, cause).cause() == cause,
        run::failure(step, cause) is WaylandConnection <==> step == SetupStep::Connect,
        run::failure(step, cause) is MissingProtocol <==> step == SetupStep::Compositor || step
            == SetupStep::LayerShell || step == SetupStep::Shm,
        !(run::failure(step, cause) is ThreadSpawn),
        run::failure(step, cause) matches SpawnErrorView::MissingProtocol { protocol, source: _ }
            ==> protocol == (if step == SetupStep::Compositor {
            "wl_compositor"@
        } else if step == SetupStep::LayerShell {
            "zwlr_layer_shell_v1"@
        } else {
            "wl_shm"@
        }),
{
}

/// The message on a missing protocol ends with the name of the protocol.
pub proof fn law_missing_protocols_are_named(protocol: Seq<char>, source: Seq<char>)
    ensures
        ({
            let error = SpawnErrorView::MissingProtocol { protocol, source };
            let message = error.message();
            &&& message.len() >= protocol.len()
            &&& message.skip(message.len() - protocol.len()) == protocol
            &&& error.cause() == source
        }),
{
    let message = SpawnErrorView::MissingProtocol { protocol, source }.message();
    assert(message.skip(message.len() - protocol.len()) =~= protocol);
}

/// The application fades in first where a fade-in is configured or a launch is
/// choreographed, and else is in its steady state from the start.
pub proof fn law_phase_at_the_start(config: Config)
    ensures
        run::initial_phase(config) == AppPhase::FadingIn <==> config.fade_duration is Some
            || config.spawn_mode == SpawnMode::SpawnWith,
        run::initial_phase(config) != AppPhase::FadingIn ==> run::initial_phase(config)
            == AppPhase::Running,
{
}

/// The loop goes on in its steady state and while it waits for a window, and
/// nowhere else.
pub proof fn law_loop_goes_on_until_it_shuts_down(phase: AppPhase)
    ensures
        run::goes_on(AppPhase::Running),
        run::goes_on(AppPhase::WaitingForReveal),
        phase == AppPhase::ShuttingDown || phase == AppPhase::FadingIn ==> !run::goes_on(phase),
{
}

/// Only a launch can be overdue, and it is once five seconds have passed.
pub proof fn law_launch_is_overdue_after_five_seconds(app: App, waited: nat)
    ensures
        run::overdue(app, waited) <==> app.phase == AppPhase::WaitingForReveal && waited
            >= 5_000_000_000,
{
}

/// When a launch is overdue, the output that has the focus is revealed in place
/// of that of the window: it becomes the active one and its fade starts. Until
/// then, and without a launch, nothing changes.
pub proof fn law_overdue_launch_reveals_the_focused_output(
    app: App,
    now: nat,
    waited: nat,
    i: int,
    output: u32,
    name: Seq<char>,
)
    ensures
        app.phase != AppPhase::WaitingForReveal || waited < 5_000_000_000 ==> run::settled_dim(
            app,
            now,
            waited,
        ) == app.dim@,
        app.phase == AppPhase::WaitingForReveal && waited >= 5_000_000_000 && 0 <= i
            < app.tops().len() && app.tops()[i].focus == ToplevelFocus::Active
            && app.tops()[i].output == Some(output) && (forall|j: int|
            0 <= j < i ==> (#[trigger] app.tops()[j]).focus == ToplevelFocus::Inactive
                || app.tops()[j].output is None) && windows::is_called(
            app.wl.outputs@,
            output,
            name,
        ) ==> {
            let settled = run::settled_dim(app, now, waited);
            &&& settled.active == Some(name)
            &&& settled.transition matches Some(t) && t.start == now && t.delay == 50_000_000
                && t.duration == 200_000_000 && t.revealing == name
            &&& app.dim@.states.dom().contains(name) ==> settled.states[name].skipped
                && settled.states[name].alpha == app.dim@.states[name].alpha
        },
        (forall|j: int|
            0 <= j < app.tops().len() ==> (#[trigger] app.tops()[j]).focus
                == ToplevelFocus::Inactive || app.tops()[j].output is None) ==> run::settled_dim(
            app,
            now,
            waited,
        ) == app.dim@,
{
    if 0 <= i < app.tops().len() && app.tops()[i].focus == ToplevelFocus::Active
        && app.tops()[i].output == Some(output) && (forall|j: int|
        0 <= j < i ==> (#[trigger] app.tops()[j]).focus == ToplevelFocus::Inactive
            || app.tops()[j].output is None) {
        windows::law_focus_is_on_the_output_of_the_focused_toplevel(app, i, output, name);
    }
    if forall|j: int|
        0 <= j < app.tops().len() ==> (#[trigger] app.tops()[j]).focus == ToplevelFocus::Inactive
            || app.tops()[j].output is None {
        windows::law_no_focused_toplevel_no_focus(app);
    }
}

/// Once all is shown, a launch runs its callback before the loop starts, and the
/// clock of the loop starts after it; without a launch the loop starts at once.
/// It ends exactly when it does not go on.
pub proof fn law_stages_follow_each_other(
    config: Config,
    phase: AppPhase,
    since: Span,
    now: Span,
)
    ensures
        run::stage_after(Stage::Snapping, config, phase, now) == Stage::Shown,
        run::stage_after(Stage::Settling, config, phase, now) == Stage::Shown,
        config.spawn_mode == SpawnMode::SpawnWith ==> run::stage_after(
            Stage::Shown,
            config,
            phase,
            now,
        ) == Stage::Launched,
        config.spawn_mode == SpawnMode::Standard ==> run::stage_after(
            Stage::Shown,
            config,
            phase,
            now,
        ) == Stage::Steady(now),
        run::stage_after(Stage::Launched, config, phase, now) == Stage::Steady(now),
        phase == AppPhase::Running || phase == AppPhase::WaitingForReveal ==> run::stage_after(
            Stage::Steady(since),
            config,
            phase,
            now,
        ) == Stage::Steady(since),
        phase == AppPhase::ShuttingDown || phase == AppPhase::FadingIn ==> run::stage_after(
            Stage::Steady(since),
            config,
            phase,
            now,
        ) == Stage::Ended,
{
}

/// A fade-in goes on from where it started until its time has passed.
pub proof fn law_fade_in_goes_on_until_its_time_has_passed(
    config: Config,
    duration: Span,
    phase: AppPhase,
    start: Span,
    now: Span,
)
    requires
        config.fade_duration == Some(duration),
    ensures
        run::stage_after(Stage::Ready, config, phase, now) == Stage::Fading(now),
        now@ < start@ + duration@ && (start@ <= now@ || duration@ > 0) ==> run::stage_after(
            Stage::Fading(start),
            config,
            phase,
            now,
        ) == Stage::Fading(start),
        now@ >= start@ + duration@ ==> run::stage_after(Stage::Fading(start), config, phase, now)
            == Stage::Settling,
{
}

} // verus!
