//! The event loop: which step comes next, and what each step shows.
//!
//! Connecting, dispatching and sleeping are done outside. Here stand the order
//! of the steps, the error that a failed step gives, and the painting that each
//! step calls for.

use crate::app::{App, AppPhase};
use crate::dim;
use crate::dim::DimController;
use crate::error;
use crate::error::SpawnError;
use crate::fraction::WHOLE;
use crate::render::{Action, Surface};
use crate::span;
use crate::span::Span;
use crate::wayland;
use crate::wayland::{TrackedToplevel, Wayland};
use crate::window::{Config, SpawnMode};
use vstd::prelude::*;

verus! {

/// The pause between two frames of an animation.
pub const TICK_MILLIS: u64 = 8;

/// How long the idle loop waits for events before it looks for a shutdown.
pub const POLL_MILLIS: i32 = 100;

/// The initial size of the buffer pool.
pub const POOL_BYTES: usize = 256;

/// How long a launched window may take to show before the output that has the
/// focus is revealed instead.
pub const REVEAL_TIMEOUT_MILLIS: u64 = 5000;

/// A step on the way to overlays that are ready.
#[derive(Debug, Clone, Copy, PartialEq, Eq, Structural)]
pub enum SetupStep {
    /// Sleep for the settle delay.
    Settle(Span),
    /// Connect to the display.
    Connect,
    /// Read the registry.
    Registry,
    /// Bind `wl_compositor`.
    Compositor,
    /// Bind `zwlr_layer_shell_v1`.
    LayerShell,
    /// Bind `wl_shm`.
    Shm,
    /// Create the buffer pool.
    Pool,
    /// Bind the optional globals, and build the application.
    Globals,
    /// A roundtrip that finds outputs and toplevels.
    Discover,
    /// A second roundtrip, for what they tell of themselves.
    Describe,
    /// Create the surfaces.
    Surfaces,
    /// A roundtrip in which surfaces are configured.
    Configure,
    /// Dispatch until all of them are.
    Await,
    /// All surfaces are ready.
    Ready,
}

/// The first step.
pub open spec fn first_step(settle_delay: Option<Span>) -> SetupStep {
    match settle_delay {
        Some(delay) => SetupStep::Settle(delay),
        None => SetupStep::Connect,
    }
}

/// The step after one that went well.
pub open spec fn step_after(step: SetupStep, configured: bool) -> SetupStep {
    match step {
        SetupStep::Settle(_) => SetupStep::Connect,
        SetupStep::Connect => SetupStep::Registry,
        SetupStep::Registry => SetupStep::Compositor,
        SetupStep::Compositor => SetupStep::LayerShell,
        SetupStep::LayerShell => SetupStep::Shm,
        SetupStep::Shm => SetupStep::Pool,
        SetupStep::Pool => SetupStep::Globals,
        SetupStep::Globals => SetupStep::Discover,
        SetupStep::Discover => SetupStep::Describe,
        SetupStep::Describe => SetupStep::Surfaces,
        SetupStep::Surfaces => SetupStep::Configure,
        SetupStep::Configure | SetupStep::Await => if configured {
            SetupStep::Ready
        } else {
            SetupStep::Await
        },
        SetupStep::Ready => SetupStep::Ready,
    }
}

/// The first step of setup.
pub fn begin_setup(config: &Config) -> (step: SetupStep)
    ensures
        step == first_step(config.settle_delay),
{
    match config.settle_delay {
        Some(delay) => SetupStep::Settle(delay),
        None => SetupStep::Connect,
    }
}

/// The step after one that went well. `configured` tells whether all surfaces
/// are configured by now.
pub fn next_step(step: SetupStep, configured: bool) -> (next: SetupStep)
    ensures
        next == step_after(step, configured),
{
    match step {
        SetupStep::Settle(_) => SetupStep::Connect,
        SetupStep::Connect => SetupStep::Registry,
        SetupStep::Registry => SetupStep::Compositor,
        SetupStep::Compositor => SetupStep::LayerShell,
        SetupStep::LayerShell => SetupStep::Shm,
        SetupStep::Shm => SetupStep::Pool,
        SetupStep::Pool => SetupStep::Globals,
        SetupStep::Globals => SetupStep::Discover,
        SetupStep::Discover => SetupStep::Describe,
        SetupStep::Describe => SetupStep::Surfaces,
        SetupStep::Surfaces => SetupStep::Configure,
        SetupStep::Configure | SetupStep::Await => {
            if configured {
                SetupStep::Ready
            } else {
                SetupStep::Await
            }
        },
        SetupStep::Ready => SetupStep::Ready,
    }
}

/// The error of a step that failed for a cause.
pub open spec fn failure(step: SetupStep, cause: Seq<char>) -> error::SpawnErrorView {
    match step {
        SetupStep::Connect => error::SpawnErrorView::WaylandConnection(cause),
        SetupStep::Compositor => error::SpawnErrorView::MissingProtocol {
            protocol: "wl_compositor"@,
            source: cause,
        },
        SetupStep::LayerShell => error::SpawnErrorView::MissingProtocol {
            protocol: "zwlr_layer_shell_v1"@,
            source: cause,
        },
        SetupStep::Shm => error::SpawnErrorView::MissingProtocol {
            protocol: "wl_shm"@,
            source: cause,
        },
        _ => error::SpawnErrorView::Setup(cause),
    }
}

/// The error of a step that failed for a cause.
pub fn step_failed(step: SetupStep, cause: String) -> (failed: SpawnError)
    ensures
        failed@ == failure(step, cause@),
{
    match step {
        SetupStep::Connect => SpawnError::WaylandConnection(cause),
        SetupStep::Compositor => SpawnError::MissingProtocol {
            protocol: "wl_compositor",
            source: cause,
        },
        SetupStep::LayerShell => SpawnError::MissingProtocol {
            protocol: "zwlr_layer_shell_v1",
            source: cause,
        },
        SetupStep::Shm => SpawnError::MissingProtocol { protocol: "wl_shm", source: cause },
        _ => SpawnError::Setup(cause),
    }
}

/// The phase in which the application starts: a choreographed launch and a
/// fade-in show all outputs together first.
pub open spec fn initial_phase(config: Config) -> AppPhase {
    if config.fade_duration is Some || config.spawn_mode == SpawnMode::SpawnWith {
        AppPhase::FadingIn
    } else {
        AppPhase::Running
    }
}

/// Build the application from what the compositor offers.
pub fn start(config: Config, wl: Wayland) -> (app: App)
    ensures
        app.wf(),
        app.wl == wl,
        app.config == config,
        app.phase == initial_phase(config),
        app.surfaces@ == Seq::<Surface>::empty(),
        app.toplevels@ == Seq::<TrackedToplevel>::empty(),
        app.launched_over@ == Seq::<u32>::empty(),
        app.dim@ == (dim::DimView {
            target_opacity: config.target_opacity@,
            target_brightness: match config.target_brightness {
                Some(brightness) => brightness@,
                None => WHOLE as int,
            },
            names: Seq::empty(),
            states: Map::empty(),
            active: None,
            transition: None,
        }),
{
    let dim = DimController::new(config.target_opacity, config.target_brightness);
    let phase = if config.fade_duration.is_some() || config.spawn_mode == SpawnMode::SpawnWith {
        AppPhase::FadingIn
    } else {
        AppPhase::Running
    };
    App::new(wl, config, phase, dim)
}

/// A frame of the fade-in.
#[derive(Debug)]
pub struct FadeStep {
    pub actions: Vec<Action>,
    /// The pause before the next frame, or none where this was the last one.
    pub pause: Option<Span>,
}

/// Show the fade-in at `elapsed`: backdrops and overlays together.
pub fn fade_in_step(app: &mut App, elapsed: Span, duration: Span) -> (step: FadeStep)
    requires
        old(app).wf(),
    ensures
        final(app).wf(),
        final(app).dim@ == old(app).dim@.faded_in(elapsed@, duration@),
        step.actions@ == final(app).all_layers_actions(final(app).dim@.all_updates()),
        match step.pause {
            Some(pause) => elapsed@ < duration@ && pause@ == TICK_MILLIS * span::NANOS_PER_MILLI,
            None => elapsed@ >= duration@,
        },
        *final(app) == (App { dim: final(app).dim, ..*old(app) }),
{
    let updates = app.dim.fade_in_frame(elapsed, duration);
    let actions = app.apply_updates_all_layers(&updates);
    let pause = if elapsed.is_less(duration) {
        Some(Span::from_millis(TICK_MILLIS))
    } else {
        None
    };
    FadeStep { actions, pause }
}

/// The overlays are where the fade-in has brought them. Backdrops go to the
/// target opacity, where they stay.
pub fn finish_fade_in(app: &App) -> (actions: Vec<Action>)
    ensures
        actions@ == app.backdrop_actions(),
{
    app.snap_backdrops_to_target()
}

/// Without a fade-in, show overlays and backdrops at once.
pub fn show_at_once(app: &mut App) -> (actions: Vec<Action>)
    requires
        old(app).wf(),
    ensures
        final(app).wf(),
        final(app).dim@ == old(app).dim@.snapped(),
        actions@ == final(app).overlays_actions(final(app).dim@.all_updates())
            + final(app).backdrop_actions(),
        *final(app) == (App { dim: final(app).dim, ..*old(app) }),
{
    let updates = app.dim.snap_to_target();
    let mut actions = app.apply_updates(&updates);
    let mut backdrops = app.snap_backdrops_to_target();
    actions.append(&mut backdrops);
    actions
}

/// All outputs are shown. Go over to the steady state, or, in a choreographed
/// launch, wait for the window to show. Returns whether to run the callback.
pub fn enter_loop(app: &mut App) -> (launch: bool)
    requires
        old(app).wf(),
    ensures
        final(app).wf(),
        launch == (old(app).config.spawn_mode == SpawnMode::SpawnWith),
        launch ==> final(app).phase == AppPhase::WaitingForReveal && final(app).launched_over@
            == wayland::handles(old(app).tops()),
        !launch ==> final(app).phase == AppPhase::Running && final(app).launched_over == old(
            app,
        ).launched_over,
        *final(app) == (App {
            phase: final(app).phase,
            launched_over: final(app).launched_over,
            ..*old(app)
        }),
{
    if app.config.spawn_mode == SpawnMode::SpawnWith {
        app.begin_reveal();
        true
    } else {
        app.phase = AppPhase::Running;
        false
    }
}

/// What the steady-state loop does next.
#[derive(Debug)]
pub enum LoopStep {
    /// Leave the loop.
    Stop,
    /// Show a frame, dispatch what has come in, and sleep.
    Frame { actions: Vec<Action>, pause: Span },
    /// Nothing moves: wait for events.
    Poll,
}

/// Whether the wait for a launched window is over.
pub open spec fn overdue(app: App, waited: nat) -> bool {
    app.phase == AppPhase::WaitingForReveal && waited >= REVEAL_TIMEOUT_MILLIS
        * span::NANOS_PER_MILLI
}

/// The dimming state once an overdue launch has been given up.
pub open spec fn settled_dim(app: App, now: nat, waited: nat) -> dim::DimView {
    if overdue(app, waited) {
        app.after_reveal(app.focused_name(), now)
    } else {
        app.dim@
    }
}

/// Whether the loop goes on.
pub open spec fn goes_on(phase: AppPhase) -> bool {
    phase == AppPhase::Running || phase == AppPhase::WaitingForReveal
}

/// One round of the steady-state loop. `waited` is the time since the loop was
/// entered, which is after the callback of a launch has returned.
pub fn steady_step(app: &mut App, shutdown: bool, now: Span, waited: Span) -> (step: LoopStep)
    requires
        old(app).wf(),
    ensures
        final(app).wf(),
        *final(app) == (App { dim: final(app).dim, phase: final(app).phase, ..*old(app) }),
        !goes_on(old(app).phase) ==> step is Stop && *final(app) == *old(app),
        goes_on(old(app).phase) && shutdown ==> {
            &&& step is Stop
            &&& final(app).phase == AppPhase::ShuttingDown
            &&& final(app).dim == old(app).dim
        },
        goes_on(old(app).phase) && !shutdown ==> {
            let settled = settled_dim(*old(app), now@, waited@);
            &&& final(app).phase == if overdue(*old(app), waited@) {
                AppPhase::Running
            } else {
                old(app).phase
            }
            &&& final(app).dim@ == settled.ticked(now@)
            &&& match step {
                LoopStep::Frame { actions, pause } => settled.transition is Some && actions@
                    == old(app).overlays_actions(settled.tick_updates(now@)) && pause@
                    == TICK_MILLIS * span::NANOS_PER_MILLI,
                LoopStep::Poll => settled.transition is None,
                LoopStep::Stop => false,
            }
        },
{
    if app.phase != AppPhase::Running && app.phase != AppPhase::WaitingForReveal {
        return LoopStep::Stop;
    }
    if shutdown {
        app.phase = AppPhase::ShuttingDown;
        return LoopStep::Stop;
    }
    if app.phase == AppPhase::WaitingForReveal && !waited.is_less(
        Span::from_millis(REVEAL_TIMEOUT_MILLIS),
    ) {
        app.reveal_active_output(now);
    }
    let ghost settled = app.dim@;
    if app.is_animating() {
        proof {
            crate::app::lemma_overlays_frame(*old(app), *app, settled.tick_updates(now@));
        }
        let actions = app.tick_transition(now);
        LoopStep::Frame { actions, pause: Span::from_millis(TICK_MILLIS) }
    } else {
        assert(settled.ticked(now@) =~= settled);
        LoopStep::Poll
    }
}

/// The connection broke in the steady state.
pub fn read_failed(app: &mut App, cause: String) -> (failed: SpawnError)
    ensures
        failed@ == error::SpawnErrorView::Setup(cause@),
        *final(app) == (App { phase: AppPhase::ShuttingDown, ..*old(app) }),
{
    app.phase = AppPhase::ShuttingDown;
    SpawnError::Setup(cause)
}

/// Where the loop stands once all surfaces are ready.
#[derive(Debug, Clone, Copy, PartialEq, Eq, Structural)]
pub enum Stage {
    /// All surfaces are configured, and nothing is shown yet.
    Ready,
    /// Without a fade-in: all is about to be shown.
    Snapping,
    /// Fading in since a moment.
    Fading(Span),
    /// The last frame of the fade-in has been shown, and what came in since has
    /// been dispatched: backdrops go to the target.
    Settling,
    /// All outputs are shown.
    Shown,
    /// The callback of a choreographed launch has been run.
    Launched,
    /// The steady state, since a moment.
    Steady(Span),
    /// The loop has ended.
    Ended,
}

/// What the driver of the loop does next.
#[derive(Debug)]
pub enum Todo {
    /// Tell whoever waits that the overlays are ready.
    SignalReady,
    /// Perform the actions, dispatch what has come in, and sleep where there is a
    /// pause.
    Frame { actions: Vec<Action>, pause: Option<Span> },
    /// Perform the actions, and dispatch nothing.
    Show { actions: Vec<Action> },
    /// Run the callback of a choreographed launch.
    Launch,
    /// Go on.
    Continue,
    /// Wait for events, and dispatch what has come in.
    Poll,
    /// Leave the loop.
    Stop,
}

/// The stage that follows, where the application is in `phase` after the round.
pub open spec fn stage_after(stage: Stage, config: Config, phase: AppPhase, now: Span) -> Stage {
    match stage {
        Stage::Ready => if config.fade_duration is Some {
            Stage::Fading(now)
        } else {
            Stage::Snapping
        },
        Stage::Snapping => Stage::Shown,
        Stage::Fading(start) => match config.fade_duration {
            Some(duration) => if dim::elapsed_since(now@, start@) < duration@ {
                Stage::Fading(start)
            } else {
                Stage::Settling
            },
            None => Stage::Settling,
        },
        Stage::Settling => Stage::Shown,
        Stage::Shown => if config.spawn_mode == SpawnMode::SpawnWith {
            Stage::Launched
        } else {
            Stage::Steady(now)
        },
        Stage::Launched => Stage::Steady(now),
        Stage::Steady(launched) => if goes_on(phase) {
            Stage::Steady(launched)
        } else {
            Stage::Ended
        },
        Stage::Ended => Stage::Ended,
    }
}

/// One round of the loop at a moment: the stage that follows, and what to do
/// now.
pub fn advance(stage: Stage, app: &mut App, shutdown: bool, now: Span) -> (round: (Stage, Todo))
    requires
        old(app).wf(),
    ensures
        final(app).wf(),
        final(app).config == old(app).config,
        final(app).surfaces == old(app).surfaces,
        final(app).toplevels == old(app).toplevels,
        final(app).wl == old(app).wl,
        stage is Shown && old(app).config.spawn_mode == SpawnMode::SpawnWith
            || final(app).launched_over == old(app).launched_over,
        round.0 == stage_after(stage, old(app).config, final(app).phase, now),
        match stage {
            Stage::Ready => round.1 is SignalReady && *final(app) == *old(app),
            Stage::Snapping => {
                &&& final(app).dim@ == old(app).dim@.snapped()
                &&& final(app).phase == old(app).phase
                &&& round.1 matches Todo::Show { actions }
                &&& actions@ == final(app).overlays_actions(final(app).dim@.all_updates())
                    + final(app).backdrop_actions()
            },
            Stage::Fading(start) => {
                let elapsed = dim::elapsed_since(now@, start@);
                let duration = match old(app).config.fade_duration {
                    Some(d) => d@,
                    None => 0,
                };
                let frame = final(app).all_layers_actions(final(app).dim@.all_updates());
                &&& final(app).dim@ == old(app).dim@.faded_in(elapsed, duration)
                &&& final(app).phase == old(app).phase
                &&& round.1 matches Todo::Frame { actions, pause }
                &&& actions@ == frame
                &&& match pause {
                    Some(p) => elapsed < duration && p@ == TICK_MILLIS * span::NANOS_PER_MILLI,
                    None => elapsed >= duration,
                }
            },
            Stage::Settling => {
                &&& *final(app) == *old(app)
                &&& round.1 matches Todo::Show { actions }
                &&& actions@ == old(app).backdrop_actions()
            },
            Stage::Shown => {
                &&& final(app).dim == old(app).dim
                &&& if old(app).config.spawn_mode == SpawnMode::SpawnWith {
                    &&& round.1 is Launch
                    &&& final(app).phase == AppPhase::WaitingForReveal
                    &&& final(app).launched_over@ == wayland::handles(old(app).tops())
                } else {
                    &&& round.1 is Continue
                    &&& final(app).phase == AppPhase::Running
                }
            },
            Stage::Launched => round.1 is Continue && *final(app) == *old(app),
            Stage::Steady(launched) => {
                let waited = dim::elapsed_since(now@, launched@);
                let settled = settled_dim(*old(app), now@, waited);
                if !goes_on(old(app).phase) {
                    &&& round.1 is Stop
                    &&& *final(app) == *old(app)
                } else if shutdown {
                    &&& round.1 is Stop
                    &&& final(app).phase == AppPhase::ShuttingDown
                    &&& final(app).dim == old(app).dim
                } else {
                    &&& final(app).phase == if overdue(*old(app), waited) {
                        AppPhase::Running
                    } else {
                        old(app).phase
                    }
                    &&& final(app).dim@ == settled.ticked(now@)
                    &&& match round.1 {
                        Todo::Frame { actions, pause: Some(pause) } => settled.transition is Some
                            && actions@ == old(app).overlays_actions(settled.tick_updates(now@))
                            && pause@ == TICK_MILLIS * span::NANOS_PER_MILLI,
                        Todo::Poll => settled.transition is None,
                        _ => false,
                    }
                }
            },
            Stage::Ended => round.1 is Stop && *final(app) == *old(app),
        },
{
    match stage {
        Stage::Ready => {
            let next = if app.config.fade_duration.is_some() {
                Stage::Fading(now)
            } else {
                Stage::Snapping
            };
            (next, Todo::SignalReady)
        },
        Stage::Snapping => {
            let actions = show_at_once(app);
            (Stage::Shown, Todo::Show { actions })
        },
        Stage::Fading(start) => {
            let duration = match app.config.fade_duration {
                Some(duration) => duration,
                None => Span::zero(),
            };
            let step = fade_in_step(app, now.since(start), duration);
            let next = if step.pause.is_some() {
                stage
            } else {
                Stage::Settling
            };
            (next, Todo::Frame { actions: step.actions, pause: step.pause })
        },
        Stage::Settling => {
            let actions = finish_fade_in(app);
            (Stage::Shown, Todo::Show { actions })
        },
        Stage::Shown => {
            if enter_loop(app) {
                (Stage::Launched, Todo::Launch)
            } else {
                (Stage::Steady(now), Todo::Continue)
            }
        },
        Stage::Launched => (Stage::Steady(now), Todo::Continue),
        Stage::Steady(launched) => {
            match steady_step(app, shutdown, now, now.since(launched)) {
                LoopStep::Stop => (Stage::Ended, Todo::Stop),
                LoopStep::Frame { actions, pause } => (
                    stage,
                    Todo::Frame { actions, pause: Some(pause) },
                ),
                LoopStep::Poll => (stage, Todo::Poll),
            }
        },
        Stage::Ended => (Stage::Ended, Todo::Stop),
    }
}

/// What polling a descriptor told: it is readable where an event has come in and
/// that is input. A timeout and an error are not.
///
/// `ret` is what the poll returned, `revents` the events that came in, and
/// `pollin` the one that stands for input.
pub fn fd_readable(ret: i32, revents: i16, pollin: i16) -> (readable: bool)
    ensures
        readable == (ret > 0 && revents & pollin != 0),
{
    ret > 0 && revents & pollin != 0
}

} // verus!
