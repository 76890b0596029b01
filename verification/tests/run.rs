use wl_zenwindow::app::{App, AppPhase};
use wl_zenwindow::gamma::ByteOrder;
use wl_zenwindow::render::{Action, SurfaceKey, SurfaceRole};
use wl_zenwindow::run::{
    advance, begin_setup, enter_loop, fade_in_step, fd_readable, finish_fade_in, next_step, read_failed,
    show_at_once, start, steady_step, LoopStep, SetupStep, Stage, Todo,
};
use wl_zenwindow::span::Span;
use wl_zenwindow::wayland::{OutputInfo, ToplevelEvent, Wayland};
use wl_zenwindow::window::{SpawnMode, ZenWindowBuilder};
use wl_zenwindow::{SpawnError, ZenWindow};

fn compositor() -> Wayland {
    Wayland {
        outputs: vec![
            OutputInfo {
                id: 1,
                name: Some("DP-1".to_string()),
            },
            OutputInfo {
                id: 2,
                name: Some("DP-2".to_string()),
            },
        ],
        viewporter: true,
        alpha_modifier: false,
        gamma_manager: false,
        toplevel_manager: true,
    }
}

fn ready(builder: &ZenWindowBuilder, mode: SpawnMode) -> App {
    let mut app = start(builder.to_config(mode), compositor());
    app.create_surfaces();
    for output in 1..=2 {
        for role in [SurfaceRole::Backdrop, SurfaceRole::Overlay] {
            app.configure(SurfaceKey { output, role }, 100, 50);
        }
    }
    app
}

fn alphas(actions: &[Action]) -> Vec<(u32, SurfaceRole, u32)> {
    actions
        .iter()
        .filter_map(|action| match action {
            Action::Paint(paint) => {
                Some((paint.surface.output, paint.surface.role, paint.pixel >> 24))
            }
            Action::SetGamma { .. } => None,
        })
        .collect()
}

#[test]
fn setup_takes_its_steps_in_order() {
    let config = ZenWindow::builder()
        .settle_delay(Span::from_millis(5))
        .to_config(SpawnMode::Standard);
    let mut step = begin_setup(&config);
    assert_eq!(step, SetupStep::Settle(Span::from_millis(5)));
    let mut seen = vec![];
    for _ in 0..11 {
        step = next_step(step, false);
        seen.push(step);
    }
    assert_eq!(
        seen,
        vec![
            SetupStep::Connect,
            SetupStep::Registry,
            SetupStep::Compositor,
            SetupStep::LayerShell,
            SetupStep::Shm,
            SetupStep::Pool,
            SetupStep::Globals,
            SetupStep::Discover,
            SetupStep::Describe,
            SetupStep::Surfaces,
            SetupStep::Configure,
        ]
    );
    assert_eq!(next_step(step, false), SetupStep::Await);
    assert_eq!(next_step(SetupStep::Await, false), SetupStep::Await);
    assert_eq!(next_step(SetupStep::Await, true), SetupStep::Ready);
    assert_eq!(next_step(step, true), SetupStep::Ready);
    assert_eq!(next_step(SetupStep::Ready, false), SetupStep::Ready);
}

#[test]
fn setup_without_delay_connects_at_once() {
    let config = ZenWindow::builder().to_config(SpawnMode::Standard);
    assert_eq!(begin_setup(&config), SetupStep::Connect);
}

#[test]
fn the_first_phase_depends_on_fade_and_mode() {
    let plain = ZenWindow::builder();
    let faded = ZenWindow::builder().fade_in(Span::from_millis(10));
    let phase = |b: &ZenWindowBuilder, mode| start(b.to_config(mode), compositor()).phase();
    assert_eq!(phase(&plain, SpawnMode::Standard), AppPhase::Running);
    assert_eq!(phase(&faded, SpawnMode::Standard), AppPhase::FadingIn);
    assert_eq!(phase(&plain, SpawnMode::SpawnWith), AppPhase::FadingIn);
}

#[test]
fn a_fade_in_shows_both_layers() {
    let faded = ZenWindow::builder().fade_in(Span::from_millis(100));
    let mut app = ready(&faded, SpawnMode::Standard);
    let duration = Span::from_millis(100);

    let step = fade_in_step(&mut app, Span::from_millis(50), duration);
    assert_eq!(step.pause, Some(Span::from_millis(8)));
    // Half of the time is eased to 0.75, which is 191 of 255.
    let expected: Vec<_> = [1, 2]
        .into_iter()
        .flat_map(|o| [(o, SurfaceRole::Backdrop, 191), (o, SurfaceRole::Overlay, 191)])
        .collect();
    assert_eq!(alphas(&step.actions), expected);

    let step = fade_in_step(&mut app, duration, duration);
    assert_eq!(step.pause, None);
    assert!(alphas(&step.actions).iter().all(|p| p.2 == 255));
    assert!(alphas(&finish_fade_in(&app))
        .iter()
        .all(|p| p.1 == SurfaceRole::Backdrop && p.2 == 255));
}

#[test]
fn a_fade_in_spares_the_focused_output() {
    let faded = ZenWindow::builder().fade_in(Span::from_millis(100));
    let mut app = start(faded.to_config(SpawnMode::Standard), compositor());
    let order = ByteOrder::Little;
    app.event(7, ToplevelEvent::OutputEnter { output: 1 }, Span::zero(), order);
    let raw = vec![2, 0, 0, 0];
    app.event(7, ToplevelEvent::State { raw }, Span::zero(), order);
    app.event(7, ToplevelEvent::Done, Span::zero(), order);
    app.create_surfaces();
    for output in 1..=2 {
        for role in [SurfaceRole::Backdrop, SurfaceRole::Overlay] {
            app.configure(SurfaceKey { output, role }, 100, 50);
        }
    }
    assert!(app.dim().is_output_skipped("DP-1"));
    let step = fade_in_step(&mut app, Span::from_millis(50), Span::from_millis(100));
    assert!(alphas(&step.actions).iter().all(|p| p.0 == 2));
}

#[test]
fn without_a_fade_in_everything_shows_at_once() {
    let mut app = ready(&ZenWindow::builder(), SpawnMode::Standard);
    let actions = show_at_once(&mut app);
    assert_eq!(
        alphas(&actions),
        vec![
            (1, SurfaceRole::Overlay, 255),
            (2, SurfaceRole::Overlay, 255),
            (1, SurfaceRole::Backdrop, 255),
            (2, SurfaceRole::Backdrop, 255),
        ]
    );
}

#[test]
fn an_idle_loop_polls_until_told_to_stop() {
    let mut app = ready(&ZenWindow::builder(), SpawnMode::Standard);
    assert!(!enter_loop(&mut app));
    assert_eq!(app.phase(), AppPhase::Running);
    let now = Span::from_secs(1);
    assert!(matches!(
        steady_step(&mut app, false, now, Span::zero()),
        LoopStep::Poll
    ));
    assert!(matches!(
        steady_step(&mut app, true, now, Span::zero()),
        LoopStep::Stop
    ));
    assert_eq!(app.phase(), AppPhase::ShuttingDown);
    assert!(matches!(
        steady_step(&mut app, false, now, Span::zero()),
        LoopStep::Stop
    ));
}

#[test]
fn a_launch_gives_up_waiting() {
    let mut app = ready(&ZenWindow::builder(), SpawnMode::SpawnWith);
    show_at_once(&mut app);
    assert!(enter_loop(&mut app));
    assert_eq!(app.phase(), AppPhase::WaitingForReveal);
    let order = ByteOrder::Little;
    app.event(7, ToplevelEvent::OutputEnter { output: 2 }, Span::zero(), order);
    let raw = vec![2, 0, 0, 0];
    app.event(7, ToplevelEvent::State { raw }, Span::zero(), order);

    let step = steady_step(&mut app, false, Span::from_secs(4), Span::from_secs(4));
    assert!(matches!(step, LoopStep::Poll));
    assert_eq!(app.phase(), AppPhase::WaitingForReveal);

    let step = steady_step(&mut app, false, Span::from_secs(5), Span::from_secs(5));
    assert_eq!(app.phase(), AppPhase::Running);
    assert_eq!(app.dim().active_output(), Some("DP-2"));
    match step {
        LoopStep::Frame { actions, pause } => {
            assert!(actions.is_empty());
            assert_eq!(pause, Span::from_millis(8));
        }
        _ => panic!("expected a frame"),
    }
    // The reveal ends with a clear output.
    match steady_step(&mut app, false, Span::from_millis(5250), Span::from_secs(6)) {
        LoopStep::Frame { actions, .. } => {
            assert_eq!(alphas(&actions), vec![(2, SurfaceRole::Overlay, 0)]);
        }
        _ => panic!("expected a frame"),
    }
}

#[test]
fn a_broken_connection_ends_the_loop() {
    let mut app = ready(&ZenWindow::builder(), SpawnMode::Standard);
    let error = read_failed(&mut app, "broken pipe".to_string());
    assert!(matches!(error, SpawnError::Setup(_)));
    assert_eq!(error.cause(), "broken pipe");
    assert_eq!(app.phase(), AppPhase::ShuttingDown);
}

#[test]
fn the_loop_takes_its_stages_in_order() {
    let faded = ZenWindow::builder().fade_in(Span::from_millis(100));
    let mut app = ready(&faded, SpawnMode::Standard);
    let at = Span::from_millis;

    let (stage, todo) = advance(Stage::Ready, &mut app, false, at(1000));
    assert_eq!(stage, Stage::Fading(at(1000)));
    assert!(matches!(todo, Todo::SignalReady));

    let (stage, todo) = advance(stage, &mut app, false, at(1050));
    assert_eq!(stage, Stage::Fading(at(1000)));
    assert!(matches!(todo, Todo::Frame { .. }));

    let (stage, todo) = advance(stage, &mut app, false, at(1100));
    assert_eq!(stage, Stage::Settling);
    match todo {
        Todo::Frame { actions, pause } => {
            assert_eq!(actions.len(), 4);
            assert_eq!(pause, None);
        }
        _ => panic!("expected the last frame"),
    }

    // A backdrop that is told its size now is brought to the target all the same.
    let role = SurfaceRole::Backdrop;
    assert!(app.configure(SurfaceKey { output: 2, role }, 300, 200).is_empty());
    let (stage, todo) = advance(stage, &mut app, false, at(1100));
    assert_eq!(stage, Stage::Shown);
    match todo {
        Todo::Show { actions } => {
            assert_eq!(alphas(&actions), vec![(1, role, 255), (2, role, 255)]);
        }
        _ => panic!("expected the backdrops"),
    }

    let (stage, todo) = advance(stage, &mut app, false, at(1101));
    assert_eq!(stage, Stage::Steady(at(1101)));
    assert!(matches!(todo, Todo::Continue));

    let (stage, todo) = advance(stage, &mut app, false, at(1200));
    assert_eq!(stage, Stage::Steady(at(1101)));
    assert!(matches!(todo, Todo::Poll));

    let (stage, todo) = advance(stage, &mut app, true, at(1300));
    assert_eq!(stage, Stage::Ended);
    assert!(matches!(todo, Todo::Stop));
    let (stage, todo) = advance(stage, &mut app, false, at(1400));
    assert_eq!(stage, Stage::Ended);
    assert!(matches!(todo, Todo::Stop));
}

#[test]
fn a_launch_without_a_fade_runs_its_callback_once() {
    let mut app = ready(&ZenWindow::builder(), SpawnMode::SpawnWith);
    let mut stage = Stage::Ready;
    let mut launches = 0;
    let mut shown = 0;
    for millis in 0..20 {
        let (next, todo) = advance(stage, &mut app, false, Span::from_millis(millis));
        stage = next;
        match todo {
            Todo::Launch => launches += 1,
            Todo::Show { actions } => shown += actions.len(),
            _ => {}
        }
    }
    assert_eq!(launches, 1);
    assert_eq!(shown, 4);
    assert_eq!(app.phase(), AppPhase::WaitingForReveal);
}

#[test]
fn only_input_makes_a_descriptor_readable() {
    let (pollin, pollerr, pollhup) = (0x001, 0x008, 0x010);
    assert!(fd_readable(1, pollin, pollin));
    assert!(fd_readable(1, pollin | pollhup, pollin));
    assert!(!fd_readable(1, pollerr, pollin));
    assert!(!fd_readable(0, 0, pollin));
    assert!(!fd_readable(-1, pollin, pollin));
}

#[test]
fn a_launch_darkens_the_focused_output_too() {
    let faded = ZenWindow::builder().fade_in(Span::from_millis(100));
    let mut app = start(faded.to_config(SpawnMode::SpawnWith), compositor());
    let order = ByteOrder::Little;
    let raw = vec![2, 0, 0, 0];
    app.event(7, ToplevelEvent::OutputEnter { output: 1 }, Span::zero(), order);
    app.event(7, ToplevelEvent::State { raw }, Span::zero(), order);
    app.event(7, ToplevelEvent::Done, Span::zero(), order);
    app.create_surfaces();
    for output in 1..=2 {
        for role in [SurfaceRole::Backdrop, SurfaceRole::Overlay] {
            app.configure(SurfaceKey { output, role }, 100, 50);
        }
    }
    // It moves while everything fades.
    app.event(7, ToplevelEvent::OutputEnter { output: 2 }, Span::zero(), order);
    app.event(7, ToplevelEvent::Done, Span::zero(), order);
    assert_eq!(app.phase(), AppPhase::FadingIn);
    let duration = Span::from_millis(100);
    let step = fade_in_step(&mut app, duration, duration);
    let painted = alphas(&step.actions);
    assert_eq!(painted.len(), 4);
    assert!(painted.iter().all(|p| p.2 == 255));
    assert!(!app.dim().is_output_skipped("DP-1") && !app.dim().is_output_skipped("DP-2"));
}

#[test]
fn the_wait_starts_once_the_callback_has_returned() {
    let mut app = ready(&ZenWindow::builder(), SpawnMode::SpawnWith);
    let at = Span::from_secs;
    let (stage, todo) = advance(Stage::Shown, &mut app, false, at(1));
    assert_eq!(stage, Stage::Launched);
    assert!(matches!(todo, Todo::Launch));
    // The callback took a minute.
    let (stage, todo) = advance(stage, &mut app, false, at(61));
    assert_eq!(stage, Stage::Steady(at(61)));
    assert!(matches!(todo, Todo::Continue));
    let (stage, _) = advance(stage, &mut app, false, at(65));
    assert_eq!(app.phase(), AppPhase::WaitingForReveal);
    let _ = advance(stage, &mut app, false, at(66));
    assert_eq!(app.phase(), AppPhase::Running);
}

#[test]
fn darkness_lasts_until_the_reveal() {
    let mut app = ready(&ZenWindow::builder(), SpawnMode::SpawnWith);
    let _ = show_at_once(&mut app);
    assert!(enter_loop(&mut app));
    let order = ByteOrder::Little;
    for (output, raw) in [(1, vec![2, 0, 0, 0]), (2, vec![])] {
        app.event(7, ToplevelEvent::OutputEnter { output }, Span::zero(), order);
        app.event(7, ToplevelEvent::State { raw }, Span::zero(), order);
        app.event(7, ToplevelEvent::Done, Span::zero(), order);
        let step = steady_step(&mut app, false, Span::from_secs(1), Span::from_secs(1));
        assert!(matches!(step, LoopStep::Poll));
        for name in ["DP-1", "DP-2"] {
            let state = app.dim().get(name).unwrap();
            assert_eq!(state.alpha, wl_zenwindow::Opacity::opaque());
            assert!(!state.skipped);
        }
    }
}
