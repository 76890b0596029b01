use wl_zenwindow::app::{App, AppPhase};
use wl_zenwindow::gamma::ByteOrder;
use wl_zenwindow::render::{Action, GammaState, Layer, Paint, SurfaceConfig, SurfaceKey, SurfaceRole};
use wl_zenwindow::run::start;
use wl_zenwindow::span::Span;
use wl_zenwindow::wayland::{GammaEvent, OutputInfo, ToplevelEvent, Wayland};
use wl_zenwindow::window::{SpawnMode, ZenWindowBuilder};
use wl_zenwindow::{Brightness, ZenWindow};

fn parts(x: f64) -> i64 {
    (x * 1e15).round() as i64
}

fn compositor() -> Wayland {
    let output = |id, name: Option<&str>| OutputInfo {
        id,
        name: name.map(str::to_owned),
    };
    Wayland {
        outputs: vec![
            output(1, Some("DP-1")),
            output(2, Some("DP-2")),
            output(3, None),
            output(4, Some("eDP-1")),
        ],
        viewporter: true,
        alpha_modifier: true,
        gamma_manager: true,
        toplevel_manager: true,
    }
}

fn builder() -> ZenWindowBuilder {
    ZenWindow::builder()
        .opacity(parts(0.5))
        .brightness(parts(0.6))
        .skip_output("eDP-1")
}

fn configured(builder: &ZenWindowBuilder, mode: SpawnMode) -> App {
    let mut app = start(builder.to_config(mode), compositor());
    app.create_surfaces();
    for output in 1..=3 {
        for role in [SurfaceRole::Backdrop, SurfaceRole::Overlay] {
            app.configure(SurfaceKey { output, role }, 100, 50);
        }
    }
    app
}

fn running() -> App {
    let mut app = configured(&builder(), SpawnMode::Standard);
    let _ = app.dim_all_outputs();
    app
}

fn paints(actions: &[Action]) -> Vec<(u32, SurfaceRole, u32)> {
    actions
        .iter()
        .filter_map(|action| match action {
            Action::Paint(Paint {
                surface,
                multiplier,
                pixel,
                ..
            }) => Some((surface.output, surface.role, multiplier.unwrap_or(*pixel))),
            Action::SetGamma { .. } => None,
        })
        .collect()
}

fn states(numbers: &[u32]) -> ToplevelEvent {
    ToplevelEvent::State {
        raw: numbers.iter().flat_map(|n| n.to_le_bytes()).collect(),
    }
}

fn tell(app: &mut App, handle: u32, event: ToplevelEvent, millis: u64) -> Vec<Action> {
    app.event(handle, event, Span::from_millis(millis), ByteOrder::Little)
}

fn focus(app: &mut App, handle: u32, output: u32, millis: u64) -> Vec<Action> {
    let _ = tell(app, handle, ToplevelEvent::OutputEnter { output }, millis);
    let _ = tell(app, handle, states(&[2]), millis);
    tell(app, handle, ToplevelEvent::Done, millis)
}

#[test]
fn surfaces_come_in_pairs() {
    let mut app = start(builder().to_config(SpawnMode::Standard), compositor());
    let created = app.create_surfaces();
    assert_eq!(created.len(), 6);
    assert_eq!(app.surfaces().len(), 6);
    for (i, new) in created.iter().enumerate() {
        assert_eq!(new.key.output, i as u32 / 2 + 1);
        let overlay = i % 2 == 1;
        assert_eq!(new.key.role == SurfaceRole::Overlay, overlay);
        assert!(new.viewport);
        assert_eq!(new.alpha_modifier, overlay);
        assert_eq!(new.gamma, overlay);
        assert_eq!(new.multiplier, None);
    }
    // The one without a name is covered, but not dimmed by name.
    assert!(app.dim().get("DP-1").is_some());
    assert!(app.dim().get("DP-2").is_some());
    assert!(app.dim().get("eDP-1").is_none());
    assert!(!app.all_surfaces_configured());
}

#[test]
fn an_overlay_that_fades_in_starts_transparent() {
    let faded = builder().fade_in(Span::from_millis(500));
    let mut app = start(faded.to_config(SpawnMode::Standard), compositor());
    let created = app.create_surfaces();
    assert_eq!(created[0].multiplier, None);
    assert_eq!(created[1].multiplier, Some(0));
}

#[test]
fn gamma_control_is_asked_for_only_when_wanted() {
    let plain = ZenWindow::builder();
    let mut app = start(plain.to_config(SpawnMode::Standard), compositor());
    assert!(app.create_surfaces().iter().all(|new| !new.gamma));

    let mut wl = compositor();
    wl.gamma_manager = false;
    wl.viewporter = false;
    let mut app = start(builder().to_config(SpawnMode::Standard), wl);
    let created = app.create_surfaces();
    assert!(created.iter().all(|new| !new.gamma && !new.viewport));
    assert!(app.surfaces().iter().all(|s| s.gamma == GammaState::Unavailable));
}

#[test]
fn roles_have_their_layers() {
    assert_eq!(SurfaceRole::Backdrop.layer(), Layer::Top);
    assert_eq!(SurfaceRole::Overlay.layer(), Layer::Overlay);
}

#[test]
fn configuring_paints_the_present_state() {
    let mut app = start(builder().to_config(SpawnMode::Standard), compositor());
    app.create_surfaces();
    let key = SurfaceKey {
        output: 1,
        role: SurfaceRole::Overlay,
    };
    let actions = app.configure(key, 100, 50);
    assert_eq!(paints(&actions), vec![(1, SurfaceRole::Overlay, 0)]);
    // A backdrop goes to the target at once: 0.5 is 127 of 255. It needs no name.
    for output in [1, 3] {
        let role = SurfaceRole::Backdrop;
        let actions = app.configure(SurfaceKey { output, role }, 100, 50);
        assert_eq!(paints(&actions), vec![(output, role, 0x7F00_0000)]);
    }
    assert_eq!(
        app.surfaces()[1].config,
        SurfaceConfig::Ready {
            width: 100,
            height: 50
        }
    );
    // Nothing is known of this one.
    let stranger = SurfaceKey {
        output: 9,
        role: SurfaceRole::Overlay,
    };
    assert!(app.configure(stranger, 100, 50).is_empty());
}

#[test]
fn configuring_during_the_fade_in_paints_nothing() {
    let faded = builder().fade_in(Span::from_millis(500));
    let mut app = start(faded.to_config(SpawnMode::Standard), compositor());
    app.create_surfaces();
    for role in [SurfaceRole::Overlay, SurfaceRole::Backdrop] {
        assert!(app.configure(SurfaceKey { output: 1, role }, 100, 50).is_empty());
    }
}

#[test]
fn all_surfaces_are_configured_in_the_end() {
    assert!(running().all_surfaces_configured());
}

#[test]
fn updates_leave_backdrops_alone() {
    let mut app = running();
    let actions = app.dim_all_outputs();
    // 0.5 is 127 of 255
    let alpha = 127 * 0x0101_0101;
    assert_eq!(
        paints(&actions),
        vec![
            (1, SurfaceRole::Overlay, alpha),
            (2, SurfaceRole::Overlay, alpha)
        ]
    );
}

#[test]
fn snapping_backdrops_leaves_overlays_alone() {
    let app = running();
    let actions = app.snap_backdrops_to_target();
    let painted = paints(&actions);
    assert_eq!(painted.len(), 3);
    assert!(painted.iter().all(|p| p.1 == SurfaceRole::Backdrop));
    assert_eq!(painted[0].2, 0x7F00_0000);
}

#[test]
fn gamma_follows_the_brightness_once_its_size_is_known() {
    let mut app = running();
    app.gamma_event(1, GammaEvent::GammaSize { size: 256 });
    app.gamma_event(99, GammaEvent::Failed);
    let actions = app.dim_all_outputs();
    assert!(actions.contains(&Action::SetGamma {
        control: 1,
        size: 256,
        brightness: Brightness::new(parts(0.6))
    }));
    app.gamma_event(1, GammaEvent::Failed);
    let actions = app.dim_all_outputs();
    assert!(!actions.iter().any(|a| matches!(a, Action::SetGamma { .. })));
}

#[test]
fn the_focus_is_followed() {
    let mut app = running();
    let actions = focus(&mut app, 7, 1, 0);
    assert!(actions.is_empty());
    assert_eq!(app.active_output_name(), Some("DP-1".to_string()));
    assert!(app.is_animating());

    // After delay and fade the first output is clear.
    let actions = app.tick_transition(Span::from_millis(475));
    assert_eq!(paints(&actions), vec![(1, SurfaceRole::Overlay, 0)]);
    assert!(!app.is_animating());

    // Another window on the second output takes the focus.
    let _ = tell(&mut app, 7, states(&[]), 1000);
    let actions = focus(&mut app, 8, 2, 1000);
    assert_eq!(
        paints(&actions),
        vec![(1, SurfaceRole::Overlay, 127 * 0x0101_0101)]
    );
    assert_eq!(app.dim().active_output(), Some("DP-2"));
}

#[test]
fn a_moving_window_dims_everything() {
    let mut app = running();
    let _ = focus(&mut app, 7, 1, 0);
    let actions = tell(&mut app, 7, ToplevelEvent::OutputEnter { output: 2 }, 100);
    assert_eq!(paints(&actions).len(), 2);
    assert!(!app.is_animating());
    // Once it has settled, the focus goes with it.
    let _ = tell(&mut app, 7, ToplevelEvent::Done, 200);
    assert_eq!(app.dim().active_output(), Some("DP-2"));
    assert!(app.is_animating());
}

#[test]
fn a_leaving_window_dims_everything_only_with_focus() {
    let mut app = running();
    let _ = focus(&mut app, 7, 1, 0);
    assert!(!tell(&mut app, 7, ToplevelEvent::OutputLeave { output: 1 }, 1).is_empty());
    assert!(tell(&mut app, 8, ToplevelEvent::OutputLeave { output: 1 }, 1).is_empty());
    assert_eq!(app.find_toplevel(7).unwrap().output(), None);
}

#[test]
fn a_closed_window_is_forgotten() {
    let mut app = running();
    let _ = focus(&mut app, 7, 1, 0);
    let _ = tell(&mut app, 7, ToplevelEvent::Closed, 1);
    assert!(app.find_toplevel(7).is_none());
    assert_eq!(app.active_output_name(), None);
}

#[test]
fn an_unplugged_output_leaves_nothing() {
    let mut app = running();
    let _ = focus(&mut app, 7, 1, 0);
    app.on_output_destroyed(1);
    assert_eq!(app.surfaces().len(), 4);
    assert!(app.dim().get("DP-1").is_none());
    assert!(!app.is_animating());
    // An output without a name changes nothing.
    app.on_output_destroyed(3);
    assert_eq!(app.surfaces().len(), 4);
}

#[test]
fn a_closed_surface_takes_the_dimming_with_it() {
    let mut app = running();
    app.on_surface_closed(SurfaceKey {
        output: 2,
        role: SurfaceRole::Backdrop,
    });
    assert_eq!(app.surfaces().len(), 5);
    assert!(app.dim().get("DP-2").is_none());
    assert!(app.dim().get("DP-1").is_some());
}

#[test]
fn without_a_manager_nothing_is_tracked() {
    let mut app = running();
    app.toplevel_manager_finished();
    assert!(!app.wl_mut().toplevel_manager);
}

#[test]
fn a_launch_reveals_the_new_fullscreen_window() {
    let fading = builder().fade_in(Span::from_millis(100));
    let mut app = configured(&fading, SpawnMode::SpawnWith);
    assert_eq!(app.phase(), AppPhase::FadingIn);

    // The focus is not followed while everything goes dark.
    assert!(focus(&mut app, 7, 1, 0).is_empty());
    assert_eq!(app.dim().active_output(), None);

    app.begin_reveal();
    assert_eq!(app.phase(), AppPhase::WaitingForReveal);

    // A window that was there before reveals nothing, even in fullscreen.
    let _ = tell(&mut app, 7, states(&[2, 3]), 10);
    let _ = tell(&mut app, 7, ToplevelEvent::Done, 10);
    assert_eq!(app.phase(), AppPhase::WaitingForReveal);

    // A new one does, once it is fullscreen.
    let _ = tell(&mut app, 8, ToplevelEvent::OutputEnter { output: 2 }, 20);
    let _ = tell(&mut app, 8, ToplevelEvent::Done, 20);
    assert_eq!(app.phase(), AppPhase::WaitingForReveal);
    let _ = tell(&mut app, 8, states(&[3]), 30);
    let _ = tell(&mut app, 8, ToplevelEvent::Done, 30);
    assert_eq!(app.phase(), AppPhase::Running);
    assert_eq!(app.dim().active_output(), Some("DP-2"));
    assert!(app.dim().is_output_skipped("DP-2"));
    assert!(app.is_animating());
}

#[test]
fn phases_can_be_set() {
    let mut app = running();
    assert_eq!(app.phase(), AppPhase::Running);
    app.set_phase(AppPhase::ShuttingDown);
    assert_eq!(app.phase(), AppPhase::ShuttingDown);
    assert_eq!(app.config().namespace, "wl-zenwindow");
}

#[test]
fn events_touch_one_toplevel() {
    let mut app = running();
    let _ = focus(&mut app, 7, 1, 0);
    let _ = tell(&mut app, 8, ToplevelEvent::OutputEnter { output: 2 }, 1);
    let _ = tell(&mut app, 8, states(&[3]), 1);
    let seven = app.find_toplevel(7).unwrap();
    assert_eq!(seven.output(), Some(1));
    assert!(seven.is_focused());
    let _ = tell(&mut app, 8, ToplevelEvent::Closed, 2);
    assert!(app.find_toplevel(7).is_some());
}

#[test]
fn a_toplevel_can_be_made_up() {
    let mut app = running();
    assert!(app.find_toplevel(5).is_none());
    app.find_or_insert_toplevel(5).enter_output(2);
    assert_eq!(app.find_toplevel(5).unwrap().output(), Some(2));
    app.find_or_insert_toplevel(5).leave_output();
    assert_eq!(app.find_toplevel(5).unwrap().output(), None);
    app.remove_toplevel(5);
    assert!(app.find_toplevel(5).is_none());
}

#[test]
fn a_single_update_reaches_its_overlay() {
    let app = running();
    let half = wl_zenwindow::Opacity::new(parts(0.25));
    let actions = app.apply_output_update("DP-2", half, Brightness::normal());
    assert_eq!(
        paints(&actions),
        vec![(2, SurfaceRole::Overlay, 63 * 0x0101_0101)]
    );
    assert!(app
        .apply_output_update("DP-9", half, Brightness::normal())
        .is_empty());
}

#[test]
fn a_window_stays_on_the_output_it_entered_last() {
    let mut app = running();
    let _ = focus(&mut app, 7, 1, 0);
    let _ = tell(&mut app, 7, ToplevelEvent::OutputEnter { output: 2 }, 1);
    // Leaving the old output dims everything, and changes nothing of where it is.
    let actions = tell(&mut app, 7, ToplevelEvent::OutputLeave { output: 1 }, 2);
    assert_eq!(paints(&actions).len(), 2);
    assert_eq!(app.find_toplevel(7).unwrap().output(), Some(2));
    let _ = tell(&mut app, 7, ToplevelEvent::Done, 3);
    assert_eq!(app.dim().active_output(), Some("DP-2"));
    assert!(app.is_animating());
}

#[test]
fn gamma_events_outlive_an_unplugged_output() {
    let mut app = running();
    app.gamma_event(1, GammaEvent::GammaSize { size: 16 });
    app.gamma_event(2, GammaEvent::GammaSize { size: 32 });
    app.on_output_destroyed(1);
    app.gamma_event(1, GammaEvent::Failed);
    let ready = GammaState::Ready { control: 2, size: 32 };
    assert!(app.surfaces().iter().any(|s| s.gamma == ready));
}
