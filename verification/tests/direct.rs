use wl_zenwindow::gamma::ByteOrder;
use wl_zenwindow::names::NameSet;
use wl_zenwindow::render::{Action, Paint, SurfaceKey};
use wl_zenwindow::span::Span;
use wl_zenwindow::state::{
    GammaState, LoopPhase, OverlaySurface, SurfaceConfig, SurfaceRole, ZenState,
};
use wl_zenwindow::surface::SharedBuffer;
use wl_zenwindow::wayland::{GammaEvent, OutputInfo, ToplevelEvent};
use wl_zenwindow::{Brightness, Color, Opacity};

fn surface(output: u32, name: &str, role: SurfaceRole) -> OverlaySurface {
    OverlaySurface {
        output,
        output_name: Some(name.to_string()),
        role,
        viewport: true,
        alpha_modifier: true,
        gamma: GammaState::Unavailable,
        config: SurfaceConfig::Ready {
            width: 100,
            height: 50,
        },
    }
}

fn engine() -> ZenState {
    let output = |id, name: &str| OutputInfo {
        id,
        name: Some(name.to_string()),
    };
    ZenState {
        outputs: vec![output(1, "DP-1"), output(2, "DP-2")],
        viewporter: true,
        surfaces: vec![
            surface(1, "DP-1", SurfaceRole::Overlay),
            surface(1, "DP-1", SurfaceRole::Backdrop),
            surface(2, "DP-2", SurfaceRole::Overlay),
            surface(2, "DP-2", SurfaceRole::Backdrop),
        ],
        phase: LoopPhase::Running,
        target_opacity: Opacity::new(500_000_000_000_000),
        color: Color::black(),
        skip_names: NameSet::new(),
        skip_active: true,
        active_output: None,
        transition: None,
        toplevel_manager: true,
        toplevels: vec![],
    }
}

fn drawn(paints: &[Paint]) -> Vec<(u32, SurfaceRole, u32)> {
    paints
        .iter()
        .map(|p| (p.surface.output, p.surface.role, p.pixel >> 24))
        .collect()
}

fn tell(state: &mut ZenState, handle: u32, event: ToplevelEvent, millis: u64) -> Vec<Paint> {
    state.event(handle, event, Span::from_millis(millis), ByteOrder::Little)
}

fn activate(state: &mut ZenState, handle: u32, output: u32, millis: u64) -> Vec<Paint> {
    tell(state, handle, ToplevelEvent::OutputEnter { output }, millis);
    let raw = vec![2, 0, 0, 0];
    tell(state, handle, ToplevelEvent::State { raw }, millis);
    tell(state, handle, ToplevelEvent::Done, millis)
}

#[test]
fn dimming_all_spares_the_active_output() {
    let mut state = engine();
    state.active_output = Some("DP-1".to_string());
    // The same surfaces are drawn with a viewporter and without.
    for viewporter in [true, false] {
        state.viewporter = viewporter;
        let batch = state.draw_dimmed(200);
        let paints = batch.paints;
        // One buffer for all, kept by the first surface, or one for each.
        let shared = SharedBuffer {
            width: 1,
            height: 1,
            stride: 4,
            pixel: 200 << 24,
            keeper: Some(SurfaceKey {
                output: 1,
                role: SurfaceRole::Overlay,
            }),
        };
        assert_eq!(batch.shared, viewporter.then_some(shared));
        assert_eq!(
            drawn(&paints),
            vec![
                (1, SurfaceRole::Backdrop, 200),
                (2, SurfaceRole::Overlay, 200),
                (2, SurfaceRole::Backdrop, 200),
            ]
        );
        let width = if viewporter { 1 } else { 100 };
        assert!(paints.iter().all(|p| p.width == width));
    }
    // Before it is configured, a surface is not drawn.
    state.surfaces[1].config = SurfaceConfig::Pending;
    assert_eq!(state.draw_dimmed(200).paints.len(), 2);
    assert!(state.is_skipped(0));
    assert!(!state.is_skipped(1));
    assert!(!state.is_skipped(2));
}

#[test]
fn dimming_shares_one_buffer() {
    let mut state = engine();
    state.viewporter = true;
    state.color = Color::new(255, 0, 51);
    let batch = state.draw_dimmed(255);
    let shared = batch.shared.unwrap();
    assert_eq!(shared.pixel, 0xffff_0033);
    for paint in &batch.paints {
        assert_eq!((paint.width, paint.height), (shared.width, shared.height));
        assert_eq!(paint.stride, shared.stride);
        assert_eq!(paint.pixel, shared.pixel);
        assert!(!paint.release);
    }
    // Nothing keeps it alive where there is no surface.
    state.surfaces.clear();
    let batch = state.draw_dimmed(255);
    assert!(batch.paints.is_empty());
    assert_eq!(batch.shared.unwrap().keeper, None);
}

#[test]
fn drawing_with_and_without_a_viewporter() {
    let mut state = engine();
    let paint = state.draw_surface_alpha(0, 255).unwrap();
    assert_eq!((paint.width, paint.height, paint.stride), (1, 1, 4));
    assert_eq!(paint.multiplier, None);
    state.viewporter = false;
    let paint = state.draw_surface_alpha(0, 255).unwrap();
    assert_eq!((paint.width, paint.height, paint.stride), (100, 50, 400));
    assert_eq!(state.draw_fullsize(0, 255), Some(paint));
    state.surfaces[0].config = SurfaceConfig::Pending;
    assert_eq!(state.draw_surface_alpha(0, 255), None);
}

#[test]
fn configuring_draws_a_full_buffer() {
    let mut state = engine();
    let key = |output, role| SurfaceKey { output, role };
    // 0.5 is 127 of 255
    let paint = state.configure(key(1, SurfaceRole::Overlay), 200, 80).unwrap();
    assert_eq!((paint.width, paint.height, paint.pixel >> 24), (200, 80, 127));
    state.phase = LoopPhase::FadingIn;
    let paint = state.configure(key(1, SurfaceRole::Overlay), 200, 80).unwrap();
    assert_eq!(paint.pixel, 0);
    let paint = state.configure(key(1, SurfaceRole::Backdrop), 200, 80).unwrap();
    assert_eq!(paint.pixel >> 24, 127);
    state.phase = LoopPhase::Running;
    state.active_output = Some("DP-1".to_string());
    let paint = state.configure(key(1, SurfaceRole::Overlay), 200, 80).unwrap();
    assert_eq!(paint.pixel, 0);
    assert_eq!(state.configure(key(9, SurfaceRole::Overlay), 200, 80), None);
    // Without an area there is nothing to draw on, however long the other side.
    assert_eq!(state.configure(key(1, SurfaceRole::Overlay), u32::MAX, 0), None);
    assert_eq!(state.draw_dimmed(200).paints.len(), 3);
}

#[test]
fn gamma_of_skipped_surfaces_is_left_alone() {
    let mut state = engine();
    state.surfaces[0].gamma = GammaState::Pending(1);
    state.surfaces[2].gamma = GammaState::Pending(2);
    state.gamma_event(1, GammaEvent::GammaSize { size: 16 });
    state.gamma_event(2, GammaEvent::GammaSize { size: 32 });
    state.gamma_event(9, GammaEvent::Failed);
    let half = Brightness::new(500_000_000_000_000);
    assert_eq!(state.set_gamma_dimmed(half).len(), 2);
    state.active_output = Some("DP-1".to_string());
    assert_eq!(
        state.set_gamma_dimmed(half),
        vec![Action::SetGamma {
            control: 2,
            size: 32,
            brightness: half
        }]
    );
    state.gamma_event(2, GammaEvent::Failed);
    assert!(state.set_gamma_dimmed(half).is_empty());
}

#[test]
fn the_direct_engine_follows_the_focus() {
    let mut state = engine();
    assert!(activate(&mut state, 7, 1, 0).is_empty());
    assert_eq!(state.active_output, Some("DP-1".to_string()));
    assert!(state.is_transitioning());

    // Waiting, fading, done.
    assert_eq!(state.tick_transition(Span::from_millis(324)), (true, None));
    let (going_on, paint) = state.tick_transition(Span::from_millis(400));
    assert!(going_on);
    // A quarter of 0.5 is left, which is 32 of 255.
    assert_eq!(drawn(&[paint.unwrap()]), vec![(1, SurfaceRole::Overlay, 32)]);
    let (going_on, paint) = state.tick_transition(Span::from_millis(475));
    assert!(!going_on);
    assert_eq!(drawn(&[paint.unwrap()]), vec![(1, SurfaceRole::Overlay, 0)]);
    assert!(!state.is_transitioning());
    assert_eq!(state.tick_transition(Span::from_millis(500)), (false, None));

    // The focus moves on: the first output is dimmed at once.
    let raw = vec![0, 0, 0, 0];
    tell(&mut state, 7, ToplevelEvent::State { raw }, 1000);
    let paints = activate(&mut state, 8, 2, 1000);
    assert_eq!(drawn(&paints), vec![(1, SurfaceRole::Overlay, 127)]);
    assert_eq!(state.active_output_name(), Some("DP-2".to_string()));
}

#[test]
fn a_window_that_enters_another_output_dims_the_old_one() {
    let mut state = engine();
    activate(&mut state, 7, 1, 0);
    let paints = tell(&mut state, 7, ToplevelEvent::OutputEnter { output: 2 }, 10);
    assert_eq!(drawn(&paints), vec![(1, SurfaceRole::Overlay, 127)]);
    // The transition revealed that output.
    assert!(!state.is_transitioning());
}

#[test]
fn a_window_that_leaves_the_active_output_dims_it() {
    let mut state = engine();
    activate(&mut state, 7, 1, 0);
    assert!(tell(&mut state, 9, ToplevelEvent::OutputLeave { output: 2 }, 10).is_empty());
    assert!(state.is_transitioning());
    let paints = tell(&mut state, 7, ToplevelEvent::OutputLeave { output: 1 }, 10);
    assert_eq!(drawn(&paints), vec![(1, SurfaceRole::Overlay, 127)]);
    assert!(!state.is_transitioning());
}

#[test]
fn without_following_the_focus_nothing_moves() {
    let mut state = engine();
    state.skip_active = false;
    assert!(activate(&mut state, 7, 1, 0).is_empty());
    assert_eq!(state.active_output, None);
    assert!(!state.is_transitioning());
}

#[test]
fn closed_windows_are_forgotten_here_too() {
    let mut state = engine();
    activate(&mut state, 7, 1, 0);
    activate(&mut state, 8, 2, 0);
    assert_eq!(state.toplevels.len(), 2);
    tell(&mut state, 7, ToplevelEvent::Closed, 1);
    assert_eq!(state.toplevels.len(), 1);
    assert_eq!(state.active_output_name(), Some("DP-2".to_string()));
    state.toplevel_manager_finished();
    assert!(!state.toplevel_manager);
}
