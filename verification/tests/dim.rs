use wl_zenwindow::dim::{DimController, DimUpdates, OutputUpdate};
use wl_zenwindow::fraction::{ease_out_quad, WHOLE};
use wl_zenwindow::span::Span;
use wl_zenwindow::{Brightness, Opacity};

fn parts(x: f64) -> i64 {
    (x * 1e15).round() as i64
}

fn as_f64(parts: u64) -> f64 {
    parts as f64 / 1e15
}

fn controller(opacity: f64, brightness: f64) -> DimController {
    DimController::new(
        Opacity::new(parts(opacity)),
        Some(Brightness::new(parts(brightness))),
    )
}

fn named<'a>(updates: &'a DimUpdates, name: &str) -> &'a OutputUpdate {
    updates.iter().find(|u| u.name == name).unwrap()
}

fn ease(t: f64) -> f64 {
    as_f64(ease_out_quad(parts(t) as u64))
}

#[test]
fn new_output_starts_at_zero_alpha() {
    let mut ctrl = controller(0.8, 0.5);
    ctrl.add_output("DP-1".into(), false);

    let state = ctrl.get("DP-1").unwrap();
    assert_eq!(as_f64(state.alpha.parts()), 0.0);
    assert_eq!(as_f64(state.brightness.parts()), 1.0);
    assert!(!state.skipped);
}

#[test]
fn active_output_is_skipped() {
    let mut ctrl = controller(0.8, 0.5);
    ctrl.add_output("DP-1".into(), true);

    assert!(ctrl.is_output_skipped("DP-1"));
    assert_eq!(ctrl.active_output(), Some("DP-1"));
}

#[test]
fn focus_change_dims_old_reveals_new() {
    let mut ctrl = controller(0.8, 0.5);
    ctrl.add_output("DP-1".into(), true);
    ctrl.add_output("DP-2".into(), false);

    // DP-2 goes to the targets, as after a fade-in.
    ctrl.snap_to_target();
    let dp2 = ctrl.get("DP-2").unwrap();
    assert_eq!(as_f64(dp2.alpha.parts()), 0.8);
    assert_eq!(as_f64(dp2.brightness.parts()), 0.5);

    let updates = ctrl.focus_changed(Some("DP-2".into()), Span::zero());

    // DP-1 should be immediately dimmed
    assert_eq!(updates.len(), 1);
    assert_eq!(updates[0].name, "DP-1");
    assert_eq!(as_f64(updates[0].opacity.parts()), 0.8);
    assert_eq!(as_f64(updates[0].brightness.parts()), 0.5);

    // DP-2 should now be skipped, transition started
    assert!(ctrl.is_output_skipped("DP-2"));
    assert!(!ctrl.is_output_skipped("DP-1"));
    assert!(ctrl.is_animating());
}

#[test]
fn tick_animates_revealing_output() {
    let mut ctrl = controller(1.0, 0.5);
    ctrl.add_output("DP-1".into(), true);
    ctrl.add_output("DP-2".into(), false);
    ctrl.snap_to_target();

    ctrl.focus_changed(Some("DP-2".into()), Span::from_millis(1000));

    // 400 milliseconds later, past the delay
    let updates = ctrl.tick(Span::from_millis(1400));
    assert_eq!(updates.len(), 1);
    assert_eq!(updates[0].name, "DP-2");
    // Opacity should be decreasing toward 0
    assert!(as_f64(updates[0].opacity.parts()) < 1.0);
    // Brightness should be increasing toward 1
    assert!(as_f64(updates[0].brightness.parts()) > 0.5);
}

#[test]
fn fade_in_frame_respects_skipped() {
    let mut ctrl = controller(0.8, 0.5);
    ctrl.add_output("DP-1".into(), true); // active, skipped
    ctrl.add_output("DP-2".into(), false); // not skipped

    let updates = ctrl.fade_in_frame(Span::from_millis(500), Span::from_secs(1));

    let dp1 = named(&updates, "DP-1");
    let dp2 = named(&updates, "DP-2");

    // DP-1 is skipped (active): stays transparent
    assert_eq!(as_f64(dp1.opacity.parts()), 0.0);
    assert_eq!(as_f64(dp1.brightness.parts()), 1.0);

    // DP-2 is not skipped: fading toward target
    assert!(as_f64(dp2.opacity.parts()) > 0.0);
    assert!(as_f64(dp2.brightness.parts()) < 1.0);
}

#[test]
fn remove_output_clears_transition() {
    let mut ctrl = controller(1.0, 0.5);
    ctrl.add_output("DP-1".into(), true);
    ctrl.add_output("DP-2".into(), false);

    ctrl.focus_changed(Some("DP-2".into()), Span::zero());
    assert!(ctrl.is_animating());

    ctrl.remove_output("DP-2");
    assert!(!ctrl.is_animating());
}

#[test]
fn ease_out_quad_values() {
    assert!((ease(0.0)).abs() < f64::EPSILON);
    assert!((ease(1.0) - 1.0).abs() < f64::EPSILON);
    assert!((ease(0.5) - 0.75).abs() < f64::EPSILON);
}

#[test]
fn snap_to_target_sets_final_values() {
    let mut ctrl = controller(0.8, 0.4);
    ctrl.add_output("DP-1".into(), true);
    ctrl.add_output("DP-2".into(), false);

    let updates = ctrl.snap_to_target();

    let dp1 = named(&updates, "DP-1");
    let dp2 = named(&updates, "DP-2");

    assert_eq!(as_f64(dp1.opacity.parts()), 0.0);
    assert_eq!(as_f64(dp1.brightness.parts()), 1.0);
    assert_eq!(as_f64(dp2.opacity.parts()), 0.8);
    assert_eq!(as_f64(dp2.brightness.parts()), 0.4);
}

#[test]
fn reveal_output_starts_transition() {
    let mut ctrl = controller(0.8, 0.5);
    ctrl.add_output("DP-1".into(), false);
    ctrl.add_output("DP-2".into(), false);

    // As after a fade-in: both at target
    ctrl.snap_to_target();
    assert_eq!(as_f64(ctrl.get("DP-1").unwrap().alpha.parts()), 0.8);
    assert_eq!(as_f64(ctrl.get("DP-1").unwrap().brightness.parts()), 0.5);
    assert_eq!(as_f64(ctrl.get("DP-2").unwrap().alpha.parts()), 0.8);
    assert_eq!(as_f64(ctrl.get("DP-2").unwrap().brightness.parts()), 0.5);

    ctrl.reveal_output("DP-1", Span::zero());

    assert!(ctrl.is_animating());
    assert!(ctrl.is_output_skipped("DP-1"));
    assert_eq!(ctrl.active_output(), Some("DP-1"));
}

#[test]
fn tick_values_halfway() {
    let mut ctrl = controller(0.8, 0.5);
    ctrl.add_output("DP-1".into(), true);
    ctrl.add_output("DP-2".into(), false);
    ctrl.snap_to_target();
    ctrl.focus_changed(Some("DP-2".into()), Span::zero());

    // Half of the fade: eased to 0.75.
    let updates = ctrl.tick(Span::from_millis(325 + 75));
    assert_eq!(updates[0].opacity.parts(), parts(0.2) as u64);
    assert_eq!(updates[0].brightness.parts(), parts(0.875) as u64);
    assert!(ctrl.is_animating());
}

#[test]
fn focus_change_runs_its_course() {
    let mut ctrl = controller(0.8, 0.5);
    ctrl.add_output("DP-1".into(), true);
    ctrl.add_output("DP-2".into(), false);
    ctrl.add_output("DP-3".into(), false);
    ctrl.snap_to_target();
    let start = Span::from_secs(7);
    ctrl.focus_changed(Some("DP-2".into()), start);

    // Nothing moves before the delay.
    assert!(ctrl.tick(Span::from_millis(7000 + 324)).is_empty());
    assert_eq!(ctrl.get("DP-2").unwrap().alpha.parts(), parts(0.8) as u64);

    // The fade starts at the target.
    let updates = ctrl.tick(Span::from_millis(7000 + 325));
    assert_eq!(updates[0].opacity.parts(), parts(0.8) as u64);
    assert_eq!(updates[0].brightness.parts(), parts(0.5) as u64);

    // It ends clear.
    let updates = ctrl.tick(Span::from_millis(7000 + 475));
    assert_eq!(updates.len(), 1);
    assert_eq!(updates[0].opacity.parts(), 0);
    assert_eq!(updates[0].brightness.parts(), WHOLE);
    assert!(!ctrl.is_animating());

    // The third output was left alone.
    assert_eq!(ctrl.get("DP-3").unwrap().alpha.parts(), parts(0.8) as u64);
    assert!(ctrl.tick(Span::from_secs(100)).is_empty());
}

#[test]
fn focus_on_the_same_output_is_quiet() {
    let mut ctrl = controller(0.8, 0.5);
    ctrl.add_output("DP-1".into(), true);
    assert!(ctrl.focus_changed(Some("DP-1".into()), Span::zero()).is_empty());
    assert!(!ctrl.is_animating());
}

#[test]
fn focus_on_nothing_dims_and_starts_no_fade() {
    let mut ctrl = controller(0.8, 0.5);
    ctrl.add_output("DP-1".into(), true);
    let updates = ctrl.focus_changed(None, Span::zero());
    assert_eq!(updates.len(), 1);
    assert_eq!(updates[0].name, "DP-1");
    assert_eq!(ctrl.active_output(), None);
    assert!(!ctrl.is_animating());
}

#[test]
fn focus_on_an_unknown_output_still_starts_a_fade() {
    let mut ctrl = controller(0.8, 0.5);
    let updates = ctrl.focus_changed(Some("DP-9".into()), Span::zero());
    assert!(updates.is_empty());
    assert!(ctrl.is_animating());
    assert!(!ctrl.is_output_skipped("DP-9"));
    assert!(ctrl.tick(Span::from_secs(1)).is_empty());
    assert!(!ctrl.is_animating());
}

#[test]
fn removed_output_is_gone() {
    let mut ctrl = controller(0.8, 0.5);
    ctrl.add_output("DP-1".into(), true);
    ctrl.add_output("DP-2".into(), false);
    ctrl.remove_output("DP-1");
    assert!(ctrl.get("DP-1").is_none());
    assert!(ctrl.current_update("DP-1").is_none());
    assert_eq!(ctrl.active_output(), None);
    assert_eq!(ctrl.snap_to_target().len(), 1);
}

#[test]
fn adding_twice_keeps_one() {
    let mut ctrl = controller(0.8, 0.5);
    ctrl.add_output("DP-1".into(), false);
    ctrl.snap_to_target();
    ctrl.add_output("DP-1".into(), false);
    assert_eq!(ctrl.get("DP-1").unwrap().alpha.parts(), 0);
    assert_eq!(ctrl.snap_to_target().len(), 1);
}

#[test]
fn finished_fade_in_is_snapped() {
    let mut faded = controller(0.7, 0.3);
    faded.add_output("DP-1".into(), true);
    faded.add_output("DP-2".into(), false);
    let mut snapped = controller(0.7, 0.3);
    snapped.add_output("DP-1".into(), true);
    snapped.add_output("DP-2".into(), false);
    faded.fade_in_frame(Span::from_secs(2), Span::from_secs(1));
    snapped.snap_to_target();
    for name in ["DP-1", "DP-2"] {
        assert_eq!(faded.get(name), snapped.get(name));
    }
    // Without a duration the first frame is the last.
    let updates = faded.fade_in_frame(Span::zero(), Span::zero());
    assert_eq!(named(&updates, "DP-2").opacity.parts(), parts(0.7) as u64);
}

#[test]
fn fade_in_frame_values() {
    let mut ctrl = controller(0.8, 0.6);
    ctrl.add_output("DP-1".into(), false);
    let updates = ctrl.fade_in_frame(Span::from_millis(250), Span::from_millis(500));
    assert_eq!(updates[0].opacity.parts(), parts(0.6) as u64);
    assert_eq!(updates[0].brightness.parts(), parts(0.7) as u64);
    let updates = ctrl.fade_in_frame(Span::zero(), Span::from_millis(500));
    assert_eq!(updates[0].opacity.parts(), 0);
    assert_eq!(updates[0].brightness.parts(), WHOLE);
}

#[test]
fn snap_all_to_dimmed_covers_the_active_output() {
    let mut ctrl = controller(0.8, 0.5);
    ctrl.add_output("DP-1".into(), true);
    ctrl.add_output("DP-2".into(), false);
    let updates = ctrl.snap_all_to_dimmed();
    assert_eq!(updates.len(), 2);
    for update in updates.iter() {
        assert_eq!(update.opacity.parts(), parts(0.8) as u64);
        assert_eq!(update.brightness.parts(), parts(0.5) as u64);
    }
    assert!(!ctrl.is_output_skipped("DP-1"));
    assert_eq!(ctrl.active_output(), Some("DP-1"));
}

#[test]
fn reveal_after_launch_runs_its_course() {
    let mut ctrl = controller(0.8, 0.5);
    ctrl.add_output("DP-1".into(), false);
    ctrl.snap_to_target();
    ctrl.reveal_output("DP-1", Span::zero());
    assert!(ctrl.tick(Span::from_millis(49)).is_empty());
    assert_eq!(ctrl.tick(Span::from_millis(50))[0].opacity.parts(), parts(0.8) as u64);
    assert_eq!(ctrl.tick(Span::from_millis(250))[0].opacity.parts(), 0);
    assert!(!ctrl.is_animating());
    assert!(ctrl.focus_changed(Some("DP-1".into()), Span::from_secs(1)).is_empty());
}

#[test]
fn cancelled_transition_does_not_tick() {
    let mut ctrl = controller(0.8, 0.5);
    ctrl.add_output("DP-1".into(), false);
    ctrl.reveal_output("DP-1", Span::zero());
    ctrl.cancel_transition();
    assert!(!ctrl.is_animating());
    assert!(ctrl.tick(Span::from_secs(1)).is_empty());
}

#[test]
fn current_update_is_the_present_state() {
    let mut ctrl = controller(0.8, 0.5);
    ctrl.add_output("DP-1".into(), false);
    ctrl.snap_to_target();
    let update = ctrl.current_update("DP-1").unwrap();
    assert_eq!(update.name, "DP-1");
    assert_eq!(update.opacity.parts(), parts(0.8) as u64);
    assert_eq!(update.brightness.parts(), parts(0.5) as u64);
}

#[test]
fn no_target_brightness_means_normal() {
    let mut ctrl = DimController::new(Opacity::opaque(), None);
    ctrl.add_output("DP-1".into(), false);
    assert_eq!(ctrl.snap_to_target()[0].brightness.parts(), WHOLE);
}

#[test]
fn removing_undoes_adding() {
    let mut ctrl = controller(0.8, 0.5);
    ctrl.add_output("DP-1".into(), true);
    ctrl.snap_to_target();
    ctrl.add_output("DP-2".into(), false);
    ctrl.remove_output("DP-2");
    assert!(ctrl.get("DP-2").is_none());
    assert_eq!(ctrl.active_output(), Some("DP-1"));
    let updates = ctrl.snap_to_target();
    assert_eq!(updates.len(), 1);
    assert_eq!(updates[0].name, "DP-1");
    assert_eq!(updates[0].opacity.parts(), 0);
}

#[test]
fn only_the_active_output_is_skipped() {
    let mut ctrl = controller(0.8, 0.5);
    for name in ["DP-1", "DP-2", "DP-3"] {
        ctrl.add_output(name.into(), false);
    }
    for name in ["DP-2", "DP-3", "DP-1", "DP-1"] {
        ctrl.focus_changed(Some(name.into()), Span::zero());
        ctrl.tick(Span::from_secs(1));
        for other in ["DP-1", "DP-2", "DP-3"] {
            assert_eq!(ctrl.is_output_skipped(other), other == name);
        }
    }
}

#[test]
fn updates_agree_with_the_state() {
    let mut ctrl = controller(0.8, 0.5);
    ctrl.add_output("DP-1".into(), true);
    ctrl.add_output("DP-2".into(), false);
    ctrl.snap_to_target();
    ctrl.focus_changed(Some("DP-2".into()), Span::zero());
    for millis in (325..=475).step_by(10) {
        for update in ctrl.tick(Span::from_millis(millis)).iter() {
            let state = ctrl.get(&update.name).unwrap();
            assert_eq!(state.alpha, update.opacity);
            assert_eq!(state.brightness, update.brightness);
        }
    }
}

#[test]
fn a_reveal_only_lightens() {
    let mut ctrl = controller(0.8, 0.5);
    ctrl.add_output("DP-1".into(), false);
    ctrl.snap_to_target();
    ctrl.reveal_output("DP-1", Span::zero());
    let mut last = (u64::MAX, 0);
    for millis in 50..=250 {
        let updates = ctrl.tick(Span::from_millis(millis));
        let now = (updates[0].opacity.parts(), updates[0].brightness.parts());
        assert!(now.0 <= last.0 && now.1 >= last.1);
        last = now;
    }
    assert_eq!(last, (0, WHOLE));
}
