use wl_zenwindow::names::NameSet;
use wl_zenwindow::state::{opacity_to_alpha, should_skip, SurfaceConfig, SurfaceRole};

fn skip_names(names: &[&str]) -> NameSet {
    let mut set = NameSet::new();
    for name in names {
        set.insert(name.to_string());
    }
    set
}

#[test]
fn state_surface_config_pending_has_no_dimensions() {
    assert_eq!(SurfaceConfig::Pending.dimensions(), None);
}

#[test]
fn state_surface_config_ready_returns_dimensions() {
    let config = SurfaceConfig::Ready {
        width: 1920,
        height: 1080,
    };
    assert_eq!(config.dimensions(), Some((1920, 1080)));
}

#[test]
fn state_surface_config_ready_zero_width_returns_none() {
    let config = SurfaceConfig::Ready {
        width: 0,
        height: 1080,
    };
    assert_eq!(config.dimensions(), None);
}

#[test]
fn state_surface_config_ready_zero_height_returns_none() {
    let config = SurfaceConfig::Ready {
        width: 1920,
        height: 0,
    };
    assert_eq!(config.dimensions(), None);
}

#[test]
fn state_surface_config_ready_both_zero_returns_none() {
    let config = SurfaceConfig::Ready {
        width: 0,
        height: 0,
    };
    assert_eq!(config.dimensions(), None);
}

#[test]
fn backdrop_never_skipped() {
    assert!(!should_skip(
        SurfaceRole::Backdrop,
        Some("DP-1"),
        &skip_names(&["DP-1"]),
        true,
        Some("DP-1"),
    ));
}

#[test]
fn overlay_skipped_by_name() {
    assert!(should_skip(
        SurfaceRole::Overlay,
        Some("DP-1"),
        &skip_names(&["DP-1"]),
        false,
        None,
    ));
}

#[test]
fn overlay_not_skipped_when_name_not_in_set() {
    assert!(!should_skip(
        SurfaceRole::Overlay,
        Some("DP-1"),
        &skip_names(&["HDMI-1"]),
        false,
        None,
    ));
}

#[test]
fn overlay_skipped_when_active() {
    assert!(should_skip(
        SurfaceRole::Overlay,
        Some("DP-1"),
        &NameSet::new(),
        true,
        Some("DP-1"),
    ));
}

#[test]
fn overlay_not_skipped_when_skip_active_false() {
    assert!(!should_skip(
        SurfaceRole::Overlay,
        Some("DP-1"),
        &NameSet::new(),
        false,
        Some("DP-1"),
    ));
}

#[test]
fn overlay_not_skipped_when_different_output_active() {
    assert!(!should_skip(
        SurfaceRole::Overlay,
        Some("DP-1"),
        &NameSet::new(),
        true,
        Some("HDMI-1"),
    ));
}

#[test]
fn overlay_not_skipped_when_no_active_output() {
    assert!(!should_skip(
        SurfaceRole::Overlay,
        Some("DP-1"),
        &NameSet::new(),
        true,
        None,
    ));
}

#[test]
fn overlay_without_name_never_skipped() {
    assert!(!should_skip(
        SurfaceRole::Overlay,
        None,
        &skip_names(&["DP-1"]),
        true,
        Some("DP-1"),
    ));
}

#[test]
fn skip_name_takes_priority_over_active() {
    // Output is in skip_names AND is the active output:
    // should be skipped regardless of skip_active flag.
    assert!(should_skip(
        SurfaceRole::Overlay,
        Some("DP-1"),
        &skip_names(&["DP-1"]),
        false,
        Some("DP-1"),
    ));
}

#[test]
fn multiple_skip_names() {
    let names = skip_names(&["DP-1", "DP-2", "HDMI-1"]);
    assert!(should_skip(
        SurfaceRole::Overlay,
        Some("DP-2"),
        &names,
        false,
        None
    ));
    assert!(!should_skip(
        SurfaceRole::Overlay,
        Some("eDP-1"),
        &names,
        false,
        None
    ));
}

#[test]
fn empty_skip_names_and_no_active() {
    assert!(!should_skip(
        SurfaceRole::Overlay,
        Some("DP-1"),
        &NameSet::new(),
        false,
        None,
    ));
}

#[test]
fn opacity_rounds_to_the_nearest_alpha() {
    let parts = |x: f64| (x * 1e15).round() as i64;
    assert_eq!(opacity_to_alpha(parts(0.5)), 128);
    assert_eq!(opacity_to_alpha(parts(0.25)), 64);
    assert_eq!(opacity_to_alpha(parts(1.0)), 255);
    assert_eq!(opacity_to_alpha(parts(1.5)), 255);
    assert_eq!(opacity_to_alpha(parts(-0.5)), 0);
    for i in 0..=1000u32 {
        let x = f64::from(i) / 1000.0;
        let expected = (x * 255.0).round().clamp(0.0, 255.0) as u8;
        assert_eq!(opacity_to_alpha(parts(x)), expected);
    }
}
