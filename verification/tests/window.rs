use wl_zenwindow::span::Span;
use wl_zenwindow::window::{
    drop_step, DropStep, SpawnFailure, SpawnMode, Startup, ThreadEnd, ZenWindowBuilder,
};
use wl_zenwindow::{Brightness, Color, Opacity, SpawnError, ZenWindow};

fn parts(x: f64) -> i64 {
    (x * 1e15).round() as i64
}

fn as_f64(parts: u64) -> f64 {
    parts as f64 / 1e15
}

fn opacity_of(b: &ZenWindowBuilder) -> f64 {
    as_f64(b.opacity.parts())
}

fn brightness_of(brightness: Option<Brightness>) -> Option<f64> {
    brightness.map(|b| as_f64(b.parts()))
}

#[test]
fn builder_defaults() {
    let b = ZenWindowBuilder::new();
    assert!(b.skip_names.is_empty());
    assert_eq!(b.namespace, "wl-zenwindow");
    assert!(b.settle_delay.is_none());
    assert!(b.fade_duration.is_none());
    assert_eq!(b.opacity, Opacity::opaque());
    assert_eq!(b.color, Color::black());
    assert!(b.brightness.is_none());
}

#[test]
fn opacity_clamped_above() {
    let b = ZenWindow::builder().opacity(parts(1.5));
    assert_eq!(opacity_of(&b), 1.0);
}

#[test]
fn opacity_clamped_below() {
    let b = ZenWindow::builder().opacity(parts(-0.5));
    assert_eq!(opacity_of(&b), 0.0);
}

#[test]
fn opacity_within_range() {
    let b = ZenWindow::builder().opacity(parts(0.7));
    assert!((opacity_of(&b) - 0.7).abs() < f64::EPSILON);
}

#[test]
fn brightness_clamped_above() {
    let b = ZenWindow::builder().brightness(parts(2.0));
    assert_eq!(brightness_of(b.brightness), Some(1.0));
}

#[test]
fn brightness_clamped_below() {
    let b = ZenWindow::builder().brightness(parts(-1.0));
    assert_eq!(brightness_of(b.brightness), Some(0.0));
}

#[test]
fn skip_output_accumulates() {
    let b = ZenWindow::builder()
        .skip_output("DP-1")
        .skip_output("eDP-1");
    assert!(b.skip_names.contains("DP-1"));
    assert!(b.skip_names.contains("eDP-1"));
    assert_eq!(b.skip_names.len(), 2);
}

#[test]
fn builder_chaining() {
    let b = ZenWindow::builder()
        .namespace("custom")
        .color([255, 0, 128])
        .opacity(parts(0.5))
        .brightness(parts(0.3))
        .settle_delay(Span::from_millis(200))
        .fade_in(Span::from_millis(500));

    assert_eq!(b.namespace, "custom");
    assert_eq!(b.color, Color::new(255, 0, 128));
    assert!((opacity_of(&b) - 0.5).abs() < f64::EPSILON);
    assert_eq!(brightness_of(b.brightness), Some(0.3));
    assert_eq!(b.settle_delay, Some(Span::from_millis(200)));
    assert_eq!(b.fade_duration, Some(Span::from_millis(500)));
}

#[test]
fn config_transfers_all_fields() {
    let b = ZenWindow::builder()
        .skip_output("HDMI-1")
        .namespace("test-ns")
        .settle_delay(Span::from_millis(100))
        .fade_in(Span::from_secs(1))
        .opacity(parts(0.8))
        .color([10, 20, 30])
        .brightness(parts(0.6));

    let config = b.to_config(SpawnMode::Standard);

    assert!(config.skip_names.contains("HDMI-1"));
    assert_eq!(config.spawn_mode, SpawnMode::Standard);
    assert_eq!(config.namespace, "test-ns");
    assert_eq!(config.settle_delay, Some(Span::from_millis(100)));
    assert_eq!(config.fade_duration, Some(Span::from_secs(1)));
    assert!((as_f64(config.target_opacity.parts()) - 0.8).abs() < f64::EPSILON);
    assert_eq!(config.color, Color::new(10, 20, 30));
    assert_eq!(brightness_of(config.target_brightness), Some(0.6));
}

#[test]
fn config_spawn_with_mode() {
    let b = ZenWindowBuilder::new();
    let config = b.to_config(SpawnMode::SpawnWith);
    assert_eq!(config.spawn_mode, SpawnMode::SpawnWith);
}

#[test]
fn config_defaults() {
    let b = ZenWindowBuilder::new();
    let config = b.to_config(SpawnMode::Standard);

    assert!(config.skip_names.is_empty());
    assert_eq!(config.spawn_mode, SpawnMode::Standard);
    assert_eq!(config.namespace, "wl-zenwindow");
    assert!(config.settle_delay.is_none());
    assert!(config.fade_duration.is_none());
    assert_eq!(as_f64(config.target_opacity.parts()), 1.0);
    assert_eq!(config.color, Color::black());
    assert!(config.target_brightness.is_none());
}

#[test]
fn typed_values_pass_through() {
    let b = ZenWindow::builder()
        .opacity(Opacity::new(parts(0.25)))
        .brightness(Brightness::normal())
        .color(Color::new(1, 2, 3));
    assert_eq!(b.opacity, Opacity::new(parts(0.25)));
    assert_eq!(b.brightness, Some(Brightness::normal()));
    assert_eq!(b.color, Color::new(1, 2, 3));
}

#[test]
fn skipping_an_output_twice_keeps_one() {
    let b = ZenWindow::builder().skip_output("DP-1").skip_output("DP-1");
    assert_eq!(b.skip_names.len(), 1);
    assert!(!b.skip_names.contains("DP-2"));
}

#[test]
fn a_ready_thread_gives_a_handle() {
    let window = ZenWindow::started(Startup::Ready).unwrap();
    assert!(window.thread);
    assert!(!window.shutdown);
}

#[test]
fn a_thread_that_ended_well_gives_an_idle_handle() {
    let window = ZenWindow::started(Startup::Ended(ThreadEnd::Finished)).unwrap();
    assert!(!window.thread);
}

#[test]
fn a_failed_thread_gives_its_error() {
    let failure = ZenWindow::started(Startup::Ended(ThreadEnd::Failed(SpawnError::Setup(
        "pool".to_string(),
    ))))
    .unwrap_err();
    match failure {
        SpawnFailure::Error(error) => assert_eq!(error.cause(), "pool"),
        SpawnFailure::Panicked => panic!("expected an error"),
    }
}

#[test]
fn a_panicked_thread_passes_its_panic_on() {
    let failure = ZenWindow::started(Startup::Ended(ThreadEnd::Panicked)).unwrap_err();
    assert!(matches!(failure, SpawnFailure::Panicked));
}

#[test]
fn nonblocking_handles() {
    assert!(ZenWindow::nonblocking(true).thread);
    assert!(!ZenWindow::nonblocking(false).thread);
}

#[test]
fn a_handle_stops_once() {
    let mut window = ZenWindow::nonblocking(true);
    assert!(window.stop());
    assert!(window.shutdown);
    assert!(!window.stop());
}

#[test]
fn dropping_waits_for_at_most_a_second() {
    assert_eq!(drop_step(true, Span::zero()), DropStep::Join);
    assert_eq!(drop_step(true, Span::from_secs(9)), DropStep::Join);
    assert_eq!(
        drop_step(false, Span::from_millis(999)),
        DropStep::Sleep(Span::from_millis(10))
    );
    assert_eq!(drop_step(false, Span::from_secs(1)), DropStep::Abandon);
}

#[test]
fn a_refused_thread_gives_its_cause() {
    for failure in [
        ZenWindow::refused("no more threads".to_string()),
        ZenWindow::started(Startup::Refused("no more threads".to_string())).unwrap_err(),
    ] {
        match failure {
            SpawnFailure::Error(SpawnError::ThreadSpawn(cause)) => {
                assert_eq!(cause, "no more threads");
            }
            _ => panic!("expected a refused thread"),
        }
    }
}
