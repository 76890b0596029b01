use wl_zenwindow::fraction::WHOLE;
use wl_zenwindow::span::Span;
use wl_zenwindow::transition::{ease_out_quad, opacity_to_multiplier, FadeIn, Transition, TransitionTick};
use wl_zenwindow::{Brightness, Opacity};

fn parts(x: f64) -> i64 {
    (x * 1e15).round() as i64
}

fn opacity(x: f64) -> Opacity {
    Opacity::new(parts(x))
}

fn brightness(x: f64) -> Brightness {
    Brightness::new(parts(x))
}

fn as_f64(parts: u64) -> f64 {
    parts as f64 / 1e15
}

fn ease(t: f64) -> f64 {
    as_f64(ease_out_quad(parts(t) as u64))
}

#[test]
fn ease_out_quad_at_zero() {
    assert!((ease(0.0)).abs() < f64::EPSILON);
}

#[test]
fn ease_out_quad_at_one() {
    assert!((ease(1.0) - 1.0).abs() < f64::EPSILON);
}

#[test]
fn ease_out_quad_at_half() {
    // 1 - (1 - 0.5)^2 = 1 - 0.25 = 0.75
    assert!((ease(0.5) - 0.75).abs() < f64::EPSILON);
}

#[test]
fn ease_out_quad_at_quarter() {
    // 1 - (1 - 0.25)^2 = 1 - 0.5625 = 0.4375
    assert!((ease(0.25) - 0.4375).abs() < f64::EPSILON);
}

#[test]
fn ease_out_quad_is_monotonic() {
    let steps: Vec<f64> = (0..=100).map(|i| f64::from(i) / 100.0).collect();
    for pair in steps.windows(2) {
        assert!(
            ease(pair[1]) >= ease(pair[0]),
            "ease_out_quad({}) < ease_out_quad({})",
            pair[1],
            pair[0],
        );
    }
}

fn test_transition() -> Transition {
    Transition {
        start: Span::zero(),
        delay: Span::from_millis(100),
        duration: Span::from_millis(200),
        revealing: Some("DP-1".to_string()),
    }
}

#[test]
fn tick_during_delay_returns_waiting() {
    let t = test_transition();
    let tick = t.tick(Span::from_millis(50), opacity(1.0));
    assert!(matches!(tick, TransitionTick::Waiting));
}

#[test]
fn tick_at_exact_delay_boundary_returns_fading() {
    let t = test_transition();
    // elapsed == delay means fade_elapsed == 0, t == 0, alpha == 255
    let tick = t.tick(Span::from_millis(100), opacity(1.0));
    assert!(matches!(tick, TransitionTick::Fading { alpha: 255 }));
}

#[test]
fn tick_midway_through_fade() {
    let t = test_transition();
    // delay=100ms, duration=200ms, elapsed=200ms: fade_elapsed=100ms, t=0.5
    // eased = 0.75, alpha = round((1-0.75) * 1.0 * 255) = round(63.75) = 64
    let tick = t.tick(Span::from_millis(200), opacity(1.0));
    match tick {
        TransitionTick::Fading { alpha } => assert_eq!(alpha, 64),
        other => panic!("expected Fading, got {other:?}"),
    }
}

#[test]
fn tick_at_end_returns_done() {
    let t = test_transition();
    // delay=100ms, duration=200ms, elapsed=300ms: fade_elapsed=200ms, t=1.0
    // eased = 1.0, alpha = (1-1) * 255 = 0
    let tick = t.tick(Span::from_millis(300), opacity(1.0));
    assert!(matches!(tick, TransitionTick::Done { alpha: 0 }));
}

#[test]
fn tick_past_end_returns_done() {
    let t = test_transition();
    let tick = t.tick(Span::from_millis(500), opacity(1.0));
    assert!(matches!(tick, TransitionTick::Done { alpha: 0 }));
}

#[test]
fn tick_respects_target_opacity() {
    let t = test_transition();
    // At start of fade (t=0), alpha = round((1-0) * 0.5 * 255) = round(127.5) = 128
    let tick = t.tick(Span::from_millis(100), opacity(0.5));
    match tick {
        TransitionTick::Fading { alpha } => assert_eq!(alpha, 128),
        other => panic!("expected Fading, got {other:?}"),
    }
}

#[test]
fn tick_done_alpha_is_zero_regardless_of_opacity() {
    let t = test_transition();
    let tick = t.tick(Span::from_millis(300), opacity(0.5));
    assert!(matches!(tick, TransitionTick::Done { alpha: 0 }));
}

#[test]
fn tick_alpha_decreases_over_time() {
    let t = test_transition();
    let mut prev_alpha = 255u8;
    // Sample at 10ms intervals through the fade (100ms..300ms)
    for ms in (100..=300).step_by(10) {
        let tick = t.tick(Span::from_millis(ms), opacity(1.0));
        let alpha = match tick {
            TransitionTick::Fading { alpha } | TransitionTick::Done { alpha } => alpha,
            TransitionTick::Waiting => panic!("unexpected Waiting at {ms}ms"),
        };
        assert!(
            alpha <= prev_alpha,
            "alpha increased at {ms}ms: {alpha} > {prev_alpha}"
        );
        prev_alpha = alpha;
    }
    assert_eq!(prev_alpha, 0);
}

#[test]
fn tick_zero_delay_starts_fading_immediately() {
    let t = Transition {
        start: Span::zero(),
        delay: Span::zero(),
        duration: Span::from_millis(200),
        revealing: Some("eDP-1".to_string()),
    };
    let tick = t.tick(Span::zero(), opacity(1.0));
    assert!(matches!(tick, TransitionTick::Fading { alpha: 255 }));
}

fn test_fade_in() -> FadeIn {
    FadeIn {
        duration: Span::from_millis(500),
        target_opacity: opacity(1.0),
        target_brightness: brightness(1.0),
    }
}

#[test]
fn fade_in_at_zero_all_transparent() {
    let fade = test_fade_in();
    let frame = fade.frame_at(Span::zero());
    assert_eq!(frame.alpha, 0);
    assert_eq!(frame.multiplier, 0);
    assert!((as_f64(frame.brightness.parts()) - 1.0).abs() < f64::EPSILON);
    assert!(!frame.done);
}

#[test]
fn fade_in_at_end_fully_opaque() {
    let fade = test_fade_in();
    let frame = fade.frame_at(Span::from_millis(500));
    assert_eq!(frame.alpha, 255);
    assert_eq!(frame.multiplier, u32::MAX);
    assert!((as_f64(frame.brightness.parts()) - 1.0).abs() < f64::EPSILON);
    assert!(frame.done);
}

#[test]
fn fade_in_past_end_clamps() {
    let fade = test_fade_in();
    let frame = fade.frame_at(Span::from_secs(5));
    assert_eq!(frame.alpha, 255);
    assert!(frame.done);
}

#[test]
fn fade_in_midway() {
    let fade = test_fade_in();
    // t=0.5, eased=0.75
    let frame = fade.frame_at(Span::from_millis(250));
    // alpha = 0.75 * 1.0 * 255 = 191
    assert_eq!(frame.alpha, 191);
    assert!(!frame.done);
}

#[test]
fn fade_in_respects_target_opacity() {
    let fade = FadeIn {
        duration: Span::from_millis(500),
        target_opacity: opacity(0.5),
        target_brightness: brightness(1.0),
    };
    // At end: alpha = round(1.0 * 0.5 * 255) = round(127.5) = 128
    let frame = fade.frame_at(Span::from_millis(500));
    assert_eq!(frame.alpha, 128);
    assert!(frame.done);
}

#[test]
fn fade_in_multiplier_respects_opacity() {
    let fade = FadeIn {
        duration: Span::from_millis(500),
        target_opacity: opacity(0.5),
        target_brightness: brightness(1.0),
    };
    // At end: multiplier = 1.0 * 0.5 * u32::MAX
    let frame = fade.frame_at(Span::from_millis(500));
    let expected = opacity_to_multiplier(parts(0.5));
    assert_eq!(frame.multiplier, expected);
}

#[test]
fn fade_in_brightness_interpolation() {
    let fade = FadeIn {
        duration: Span::from_millis(500),
        target_opacity: opacity(1.0),
        target_brightness: brightness(0.4),
    };
    // At t=0: brightness = 1.0 (no dimming yet)
    let frame0 = fade.frame_at(Span::zero());
    assert!((as_f64(frame0.brightness.parts()) - 1.0).abs() < f64::EPSILON);

    // At t=1: brightness = 1.0 - 1.0 * (1.0 - 0.4) = 0.4
    let frame_end = fade.frame_at(Span::from_millis(500));
    assert!((as_f64(frame_end.brightness.parts()) - 0.4).abs() < f64::EPSILON);

    // At t=0.5 (eased=0.75): brightness = 1.0 - 0.75 * 0.6 = 0.55
    let frame_mid = fade.frame_at(Span::from_millis(250));
    assert!((as_f64(frame_mid.brightness.parts()) - 0.55).abs() < f64::EPSILON);
}

#[test]
fn fade_in_alpha_increases_over_time() {
    let fade = test_fade_in();
    let mut prev_alpha = 0u8;
    for ms in (0..=500).step_by(10) {
        let frame = fade.frame_at(Span::from_millis(ms));
        assert!(
            frame.alpha >= prev_alpha,
            "alpha decreased at {ms}ms: {} < {prev_alpha}",
            frame.alpha,
        );
        prev_alpha = frame.alpha;
    }
    assert_eq!(prev_alpha, 255);
}

#[test]
fn fade_in_brightness_decreases_toward_target() {
    let fade = FadeIn {
        duration: Span::from_millis(500),
        target_opacity: opacity(1.0),
        target_brightness: brightness(0.3),
    };
    let mut prev_brightness = 1.0f64;
    for ms in (0..=500).step_by(10) {
        let frame = fade.frame_at(Span::from_millis(ms));
        let now = as_f64(frame.brightness.parts());
        assert!(
            now <= prev_brightness + f64::EPSILON,
            "brightness increased at {ms}ms: {} > {prev_brightness}",
            now,
        );
        prev_brightness = now;
    }
    assert!((prev_brightness - 0.3).abs() < f64::EPSILON);
}

#[test]
fn fade_in_full_brightness_stays_at_one() {
    let fade = test_fade_in();
    for ms in (0..=500).step_by(50) {
        let frame = fade.frame_at(Span::from_millis(ms));
        let now = as_f64(frame.brightness.parts());
        assert!(
            (now - 1.0).abs() < f64::EPSILON,
            "brightness != 1.0 at {ms}ms: {}",
            now,
        );
    }
}

#[test]
fn multiplier_rounds_to_the_nearest() {
    // 0.5 * 4294967295 = 2147483647.5
    assert_eq!(opacity_to_multiplier(parts(0.5)), 2_147_483_648);
    assert_eq!(opacity_to_multiplier(parts(1.0)), u32::MAX);
    assert_eq!(opacity_to_multiplier(parts(2.0)), u32::MAX);
    assert_eq!(opacity_to_multiplier(parts(-1.0)), 0);
    for i in 0..=1000u32 {
        let x = f64::from(i) / 1000.0;
        let expected = (x * f64::from(u32::MAX)).round().clamp(0.0, f64::from(u32::MAX)) as u32;
        assert_eq!(opacity_to_multiplier(parts(x)), expected);
    }
}

#[test]
fn zero_durations_are_over_at_once() {
    let fade = FadeIn {
        duration: Span::zero(),
        target_opacity: opacity(0.6),
        target_brightness: brightness(0.2),
    };
    let frame = fade.frame_at(Span::zero());
    assert!(frame.done);
    assert_eq!(frame.alpha, 153);
    assert_eq!(frame.brightness.parts(), parts(0.2) as u64);
    let t = Transition {
        start: Span::zero(),
        delay: Span::zero(),
        duration: Span::zero(),
        revealing: None,
    };
    assert_eq!(t.tick(Span::zero(), opacity(1.0)), TransitionTick::Done { alpha: 0 });
}

#[test]
fn eased_progress_runs_ahead_and_stays_below_one() {
    for i in 0..=100u64 {
        let t = i * (WHOLE / 100);
        let eased = ease_out_quad(t);
        assert!(t <= eased && eased <= WHOLE);
    }
}
