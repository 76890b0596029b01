use wl_zenwindow::fraction::{multiply, progress, WHOLE};
use wl_zenwindow::names::{is_named, same_name, same_opt_name, NameSet};
use wl_zenwindow::span::Span;

#[test]
fn spans_count_nanoseconds() {
    assert_eq!(Span::from_millis(3).as_nanos(), 3_000_000);
    assert_eq!(Span::from_secs(2).as_nanos(), 2_000_000_000);
    assert_eq!(Span::new(1, 5).as_nanos(), 1_000_000_005);
    assert_eq!(Span::zero().as_nanos(), 0);
    assert!(Span::zero().is_zero());
    assert!(!Span::from_millis(1).is_zero());
}

#[test]
fn time_since_a_later_moment_is_zero() {
    let (early, late) = (Span::from_secs(1), Span::from_secs(3));
    assert_eq!(late.since(early), Span::from_secs(2));
    assert_eq!(early.since(late), Span::zero());
    assert!(early.is_less(late));
    assert!(!late.is_less(late));
}

#[test]
fn the_longest_span_makes_progress() {
    let longest = Span::new(u64::MAX, 999_999_999);
    assert_eq!(progress(longest, longest), WHOLE);
    assert_eq!(progress(Span::from_secs(u64::MAX / 2), longest), WHOLE / 2 - 1);
    assert_eq!(progress(Span::zero(), longest), 0);
}

#[test]
fn progress_rounds_down() {
    let third = progress(Span::from_millis(1), Span::from_millis(3));
    assert_eq!(third, 333_333_333_333_333);
    assert_eq!(progress(Span::from_secs(1), Span::zero()), WHOLE);
    assert_eq!(progress(Span::zero(), Span::zero()), WHOLE);
}

#[test]
fn products_round_to_the_nearest_part() {
    assert_eq!(multiply(WHOLE, 7), 7);
    assert_eq!(multiply(WHOLE / 2, 3), 2);
    assert_eq!(multiply(WHOLE / 4, 3), 1);
    assert_eq!(multiply(0, WHOLE), 0);
}

#[test]
fn names_are_compared_by_their_characters() {
    assert!(same_name("DP-1", "DP-1"));
    assert!(!same_name("DP-1", "DP-10"));
    assert!(is_named(&Some("a".to_string()), "a"));
    assert!(!is_named(&None, "a"));
    assert!(same_opt_name(&None, &None));
    assert!(!same_opt_name(&None, &Some(String::new())));
}

#[test]
fn name_sets_hold_each_name_once() {
    let mut set = NameSet::new();
    assert!(set.is_empty());
    set.insert("b".to_string());
    set.insert("a".to_string());
    set.insert("b".to_string());
    assert_eq!(set.len(), 2);
    let copy = set.clone();
    assert!(copy.contains("a") && copy.contains("b") && !copy.contains("c"));
}
