use wl_zenwindow::gamma::ByteOrder;
use wl_zenwindow::toplevel::is_activated;
use wl_zenwindow::wayland::{
    decode_states, decode_words, detect_output_change, ToplevelFocus, ToplevelState,
    TrackedToplevel,
};

#[test]
fn no_change_when_both_none() {
    assert_eq!(detect_output_change(None, None), None);
}

#[test]
fn no_change_when_same_output() {
    assert_eq!(detect_output_change(Some("DP-1"), Some("DP-1")), None);
}

#[test]
fn change_from_none_to_some() {
    let change = detect_output_change(None, Some("DP-1")).unwrap();
    assert_eq!(change.0, None);
    assert_eq!(change.1, Some("DP-1".to_string()));
}

#[test]
fn change_from_some_to_none() {
    let change = detect_output_change(Some("DP-1"), None).unwrap();
    assert_eq!(change.0, Some("DP-1".to_string()));
    assert_eq!(change.1, None);
}

#[test]
fn change_between_two_outputs() {
    let change = detect_output_change(Some("DP-1"), Some("HDMI-1")).unwrap();
    assert_eq!(change.0, Some("DP-1".to_string()));
    assert_eq!(change.1, Some("HDMI-1".to_string()));
}

fn little(numbers: &[u32]) -> Vec<u8> {
    numbers.iter().flat_map(|n| n.to_le_bytes()).collect()
}

#[test]
fn all_states_are_known() {
    let states = decode_states(&little(&[0, 1, 2, 3]), ByteOrder::Little);
    assert_eq!(
        states,
        vec![
            ToplevelState::Maximized,
            ToplevelState::Minimized,
            ToplevelState::Activated,
            ToplevelState::Fullscreen,
        ]
    );
}

#[test]
fn unknown_states_are_dropped() {
    let states = decode_states(&little(&[4, 3, u32::MAX, 2, 77]), ByteOrder::Little);
    assert_eq!(states, vec![ToplevelState::Fullscreen, ToplevelState::Activated]);
}

#[test]
fn trailing_bytes_are_ignored() {
    let mut raw = little(&[2]);
    raw.extend_from_slice(&[3, 0, 0]);
    assert_eq!(decode_states(&raw, ByteOrder::Little), vec![ToplevelState::Activated]);
    assert!(decode_states(&vec![], ByteOrder::Little).is_empty());
}

#[test]
fn words_in_both_byte_orders() {
    let raw = vec![0x01, 0x02, 0x03, 0x04];
    assert_eq!(decode_words(&raw, ByteOrder::Little), vec![0x0403_0201]);
    assert_eq!(decode_words(&raw, ByteOrder::Big), vec![0x0102_0304]);
    let native = if 1u32.to_ne_bytes()[0] == 1 {
        ByteOrder::Little
    } else {
        ByteOrder::Big
    };
    assert_eq!(
        decode_words(&raw, native),
        vec![u32::from_ne_bytes([0x01, 0x02, 0x03, 0x04])]
    );
}

#[test]
fn both_engines_find_the_activated_state() {
    for numbers in [vec![], vec![2], vec![0, 2, 9], vec![1, 3], vec![0x0200]] {
        let raw = little(&numbers);
        let states = decode_states(&raw, ByteOrder::Little);
        assert_eq!(
            is_activated(&raw, ByteOrder::Little),
            states.contains(&ToplevelState::Activated)
        );
    }
}

#[test]
fn toplevel_follows_its_events() {
    let mut top = TrackedToplevel::new(5);
    assert_eq!(top.handle_id(), 5);
    assert_eq!(top.output(), None);
    assert!(!top.is_focused());

    top.enter_output(1);
    assert_eq!(top.output(), Some(1));
    assert_eq!(top.active_output(), None);
    assert!(!top.is_moving_to_different_output(2));

    top.update_focus(ToplevelFocus::Active);
    assert_eq!(top.active_output(), Some(1));
    assert!(top.is_moving_to_different_output(2));
    assert!(!top.is_moving_to_different_output(1));

    top.update_states(vec![ToplevelState::Fullscreen]);
    assert!(top.has_state(ToplevelState::Fullscreen));
    assert!(!top.has_state(ToplevelState::Activated));

    top.leave_output();
    assert_eq!(top.active_output(), None);
    assert!(!top.is_moving_to_different_output(2));
}
