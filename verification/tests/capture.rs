use kvm_rs::capture::{
    broadcasts_for, chord_satisfied, compute_modifiers, dispatch, CaptureButton, CaptureEvent,
    CaptureInput, CaptureState, ProcessOutcome, HOTKEY_DEBOUNCE_NS,
};
use kvm_rs::hotkey::HotkeyChord;
use kvm_rs::keys::CaptureKey as Key;
use kvm_rs::protocol::modifiers;
use kvm_rs::protocol::{Envelope, Event, MouseButton};

fn chord_ctrl_alt_f() -> HotkeyChord {
    HotkeyChord { ctrl: true, alt: true, shift: false, meta: false, key: Key::KeyF }
}

/// A state whose first mouse move has already been seen (so moves produce
/// deltas), with forwarding as given.
fn seeded_state(enabled: bool, hotkey: Option<HotkeyChord>) -> CaptureState {
    let mut s = CaptureState::new(enabled, hotkey);
    let first = s.process_event(CaptureInput::MouseMove { dx: 0, dy: 0 }, enabled, 0);
    assert!(first.forward.is_none());
    s
}

/// Feeds `input` with the shared flag `enabled`, applying a hotkey toggle
/// to the flag as the server does.
fn feed(s: &mut CaptureState, enabled: &mut bool, input: CaptureInput, now: u64) -> ProcessOutcome {
    let out = s.process_event(input, *enabled, now);
    if let Some(t) = out.toggled {
        *enabled = t;
    }
    out
}

#[test]
fn test_chord_satisfied_matches_subset_of_held_modifiers() {
    let hk = chord_ctrl_alt_f();
    assert!(chord_satisfied(&hk, modifiers::CTRL | modifiers::ALT));
    // Extra modifiers held don't prevent the match.
    assert!(chord_satisfied(&hk, modifiers::CTRL | modifiers::ALT | modifiers::SHIFT));
    assert!(!chord_satisfied(&hk, modifiers::CTRL));
    assert!(!chord_satisfied(&hk, 0));
}

#[test]
fn test_compute_modifiers_tracks_held_keys() {
    let mut pressed: Vec<Key> = Vec::new();
    assert_eq!(compute_modifiers(&pressed), 0);
    pressed.push(Key::ControlLeft);
    assert_eq!(compute_modifiers(&pressed), modifiers::CTRL);
    pressed.push(Key::AltGr);
    assert_eq!(compute_modifiers(&pressed), modifiers::CTRL | modifiers::ALT);
    pressed.push(Key::ShiftRight);
    pressed.push(Key::MetaLeft);
    assert_eq!(
        compute_modifiers(&pressed),
        modifiers::CTRL | modifiers::ALT | modifiers::SHIFT | modifiers::META
    );
}

#[test]
fn test_mouse_move_not_forwarded_when_forwarding_disabled() {
    let mut state = seeded_state(false, None);
    let outcome = state.process_event(CaptureInput::MouseMove { dx: 50, dy: 30 }, false, 1);
    assert!(
        outcome.forward.is_none(),
        "mouse motion must not leak to paired clients while forwarding is off"
    );
    assert!(!outcome.swallow, "MouseMove is never locally swallowed");
}

#[test]
fn test_mouse_move_forwarded_when_forwarding_enabled() {
    let mut state = seeded_state(true, None);
    let outcome = state.process_event(CaptureInput::MouseMove { dx: 50, dy: 30 }, true, 1);
    match outcome.forward {
        Some(Event::MouseDelta { dx, dy }) => {
            assert_eq!(dx, 50);
            assert_eq!(dy, 30);
        }
        other => panic!("expected a MouseDelta while forwarding is on, got {:?}", other),
    }
    assert!(outcome.check_edge);
}

#[test]
fn test_mouse_move_tracks_position_across_toggle_without_leaking_delta() {
    // No Input event escapes while forwarding is off, and the first move
    // after it turns on only re-seeds the position.
    let mut state = seeded_state(false, None);
    let first = state.process_event(CaptureInput::MouseMove { dx: 50, dy: 30 }, false, 1);
    assert!(first.forward.is_none());
    let second = state.process_event(CaptureInput::MouseMove { dx: 10, dy: 5 }, false, 2);
    assert!(second.forward.is_none());
    let after_toggle = state.process_event(CaptureInput::MouseMove { dx: 900, dy: 900 }, true, 3);
    assert!(after_toggle.forward.is_none(), "the first move after enabling only seeds");
    let next = state.process_event(CaptureInput::MouseMove { dx: 1, dy: 2 }, true, 4);
    assert!(matches!(next.forward, Some(Event::MouseDelta { dx: 1, dy: 2 })));
}

#[test]
fn test_hotkey_key_release_swallowed_even_after_modifiers_released_early() {
    let mut enabled = false;
    let mut state = seeded_state(enabled, Some(chord_ctrl_alt_f()));

    feed(&mut state, &mut enabled, CaptureInput::KeyPress(Key::ControlLeft), 10);
    feed(&mut state, &mut enabled, CaptureInput::KeyPress(Key::Alt), 11);
    let press_outcome = feed(&mut state, &mut enabled, CaptureInput::KeyPress(Key::KeyF), 12);
    assert!(press_outcome.swallow);
    assert_eq!(press_outcome.toggled, Some(true), "chord press should flip forwarding on");

    // Modifiers let go before the hotkey's own key.
    feed(&mut state, &mut enabled, CaptureInput::KeyRelease(Key::ControlLeft), 13);
    feed(&mut state, &mut enabled, CaptureInput::KeyRelease(Key::Alt), 14);
    let release_outcome = feed(&mut state, &mut enabled, CaptureInput::KeyRelease(Key::KeyF), 15);
    assert!(
        release_outcome.swallow,
        "the release matching a chord-consumed press must still be swallowed, \
         or the key is left stuck down"
    );
    assert!(release_outcome.forward.is_none());
}

#[test]
fn test_plain_hotkey_base_key_release_not_swallowed() {
    let mut enabled = true;
    let mut state = seeded_state(enabled, Some(chord_ctrl_alt_f()));

    let press_outcome = feed(&mut state, &mut enabled, CaptureInput::KeyPress(Key::KeyF), 10);
    assert!(press_outcome.toggled.is_none());
    assert!(matches!(press_outcome.forward, Some(Event::KeyPress { .. })));

    let release_outcome = feed(&mut state, &mut enabled, CaptureInput::KeyRelease(Key::KeyF), 11);
    assert!(
        matches!(release_outcome.forward, Some(Event::KeyRelease { .. })),
        "an ordinary release must be forwarded, not silently eaten as a hotkey artifact"
    );
}

#[test]
fn hotkey_is_debounced_and_repeats_do_not_toggle() {
    let mut enabled = false;
    let mut state = seeded_state(enabled, Some(chord_ctrl_alt_f()));
    feed(&mut state, &mut enabled, CaptureInput::KeyPress(Key::ControlLeft), 0);
    feed(&mut state, &mut enabled, CaptureInput::KeyPress(Key::Alt), 0);
    let t0 = 1_000_000_000u64;
    assert_eq!(feed(&mut state, &mut enabled, CaptureInput::KeyPress(Key::KeyF), t0).toggled, Some(true));
    // Auto-repeat of the held key: swallowed, no toggle.
    let repeat = feed(&mut state, &mut enabled, CaptureInput::KeyPress(Key::KeyF), t0 + 1);
    assert!(repeat.swallow && repeat.toggled.is_none());
    // Released and pressed again within the debounce window: no toggle.
    feed(&mut state, &mut enabled, CaptureInput::KeyRelease(Key::KeyF), t0 + 2);
    let quick = feed(&mut state, &mut enabled, CaptureInput::KeyPress(Key::KeyF), t0 + HOTKEY_DEBOUNCE_NS - 1);
    assert!(quick.swallow && quick.toggled.is_none());
    feed(&mut state, &mut enabled, CaptureInput::KeyRelease(Key::KeyF), t0 + HOTKEY_DEBOUNCE_NS);
    let later = feed(&mut state, &mut enabled, CaptureInput::KeyPress(Key::KeyF), t0 + HOTKEY_DEBOUNCE_NS + 5);
    assert_eq!(later.toggled, Some(false));
    assert!(!enabled);
}

#[test]
fn keys_carry_their_canonical_code_and_modifiers() {
    let mut state = seeded_state(true, None);
    state.process_event(CaptureInput::KeyPress(Key::ShiftLeft), true, 1);
    let out = state.process_event(CaptureInput::KeyPress(Key::KeyA), true, 2);
    assert!(out.swallow);
    assert_eq!(out.forward, Some(Event::KeyPress { code: 30, modifiers: modifiers::SHIFT }));
    let out = state.process_event(CaptureInput::KeyRelease(Key::ShiftLeft), true, 3);
    assert_eq!(out.forward, Some(Event::KeyRelease { code: 42, modifiers: 0 }));
}

#[test]
fn buttons_and_wheel_are_forwarded_only_while_enabled() {
    let mut state = seeded_state(true, None);
    let out = state.process_event(CaptureInput::ButtonPress(CaptureButton::Unknown(4)), true, 1);
    assert!(out.swallow);
    assert_eq!(out.forward, Some(Event::MouseButtonPress(MouseButton::Back)));
    let out = state.process_event(CaptureInput::ButtonRelease(CaptureButton::Unknown(9)), true, 2);
    assert_eq!(out.forward, Some(Event::MouseButtonRelease(MouseButton::Left)));
    let out = state.process_event(CaptureInput::Wheel { delta_x: -1, delta_y: 2 }, true, 3);
    assert_eq!(out.forward, Some(Event::Wheel { delta_x: -1, delta_y: 2 }));
    let out = state.process_event(CaptureInput::ButtonPress(CaptureButton::Left), false, 4);
    assert!(!out.swallow && out.forward.is_none());
}

#[test]
fn a_warp_swallows_the_next_move_only() {
    let mut state = seeded_state(true, None);
    state.note_warp();
    let out = state.process_event(CaptureInput::MouseMove { dx: 400, dy: 300 }, true, 1);
    assert!(out.forward.is_none());
    let out = state.process_event(CaptureInput::MouseMove { dx: 3, dy: 0 }, true, 2);
    assert_eq!(out.forward, Some(Event::MouseDelta { dx: 3, dy: 0 }));
}

#[test]
fn outcomes_become_forwarder_messages_in_order() {
    let out = ProcessOutcome {
        swallow: true,
        forward: Some(Event::ReleaseAll),
        toggled: Some(false),
        check_edge: false,
    };
    let msgs = dispatch(out);
    assert_eq!(msgs.len(), 2);
    assert!(matches!(msgs[0], CaptureEvent::ForwardingToggled(false)));
    assert!(matches!(msgs[1], CaptureEvent::Input(Event::ReleaseAll)));

    let off = broadcasts_for(CaptureEvent::ForwardingToggled(false));
    assert!(matches!(off[0], Envelope::Input(Event::ReleaseAll)));
    assert!(matches!(off[1], Envelope::ToggleForward(false)));
    let on = broadcasts_for(CaptureEvent::ForwardingToggled(true));
    assert_eq!(on.len(), 1);
    assert!(matches!(on[0], Envelope::ToggleForward(true)));
    let input = broadcasts_for(CaptureEvent::Input(Event::MouseDelta { dx: 1, dy: 1 }));
    assert!(matches!(input[0], Envelope::Input(Event::MouseDelta { dx: 1, dy: 1 })));
}

#[test]
fn held_chord_key_repeats_do_not_toggle_again() {
    let mut s = seeded_state(false, Some(chord_ctrl_alt_f()));
    let mut enabled = false;
    feed(&mut s, &mut enabled, CaptureInput::KeyPress(Key::ControlLeft), 1);
    feed(&mut s, &mut enabled, CaptureInput::KeyPress(Key::Alt), 2);
    let first = feed(&mut s, &mut enabled, CaptureInput::KeyPress(Key::KeyF), 3);
    assert_eq!(first.toggled, Some(true));
    assert!(first.swallow && first.forward.is_none());
    // Auto-repeat well after the debounce window: still the same key-down.
    let repeat = feed(&mut s, &mut enabled, CaptureInput::KeyPress(Key::KeyF), 3 + 10 * HOTKEY_DEBOUNCE_NS);
    assert_eq!(repeat.toggled, None);
    assert!(repeat.swallow && repeat.forward.is_none());
    assert!(enabled);
}

#[test]
fn far_out_key_codes_are_handled_while_forwarding_is_off() {
    let mut s = seeded_state(false, Some(chord_ctrl_alt_f()));
    let out = s.process_event(CaptureInput::KeyPress(Key::Unknown(u32::MAX)), false, 5);
    assert_eq!(out.forward, None);
    assert!(!out.swallow);
    let out = s.process_event(CaptureInput::KeyRelease(Key::Unknown(u32::MAX)), false, 6);
    assert_eq!(out.forward, None);
}
