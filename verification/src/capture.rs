//! The decision logic of global input capture: key/button/wheel/motion
//! events come in, the hotkey chord toggles forwarding, and each event is
//! either forwarded to paired clients, swallowed locally, or both.
//!
//! The capture thread owns a `CaptureState`; the forwarding flag itself is
//! shared with the rest of the server, so each call takes its current value
//! and reports a hotkey toggle back for the caller to store.

use crate::hotkey::HotkeyChord;
use crate::keys::{canonical_code, key_to_code, CaptureKey};
use crate::protocol::modifiers;
use crate::protocol::{Envelope, Event, MouseButton};
use crate::server_session::{spec_toggle_broadcasts, toggle_broadcasts};
use std::sync::atomic::AtomicBool;
use std::sync::Arc;
use vstd::prelude::*;

verus! {

/// Minimum time between hotkey activations, in nanoseconds (250 ms).
pub const HOTKEY_DEBOUNCE_NS: u64 = 250000000;

/// A mouse button as the capture backend reports it.
#[derive(Clone, Copy, Debug, PartialEq, Eq, Structural)]
pub enum CaptureButton {
    Left,
    Right,
    Middle,
    Unknown(u8),
}

/// One captured input event. Mouse motion arrives as the whole-pixel delta
/// from the previous position (the caller tracks the position itself).
#[derive(Clone, Copy, Debug, PartialEq, Eq, Structural)]
pub enum CaptureInput {
    KeyPress(CaptureKey),
    KeyRelease(CaptureKey),
    ButtonPress(CaptureButton),
    ButtonRelease(CaptureButton),
    Wheel { delta_x: i64, delta_y: i64 },
    MouseMove { dx: i32, dy: i32 },
}

/// What to do with one captured event.
#[derive(Clone, Debug, PartialEq, Eq, Structural)]
pub struct ProcessOutcome {
    /// The local OS should not see the event (only effective where the
    /// backend can block input).
    pub swallow: bool,
    /// The event to send to paired clients, if any.
    pub forward: Option<Event>,
    /// The hotkey fired and forwarding is now this value.
    pub toggled: Option<bool>,
    /// A counted mouse move while forwarding: the caller should check
    /// whether the cursor reached a screen edge and warp it back.
    pub check_edge: bool,
}

/// The mathematical content of a `CaptureState`.
pub struct CaptureModel {
    pub was_enabled: bool,
    pub pressed: Set<CaptureKey>,
    pub warping: bool,
    pub seed_next: bool,
    pub last_hotkey_fire: Option<u64>,
    pub hotkey: Option<HotkeyChord>,
    pub swallowed: Set<CaptureKey>,
}

/// The capture thread's state.
pub struct CaptureState {
    was_enabled: bool,
    pressed: Vec<CaptureKey>,
    /// Set right after the cursor was warped back to the centre: the next
    /// move is that warp completing, not user motion.
    warping: bool,
    /// Set when forwarding just turned on: the next move only re-seeds the
    /// position instead of producing a (likely huge) delta.
    seed_next: bool,
    last_hotkey_fire: Option<u64>,
    hotkey: Option<HotkeyChord>,
    /// Keys whose latest press was consumed as the hotkey; only their
    /// release is swallowed as well.
    swallowed: Vec<CaptureKey>,
}

pub open spec fn no_dups(v: Seq<CaptureKey>) -> bool {
    forall|i: int, j: int| 0 <= i < j < v.len() ==> v[i] != v[j]
}

// --- Small set operations on key vectors -----------------------------------

fn key_set_contains(v: &Vec<CaptureKey>, k: CaptureKey) -> (r: bool)
    ensures
        r == v@.to_set().contains(k),
{
    let mut i: usize = 0;
    while i < v.len()
        invariant
            i <= v@.len(),
            forall|j: int| 0 <= j < i ==> v@[j] != k,
        decreases v@.len() - i,
    {
        if v[i] == k {
            assert(v@.to_set().contains(v@[i as int]));
            return true;
        }
        i = i + 1;
    }
    proof {
        if v@.to_set().contains(k) {
            let j = choose|j: int| 0 <= j < v@.len() && v@[j] == k;
            assert(v@[j] == k);
        }
    }
    false
}

fn key_set_insert(v: &mut Vec<CaptureKey>, k: CaptureKey)
    requires
        no_dups(old(v)@),
    ensures
        no_dups(final(v)@),
        final(v)@.to_set() == old(v)@.to_set().insert(k),
{
    if !key_set_contains(v, k) {
        v.push(k);
        proof {
            assert(final(v)@.to_set() =~= old(v)@.to_set().insert(k)) by {
                assert forall|x: CaptureKey| #[trigger] final(v)@.to_set().contains(x) <==> old(
                    v,
                )@.to_set().insert(k).contains(x) by {
                    if final(v)@.to_set().contains(x) {
                        let j = choose|j: int| 0 <= j < final(v)@.len() && final(v)@[j] == x;
                        if j < old(v)@.len() {
                            assert(old(v)@[j] == x);
                        }
                    }
                    if old(v)@.to_set().contains(x) {
                        let j = choose|j: int| 0 <= j < old(v)@.len() && old(v)@[j] == x;
                        assert(final(v)@[j] == x);
                    }
                    if x == k {
                        assert(final(v)@[old(v)@.len() as int] == k);
                    }
                }
            }
        }
    } else {
        assert(old(v)@.to_set().insert(k) =~= old(v)@.to_set());
    }
}

fn key_set_remove(v: &mut Vec<CaptureKey>, k: CaptureKey) -> (was_present: bool)
    requires
        no_dups(old(v)@),
    ensures
        no_dups(final(v)@),
        final(v)@.to_set() == old(v)@.to_set().remove(k),
        was_present == old(v)@.to_set().contains(k),
{
    let mut i: usize = 0;
    while i < v.len()
        invariant
            i <= v@.len(),
            v@ == old(v)@,
            no_dups(old(v)@),
            forall|j: int| 0 <= j < i ==> v@[j] != k,
        decreases v@.len() - i,
    {
        if v[i] == k {
            let ghost before = v@;
            v.remove(i);
            proof {
                assert(v@ == before.remove(i as int));
                assert forall|j: int| 0 <= j < v@.len() implies #[trigger] v@[j] == (if j < i {
                    before[j]
                } else {
                    before[j + 1]
                }) by {}
                assert(before.to_set().contains(k)) by {
                    assert(before[i as int] == k);
                }
                assert forall|a: int, b: int| 0 <= a < b < v@.len() implies v@[a] != v@[b] by {
                    let a2 = if a < i { a } else { a + 1 };
                    let b2 = if b < i { b } else { b + 1 };
                    assert(v@[a] == before[a2]);
                    assert(v@[b] == before[b2]);
                }
                assert(v@.to_set() =~= before.to_set().remove(k)) by {
                    assert forall|x: CaptureKey| #[trigger] v@.to_set().contains(x) <==> before.to_set().remove(k).contains(x) by {
                        if v@.to_set().contains(x) {
                            let j = choose|j: int| 0 <= j < v@.len() && v@[j] == x;
                            let j2 = if j < i { j } else { j + 1 };
                            assert(before[j2] == x);
                            assert(j2 != i);
                        }
                        if before.to_set().remove(k).contains(x) {
                            let j = choose|j: int| 0 <= j < before.len() && before[j] == x;
                            assert(j != i);
                            if j < i {
                                assert(v@[j] == x);
                            } else {
                                assert(v@[j - 1] == x);
                            }
                        }
                    }
                }
            }
            return true;
        }
        i = i + 1;
    }
    proof {
        assert(!v@.to_set().contains(k)) by {
            if v@.to_set().contains(k) {
                let j = choose|j: int| 0 <= j < v@.len() && v@[j] == k;
            }
        }
        assert(v@.to_set().remove(k) =~= v@.to_set());
    }
    false
}

// --- Modifiers and the chord -------------------------------------------------

/// The modifier bits that the held keys amount to.
pub open spec fn modifier_bits(pressed: Set<CaptureKey>) -> u8 {
    (if pressed.contains(CaptureKey::ControlLeft) || pressed.contains(CaptureKey::ControlRight) {
        modifiers::CTRL
    } else {
        0u8
    }) | (if pressed.contains(CaptureKey::Alt) || pressed.contains(CaptureKey::AltGr) {
        modifiers::ALT
    } else {
        0u8
    }) | (if pressed.contains(CaptureKey::ShiftLeft) || pressed.contains(CaptureKey::ShiftRight) {
        modifiers::SHIFT
    } else {
        0u8
    }) | (if pressed.contains(CaptureKey::MetaLeft) || pressed.contains(CaptureKey::MetaRight) {
        modifiers::META
    } else {
        0u8
    })
}

/// The modifier bits that the keys held in `pressed` amount to.
pub fn compute_modifiers(pressed: &Vec<CaptureKey>) -> (mods: u8)
    ensures
        mods == modifier_bits(pressed@.to_set()),
{
    let ctrl = if key_set_contains(pressed, CaptureKey::ControlLeft) || key_set_contains(
        pressed,
        CaptureKey::ControlRight,
    ) {
        modifiers::CTRL
    } else {
        0u8
    };
    let alt = if key_set_contains(pressed, CaptureKey::Alt) || key_set_contains(
        pressed,
        CaptureKey::AltGr,
    ) {
        modifiers::ALT
    } else {
        0u8
    };
    let shift = if key_set_contains(pressed, CaptureKey::ShiftLeft) || key_set_contains(
        pressed,
        CaptureKey::ShiftRight,
    ) {
        modifiers::SHIFT
    } else {
        0u8
    };
    let meta = if key_set_contains(pressed, CaptureKey::MetaLeft) || key_set_contains(
        pressed,
        CaptureKey::MetaRight,
    ) {
        modifiers::META
    } else {
        0u8
    };
    ctrl | alt | shift | meta
}

/// The modifier bits a chord requires.
pub open spec fn required_bits(hk: HotkeyChord) -> u8 {
    let r = if hk.ctrl { modifiers::CTRL } else { 0u8 };
    let r = if hk.alt { r | modifiers::ALT } else { r };
    let r = if hk.shift { r | modifiers::SHIFT } else { r };
    if hk.meta { r | modifiers::META } else { r }
}

/// The chord's modifiers are all held (extra modifiers do not matter).
pub open spec fn spec_chord_satisfied(hk: HotkeyChord, mods: u8) -> bool {
    mods & required_bits(hk) == required_bits(hk)
}

/// Whether the held modifiers `mods` include every modifier of `hk`.
pub fn chord_satisfied(hk: &HotkeyChord, mods: u8) -> (r: bool)
    ensures
        r == spec_chord_satisfied(*hk, mods),
{
    let mut required: u8 = if hk.ctrl { modifiers::CTRL } else { 0u8 };
    if hk.alt {
        required = required | modifiers::ALT;
    }
    if hk.shift {
        required = required | modifiers::SHIFT;
    }
    if hk.meta {
        required = required | modifiers::META;
    }
    (mods & required) == required
}

/// Four one-bit flags, or-ed together, keep each bit apart; and a set of
/// required bits is covered exactly when each required bit is present.
proof fn lemma_flag_bits(c: u8, a: u8, s: u8, m: u8, rc: u8, ra: u8, rs: u8, rm: u8)
    by (bit_vector)
    requires
        c == 0 || c == 1,
        a == 0 || a == 2,
        s == 0 || s == 4,
        m == 0 || m == 8,
        rc == 0 || rc == 1,
        ra == 0 || ra == 2,
        rs == 0 || rs == 4,
        rm == 0 || rm == 8,
    ensures
        ((c | a | s | m) & 1u8 == 1u8) == (c == 1),
        ((c | a | s | m) & 2u8 == 2u8) == (a == 2),
        ((c | a | s | m) & 4u8 == 4u8) == (s == 4),
        ((c | a | s | m) & 8u8 == 8u8) == (m == 8),
        (c | a | s | m) < 16,
        ((c | a | s | m) & (rc | ra | rs | rm) == (rc | ra | rs | rm)) == ((rc == 1 ==> c == 1) && (ra
            == 2 ==> a == 2) && (rs == 4 ==> s == 4) && (rm == 8 ==> m == 8)),
{
}

proof fn lemma_or_zero(r: u8)
    by (bit_vector)
    ensures
        r | 0u8 == r,
{
}

/// Each modifier bit is set exactly when one of the keys that give it is
/// held: CTRL for the left or right Control key, ALT for Alt or AltGr,
/// SHIFT for either Shift key, META for either Meta key; no other bit is
/// ever set.
pub proof fn lemma_modifier_bits_follow_held_keys(pressed: Set<CaptureKey>)
    ensures
        (modifier_bits(pressed) & modifiers::CTRL == modifiers::CTRL) == (pressed.contains(
            CaptureKey::ControlLeft,
        ) || pressed.contains(CaptureKey::ControlRight)),
        (modifier_bits(pressed) & modifiers::ALT == modifiers::ALT) == (pressed.contains(
            CaptureKey::Alt,
        ) || pressed.contains(CaptureKey::AltGr)),
        (modifier_bits(pressed) & modifiers::SHIFT == modifiers::SHIFT) == (pressed.contains(
            CaptureKey::ShiftLeft,
        ) || pressed.contains(CaptureKey::ShiftRight)),
        (modifier_bits(pressed) & modifiers::META == modifiers::META) == (pressed.contains(
            CaptureKey::MetaLeft,
        ) || pressed.contains(CaptureKey::MetaRight)),
        modifier_bits(pressed) < 16,
{
    let x = modifier_bits(pressed);
    let c: u8 = if pressed.contains(CaptureKey::ControlLeft) || pressed.contains(CaptureKey::ControlRight) { 1 } else { 0 };
    let a: u8 = if pressed.contains(CaptureKey::Alt) || pressed.contains(CaptureKey::AltGr) { 2 } else { 0 };
    let s: u8 = if pressed.contains(CaptureKey::ShiftLeft) || pressed.contains(CaptureKey::ShiftRight) { 4 } else { 0 };
    let m: u8 = if pressed.contains(CaptureKey::MetaLeft) || pressed.contains(CaptureKey::MetaRight) { 8 } else { 0 };
    lemma_flag_bits(c, a, s, m, 0, 0, 0, 0);
}

/// A chord is recognised exactly when, for each modifier it requires, one
/// of the keys that give that modifier is held (left or right Control, Alt
/// or AltGr, either Shift, either Meta); other held modifiers do not
/// matter.
pub proof fn lemma_chord_follows_held_keys(hk: HotkeyChord, pressed: Set<CaptureKey>)
    ensures
        spec_chord_satisfied(hk, modifier_bits(pressed)) == ((hk.ctrl ==> pressed.contains(
            CaptureKey::ControlLeft,
        ) || pressed.contains(CaptureKey::ControlRight)) && (hk.alt ==> pressed.contains(
            CaptureKey::Alt,
        ) || pressed.contains(CaptureKey::AltGr)) && (hk.shift ==> pressed.contains(
            CaptureKey::ShiftLeft,
        ) || pressed.contains(CaptureKey::ShiftRight)) && (hk.meta ==> pressed.contains(
            CaptureKey::MetaLeft,
        ) || pressed.contains(CaptureKey::MetaRight))),
{
    lemma_modifier_bits_follow_held_keys(pressed);
    let c: u8 = if pressed.contains(CaptureKey::ControlLeft) || pressed.contains(CaptureKey::ControlRight) { 1 } else { 0 };
    let a: u8 = if pressed.contains(CaptureKey::Alt) || pressed.contains(CaptureKey::AltGr) { 2 } else { 0 };
    let s: u8 = if pressed.contains(CaptureKey::ShiftLeft) || pressed.contains(CaptureKey::ShiftRight) { 4 } else { 0 };
    let m: u8 = if pressed.contains(CaptureKey::MetaLeft) || pressed.contains(CaptureKey::MetaRight) { 8 } else { 0 };
    let rc: u8 = if hk.ctrl { 1 } else { 0 };
    let ra: u8 = if hk.alt { 2 } else { 0 };
    let rs: u8 = if hk.shift { 4 } else { 0 };
    let rm: u8 = if hk.meta { 8 } else { 0 };
    lemma_or_zero(rc);
    lemma_or_zero(rc | ra);
    lemma_or_zero(rc | ra | rs);
    assert(required_bits(hk) == rc | ra | rs | rm);
    assert(modifier_bits(pressed) == c | a | s | m);
    lemma_flag_bits(c, a, s, m, rc, ra, rs, rm);
}

/// The protocol's mouse button for a captured one; the extra buttons 4 and
/// 5 are Back and Forward, anything else counts as Left.
pub open spec fn spec_convert_mouse_button(b: CaptureButton) -> MouseButton {
    match b {
        CaptureButton::Left => MouseButton::Left,
        CaptureButton::Right => MouseButton::Right,
        CaptureButton::Middle => MouseButton::Middle,
        CaptureButton::Unknown(n) => if n == 4 {
            MouseButton::Back
        } else if n == 5 {
            MouseButton::Forward
        } else {
            MouseButton::Left
        },
    }
}

pub fn convert_mouse_button(b: CaptureButton) -> (m: MouseButton)
    ensures
        m == spec_convert_mouse_button(b),
{
    match b {
        CaptureButton::Left => MouseButton::Left,
        CaptureButton::Right => MouseButton::Right,
        CaptureButton::Middle => MouseButton::Middle,
        CaptureButton::Unknown(4) => MouseButton::Back,
        CaptureButton::Unknown(5) => MouseButton::Forward,
        _ => MouseButton::Left,
    }
}

// --- The transition --------------------------------------------------------

/// Whether a hotkey firing at `now` is suppressed by the previous one.
pub open spec fn debounced(last: Option<u64>, now: u64) -> bool {
    match last {
        Some(prev) => (if now >= prev { now - prev } else { 0 }) < HOTKEY_DEBOUNCE_NS,
        None => false,
    }
}

/// A key in the canonical table's range of representable codes.
pub open spec fn input_codable(input: CaptureInput) -> bool {
    &&& input matches CaptureInput::KeyPress(CaptureKey::Unknown(n)) ==> n <= u32::MAX - 0x10000
    &&& input matches CaptureInput::KeyRelease(CaptureKey::Unknown(n)) ==> n <= u32::MAX - 0x10000
}

pub open spec fn no_outcome() -> ProcessOutcome {
    ProcessOutcome { swallow: false, forward: None, toggled: None, check_edge: false }
}

/// The state after one event and what to do with the event, given whether
/// forwarding is on right now and the monotonic time in nanoseconds.
pub open spec fn spec_step(m: CaptureModel, input: CaptureInput, now_enabled: bool, now: u64) -> (
    CaptureModel,
    ProcessOutcome,
) {
    // Forwarding just turned on: don't let the next move emit a delta
    // against a stale position.
    let seed = if now_enabled && !m.was_enabled { true } else { m.seed_next };
    let m1 = CaptureModel { was_enabled: now_enabled, seed_next: seed, ..m };
    match input {
        CaptureInput::KeyPress(key) => {
            let is_repeat = m1.pressed.contains(key);
            let pressed = m1.pressed.insert(key);
            let mods = modifier_bits(pressed);
            let m2 = CaptureModel { pressed, ..m1 };
            if m2.hotkey is Some && key == m2.hotkey->0.key && spec_chord_satisfied(
                m2.hotkey->0,
                mods,
            ) {
                let m3 = CaptureModel { swallowed: m2.swallowed.insert(key), ..m2 };
                if is_repeat || debounced(m3.last_hotkey_fire, now) {
                    (m3, ProcessOutcome { swallow: true, ..no_outcome() })
                } else {
                    let new_state = !now_enabled;
                    (
                        CaptureModel {
                            last_hotkey_fire: Some(now),
                            was_enabled: new_state,
                            seed_next: if new_state { true } else { m3.seed_next },
                            ..m3
                        },
                        ProcessOutcome { swallow: true, toggled: Some(new_state), ..no_outcome() },
                    )
                }
            } else if now_enabled {
                (
                    m2,
                    ProcessOutcome {
                        swallow: true,
                        forward: Some(Event::KeyPress { code: canonical_code(key), modifiers: mods }),
                        ..no_outcome()
                    },
                )
            } else {
                (m2, no_outcome())
            }
        },
        CaptureInput::KeyRelease(key) => {
            let pressed = m1.pressed.remove(key);
            let mods = modifier_bits(pressed);
            let m2 = CaptureModel { pressed, ..m1 };
            if m2.swallowed.contains(key) {
                (
                    CaptureModel { swallowed: m2.swallowed.remove(key), ..m2 },
                    ProcessOutcome { swallow: true, ..no_outcome() },
                )
            } else if now_enabled {
                (
                    m2,
                    ProcessOutcome {
                        swallow: true,
                        forward: Some(
                            Event::KeyRelease { code: canonical_code(key), modifiers: mods },
                        ),
                        ..no_outcome()
                    },
                )
            } else {
                (m2, no_outcome())
            }
        },
        CaptureInput::ButtonPress(b) => if now_enabled {
            (
                m1,
                ProcessOutcome {
                    swallow: true,
                    forward: Some(Event::MouseButtonPress(spec_convert_mouse_button(b))),
                    ..no_outcome()
                },
            )
        } else {
            (m1, no_outcome())
        },
        CaptureInput::ButtonRelease(b) => if now_enabled {
            (
                m1,
                ProcessOutcome {
                    swallow: true,
                    forward: Some(Event::MouseButtonRelease(spec_convert_mouse_button(b))),
                    ..no_outcome()
                },
            )
        } else {
            (m1, no_outcome())
        },
        CaptureInput::Wheel { delta_x, delta_y } => if now_enabled {
            (
                m1,
                ProcessOutcome {
                    swallow: true,
                    forward: Some(Event::Wheel { delta_x: delta_x as i32, delta_y: delta_y as i32 }),
                    ..no_outcome()
                },
            )
        } else {
            (m1, no_outcome())
        },
        CaptureInput::MouseMove { dx, dy } => {
            // Motion is never swallowed: the local cursor keeps moving.
            if m1.warping {
                (CaptureModel { warping: false, ..m1 }, no_outcome())
            } else if m1.seed_next {
                (CaptureModel { seed_next: false, ..m1 }, no_outcome())
            } else {
                (
                    m1,
                    ProcessOutcome {
                        forward: if now_enabled && (dx != 0 || dy != 0) {
                            Some(Event::MouseDelta { dx, dy })
                        } else {
                            None
                        },
                        check_edge: now_enabled,
                        ..no_outcome()
                    },
                )
            }
        },
    }
}

impl CaptureState {
    pub closed spec fn wf(&self) -> bool {
        no_dups(self.pressed@) && no_dups(self.swallowed@)
    }

    pub closed spec fn view(&self) -> CaptureModel {
        CaptureModel {
            was_enabled: self.was_enabled,
            pressed: self.pressed@.to_set(),
            warping: self.warping,
            seed_next: self.seed_next,
            last_hotkey_fire: self.last_hotkey_fire,
            hotkey: self.hotkey,
            swallowed: self.swallowed@.to_set(),
        }
    }

    /// A fresh state: nothing held, the first move only seeds the position.
    pub fn new(initially_enabled: bool, hotkey: Option<HotkeyChord>) -> (s: Self)
        ensures
            s.wf(),
            s.view() == (CaptureModel {
                was_enabled: initially_enabled,
                pressed: Set::empty(),
                warping: false,
                seed_next: true,
                last_hotkey_fire: None,
                hotkey,
                swallowed: Set::empty(),
            }),
    {
        let s = CaptureState {
            was_enabled: initially_enabled,
            pressed: Vec::new(),
            warping: false,
            seed_next: true,
            last_hotkey_fire: None,
            hotkey,
            swallowed: Vec::new(),
        };
        proof {
            assert(s.pressed@.to_set() =~= Set::<CaptureKey>::empty());
            assert(s.swallowed@.to_set() =~= Set::<CaptureKey>::empty());
        }
        s
    }

    /// The cursor was just warped back to the centre; the next move is the
    /// warp completing and is not counted.
    pub fn note_warp(&mut self)
        requires
            old(self).wf(),
        ensures
            final(self).wf(),
            final(self).view() == (CaptureModel { warping: true, ..old(self).view() }),
    {
        self.warping = true;
    }

    /// Applies one captured event. `now_enabled` is the forwarding flag's
    /// current value and `now` the monotonic time in nanoseconds.
    pub fn process_event(&mut self, input: CaptureInput, now_enabled: bool, now: u64) -> (out:
        ProcessOutcome)
        requires
            old(self).wf(),
            now_enabled ==> input_codable(input),
        ensures
            final(self).wf(),
            (final(self).view(), out) == spec_step(old(self).view(), input, now_enabled, now),
    {
        if now_enabled && !self.was_enabled {
            self.seed_next = true;
        }
        self.was_enabled = now_enabled;
        match input {
            CaptureInput::KeyPress(key) => {
                let is_repeat = key_set_contains(&self.pressed, key);
                key_set_insert(&mut self.pressed, key);
                let mods = compute_modifiers(&self.pressed);
                if let Some(hk) = self.hotkey {
                    if key == hk.key && chord_satisfied(&hk, mods) {
                        key_set_insert(&mut self.swallowed, key);
                        let mut toggled: Option<bool> = None;
                        if !is_repeat {
                            toggled = self.try_fire_hotkey(now_enabled, now);
                        }
                        return ProcessOutcome {
                            swallow: true,
                            forward: None,
                            toggled,
                            check_edge: false,
                        };
                    }
                }
                if now_enabled {
                    ProcessOutcome {
                        swallow: true,
                        forward: Some(Event::KeyPress { code: key_to_code(key), modifiers: mods }),
                        toggled: None,
                        check_edge: false,
                    }
                } else {
                    ProcessOutcome { swallow: false, forward: None, toggled: None, check_edge: false }
                }
            },
            CaptureInput::KeyRelease(key) => {
                key_set_remove(&mut self.pressed, key);
                let mods = compute_modifiers(&self.pressed);
                // Only swallow this release if the matching press was
                // consumed as the hotkey chord.
                if key_set_remove(&mut self.swallowed, key) {
                    return ProcessOutcome {
                        swallow: true,
                        forward: None,
                        toggled: None,
                        check_edge: false,
                    };
                }
                proof {
                    assert(self.swallowed@.to_set() =~= old(self).swallowed@.to_set());
                }
                if now_enabled {
                    ProcessOutcome {
                        swallow: true,
                        forward: Some(Event::KeyRelease { code: key_to_code(key), modifiers: mods }),
                        toggled: None,
                        check_edge: false,
                    }
                } else {
                    ProcessOutcome { swallow: false, forward: None, toggled: None, check_edge: false }
                }
            },
            CaptureInput::ButtonPress(b) => {
                if now_enabled {
                    ProcessOutcome {
                        swallow: true,
                        forward: Some(Event::MouseButtonPress(convert_mouse_button(b))),
                        toggled: None,
                        check_edge: false,
                    }
                } else {
                    ProcessOutcome { swallow: false, forward: None, toggled: None, check_edge: false }
                }
            },
            CaptureInput::ButtonRelease(b) => {
                if now_enabled {
                    ProcessOutcome {
                        swallow: true,
                        forward: Some(Event::MouseButtonRelease(convert_mouse_button(b))),
                        toggled: None,
                        check_edge: false,
                    }
                } else {
                    ProcessOutcome { swallow: false, forward: None, toggled: None, check_edge: false }
                }
            },
            CaptureInput::Wheel { delta_x, delta_y } => {
                if now_enabled {
                    ProcessOutcome {
                        swallow: true,
                        forward: Some(Event::Wheel { delta_x: delta_x as i32, delta_y: delta_y as i32 }),
                        toggled: None,
                        check_edge: false,
                    }
                } else {
                    ProcessOutcome { swallow: false, forward: None, toggled: None, check_edge: false }
                }
            },
            CaptureInput::MouseMove { dx, dy } => {
                if self.warping {
                    self.warping = false;
                    return ProcessOutcome {
                        swallow: false,
                        forward: None,
                        toggled: None,
                        check_edge: false,
                    };
                }
                if self.seed_next {
                    self.seed_next = false;
                    return ProcessOutcome {
                        swallow: false,
                        forward: None,
                        toggled: None,
                        check_edge: false,
                    };
                }
                let forward = if now_enabled && (dx != 0 || dy != 0) {
                    Some(Event::MouseDelta { dx, dy })
                } else {
                    None
                };
                ProcessOutcome { swallow: false, forward, toggled: None, check_edge: now_enabled }
            },
        }
    }

    /// Fires the hotkey unless the previous activation was less than
    /// `HOTKEY_DEBOUNCE_NS` ago; returns the new forwarding state.
    fn try_fire_hotkey(&mut self, now_enabled: bool, now: u64) -> (r: Option<bool>)
        ensures
            debounced(old(self).last_hotkey_fire, now) ==> r is None && *final(self) == *old(self),
            !debounced(old(self).last_hotkey_fire, now) ==> {
                &&& r == Some(!now_enabled)
                &&& final(self).last_hotkey_fire == Some(now)
                &&& final(self).was_enabled == !now_enabled
                &&& final(self).seed_next == (if !now_enabled { true } else { old(self).seed_next })
                &&& final(self).pressed == old(self).pressed
                &&& final(self).swallowed == old(self).swallowed
                &&& final(self).warping == old(self).warping
                &&& final(self).hotkey == old(self).hotkey
            },
    {
        if let Some(prev) = self.last_hotkey_fire {
            let elapsed = if now >= prev { now - prev } else { 0 };
            if elapsed < HOTKEY_DEBOUNCE_NS {
                return None;
            }
        }
        self.last_hotkey_fire = Some(now);
        let new_state = !now_enabled;
        self.was_enabled = new_state;
        if new_state {
            self.seed_next = true;
        }
        Some(new_state)
    }
}

// --- Laws ------------------------------------------------------------------

/// Nothing is forwarded while forwarding is off, and mouse motion is never
/// swallowed locally.
pub proof fn lemma_no_forwarding_while_disabled(
    m: CaptureModel,
    input: CaptureInput,
    now_enabled: bool,
    now: u64,
)
    ensures
        spec_step(m, input, now_enabled, now).1.forward is Some ==> now_enabled,
        input is MouseMove ==> !spec_step(m, input, now_enabled, now).1.swallow,
{
}

/// The release of a key whose press was consumed as the hotkey is
/// swallowed too (whatever modifiers are still held); the release of any
/// other key goes through the ordinary path.
pub proof fn lemma_hotkey_release_follows_press(
    m: CaptureModel,
    key: CaptureKey,
    now_enabled: bool,
    now: u64,
)
    ensures
        m.swallowed.contains(key) ==> ({
            let (m2, out) = spec_step(m, CaptureInput::KeyRelease(key), now_enabled, now);
            out.swallow && out.forward is None && !m2.swallowed.contains(key)
        }),
        !m.swallowed.contains(key) ==> ({
            let (m2, out) = spec_step(m, CaptureInput::KeyRelease(key), now_enabled, now);
            &&& out.swallow == now_enabled
            &&& (out.forward is Some) == now_enabled
            &&& m2.swallowed == m.swallowed
        }),
{
}

/// A press that does not complete the chord never marks its key as
/// swallowed, so its release is not eaten.
pub proof fn lemma_plain_press_not_swallowed(
    m: CaptureModel,
    key: CaptureKey,
    now_enabled: bool,
    now: u64,
)
    requires
        !(m.hotkey is Some && key == m.hotkey->0.key && spec_chord_satisfied(
            m.hotkey->0,
            modifier_bits(m.pressed.insert(key)),
        )),
    ensures
        spec_step(m, CaptureInput::KeyPress(key), now_enabled, now).0.swallowed == m.swallowed,
        spec_step(m, CaptureInput::KeyPress(key), now_enabled, now).1.toggled is None,
{
}

/// The hotkey flips forwarding, and does so at most once per debounce
/// window: a second chord press within 250 ms does nothing.
pub proof fn lemma_hotkey_toggles_once_per_window(
    m: CaptureModel,
    key: CaptureKey,
    now_enabled: bool,
    now: u64,
)
    ensures
        spec_step(m, CaptureInput::KeyPress(key), now_enabled, now).1.toggled matches Some(v) ==> (
        v == !now_enabled && !debounced(m.last_hotkey_fire, now) && spec_step(
            m,
            CaptureInput::KeyPress(key),
            now_enabled,
            now,
        ).0.last_hotkey_fire == Some(now)),
{
}

/// The hotkey fires on key-down only: a repeated press of a key already
/// held never toggles forwarding, and a press that completes the chord is
/// swallowed and never forwarded.
pub proof fn lemma_held_key_repeat_never_toggles(
    m: CaptureModel,
    key: CaptureKey,
    now_enabled: bool,
    now: u64,
)
    ensures
        m.pressed.contains(key) ==> spec_step(m, CaptureInput::KeyPress(key), now_enabled, now).1.toggled is None,
        (m.hotkey is Some && key == m.hotkey->0.key && spec_chord_satisfied(
            m.hotkey->0,
            modifier_bits(m.pressed.insert(key)),
        )) ==> ({
            let out = spec_step(m, CaptureInput::KeyPress(key), now_enabled, now).1;
            out.swallow && out.forward is None
        }),
{
}

// --- Handing events on ----------------------------------------------------

/// What the capture hands to the server's forwarder.
#[derive(Clone, Debug)]
pub enum CaptureEvent {
    /// An input event to forward to paired clients.
    Input(Event),
    /// The hotkey fired and flipped forwarding to this state.
    ForwardingToggled(bool),
}

/// The messages an outcome produces, in the order they are sent: a toggle
/// first, then the event to forward.
pub open spec fn spec_dispatch(out: ProcessOutcome) -> Seq<CaptureEvent> {
    let toggles = match out.toggled {
        Some(t) => seq![CaptureEvent::ForwardingToggled(t)],
        None => Seq::empty(),
    };
    match out.forward {
        Some(e) => toggles.push(CaptureEvent::Input(e)),
        None => toggles,
    }
}

/// The messages to hand to the forwarder for one outcome.
pub fn dispatch(out: ProcessOutcome) -> (v: Vec<CaptureEvent>)
    ensures
        v@ == spec_dispatch(out),
{
    let mut v: Vec<CaptureEvent> = Vec::new();
    if let Some(t) = out.toggled {
        v.push(CaptureEvent::ForwardingToggled(t));
    }
    if let Some(e) = out.forward {
        v.push(CaptureEvent::Input(e));
    }
    proof {
        assert(v@ =~= spec_dispatch(out));
    }
    v
}

/// The envelopes the forwarder broadcasts for one capture message: input
/// as is; a toggle as `ToggleForward`, preceded by `ReleaseAll` when
/// forwarding went off.
pub fn broadcasts_for(ev: CaptureEvent) -> (v: Vec<Envelope>)
    ensures
        match ev {
            CaptureEvent::Input(e) => v@ == seq![Envelope::Input(e)],
            CaptureEvent::ForwardingToggled(on) => v@ == spec_toggle_broadcasts(on),
        },
{
    match ev {
        CaptureEvent::Input(e) => {
            let mut v: Vec<Envelope> = Vec::new();
            v.push(Envelope::Input(e));
            proof {
                assert(v@ =~= seq![Envelope::Input(e)]);
            }
            v
        },
        CaptureEvent::ForwardingToggled(on) => toggle_broadcasts(on),
    }
}

// --- The shared forwarding flag ------------------------------------------

/// Handle on the server-wide forwarding flag, shared with the connection
/// handlers.
pub struct InputCapture {
    enabled: Arc<AtomicBool>,
}

impl InputCapture {
    pub closed spec fn flag(&self) -> Arc<AtomicBool> {
        self.enabled
    }

    /// `enabled` is the single source of truth for whether forwarding is on.
    pub fn new(enabled: Arc<AtomicBool>) -> (c: Self)
        ensures
            c.flag() == enabled,
    {
        InputCapture { enabled }
    }

    /// Stores `value` into the shared flag.
    pub fn set_enabled(&self, value: bool) {
        self.enabled.store(value, std::sync::atomic::Ordering::SeqCst);
    }

    /// Reads the shared flag (other threads may change it at any time).
    pub fn is_enabled(&self) -> bool {
        self.enabled.load(std::sync::atomic::Ordering::SeqCst)
    }
}

} // verus!
