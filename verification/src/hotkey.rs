//! Parses a `"Ctrl+Alt+F"`-style hotkey string into a chord the input
//! capture matches against the keys held down.

use crate::keys::CaptureKey;
use crate::text::{
    all_ascii, ascii_lower, chars_eq, chars_of, lower_name, split_chars, split_on, string_of,
    to_lowercase, to_uppercase, trim, trim_chars, unicode_lowercase, upper_name,
};
use vstd::multiset::Multiset;
use vstd::prelude::*;
use vstd::string::StringExecFns;

verus! {

/// A parsed hotkey: the modifiers it requires plus one trigger key.
#[derive(Clone, Copy, Debug, PartialEq, Eq, Structural)]
pub struct HotkeyChord {
    pub ctrl: bool,
    pub alt: bool,
    pub shift: bool,
    pub meta: bool,
    pub key: CaptureKey,
}

/// Why a hotkey string was refused. `MultipleKeys` and `NoKey` carry the
/// whole input, `UnknownKey` the offending (lowercased) part.
#[derive(Clone, Debug)]
pub enum HotkeyError {
    Empty,
    MultipleKeys(String),
    NoKey(String),
    UnknownKey(String),
}

/// The mathematical content of a `HotkeyError`.
pub enum HotkeyErrorView {
    Empty,
    MultipleKeys(Seq<char>),
    NoKey(Seq<char>),
    UnknownKey(Seq<char>),
}

impl HotkeyError {
    pub open spec fn view_of(self) -> HotkeyErrorView {
        match self {
            HotkeyError::Empty => HotkeyErrorView::Empty,
            HotkeyError::MultipleKeys(s) => HotkeyErrorView::MultipleKeys(s@),
            HotkeyError::NoKey(s) => HotkeyErrorView::NoKey(s@),
            HotkeyError::UnknownKey(s) => HotkeyErrorView::UnknownKey(s@),
        }
    }

    /// The human-readable description of the error.
    pub fn message(&self) -> (m: String)
        ensures
            m@ == match self.view_of() {
                HotkeyErrorView::Empty => "empty hotkey string"@,
                HotkeyErrorView::MultipleKeys(s) => "multiple key codes in hotkey string: "@ + s,
                HotkeyErrorView::NoKey(s) => "no key code found in hotkey string: "@ + s,
                HotkeyErrorView::UnknownKey(s) => "unknown key code: "@ + s,
            },
    {
        match self {
            HotkeyError::Empty => String::from_str("empty hotkey string"),
            HotkeyError::MultipleKeys(s) => {
                let mut m = String::from_str("multiple key codes in hotkey string: ");
                m.append(s.as_str());
                m
            },
            HotkeyError::NoKey(s) => {
                let mut m = String::from_str("no key code found in hotkey string: ");
                m.append(s.as_str());
                m
            },
            HotkeyError::UnknownKey(s) => {
                let mut m = String::from_str("unknown key code: ");
                m.append(s.as_str());
                m
            },
        }
    }
}

/// The result of parsing, with errors taken by their content.
pub open spec fn result_view(r: Result<HotkeyChord, HotkeyError>) -> Result<
    HotkeyChord,
    HotkeyErrorView,
> {
    match r {
        Ok(c) => Ok(c),
        Err(e) => Err(e.view_of()),
    }
}

// --- Key names ----------------------------------------------------------------

/// The letter key for an uppercase ASCII letter.
pub open spec fn letter_key(c: char) -> CaptureKey {
    match c {
        'A' => CaptureKey::KeyA,
        'B' => CaptureKey::KeyB,
        'C' => CaptureKey::KeyC,
        'D' => CaptureKey::KeyD,
        'E' => CaptureKey::KeyE,
        'F' => CaptureKey::KeyF,
        'G' => CaptureKey::KeyG,
        'H' => CaptureKey::KeyH,
        'I' => CaptureKey::KeyI,
        'J' => CaptureKey::KeyJ,
        'K' => CaptureKey::KeyK,
        'L' => CaptureKey::KeyL,
        'M' => CaptureKey::KeyM,
        'N' => CaptureKey::KeyN,
        'O' => CaptureKey::KeyO,
        'P' => CaptureKey::KeyP,
        'Q' => CaptureKey::KeyQ,
        'R' => CaptureKey::KeyR,
        'S' => CaptureKey::KeyS,
        'T' => CaptureKey::KeyT,
        'U' => CaptureKey::KeyU,
        'V' => CaptureKey::KeyV,
        'W' => CaptureKey::KeyW,
        'X' => CaptureKey::KeyX,
        'Y' => CaptureKey::KeyY,
        'Z' => CaptureKey::KeyZ,
        _ => CaptureKey::KeyZ,
    }
}

/// The digit key for an ASCII digit.
pub open spec fn digit_key(c: char) -> CaptureKey {
    match c {
        '0' => CaptureKey::Num0,
        '1' => CaptureKey::Num1,
        '2' => CaptureKey::Num2,
        '3' => CaptureKey::Num3,
        '4' => CaptureKey::Num4,
        '5' => CaptureKey::Num5,
        '6' => CaptureKey::Num6,
        '7' => CaptureKey::Num7,
        '8' => CaptureKey::Num8,
        '9' => CaptureKey::Num9,
        _ => CaptureKey::Num9,
    }
}

/// The key an uppercased key name denotes: a single letter or digit, an
/// F-key, or one of the named keys (with their aliases).
pub open spec fn key_for_upper_name(u: Seq<char>) -> Option<CaptureKey> {
    if u.len() == 1 && 'A' <= u[0] && u[0] <= 'Z' {
        Some(letter_key(u[0]))
    } else if u.len() == 1 && '0' <= u[0] && u[0] <= '9' {
        Some(digit_key(u[0]))
    } else {
        named_key(u)
    }
}

pub open spec fn named_key(u: Seq<char>) -> Option<CaptureKey> {
    if u == seq!['F', '1'] {
        Some(CaptureKey::F1)
    } else if u == seq!['F', '2'] {
        Some(CaptureKey::F2)
    } else if u == seq!['F', '3'] {
        Some(CaptureKey::F3)
    } else if u == seq!['F', '4'] {
        Some(CaptureKey::F4)
    } else if u == seq!['F', '5'] {
        Some(CaptureKey::F5)
    } else if u == seq!['F', '6'] {
        Some(CaptureKey::F6)
    } else if u == seq!['F', '7'] {
        Some(CaptureKey::F7)
    } else if u == seq!['F', '8'] {
        Some(CaptureKey::F8)
    } else if u == seq!['F', '9'] {
        Some(CaptureKey::F9)
    } else if u == seq!['F', '1', '0'] {
        Some(CaptureKey::F10)
    } else if u == seq!['F', '1', '1'] {
        Some(CaptureKey::F11)
    } else if u == seq!['F', '1', '2'] {
        Some(CaptureKey::F12)
    } else if u == seq!['S', 'P', 'A', 'C', 'E'] {
        Some(CaptureKey::Space)
    } else if u == seq!['E', 'S', 'C', 'A', 'P', 'E'] {
        Some(CaptureKey::Escape)
    } else if u == seq!['E', 'S', 'C'] {
        Some(CaptureKey::Escape)
    } else if u == seq!['T', 'A', 'B'] {
        Some(CaptureKey::Tab)
    } else if u == seq!['E', 'N', 'T', 'E', 'R'] {
        Some(CaptureKey::Return)
    } else if u == seq!['R', 'E', 'T', 'U', 'R', 'N'] {
        Some(CaptureKey::Return)
    } else if u == seq!['U', 'P'] {
        Some(CaptureKey::UpArrow)
    } else if u == seq!['U', 'P', 'A', 'R', 'R', 'O', 'W'] {
        Some(CaptureKey::UpArrow)
    } else if u == seq!['D', 'O', 'W', 'N'] {
        Some(CaptureKey::DownArrow)
    } else if u == seq!['D', 'O', 'W', 'N', 'A', 'R', 'R', 'O', 'W'] {
        Some(CaptureKey::DownArrow)
    } else if u == seq!['L', 'E', 'F', 'T'] {
        Some(CaptureKey::LeftArrow)
    } else if u == seq!['L', 'E', 'F', 'T', 'A', 'R', 'R', 'O', 'W'] {
        Some(CaptureKey::LeftArrow)
    } else if u == seq!['R', 'I', 'G', 'H', 'T'] {
        Some(CaptureKey::RightArrow)
    } else if u == seq!['R', 'I', 'G', 'H', 'T', 'A', 'R', 'R', 'O', 'W'] {
        Some(CaptureKey::RightArrow)
    } else if u == seq!['H', 'O', 'M', 'E'] {
        Some(CaptureKey::Home)
    } else if u == seq!['E', 'N', 'D'] {
        Some(CaptureKey::End)
    } else if u == seq!['P', 'A', 'G', 'E', 'U', 'P'] {
        Some(CaptureKey::PageUp)
    } else if u == seq!['P', 'A', 'G', 'E', 'D', 'O', 'W', 'N'] {
        Some(CaptureKey::PageDown)
    } else if u == seq!['I', 'N', 'S', 'E', 'R', 'T'] {
        Some(CaptureKey::Insert)
    } else if u == seq!['D', 'E', 'L', 'E', 'T', 'E'] {
        Some(CaptureKey::Delete)
    } else if u == seq!['D', 'E', 'L'] {
        Some(CaptureKey::Delete)
    } else if u == seq!['B', 'A', 'C', 'K', 'S', 'P', 'A', 'C', 'E'] {
        Some(CaptureKey::Backspace)
    } else if u == seq!['P', 'A', 'U', 'S', 'E'] {
        Some(CaptureKey::Pause)
    } else if u == seq!['S', 'C', 'R', 'O', 'L', 'L', 'L', 'O', 'C', 'K'] {
        Some(CaptureKey::ScrollLock)
    } else if u == seq!['P', 'R', 'I', 'N', 'T', 'S', 'C', 'R', 'E', 'E', 'N'] {
        Some(CaptureKey::PrintScreen)
    } else if u == seq!['P', 'R', 'T', 'S', 'C'] {
        Some(CaptureKey::PrintScreen)
    } else if u == seq!['B', 'A', 'C', 'K', 'Q', 'U', 'O', 'T', 'E'] {
        Some(CaptureKey::BackQuote)
    } else if u == seq!['G', 'R', 'A', 'V', 'E'] {
        Some(CaptureKey::BackQuote)
    } else if u == seq!['`'] {
        Some(CaptureKey::BackQuote)
    } else {
        None
    }
}

fn letter_key_exec(c: char) -> (k: CaptureKey)
    ensures
        k == letter_key(c),
{
    match c {
        'A' => CaptureKey::KeyA,
        'B' => CaptureKey::KeyB,
        'C' => CaptureKey::KeyC,
        'D' => CaptureKey::KeyD,
        'E' => CaptureKey::KeyE,
        'F' => CaptureKey::KeyF,
        'G' => CaptureKey::KeyG,
        'H' => CaptureKey::KeyH,
        'I' => CaptureKey::KeyI,
        'J' => CaptureKey::KeyJ,
        'K' => CaptureKey::KeyK,
        'L' => CaptureKey::KeyL,
        'M' => CaptureKey::KeyM,
        'N' => CaptureKey::KeyN,
        'O' => CaptureKey::KeyO,
        'P' => CaptureKey::KeyP,
        'Q' => CaptureKey::KeyQ,
        'R' => CaptureKey::KeyR,
        'S' => CaptureKey::KeyS,
        'T' => CaptureKey::KeyT,
        'U' => CaptureKey::KeyU,
        'V' => CaptureKey::KeyV,
        'W' => CaptureKey::KeyW,
        'X' => CaptureKey::KeyX,
        'Y' => CaptureKey::KeyY,
        'Z' => CaptureKey::KeyZ,
        _ => CaptureKey::KeyZ,
    }
}

fn digit_key_exec(c: char) -> (k: CaptureKey)
    ensures
        k == digit_key(c),
{
    match c {
        '0' => CaptureKey::Num0,
        '1' => CaptureKey::Num1,
        '2' => CaptureKey::Num2,
        '3' => CaptureKey::Num3,
        '4' => CaptureKey::Num4,
        '5' => CaptureKey::Num5,
        '6' => CaptureKey::Num6,
        '7' => CaptureKey::Num7,
        '8' => CaptureKey::Num8,
        '9' => CaptureKey::Num9,
        _ => CaptureKey::Num9,
    }
}

fn named_key_exec(u: &[char]) -> (k: Option<CaptureKey>)
    ensures
        k == named_key(u@),
{
    proof {
        assert(['F', '1']@ =~= seq!['F', '1']);
        assert(['F', '2']@ =~= seq!['F', '2']);
        assert(['F', '3']@ =~= seq!['F', '3']);
        assert(['F', '4']@ =~= seq!['F', '4']);
        assert(['F', '5']@ =~= seq!['F', '5']);
        assert(['F', '6']@ =~= seq!['F', '6']);
        assert(['F', '7']@ =~= seq!['F', '7']);
        assert(['F', '8']@ =~= seq!['F', '8']);
        assert(['F', '9']@ =~= seq!['F', '9']);
        assert(['F', '1', '0']@ =~= seq!['F', '1', '0']);
        assert(['F', '1', '1']@ =~= seq!['F', '1', '1']);
        assert(['F', '1', '2']@ =~= seq!['F', '1', '2']);
        assert(['S', 'P', 'A', 'C', 'E']@ =~= seq!['S', 'P', 'A', 'C', 'E']);
        assert(['E', 'S', 'C', 'A', 'P', 'E']@ =~= seq!['E', 'S', 'C', 'A', 'P', 'E']);
        assert(['E', 'S', 'C']@ =~= seq!['E', 'S', 'C']);
        assert(['T', 'A', 'B']@ =~= seq!['T', 'A', 'B']);
        assert(['E', 'N', 'T', 'E', 'R']@ =~= seq!['E', 'N', 'T', 'E', 'R']);
        assert(['R', 'E', 'T', 'U', 'R', 'N']@ =~= seq!['R', 'E', 'T', 'U', 'R', 'N']);
        assert(['U', 'P']@ =~= seq!['U', 'P']);
        assert(['U', 'P', 'A', 'R', 'R', 'O', 'W']@ =~= seq!['U', 'P', 'A', 'R', 'R', 'O', 'W']);
        assert(['D', 'O', 'W', 'N']@ =~= seq!['D', 'O', 'W', 'N']);
        assert(['D', 'O', 'W', 'N', 'A', 'R', 'R', 'O', 'W']@ =~= seq!['D', 'O', 'W', 'N', 'A', 'R', 'R', 'O', 'W']);
        assert(['L', 'E', 'F', 'T']@ =~= seq!['L', 'E', 'F', 'T']);
        assert(['L', 'E', 'F', 'T', 'A', 'R', 'R', 'O', 'W']@ =~= seq!['L', 'E', 'F', 'T', 'A', 'R', 'R', 'O', 'W']);
        assert(['R', 'I', 'G', 'H', 'T']@ =~= seq!['R', 'I', 'G', 'H', 'T']);
        assert(['R', 'I', 'G', 'H', 'T', 'A', 'R', 'R', 'O', 'W']@ =~= seq!['R', 'I', 'G', 'H', 'T', 'A', 'R', 'R', 'O', 'W']);
        assert(['H', 'O', 'M', 'E']@ =~= seq!['H', 'O', 'M', 'E']);
        assert(['E', 'N', 'D']@ =~= seq!['E', 'N', 'D']);
        assert(['P', 'A', 'G', 'E', 'U', 'P']@ =~= seq!['P', 'A', 'G', 'E', 'U', 'P']);
        assert(['P', 'A', 'G', 'E', 'D', 'O', 'W', 'N']@ =~= seq!['P', 'A', 'G', 'E', 'D', 'O', 'W', 'N']);
        assert(['I', 'N', 'S', 'E', 'R', 'T']@ =~= seq!['I', 'N', 'S', 'E', 'R', 'T']);
        assert(['D', 'E', 'L', 'E', 'T', 'E']@ =~= seq!['D', 'E', 'L', 'E', 'T', 'E']);
        assert(['D', 'E', 'L']@ =~= seq!['D', 'E', 'L']);
        assert(['B', 'A', 'C', 'K', 'S', 'P', 'A', 'C', 'E']@ =~= seq!['B', 'A', 'C', 'K', 'S', 'P', 'A', 'C', 'E']);
        assert(['P', 'A', 'U', 'S', 'E']@ =~= seq!['P', 'A', 'U', 'S', 'E']);
        assert(['S', 'C', 'R', 'O', 'L', 'L', 'L', 'O', 'C', 'K']@ =~= seq!['S', 'C', 'R', 'O', 'L', 'L', 'L', 'O', 'C', 'K']);
        assert(['P', 'R', 'I', 'N', 'T', 'S', 'C', 'R', 'E', 'E', 'N']@ =~= seq!['P', 'R', 'I', 'N', 'T', 'S', 'C', 'R', 'E', 'E', 'N']);
        assert(['P', 'R', 'T', 'S', 'C']@ =~= seq!['P', 'R', 'T', 'S', 'C']);
        assert(['B', 'A', 'C', 'K', 'Q', 'U', 'O', 'T', 'E']@ =~= seq!['B', 'A', 'C', 'K', 'Q', 'U', 'O', 'T', 'E']);
        assert(['G', 'R', 'A', 'V', 'E']@ =~= seq!['G', 'R', 'A', 'V', 'E']);
        assert(['`']@ =~= seq!['`']);
    }
    if chars_eq(u, &['F', '1']) {
        Some(CaptureKey::F1)
    } else if chars_eq(u, &['F', '2']) {
        Some(CaptureKey::F2)
    } else if chars_eq(u, &['F', '3']) {
        Some(CaptureKey::F3)
    } else if chars_eq(u, &['F', '4']) {
        Some(CaptureKey::F4)
    } else if chars_eq(u, &['F', '5']) {
        Some(CaptureKey::F5)
    } else if chars_eq(u, &['F', '6']) {
        Some(CaptureKey::F6)
    } else if chars_eq(u, &['F', '7']) {
        Some(CaptureKey::F7)
    } else if chars_eq(u, &['F', '8']) {
        Some(CaptureKey::F8)
    } else if chars_eq(u, &['F', '9']) {
        Some(CaptureKey::F9)
    } else if chars_eq(u, &['F', '1', '0']) {
        Some(CaptureKey::F10)
    } else if chars_eq(u, &['F', '1', '1']) {
        Some(CaptureKey::F11)
    } else if chars_eq(u, &['F', '1', '2']) {
        Some(CaptureKey::F12)
    } else if chars_eq(u, &['S', 'P', 'A', 'C', 'E']) {
        Some(CaptureKey::Space)
    } else if chars_eq(u, &['E', 'S', 'C', 'A', 'P', 'E']) {
        Some(CaptureKey::Escape)
    } else if chars_eq(u, &['E', 'S', 'C']) {
        Some(CaptureKey::Escape)
    } else if chars_eq(u, &['T', 'A', 'B']) {
        Some(CaptureKey::Tab)
    } else if chars_eq(u, &['E', 'N', 'T', 'E', 'R']) {
        Some(CaptureKey::Return)
    } else if chars_eq(u, &['R', 'E', 'T', 'U', 'R', 'N']) {
        Some(CaptureKey::Return)
    } else if chars_eq(u, &['U', 'P']) {
        Some(CaptureKey::UpArrow)
    } else if chars_eq(u, &['U', 'P', 'A', 'R', 'R', 'O', 'W']) {
        Some(CaptureKey::UpArrow)
    } else if chars_eq(u, &['D', 'O', 'W', 'N']) {
        Some(CaptureKey::DownArrow)
    } else if chars_eq(u, &['D', 'O', 'W', 'N', 'A', 'R', 'R', 'O', 'W']) {
        Some(CaptureKey::DownArrow)
    } else if chars_eq(u, &['L', 'E', 'F', 'T']) {
        Some(CaptureKey::LeftArrow)
    } else if chars_eq(u, &['L', 'E', 'F', 'T', 'A', 'R', 'R', 'O', 'W']) {
        Some(CaptureKey::LeftArrow)
    } else if chars_eq(u, &['R', 'I', 'G', 'H', 'T']) {
        Some(CaptureKey::RightArrow)
    } else if chars_eq(u, &['R', 'I', 'G', 'H', 'T', 'A', 'R', 'R', 'O', 'W']) {
        Some(CaptureKey::RightArrow)
    } else if chars_eq(u, &['H', 'O', 'M', 'E']) {
        Some(CaptureKey::Home)
    } else if chars_eq(u, &['E', 'N', 'D']) {
        Some(CaptureKey::End)
    } else if chars_eq(u, &['P', 'A', 'G', 'E', 'U', 'P']) {
        Some(CaptureKey::PageUp)
    } else if chars_eq(u, &['P', 'A', 'G', 'E', 'D', 'O', 'W', 'N']) {
        Some(CaptureKey::PageDown)
    } else if chars_eq(u, &['I', 'N', 'S', 'E', 'R', 'T']) {
        Some(CaptureKey::Insert)
    } else if chars_eq(u, &['D', 'E', 'L', 'E', 'T', 'E']) {
        Some(CaptureKey::Delete)
    } else if chars_eq(u, &['D', 'E', 'L']) {
        Some(CaptureKey::Delete)
    } else if chars_eq(u, &['B', 'A', 'C', 'K', 'S', 'P', 'A', 'C', 'E']) {
        Some(CaptureKey::Backspace)
    } else if chars_eq(u, &['P', 'A', 'U', 'S', 'E']) {
        Some(CaptureKey::Pause)
    } else if chars_eq(u, &['S', 'C', 'R', 'O', 'L', 'L', 'L', 'O', 'C', 'K']) {
        Some(CaptureKey::ScrollLock)
    } else if chars_eq(u, &['P', 'R', 'I', 'N', 'T', 'S', 'C', 'R', 'E', 'E', 'N']) {
        Some(CaptureKey::PrintScreen)
    } else if chars_eq(u, &['P', 'R', 'T', 'S', 'C']) {
        Some(CaptureKey::PrintScreen)
    } else if chars_eq(u, &['B', 'A', 'C', 'K', 'Q', 'U', 'O', 'T', 'E']) {
        Some(CaptureKey::BackQuote)
    } else if chars_eq(u, &['G', 'R', 'A', 'V', 'E']) {
        Some(CaptureKey::BackQuote)
    } else if chars_eq(u, &['`']) {
        Some(CaptureKey::BackQuote)
    } else {
        None
    }
}

/// The key an already-uppercased name denotes, if any.
pub fn key_for_upper_chars(u: &[char]) -> (k: Option<CaptureKey>)
    ensures
        k == key_for_upper_name(u@),
{
    if u.len() == 1 && 'A' <= u[0] && u[0] <= 'Z' {
        Some(letter_key_exec(u[0]))
    } else if u.len() == 1 && '0' <= u[0] && u[0] <= '9' {
        Some(digit_key_exec(u[0]))
    } else {
        named_key_exec(u)
    }
}

/// The key a (case-insensitive) key name denotes: `name` is uppercased
/// (`upper_name`) and looked up with `key_for_upper_name`.
pub fn parse_key_name(name: &str) -> (r: Result<CaptureKey, HotkeyError>)
    ensures
        r matches Ok(k) ==> key_for_upper_name(upper_name(name@)) == Some(k),
        r matches Err(e) ==> key_for_upper_name(upper_name(name@)) is None
            && e.view_of() == HotkeyErrorView::UnknownKey(name@),
{
    let upper = to_uppercase(name);
    let u = chars_of(upper.as_str());
    match key_for_upper_chars(u.as_slice()) {
        Some(k) => Ok(k),
        None => Err(HotkeyError::UnknownKey(String::from_str(name))),
    }
}

/// `u` is one of the uppercase names of `key` that hotkeys accept: a
/// letter or digit key its character, an F-key its name, and the other
/// keys their name or one of its aliases (`Esc`, `Enter`, `Up`, `Down`,
/// `Left`, `Right`, `Del`, `PrtSc`, `Grave`, `` ` ``).
pub open spec fn is_name_of(u: Seq<char>, key: CaptureKey) -> bool {
    match key {
        CaptureKey::KeyA => u == seq!['A'],
        CaptureKey::KeyB => u == seq!['B'],
        CaptureKey::KeyC => u == seq!['C'],
        CaptureKey::KeyD => u == seq!['D'],
        CaptureKey::KeyE => u == seq!['E'],
        CaptureKey::KeyF => u == seq!['F'],
        CaptureKey::KeyG => u == seq!['G'],
        CaptureKey::KeyH => u == seq!['H'],
        CaptureKey::KeyI => u == seq!['I'],
        CaptureKey::KeyJ => u == seq!['J'],
        CaptureKey::KeyK => u == seq!['K'],
        CaptureKey::KeyL => u == seq!['L'],
        CaptureKey::KeyM => u == seq!['M'],
        CaptureKey::KeyN => u == seq!['N'],
        CaptureKey::KeyO => u == seq!['O'],
        CaptureKey::KeyP => u == seq!['P'],
        CaptureKey::KeyQ => u == seq!['Q'],
        CaptureKey::KeyR => u == seq!['R'],
        CaptureKey::KeyS => u == seq!['S'],
        CaptureKey::KeyT => u == seq!['T'],
        CaptureKey::KeyU => u == seq!['U'],
        CaptureKey::KeyV => u == seq!['V'],
        CaptureKey::KeyW => u == seq!['W'],
        CaptureKey::KeyX => u == seq!['X'],
        CaptureKey::KeyY => u == seq!['Y'],
        CaptureKey::KeyZ => u == seq!['Z'],
        CaptureKey::Num0 => u == seq!['0'],
        CaptureKey::Num1 => u == seq!['1'],
        CaptureKey::Num2 => u == seq!['2'],
        CaptureKey::Num3 => u == seq!['3'],
        CaptureKey::Num4 => u == seq!['4'],
        CaptureKey::Num5 => u == seq!['5'],
        CaptureKey::Num6 => u == seq!['6'],
        CaptureKey::Num7 => u == seq!['7'],
        CaptureKey::Num8 => u == seq!['8'],
        CaptureKey::Num9 => u == seq!['9'],
        CaptureKey::F1 => u == seq!['F', '1'],
        CaptureKey::F2 => u == seq!['F', '2'],
        CaptureKey::F3 => u == seq!['F', '3'],
        CaptureKey::F4 => u == seq!['F', '4'],
        CaptureKey::F5 => u == seq!['F', '5'],
        CaptureKey::F6 => u == seq!['F', '6'],
        CaptureKey::F7 => u == seq!['F', '7'],
        CaptureKey::F8 => u == seq!['F', '8'],
        CaptureKey::F9 => u == seq!['F', '9'],
        CaptureKey::F10 => u == seq!['F', '1', '0'],
        CaptureKey::F11 => u == seq!['F', '1', '1'],
        CaptureKey::F12 => u == seq!['F', '1', '2'],
        CaptureKey::Space => u == seq!['S', 'P', 'A', 'C', 'E'],
        CaptureKey::Escape => u == seq!['E', 'S', 'C', 'A', 'P', 'E'] || u == seq!['E', 'S', 'C'],
        CaptureKey::Tab => u == seq!['T', 'A', 'B'],
        CaptureKey::Return => u == seq!['E', 'N', 'T', 'E', 'R'] || u == seq!['R', 'E', 'T', 'U', 'R', 'N'],
        CaptureKey::UpArrow => u == seq!['U', 'P'] || u == seq!['U', 'P', 'A', 'R', 'R', 'O', 'W'],
        CaptureKey::DownArrow => u == seq!['D', 'O', 'W', 'N'] || u == seq!['D', 'O', 'W', 'N', 'A', 'R', 'R', 'O', 'W'],
        CaptureKey::LeftArrow => u == seq!['L', 'E', 'F', 'T'] || u == seq!['L', 'E', 'F', 'T', 'A', 'R', 'R', 'O', 'W'],
        CaptureKey::RightArrow => u == seq!['R', 'I', 'G', 'H', 'T'] || u == seq!['R', 'I', 'G', 'H', 'T', 'A', 'R', 'R', 'O', 'W'],
        CaptureKey::Home => u == seq!['H', 'O', 'M', 'E'],
        CaptureKey::End => u == seq!['E', 'N', 'D'],
        CaptureKey::PageUp => u == seq!['P', 'A', 'G', 'E', 'U', 'P'],
        CaptureKey::PageDown => u == seq!['P', 'A', 'G', 'E', 'D', 'O', 'W', 'N'],
        CaptureKey::Insert => u == seq!['I', 'N', 'S', 'E', 'R', 'T'],
        CaptureKey::Delete => u == seq!['D', 'E', 'L', 'E', 'T', 'E'] || u == seq!['D', 'E', 'L'],
        CaptureKey::Backspace => u == seq!['B', 'A', 'C', 'K', 'S', 'P', 'A', 'C', 'E'],
        CaptureKey::Pause => u == seq!['P', 'A', 'U', 'S', 'E'],
        CaptureKey::ScrollLock => u == seq!['S', 'C', 'R', 'O', 'L', 'L', 'L', 'O', 'C', 'K'],
        CaptureKey::PrintScreen => u == seq!['P', 'R', 'I', 'N', 'T', 'S', 'C', 'R', 'E', 'E', 'N'] || u == seq!['P', 'R', 'T', 'S', 'C'],
        CaptureKey::BackQuote => u == seq!['B', 'A', 'C', 'K', 'Q', 'U', 'O', 'T', 'E'] || u == seq!['G', 'R', 'A', 'V', 'E'] || u == seq!['`'],
        _ => false,
    }
}

/// Every name a hotkey accepts for a key gives that key: looking up the
/// uppercased name yields exactly the key it names (`PAGEUP` gives
/// `PageUp`, `ESC` and `ESCAPE` give `Escape`), and a name that yields a
/// key is one of that key's names.
pub proof fn lemma_key_names_give_their_keys(u: Seq<char>, key: CaptureKey)
    ensures
        is_name_of(u, key) ==> key_for_upper_name(u) == Some(key),
        key_for_upper_name(u) == Some(key) ==> is_name_of(u, key),
{
    if is_name_of(u, key) {
    }
    if key_for_upper_name(u) == Some(key) {
        if u.len() == 1 && 'A' <= u[0] && u[0] <= 'Z' {
            assert(u =~= seq![u[0]]);
        } else if u.len() == 1 && '0' <= u[0] && u[0] <= '9' {
            assert(u =~= seq![u[0]]);
        }
    }
}

// --- The whole string ---------------------------------------------------------

/// The trimmed, non-empty pieces of `pieces`, in order.
pub open spec fn nonempty_trimmed(pieces: Seq<Seq<char>>) -> Seq<Seq<char>>
    decreases pieces.len(),
{
    if pieces.len() == 0 {
        Seq::empty()
    } else {
        let r = nonempty_trimmed(pieces.drop_last());
        let t = trim(pieces.last());
        if t.len() > 0 {
            r.push(t)
        } else {
            r
        }
    }
}

/// The parts of a hotkey string: split on `+`, trimmed, empty ones dropped.
pub open spec fn hotkey_parts(s: Seq<char>) -> Seq<Seq<char>> {
    nonempty_trimmed(split_on(s, '+'))
}

/// Modifiers seen so far and the key, if one was given.
pub type ScanState = (bool, bool, bool, bool, Option<CaptureKey>);

pub open spec fn is_ctrl_name(l: Seq<char>) -> bool {
    l == seq!['c', 't', 'r', 'l'] || l == seq!['c', 'o', 'n', 't', 'r', 'o', 'l']
}

pub open spec fn is_alt_name(l: Seq<char>) -> bool {
    l == seq!['a', 'l', 't']
}

pub open spec fn is_shift_name(l: Seq<char>) -> bool {
    l == seq!['s', 'h', 'i', 'f', 't']
}

pub open spec fn is_meta_name(l: Seq<char>) -> bool {
    l == seq!['s', 'u', 'p', 'e', 'r'] || l == seq!['w', 'i', 'n'] || l == seq!['m', 'e', 't', 'a']
        || l == seq!['c', 'm', 'd']
}

/// One part of the string, applied to the state (`s` is the whole input).
pub open spec fn scan_step(st: ScanState, part: Seq<char>, s: Seq<char>) -> Result<
    ScanState,
    HotkeyErrorView,
> {
    let l = lower_name(part);
    if is_ctrl_name(l) {
        Ok((true, st.1, st.2, st.3, st.4))
    } else if is_alt_name(l) {
        Ok((st.0, true, st.2, st.3, st.4))
    } else if is_shift_name(l) {
        Ok((st.0, st.1, true, st.3, st.4))
    } else if is_meta_name(l) {
        Ok((st.0, st.1, st.2, true, st.4))
    } else if st.4 is Some {
        Err(HotkeyErrorView::MultipleKeys(s))
    } else {
        match key_for_upper_name(upper_name(l)) {
            Some(k) => Ok((st.0, st.1, st.2, st.3, Some(k))),
            None => Err(HotkeyErrorView::UnknownKey(l)),
        }
    }
}

/// The parts applied in order; the first error stops the scan.
pub open spec fn scan_parts(parts: Seq<Seq<char>>, s: Seq<char>) -> Result<
    ScanState,
    HotkeyErrorView,
>
    decreases parts.len(),
{
    if parts.len() == 0 {
        Ok((false, false, false, false, None))
    } else {
        match scan_parts(parts.drop_last(), s) {
            Err(e) => Err(e),
            Ok(st) => scan_step(st, parts.last(), s),
        }
    }
}

/// Once a prefix of the parts fails, the whole scan fails the same way.
proof fn lemma_scan_error_sticks(ps: Seq<Seq<char>>, s: Seq<char>, k: int)
    requires
        0 <= k <= ps.len(),
        scan_parts(ps.take(k), s) is Err,
    ensures
        scan_parts(ps, s) == scan_parts(ps.take(k), s),
    decreases ps.len() - k,
{
    if k < ps.len() {
        assert(ps.take(k + 1).drop_last() =~= ps.take(k));
        lemma_scan_error_sticks(ps, s, k + 1);
    } else {
        assert(ps.take(k) =~= ps);
    }
}

/// What parsing `s` yields.
pub open spec fn spec_parse_hotkey(s: Seq<char>) -> Result<HotkeyChord, HotkeyErrorView> {
    let parts = hotkey_parts(s);
    if parts.len() == 0 {
        Err(HotkeyErrorView::Empty)
    } else {
        match scan_parts(parts, s) {
            Err(e) => Err(e),
            Ok(st) => match st.4 {
                None => Err(HotkeyErrorView::NoKey(s)),
                Some(k) => Ok(HotkeyChord { ctrl: st.0, alt: st.1, shift: st.2, meta: st.3, key: k }),
            },
        }
    }
}

/// Parses strings like `"Ctrl+Alt+F"`: case-insensitive, whitespace around
/// `+` ignored; modifiers `Ctrl`/`Control`, `Alt`, `Shift`,
/// `Super`/`Win`/`Meta`/`Cmd`, and exactly one key.
pub fn parse_hotkey(s: &str) -> (r: Result<HotkeyChord, HotkeyError>)
    ensures
        result_view(r) == spec_parse_hotkey(s@),
{
    let chars = chars_of(s);
    let pieces = split_chars(chars.as_slice(), '+');
    let ghost sp = split_on(s@, '+');
    let mut parts: Vec<Vec<char>> = Vec::new();
    let mut i: usize = 0;
    while i < pieces.len()
        invariant
            i <= pieces@.len(),
            pieces@.len() == sp.len(),
            forall|j: int| 0 <= j < pieces@.len() ==> #[trigger] pieces@[j]@ == sp[j],
            parts@.len() == nonempty_trimmed(sp.take(i as int)).len(),
            forall|j: int|
                0 <= j < parts@.len() ==> #[trigger] parts@[j]@ == nonempty_trimmed(
                    sp.take(i as int),
                )[j],
        decreases pieces@.len() - i,
    {
        let t = trim_chars(pieces[i].as_slice());
        proof {
            assert(sp.take(i + 1).drop_last() =~= sp.take(i as int));
            assert(sp.take(i + 1).last() == sp[i as int]);
        }
        if t.len() > 0 {
            parts.push(t);
        }
        i = i + 1;
    }
    proof {
        assert(sp.take(sp.len() as int) =~= sp);
    }
    if parts.len() == 0 {
        return Err(HotkeyError::Empty);
    }
    let ghost ps = hotkey_parts(s@);
    let mut ctrl = false;
    let mut alt = false;
    let mut shift = false;
    let mut meta = false;
    let mut key: Option<CaptureKey> = None;
    let mut k: usize = 0;
    while k < parts.len()
        invariant
            k <= parts@.len(),
            ps == hotkey_parts(s@),
            parts@.len() == ps.len(),
            forall|j: int| 0 <= j < parts@.len() ==> #[trigger] parts@[j]@ == ps[j],
            scan_parts(ps.take(k as int), s@) == Ok::<ScanState, HotkeyErrorView>(
                (ctrl, alt, shift, meta, key),
            ),
        decreases parts@.len() - k,
    {
        proof {
            assert(ps.take(k + 1).drop_last() =~= ps.take(k as int));
            assert(ps.take(k + 1).last() == ps[k as int]);
        }
        let part = string_of(parts[k].as_slice());
        let lower = to_lowercase(part.as_str());
        let l = chars_of(lower.as_str());
        let ls = l.as_slice();
        proof {
            assert(['c', 't', 'r', 'l']@ =~= seq!['c', 't', 'r', 'l']);
            assert(['c', 'o', 'n', 't', 'r', 'o', 'l']@ =~= seq!['c', 'o', 'n', 't', 'r', 'o', 'l']);
            assert(['a', 'l', 't']@ =~= seq!['a', 'l', 't']);
            assert(['s', 'h', 'i', 'f', 't']@ =~= seq!['s', 'h', 'i', 'f', 't']);
            assert(['s', 'u', 'p', 'e', 'r']@ =~= seq!['s', 'u', 'p', 'e', 'r']);
            assert(['w', 'i', 'n']@ =~= seq!['w', 'i', 'n']);
            assert(['m', 'e', 't', 'a']@ =~= seq!['m', 'e', 't', 'a']);
            assert(['c', 'm', 'd']@ =~= seq!['c', 'm', 'd']);
        }
        if chars_eq(ls, &['c', 't', 'r', 'l']) || chars_eq(ls, &['c', 'o', 'n', 't', 'r', 'o', 'l']) {
            ctrl = true;
        } else if chars_eq(ls, &['a', 'l', 't']) {
            alt = true;
        } else if chars_eq(ls, &['s', 'h', 'i', 'f', 't']) {
            shift = true;
        } else if chars_eq(ls, &['s', 'u', 'p', 'e', 'r']) || chars_eq(ls, &['w', 'i', 'n'])
            || chars_eq(ls, &['m', 'e', 't', 'a']) || chars_eq(ls, &['c', 'm', 'd']) {
            meta = true;
        } else if key.is_some() {
            let whole = String::from_str(s);
            proof {
                lemma_scan_error_sticks(ps, s@, k + 1);
            }
            return Err(HotkeyError::MultipleKeys(whole));
        } else {
            match parse_key_name(lower.as_str()) {
                Ok(found) => {
                    key = Some(found);
                },
                Err(e) => {
                    proof {
                        lemma_scan_error_sticks(ps, s@, k + 1);
                    }
                    return Err(e);
                },
            }
        }
        k = k + 1;
    }
    proof {
        assert(ps.take(ps.len() as int) =~= ps);
    }
    match key {
        None => Err(HotkeyError::NoKey(String::from_str(s))),
        Some(found) => Ok(HotkeyChord { ctrl, alt, shift, meta, key: found }),
    }
}

// --- Order, case and spacing do not matter -------------------------------------

/// A lowercased part that names a modifier.
pub open spec fn is_modifier_name(l: Seq<char>) -> bool {
    is_ctrl_name(l) || is_alt_name(l) || is_shift_name(l) || is_meta_name(l)
}

/// The parts of `m` that name a key rather than a modifier, once `h` gives
/// each its lowercase form.
pub open spec fn key_parts(m: Multiset<Seq<char>>, h: spec_fn(Seq<char>) -> Seq<char>) -> Set<
    Seq<char>,
> {
    Set::new(|y: Seq<char>| m.count(y) > 0 && !is_modifier_name(h(y)))
}

/// At most one part names a key, it occurs once, and it is a key's name.
pub open spec fn keys_ok(m: Multiset<Seq<char>>, h: spec_fn(Seq<char>) -> Seq<char>) -> bool {
    forall|y: Seq<char>|
        #[trigger] key_parts(m, h).contains(y) ==> key_for_upper_name(upper_name(h(y))) is Some
            && m.count(y) == 1 && (forall|z: Seq<char>| #[trigger] key_parts(m, h).contains(z) ==> z == y)
}

/// The key that the key part of `m` names, if it has one.
pub open spec fn key_of(m: Multiset<Seq<char>>, h: spec_fn(Seq<char>) -> Seq<char>) -> Option<
    CaptureKey,
> {
    if key_parts(m, h).is_empty() {
        None
    } else {
        key_for_upper_name(upper_name(h(key_parts(m, h).choose())))
    }
}

pub open spec fn has_ctrl(m: Multiset<Seq<char>>, h: spec_fn(Seq<char>) -> Seq<char>) -> bool {
    exists|y: Seq<char>| m.count(y) > 0 && #[trigger] is_ctrl_name(h(y))
}

pub open spec fn has_alt(m: Multiset<Seq<char>>, h: spec_fn(Seq<char>) -> Seq<char>) -> bool {
    exists|y: Seq<char>| m.count(y) > 0 && #[trigger] is_alt_name(h(y))
}

pub open spec fn has_shift(m: Multiset<Seq<char>>, h: spec_fn(Seq<char>) -> Seq<char>) -> bool {
    exists|y: Seq<char>| m.count(y) > 0 && #[trigger] is_shift_name(h(y))
}

pub open spec fn has_meta(m: Multiset<Seq<char>>, h: spec_fn(Seq<char>) -> Seq<char>) -> bool {
    exists|y: Seq<char>| m.count(y) > 0 && #[trigger] is_meta_name(h(y))
}

/// What scanning the parts gives, in terms of the multiset of their images
/// under `f`, where `h` recovers each part's lowercase form from its image.
proof fn lemma_scan_by_multiset(
    ps: Seq<Seq<char>>,
    s: Seq<char>,
    f: spec_fn(Seq<char>) -> Seq<char>,
    h: spec_fn(Seq<char>) -> Seq<char>,
)
    requires
        forall|p: Seq<char>| #[trigger] lower_name(p) == h(f(p)),
    ensures
        ({
            let m = ps.map_values(f).to_multiset();
            &&& scan_parts(ps, s) is Ok <==> keys_ok(m, h)
            &&& scan_parts(ps, s) matches Ok(st) ==> st == (
                has_ctrl(m, h),
                has_alt(m, h),
                has_shift(m, h),
                has_meta(m, h),
                key_of(m, h),
            )
        }),
    decreases ps.len(),
{
    broadcast use vstd::multiset::group_multiset_axioms;

    let m = ps.map_values(f).to_multiset();
    if ps.len() == 0 {
        vstd::seq_lib::to_multiset_len(ps.map_values(f));
        assert(m.len() == 0);
        vstd::multiset::lemma_multiset_empty_len(m);
        assert(m =~= Multiset::<Seq<char>>::empty());
        assert(key_parts(m, h) =~= Set::<Seq<char>>::empty());
        return;
    }
    let pre = ps.drop_last();
    lemma_scan_by_multiset(pre, s, f, h);
    let m0 = pre.map_values(f).to_multiset();
    let x = f(ps.last());
    assert(lower_name(ps.last()) == h(x));
    assert(ps.map_values(f) =~= pre.map_values(f).push(x));
    vstd::seq_lib::to_multiset_build(pre.map_values(f), x);
    assert(m =~= m0.insert(x));
    assert forall|y: Seq<char>| #[trigger] m.count(y) == m0.count(y) + (if y == x { 1int } else { 0int }) by {}
    match scan_parts(pre, s) {
        Err(_) => {
            assert(!keys_ok(m0, h));
            let y = choose|y: Seq<char>|
                !(key_parts(m0, h).contains(y) ==> key_for_upper_name(upper_name(h(y))) is Some
                    && m0.count(y) == 1 && (forall|z: Seq<char>| #[trigger] key_parts(m0, h).contains(z) ==> z == y));
            assert(key_parts(m0, h).contains(y));
            assert(key_parts(m, h).contains(y));
            if key_for_upper_name(upper_name(h(y))) is Some && m0.count(y) == 1 {
                let z = choose|z: Seq<char>| key_parts(m0, h).contains(z) && z != y;
                assert(key_parts(m, h).contains(z));
            }
        },
        Ok(st) => {
            let l = h(x);
            if is_modifier_name(l) {
                assert(key_parts(m, h) =~= key_parts(m0, h));
                assert forall|y: Seq<char>| #[trigger] key_parts(m, h).contains(y) implies m.count(y)
                    == m0.count(y) by {}
                assert(keys_ok(m, h) == keys_ok(m0, h));
                assert(has_ctrl(m, h) == (has_ctrl(m0, h) || is_ctrl_name(l)));
                assert(has_alt(m, h) == (has_alt(m0, h) || is_alt_name(l)));
                assert(has_shift(m, h) == (has_shift(m0, h) || is_shift_name(l)));
                assert(has_meta(m, h) == (has_meta(m0, h) || is_meta_name(l)));
            } else {
                assert(!is_ctrl_name(l) && !is_alt_name(l) && !is_shift_name(l) && !is_meta_name(l));
                assert(has_ctrl(m, h) == has_ctrl(m0, h));
                assert(has_alt(m, h) == has_alt(m0, h));
                assert(has_shift(m, h) == has_shift(m0, h));
                assert(has_meta(m, h) == has_meta(m0, h));
                assert(key_parts(m, h).contains(x));
                if st.4 is Some {
                    assert(!key_parts(m0, h).is_empty());
                    let y = key_parts(m0, h).choose();
                    assert(key_parts(m0, h).contains(y));
                    assert(key_parts(m, h).contains(y));
                    if y == x {
                        assert(m.count(x) >= 2);
                    }
                    assert(!keys_ok(m, h));
                } else {
                    if !key_parts(m0, h).is_empty() {
                        let y = key_parts(m0, h).choose();
                        assert(key_parts(m0, h).contains(y));
                    }
                    assert(key_parts(m0, h) =~= Set::<Seq<char>>::empty());
                    assert(m0.count(x) == 0);
                    assert(key_parts(m, h) =~= set![x]);
                    assert(key_parts(m, h).choose() == x);
                    assert(m.count(x) == 1);
                }
            }
        },
    }
}

/// What parsing gives depends on the parts' images under `f` alone, as a
/// multiset: two strings whose parts have the same images, in any order,
/// either both fail or both give the same chord.
proof fn lemma_parse_by_images(
    s1: Seq<char>,
    s2: Seq<char>,
    f: spec_fn(Seq<char>) -> Seq<char>,
    h: spec_fn(Seq<char>) -> Seq<char>,
)
    requires
        forall|p: Seq<char>| #[trigger] lower_name(p) == h(f(p)),
        hotkey_parts(s1).map_values(f).to_multiset() == hotkey_parts(s2).map_values(f).to_multiset(),
    ensures
        spec_parse_hotkey(s1) is Ok == spec_parse_hotkey(s2) is Ok,
        spec_parse_hotkey(s1) is Ok ==> spec_parse_hotkey(s1) == spec_parse_hotkey(s2),
{
    broadcast use vstd::seq_lib::to_multiset_len;

    lemma_scan_by_multiset(hotkey_parts(s1), s1, f, h);
    lemma_scan_by_multiset(hotkey_parts(s2), s2, f, h);
    assert(hotkey_parts(s1).len() == hotkey_parts(s1).map_values(f).to_multiset().len());
    assert(hotkey_parts(s2).len() == hotkey_parts(s2).map_values(f).to_multiset().len());
}

/// A lowercase part occurs among the parts of `s` exactly when some part
/// lowercases to it.
proof fn lemma_lowered_part_occurs(s: Seq<char>, y: Seq<char>)
    ensures
        (hotkey_parts(s).map_values(|p: Seq<char>| lower_name(p)).to_multiset().count(y) > 0) == (exists|
            i: int,
        | 0 <= i < hotkey_parts(s).len() && #[trigger] lower_name(hotkey_parts(s)[i]) == y),
{
    let ps = hotkey_parts(s);
    let ls = ps.map_values(|p: Seq<char>| lower_name(p));
    vstd::seq_lib::to_multiset_contains(ls, y);
    if ls.contains(y) {
        let j = choose|j: int| 0 <= j < ls.len() && ls[j] == y;
        assert(lower_name(ps[j]) == y);
    }
    if exists|i: int| 0 <= i < ps.len() && #[trigger] lower_name(ps[i]) == y {
        let i = choose|i: int| 0 <= i < ps.len() && #[trigger] lower_name(ps[i]) == y;
        assert(ls[i] == y);
    }
}

/// A parsed chord requires a modifier exactly when some part of the string
/// names it, in any case: `ctrl` or `control`; `alt`; `shift`; `super`,
/// `win`, `meta` or `cmd`. Its key is the key that a part naming no
/// modifier names.
pub proof fn lemma_parsed_chord_follows_its_parts(s: Seq<char>)
    ensures
        spec_parse_hotkey(s) matches Ok(c) ==> {
            let ps = hotkey_parts(s);
            &&& c.ctrl == exists|i: int|
                0 <= i < ps.len() && (#[trigger] lower_name(ps[i]) == seq!['c', 't', 'r', 'l']
                    || lower_name(ps[i]) == seq!['c', 'o', 'n', 't', 'r', 'o', 'l'])
            &&& c.alt == exists|i: int|
                0 <= i < ps.len() && #[trigger] lower_name(ps[i]) == seq!['a', 'l', 't']
            &&& c.shift == exists|i: int|
                0 <= i < ps.len() && #[trigger] lower_name(ps[i]) == seq!['s', 'h', 'i', 'f', 't']
            &&& c.meta == exists|i: int|
                0 <= i < ps.len() && (#[trigger] lower_name(ps[i]) == seq!['s', 'u', 'p', 'e', 'r']
                    || lower_name(ps[i]) == seq!['w', 'i', 'n'] || lower_name(ps[i]) == seq![
                    'm',
                    'e',
                    't',
                    'a',
                ] || lower_name(ps[i]) == seq!['c', 'm', 'd'])
            &&& exists|i: int|
                0 <= i < ps.len() && !is_modifier_name(#[trigger] lower_name(ps[i]))
                    && key_for_upper_name(upper_name(lower_name(ps[i]))) == Some(c.key)
        },
{
    let ps = hotkey_parts(s);
    let f = |p: Seq<char>| lower_name(p);
    let h = |q: Seq<char>| q;
    lemma_scan_by_multiset(ps, s, f, h);
    let m = ps.map_values(f).to_multiset();
    assert(ps.map_values(f) == ps.map_values(|p: Seq<char>| lower_name(p)));
    if spec_parse_hotkey(s) is Ok {
        let c = spec_parse_hotkey(s)->Ok_0;
        assert forall|y: Seq<char>| (m.count(y) > 0) == (exists|i: int|
            0 <= i < ps.len() && #[trigger] lower_name(ps[i]) == y) by {
            lemma_lowered_part_occurs(s, y);
        }
        if c.ctrl {
            let y = choose|y: Seq<char>| m.count(y) > 0 && #[trigger] is_ctrl_name(h(y));
            let i = choose|i: int| 0 <= i < ps.len() && #[trigger] lower_name(ps[i]) == y;
        }
        if exists|i: int|
            0 <= i < ps.len() && (#[trigger] lower_name(ps[i]) == seq!['c', 't', 'r', 'l']
                || lower_name(ps[i]) == seq!['c', 'o', 'n', 't', 'r', 'o', 'l']) {
            let i = choose|i: int|
                0 <= i < ps.len() && (#[trigger] lower_name(ps[i]) == seq!['c', 't', 'r', 'l']
                    || lower_name(ps[i]) == seq!['c', 'o', 'n', 't', 'r', 'o', 'l']);
            assert(m.count(lower_name(ps[i])) > 0);
            assert(is_ctrl_name(h(lower_name(ps[i]))));
        }
        if c.alt {
            let y = choose|y: Seq<char>| m.count(y) > 0 && #[trigger] is_alt_name(h(y));
            let i = choose|i: int| 0 <= i < ps.len() && #[trigger] lower_name(ps[i]) == y;
        }
        if exists|i: int| 0 <= i < ps.len() && #[trigger] lower_name(ps[i]) == seq!['a', 'l', 't'] {
            let i = choose|i: int| 0 <= i < ps.len() && #[trigger] lower_name(ps[i]) == seq!['a', 'l', 't'];
            assert(m.count(lower_name(ps[i])) > 0);
            assert(is_alt_name(h(lower_name(ps[i]))));
        }
        if c.shift {
            let y = choose|y: Seq<char>| m.count(y) > 0 && #[trigger] is_shift_name(h(y));
            let i = choose|i: int| 0 <= i < ps.len() && #[trigger] lower_name(ps[i]) == y;
        }
        if exists|i: int|
            0 <= i < ps.len() && #[trigger] lower_name(ps[i]) == seq!['s', 'h', 'i', 'f', 't'] {
            let i = choose|i: int|
                0 <= i < ps.len() && #[trigger] lower_name(ps[i]) == seq!['s', 'h', 'i', 'f', 't'];
            assert(m.count(lower_name(ps[i])) > 0);
            assert(is_shift_name(h(lower_name(ps[i]))));
        }
        if c.meta {
            let y = choose|y: Seq<char>| m.count(y) > 0 && #[trigger] is_meta_name(h(y));
            let i = choose|i: int| 0 <= i < ps.len() && #[trigger] lower_name(ps[i]) == y;
        }
        if exists|i: int|
            0 <= i < ps.len() && (#[trigger] lower_name(ps[i]) == seq!['s', 'u', 'p', 'e', 'r']
                || lower_name(ps[i]) == seq!['w', 'i', 'n'] || lower_name(ps[i]) == seq![
                'm',
                'e',
                't',
                'a',
            ] || lower_name(ps[i]) == seq!['c', 'm', 'd']) {
            let i = choose|i: int|
                0 <= i < ps.len() && (#[trigger] lower_name(ps[i]) == seq!['s', 'u', 'p', 'e', 'r']
                    || lower_name(ps[i]) == seq!['w', 'i', 'n'] || lower_name(ps[i]) == seq![
                    'm',
                    'e',
                    't',
                    'a',
                ] || lower_name(ps[i]) == seq!['c', 'm', 'd']);
            assert(m.count(lower_name(ps[i])) > 0);
            assert(is_meta_name(h(lower_name(ps[i]))));
        }
        let y = key_parts(m, h).choose();
        assert(!key_parts(m, h).is_empty());
        assert(key_parts(m, h).contains(y));
        let i = choose|i: int| 0 <= i < ps.len() && #[trigger] lower_name(ps[i]) == y;
        assert(!is_modifier_name(lower_name(ps[i])));
    }
}

/// The parts of `s`, lowercased, without their order.
pub open spec fn lowered_parts(s: Seq<char>) -> Multiset<Seq<char>> {
    hotkey_parts(s).map_values(|p: Seq<char>| lower_name(p)).to_multiset()
}

/// Parsing depends only on the parts, trimmed and lowercased, as a
/// multiset: two strings with the same such parts either both fail or both
/// give the same chord.
pub proof fn lemma_parse_hotkey_depends_on_lowered_parts(s1: Seq<char>, s2: Seq<char>)
    requires
        lowered_parts(s1) == lowered_parts(s2),
    ensures
        spec_parse_hotkey(s1) is Ok == spec_parse_hotkey(s2) is Ok,
        spec_parse_hotkey(s1) is Ok ==> spec_parse_hotkey(s1) == spec_parse_hotkey(s2),
{
    lemma_parse_by_images(s1, s2, |p: Seq<char>| lower_name(p), |q: Seq<char>| q);
}

/// A part with the case of its ASCII letters folded away, when it is ASCII
/// text; other parts as they are.
pub open spec fn fold_case(p: Seq<char>) -> Seq<char> {
    if all_ascii(p) {
        p.map_values(|c: char| ascii_lower(c))
    } else {
        p
    }
}

/// The parts of `s`, trimmed and with ASCII case folded, without their
/// order.
pub open spec fn folded_parts(s: Seq<char>) -> Multiset<Seq<char>> {
    hotkey_parts(s).map_values(|p: Seq<char>| fold_case(p)).to_multiset()
}

/// The lowercase form of a part, from its folded form.
pub open spec fn lower_of_folded(q: Seq<char>) -> Seq<char> {
    if all_ascii(q) {
        q
    } else {
        unicode_lowercase(q)
    }
}

proof fn lemma_lower_through_fold(p: Seq<char>)
    ensures
        lower_name(p) == lower_of_folded(fold_case(p)),
{
    if all_ascii(p) {
        let q = p.map_values(|c: char| ascii_lower(c));
        assert forall|i: int| 0 <= i < q.len() implies (q[i] as u32) < 128 by {
            assert((p[i] as u32) < 128);
        }
    }
}

/// Parsing is indifferent to the order of the parts, to whitespace around
/// them and to the case of the letters of ASCII parts: two strings whose
/// parts, so normalised, are the same multiset (for example
/// `"Ctrl+Alt+F"` and `" alt + CTRL+f"`) either both fail or both give the
/// same chord.
pub proof fn lemma_parse_hotkey_ignores_order_case_and_spacing(s1: Seq<char>, s2: Seq<char>)
    requires
        folded_parts(s1) == folded_parts(s2),
    ensures
        spec_parse_hotkey(s1) is Ok == spec_parse_hotkey(s2) is Ok,
        spec_parse_hotkey(s1) is Ok ==> spec_parse_hotkey(s1) == spec_parse_hotkey(s2),
{
    let f = |p: Seq<char>| fold_case(p);
    let h = |q: Seq<char>| lower_of_folded(q);
    assert forall|p: Seq<char>| #[trigger] lower_name(p) == h(f(p)) by {
        lemma_lower_through_fold(p);
    }
    lemma_parse_by_images(s1, s2, f, h);
}

/// Lowercasing a name ignores the case of its ASCII letters.
pub proof fn lemma_lower_name_ignores_ascii_case(a: Seq<char>, b: Seq<char>)
    requires
        all_ascii(a),
        all_ascii(b),
        crate::tls::eq_ignore_ascii_case(a, b),
    ensures
        lower_name(a) == lower_name(b),
{
    assert(a.map_values(|c: char| ascii_lower(c)) =~= b.map_values(|c: char| ascii_lower(c)));
}

} // verus!
