//! The canonical key-code table shared by server and client: the server
//! encodes a captured key as a Linux evdev-style code, the client decodes a
//! code into the key it injects on its own platform.

use vstd::prelude::*;

verus! {

/// A key as reported by the server's input capture (one variant per key
/// `rdev` reports; `Unknown` carries the platform's raw code).
#[derive(Clone, Copy, Debug, PartialEq, Eq, Structural)]
pub enum CaptureKey {
    Alt,
    AltGr,
    Backspace,
    CapsLock,
    ControlLeft,
    ControlRight,
    Delete,
    DownArrow,
    End,
    Escape,
    F1,
    F10,
    F11,
    F12,
    F2,
    F3,
    F4,
    F5,
    F6,
    F7,
    F8,
    F9,
    Home,
    LeftArrow,
    MetaLeft,
    MetaRight,
    PageDown,
    PageUp,
    Return,
    RightArrow,
    ShiftLeft,
    ShiftRight,
    Space,
    Tab,
    UpArrow,
    PrintScreen,
    ScrollLock,
    Pause,
    NumLock,
    BackQuote,
    Num1,
    Num2,
    Num3,
    Num4,
    Num5,
    Num6,
    Num7,
    Num8,
    Num9,
    Num0,
    Minus,
    Equal,
    KeyQ,
    KeyW,
    KeyE,
    KeyR,
    KeyT,
    KeyY,
    KeyU,
    KeyI,
    KeyO,
    KeyP,
    LeftBracket,
    RightBracket,
    KeyA,
    KeyS,
    KeyD,
    KeyF,
    KeyG,
    KeyH,
    KeyJ,
    KeyK,
    KeyL,
    SemiColon,
    Quote,
    BackSlash,
    IntlBackslash,
    KeyZ,
    KeyX,
    KeyC,
    KeyV,
    KeyB,
    KeyN,
    KeyM,
    Comma,
    Dot,
    Slash,
    Insert,
    KpReturn,
    KpMinus,
    KpPlus,
    KpMultiply,
    KpDivide,
    Kp0,
    Kp1,
    Kp2,
    Kp3,
    Kp4,
    Kp5,
    Kp6,
    Kp7,
    Kp8,
    Kp9,
    KpDelete,
    Function,
    Unknown(u32),
}

impl CaptureKey {
    /// Keys of the canonical table (every key but `Unknown`).
    pub open spec fn is_canonical(self) -> bool {
        !(self is Unknown)
    }
}

/// The platform the client injects on; a few keys exist only on some.
#[derive(Clone, Copy, Debug, PartialEq, Eq, Structural)]
pub enum Platform {
    Windows,
    MacOs,
    /// Linux and the other Unix systems.
    Linux,
}

/// A key the client can inject (one variant per `enigo` key it uses).
#[derive(Clone, Copy, Debug, PartialEq, Eq, Structural)]
pub enum ClientKey {
    Escape,
    Unicode(char),
    Backspace,
    Tab,
    Return,
    LControl,
    RControl,
    LShift,
    RShift,
    Alt,
    Space,
    CapsLock,
    F1,
    F2,
    F3,
    F4,
    F5,
    F6,
    F7,
    F8,
    F9,
    F10,
    F11,
    F12,
    F13,
    F14,
    F15,
    F24,
    Home,
    End,
    PageUp,
    PageDown,
    UpArrow,
    DownArrow,
    LeftArrow,
    RightArrow,
    Delete,
    Insert,
    Help,
    Meta,
    Function,
    Numpad0,
    Numpad1,
    Numpad2,
    Numpad3,
    Numpad4,
    Numpad5,
    Numpad6,
    Numpad7,
    Numpad8,
    Numpad9,
    Multiply,
    Subtract,
    Add,
    Divide,
    Decimal,
    Numlock,
    Scroll,
    ScrollLock,
    Print,
    Pause,
}

/// The canonical code of a captured key; `Unknown(n)` becomes `0x1_0000 + n`.
pub open spec fn canonical_code(key: CaptureKey) -> u32 {
    match key {
        CaptureKey::Escape => 1,
        CaptureKey::Num1 => 2,
        CaptureKey::Num2 => 3,
        CaptureKey::Num3 => 4,
        CaptureKey::Num4 => 5,
        CaptureKey::Num5 => 6,
        CaptureKey::Num6 => 7,
        CaptureKey::Num7 => 8,
        CaptureKey::Num8 => 9,
        CaptureKey::Num9 => 10,
        CaptureKey::Num0 => 11,
        CaptureKey::Minus => 12,
        CaptureKey::Equal => 13,
        CaptureKey::Backspace => 14,
        CaptureKey::Tab => 15,
        CaptureKey::KeyQ => 16,
        CaptureKey::KeyW => 17,
        CaptureKey::KeyE => 18,
        CaptureKey::KeyR => 19,
        CaptureKey::KeyT => 20,
        CaptureKey::KeyY => 21,
        CaptureKey::KeyU => 22,
        CaptureKey::KeyI => 23,
        CaptureKey::KeyO => 24,
        CaptureKey::KeyP => 25,
        CaptureKey::LeftBracket => 26,
        CaptureKey::RightBracket => 27,
        CaptureKey::Return => 28,
        CaptureKey::ControlLeft => 29,
        CaptureKey::KeyA => 30,
        CaptureKey::KeyS => 31,
        CaptureKey::KeyD => 32,
        CaptureKey::KeyF => 33,
        CaptureKey::KeyG => 34,
        CaptureKey::KeyH => 35,
        CaptureKey::KeyJ => 36,
        CaptureKey::KeyK => 37,
        CaptureKey::KeyL => 38,
        CaptureKey::SemiColon => 39,
        CaptureKey::Quote => 40,
        CaptureKey::BackQuote => 41,
        CaptureKey::ShiftLeft => 42,
        CaptureKey::BackSlash => 43,
        CaptureKey::KeyZ => 44,
        CaptureKey::KeyX => 45,
        CaptureKey::KeyC => 46,
        CaptureKey::KeyV => 47,
        CaptureKey::KeyB => 48,
        CaptureKey::KeyN => 49,
        CaptureKey::KeyM => 50,
        CaptureKey::Comma => 51,
        CaptureKey::Dot => 52,
        CaptureKey::Slash => 53,
        CaptureKey::ShiftRight => 54,
        CaptureKey::KpMultiply => 55,
        CaptureKey::Alt => 56,
        CaptureKey::Space => 57,
        CaptureKey::CapsLock => 58,
        CaptureKey::F1 => 59,
        CaptureKey::F2 => 60,
        CaptureKey::F3 => 61,
        CaptureKey::F4 => 62,
        CaptureKey::F5 => 63,
        CaptureKey::F6 => 64,
        CaptureKey::F7 => 65,
        CaptureKey::F8 => 66,
        CaptureKey::F9 => 67,
        CaptureKey::F10 => 68,
        CaptureKey::NumLock => 69,
        CaptureKey::ScrollLock => 70,
        CaptureKey::Kp7 => 71,
        CaptureKey::Kp8 => 72,
        CaptureKey::Kp9 => 73,
        CaptureKey::KpMinus => 74,
        CaptureKey::Kp4 => 75,
        CaptureKey::Kp5 => 76,
        CaptureKey::Kp6 => 77,
        CaptureKey::KpPlus => 78,
        CaptureKey::Kp1 => 79,
        CaptureKey::Kp2 => 80,
        CaptureKey::Kp3 => 81,
        CaptureKey::Kp0 => 82,
        CaptureKey::KpDelete => 83,
        CaptureKey::IntlBackslash => 86,
        CaptureKey::F11 => 87,
        CaptureKey::F12 => 88,
        CaptureKey::KpReturn => 96,
        CaptureKey::ControlRight => 97,
        CaptureKey::KpDivide => 98,
        CaptureKey::PrintScreen => 99,
        CaptureKey::AltGr => 100,
        CaptureKey::Home => 102,
        CaptureKey::UpArrow => 103,
        CaptureKey::PageUp => 104,
        CaptureKey::LeftArrow => 105,
        CaptureKey::RightArrow => 106,
        CaptureKey::End => 107,
        CaptureKey::DownArrow => 108,
        CaptureKey::PageDown => 109,
        CaptureKey::Insert => 110,
        CaptureKey::Delete => 111,
        CaptureKey::Pause => 119,
        CaptureKey::MetaLeft => 125,
        CaptureKey::MetaRight => 126,
        CaptureKey::Function => 464,
        CaptureKey::Unknown(n) => (0x10000 + n) as u32,
    }
}

/// Maps a captured key to its canonical (Linux evdev-derived) code.
pub fn key_to_code(key: CaptureKey) -> (code: u32)
    requires
        key matches CaptureKey::Unknown(n) ==> n <= u32::MAX - 0x10000,
    ensures
        code == canonical_code(key),
{
    match key {
        CaptureKey::Escape => 1,
        CaptureKey::Num1 => 2,
        CaptureKey::Num2 => 3,
        CaptureKey::Num3 => 4,
        CaptureKey::Num4 => 5,
        CaptureKey::Num5 => 6,
        CaptureKey::Num6 => 7,
        CaptureKey::Num7 => 8,
        CaptureKey::Num8 => 9,
        CaptureKey::Num9 => 10,
        CaptureKey::Num0 => 11,
        CaptureKey::Minus => 12,
        CaptureKey::Equal => 13,
        CaptureKey::Backspace => 14,
        CaptureKey::Tab => 15,
        CaptureKey::KeyQ => 16,
        CaptureKey::KeyW => 17,
        CaptureKey::KeyE => 18,
        CaptureKey::KeyR => 19,
        CaptureKey::KeyT => 20,
        CaptureKey::KeyY => 21,
        CaptureKey::KeyU => 22,
        CaptureKey::KeyI => 23,
        CaptureKey::KeyO => 24,
        CaptureKey::KeyP => 25,
        CaptureKey::LeftBracket => 26,
        CaptureKey::RightBracket => 27,
        CaptureKey::Return => 28,
        CaptureKey::ControlLeft => 29,
        CaptureKey::KeyA => 30,
        CaptureKey::KeyS => 31,
        CaptureKey::KeyD => 32,
        CaptureKey::KeyF => 33,
        CaptureKey::KeyG => 34,
        CaptureKey::KeyH => 35,
        CaptureKey::KeyJ => 36,
        CaptureKey::KeyK => 37,
        CaptureKey::KeyL => 38,
        CaptureKey::SemiColon => 39,
        CaptureKey::Quote => 40,
        CaptureKey::BackQuote => 41,
        CaptureKey::ShiftLeft => 42,
        CaptureKey::BackSlash => 43,
        CaptureKey::KeyZ => 44,
        CaptureKey::KeyX => 45,
        CaptureKey::KeyC => 46,
        CaptureKey::KeyV => 47,
        CaptureKey::KeyB => 48,
        CaptureKey::KeyN => 49,
        CaptureKey::KeyM => 50,
        CaptureKey::Comma => 51,
        CaptureKey::Dot => 52,
        CaptureKey::Slash => 53,
        CaptureKey::ShiftRight => 54,
        CaptureKey::KpMultiply => 55,
        CaptureKey::Alt => 56,
        CaptureKey::Space => 57,
        CaptureKey::CapsLock => 58,
        CaptureKey::F1 => 59,
        CaptureKey::F2 => 60,
        CaptureKey::F3 => 61,
        CaptureKey::F4 => 62,
        CaptureKey::F5 => 63,
        CaptureKey::F6 => 64,
        CaptureKey::F7 => 65,
        CaptureKey::F8 => 66,
        CaptureKey::F9 => 67,
        CaptureKey::F10 => 68,
        CaptureKey::NumLock => 69,
        CaptureKey::ScrollLock => 70,
        CaptureKey::Kp7 => 71,
        CaptureKey::Kp8 => 72,
        CaptureKey::Kp9 => 73,
        CaptureKey::KpMinus => 74,
        CaptureKey::Kp4 => 75,
        CaptureKey::Kp5 => 76,
        CaptureKey::Kp6 => 77,
        CaptureKey::KpPlus => 78,
        CaptureKey::Kp1 => 79,
        CaptureKey::Kp2 => 80,
        CaptureKey::Kp3 => 81,
        CaptureKey::Kp0 => 82,
        CaptureKey::KpDelete => 83,
        CaptureKey::IntlBackslash => 86,
        CaptureKey::F11 => 87,
        CaptureKey::F12 => 88,
        CaptureKey::KpReturn => 96,
        CaptureKey::ControlRight => 97,
        CaptureKey::KpDivide => 98,
        CaptureKey::PrintScreen => 99,
        CaptureKey::AltGr => 100,
        CaptureKey::Home => 102,
        CaptureKey::UpArrow => 103,
        CaptureKey::PageUp => 104,
        CaptureKey::LeftArrow => 105,
        CaptureKey::RightArrow => 106,
        CaptureKey::End => 107,
        CaptureKey::DownArrow => 108,
        CaptureKey::PageDown => 109,
        CaptureKey::Insert => 110,
        CaptureKey::Delete => 111,
        CaptureKey::Pause => 119,
        CaptureKey::MetaLeft => 125,
        CaptureKey::MetaRight => 126,
        CaptureKey::Function => 464,
        CaptureKey::Unknown(n) => 0x10000 + n,
    }
}

// --- Keys that differ by platform ------------------------------------------

/// Numpad digit `d`: a numpad key on Windows, the digit character elsewhere.
pub open spec fn spec_numpad_digit(d: u8, platform: Platform) -> ClientKey {
    if platform == Platform::Windows {
        if d == 0 {
            ClientKey::Numpad0
        } else if d == 1 {
            ClientKey::Numpad1
        } else if d == 2 {
            ClientKey::Numpad2
        } else if d == 3 {
            ClientKey::Numpad3
        } else if d == 4 {
            ClientKey::Numpad4
        } else if d == 5 {
            ClientKey::Numpad5
        } else if d == 6 {
            ClientKey::Numpad6
        } else if d == 7 {
            ClientKey::Numpad7
        } else if d == 8 {
            ClientKey::Numpad8
        } else {
            ClientKey::Numpad9
        }
    } else {
        if d == 0 {
            ClientKey::Unicode('0')
        } else if d == 1 {
            ClientKey::Unicode('1')
        } else if d == 2 {
            ClientKey::Unicode('2')
        } else if d == 3 {
            ClientKey::Unicode('3')
        } else if d == 4 {
            ClientKey::Unicode('4')
        } else if d == 5 {
            ClientKey::Unicode('5')
        } else if d == 6 {
            ClientKey::Unicode('6')
        } else if d == 7 {
            ClientKey::Unicode('7')
        } else if d == 8 {
            ClientKey::Unicode('8')
        } else {
            ClientKey::Unicode('9')
        }
    }
}

fn numpad_digit(d: u8, platform: Platform) -> (k: ClientKey)
    ensures
        k == spec_numpad_digit(d, platform),
{
    match platform {
        Platform::Windows => match d {
            0 => ClientKey::Numpad0,
            1 => ClientKey::Numpad1,
            2 => ClientKey::Numpad2,
            3 => ClientKey::Numpad3,
            4 => ClientKey::Numpad4,
            5 => ClientKey::Numpad5,
            6 => ClientKey::Numpad6,
            7 => ClientKey::Numpad7,
            8 => ClientKey::Numpad8,
            _ => ClientKey::Numpad9,
        },
        _ => match d {
            0 => ClientKey::Unicode('0'),
            1 => ClientKey::Unicode('1'),
            2 => ClientKey::Unicode('2'),
            3 => ClientKey::Unicode('3'),
            4 => ClientKey::Unicode('4'),
            5 => ClientKey::Unicode('5'),
            6 => ClientKey::Unicode('6'),
            7 => ClientKey::Unicode('7'),
            8 => ClientKey::Unicode('8'),
            _ => ClientKey::Unicode('9'),
        },
    }
}

pub open spec fn spec_numpad_multiply(platform: Platform) -> ClientKey {
    if platform == Platform::Windows { ClientKey::Multiply } else { ClientKey::Unicode('*') }
}

fn numpad_multiply(platform: Platform) -> (k: ClientKey)
    ensures
        k == spec_numpad_multiply(platform),
{
    match platform {
        Platform::Windows => ClientKey::Multiply,
        _ => ClientKey::Unicode('*'),
    }
}

pub open spec fn spec_numpad_minus(platform: Platform) -> ClientKey {
    if platform == Platform::Windows { ClientKey::Subtract } else { ClientKey::Unicode('-') }
}

fn numpad_minus(platform: Platform) -> (k: ClientKey)
    ensures
        k == spec_numpad_minus(platform),
{
    match platform {
        Platform::Windows => ClientKey::Subtract,
        _ => ClientKey::Unicode('-'),
    }
}

pub open spec fn spec_numpad_plus(platform: Platform) -> ClientKey {
    if platform == Platform::Windows { ClientKey::Add } else { ClientKey::Unicode('+') }
}

fn numpad_plus(platform: Platform) -> (k: ClientKey)
    ensures
        k == spec_numpad_plus(platform),
{
    match platform {
        Platform::Windows => ClientKey::Add,
        _ => ClientKey::Unicode('+'),
    }
}

pub open spec fn spec_numpad_divide(platform: Platform) -> ClientKey {
    if platform == Platform::Windows { ClientKey::Divide } else { ClientKey::Unicode('/') }
}

fn numpad_divide(platform: Platform) -> (k: ClientKey)
    ensures
        k == spec_numpad_divide(platform),
{
    match platform {
        Platform::Windows => ClientKey::Divide,
        _ => ClientKey::Unicode('/'),
    }
}

/// Numpad Del/".": `Decimal` on Windows, the plain Delete key elsewhere.
pub open spec fn spec_numpad_delete(platform: Platform) -> ClientKey {
    if platform == Platform::Windows { ClientKey::Decimal } else { ClientKey::Delete }
}

fn numpad_delete(platform: Platform) -> (k: ClientKey)
    ensures
        k == spec_numpad_delete(platform),
{
    match platform {
        Platform::Windows => ClientKey::Decimal,
        _ => ClientKey::Delete,
    }
}

/// Scroll Lock: `Scroll` on Windows, `ScrollLock` on Linux, F14 on macOS.
pub open spec fn spec_scroll_lock_key(platform: Platform) -> ClientKey {
    match platform {
        Platform::Windows => ClientKey::Scroll,
        Platform::Linux => ClientKey::ScrollLock,
        Platform::MacOs => ClientKey::F14,
    }
}

fn scroll_lock_key(platform: Platform) -> (k: ClientKey)
    ensures
        k == spec_scroll_lock_key(platform),
{
    match platform {
        Platform::Windows => ClientKey::Scroll,
        Platform::Linux => ClientKey::ScrollLock,
        Platform::MacOs => ClientKey::F14,
    }
}

/// Print Screen: `Print`, or F13 on macOS.
pub open spec fn spec_print_screen_key(platform: Platform) -> ClientKey {
    if platform == Platform::MacOs { ClientKey::F13 } else { ClientKey::Print }
}

fn print_screen_key(platform: Platform) -> (k: ClientKey)
    ensures
        k == spec_print_screen_key(platform),
{
    match platform {
        Platform::MacOs => ClientKey::F13,
        _ => ClientKey::Print,
    }
}

/// Pause: `Pause`, or F15 on macOS.
pub open spec fn spec_pause_key(platform: Platform) -> ClientKey {
    if platform == Platform::MacOs { ClientKey::F15 } else { ClientKey::Pause }
}

fn pause_key(platform: Platform) -> (k: ClientKey)
    ensures
        k == spec_pause_key(platform),
{
    match platform {
        Platform::MacOs => ClientKey::F15,
        _ => ClientKey::Pause,
    }
}

/// Insert: `Insert`, or the Help key (same position) on macOS.
pub open spec fn spec_insert_key(platform: Platform) -> ClientKey {
    if platform == Platform::MacOs { ClientKey::Help } else { ClientKey::Insert }
}

fn insert_key(platform: Platform) -> (k: ClientKey)
    ensures
        k == spec_insert_key(platform),
{
    match platform {
        Platform::MacOs => ClientKey::Help,
        _ => ClientKey::Insert,
    }
}

/// Fn: a real key only on macOS; elsewhere the rarely bound F24.
pub open spec fn spec_function_key(platform: Platform) -> ClientKey {
    if platform == Platform::MacOs { ClientKey::Function } else { ClientKey::F24 }
}

fn function_key(platform: Platform) -> (k: ClientKey)
    ensures
        k == spec_function_key(platform),
{
    match platform {
        Platform::MacOs => ClientKey::Function,
        _ => ClientKey::F24,
    }
}

/// The key the client injects on `platform` for a canonical code, or `None`
/// for codes outside the table (in particular every code `>= 0x1_0000`,
/// which the server uses for keys it could not name).
pub open spec fn spec_code_to_key(code: u32, platform: Platform) -> Option<ClientKey> {
    if code >= 0x10000 {
        None
    } else {
        match code {
            1 => Some(ClientKey::Escape),
            2 => Some(ClientKey::Unicode('1')),
            3 => Some(ClientKey::Unicode('2')),
            4 => Some(ClientKey::Unicode('3')),
            5 => Some(ClientKey::Unicode('4')),
            6 => Some(ClientKey::Unicode('5')),
            7 => Some(ClientKey::Unicode('6')),
            8 => Some(ClientKey::Unicode('7')),
            9 => Some(ClientKey::Unicode('8')),
            10 => Some(ClientKey::Unicode('9')),
            11 => Some(ClientKey::Unicode('0')),
            12 => Some(ClientKey::Unicode('-')),
            13 => Some(ClientKey::Unicode('=')),
            14 => Some(ClientKey::Backspace),
            15 => Some(ClientKey::Tab),
            16 => Some(ClientKey::Unicode('q')),
            17 => Some(ClientKey::Unicode('w')),
            18 => Some(ClientKey::Unicode('e')),
            19 => Some(ClientKey::Unicode('r')),
            20 => Some(ClientKey::Unicode('t')),
            21 => Some(ClientKey::Unicode('y')),
            22 => Some(ClientKey::Unicode('u')),
            23 => Some(ClientKey::Unicode('i')),
            24 => Some(ClientKey::Unicode('o')),
            25 => Some(ClientKey::Unicode('p')),
            26 => Some(ClientKey::Unicode('[')),
            27 => Some(ClientKey::Unicode(']')),
            28 => Some(ClientKey::Return),
            29 => Some(ClientKey::LControl),
            30 => Some(ClientKey::Unicode('a')),
            31 => Some(ClientKey::Unicode('s')),
            32 => Some(ClientKey::Unicode('d')),
            33 => Some(ClientKey::Unicode('f')),
            34 => Some(ClientKey::Unicode('g')),
            35 => Some(ClientKey::Unicode('h')),
            36 => Some(ClientKey::Unicode('j')),
            37 => Some(ClientKey::Unicode('k')),
            38 => Some(ClientKey::Unicode('l')),
            39 => Some(ClientKey::Unicode(';')),
            40 => Some(ClientKey::Unicode('\'')),
            41 => Some(ClientKey::Unicode('`')),
            42 => Some(ClientKey::LShift),
            43 => Some(ClientKey::Unicode('\\')),
            44 => Some(ClientKey::Unicode('z')),
            45 => Some(ClientKey::Unicode('x')),
            46 => Some(ClientKey::Unicode('c')),
            47 => Some(ClientKey::Unicode('v')),
            48 => Some(ClientKey::Unicode('b')),
            49 => Some(ClientKey::Unicode('n')),
            50 => Some(ClientKey::Unicode('m')),
            51 => Some(ClientKey::Unicode(',')),
            52 => Some(ClientKey::Unicode('.')),
            53 => Some(ClientKey::Unicode('/')),
            54 => Some(ClientKey::RShift),
            55 => Some(spec_numpad_multiply(platform)),
            56 => Some(ClientKey::Alt),
            57 => Some(ClientKey::Space),
            58 => Some(ClientKey::CapsLock),
            59 => Some(ClientKey::F1),
            60 => Some(ClientKey::F2),
            61 => Some(ClientKey::F3),
            62 => Some(ClientKey::F4),
            63 => Some(ClientKey::F5),
            64 => Some(ClientKey::F6),
            65 => Some(ClientKey::F7),
            66 => Some(ClientKey::F8),
            67 => Some(ClientKey::F9),
            68 => Some(ClientKey::F10),
            69 => Some(ClientKey::Numlock),
            70 => Some(spec_scroll_lock_key(platform)),
            71 => Some(spec_numpad_digit(7, platform)),
            72 => Some(spec_numpad_digit(8, platform)),
            73 => Some(spec_numpad_digit(9, platform)),
            74 => Some(spec_numpad_minus(platform)),
            75 => Some(spec_numpad_digit(4, platform)),
            76 => Some(spec_numpad_digit(5, platform)),
            77 => Some(spec_numpad_digit(6, platform)),
            78 => Some(spec_numpad_plus(platform)),
            79 => Some(spec_numpad_digit(1, platform)),
            80 => Some(spec_numpad_digit(2, platform)),
            81 => Some(spec_numpad_digit(3, platform)),
            82 => Some(spec_numpad_digit(0, platform)),
            83 => Some(spec_numpad_delete(platform)),
            86 => Some(ClientKey::Unicode('\\')),
            87 => Some(ClientKey::F11),
            88 => Some(ClientKey::F12),
            96 => Some(ClientKey::Return),
            97 => Some(ClientKey::RControl),
            98 => Some(spec_numpad_divide(platform)),
            99 => Some(spec_print_screen_key(platform)),
            100 => Some(ClientKey::Alt),
            102 => Some(ClientKey::Home),
            103 => Some(ClientKey::UpArrow),
            104 => Some(ClientKey::PageUp),
            105 => Some(ClientKey::LeftArrow),
            106 => Some(ClientKey::RightArrow),
            107 => Some(ClientKey::End),
            108 => Some(ClientKey::DownArrow),
            109 => Some(ClientKey::PageDown),
            110 => Some(spec_insert_key(platform)),
            111 => Some(ClientKey::Delete),
            119 => Some(spec_pause_key(platform)),
            125 => Some(ClientKey::Meta),
            126 => Some(ClientKey::Meta),
            464 => Some(spec_function_key(platform)),
            _ => None,
        }
    }
}

/// Reverse of `key_to_code`: maps a canonical code to the key injected on
/// `platform`.
pub fn code_to_key(code: u32, platform: Platform) -> (key: Option<ClientKey>)
    ensures
        key == spec_code_to_key(code, platform),
        code >= 0x10000 ==> key is None,
{
    if code >= 0x10000 {
        return None;
    }
    match code {
        1 => Some(ClientKey::Escape),
        2 => Some(ClientKey::Unicode('1')),
        3 => Some(ClientKey::Unicode('2')),
        4 => Some(ClientKey::Unicode('3')),
        5 => Some(ClientKey::Unicode('4')),
        6 => Some(ClientKey::Unicode('5')),
        7 => Some(ClientKey::Unicode('6')),
        8 => Some(ClientKey::Unicode('7')),
        9 => Some(ClientKey::Unicode('8')),
        10 => Some(ClientKey::Unicode('9')),
        11 => Some(ClientKey::Unicode('0')),
        12 => Some(ClientKey::Unicode('-')),
        13 => Some(ClientKey::Unicode('=')),
        14 => Some(ClientKey::Backspace),
        15 => Some(ClientKey::Tab),
        16 => Some(ClientKey::Unicode('q')),
        17 => Some(ClientKey::Unicode('w')),
        18 => Some(ClientKey::Unicode('e')),
        19 => Some(ClientKey::Unicode('r')),
        20 => Some(ClientKey::Unicode('t')),
        21 => Some(ClientKey::Unicode('y')),
        22 => Some(ClientKey::Unicode('u')),
        23 => Some(ClientKey::Unicode('i')),
        24 => Some(ClientKey::Unicode('o')),
        25 => Some(ClientKey::Unicode('p')),
        26 => Some(ClientKey::Unicode('[')),
        27 => Some(ClientKey::Unicode(']')),
        28 => Some(ClientKey::Return),
        29 => Some(ClientKey::LControl),
        30 => Some(ClientKey::Unicode('a')),
        31 => Some(ClientKey::Unicode('s')),
        32 => Some(ClientKey::Unicode('d')),
        33 => Some(ClientKey::Unicode('f')),
        34 => Some(ClientKey::Unicode('g')),
        35 => Some(ClientKey::Unicode('h')),
        36 => Some(ClientKey::Unicode('j')),
        37 => Some(ClientKey::Unicode('k')),
        38 => Some(ClientKey::Unicode('l')),
        39 => Some(ClientKey::Unicode(';')),
        40 => Some(ClientKey::Unicode('\'')),
        41 => Some(ClientKey::Unicode('`')),
        42 => Some(ClientKey::LShift),
        43 => Some(ClientKey::Unicode('\\')),
        44 => Some(ClientKey::Unicode('z')),
        45 => Some(ClientKey::Unicode('x')),
        46 => Some(ClientKey::Unicode('c')),
        47 => Some(ClientKey::Unicode('v')),
        48 => Some(ClientKey::Unicode('b')),
        49 => Some(ClientKey::Unicode('n')),
        50 => Some(ClientKey::Unicode('m')),
        51 => Some(ClientKey::Unicode(',')),
        52 => Some(ClientKey::Unicode('.')),
        53 => Some(ClientKey::Unicode('/')),
        54 => Some(ClientKey::RShift),
        55 => Some(numpad_multiply(platform)),
        56 => Some(ClientKey::Alt),
        57 => Some(ClientKey::Space),
        58 => Some(ClientKey::CapsLock),
        59 => Some(ClientKey::F1),
        60 => Some(ClientKey::F2),
        61 => Some(ClientKey::F3),
        62 => Some(ClientKey::F4),
        63 => Some(ClientKey::F5),
        64 => Some(ClientKey::F6),
        65 => Some(ClientKey::F7),
        66 => Some(ClientKey::F8),
        67 => Some(ClientKey::F9),
        68 => Some(ClientKey::F10),
        69 => Some(ClientKey::Numlock),
        70 => Some(scroll_lock_key(platform)),
        71 => Some(numpad_digit(7, platform)),
        72 => Some(numpad_digit(8, platform)),
        73 => Some(numpad_digit(9, platform)),
        74 => Some(numpad_minus(platform)),
        75 => Some(numpad_digit(4, platform)),
        76 => Some(numpad_digit(5, platform)),
        77 => Some(numpad_digit(6, platform)),
        78 => Some(numpad_plus(platform)),
        79 => Some(numpad_digit(1, platform)),
        80 => Some(numpad_digit(2, platform)),
        81 => Some(numpad_digit(3, platform)),
        82 => Some(numpad_digit(0, platform)),
        83 => Some(numpad_delete(platform)),
        86 => Some(ClientKey::Unicode('\\')),
        87 => Some(ClientKey::F11),
        88 => Some(ClientKey::F12),
        96 => Some(ClientKey::Return),
        97 => Some(ClientKey::RControl),
        98 => Some(numpad_divide(platform)),
        99 => Some(print_screen_key(platform)),
        100 => Some(ClientKey::Alt),
        102 => Some(ClientKey::Home),
        103 => Some(ClientKey::UpArrow),
        104 => Some(ClientKey::PageUp),
        105 => Some(ClientKey::LeftArrow),
        106 => Some(ClientKey::RightArrow),
        107 => Some(ClientKey::End),
        108 => Some(ClientKey::DownArrow),
        109 => Some(ClientKey::PageDown),
        110 => Some(insert_key(platform)),
        111 => Some(ClientKey::Delete),
        119 => Some(pause_key(platform)),
        125 => Some(ClientKey::Meta),
        126 => Some(ClientKey::Meta),
        464 => Some(function_key(platform)),
        _ => None,
    }
}

// --- Laws of the table ------------------------------------------------------

/// Every canonical key has a nonzero code below `0x1_0000`; unknown keys get
/// codes at or above it.
pub proof fn lemma_canonical_code_range(key: CaptureKey)
    requires
        key matches CaptureKey::Unknown(n) ==> n <= u32::MAX - 0x10000,
    ensures
        key.is_canonical() ==> 0 < canonical_code(key) < 0x10000,
        !key.is_canonical() ==> canonical_code(key) >= 0x10000,
{
}

/// Distinct keys get distinct codes.
pub proof fn lemma_canonical_codes_unique(k1: CaptureKey, k2: CaptureKey)
    requires
        k1 matches CaptureKey::Unknown(n) ==> n <= u32::MAX - 0x10000,
        k2 matches CaptureKey::Unknown(n) ==> n <= u32::MAX - 0x10000,
        canonical_code(k1) == canonical_code(k2),
    ensures
        k1 == k2,
{
    match k1 {
        CaptureKey::Alt => {},
        CaptureKey::AltGr => {},
        CaptureKey::Backspace => {},
        CaptureKey::CapsLock => {},
        CaptureKey::ControlLeft => {},
        CaptureKey::ControlRight => {},
        CaptureKey::Delete => {},
        CaptureKey::DownArrow => {},
        CaptureKey::End => {},
        CaptureKey::Escape => {},
        CaptureKey::F1 => {},
        CaptureKey::F10 => {},
        CaptureKey::F11 => {},
        CaptureKey::F12 => {},
        CaptureKey::F2 => {},
        CaptureKey::F3 => {},
        CaptureKey::F4 => {},
        CaptureKey::F5 => {},
        CaptureKey::F6 => {},
        CaptureKey::F7 => {},
        CaptureKey::F8 => {},
        CaptureKey::F9 => {},
        CaptureKey::Home => {},
        CaptureKey::LeftArrow => {},
        CaptureKey::MetaLeft => {},
        CaptureKey::MetaRight => {},
        CaptureKey::PageDown => {},
        CaptureKey::PageUp => {},
        CaptureKey::Return => {},
        CaptureKey::RightArrow => {},
        CaptureKey::ShiftLeft => {},
        CaptureKey::ShiftRight => {},
        CaptureKey::Space => {},
        CaptureKey::Tab => {},
        CaptureKey::UpArrow => {},
        CaptureKey::PrintScreen => {},
        CaptureKey::ScrollLock => {},
        CaptureKey::Pause => {},
        CaptureKey::NumLock => {},
        CaptureKey::BackQuote => {},
        CaptureKey::Num1 => {},
        CaptureKey::Num2 => {},
        CaptureKey::Num3 => {},
        CaptureKey::Num4 => {},
        CaptureKey::Num5 => {},
        CaptureKey::Num6 => {},
        CaptureKey::Num7 => {},
        CaptureKey::Num8 => {},
        CaptureKey::Num9 => {},
        CaptureKey::Num0 => {},
        CaptureKey::Minus => {},
        CaptureKey::Equal => {},
        CaptureKey::KeyQ => {},
        CaptureKey::KeyW => {},
        CaptureKey::KeyE => {},
        CaptureKey::KeyR => {},
        CaptureKey::KeyT => {},
        CaptureKey::KeyY => {},
        CaptureKey::KeyU => {},
        CaptureKey::KeyI => {},
        CaptureKey::KeyO => {},
        CaptureKey::KeyP => {},
        CaptureKey::LeftBracket => {},
        CaptureKey::RightBracket => {},
        CaptureKey::KeyA => {},
        CaptureKey::KeyS => {},
        CaptureKey::KeyD => {},
        CaptureKey::KeyF => {},
        CaptureKey::KeyG => {},
        CaptureKey::KeyH => {},
        CaptureKey::KeyJ => {},
        CaptureKey::KeyK => {},
        CaptureKey::KeyL => {},
        CaptureKey::SemiColon => {},
        CaptureKey::Quote => {},
        CaptureKey::BackSlash => {},
        CaptureKey::IntlBackslash => {},
        CaptureKey::KeyZ => {},
        CaptureKey::KeyX => {},
        CaptureKey::KeyC => {},
        CaptureKey::KeyV => {},
        CaptureKey::KeyB => {},
        CaptureKey::KeyN => {},
        CaptureKey::KeyM => {},
        CaptureKey::Comma => {},
        CaptureKey::Dot => {},
        CaptureKey::Slash => {},
        CaptureKey::Insert => {},
        CaptureKey::KpReturn => {},
        CaptureKey::KpMinus => {},
        CaptureKey::KpPlus => {},
        CaptureKey::KpMultiply => {},
        CaptureKey::KpDivide => {},
        CaptureKey::Kp0 => {},
        CaptureKey::Kp1 => {},
        CaptureKey::Kp2 => {},
        CaptureKey::Kp3 => {},
        CaptureKey::Kp4 => {},
        CaptureKey::Kp5 => {},
        CaptureKey::Kp6 => {},
        CaptureKey::Kp7 => {},
        CaptureKey::Kp8 => {},
        CaptureKey::Kp9 => {},
        CaptureKey::KpDelete => {},
        CaptureKey::Function => {},
        CaptureKey::Unknown(_) => {},
    }
}

/// What the server encodes, the client decodes: every canonical key maps
/// back to a key to inject, on every platform; unknown keys are dropped by
/// the client.
pub proof fn lemma_codes_round_trip(key: CaptureKey, platform: Platform)
    requires
        key matches CaptureKey::Unknown(n) ==> n <= u32::MAX - 0x10000,
    ensures
        key.is_canonical() ==> spec_code_to_key(canonical_code(key), platform) is Some,
        !key.is_canonical() ==> spec_code_to_key(canonical_code(key), platform) is None,
{
}

// --- What each key stands for ------------------------------------------------

/// The character a key types when it is a character key: a letter key its
/// own lowercase letter, a digit key its digit, a punctuation key its
/// unshifted symbol (both backslash keys a backslash).
pub open spec fn typed_char(key: CaptureKey) -> Option<char> {
    match key {
        CaptureKey::KeyA => Some('a'),
        CaptureKey::KeyB => Some('b'),
        CaptureKey::KeyC => Some('c'),
        CaptureKey::KeyD => Some('d'),
        CaptureKey::KeyE => Some('e'),
        CaptureKey::KeyF => Some('f'),
        CaptureKey::KeyG => Some('g'),
        CaptureKey::KeyH => Some('h'),
        CaptureKey::KeyI => Some('i'),
        CaptureKey::KeyJ => Some('j'),
        CaptureKey::KeyK => Some('k'),
        CaptureKey::KeyL => Some('l'),
        CaptureKey::KeyM => Some('m'),
        CaptureKey::KeyN => Some('n'),
        CaptureKey::KeyO => Some('o'),
        CaptureKey::KeyP => Some('p'),
        CaptureKey::KeyQ => Some('q'),
        CaptureKey::KeyR => Some('r'),
        CaptureKey::KeyS => Some('s'),
        CaptureKey::KeyT => Some('t'),
        CaptureKey::KeyU => Some('u'),
        CaptureKey::KeyV => Some('v'),
        CaptureKey::KeyW => Some('w'),
        CaptureKey::KeyX => Some('x'),
        CaptureKey::KeyY => Some('y'),
        CaptureKey::KeyZ => Some('z'),
        CaptureKey::Num0 => Some('0'),
        CaptureKey::Num1 => Some('1'),
        CaptureKey::Num2 => Some('2'),
        CaptureKey::Num3 => Some('3'),
        CaptureKey::Num4 => Some('4'),
        CaptureKey::Num5 => Some('5'),
        CaptureKey::Num6 => Some('6'),
        CaptureKey::Num7 => Some('7'),
        CaptureKey::Num8 => Some('8'),
        CaptureKey::Num9 => Some('9'),
        CaptureKey::Minus => Some('-'),
        CaptureKey::Equal => Some('='),
        CaptureKey::LeftBracket => Some('['),
        CaptureKey::RightBracket => Some(']'),
        CaptureKey::SemiColon => Some(';'),
        CaptureKey::Quote => Some('\''),
        CaptureKey::BackQuote => Some('`'),
        CaptureKey::BackSlash => Some('\\'),
        CaptureKey::IntlBackslash => Some('\\'),
        CaptureKey::Comma => Some(','),
        CaptureKey::Dot => Some('.'),
        CaptureKey::Slash => Some('/'),
        _ => None,
    }
}

/// The key a client on `platform` presses for a captured key: a character
/// key types its character; a numpad key is the numpad key on Windows and
/// its character elsewhere (numpad Del is `Decimal` on Windows, Delete
/// elsewhere); every other key is the key of the same name, where macOS
/// stands in F13, F14, F15 and Help for Print Screen, Scroll Lock, Pause
/// and Insert, and Fn is F24 off macOS. Unknown keys are not injected.
pub open spec fn injected_key(key: CaptureKey, platform: Platform) -> Option<ClientKey> {
    let win = platform == Platform::Windows;
    let mac = platform == Platform::MacOs;
    match typed_char(key) {
        Some(c) => Some(ClientKey::Unicode(c)),
        None => match key {
            CaptureKey::Escape => Some(ClientKey::Escape),
            CaptureKey::Backspace => Some(ClientKey::Backspace),
            CaptureKey::Tab => Some(ClientKey::Tab),
            CaptureKey::Return => Some(ClientKey::Return),
            CaptureKey::KpReturn => Some(ClientKey::Return),
            CaptureKey::ControlLeft => Some(ClientKey::LControl),
            CaptureKey::ControlRight => Some(ClientKey::RControl),
            CaptureKey::ShiftLeft => Some(ClientKey::LShift),
            CaptureKey::ShiftRight => Some(ClientKey::RShift),
            CaptureKey::Alt => Some(ClientKey::Alt),
            CaptureKey::AltGr => Some(ClientKey::Alt),
            CaptureKey::MetaLeft => Some(ClientKey::Meta),
            CaptureKey::MetaRight => Some(ClientKey::Meta),
            CaptureKey::Space => Some(ClientKey::Space),
            CaptureKey::CapsLock => Some(ClientKey::CapsLock),
            CaptureKey::NumLock => Some(ClientKey::Numlock),
            CaptureKey::F1 => Some(ClientKey::F1),
            CaptureKey::F2 => Some(ClientKey::F2),
            CaptureKey::F3 => Some(ClientKey::F3),
            CaptureKey::F4 => Some(ClientKey::F4),
            CaptureKey::F5 => Some(ClientKey::F5),
            CaptureKey::F6 => Some(ClientKey::F6),
            CaptureKey::F7 => Some(ClientKey::F7),
            CaptureKey::F8 => Some(ClientKey::F8),
            CaptureKey::F9 => Some(ClientKey::F9),
            CaptureKey::F10 => Some(ClientKey::F10),
            CaptureKey::F11 => Some(ClientKey::F11),
            CaptureKey::F12 => Some(ClientKey::F12),
            CaptureKey::Home => Some(ClientKey::Home),
            CaptureKey::End => Some(ClientKey::End),
            CaptureKey::PageUp => Some(ClientKey::PageUp),
            CaptureKey::PageDown => Some(ClientKey::PageDown),
            CaptureKey::UpArrow => Some(ClientKey::UpArrow),
            CaptureKey::DownArrow => Some(ClientKey::DownArrow),
            CaptureKey::LeftArrow => Some(ClientKey::LeftArrow),
            CaptureKey::RightArrow => Some(ClientKey::RightArrow),
            CaptureKey::Delete => Some(ClientKey::Delete),
            CaptureKey::Insert => Some(if mac { ClientKey::Help } else { ClientKey::Insert }),
            CaptureKey::PrintScreen => Some(if mac { ClientKey::F13 } else { ClientKey::Print }),
            CaptureKey::ScrollLock => Some(if mac { ClientKey::F14 } else if win { ClientKey::Scroll } else { ClientKey::ScrollLock }),
            CaptureKey::Pause => Some(if mac { ClientKey::F15 } else { ClientKey::Pause }),
            CaptureKey::Function => Some(if mac { ClientKey::Function } else { ClientKey::F24 }),
            CaptureKey::Kp0 => Some(if win { ClientKey::Numpad0 } else { ClientKey::Unicode('0') }),
            CaptureKey::Kp1 => Some(if win { ClientKey::Numpad1 } else { ClientKey::Unicode('1') }),
            CaptureKey::Kp2 => Some(if win { ClientKey::Numpad2 } else { ClientKey::Unicode('2') }),
            CaptureKey::Kp3 => Some(if win { ClientKey::Numpad3 } else { ClientKey::Unicode('3') }),
            CaptureKey::Kp4 => Some(if win { ClientKey::Numpad4 } else { ClientKey::Unicode('4') }),
            CaptureKey::Kp5 => Some(if win { ClientKey::Numpad5 } else { ClientKey::Unicode('5') }),
            CaptureKey::Kp6 => Some(if win { ClientKey::Numpad6 } else { ClientKey::Unicode('6') }),
            CaptureKey::Kp7 => Some(if win { ClientKey::Numpad7 } else { ClientKey::Unicode('7') }),
            CaptureKey::Kp8 => Some(if win { ClientKey::Numpad8 } else { ClientKey::Unicode('8') }),
            CaptureKey::Kp9 => Some(if win { ClientKey::Numpad9 } else { ClientKey::Unicode('9') }),
            CaptureKey::KpMultiply => Some(if win { ClientKey::Multiply } else { ClientKey::Unicode('*') }),
            CaptureKey::KpMinus => Some(if win { ClientKey::Subtract } else { ClientKey::Unicode('-') }),
            CaptureKey::KpPlus => Some(if win { ClientKey::Add } else { ClientKey::Unicode('+') }),
            CaptureKey::KpDivide => Some(if win { ClientKey::Divide } else { ClientKey::Unicode('/') }),
            CaptureKey::KpDelete => Some(if win { ClientKey::Decimal } else { ClientKey::Delete }),
            _ => None,
        },
    }
}

/// What the client injects for a captured key is the key it stands for:
/// decoding the code the server sends for `key` gives, on every platform,
/// the key `injected_key` names (a letter key its own lowercase letter, a
/// digit key its digit, and so on), and nothing for an unknown key.
pub proof fn lemma_decoded_key_is_the_captured_key(key: CaptureKey, platform: Platform)
    requires
        key matches CaptureKey::Unknown(n) ==> n <= u32::MAX - 0x10000,
    ensures
        spec_code_to_key(canonical_code(key), platform) == injected_key(key, platform),
{
}

/// The captured key a canonical code stands for, if any.
pub open spec fn key_of_code(code: u32) -> Option<CaptureKey> {
    match code {
        1 => Some(CaptureKey::Escape),
        2 => Some(CaptureKey::Num1),
        3 => Some(CaptureKey::Num2),
        4 => Some(CaptureKey::Num3),
        5 => Some(CaptureKey::Num4),
        6 => Some(CaptureKey::Num5),
        7 => Some(CaptureKey::Num6),
        8 => Some(CaptureKey::Num7),
        9 => Some(CaptureKey::Num8),
        10 => Some(CaptureKey::Num9),
        11 => Some(CaptureKey::Num0),
        12 => Some(CaptureKey::Minus),
        13 => Some(CaptureKey::Equal),
        14 => Some(CaptureKey::Backspace),
        15 => Some(CaptureKey::Tab),
        16 => Some(CaptureKey::KeyQ),
        17 => Some(CaptureKey::KeyW),
        18 => Some(CaptureKey::KeyE),
        19 => Some(CaptureKey::KeyR),
        20 => Some(CaptureKey::KeyT),
        21 => Some(CaptureKey::KeyY),
        22 => Some(CaptureKey::KeyU),
        23 => Some(CaptureKey::KeyI),
        24 => Some(CaptureKey::KeyO),
        25 => Some(CaptureKey::KeyP),
        26 => Some(CaptureKey::LeftBracket),
        27 => Some(CaptureKey::RightBracket),
        28 => Some(CaptureKey::Return),
        29 => Some(CaptureKey::ControlLeft),
        30 => Some(CaptureKey::KeyA),
        31 => Some(CaptureKey::KeyS),
        32 => Some(CaptureKey::KeyD),
        33 => Some(CaptureKey::KeyF),
        34 => Some(CaptureKey::KeyG),
        35 => Some(CaptureKey::KeyH),
        36 => Some(CaptureKey::KeyJ),
        37 => Some(CaptureKey::KeyK),
        38 => Some(CaptureKey::KeyL),
        39 => Some(CaptureKey::SemiColon),
        40 => Some(CaptureKey::Quote),
        41 => Some(CaptureKey::BackQuote),
        42 => Some(CaptureKey::ShiftLeft),
        43 => Some(CaptureKey::BackSlash),
        44 => Some(CaptureKey::KeyZ),
        45 => Some(CaptureKey::KeyX),
        46 => Some(CaptureKey::KeyC),
        47 => Some(CaptureKey::KeyV),
        48 => Some(CaptureKey::KeyB),
        49 => Some(CaptureKey::KeyN),
        50 => Some(CaptureKey::KeyM),
        51 => Some(CaptureKey::Comma),
        52 => Some(CaptureKey::Dot),
        53 => Some(CaptureKey::Slash),
        54 => Some(CaptureKey::ShiftRight),
        55 => Some(CaptureKey::KpMultiply),
        56 => Some(CaptureKey::Alt),
        57 => Some(CaptureKey::Space),
        58 => Some(CaptureKey::CapsLock),
        59 => Some(CaptureKey::F1),
        60 => Some(CaptureKey::F2),
        61 => Some(CaptureKey::F3),
        62 => Some(CaptureKey::F4),
        63 => Some(CaptureKey::F5),
        64 => Some(CaptureKey::F6),
        65 => Some(CaptureKey::F7),
        66 => Some(CaptureKey::F8),
        67 => Some(CaptureKey::F9),
        68 => Some(CaptureKey::F10),
        69 => Some(CaptureKey::NumLock),
        70 => Some(CaptureKey::ScrollLock),
        71 => Some(CaptureKey::Kp7),
        72 => Some(CaptureKey::Kp8),
        73 => Some(CaptureKey::Kp9),
        74 => Some(CaptureKey::KpMinus),
        75 => Some(CaptureKey::Kp4),
        76 => Some(CaptureKey::Kp5),
        77 => Some(CaptureKey::Kp6),
        78 => Some(CaptureKey::KpPlus),
        79 => Some(CaptureKey::Kp1),
        80 => Some(CaptureKey::Kp2),
        81 => Some(CaptureKey::Kp3),
        82 => Some(CaptureKey::Kp0),
        83 => Some(CaptureKey::KpDelete),
        86 => Some(CaptureKey::IntlBackslash),
        87 => Some(CaptureKey::F11),
        88 => Some(CaptureKey::F12),
        96 => Some(CaptureKey::KpReturn),
        97 => Some(CaptureKey::ControlRight),
        98 => Some(CaptureKey::KpDivide),
        99 => Some(CaptureKey::PrintScreen),
        100 => Some(CaptureKey::AltGr),
        102 => Some(CaptureKey::Home),
        103 => Some(CaptureKey::UpArrow),
        104 => Some(CaptureKey::PageUp),
        105 => Some(CaptureKey::LeftArrow),
        106 => Some(CaptureKey::RightArrow),
        107 => Some(CaptureKey::End),
        108 => Some(CaptureKey::DownArrow),
        109 => Some(CaptureKey::PageDown),
        110 => Some(CaptureKey::Insert),
        111 => Some(CaptureKey::Delete),
        119 => Some(CaptureKey::Pause),
        125 => Some(CaptureKey::MetaLeft),
        126 => Some(CaptureKey::MetaRight),
        464 => Some(CaptureKey::Function),
        _ => None,
    }
}

/// The client decodes only codes that some captured key is sent as: a
/// code it turns into a key is the code of a key (and the key injected is
/// the one that key stands for); every other code is dropped.
pub proof fn lemma_decoded_codes_come_from_keys(code: u32, platform: Platform)
    ensures
        spec_code_to_key(code, platform) is Some ==> key_of_code(code) is Some,
        key_of_code(code) matches Some(k) ==> k.is_canonical() && canonical_code(k) == code
            && spec_code_to_key(code, platform) == injected_key(k, platform),
{
}

} // verus!
