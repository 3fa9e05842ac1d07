//! Keyboard scan codes, named after the keys of a US layout
//! (https://w3c.github.io/uievents-code/).
use crate::text::digit_char;
use vstd::prelude::*;

verus! {

/// A physical key, identified by the scan code that the keyboard reports for it.
#[derive(Clone, Copy, Debug, Eq, Hash, PartialEq, Structural)]
pub enum ScanCode {
    Error,
    Escape,
    Digit1,
    Digit2,
    Digit3,
    Digit4,
    Digit5,
    Digit6,
    Digit7,
    Digit8,
    Digit9,
    Digit0,
    Minus,
    Equal,
    Backspace,
    Tab,
    KeyQ,
    KeyW,
    KeyE,
    KeyR,
    KeyT,
    KeyY,
    KeyU,
    KeyI,
    KeyO,
    KeyP,
    BracketLeft,
    BracketRight,
    Enter,
    ControlLeft,
    KeyA,
    KeyS,
    KeyD,
    KeyF,
    KeyG,
    KeyH,
    KeyJ,
    KeyK,
    KeyL,
    Semicolon,
    Quote,
    Backquote,
    ShiftLeft,
    BackSlash,
    KeyZ,
    KeyX,
    KeyC,
    KeyV,
    KeyB,
    KeyN,
    KeyM,
    Comma,
    Period,
    Slash,
    ShiftRight,
    NumpadMultiply,
    AltLeft,
    Space,
    CapsLock,
    F1,
    F2,
    F3,
    F4,
    F5,
    F6,
    F7,
    F8,
    F9,
    F10,
    ScrollLock,
    Numpad7,
    Numpad8,
    Numpad9,
    NumpadSubtract,
    Numpad4,
    Numpad5,
    Numpad6,
    NumpadAdd,
    Numpad1,
    Numpad2,
    Numpad3,
    Numpad0,
    NumpadDecimal,
    IntlBackslash,
    F11,
    F12,
    ControlRight,
    PrintScreen,
    AltRight,
    Home,
    ArrowUp,
    PageUp,
    ArrowLeft,
    ArrowRight,
    End,
    ArrowDown,
    PageDown,
    Delete,
    MetaLeft,
    NumpadEnter,
    NumpadDivide,
    NumLock,
    Insert,
    Pause,
}

/// The scan code that identifies each key.
pub open spec fn spec_code(s: ScanCode) -> u32 {
    match s {
        ScanCode::Error => 0,
        ScanCode::Escape => 1,
        ScanCode::Digit1 => 2,
        ScanCode::Digit2 => 3,
        ScanCode::Digit3 => 4,
        ScanCode::Digit4 => 5,
        ScanCode::Digit5 => 6,
        ScanCode::Digit6 => 7,
        ScanCode::Digit7 => 8,
        ScanCode::Digit8 => 9,
        ScanCode::Digit9 => 10,
        ScanCode::Digit0 => 11,
        ScanCode::Minus => 12,
        ScanCode::Equal => 13,
        ScanCode::Backspace => 14,
        ScanCode::Tab => 15,
        ScanCode::KeyQ => 16,
        ScanCode::KeyW => 17,
        ScanCode::KeyE => 18,
        ScanCode::KeyR => 19,
        ScanCode::KeyT => 20,
        ScanCode::KeyY => 21,
        ScanCode::KeyU => 22,
        ScanCode::KeyI => 23,
        ScanCode::KeyO => 24,
        ScanCode::KeyP => 25,
        ScanCode::BracketLeft => 26,
        ScanCode::BracketRight => 27,
        ScanCode::Enter => 28,
        ScanCode::ControlLeft => 29,
        ScanCode::KeyA => 30,
        ScanCode::KeyS => 31,
        ScanCode::KeyD => 32,
        ScanCode::KeyF => 33,
        ScanCode::KeyG => 34,
        ScanCode::KeyH => 35,
        ScanCode::KeyJ => 36,
        ScanCode::KeyK => 37,
        ScanCode::KeyL => 38,
        ScanCode::Semicolon => 39,
        ScanCode::Quote => 40,
        ScanCode::Backquote => 41,
        ScanCode::ShiftLeft => 42,
        ScanCode::BackSlash => 43,
        ScanCode::KeyZ => 44,
        ScanCode::KeyX => 45,
        ScanCode::KeyC => 46,
        ScanCode::KeyV => 47,
        ScanCode::KeyB => 48,
        ScanCode::KeyN => 49,
        ScanCode::KeyM => 50,
        ScanCode::Comma => 51,
        ScanCode::Period => 52,
        ScanCode::Slash => 53,
        ScanCode::ShiftRight => 54,
        ScanCode::NumpadMultiply => 55,
        ScanCode::AltLeft => 56,
        ScanCode::Space => 57,
        ScanCode::CapsLock => 58,
        ScanCode::F1 => 59,
        ScanCode::F2 => 60,
        ScanCode::F3 => 61,
        ScanCode::F4 => 62,
        ScanCode::F5 => 63,
        ScanCode::F6 => 64,
        ScanCode::F7 => 65,
        ScanCode::F8 => 66,
        ScanCode::F9 => 67,
        ScanCode::F10 => 68,
        ScanCode::ScrollLock => 70,
        ScanCode::Numpad7 => 71,
        ScanCode::Numpad8 => 72,
        ScanCode::Numpad9 => 73,
        ScanCode::NumpadSubtract => 74,
        ScanCode::Numpad4 => 75,
        ScanCode::Numpad5 => 76,
        ScanCode::Numpad6 => 77,
        ScanCode::NumpadAdd => 78,
        ScanCode::Numpad1 => 79,
        ScanCode::Numpad2 => 80,
        ScanCode::Numpad3 => 81,
        ScanCode::Numpad0 => 82,
        ScanCode::NumpadDecimal => 83,
        ScanCode::IntlBackslash => 86,
        ScanCode::F11 => 87,
        ScanCode::F12 => 88,
        ScanCode::ControlRight => 97,
        ScanCode::PrintScreen => 99,
        ScanCode::AltRight => 100,
        ScanCode::Home => 102,
        ScanCode::ArrowUp => 103,
        ScanCode::PageUp => 104,
        ScanCode::ArrowLeft => 105,
        ScanCode::ArrowRight => 106,
        ScanCode::End => 107,
        ScanCode::ArrowDown => 108,
        ScanCode::PageDown => 109,
        ScanCode::Delete => 111,
        ScanCode::MetaLeft => 125,
        ScanCode::NumpadEnter => 57372,
        ScanCode::NumpadDivide => 57397,
        ScanCode::NumLock => 57413,
        ScanCode::Insert => 57426,
        ScanCode::Pause => 57433,
    }
}

/// Scan codes that some keyboards report for a key that has another code on others.
pub open spec fn spec_alias(code: u32) -> Option<ScanCode> {
    match code {
        57373 => Some(ScanCode::ControlRight),
        57399 => Some(ScanCode::PrintScreen),
        57415 => Some(ScanCode::Home),
        57416 => Some(ScanCode::ArrowUp),
        57417 => Some(ScanCode::PageUp),
        57419 => Some(ScanCode::ArrowLeft),
        57421 => Some(ScanCode::ArrowRight),
        57423 => Some(ScanCode::End),
        57424 => Some(ScanCode::ArrowDown),
        57425 => Some(ScanCode::PageDown),
        57427 => Some(ScanCode::Delete),
        57435 => Some(ScanCode::MetaLeft),
        _ => None,
    }
}

/// The decimal digit that a key stands for, on the top row or on the numpad.
pub open spec fn spec_digit(s: ScanCode) -> Option<usize> {
    match s {
        ScanCode::Digit0 | ScanCode::Numpad0 => Some(0),
        ScanCode::Digit1 | ScanCode::Numpad1 => Some(1),
        ScanCode::Digit2 | ScanCode::Numpad2 => Some(2),
        ScanCode::Digit3 | ScanCode::Numpad3 => Some(3),
        ScanCode::Digit4 | ScanCode::Numpad4 => Some(4),
        ScanCode::Digit5 | ScanCode::Numpad5 => Some(5),
        ScanCode::Digit6 | ScanCode::Numpad6 => Some(6),
        ScanCode::Digit7 | ScanCode::Numpad7 => Some(7),
        ScanCode::Digit8 | ScanCode::Numpad8 => Some(8),
        ScanCode::Digit9 | ScanCode::Numpad9 => Some(9),
        _ => None,
    }
}

/// The key that a scan code stands for: an alias names its key; any other code names
/// the key that has it, if one does.
pub open spec fn spec_from_u32(code: u32) -> Option<ScanCode> {
    if spec_alias(code) is Some {
        spec_alias(code)
    } else if exists|s: ScanCode| spec_code(s) == code {
        Some(choose|s: ScanCode| spec_code(s) == code)
    } else {
        None
    }
}

impl ScanCode {
    /// The scan code of this key.
    pub fn code(&self) -> (c: u32)
        ensures
            c == spec_code(*self),
    {
        match self {
            ScanCode::Error => 0,
            ScanCode::Escape => 1,
            ScanCode::Digit1 => 2,
            ScanCode::Digit2 => 3,
            ScanCode::Digit3 => 4,
            ScanCode::Digit4 => 5,
            ScanCode::Digit5 => 6,
            ScanCode::Digit6 => 7,
            ScanCode::Digit7 => 8,
            ScanCode::Digit8 => 9,
            ScanCode::Digit9 => 10,
            ScanCode::Digit0 => 11,
            ScanCode::Minus => 12,
            ScanCode::Equal => 13,
            ScanCode::Backspace => 14,
            ScanCode::Tab => 15,
            ScanCode::KeyQ => 16,
            ScanCode::KeyW => 17,
            ScanCode::KeyE => 18,
            ScanCode::KeyR => 19,
            ScanCode::KeyT => 20,
            ScanCode::KeyY => 21,
            ScanCode::KeyU => 22,
            ScanCode::KeyI => 23,
            ScanCode::KeyO => 24,
            ScanCode::KeyP => 25,
            ScanCode::BracketLeft => 26,
            ScanCode::BracketRight => 27,
            ScanCode::Enter => 28,
            ScanCode::ControlLeft => 29,
            ScanCode::KeyA => 30,
            ScanCode::KeyS => 31,
            ScanCode::KeyD => 32,
            ScanCode::KeyF => 33,
            ScanCode::KeyG => 34,
            ScanCode::KeyH => 35,
            ScanCode::KeyJ => 36,
            ScanCode::KeyK => 37,
            ScanCode::KeyL => 38,
            ScanCode::Semicolon => 39,
            ScanCode::Quote => 40,
            ScanCode::Backquote => 41,
            ScanCode::ShiftLeft => 42,
            ScanCode::BackSlash => 43,
            ScanCode::KeyZ => 44,
            ScanCode::KeyX => 45,
            ScanCode::KeyC => 46,
            ScanCode::KeyV => 47,
            ScanCode::KeyB => 48,
            ScanCode::KeyN => 49,
            ScanCode::KeyM => 50,
            ScanCode::Comma => 51,
            ScanCode::Period => 52,
            ScanCode::Slash => 53,
            ScanCode::ShiftRight => 54,
            ScanCode::NumpadMultiply => 55,
            ScanCode::AltLeft => 56,
            ScanCode::Space => 57,
            ScanCode::CapsLock => 58,
            ScanCode::F1 => 59,
            ScanCode::F2 => 60,
            ScanCode::F3 => 61,
            ScanCode::F4 => 62,
            ScanCode::F5 => 63,
            ScanCode::F6 => 64,
            ScanCode::F7 => 65,
            ScanCode::F8 => 66,
            ScanCode::F9 => 67,
            ScanCode::F10 => 68,
            ScanCode::ScrollLock => 70,
            ScanCode::Numpad7 => 71,
            ScanCode::Numpad8 => 72,
            ScanCode::Numpad9 => 73,
            ScanCode::NumpadSubtract => 74,
            ScanCode::Numpad4 => 75,
            ScanCode::Numpad5 => 76,
            ScanCode::Numpad6 => 77,
            ScanCode::NumpadAdd => 78,
            ScanCode::Numpad1 => 79,
            ScanCode::Numpad2 => 80,
            ScanCode::Numpad3 => 81,
            ScanCode::Numpad0 => 82,
            ScanCode::NumpadDecimal => 83,
            ScanCode::IntlBackslash => 86,
            ScanCode::F11 => 87,
            ScanCode::F12 => 88,
            ScanCode::ControlRight => 97,
            ScanCode::PrintScreen => 99,
            ScanCode::AltRight => 100,
            ScanCode::Home => 102,
            ScanCode::ArrowUp => 103,
            ScanCode::PageUp => 104,
            ScanCode::ArrowLeft => 105,
            ScanCode::ArrowRight => 106,
            ScanCode::End => 107,
            ScanCode::ArrowDown => 108,
            ScanCode::PageDown => 109,
            ScanCode::Delete => 111,
            ScanCode::MetaLeft => 125,
            ScanCode::NumpadEnter => 57372,
            ScanCode::NumpadDivide => 57397,
            ScanCode::NumLock => 57413,
            ScanCode::Insert => 57426,
            ScanCode::Pause => 57433,
        }
    }

    /// The key that a scan code stands for. Codes that some keyboards report for a
    /// key in place of its usual code map to that key; unknown codes give `None`.
    pub fn from_u32(code: u32) -> (r: Option<ScanCode>)
        ensures
            r == spec_from_u32(code),
            spec_alias(code) is Some ==> r == spec_alias(code),
            spec_alias(code) is None ==> match r {
                Some(s) => spec_code(s) == code,
                None => forall|s: ScanCode| spec_code(s) != code,
            },
    {
        let r = match code {
            57373 => Some(ScanCode::ControlRight),
            57399 => Some(ScanCode::PrintScreen),
            57415 => Some(ScanCode::Home),
            57416 => Some(ScanCode::ArrowUp),
            57417 => Some(ScanCode::PageUp),
            57419 => Some(ScanCode::ArrowLeft),
            57421 => Some(ScanCode::ArrowRight),
            57423 => Some(ScanCode::End),
            57424 => Some(ScanCode::ArrowDown),
            57425 => Some(ScanCode::PageDown),
            57427 => Some(ScanCode::Delete),
            57435 => Some(ScanCode::MetaLeft),
            0 => Some(ScanCode::Error),
            1 => Some(ScanCode::Escape),
            2 => Some(ScanCode::Digit1),
            3 => Some(ScanCode::Digit2),
            4 => Some(ScanCode::Digit3),
            5 => Some(ScanCode::Digit4),
            6 => Some(ScanCode::Digit5),
            7 => Some(ScanCode::Digit6),
            8 => Some(ScanCode::Digit7),
            9 => Some(ScanCode::Digit8),
            10 => Some(ScanCode::Digit9),
            11 => Some(ScanCode::Digit0),
            12 => Some(ScanCode::Minus),
            13 => Some(ScanCode::Equal),
            14 => Some(ScanCode::Backspace),
            15 => Some(ScanCode::Tab),
            16 => Some(ScanCode::KeyQ),
            17 => Some(ScanCode::KeyW),
            18 => Some(ScanCode::KeyE),
            19 => Some(ScanCode::KeyR),
            20 => Some(ScanCode::KeyT),
            21 => Some(ScanCode::KeyY),
            22 => Some(ScanCode::KeyU),
            23 => Some(ScanCode::KeyI),
            24 => Some(ScanCode::KeyO),
            25 => Some(ScanCode::KeyP),
            26 => Some(ScanCode::BracketLeft),
            27 => Some(ScanCode::BracketRight),
            28 => Some(ScanCode::Enter),
            29 => Some(ScanCode::ControlLeft),
            30 => Some(ScanCode::KeyA),
            31 => Some(ScanCode::KeyS),
            32 => Some(ScanCode::KeyD),
            33 => Some(ScanCode::KeyF),
            34 => Some(ScanCode::KeyG),
            35 => Some(ScanCode::KeyH),
            36 => Some(ScanCode::KeyJ),
            37 => Some(ScanCode::KeyK),
            38 => Some(ScanCode::KeyL),
            39 => Some(ScanCode::Semicolon),
            40 => Some(ScanCode::Quote),
            41 => Some(ScanCode::Backquote),
            42 => Some(ScanCode::ShiftLeft),
            43 => Some(ScanCode::BackSlash),
            44 => Some(ScanCode::KeyZ),
            45 => Some(ScanCode::KeyX),
            46 => Some(ScanCode::KeyC),
            47 => Some(ScanCode::KeyV),
            48 => Some(ScanCode::KeyB),
            49 => Some(ScanCode::KeyN),
            50 => Some(ScanCode::KeyM),
            51 => Some(ScanCode::Comma),
            52 => Some(ScanCode::Period),
            53 => Some(ScanCode::Slash),
            54 => Some(ScanCode::ShiftRight),
            55 => Some(ScanCode::NumpadMultiply),
            56 => Some(ScanCode::AltLeft),
            57 => Some(ScanCode::Space),
            58 => Some(ScanCode::CapsLock),
            59 => Some(ScanCode::F1),
            60 => Some(ScanCode::F2),
            61 => Some(ScanCode::F3),
            62 => Some(ScanCode::F4),
            63 => Some(ScanCode::F5),
            64 => Some(ScanCode::F6),
            65 => Some(ScanCode::F7),
            66 => Some(ScanCode::F8),
            67 => Some(ScanCode::F9),
            68 => Some(ScanCode::F10),
            70 => Some(ScanCode::ScrollLock),
            71 => Some(ScanCode::Numpad7),
            72 => Some(ScanCode::Numpad8),
            73 => Some(ScanCode::Numpad9),
            74 => Some(ScanCode::NumpadSubtract),
            75 => Some(ScanCode::Numpad4),
            76 => Some(ScanCode::Numpad5),
            77 => Some(ScanCode::Numpad6),
            78 => Some(ScanCode::NumpadAdd),
            79 => Some(ScanCode::Numpad1),
            80 => Some(ScanCode::Numpad2),
            81 => Some(ScanCode::Numpad3),
            82 => Some(ScanCode::Numpad0),
            83 => Some(ScanCode::NumpadDecimal),
            86 => Some(ScanCode::IntlBackslash),
            87 => Some(ScanCode::F11),
            88 => Some(ScanCode::F12),
            97 => Some(ScanCode::ControlRight),
            99 => Some(ScanCode::PrintScreen),
            100 => Some(ScanCode::AltRight),
            102 => Some(ScanCode::Home),
            103 => Some(ScanCode::ArrowUp),
            104 => Some(ScanCode::PageUp),
            105 => Some(ScanCode::ArrowLeft),
            106 => Some(ScanCode::ArrowRight),
            107 => Some(ScanCode::End),
            108 => Some(ScanCode::ArrowDown),
            109 => Some(ScanCode::PageDown),
            111 => Some(ScanCode::Delete),
            125 => Some(ScanCode::MetaLeft),
            57372 => Some(ScanCode::NumpadEnter),
            57397 => Some(ScanCode::NumpadDivide),
            57413 => Some(ScanCode::NumLock),
            57426 => Some(ScanCode::Insert),
            57433 => Some(ScanCode::Pause),
            _ => None,
        };
        proof {
            if spec_alias(code) is None {
                if let Some(s) = r {
                    let t = choose|t: ScanCode| spec_code(t) == code;
                    lemma_code_round_trip(s, t);
                }
            }
        }
        r
    }

    /// Checks if a scan code could represent a number.
    pub fn is_number(&self) -> (b: bool)
        ensures
            b == spec_digit(*self) is Some,
    {
        match self {
            ScanCode::Digit0 | ScanCode::Numpad0 => true,
            ScanCode::Digit1 | ScanCode::Numpad1 => true,
            ScanCode::Digit2 | ScanCode::Numpad2 => true,
            ScanCode::Digit3 | ScanCode::Numpad3 => true,
            ScanCode::Digit4 | ScanCode::Numpad4 => true,
            ScanCode::Digit5 | ScanCode::Numpad5 => true,
            ScanCode::Digit6 | ScanCode::Numpad6 => true,
            ScanCode::Digit7 | ScanCode::Numpad7 => true,
            ScanCode::Digit8 | ScanCode::Numpad8 => true,
            ScanCode::Digit9 | ScanCode::Numpad9 => true,
            _ => false,
        }
    }

    /// Converts a scan code into a number.
    pub fn to_usize(&self) -> (d: Option<usize>)
        ensures
            d == spec_digit(*self),
    {
        match self {
            ScanCode::Digit0 | ScanCode::Numpad0 => Some(0),
            ScanCode::Digit1 | ScanCode::Numpad1 => Some(1),
            ScanCode::Digit2 | ScanCode::Numpad2 => Some(2),
            ScanCode::Digit3 | ScanCode::Numpad3 => Some(3),
            ScanCode::Digit4 | ScanCode::Numpad4 => Some(4),
            ScanCode::Digit5 | ScanCode::Numpad5 => Some(5),
            ScanCode::Digit6 | ScanCode::Numpad6 => Some(6),
            ScanCode::Digit7 | ScanCode::Numpad7 => Some(7),
            ScanCode::Digit8 | ScanCode::Numpad8 => Some(8),
            ScanCode::Digit9 | ScanCode::Numpad9 => Some(9),
            _ => None,
        }
    }
}

/// Each key has its own scan code, and no alias is the code of a key: so
/// `ScanCode::from_u32(s.code())` gives back `Some(s)`.
pub proof fn lemma_code_round_trip(s: ScanCode, t: ScanCode)
    ensures
        spec_alias(spec_code(s)) is None,
        spec_code(t) == spec_code(s) ==> t == s,
{
}

/// Every alias stands for a key that has a code of its own.
pub proof fn lemma_alias_names_known_key(code: u32)
    ensures
        spec_alias(code) matches Some(s) ==> spec_code(s) != code && spec_alias(spec_code(s))
            is None,
{
}

/// The key marked with the small letter or digit `c` on a US keyboard.
pub open spec fn key_of_char(c: char) -> Option<ScanCode> {
    match c {
        'a' => Some(ScanCode::KeyA),
        'b' => Some(ScanCode::KeyB),
        'c' => Some(ScanCode::KeyC),
        'd' => Some(ScanCode::KeyD),
        'e' => Some(ScanCode::KeyE),
        'f' => Some(ScanCode::KeyF),
        'g' => Some(ScanCode::KeyG),
        'h' => Some(ScanCode::KeyH),
        'i' => Some(ScanCode::KeyI),
        'j' => Some(ScanCode::KeyJ),
        'k' => Some(ScanCode::KeyK),
        'l' => Some(ScanCode::KeyL),
        'm' => Some(ScanCode::KeyM),
        'n' => Some(ScanCode::KeyN),
        'o' => Some(ScanCode::KeyO),
        'p' => Some(ScanCode::KeyP),
        'q' => Some(ScanCode::KeyQ),
        'r' => Some(ScanCode::KeyR),
        's' => Some(ScanCode::KeyS),
        't' => Some(ScanCode::KeyT),
        'u' => Some(ScanCode::KeyU),
        'v' => Some(ScanCode::KeyV),
        'w' => Some(ScanCode::KeyW),
        'x' => Some(ScanCode::KeyX),
        'y' => Some(ScanCode::KeyY),
        'z' => Some(ScanCode::KeyZ),
        '0' => Some(ScanCode::Digit0),
        '1' => Some(ScanCode::Digit1),
        '2' => Some(ScanCode::Digit2),
        '3' => Some(ScanCode::Digit3),
        '4' => Some(ScanCode::Digit4),
        '5' => Some(ScanCode::Digit5),
        '6' => Some(ScanCode::Digit6),
        '7' => Some(ScanCode::Digit7),
        '8' => Some(ScanCode::Digit8),
        '9' => Some(ScanCode::Digit9),
        _ => None,
    }
}

/// The rows of a US keyboard, as the characters marked on their keys from left to
/// right, each with the set-1 scan code of its first key: the digits from 2, and the
/// letter rows from 16, 30 and 44.
pub open spec fn keyboard_rows() -> Seq<(Seq<char>, u32)> {
    seq![
        (seq!['1', '2', '3', '4', '5', '6', '7', '8', '9', '0'], 2u32),
        (seq!['q', 'w', 'e', 'r', 't', 'y', 'u', 'i', 'o', 'p'], 16u32),
        (seq!['a', 's', 'd', 'f', 'g', 'h', 'j', 'k', 'l'], 30u32),
        (seq!['z', 'x', 'c', 'v', 'b', 'n', 'm'], 44u32),
    ]
}

/// Whether the key marked `row[i]` has the scan code `start + i`.
pub open spec fn row_key_has_code(row: Seq<char>, start: u32, i: int) -> bool {
    match key_of_char(row[i]) {
        Some(k) => spec_code(k) == start + i,
        None => false,
    }
}

/// Along each row of digit or letter keys, the scan codes count up by one from left
/// to right, starting from the row's first code; and each of these codes reads back
/// as the key marked on it.
pub proof fn lemma_keyboard_rows(r: int, i: int)
    requires
        0 <= r < keyboard_rows().len(),
        0 <= i < keyboard_rows()[r].0.len(),
    ensures
        ({
            let (row, start) = keyboard_rows()[r];
            key_of_char(row[i]) matches Some(k) && spec_code(k) == start + i && spec_from_u32(
                (start + i) as u32,
            ) == Some(k)
        }),
{
    let (row, start) = keyboard_rows()[r];
    if r == 0 {
            if i == 0 {
            } else if i == 1 {
            } else if i == 2 {
            } else if i == 3 {
            } else if i == 4 {
            } else if i == 5 {
            } else if i == 6 {
            } else if i == 7 {
            } else if i == 8 {
            } else {
            }
    } else if r == 1 {
            if i == 0 {
            } else if i == 1 {
            } else if i == 2 {
            } else if i == 3 {
            } else if i == 4 {
            } else if i == 5 {
            } else if i == 6 {
            } else if i == 7 {
            } else if i == 8 {
            } else {
            }
    } else if r == 2 {
            if i == 0 {
            } else if i == 1 {
            } else if i == 2 {
            } else if i == 3 {
            } else if i == 4 {
            } else if i == 5 {
            } else if i == 6 {
            } else if i == 7 {
            } else {
            }
    } else {
            if i == 0 {
            } else if i == 1 {
            } else if i == 2 {
            } else if i == 3 {
            } else if i == 4 {
            } else if i == 5 {
            } else {
            }
    }
    assert(row_key_has_code(row, start, i));
    let k = key_of_char(row[i]).unwrap();
    let t = choose|t: ScanCode| spec_code(t) == spec_code(k);
    lemma_code_round_trip(k, t);
}

/// The key marked with a digit stands for that digit.
pub proof fn lemma_digit_keys(d: nat)
    requires
        d < 10,
    ensures
        key_of_char(digit_char(d)) matches Some(k) && spec_digit(k) == Some(d as usize),
{
}

} // verus!
