//! Key identities: the physical keys a listener reports and the logical keys
//! that are recorded, stored and replayed.

use vstd::prelude::*;

verus! {

/// A physical key as the keyboard listener names it.
#[derive(Clone, Copy, Debug, PartialEq, Eq, Hash, Structural)]
pub enum RawKey {
    Alt,
    AltGr,
    Backspace,
    CapsLock,
    ControlLeft,
    ControlRight,
    Delete,
    DownArrow,
    End,
    Escape,
    F1,
    F10,
    F11,
    F12,
    F2,
    F3,
    F4,
    F5,
    F6,
    F7,
    F8,
    F9,
    Home,
    LeftArrow,
    MetaLeft,
    MetaRight,
    PageDown,
    PageUp,
    Return,
    RightArrow,
    ShiftLeft,
    ShiftRight,
    Space,
    Tab,
    UpArrow,
    PrintScreen,
    ScrollLock,
    Pause,
    NumLock,
    BackQuote,
    Num1,
    Num2,
    Num3,
    Num4,
    Num5,
    Num6,
    Num7,
    Num8,
    Num9,
    Num0,
    Minus,
    Equal,
    KeyQ,
    KeyW,
    KeyE,
    KeyR,
    KeyT,
    KeyY,
    KeyU,
    KeyI,
    KeyO,
    KeyP,
    LeftBracket,
    RightBracket,
    KeyA,
    KeyS,
    KeyD,
    KeyF,
    KeyG,
    KeyH,
    KeyJ,
    KeyK,
    KeyL,
    SemiColon,
    Quote,
    BackSlash,
    IntlBackslash,
    KeyZ,
    KeyX,
    KeyC,
    KeyV,
    KeyB,
    KeyN,
    KeyM,
    Comma,
    Dot,
    Slash,
    Insert,
    KpReturn,
    KpMinus,
    KpPlus,
    KpMultiply,
    KpDivide,
    Kp0,
    Kp1,
    Kp2,
    Kp3,
    Kp4,
    Kp5,
    Kp6,
    Kp7,
    Kp8,
    Kp9,
    KpDelete,
    Function,
    /// A key the listener has no name for, with the code it reported.
    Unknown(u32),
}

/// A logical key: a character of the active layout or one of the named keys.
#[derive(Clone, Copy, Debug, PartialEq, Eq, Hash, Structural)]
pub enum KeyId {
    Layout(char),
    Space,
    Return,
    Tab,
    Escape,
    UpArrow,
    DownArrow,
    LeftArrow,
    RightArrow,
    Shift,
    Control,
    Alt,
    Meta,
    Backspace,
}

/// Whether `key` occurs in `keys`.
pub fn contains_key(keys: &Vec<KeyId>, key: KeyId) -> (found: bool)
    ensures
        found == keys@.contains(key),
{
    let mut i: usize = 0;
    while i < keys.len()
        invariant
            i <= keys.len(),
            forall|j: int| 0 <= j < i ==> keys@[j] != key,
        decreases keys.len() - i,
    {
        if keys[i] == key {
            return true;
        }
        i += 1;
    }
    false
}

/// The letter that a letter key types, in lower case.
pub open spec fn letter_of(key: RawKey) -> Option<char> {
    match key {
        RawKey::KeyA => Some('a'),
        RawKey::KeyB => Some('b'),
        RawKey::KeyC => Some('c'),
        RawKey::KeyD => Some('d'),
        RawKey::KeyE => Some('e'),
        RawKey::KeyF => Some('f'),
        RawKey::KeyG => Some('g'),
        RawKey::KeyH => Some('h'),
        RawKey::KeyI => Some('i'),
        RawKey::KeyJ => Some('j'),
        RawKey::KeyK => Some('k'),
        RawKey::KeyL => Some('l'),
        RawKey::KeyM => Some('m'),
        RawKey::KeyN => Some('n'),
        RawKey::KeyO => Some('o'),
        RawKey::KeyP => Some('p'),
        RawKey::KeyQ => Some('q'),
        RawKey::KeyR => Some('r'),
        RawKey::KeyS => Some('s'),
        RawKey::KeyT => Some('t'),
        RawKey::KeyU => Some('u'),
        RawKey::KeyV => Some('v'),
        RawKey::KeyW => Some('w'),
        RawKey::KeyX => Some('x'),
        RawKey::KeyY => Some('y'),
        RawKey::KeyZ => Some('z'),
        _ => None,
    }
}

/// The digit that a key of the digit row types.
pub open spec fn digit_of(key: RawKey) -> Option<char> {
    match key {
        RawKey::Num0 => Some('0'),
        RawKey::Num1 => Some('1'),
        RawKey::Num2 => Some('2'),
        RawKey::Num3 => Some('3'),
        RawKey::Num4 => Some('4'),
        RawKey::Num5 => Some('5'),
        RawKey::Num6 => Some('6'),
        RawKey::Num7 => Some('7'),
        RawKey::Num8 => Some('8'),
        RawKey::Num9 => Some('9'),
        _ => None,
    }
}

/// The named logical key that a physical key stands for, left and right
/// variants of a modifier taken together.
pub open spec fn named_of(key: RawKey) -> Option<KeyId> {
    match key {
        RawKey::Space => Some(KeyId::Space),
        RawKey::Return => Some(KeyId::Return),
        RawKey::Tab => Some(KeyId::Tab),
        RawKey::Escape => Some(KeyId::Escape),
        RawKey::UpArrow => Some(KeyId::UpArrow),
        RawKey::DownArrow => Some(KeyId::DownArrow),
        RawKey::LeftArrow => Some(KeyId::LeftArrow),
        RawKey::RightArrow => Some(KeyId::RightArrow),
        RawKey::ShiftLeft | RawKey::ShiftRight => Some(KeyId::Shift),
        RawKey::ControlLeft | RawKey::ControlRight => Some(KeyId::Control),
        RawKey::Alt | RawKey::AltGr => Some(KeyId::Alt),
        RawKey::MetaLeft | RawKey::MetaRight => Some(KeyId::Meta),
        RawKey::Backspace => Some(KeyId::Backspace),
        _ => None,
    }
}

/// The letters of the rhythm rows: `a s d f` and `j k l`.
pub open spec fn is_rhythm_letter(c: char) -> bool {
    c == 'a' || c == 's' || c == 'd' || c == 'f' || c == 'j' || c == 'k' || c == 'l'
}

/// The logical key that the recorder takes a physical key for: a rhythm
/// letter, or a named key other than backspace.
pub open spec fn mapped_key(key: RawKey) -> Option<KeyId> {
    match letter_of(key) {
        Some(c) => if is_rhythm_letter(c) {
            Some(KeyId::Layout(c))
        } else {
            None
        },
        None => if key == RawKey::Backspace {
            None
        } else {
            named_of(key)
        },
    }
}

/// The logical key that the overlay takes a physical key for: any letter or
/// digit, or a named key other than the meta keys.
pub open spec fn converted_key(key: RawKey) -> Option<KeyId> {
    match letter_of(key) {
        Some(c) => Some(KeyId::Layout(c)),
        None => match digit_of(key) {
            Some(c) => Some(KeyId::Layout(c)),
            None => if key == RawKey::MetaLeft || key == RawKey::MetaRight {
                None
            } else {
                named_of(key)
            },
        },
    }
}

/// Maps a physical key to the logical key that is recorded for it, where
/// there is one.
pub fn map_key(key: RawKey) -> (mapped: Option<KeyId>)
    ensures
        mapped == mapped_key(key),
{
    match key {
        RawKey::KeyA => Some(KeyId::Layout('a')),
        RawKey::KeyS => Some(KeyId::Layout('s')),
        RawKey::KeyD => Some(KeyId::Layout('d')),
        RawKey::KeyF => Some(KeyId::Layout('f')),
        RawKey::KeyJ => Some(KeyId::Layout('j')),
        RawKey::KeyK => Some(KeyId::Layout('k')),
        RawKey::KeyL => Some(KeyId::Layout('l')),
        RawKey::Space => Some(KeyId::Space),
        RawKey::Return => Some(KeyId::Return),
        RawKey::Tab => Some(KeyId::Tab),
        RawKey::Escape => Some(KeyId::Escape),
        RawKey::UpArrow => Some(KeyId::UpArrow),
        RawKey::DownArrow => Some(KeyId::DownArrow),
        RawKey::LeftArrow => Some(KeyId::LeftArrow),
        RawKey::RightArrow => Some(KeyId::RightArrow),
        RawKey::ShiftLeft => Some(KeyId::Shift),
        RawKey::ShiftRight => Some(KeyId::Shift),
        RawKey::ControlLeft => Some(KeyId::Control),
        RawKey::ControlRight => Some(KeyId::Control),
        RawKey::Alt => Some(KeyId::Alt),
        RawKey::AltGr => Some(KeyId::Alt),
        RawKey::MetaLeft => Some(KeyId::Meta),
        RawKey::MetaRight => Some(KeyId::Meta),
        _ => None,
    }
}

/// Maps a physical key to the logical key that the overlay shows and the
/// session records for it, where there is one.
pub fn convert_key(key: RawKey) -> (mapped: Option<KeyId>)
    ensures
        mapped == converted_key(key),
{
    let mapped = match key {
        RawKey::KeyA => KeyId::Layout('a'),
        RawKey::KeyB => KeyId::Layout('b'),
        RawKey::KeyC => KeyId::Layout('c'),
        RawKey::KeyD => KeyId::Layout('d'),
        RawKey::KeyE => KeyId::Layout('e'),
        RawKey::KeyF => KeyId::Layout('f'),
        RawKey::KeyG => KeyId::Layout('g'),
        RawKey::KeyH => KeyId::Layout('h'),
        RawKey::KeyI => KeyId::Layout('i'),
        RawKey::KeyJ => KeyId::Layout('j'),
        RawKey::KeyK => KeyId::Layout('k'),
        RawKey::KeyL => KeyId::Layout('l'),
        RawKey::KeyM => KeyId::Layout('m'),
        RawKey::KeyN => KeyId::Layout('n'),
        RawKey::KeyO => KeyId::Layout('o'),
        RawKey::KeyP => KeyId::Layout('p'),
        RawKey::KeyQ => KeyId::Layout('q'),
        RawKey::KeyR => KeyId::Layout('r'),
        RawKey::KeyS => KeyId::Layout('s'),
        RawKey::KeyT => KeyId::Layout('t'),
        RawKey::KeyU => KeyId::Layout('u'),
        RawKey::KeyV => KeyId::Layout('v'),
        RawKey::KeyW => KeyId::Layout('w'),
        RawKey::KeyX => KeyId::Layout('x'),
        RawKey::KeyY => KeyId::Layout('y'),
        RawKey::KeyZ => KeyId::Layout('z'),
        RawKey::Num0 => KeyId::Layout('0'),
        RawKey::Num1 => KeyId::Layout('1'),
        RawKey::Num2 => KeyId::Layout('2'),
        RawKey::Num3 => KeyId::Layout('3'),
        RawKey::Num4 => KeyId::Layout('4'),
        RawKey::Num5 => KeyId::Layout('5'),
        RawKey::Num6 => KeyId::Layout('6'),
        RawKey::Num7 => KeyId::Layout('7'),
        RawKey::Num8 => KeyId::Layout('8'),
        RawKey::Num9 => KeyId::Layout('9'),
        RawKey::Space => KeyId::Space,
        RawKey::Return => KeyId::Return,
        RawKey::Backspace => KeyId::Backspace,
        RawKey::Tab => KeyId::Tab,
        RawKey::Escape => KeyId::Escape,
        RawKey::UpArrow => KeyId::UpArrow,
        RawKey::DownArrow => KeyId::DownArrow,
        RawKey::LeftArrow => KeyId::LeftArrow,
        RawKey::RightArrow => KeyId::RightArrow,
        RawKey::ShiftLeft | RawKey::ShiftRight => KeyId::Shift,
        RawKey::ControlLeft | RawKey::ControlRight => KeyId::Control,
        RawKey::Alt | RawKey::AltGr => KeyId::Alt,
        _ => return None,
    };
    Some(mapped)
}

} // verus!
