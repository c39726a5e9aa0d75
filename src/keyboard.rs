//! PS/2 keyboard: decoding of scan codes into key events, and the queues of
//! key events and of commands waiting to be sent to the keyboard.

use vstd::prelude::*;
use crate::circular_buffer::CircularBuffer;

verus! {

/// Scan codes above this value are key releases.
pub const RELEASE_GAP: u8 = 0x80;

/// A key of scan code set 1, by its make code.
#[derive(Clone, Copy, PartialEq, Eq, Structural, Debug)]
pub enum Key {
    Esc,
    One,
    Two,
    Three,
    Four,
    Five,
    Six,
    Seven,
    Eight,
    Nine,
    Zero,
    Dash,
    Equals,
    Backspace,
    Tab,
    Q,
    W,
    E,
    R,
    T,
    Y,
    U,
    I,
    O,
    P,
    LeftBracket,
    RightBracket,
    Enter,
    LeftCtrl,
    A,
    S,
    D,
    F,
    G,
    H,
    J,
    K,
    L,
    Semicolon,
    SingleQuote,
    BackTick,
    LeftShift,
    BackSlash,
    Z,
    X,
    C,
    V,
    B,
    N,
    M,
    Comma,
    Period,
    Slash,
    RightShift,
    KeypadAsterisk,
    LeftAlt,
    Space,
    CapsLock,
    F1,
    F2,
    F3,
    F4,
    F5,
    F6,
    F7,
    F8,
    F9,
    F10,
    NumberLock,
    ScrollLock,
    KeypadSeven,
    KeypadEight,
    KeypadNine,
    KeypadDash,
    KeypadFour,
    KeypadFive,
    KeypadSix,
    KeypadPlus,
    KeypadOne,
    KeypadTwo,
    KeypadThree,
    KeypadZero,
    KeypadPeriod,
    PassedSelfTest,
    F11,
    F12,
    NextIsExtended,
}

/// The scan code of each Key value.
pub open spec fn key_code(k: Key) -> u8 {
    match k {
        Key::Esc => 0x01,
        Key::One => 0x02,
        Key::Two => 0x03,
        Key::Three => 0x04,
        Key::Four => 0x05,
        Key::Five => 0x06,
        Key::Six => 0x07,
        Key::Seven => 0x08,
        Key::Eight => 0x09,
        Key::Nine => 0x0A,
        Key::Zero => 0x0B,
        Key::Dash => 0x0C,
        Key::Equals => 0x0D,
        Key::Backspace => 0x0E,
        Key::Tab => 0x0F,
        Key::Q => 0x10,
        Key::W => 0x11,
        Key::E => 0x12,
        Key::R => 0x13,
        Key::T => 0x14,
        Key::Y => 0x15,
        Key::U => 0x16,
        Key::I => 0x17,
        Key::O => 0x18,
        Key::P => 0x19,
        Key::LeftBracket => 0x1A,
        Key::RightBracket => 0x1B,
        Key::Enter => 0x1C,
        Key::LeftCtrl => 0x1D,
        Key::A => 0x1E,
        Key::S => 0x1F,
        Key::D => 0x20,
        Key::F => 0x21,
        Key::G => 0x22,
        Key::H => 0x23,
        Key::J => 0x24,
        Key::K => 0x25,
        Key::L => 0x26,
        Key::Semicolon => 0x27,
        Key::SingleQuote => 0x28,
        Key::BackTick => 0x29,
        Key::LeftShift => 0x2A,
        Key::BackSlash => 0x2B,
        Key::Z => 0x2C,
        Key::X => 0x2D,
        Key::C => 0x2E,
        Key::V => 0x2F,
        Key::B => 0x30,
        Key::N => 0x31,
        Key::M => 0x32,
        Key::Comma => 0x33,
        Key::Period => 0x34,
        Key::Slash => 0x35,
        Key::RightShift => 0x36,
        Key::KeypadAsterisk => 0x37,
        Key::LeftAlt => 0x38,
        Key::Space => 0x39,
        Key::CapsLock => 0x3A,
        Key::F1 => 0x3B,
        Key::F2 => 0x3C,
        Key::F3 => 0x3D,
        Key::F4 => 0x3E,
        Key::F5 => 0x3F,
        Key::F6 => 0x40,
        Key::F7 => 0x41,
        Key::F8 => 0x42,
        Key::F9 => 0x43,
        Key::F10 => 0x44,
        Key::NumberLock => 0x45,
        Key::ScrollLock => 0x46,
        Key::KeypadSeven => 0x47,
        Key::KeypadEight => 0x48,
        Key::KeypadNine => 0x49,
        Key::KeypadDash => 0x4A,
        Key::KeypadFour => 0x4B,
        Key::KeypadFive => 0x4C,
        Key::KeypadSix => 0x4D,
        Key::KeypadPlus => 0x4E,
        Key::KeypadOne => 0x4F,
        Key::KeypadTwo => 0x50,
        Key::KeypadThree => 0x51,
        Key::KeypadZero => 0x52,
        Key::KeypadPeriod => 0x53,
        Key::PassedSelfTest => 0x55,
        Key::F11 => 0x57,
        Key::F12 => 0x58,
        Key::NextIsExtended => 0xE0,
    }
}

/// `b` is the make code of a key.
pub open spec fn is_key_code(b: u8) -> bool {
    b == 0x01 || b == 0x02 || b == 0x03 || b == 0x04 || b == 0x05 || b == 0x06 || b == 0x07 ||
        b == 0x08 || b == 0x09 || b == 0x0A || b == 0x0B || b == 0x0C || b == 0x0D || b == 0x0E ||
        b == 0x0F || b == 0x10 || b == 0x11 || b == 0x12 || b == 0x13 || b == 0x14 || b == 0x15 ||
        b == 0x16 || b == 0x17 || b == 0x18 || b == 0x19 || b == 0x1A || b == 0x1B || b == 0x1C ||
        b == 0x1D || b == 0x1E || b == 0x1F || b == 0x20 || b == 0x21 || b == 0x22 || b == 0x23 ||
        b == 0x24 || b == 0x25 || b == 0x26 || b == 0x27 || b == 0x28 || b == 0x29 || b == 0x2A ||
        b == 0x2B || b == 0x2C || b == 0x2D || b == 0x2E || b == 0x2F || b == 0x30 || b == 0x31 ||
        b == 0x32 || b == 0x33 || b == 0x34 || b == 0x35 || b == 0x36 || b == 0x37 || b == 0x38 ||
        b == 0x39 || b == 0x3A || b == 0x3B || b == 0x3C || b == 0x3D || b == 0x3E || b == 0x3F ||
        b == 0x40 || b == 0x41 || b == 0x42 || b == 0x43 || b == 0x44 || b == 0x45 || b == 0x46 ||
        b == 0x47 || b == 0x48 || b == 0x49 || b == 0x4A || b == 0x4B || b == 0x4C || b == 0x4D ||
        b == 0x4E || b == 0x4F || b == 0x50 || b == 0x51 || b == 0x52 || b == 0x53 || b == 0x55 ||
        b == 0x57 || b == 0x58 || b == 0xE0
}

impl Key {
    /// The scan code of this key.
    pub fn code(&self) -> (r: u8)
        ensures
            r == key_code(*self),
    {
        match self {
            Key::Esc => 0x01,
            Key::One => 0x02,
            Key::Two => 0x03,
            Key::Three => 0x04,
            Key::Four => 0x05,
            Key::Five => 0x06,
            Key::Six => 0x07,
            Key::Seven => 0x08,
            Key::Eight => 0x09,
            Key::Nine => 0x0A,
            Key::Zero => 0x0B,
            Key::Dash => 0x0C,
            Key::Equals => 0x0D,
            Key::Backspace => 0x0E,
            Key::Tab => 0x0F,
            Key::Q => 0x10,
            Key::W => 0x11,
            Key::E => 0x12,
            Key::R => 0x13,
            Key::T => 0x14,
            Key::Y => 0x15,
            Key::U => 0x16,
            Key::I => 0x17,
            Key::O => 0x18,
            Key::P => 0x19,
            Key::LeftBracket => 0x1A,
            Key::RightBracket => 0x1B,
            Key::Enter => 0x1C,
            Key::LeftCtrl => 0x1D,
            Key::A => 0x1E,
            Key::S => 0x1F,
            Key::D => 0x20,
            Key::F => 0x21,
            Key::G => 0x22,
            Key::H => 0x23,
            Key::J => 0x24,
            Key::K => 0x25,
            Key::L => 0x26,
            Key::Semicolon => 0x27,
            Key::SingleQuote => 0x28,
            Key::BackTick => 0x29,
            Key::LeftShift => 0x2A,
            Key::BackSlash => 0x2B,
            Key::Z => 0x2C,
            Key::X => 0x2D,
            Key::C => 0x2E,
            Key::V => 0x2F,
            Key::B => 0x30,
            Key::N => 0x31,
            Key::M => 0x32,
            Key::Comma => 0x33,
            Key::Period => 0x34,
            Key::Slash => 0x35,
            Key::RightShift => 0x36,
            Key::KeypadAsterisk => 0x37,
            Key::LeftAlt => 0x38,
            Key::Space => 0x39,
            Key::CapsLock => 0x3A,
            Key::F1 => 0x3B,
            Key::F2 => 0x3C,
            Key::F3 => 0x3D,
            Key::F4 => 0x3E,
            Key::F5 => 0x3F,
            Key::F6 => 0x40,
            Key::F7 => 0x41,
            Key::F8 => 0x42,
            Key::F9 => 0x43,
            Key::F10 => 0x44,
            Key::NumberLock => 0x45,
            Key::ScrollLock => 0x46,
            Key::KeypadSeven => 0x47,
            Key::KeypadEight => 0x48,
            Key::KeypadNine => 0x49,
            Key::KeypadDash => 0x4A,
            Key::KeypadFour => 0x4B,
            Key::KeypadFive => 0x4C,
            Key::KeypadSix => 0x4D,
            Key::KeypadPlus => 0x4E,
            Key::KeypadOne => 0x4F,
            Key::KeypadTwo => 0x50,
            Key::KeypadThree => 0x51,
            Key::KeypadZero => 0x52,
            Key::KeypadPeriod => 0x53,
            Key::PassedSelfTest => 0x55,
            Key::F11 => 0x57,
            Key::F12 => 0x58,
            Key::NextIsExtended => 0xE0,
        }
    }

    /// The key whose scan code is `b`, if there is one.
    pub fn from_code(b: u8) -> (r: Option<Self>)
        ensures
            r is Some <==> is_key_code(b),
            r matches Some(k) ==> key_code(k) == b,
    {
        match b {
            0x01 => Some(Key::Esc),
            0x02 => Some(Key::One),
            0x03 => Some(Key::Two),
            0x04 => Some(Key::Three),
            0x05 => Some(Key::Four),
            0x06 => Some(Key::Five),
            0x07 => Some(Key::Six),
            0x08 => Some(Key::Seven),
            0x09 => Some(Key::Eight),
            0x0A => Some(Key::Nine),
            0x0B => Some(Key::Zero),
            0x0C => Some(Key::Dash),
            0x0D => Some(Key::Equals),
            0x0E => Some(Key::Backspace),
            0x0F => Some(Key::Tab),
            0x10 => Some(Key::Q),
            0x11 => Some(Key::W),
            0x12 => Some(Key::E),
            0x13 => Some(Key::R),
            0x14 => Some(Key::T),
            0x15 => Some(Key::Y),
            0x16 => Some(Key::U),
            0x17 => Some(Key::I),
            0x18 => Some(Key::O),
            0x19 => Some(Key::P),
            0x1A => Some(Key::LeftBracket),
            0x1B => Some(Key::RightBracket),
            0x1C => Some(Key::Enter),
            0x1D => Some(Key::LeftCtrl),
            0x1E => Some(Key::A),
            0x1F => Some(Key::S),
            0x20 => Some(Key::D),
            0x21 => Some(Key::F),
            0x22 => Some(Key::G),
            0x23 => Some(Key::H),
            0x24 => Some(Key::J),
            0x25 => Some(Key::K),
            0x26 => Some(Key::L),
            0x27 => Some(Key::Semicolon),
            0x28 => Some(Key::SingleQuote),
            0x29 => Some(Key::BackTick),
            0x2A => Some(Key::LeftShift),
            0x2B => Some(Key::BackSlash),
            0x2C => Some(Key::Z),
            0x2D => Some(Key::X),
            0x2E => Some(Key::C),
            0x2F => Some(Key::V),
            0x30 => Some(Key::B),
            0x31 => Some(Key::N),
            0x32 => Some(Key::M),
            0x33 => Some(Key::Comma),
            0x34 => Some(Key::Period),
            0x35 => Some(Key::Slash),
            0x36 => Some(Key::RightShift),
            0x37 => Some(Key::KeypadAsterisk),
            0x38 => Some(Key::LeftAlt),
            0x39 => Some(Key::Space),
            0x3A => Some(Key::CapsLock),
            0x3B => Some(Key::F1),
            0x3C => Some(Key::F2),
            0x3D => Some(Key::F3),
            0x3E => Some(Key::F4),
            0x3F => Some(Key::F5),
            0x40 => Some(Key::F6),
            0x41 => Some(Key::F7),
            0x42 => Some(Key::F8),
            0x43 => Some(Key::F9),
            0x44 => Some(Key::F10),
            0x45 => Some(Key::NumberLock),
            0x46 => Some(Key::ScrollLock),
            0x47 => Some(Key::KeypadSeven),
            0x48 => Some(Key::KeypadEight),
            0x49 => Some(Key::KeypadNine),
            0x4A => Some(Key::KeypadDash),
            0x4B => Some(Key::KeypadFour),
            0x4C => Some(Key::KeypadFive),
            0x4D => Some(Key::KeypadSix),
            0x4E => Some(Key::KeypadPlus),
            0x4F => Some(Key::KeypadOne),
            0x50 => Some(Key::KeypadTwo),
            0x51 => Some(Key::KeypadThree),
            0x52 => Some(Key::KeypadZero),
            0x53 => Some(Key::KeypadPeriod),
            0x55 => Some(Key::PassedSelfTest),
            0x57 => Some(Key::F11),
            0x58 => Some(Key::F12),
            0xE0 => Some(Key::NextIsExtended),
            _ => None,
        }
    }
}

/// A key reached through the 0xE0 prefix.
#[derive(Clone, Copy, PartialEq, Eq, Structural, Debug)]
pub enum ExtendedKeyCode {
    PreviousTrack,
    NextTrack,
    KeypadEnter,
    RightCtrl,
    Mute,
    Calculator,
    Play,
    Stop,
    LowerVolume,
    RaiseVolume,
    WwwHome,
    KeypadSlash,
    RightAlt,
    CursorUp,
    PageUp,
    CursorLeft,
    CursorRight,
    End,
    CursorDown,
    PageDown,
    Insert,
    Delete,
    RightGui,
    Apps,
    AcpiPower,
    AcpiSleep,
    AcpiWake,
    WwwSearch,
    WwwFavorites,
    WwwRefresh,
    WwwStop,
    WwwForward,
    WwwBack,
    WwwMyComputer,
    Email,
    MediaSelect,
}

/// The scan code of each ExtendedKeyCode value.
pub open spec fn extended_code(k: ExtendedKeyCode) -> u8 {
    match k {
        ExtendedKeyCode::PreviousTrack => 0x10,
        ExtendedKeyCode::NextTrack => 0x19,
        ExtendedKeyCode::KeypadEnter => 0x1C,
        ExtendedKeyCode::RightCtrl => 0x1D,
        ExtendedKeyCode::Mute => 0x20,
        ExtendedKeyCode::Calculator => 0x21,
        ExtendedKeyCode::Play => 0x22,
        ExtendedKeyCode::Stop => 0x24,
        ExtendedKeyCode::LowerVolume => 0x2E,
        ExtendedKeyCode::RaiseVolume => 0x30,
        ExtendedKeyCode::WwwHome => 0x32,
        ExtendedKeyCode::KeypadSlash => 0x35,
        ExtendedKeyCode::RightAlt => 0x38,
        ExtendedKeyCode::CursorUp => 0x48,
        ExtendedKeyCode::PageUp => 0x49,
        ExtendedKeyCode::CursorLeft => 0x4B,
        ExtendedKeyCode::CursorRight => 0x4D,
        ExtendedKeyCode::End => 0x4F,
        ExtendedKeyCode::CursorDown => 0x50,
        ExtendedKeyCode::PageDown => 0x51,
        ExtendedKeyCode::Insert => 0x52,
        ExtendedKeyCode::Delete => 0x53,
        ExtendedKeyCode::RightGui => 0x5C,
        ExtendedKeyCode::Apps => 0x5D,
        ExtendedKeyCode::AcpiPower => 0x5E,
        ExtendedKeyCode::AcpiSleep => 0x5F,
        ExtendedKeyCode::AcpiWake => 0x63,
        ExtendedKeyCode::WwwSearch => 0x65,
        ExtendedKeyCode::WwwFavorites => 0x66,
        ExtendedKeyCode::WwwRefresh => 0x67,
        ExtendedKeyCode::WwwStop => 0x68,
        ExtendedKeyCode::WwwForward => 0x69,
        ExtendedKeyCode::WwwBack => 0x6A,
        ExtendedKeyCode::WwwMyComputer => 0x6B,
        ExtendedKeyCode::Email => 0x6C,
        ExtendedKeyCode::MediaSelect => 0x6D,
    }
}

/// `b` is the code of an extended key.
pub open spec fn is_extended_code(b: u8) -> bool {
    b == 0x10 || b == 0x19 || b == 0x1C || b == 0x1D || b == 0x20 || b == 0x21 || b == 0x22 ||
        b == 0x24 || b == 0x2E || b == 0x30 || b == 0x32 || b == 0x35 || b == 0x38 || b == 0x48 ||
        b == 0x49 || b == 0x4B || b == 0x4D || b == 0x4F || b == 0x50 || b == 0x51 || b == 0x52 ||
        b == 0x53 || b == 0x5C || b == 0x5D || b == 0x5E || b == 0x5F || b == 0x63 || b == 0x65 ||
        b == 0x66 || b == 0x67 || b == 0x68 || b == 0x69 || b == 0x6A || b == 0x6B || b == 0x6C ||
        b == 0x6D
}

impl ExtendedKeyCode {
    /// The scan code of this key.
    pub fn code(&self) -> (r: u8)
        ensures
            r == extended_code(*self),
    {
        match self {
            ExtendedKeyCode::PreviousTrack => 0x10,
            ExtendedKeyCode::NextTrack => 0x19,
            ExtendedKeyCode::KeypadEnter => 0x1C,
            ExtendedKeyCode::RightCtrl => 0x1D,
            ExtendedKeyCode::Mute => 0x20,
            ExtendedKeyCode::Calculator => 0x21,
            ExtendedKeyCode::Play => 0x22,
            ExtendedKeyCode::Stop => 0x24,
            ExtendedKeyCode::LowerVolume => 0x2E,
            ExtendedKeyCode::RaiseVolume => 0x30,
            ExtendedKeyCode::WwwHome => 0x32,
            ExtendedKeyCode::KeypadSlash => 0x35,
            ExtendedKeyCode::RightAlt => 0x38,
            ExtendedKeyCode::CursorUp => 0x48,
            ExtendedKeyCode::PageUp => 0x49,
            ExtendedKeyCode::CursorLeft => 0x4B,
            ExtendedKeyCode::CursorRight => 0x4D,
            ExtendedKeyCode::End => 0x4F,
            ExtendedKeyCode::CursorDown => 0x50,
            ExtendedKeyCode::PageDown => 0x51,
            ExtendedKeyCode::Insert => 0x52,
            ExtendedKeyCode::Delete => 0x53,
            ExtendedKeyCode::RightGui => 0x5C,
            ExtendedKeyCode::Apps => 0x5D,
            ExtendedKeyCode::AcpiPower => 0x5E,
            ExtendedKeyCode::AcpiSleep => 0x5F,
            ExtendedKeyCode::AcpiWake => 0x63,
            ExtendedKeyCode::WwwSearch => 0x65,
            ExtendedKeyCode::WwwFavorites => 0x66,
            ExtendedKeyCode::WwwRefresh => 0x67,
            ExtendedKeyCode::WwwStop => 0x68,
            ExtendedKeyCode::WwwForward => 0x69,
            ExtendedKeyCode::WwwBack => 0x6A,
            ExtendedKeyCode::WwwMyComputer => 0x6B,
            ExtendedKeyCode::Email => 0x6C,
            ExtendedKeyCode::MediaSelect => 0x6D,
        }
    }

    /// The key whose scan code is `b`, if there is one.
    pub fn from_code(b: u8) -> (r: Option<Self>)
        ensures
            r is Some <==> is_extended_code(b),
            r matches Some(k) ==> extended_code(k) == b,
    {
        match b {
            0x10 => Some(ExtendedKeyCode::PreviousTrack),
            0x19 => Some(ExtendedKeyCode::NextTrack),
            0x1C => Some(ExtendedKeyCode::KeypadEnter),
            0x1D => Some(ExtendedKeyCode::RightCtrl),
            0x20 => Some(ExtendedKeyCode::Mute),
            0x21 => Some(ExtendedKeyCode::Calculator),
            0x22 => Some(ExtendedKeyCode::Play),
            0x24 => Some(ExtendedKeyCode::Stop),
            0x2E => Some(ExtendedKeyCode::LowerVolume),
            0x30 => Some(ExtendedKeyCode::RaiseVolume),
            0x32 => Some(ExtendedKeyCode::WwwHome),
            0x35 => Some(ExtendedKeyCode::KeypadSlash),
            0x38 => Some(ExtendedKeyCode::RightAlt),
            0x48 => Some(ExtendedKeyCode::CursorUp),
            0x49 => Some(ExtendedKeyCode::PageUp),
            0x4B => Some(ExtendedKeyCode::CursorLeft),
            0x4D => Some(ExtendedKeyCode::CursorRight),
            0x4F => Some(ExtendedKeyCode::End),
            0x50 => Some(ExtendedKeyCode::CursorDown),
            0x51 => Some(ExtendedKeyCode::PageDown),
            0x52 => Some(ExtendedKeyCode::Insert),
            0x53 => Some(ExtendedKeyCode::Delete),
            0x5C => Some(ExtendedKeyCode::RightGui),
            0x5D => Some(ExtendedKeyCode::Apps),
            0x5E => Some(ExtendedKeyCode::AcpiPower),
            0x5F => Some(ExtendedKeyCode::AcpiSleep),
            0x63 => Some(ExtendedKeyCode::AcpiWake),
            0x65 => Some(ExtendedKeyCode::WwwSearch),
            0x66 => Some(ExtendedKeyCode::WwwFavorites),
            0x67 => Some(ExtendedKeyCode::WwwRefresh),
            0x68 => Some(ExtendedKeyCode::WwwStop),
            0x69 => Some(ExtendedKeyCode::WwwForward),
            0x6A => Some(ExtendedKeyCode::WwwBack),
            0x6B => Some(ExtendedKeyCode::WwwMyComputer),
            0x6C => Some(ExtendedKeyCode::Email),
            0x6D => Some(ExtendedKeyCode::MediaSelect),
            _ => None,
        }
    }
}

/// A key that produces no character.
#[derive(Clone, Copy, PartialEq, Eq, Structural, Debug)]
pub enum SpecialKey {
    Esc,
    One,
    Two,
    Three,
    Four,
    Five,
    Six,
    Seven,
    Eight,
    Nine,
    Zero,
    Backspace,
    Tab,
    Enter,
    LeftCtrl,
    LeftShift,
    RightShift,
    LeftAlt,
    CapsLock,
    F1,
    F2,
    F3,
    F4,
    F5,
    F6,
    F7,
    F8,
    F9,
    F10,
    NumberLock,
    ScrollLock,
    F11,
    F12,
}

/// The scan code of each SpecialKey value.
pub open spec fn special_code(k: SpecialKey) -> u8 {
    match k {
        SpecialKey::Esc => 0x01,
        SpecialKey::One => 0x02,
        SpecialKey::Two => 0x03,
        SpecialKey::Three => 0x04,
        SpecialKey::Four => 0x05,
        SpecialKey::Five => 0x06,
        SpecialKey::Six => 0x07,
        SpecialKey::Seven => 0x08,
        SpecialKey::Eight => 0x09,
        SpecialKey::Nine => 0x0A,
        SpecialKey::Zero => 0x0B,
        SpecialKey::Backspace => 0x0E,
        SpecialKey::Tab => 0x0F,
        SpecialKey::Enter => 0x1C,
        SpecialKey::LeftCtrl => 0x1D,
        SpecialKey::LeftShift => 0x2A,
        SpecialKey::RightShift => 0x36,
        SpecialKey::LeftAlt => 0x38,
        SpecialKey::CapsLock => 0x3A,
        SpecialKey::F1 => 0x3B,
        SpecialKey::F2 => 0x3C,
        SpecialKey::F3 => 0x3D,
        SpecialKey::F4 => 0x3E,
        SpecialKey::F5 => 0x3F,
        SpecialKey::F6 => 0x40,
        SpecialKey::F7 => 0x41,
        SpecialKey::F8 => 0x42,
        SpecialKey::F9 => 0x43,
        SpecialKey::F10 => 0x44,
        SpecialKey::NumberLock => 0x45,
        SpecialKey::ScrollLock => 0x46,
        SpecialKey::F11 => 0x57,
        SpecialKey::F12 => 0x58,
    }
}

/// `b` is the make code of a special key.
pub open spec fn is_special_code(b: u8) -> bool {
    b == 0x01 || b == 0x02 || b == 0x03 || b == 0x04 || b == 0x05 || b == 0x06 || b == 0x07 ||
        b == 0x08 || b == 0x09 || b == 0x0A || b == 0x0B || b == 0x0E || b == 0x0F || b == 0x1C ||
        b == 0x1D || b == 0x2A || b == 0x36 || b == 0x38 || b == 0x3A || b == 0x3B || b == 0x3C ||
        b == 0x3D || b == 0x3E || b == 0x3F || b == 0x40 || b == 0x41 || b == 0x42 || b == 0x43 ||
        b == 0x44 || b == 0x45 || b == 0x46 || b == 0x57 || b == 0x58
}

impl SpecialKey {
    /// The scan code of this key.
    pub fn code(&self) -> (r: u8)
        ensures
            r == special_code(*self),
    {
        match self {
            SpecialKey::Esc => 0x01,
            SpecialKey::One => 0x02,
            SpecialKey::Two => 0x03,
            SpecialKey::Three => 0x04,
            SpecialKey::Four => 0x05,
            SpecialKey::Five => 0x06,
            SpecialKey::Six => 0x07,
            SpecialKey::Seven => 0x08,
            SpecialKey::Eight => 0x09,
            SpecialKey::Nine => 0x0A,
            SpecialKey::Zero => 0x0B,
            SpecialKey::Backspace => 0x0E,
            SpecialKey::Tab => 0x0F,
            SpecialKey::Enter => 0x1C,
            SpecialKey::LeftCtrl => 0x1D,
            SpecialKey::LeftShift => 0x2A,
            SpecialKey::RightShift => 0x36,
            SpecialKey::LeftAlt => 0x38,
            SpecialKey::CapsLock => 0x3A,
            SpecialKey::F1 => 0x3B,
            SpecialKey::F2 => 0x3C,
            SpecialKey::F3 => 0x3D,
            SpecialKey::F4 => 0x3E,
            SpecialKey::F5 => 0x3F,
            SpecialKey::F6 => 0x40,
            SpecialKey::F7 => 0x41,
            SpecialKey::F8 => 0x42,
            SpecialKey::F9 => 0x43,
            SpecialKey::F10 => 0x44,
            SpecialKey::NumberLock => 0x45,
            SpecialKey::ScrollLock => 0x46,
            SpecialKey::F11 => 0x57,
            SpecialKey::F12 => 0x58,
        }
    }

    /// The key whose scan code is `b`, if there is one.
    pub fn from_code(b: u8) -> (r: Option<Self>)
        ensures
            r is Some <==> is_special_code(b),
            r matches Some(k) ==> special_code(k) == b,
    {
        match b {
            0x01 => Some(SpecialKey::Esc),
            0x02 => Some(SpecialKey::One),
            0x03 => Some(SpecialKey::Two),
            0x04 => Some(SpecialKey::Three),
            0x05 => Some(SpecialKey::Four),
            0x06 => Some(SpecialKey::Five),
            0x07 => Some(SpecialKey::Six),
            0x08 => Some(SpecialKey::Seven),
            0x09 => Some(SpecialKey::Eight),
            0x0A => Some(SpecialKey::Nine),
            0x0B => Some(SpecialKey::Zero),
            0x0E => Some(SpecialKey::Backspace),
            0x0F => Some(SpecialKey::Tab),
            0x1C => Some(SpecialKey::Enter),
            0x1D => Some(SpecialKey::LeftCtrl),
            0x2A => Some(SpecialKey::LeftShift),
            0x36 => Some(SpecialKey::RightShift),
            0x38 => Some(SpecialKey::LeftAlt),
            0x3A => Some(SpecialKey::CapsLock),
            0x3B => Some(SpecialKey::F1),
            0x3C => Some(SpecialKey::F2),
            0x3D => Some(SpecialKey::F3),
            0x3E => Some(SpecialKey::F4),
            0x3F => Some(SpecialKey::F5),
            0x40 => Some(SpecialKey::F6),
            0x41 => Some(SpecialKey::F7),
            0x42 => Some(SpecialKey::F8),
            0x43 => Some(SpecialKey::F9),
            0x44 => Some(SpecialKey::F10),
            0x45 => Some(SpecialKey::NumberLock),
            0x46 => Some(SpecialKey::ScrollLock),
            0x57 => Some(SpecialKey::F11),
            0x58 => Some(SpecialKey::F12),
            _ => None,
        }
    }
}

/// The character that the key with make code `b` types; 0 for none.
pub open spec fn ascii_of(b: u8) -> u8 {
    match b {
        0x02 => 0x31,
        0x03 => 0x32,
        0x04 => 0x33,
        0x05 => 0x34,
        0x06 => 0x35,
        0x07 => 0x36,
        0x08 => 0x37,
        0x09 => 0x38,
        0x0A => 0x39,
        0x0B => 0x30,
        0x0C => 0x2D,
        0x0D => 0x3D,
        0x10 => 0x71,
        0x11 => 0x77,
        0x12 => 0x65,
        0x13 => 0x72,
        0x14 => 0x74,
        0x15 => 0x79,
        0x16 => 0x75,
        0x17 => 0x69,
        0x18 => 0x6F,
        0x19 => 0x70,
        0x1A => 0x5B,
        0x1B => 0x5D,
        0x1E => 0x61,
        0x1F => 0x73,
        0x20 => 0x64,
        0x21 => 0x66,
        0x22 => 0x67,
        0x23 => 0x68,
        0x24 => 0x6A,
        0x25 => 0x6B,
        0x26 => 0x6C,
        0x27 => 0x3B,
        0x28 => 0x27,
        0x29 => 0x60,
        0x2B => 0x5C,
        0x2C => 0x7A,
        0x2D => 0x78,
        0x2E => 0x63,
        0x2F => 0x76,
        0x30 => 0x62,
        0x31 => 0x6E,
        0x32 => 0x6D,
        0x33 => 0x2C,
        0x34 => 0x2E,
        0x35 => 0x2F,
        0x39 => 0x20,
        _ => 0,
    }
}

/// The character that the key with scan code `byte` types; 0 for none.
fn key_table(byte: u8) -> (r: u8)
    ensures
        r == ascii_of(byte),
{
    match byte {
        0x02 => 0x31,
        0x03 => 0x32,
        0x04 => 0x33,
        0x05 => 0x34,
        0x06 => 0x35,
        0x07 => 0x36,
        0x08 => 0x37,
        0x09 => 0x38,
        0x0A => 0x39,
        0x0B => 0x30,
        0x0C => 0x2D,
        0x0D => 0x3D,
        0x10 => 0x71,
        0x11 => 0x77,
        0x12 => 0x65,
        0x13 => 0x72,
        0x14 => 0x74,
        0x15 => 0x79,
        0x16 => 0x75,
        0x17 => 0x69,
        0x18 => 0x6F,
        0x19 => 0x70,
        0x1A => 0x5B,
        0x1B => 0x5D,
        0x1E => 0x61,
        0x1F => 0x73,
        0x20 => 0x64,
        0x21 => 0x66,
        0x22 => 0x67,
        0x23 => 0x68,
        0x24 => 0x6A,
        0x25 => 0x6B,
        0x26 => 0x6C,
        0x27 => 0x3B,
        0x28 => 0x27,
        0x29 => 0x60,
        0x2B => 0x5C,
        0x2C => 0x7A,
        0x2D => 0x78,
        0x2E => 0x63,
        0x2F => 0x76,
        0x30 => 0x62,
        0x31 => 0x6E,
        0x32 => 0x6D,
        0x33 => 0x2C,
        0x34 => 0x2E,
        0x35 => 0x2F,
        0x39 => 0x20,
        _ => 0,
    }
}

impl Key {
    /// The key for make code `byte`; the extended-code prefix is no key.
    pub fn try_from(byte: u8) -> (r: Option<Self>)
        ensures
            r is Some <==> is_key_code(byte) && byte != 0xE0,
            r matches Some(k) ==> key_code(k) == byte,
    {
        if byte == 0xE0 {
            None
        } else {
            Key::from_code(byte)
        }
    }
}

impl ExtendedKeyCode {
    /// The extended key for the byte that follows the 0xE0 prefix.
    pub fn try_from(byte: u8) -> (r: Option<Self>)
        ensures
            r is Some <==> is_extended_code(byte),
            r matches Some(k) ==> extended_code(k) == byte,
    {
        ExtendedKeyCode::from_code(byte)
    }
}

/// The make code of scan code `b`: releases are the make code plus 0x80.
pub open spec fn make_code(b: u8) -> u8 {
    if b > RELEASE_GAP { (b - RELEASE_GAP) as u8 } else { b }
}

impl SpecialKey {
    /// The special key that scan code `byte` presses or releases.
    pub fn try_from(byte: u8) -> (r: Result<Self, ()>)
        ensures
            r is Ok <==> is_special_code(make_code(byte)),
            r matches Ok(k) ==> special_code(k) == make_code(byte),
    {
        let code = if byte > RELEASE_GAP { byte - RELEASE_GAP } else { byte };
        match SpecialKey::from_code(code) {
            Some(k) => Ok(k),
            None => Err(()),
        }
    }
}

/// A decoded key event.
#[derive(Clone, Copy, PartialEq, Eq, Structural, Debug)]
pub enum KeyCode {
    AsciiUp(u8),
    AsciiDown(u8),
    SpecialUp(SpecialKey),
    SpecialDown(SpecialKey),
    ExtendedDown(ExtendedKeyCode),
    ExtendedUp(ExtendedKeyCode),
}

impl KeyCode {
    /// Decodes scan code `byte`: a special key pressed or released, else a
    /// key that types a character, else nothing.
    pub fn from_byte(byte: u8) -> (r: Option<Self>)
        ensures
            is_special_code(make_code(byte)) && byte > RELEASE_GAP ==> (r matches Some(KeyCode::SpecialUp(k))
                && special_code(k) == make_code(byte)),
            is_special_code(make_code(byte)) && byte <= RELEASE_GAP ==> (r matches Some(KeyCode::SpecialDown(k))
                && special_code(k) == byte),
            !is_special_code(make_code(byte)) && ascii_of(byte) != 0 ==> r == Some(
                if byte > RELEASE_GAP { KeyCode::AsciiUp(ascii_of(byte)) } else { KeyCode::AsciiDown(ascii_of(byte)) },
            ),
            !is_special_code(make_code(byte)) && ascii_of(byte) == 0 ==> r is None,
    {
        match SpecialKey::try_from(byte) {
            Ok(special_key) => {
                if byte > RELEASE_GAP {
                    Some(KeyCode::SpecialUp(special_key))
                } else {
                    Some(KeyCode::SpecialDown(special_key))
                }
            },
            Err(_) => {
                let c = key_table(byte);
                if c != 0 {
                    if byte > RELEASE_GAP {
                        Some(KeyCode::AsciiUp(c))
                    } else {
                        Some(KeyCode::AsciiDown(c))
                    }
                } else {
                    None
                }
            },
        }
    }

    /// Decodes the byte that follows the 0xE0 prefix.
    pub fn from_extended_byte(ext_byte: u8) -> (r: Option<Self>)
        ensures
            !is_extended_code(ext_byte) ==> r is None,
            is_extended_code(ext_byte) && ext_byte > 0x8F ==> (r matches Some(KeyCode::ExtendedUp(k))
                && extended_code(k) == ext_byte),
            is_extended_code(ext_byte) && ext_byte <= 0x8F ==> (r matches Some(KeyCode::ExtendedDown(k))
                && extended_code(k) == ext_byte),
    {
        match ExtendedKeyCode::try_from(ext_byte) {
            Some(code) => {
                if ext_byte > 0x8F {
                    Some(KeyCode::ExtendedUp(code))
                } else {
                    Some(KeyCode::ExtendedDown(code))
                }
            },
            None => None,
        }
    }
}

/// The keyboard's LEDs: bit 0 scroll lock, bit 1 num lock, bit 2 caps lock.
#[derive(Clone, Copy, PartialEq, Eq, Structural, Debug)]
pub struct LEDState {
    pub bits: u8,
}

impl LEDState {
    /// All LEDs off.
    pub fn new() -> (r: Self)
        ensures
            r.bits == 0,
    {
        LEDState { bits: 0 }
    }

    pub fn enable_scroll_lock(&mut self)
        ensures
            final(self).bits == old(self).bits | 1,
    {
        self.bits = self.bits | 1;
    }

    pub fn enable_num_lock(&mut self)
        ensures
            final(self).bits == old(self).bits | 2,
    {
        self.bits = self.bits | 2;
    }

    pub fn enable_caps_lock(&mut self)
        ensures
            final(self).bits == old(self).bits | 4,
    {
        self.bits = self.bits | 4;
    }
}

/// The scan code set to select, or `GetSet` to ask which one is in use.
#[derive(Clone, Copy, PartialEq, Eq, Structural, Debug)]
pub enum ScanCodeSet {
    GetSet,
    One,
    Two,
    Three,
}

pub open spec fn scan_code_set_value(s: ScanCodeSet) -> u8 {
    match s {
        ScanCodeSet::GetSet => 0,
        ScanCodeSet::One => 1,
        ScanCodeSet::Two => 2,
        ScanCodeSet::Three => 3,
    }
}

impl ScanCodeSet {
    pub fn value(&self) -> (r: u8)
        ensures
            r == scan_code_set_value(*self),
    {
        match self {
            ScanCodeSet::GetSet => 0,
            ScanCodeSet::One => 1,
            ScanCodeSet::Two => 2,
            ScanCodeSet::Three => 3,
        }
    }
}

/// A command to the keyboard.
#[derive(Clone, Copy, PartialEq, Eq, Structural, Debug)]
pub enum Command {
    SetLEDs(LEDState),
    Echo,
    GetSetScanCodeSet(ScanCodeSet),
    IdentifyKeyboard,
    Enable,
    Disable,
    SetDefault,
    ResendLastByte,
    ResetAndSelfTest,
}

/// The command byte of each command.
pub open spec fn command_code(c: Command) -> u8 {
    match c {
        Command::SetLEDs(_) => 0xED,
        Command::Echo => 0xEE,
        Command::GetSetScanCodeSet(_) => 0xF0,
        Command::IdentifyKeyboard => 0xF2,
        Command::Enable => 0xF4,
        Command::Disable => 0xF5,
        Command::SetDefault => 0xF6,
        Command::ResendLastByte => 0xFE,
        Command::ResetAndSelfTest => 0xFF,
    }
}

/// The bytes sent for a command: its command byte, then its data byte if
/// it has one.
pub open spec fn command_bytes(c: Command) -> Seq<u8> {
    match c {
        Command::SetLEDs(state) => seq![0xEDu8, state.bits],
        Command::GetSetScanCodeSet(set) => seq![0xF0u8, scan_code_set_value(set)],
        _ => seq![command_code(c)],
    }
}

impl Command {
    /// The command byte.
    pub fn code(&self) -> (r: u8)
        ensures
            r == command_code(*self),
    {
        match self {
            Command::SetLEDs(_) => 0xED,
            Command::Echo => 0xEE,
            Command::GetSetScanCodeSet(_) => 0xF0,
            Command::IdentifyKeyboard => 0xF2,
            Command::Enable => 0xF4,
            Command::Disable => 0xF5,
            Command::SetDefault => 0xF6,
            Command::ResendLastByte => 0xFE,
            Command::ResetAndSelfTest => 0xFF,
        }
    }

    /// The bytes to write to the keyboard for this command.
    pub fn bytes(&self) -> (r: Vec<u8>)
        ensures
            r@ == command_bytes(*self),
    {
        let mut v: Vec<u8> = Vec::new();
        v.push(self.code());
        match self {
            Command::SetLEDs(state) => v.push(state.bits),
            Command::GetSetScanCodeSet(set) => v.push(set.value()),
            _ => {},
        }
        assert(v@ =~= command_bytes(*self));
        v
    }
}

/// `k` is the key event that scan code `byte` decodes to.
pub open spec fn decoded_as(byte: u8, k: KeyCode) -> bool {
    if is_special_code(make_code(byte)) {
        if byte > RELEASE_GAP {
            k matches KeyCode::SpecialUp(s) && special_code(s) == make_code(byte)
        } else {
            k matches KeyCode::SpecialDown(s) && special_code(s) == byte
        }
    } else if byte > RELEASE_GAP {
        k == KeyCode::AsciiUp(ascii_of(byte)) && ascii_of(byte) != 0
    } else {
        k == KeyCode::AsciiDown(ascii_of(byte)) && ascii_of(byte) != 0
    }
}

/// Capacity of the key and command queues.
pub const QUEUE_LEN: usize = 256;

/// The keyboard driver's state: decoded key events waiting to be read, and
/// commands waiting to be sent.
pub struct Keyboard {
    key_buffer: CircularBuffer<256, KeyCode>,
    cmd_buffer: CircularBuffer<256, Command>,
}

impl Keyboard {
    /// Key events waiting to be read, oldest first.
    pub closed spec fn keys(&self) -> Seq<KeyCode> {
        self.key_buffer.items()
    }

    /// Commands waiting to be sent, oldest first.
    pub closed spec fn commands(&self) -> Seq<Command> {
        self.cmd_buffer.items()
    }

    pub closed spec fn wf(&self) -> bool {
        self.key_buffer.wf() && self.cmd_buffer.wf()
    }

    pub fn new() -> (r: Self)
        ensures
            r.wf(),
            r.keys() == Seq::<KeyCode>::empty(),
            r.commands() == Seq::<Command>::empty(),
    {
        Keyboard { key_buffer: CircularBuffer::new(), cmd_buffer: CircularBuffer::new() }
    }

    /// Queues `command`. With nothing queued the command is not queued but
    /// returned as the bytes to send at once.
    pub fn enqueue_command(&mut self, command: Command) -> (r: Option<Vec<u8>>)
        requires
            old(self).wf(),
        ensures
            final(self).wf(),
            final(self).keys() == old(self).keys(),
            old(self).commands().len() == 0 ==> (r matches Some(b) && b@ == command_bytes(command))
                && final(self).commands() == old(self).commands(),
            old(self).commands().len() > 0 ==> r is None && final(self).commands() == (
                if old(self).commands().len() < QUEUE_LEN {
                    old(self).commands().push(command)
                } else {
                    old(self).commands().drop_first().push(command)
                }),
    {
        if self.cmd_buffer.empty() {
            Some(command.bytes())
        } else {
            self.cmd_buffer.push_back(command);
            None
        }
    }

    /// Decodes scan code `byte` and queues the key event; `Err` when the
    /// byte is no key.
    pub fn push_key(&mut self, byte: u8) -> (r: Result<(), ()>)
        requires
            old(self).wf(),
        ensures
            final(self).wf(),
            final(self).commands() == old(self).commands(),
            r is Ok <==> is_special_code(make_code(byte)) || ascii_of(byte) != 0,
            r is Err ==> final(self).keys() == old(self).keys(),
            r is Ok ==> decoded_as(byte, final(self).keys().last()) && final(self).keys() == (
                if old(self).keys().len() < QUEUE_LEN {
                    old(self).keys().push(final(self).keys().last())
                } else {
                    old(self).keys().drop_first().push(final(self).keys().last())
                }),
    {
        match KeyCode::from_byte(byte) {
            Some(key) => {
                self.key_buffer.push_back(key);
                Ok(())
            },
            None => Err(()),
        }
    }

    /// Takes the newest key event.
    pub fn pop_key(&mut self) -> (r: Option<KeyCode>)
        requires
            old(self).wf(),
        ensures
            final(self).wf(),
            final(self).commands() == old(self).commands(),
            old(self).keys().len() == 0 ==> r is None && final(self).keys() == old(self).keys(),
            old(self).keys().len() > 0 ==> r == Some(old(self).keys().last())
                && final(self).keys() == old(self).keys().drop_last(),
    {
        self.key_buffer.pop_back()
    }

    /// Takes the newest queued command and returns the bytes to send for it.
    pub fn send_next_command(&mut self) -> (r: Option<Vec<u8>>)
        requires
            old(self).wf(),
        ensures
            final(self).wf(),
            final(self).keys() == old(self).keys(),
            old(self).commands().len() == 0 ==> r is None && final(self).commands() == old(self).commands(),
            old(self).commands().len() > 0 ==> (r matches Some(b) && b@ == command_bytes(old(self).commands().last()))
                && final(self).commands() == old(self).commands().drop_last(),
    {
        match self.cmd_buffer.pop_back() {
            Some(command) => Some(command.bytes()),
            None => None,
        }
    }
}

} // verus!
