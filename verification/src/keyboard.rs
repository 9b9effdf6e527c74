//! The keyboard's scancodes (scancode set 1) and what they mean.
use vstd::prelude::*;

verus! {

/// The byte that announces an extended scancode.
pub const EXTENDED_CODE: u8 = 0xe0;

/// Whether a key went down or came up.
#[derive(Debug, Clone, Copy, PartialEq, Eq, Structural)]
pub enum KeyDirection {
    /// The key is being released
    Up,
    /// The key is being pressed down
    Down,
}

/// A code associated with a particular key on the keyboard in scancode set 1.
#[derive(Debug, Clone, Copy, PartialEq, Eq, Structural)]
pub enum KeyCode {
    Escape,
    One,
    Two,
    Three,
    Four,
    Five,
    Six,
    Seven,
    Eight,
    Nine,
    Zero,
    Dash,
    Equals,
    Backspace,
    Tab,
    Q,
    W,
    E,
    R,
    T,
    Y,
    U,
    I,
    O,
    P,
    OpenBracket,
    CloseBracket,
    Enter,
    LeftCtrl,
    A,
    S,
    D,
    F,
    G,
    H,
    J,
    K,
    L,
    SemiColon,
    SingleQuote,
    Backtick,
    LeftShift,
    BackSlash,
    Z,
    X,
    C,
    V,
    B,
    N,
    M,
    Comma,
    Dot,
    ForwardSlash,
    RightShift,
    KeypadStar,
    LeftAlt,
    Space,
    CapsLock,
    F1,
    F2,
    F3,
    F4,
    F5,
    F6,
    F7,
    F8,
    F9,
    F10,
    F11,
    F12,
    NumLock,
    ScrollLock,
    KeypadSeven,
    KeypadEight,
    KeypadNine,
    KeypadDash,
    KeypadFour,
    KeypadFive,
    KeypadSix,
    KeypadOne,
    KeypadTwo,
    KeypadThree,
    KeypadPlus,
    KeypadZero,
    KeypadDot,
    PrevTrack,
    NextTrack,
    KeypadEnter,
    RightCtrl,
    Mute,
    Calculator,
    Play,
    Stop,
    VolumeDown,
    VolumeUp,
    WWWHome,
    KeypadForwardSlash,
    AltGr,
    Home,
    ArrowUp,
    ArrowDown,
    ArrowLeft,
    ArrowRight,
    PageUp,
    End,
    PageDown,
    Insert,
    Delete,
    LeftGUI,
    RightGUI,
    Apps,
    AcpiPower,
    AcpiSleep,
    AcpiWake,
    WWWSearch,
    WWWFavorites,
    WWWRefresh,
    WWWStop,
    WWWForward,
    WWWBack,
    MyComputer,
    Email,
    MediaSelect,
}

/// A key and what happened to it.
#[derive(Debug, Clone, Copy, PartialEq, Eq, Structural)]
pub struct KeyEvent {
    pub keycode: KeyCode,
    pub direction: KeyDirection,
}

/// The key that a plain scancode stands for, if it stands for one.
pub open spec fn scancode_key(scancode: u8) -> Option<KeyCode> {
    match scancode {
        0x01 => Some(KeyCode::Escape),
        0x02 => Some(KeyCode::One),
        0x03 => Some(KeyCode::Two),
        0x04 => Some(KeyCode::Three),
        0x05 => Some(KeyCode::Four),
        0x06 => Some(KeyCode::Five),
        0x07 => Some(KeyCode::Six),
        0x08 => Some(KeyCode::Seven),
        0x09 => Some(KeyCode::Eight),
        0x0a => Some(KeyCode::Nine),
        0x0b => Some(KeyCode::Zero),
        0x0c => Some(KeyCode::Dash),
        0x0d => Some(KeyCode::Equals),
        0x0e => Some(KeyCode::Backspace),
        0x0f => Some(KeyCode::Tab),
        0x10 => Some(KeyCode::Q),
        0x11 => Some(KeyCode::W),
        0x12 => Some(KeyCode::E),
        0x13 => Some(KeyCode::R),
        0x14 => Some(KeyCode::T),
        0x15 => Some(KeyCode::Y),
        0x16 => Some(KeyCode::U),
        0x17 => Some(KeyCode::I),
        0x18 => Some(KeyCode::O),
        0x19 => Some(KeyCode::P),
        0x1a => Some(KeyCode::OpenBracket),
        0x1b => Some(KeyCode::CloseBracket),
        0x1c => Some(KeyCode::Enter),
        0x1d => Some(KeyCode::LeftCtrl),
        0x1e => Some(KeyCode::A),
        0x1f => Some(KeyCode::S),
        0x20 => Some(KeyCode::D),
        0x21 => Some(KeyCode::F),
        0x22 => Some(KeyCode::G),
        0x23 => Some(KeyCode::H),
        0x24 => Some(KeyCode::J),
        0x25 => Some(KeyCode::K),
        0x26 => Some(KeyCode::L),
        0x27 => Some(KeyCode::SemiColon),
        0x28 => Some(KeyCode::SingleQuote),
        0x29 => Some(KeyCode::Backtick),
        0x2a => Some(KeyCode::LeftShift),
        0x2b => Some(KeyCode::BackSlash),
        0x2c => Some(KeyCode::Z),
        0x2d => Some(KeyCode::X),
        0x2e => Some(KeyCode::C),
        0x2f => Some(KeyCode::V),
        0x30 => Some(KeyCode::B),
        0x31 => Some(KeyCode::N),
        0x32 => Some(KeyCode::M),
        0x33 => Some(KeyCode::Comma),
        0x34 => Some(KeyCode::Dot),
        0x35 => Some(KeyCode::ForwardSlash),
        0x36 => Some(KeyCode::RightShift),
        0x37 => Some(KeyCode::KeypadStar),
        0x38 => Some(KeyCode::LeftAlt),
        0x39 => Some(KeyCode::Space),
        0x3a => Some(KeyCode::CapsLock),
        0x3b => Some(KeyCode::F1),
        0x3c => Some(KeyCode::F2),
        0x3d => Some(KeyCode::F3),
        0x3e => Some(KeyCode::F4),
        0x3f => Some(KeyCode::F5),
        0x40 => Some(KeyCode::F6),
        0x41 => Some(KeyCode::F7),
        0x42 => Some(KeyCode::F8),
        0x43 => Some(KeyCode::F9),
        0x44 => Some(KeyCode::F10),
        0x57 => Some(KeyCode::F11),
        0x58 => Some(KeyCode::F12),
        0x45 => Some(KeyCode::NumLock),
        0x46 => Some(KeyCode::ScrollLock),
        0x47 => Some(KeyCode::KeypadSeven),
        0x48 => Some(KeyCode::KeypadEight),
        0x49 => Some(KeyCode::KeypadNine),
        0x4a => Some(KeyCode::KeypadDash),
        0x4b => Some(KeyCode::KeypadFour),
        0x4c => Some(KeyCode::KeypadFive),
        0x4d => Some(KeyCode::KeypadSix),
        0x4e => Some(KeyCode::KeypadPlus),
        0x4f => Some(KeyCode::KeypadOne),
        0x50 => Some(KeyCode::KeypadTwo),
        0x51 => Some(KeyCode::KeypadThree),
        0x52 => Some(KeyCode::KeypadZero),
        0x53 => Some(KeyCode::KeypadDot),
        _ => None,
    }
}

/// The key that a scancode stands for when it follows the extended code,
/// if it stands for one.
pub open spec fn extended_scancode_key(scancode: u8) -> Option<KeyCode> {
    match scancode {
        0x10 => Some(KeyCode::PrevTrack),
        0x19 => Some(KeyCode::NextTrack),
        0x1c => Some(KeyCode::KeypadEnter),
        0x1d => Some(KeyCode::RightCtrl),
        0x20 => Some(KeyCode::Mute),
        0x21 => Some(KeyCode::Calculator),
        0x22 => Some(KeyCode::Play),
        0x24 => Some(KeyCode::Stop),
        0x2e => Some(KeyCode::VolumeDown),
        0x30 => Some(KeyCode::VolumeUp),
        0x32 => Some(KeyCode::WWWHome),
        0x35 => Some(KeyCode::KeypadForwardSlash),
        0x38 => Some(KeyCode::AltGr),
        0x47 => Some(KeyCode::Home),
        0x48 => Some(KeyCode::ArrowUp),
        0x49 => Some(KeyCode::PageUp),
        0x4b => Some(KeyCode::ArrowLeft),
        0x4d => Some(KeyCode::ArrowRight),
        0x4f => Some(KeyCode::End),
        0x50 => Some(KeyCode::ArrowDown),
        0x51 => Some(KeyCode::PageDown),
        0x52 => Some(KeyCode::Insert),
        0x53 => Some(KeyCode::Delete),
        0x5b => Some(KeyCode::LeftGUI),
        0x5c => Some(KeyCode::RightGUI),
        0x5d => Some(KeyCode::Apps),
        0x5e => Some(KeyCode::AcpiPower),
        0x5f => Some(KeyCode::AcpiSleep),
        0x63 => Some(KeyCode::AcpiWake),
        0x65 => Some(KeyCode::WWWSearch),
        0x66 => Some(KeyCode::WWWFavorites),
        0x67 => Some(KeyCode::WWWRefresh),
        0x68 => Some(KeyCode::WWWStop),
        0x69 => Some(KeyCode::WWWForward),
        0x6a => Some(KeyCode::WWWBack),
        0x6b => Some(KeyCode::MyComputer),
        0x6c => Some(KeyCode::Email),
        0x6d => Some(KeyCode::MediaSelect),
        _ => None,
    }
}

/// The event for `key` going in `direction`, or the error for no key.
pub open spec fn key_event(key: Option<KeyCode>, direction: KeyDirection) -> Result<
    Option<KeyEvent>,
    (),
> {
    match key {
        Some(keycode) => Ok(Some(KeyEvent { keycode, direction })),
        None => Err(()),
    }
}

/// What a byte from the keyboard means, given whether it follows the
/// extended code. The extended code itself is no event. A key's release
/// has the scancode of its press plus 0x80.
pub open spec fn interpret(code_is_extended: bool, scancode: u8) -> Result<Option<KeyEvent>, ()> {
    if !code_is_extended {
        if scancode == EXTENDED_CODE {
            Ok(None)
        } else if 0x01 <= scancode <= 0x58 {
            key_event(scancode_key(scancode), KeyDirection::Down)
        } else if 0x81 <= scancode <= 0xd8 {
            key_event(scancode_key((scancode - 0x80) as u8), KeyDirection::Up)
        } else {
            Err(())
        }
    } else {
        if 0x10 <= scancode <= 0x90 {
            key_event(extended_scancode_key(scancode), KeyDirection::Down)
        } else if 0x99 <= scancode <= 0xed {
            key_event(extended_scancode_key((scancode - 0x80) as u8), KeyDirection::Up)
        } else {
            Err(())
        }
    }
}

/// Interprets the bytes that the keyboard sends, one at a time.
pub struct Keyboard {
    // Tells if the next scancode to be interpreted
    // follows an extended scancode
    code_is_extended: bool,
}

impl Keyboard {
    /// Whether the next byte follows the extended code.
    pub closed spec fn code_is_extended(&self) -> bool {
        self.code_is_extended
    }

    /// Creates a new instance of the Keyboard. Initially, the extended
    /// code has not been read.
    pub fn new() -> (keyboard: Keyboard)
        ensures
            !keyboard.code_is_extended(),
    {
        Keyboard { code_is_extended: false }
    }

    /// Accepts a byte and returns the event it stands for. The extended code
    /// gives no event and marks the next byte as extended; any other byte
    /// ends that mark. A byte that stands for no key is an error.
    pub fn interpret_byte(&mut self, scancode: u8) -> (r: Result<Option<KeyEvent>, ()>)
        ensures
            r == interpret(old(self).code_is_extended(), scancode),
            final(self).code_is_extended() == (!old(self).code_is_extended() && scancode
                == EXTENDED_CODE),
    {
        if !self.code_is_extended {
            // scancode does not follow the extended scancode
            if scancode == EXTENDED_CODE {
                // The next scancode follows the extended code
                self.code_is_extended = true;
                // The extended code can't be translated to an event
                Ok(None)
            } else if 0x01 <= scancode && scancode <= 0x58 {
                // The scancode range for regular key presses
                match self.map_scancode(scancode) {
                    Ok(keycode) => Ok(Some(KeyEvent { keycode, direction: KeyDirection::Down })),
                    Err(e) => Err(e),
                }
            } else if 0x81 <= scancode && scancode <= 0xd8 {
                // The scancode range for regular key releases
                match self.map_scancode(scancode - 0x80) {
                    Ok(keycode) => Ok(Some(KeyEvent { keycode, direction: KeyDirection::Up })),
                    Err(e) => Err(e),
                }
            } else {
                // Invalid scancode
                Err(())
            }
        } else {
            // scancode follows the extended scancode
            self.code_is_extended = false;
            if 0x10 <= scancode && scancode <= 0x90 {
                // Range of scancodes for extended key presses
                match self.map_extended_scancode(scancode) {
                    Ok(keycode) => Ok(Some(KeyEvent { keycode, direction: KeyDirection::Down })),
                    Err(e) => Err(e),
                }
            } else if 0x99 <= scancode && scancode <= 0xed {
                // Range for extended key releases
                match self.map_extended_scancode(scancode - 0x80) {
                    Ok(keycode) => Ok(Some(KeyEvent { keycode, direction: KeyDirection::Up })),
                    Err(e) => Err(e),
                }
            } else {
                // Invalid scancode
                Err(())
            }
        }
    }

    /// Takes a scancode that doesn't follow the extended code and returns
    /// its key, or an error when it stands for no key.
    pub fn map_scancode(&self, scancode: u8) -> (r: Result<KeyCode, ()>)
        ensures
            r is Ok <==> scancode_key(scancode) is Some,
            r matches Ok(keycode) ==> scancode_key(scancode) == Some(keycode),
    {
        match scancode {
            0x01 => Ok(KeyCode::Escape),
            0x02 => Ok(KeyCode::One),
            0x03 => Ok(KeyCode::Two),
            0x04 => Ok(KeyCode::Three),
            0x05 => Ok(KeyCode::Four),
            0x06 => Ok(KeyCode::Five),
            0x07 => Ok(KeyCode::Six),
            0x08 => Ok(KeyCode::Seven),
            0x09 => Ok(KeyCode::Eight),
            0x0a => Ok(KeyCode::Nine),
            0x0b => Ok(KeyCode::Zero),
            0x0c => Ok(KeyCode::Dash),
            0x0d => Ok(KeyCode::Equals),
            0x0e => Ok(KeyCode::Backspace),
            0x0f => Ok(KeyCode::Tab),
            0x10 => Ok(KeyCode::Q),
            0x11 => Ok(KeyCode::W),
            0x12 => Ok(KeyCode::E),
            0x13 => Ok(KeyCode::R),
            0x14 => Ok(KeyCode::T),
            0x15 => Ok(KeyCode::Y),
            0x16 => Ok(KeyCode::U),
            0x17 => Ok(KeyCode::I),
            0x18 => Ok(KeyCode::O),
            0x19 => Ok(KeyCode::P),
            0x1a => Ok(KeyCode::OpenBracket),
            0x1b => Ok(KeyCode::CloseBracket),
            0x1c => Ok(KeyCode::Enter),
            0x1d => Ok(KeyCode::LeftCtrl),
            0x1e => Ok(KeyCode::A),
            0x1f => Ok(KeyCode::S),
            0x20 => Ok(KeyCode::D),
            0x21 => Ok(KeyCode::F),
            0x22 => Ok(KeyCode::G),
            0x23 => Ok(KeyCode::H),
            0x24 => Ok(KeyCode::J),
            0x25 => Ok(KeyCode::K),
            0x26 => Ok(KeyCode::L),
            0x27 => Ok(KeyCode::SemiColon),
            0x28 => Ok(KeyCode::SingleQuote),
            0x29 => Ok(KeyCode::Backtick),
            0x2a => Ok(KeyCode::LeftShift),
            0x2b => Ok(KeyCode::BackSlash),
            0x2c => Ok(KeyCode::Z),
            0x2d => Ok(KeyCode::X),
            0x2e => Ok(KeyCode::C),
            0x2f => Ok(KeyCode::V),
            0x30 => Ok(KeyCode::B),
            0x31 => Ok(KeyCode::N),
            0x32 => Ok(KeyCode::M),
            0x33 => Ok(KeyCode::Comma),
            0x34 => Ok(KeyCode::Dot),
            0x35 => Ok(KeyCode::ForwardSlash),
            0x36 => Ok(KeyCode::RightShift),
            0x37 => Ok(KeyCode::KeypadStar),
            0x38 => Ok(KeyCode::LeftAlt),
            0x39 => Ok(KeyCode::Space),
            0x3a => Ok(KeyCode::CapsLock),
            0x3b => Ok(KeyCode::F1),
            0x3c => Ok(KeyCode::F2),
            0x3d => Ok(KeyCode::F3),
            0x3e => Ok(KeyCode::F4),
            0x3f => Ok(KeyCode::F5),
            0x40 => Ok(KeyCode::F6),
            0x41 => Ok(KeyCode::F7),
            0x42 => Ok(KeyCode::F8),
            0x43 => Ok(KeyCode::F9),
            0x44 => Ok(KeyCode::F10),
            0x57 => Ok(KeyCode::F11),
            0x58 => Ok(KeyCode::F12),
            0x45 => Ok(KeyCode::NumLock),
            0x46 => Ok(KeyCode::ScrollLock),
            0x47 => Ok(KeyCode::KeypadSeven),
            0x48 => Ok(KeyCode::KeypadEight),
            0x49 => Ok(KeyCode::KeypadNine),
            0x4a => Ok(KeyCode::KeypadDash),
            0x4b => Ok(KeyCode::KeypadFour),
            0x4c => Ok(KeyCode::KeypadFive),
            0x4d => Ok(KeyCode::KeypadSix),
            0x4e => Ok(KeyCode::KeypadPlus),
            0x4f => Ok(KeyCode::KeypadOne),
            0x50 => Ok(KeyCode::KeypadTwo),
            0x51 => Ok(KeyCode::KeypadThree),
            0x52 => Ok(KeyCode::KeypadZero),
            0x53 => Ok(KeyCode::KeypadDot),
            // Invalid scancode
            _ => Err(()),
        }
    }

    /// Takes a scancode that follows the extended code and returns its key,
    /// or an error when it stands for no key.
    pub fn map_extended_scancode(&self, scancode: u8) -> (r: Result<KeyCode, ()>)
        ensures
            r is Ok <==> extended_scancode_key(scancode) is Some,
            r matches Ok(keycode) ==> extended_scancode_key(scancode) == Some(keycode),
    {
        match scancode {
            0x10 => Ok(KeyCode::PrevTrack),
            0x19 => Ok(KeyCode::NextTrack),
            0x1c => Ok(KeyCode::KeypadEnter),
            0x1d => Ok(KeyCode::RightCtrl),
            0x20 => Ok(KeyCode::Mute),
            0x21 => Ok(KeyCode::Calculator),
            0x22 => Ok(KeyCode::Play),
            0x24 => Ok(KeyCode::Stop),
            0x2e => Ok(KeyCode::VolumeDown),
            0x30 => Ok(KeyCode::VolumeUp),
            0x32 => Ok(KeyCode::WWWHome),
            0x35 => Ok(KeyCode::KeypadForwardSlash),
            0x38 => Ok(KeyCode::AltGr),
            0x47 => Ok(KeyCode::Home),
            0x48 => Ok(KeyCode::ArrowUp),
            0x49 => Ok(KeyCode::PageUp),
            0x4b => Ok(KeyCode::ArrowLeft),
            0x4d => Ok(KeyCode::ArrowRight),
            0x4f => Ok(KeyCode::End),
            0x50 => Ok(KeyCode::ArrowDown),
            0x51 => Ok(KeyCode::PageDown),
            0x52 => Ok(KeyCode::Insert),
            0x53 => Ok(KeyCode::Delete),
            0x5b => Ok(KeyCode::LeftGUI),
            0x5c => Ok(KeyCode::RightGUI),
            0x5d => Ok(KeyCode::Apps),
            0x5e => Ok(KeyCode::AcpiPower),
            0x5f => Ok(KeyCode::AcpiSleep),
            0x63 => Ok(KeyCode::AcpiWake),
            0x65 => Ok(KeyCode::WWWSearch),
            0x66 => Ok(KeyCode::WWWFavorites),
            0x67 => Ok(KeyCode::WWWRefresh),
            0x68 => Ok(KeyCode::WWWStop),
            0x69 => Ok(KeyCode::WWWForward),
            0x6a => Ok(KeyCode::WWWBack),
            0x6b => Ok(KeyCode::MyComputer),
            0x6c => Ok(KeyCode::Email),
            0x6d => Ok(KeyCode::MediaSelect),
            // Invalid scancode
            _ => Err(()),
        }
    }
}

} // verus!
