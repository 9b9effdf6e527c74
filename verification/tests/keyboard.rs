use blasterball::keyboard::{KeyCode, KeyDirection, KeyEvent, Keyboard, EXTENDED_CODE};

fn down(keycode: KeyCode) -> Result<Option<KeyEvent>, ()> {
    Ok(Some(KeyEvent { keycode, direction: KeyDirection::Down }))
}

fn up(keycode: KeyCode) -> Result<Option<KeyEvent>, ()> {
    Ok(Some(KeyEvent { keycode, direction: KeyDirection::Up }))
}

#[test]
fn plain_scancodes_are_presses_and_releases() {
    let mut keyboard = Keyboard::new();
    assert_eq!(keyboard.interpret_byte(0x01), down(KeyCode::Escape));
    assert_eq!(keyboard.interpret_byte(0x1e), down(KeyCode::A));
    assert_eq!(keyboard.interpret_byte(0x9e), up(KeyCode::A));
    assert_eq!(keyboard.interpret_byte(0x58), down(KeyCode::F12));
    assert_eq!(keyboard.interpret_byte(0xd8), up(KeyCode::F12));
    assert_eq!(keyboard.interpret_byte(0x39), down(KeyCode::Space));
    assert_eq!(keyboard.interpret_byte(0x81), up(KeyCode::Escape));
}

#[test]
fn scancodes_without_a_key_are_errors() {
    let mut keyboard = Keyboard::new();
    // Outside the ranges of presses and releases
    assert_eq!(keyboard.interpret_byte(0x00), Err(()));
    assert_eq!(keyboard.interpret_byte(0x59), Err(()));
    assert_eq!(keyboard.interpret_byte(0x80), Err(()));
    assert_eq!(keyboard.interpret_byte(0xd9), Err(()));
    assert_eq!(keyboard.interpret_byte(0xff), Err(()));
    // Inside the ranges, but no key has them
    assert_eq!(keyboard.interpret_byte(0x54), Err(()));
    assert_eq!(keyboard.interpret_byte(0x56), Err(()));
    assert_eq!(keyboard.interpret_byte(0xd4), Err(()));
}

#[test]
fn the_extended_code_changes_the_meaning_of_the_next_byte_only() {
    let mut keyboard = Keyboard::new();
    assert_eq!(keyboard.interpret_byte(0x4b), down(KeyCode::KeypadFour));
    assert_eq!(keyboard.interpret_byte(EXTENDED_CODE), Ok(None));
    assert_eq!(keyboard.interpret_byte(0x4b), down(KeyCode::ArrowLeft));
    assert_eq!(keyboard.interpret_byte(0x4b), down(KeyCode::KeypadFour));
    assert_eq!(keyboard.interpret_byte(0xe0), Ok(None));
    assert_eq!(keyboard.interpret_byte(0xcd), up(KeyCode::ArrowRight));
    assert_eq!(keyboard.interpret_byte(0xcd), up(KeyCode::KeypadSix));
}

#[test]
fn an_error_after_the_extended_code_ends_it_too() {
    let mut keyboard = Keyboard::new();
    assert_eq!(keyboard.interpret_byte(0xe0), Ok(None));
    assert_eq!(keyboard.interpret_byte(0x11), Err(()));
    assert_eq!(keyboard.interpret_byte(0x11), down(KeyCode::W));
    assert_eq!(keyboard.interpret_byte(0xe0), Ok(None));
    // After the extended code, the extended code is the release of a key that does not exist
    assert_eq!(keyboard.interpret_byte(0xe0), Err(()));
    assert_eq!(keyboard.interpret_byte(0xe0), Ok(None));
    assert_eq!(keyboard.interpret_byte(0xdf), up(KeyCode::AcpiSleep));
    assert_eq!(keyboard.interpret_byte(0xe0), Ok(None));
    assert_eq!(keyboard.interpret_byte(0x0f), Err(()));
    assert_eq!(keyboard.interpret_byte(0x0f), down(KeyCode::Tab));
}

#[test]
fn extended_ranges() {
    let mut keyboard = Keyboard::new();
    let mut extended = |scancode| {
        assert_eq!(keyboard.interpret_byte(0xe0), Ok(None));
        keyboard.interpret_byte(scancode)
    };
    assert_eq!(extended(0x10), down(KeyCode::PrevTrack));
    assert_eq!(extended(0x6d), down(KeyCode::MediaSelect));
    assert_eq!(extended(0x99), up(KeyCode::NextTrack));
    assert_eq!(extended(0xed), up(KeyCode::MediaSelect));
    assert_eq!(extended(0xdb), up(KeyCode::LeftGUI));
    // The release of the first extended key falls into the range of presses, where no key has it
    assert_eq!(extended(0x90), Err(()));
    assert_eq!(extended(0x91), Err(()));
    assert_eq!(extended(0x98), Err(()));
    assert_eq!(extended(0x0f), Err(()));
    assert_eq!(extended(0xee), Err(()));
    assert_eq!(extended(0x1e), Err(()));
}

#[test]
fn scancode_tables() {
    let keyboard = Keyboard::new();
    assert_eq!(keyboard.map_scancode(0x02), Ok(KeyCode::One));
    assert_eq!(keyboard.map_scancode(0x0b), Ok(KeyCode::Zero));
    assert_eq!(keyboard.map_scancode(0x44), Ok(KeyCode::F10));
    assert_eq!(keyboard.map_scancode(0x57), Ok(KeyCode::F11));
    assert_eq!(keyboard.map_scancode(0x53), Ok(KeyCode::KeypadDot));
    assert_eq!(keyboard.map_scancode(0x00), Err(()));
    assert_eq!(keyboard.map_scancode(0x55), Err(()));
    assert_eq!(keyboard.map_scancode(0x59), Err(()));
    assert_eq!(keyboard.map_extended_scancode(0x1c), Ok(KeyCode::KeypadEnter));
    assert_eq!(keyboard.map_extended_scancode(0x48), Ok(KeyCode::ArrowUp));
    assert_eq!(keyboard.map_extended_scancode(0x50), Ok(KeyCode::ArrowDown));
    assert_eq!(keyboard.map_extended_scancode(0x53), Ok(KeyCode::Delete));
    assert_eq!(keyboard.map_extended_scancode(0x11), Err(()));
    assert_eq!(keyboard.map_extended_scancode(0x01), Err(()));
    let plain = (0..=255u8).filter(|code| keyboard.map_scancode(*code).is_ok()).count();
    let extended = (0..=255u8).filter(|code| keyboard.map_extended_scancode(*code).is_ok()).count();
    assert_eq!((plain, extended), (85, 38));
}
