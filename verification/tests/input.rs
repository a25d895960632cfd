use termgrid::{BatteryStatus, Key, KeyBoardState, KeyReport, KeyState, LineEditor, Modifiers, UnixTime};

fn pressed(key: Key) -> KeyReport {
    KeyReport { state: KeyState::Pressed, key, modifiers: Modifiers::none() }
}

#[test]
fn key_state_decodes_report_bytes() {
    assert_eq!(KeyState::from(0u8), KeyState::Idle);
    assert_eq!(KeyState::from(1u8), KeyState::Pressed);
    assert_eq!(KeyState::from(2u8), KeyState::Hold);
    assert_eq!(KeyState::from(3u8), KeyState::Released);
    assert_eq!(KeyState::from(9u8), KeyState::Idle);
}

#[test]
fn key_decodes_code_bytes() {
    assert_eq!(Key::from(0u8), Key::NoKey);
    assert_eq!(Key::from(0x0au8), Key::Enter);
    assert_eq!(Key::from(0xb5u8), Key::Up);
    assert_eq!(Key::from(0x81u8), Key::F1);
    assert_eq!(Key::from(b'a'), Key::Char('a'));
    assert_eq!(Key::from(b'='), Key::Char('='));
}

#[test]
fn keyboard_state_debounces_and_tracks_modifiers() {
    let mut kbd = KeyBoardState::new();
    // A repeated report yields nothing.
    let r1 = kbd.process(KeyState::Pressed, Key::Char('a'));
    assert!(r1.is_some());
    let r2 = kbd.process(KeyState::Pressed, Key::Char('a'));
    assert!(r2.is_none());
    // Holding control sets the flag; a following key carries it.
    let _ = kbd.process(KeyState::Hold, Key::ModControl);
    let r3 = kbd.process(KeyState::Pressed, Key::Char('c')).unwrap();
    assert!(r3.modifiers.ctrl);
    // Releasing clears it.
    let _ = kbd.process(KeyState::Released, Key::ModControl);
    let r4 = kbd.process(KeyState::Pressed, Key::Char('c')).unwrap();
    assert!(!r4.modifiers.ctrl);
    // Idle with no key is remembered but reported as nothing.
    assert!(kbd.process(KeyState::Idle, Key::NoKey).is_none());
}

#[test]
fn battery_status_splits_percentage_and_charging() {
    let b = BatteryStatus(0x80 | 55);
    assert_eq!(b.percentage(), 55);
    assert!(b.is_charging());
    let b2 = termgrid::keys::get_battery(42);
    assert_eq!(b2.percentage(), 42);
    assert!(!b2.is_charging());
    let full = BatteryStatus(0xff);
    assert_eq!(full.percentage(), 127);
    assert!(full.is_charging());
}

#[test]
fn line_editor_inserts_deletes_and_submits() {
    let mut ed = LineEditor::new();
    assert!(ed.apply_key(pressed(Key::Char('h'))).is_none());
    assert!(ed.apply_key(pressed(Key::Char('i'))).is_none());
    assert_eq!(ed.input(), &vec!['h', 'i']);
    // Backspace at the end removes the last character.
    assert!(ed.apply_key(pressed(Key::BackSpace)).is_none());
    assert_eq!(ed.input(), &vec!['h']);
    let out = ed.apply_key(pressed(Key::Enter)).unwrap();
    assert_eq!(out, vec!['h']);
    assert!(ed.input().is_empty());
    // Non-pressed events do nothing.
    let held = KeyReport { state: KeyState::Hold, key: Key::Char('x'), modifiers: Modifiers::none() };
    assert!(ed.apply_key(held).is_none());
    assert!(ed.input().is_empty());
}

#[test]
fn line_editor_backspace_mid_line_removes_at_cursor() {
    let mut ed = LineEditor::new();
    let _ = ed.apply_key(pressed(Key::Char('a')));
    let _ = ed.apply_key(pressed(Key::Char('b')));
    let _ = ed.apply_key(pressed(Key::Char('c')));
    // Move the insertion point back by hand (the editor exposes it).
    ed.cursor_x = 1;
    assert!(ed.apply_key(pressed(Key::BackSpace)).is_none());
    assert_eq!(ed.input(), &vec!['a', 'c']);
    assert_eq!(ed.cursor_x, 1);
    // Backspace on an empty line stays put.
    let mut empty = LineEditor::new();
    assert!(empty.apply_key(pressed(Key::BackSpace)).is_none());
    assert_eq!(empty.cursor_x, 0);
}

#[test]
fn ctrl_mapping_follows_xterm_conventions() {
    assert_eq!(termgrid::keys::ctrl_mapping('c'), Some('\x03'));
    assert_eq!(termgrid::keys::ctrl_mapping('C'), Some('\x03'));
    assert_eq!(termgrid::keys::ctrl_mapping('@'), Some('\x00'));
    assert_eq!(termgrid::keys::ctrl_mapping('['), Some('\x1b'));
    assert_eq!(termgrid::keys::ctrl_mapping('?'), Some('\x7f'));
    assert_eq!(termgrid::keys::ctrl_mapping('1'), None);
}

#[test]
fn encode_key_produces_session_bytes() {
    // Control-C.
    let ctrl_c = KeyReport {
        state: KeyState::Pressed,
        key: Key::Char('c'),
        modifiers: Modifiers::ctrl(),
    };
    assert_eq!(termgrid::keys::encode_key(ctrl_c).unwrap(), vec![0x03]);
    // Alt prefixes an escape.
    let alt_x = KeyReport {
        state: KeyState::Pressed,
        key: Key::Char('x'),
        modifiers: Modifiers::alt(),
    };
    assert_eq!(termgrid::keys::encode_key(alt_x).unwrap(), vec![0x1b, b'x']);
    // Arrow and editing keys send their sequences.
    assert_eq!(
        termgrid::keys::encode_key(pressed(Key::Up)).unwrap(),
        vec![0x1b, b'[', b'A']
    );
    assert_eq!(
        termgrid::keys::encode_key(pressed(Key::PageDown)).unwrap(),
        vec![0x1b, b'[', b'6', b'~']
    );
    assert_eq!(termgrid::keys::encode_key(pressed(Key::BackSpace)).unwrap(), vec![0x7f]);
    // A key with no encoding sends nothing.
    assert!(termgrid::keys::encode_key(pressed(Key::F1)).is_none());
    // A plain character sends itself.
    assert_eq!(termgrid::keys::encode_key(pressed(Key::Char('q'))).unwrap(), vec![b'q']);
}

#[test]
fn unix_time_carries_microseconds() {
    let t = UnixTime { seconds: 100, useconds: 900_000 };
    let t2 = t.advanced_by(3, 250_000);
    assert_eq!(t2.seconds, 104);
    assert_eq!(t2.useconds, 150_000);
    // No carry needed.
    let t3 = UnixTime::epoch().advanced_by(5, 10);
    assert_eq!((t3.seconds, t3.useconds), (5, 10));
    // Seconds saturate at the limit instead of wrapping.
    let t4 = UnixTime { seconds: u64::MAX - 1, useconds: 0 }.advanced_by(10, 0);
    assert_eq!(t4.seconds, u64::MAX);
}
