//! Keyboard input data: the key codes and states the keyboard controller
//! reports, the modifier tracking over them, the battery status byte that
//! shares the controller's report channel, and the encodings that turn a
//! key report into terminal bytes for a remote session.

use vstd::prelude::*;

verus! {

/// The state byte of a key event.
#[derive(Clone, Copy, Debug, PartialEq, Eq, Structural)]
pub enum KeyState {
    Idle,
    Pressed,
    Hold,
    Released,
}

/// The key state a report byte names; unknown bytes read as idle.
pub open spec fn key_state_from_spec(s: u8) -> KeyState {
    if s == 1 {
        KeyState::Pressed
    } else if s == 2 {
        KeyState::Hold
    } else if s == 3 {
        KeyState::Released
    } else {
        KeyState::Idle
    }
}

impl From<u8> for KeyState {
    fn from(s: u8) -> (r: KeyState)
        ensures
            r == key_state_from_spec(s),
    {
        if s == 1 {
            KeyState::Pressed
        } else if s == 2 {
            KeyState::Hold
        } else if s == 3 {
            KeyState::Released
        } else {
            KeyState::Idle
        }
    }
}

impl vstd::std_specs::convert::FromSpecImpl<u8> for KeyState {
    open spec fn obeys_from_spec() -> bool {
        true
    }

    open spec fn from_spec(s: u8) -> KeyState {
        key_state_from_spec(s)
    }
}

/// One key of the keyboard, as decoded from the controller's code byte.
#[derive(Clone, Copy, Debug, PartialEq, Eq, Structural)]
pub enum Key {
    NoKey,
    JoyUp,
    JoyDown,
    JoyLeft,
    JoyRight,
    JoyCenter,
    ButtonLeft1,
    ButtonRight1,
    ButtonLeft2,
    ButtonRight2,
    BackSpace,
    Tab,
    Enter,
    ModAlt,
    ModShiftLeft,
    ModShiftRight,
    ModSymbol,
    ModControl,
    Escape,
    Up,
    Down,
    Left,
    Right,
    Break,
    Insert,
    Home,
    Del,
    End,
    PageUp,
    PageDown,
    CapsLock,
    F1,
    F2,
    F3,
    F4,
    F5,
    F6,
    F7,
    F8,
    F9,
    F10,
    Char(char),
    Other(u8),
}

/// The key a code byte names; bytes with no named key read as the
/// character they encode.
pub open spec fn key_from_spec(k: u8) -> Key {
    if k == 0 {
        Key::NoKey
    } else if k == 1 {
        Key::JoyUp
    } else if k == 2 {
        Key::JoyDown
    } else if k == 3 {
        Key::JoyLeft
    } else if k == 4 {
        Key::JoyRight
    } else if k == 5 {
        Key::JoyCenter
    } else if k == 6 {
        Key::ButtonLeft1
    } else if k == 7 {
        Key::ButtonRight1
    } else if k == 8 {
        Key::BackSpace
    } else if k == 9 {
        Key::Tab
    } else if k == 0x0a {
        Key::Enter
    } else if k == 0x11 {
        Key::ButtonLeft2
    } else if k == 0x12 {
        Key::ButtonRight2
    } else if k == 0xa1 {
        Key::ModAlt
    } else if k == 0xa2 {
        Key::ModShiftLeft
    } else if k == 0xa3 {
        Key::ModShiftRight
    } else if k == 0xa4 {
        Key::ModSymbol
    } else if k == 0xa5 {
        Key::ModControl
    } else if k == 0xb1 {
        Key::Escape
    } else if k == 0xb4 {
        Key::Left
    } else if k == 0xb5 {
        Key::Up
    } else if k == 0xb6 {
        Key::Down
    } else if k == 0xb7 {
        Key::Right
    } else if k == 0xd0 {
        Key::Break
    } else if k == 0xd1 {
        Key::Insert
    } else if k == 0xd2 {
        Key::Home
    } else if k == 0xd4 {
        Key::Del
    } else if k == 0xd5 {
        Key::End
    } else if k == 0xd6 {
        Key::PageUp
    } else if k == 0xd7 {
        Key::PageDown
    } else if k == 0xc1 {
        Key::CapsLock
    } else if k == 0x81 {
        Key::F1
    } else if k == 0x82 {
        Key::F2
    } else if k == 0x83 {
        Key::F3
    } else if k == 0x84 {
        Key::F4
    } else if k == 0x85 {
        Key::F5
    } else if k == 0x86 {
        Key::F6
    } else if k == 0x87 {
        Key::F7
    } else if k == 0x88 {
        Key::F8
    } else if k == 0x89 {
        Key::F9
    } else if k == 0x90 {
        Key::F10
    } else {
        Key::Char(k as char)
    }
}

impl From<u8> for Key {
    fn from(k: u8) -> (r: Key)
        ensures
            r == key_from_spec(k),
    {
        if k == 0 {
            Key::NoKey
        } else if k == 1 {
            Key::JoyUp
        } else if k == 2 {
            Key::JoyDown
        } else if k == 3 {
            Key::JoyLeft
        } else if k == 4 {
            Key::JoyRight
        } else if k == 5 {
            Key::JoyCenter
        } else if k == 6 {
            Key::ButtonLeft1
        } else if k == 7 {
            Key::ButtonRight1
        } else if k == 8 {
            Key::BackSpace
        } else if k == 9 {
            Key::Tab
        } else if k == 0x0a {
            Key::Enter
        } else if k == 0x11 {
            Key::ButtonLeft2
        } else if k == 0x12 {
            Key::ButtonRight2
        } else if k == 0xa1 {
            Key::ModAlt
        } else if k == 0xa2 {
            Key::ModShiftLeft
        } else if k == 0xa3 {
            Key::ModShiftRight
        } else if k == 0xa4 {
            Key::ModSymbol
        } else if k == 0xa5 {
            Key::ModControl
        } else if k == 0xb1 {
            Key::Escape
        } else if k == 0xb4 {
            Key::Left
        } else if k == 0xb5 {
            Key::Up
        } else if k == 0xb6 {
            Key::Down
        } else if k == 0xb7 {
            Key::Right
        } else if k == 0xd0 {
            Key::Break
        } else if k == 0xd1 {
            Key::Insert
        } else if k == 0xd2 {
            Key::Home
        } else if k == 0xd4 {
            Key::Del
        } else if k == 0xd5 {
            Key::End
        } else if k == 0xd6 {
            Key::PageUp
        } else if k == 0xd7 {
            Key::PageDown
        } else if k == 0xc1 {
            Key::CapsLock
        } else if k == 0x81 {
            Key::F1
        } else if k == 0x82 {
            Key::F2
        } else if k == 0x83 {
            Key::F3
        } else if k == 0x84 {
            Key::F4
        } else if k == 0x85 {
            Key::F5
        } else if k == 0x86 {
            Key::F6
        } else if k == 0x87 {
            Key::F7
        } else if k == 0x88 {
            Key::F8
        } else if k == 0x89 {
            Key::F9
        } else if k == 0x90 {
            Key::F10
        } else {
            Key::Char(k as char)
        }
    }
}

impl vstd::std_specs::convert::FromSpecImpl<u8> for Key {
    open spec fn obeys_from_spec() -> bool {
        true
    }

    open spec fn from_spec(k: u8) -> Key {
        key_from_spec(k)
    }
}

/// The modifier keys currently held.
#[derive(Clone, Copy, Debug, PartialEq, Eq, Structural)]
pub struct Modifiers {
    pub ctrl: bool,
    pub alt: bool,
    pub lshift: bool,
    pub rshift: bool,
    pub sym: bool,
}

impl Modifiers {
    /// No modifier held.
    pub open spec fn spec_none() -> Modifiers {
        Modifiers { ctrl: false, alt: false, lshift: false, rshift: false, sym: false }
    }

    #[verifier::when_used_as_spec(spec_none)]
    pub fn none() -> (r: Modifiers)
        ensures
            r == Modifiers::spec_none(),
    {
        Modifiers { ctrl: false, alt: false, lshift: false, rshift: false, sym: false }
    }

    /// Exactly the control key held.
    pub open spec fn spec_ctrl() -> Modifiers {
        Modifiers { ctrl: true, ..Modifiers::spec_none() }
    }

    #[verifier::when_used_as_spec(spec_ctrl)]
    pub fn ctrl() -> (r: Modifiers)
        ensures
            r == Modifiers::spec_ctrl(),
    {
        Modifiers { ctrl: true, alt: false, lshift: false, rshift: false, sym: false }
    }

    /// Exactly the alt key held.
    pub open spec fn spec_alt() -> Modifiers {
        Modifiers { alt: true, ..Modifiers::spec_none() }
    }

    #[verifier::when_used_as_spec(spec_alt)]
    pub fn alt() -> (r: Modifiers)
        ensures
            r == Modifiers::spec_alt(),
    {
        Modifiers { ctrl: false, alt: true, lshift: false, rshift: false, sym: false }
    }
}

/// One debounced key event: its state, the key, and the modifiers held.
#[derive(Clone, Copy, Debug, PartialEq, Eq, Structural)]
pub struct KeyReport {
    pub state: KeyState,
    pub key: Key,
    pub modifiers: Modifiers,
}

/// Debounces raw controller reports into key events and tracks the
/// modifier keys across them.
#[derive(Clone, Copy, Debug, PartialEq, Eq, Structural)]
pub struct KeyBoardState {
    pub last_state: KeyState,
    pub last_key: Key,
    pub modifiers: Modifiers,
}

/// The modifier set after one `(state, key)` report: holding or releasing
/// a modifier key sets or clears its flag.
pub open spec fn spec_modifiers_after(m: Modifiers, state: KeyState, key: Key) -> Modifiers {
    if state == KeyState::Hold || state == KeyState::Released {
        let held = state == KeyState::Hold;
        match key {
            Key::ModAlt => Modifiers { alt: held, ..m },
            Key::ModControl => Modifiers { ctrl: held, ..m },
            Key::ModShiftLeft => Modifiers { lshift: held, ..m },
            Key::ModShiftRight => Modifiers { rshift: held, ..m },
            Key::ModSymbol => Modifiers { sym: held, ..m },
            _ => m,
        }
    } else {
        m
    }
}

/// The tracker and report after one raw `(state, key)` pair: a repeat of
/// the last pair yields nothing, an idle report with no key yields
/// nothing (but is remembered), and anything else updates the modifiers
/// and yields a report carrying them.
pub open spec fn spec_process(
    s: KeyBoardState,
    state: KeyState,
    key: Key,
) -> (KeyBoardState, Option<KeyReport>) {
    if state == s.last_state && key == s.last_key {
        (s, None)
    } else if state == KeyState::Idle && key == Key::NoKey {
        (KeyBoardState { last_state: state, last_key: key, ..s }, None)
    } else {
        let m = spec_modifiers_after(s.modifiers, state, key);
        let s2 = KeyBoardState { last_state: state, last_key: key, modifiers: m };
        (s2, Some(KeyReport { state, key, modifiers: m }))
    }
}

impl KeyBoardState {
    /// A fresh tracker: nothing seen, no modifier held.
    pub fn new() -> (r: KeyBoardState)
        ensures
            r.last_state == KeyState::Idle,
            r.last_key == Key::NoKey,
            r.modifiers == Modifiers::none(),
    {
        KeyBoardState {
            last_state: KeyState::Idle,
            last_key: Key::NoKey,
            modifiers: Modifiers::none(),
        }
    }

    /// Digests one raw `(state, key)` pair read from the controller into
    /// at most one key event.
    pub fn process(&mut self, state: KeyState, key: Key) -> (r: Option<KeyReport>)
        ensures
            (*final(self), r) == spec_process(*old(self), state, key),
    {
        if state == self.last_state && key == self.last_key {
            return None;
        }
        self.last_state = state;
        self.last_key = key;
        if state == KeyState::Idle && key == Key::NoKey {
            return None;
        }
        if state == KeyState::Hold || state == KeyState::Released {
            let held = state == KeyState::Hold;
            match key {
                Key::ModAlt => {
                    self.modifiers = Modifiers { alt: held, ..self.modifiers };
                },
                Key::ModControl => {
                    self.modifiers = Modifiers { ctrl: held, ..self.modifiers };
                },
                Key::ModShiftLeft => {
                    self.modifiers = Modifiers { lshift: held, ..self.modifiers };
                },
                Key::ModShiftRight => {
                    self.modifiers = Modifiers { rshift: held, ..self.modifiers };
                },
                Key::ModSymbol => {
                    self.modifiers = Modifiers { sym: held, ..self.modifiers };
                },
                _ => {},
            }
        }
        Some(KeyReport { state, key, modifiers: self.modifiers })
    }
}

/// The battery status byte the keyboard controller reports: the low seven
/// bits are the charge percentage, the high bit says the battery is
/// charging.
#[derive(Clone, Copy, Debug, PartialEq, Eq, Structural)]
pub struct BatteryStatus(pub u8);

impl BatteryStatus {
    /// The charge percentage: the low seven bits of the status byte.
    pub fn percentage(&self) -> (r: u8)
        ensures
            r == self.0 & 0x7f,
            r < 128,
    {
        let raw = self.0;
        proof {
            assert(raw & 0x7f < 128) by (bit_vector);
        }
        raw & 0x7f
    }

    /// Whether the battery is charging: the high bit of the status byte.
    pub fn is_charging(&self) -> (r: bool)
        ensures
            r == (self.0 & 0x80 != 0),
    {
        self.0 & 0x80 != 0
    }
}

/// Wraps a raw battery report byte as a battery status.
pub fn get_battery(raw: u8) -> (r: BatteryStatus)
    ensures
        r == BatteryStatus(raw),
{
    BatteryStatus(raw)
}

/// The control-key translation of a character, following the xterm
/// conventions inherited from legacy terminals: letters map to the
/// control codes 1 to 26, and a handful of punctuation aliases map to the
/// remaining codes.
pub open spec fn spec_ctrl_mapping(c: char) -> Option<char> {
    if c == '@' || c == '`' || c == ' ' || c == '2' {
        Some('\x00')
    } else if c == 'A' || c == 'a' {
        Some('\x01')
    } else if c == 'B' || c == 'b' {
        Some('\x02')
    } else if c == 'C' || c == 'c' {
        Some('\x03')
    } else if c == 'D' || c == 'd' {
        Some('\x04')
    } else if c == 'E' || c == 'e' {
        Some('\x05')
    } else if c == 'F' || c == 'f' {
        Some('\x06')
    } else if c == 'G' || c == 'g' {
        Some('\x07')
    } else if c == 'H' || c == 'h' {
        Some('\x08')
    } else if c == 'I' || c == 'i' {
        Some('\x09')
    } else if c == 'J' || c == 'j' {
        Some('\x0a')
    } else if c == 'K' || c == 'k' {
        Some('\x0b')
    } else if c == 'L' || c == 'l' {
        Some('\x0c')
    } else if c == 'M' || c == 'm' {
        Some('\x0d')
    } else if c == 'N' || c == 'n' {
        Some('\x0e')
    } else if c == 'O' || c == 'o' {
        Some('\x0f')
    } else if c == 'P' || c == 'p' {
        Some('\x10')
    } else if c == 'Q' || c == 'q' {
        Some('\x11')
    } else if c == 'R' || c == 'r' {
        Some('\x12')
    } else if c == 'S' || c == 's' {
        Some('\x13')
    } else if c == 'T' || c == 't' {
        Some('\x14')
    } else if c == 'U' || c == 'u' {
        Some('\x15')
    } else if c == 'V' || c == 'v' {
        Some('\x16')
    } else if c == 'W' || c == 'w' {
        Some('\x17')
    } else if c == 'X' || c == 'x' {
        Some('\x18')
    } else if c == 'Y' || c == 'y' {
        Some('\x19')
    } else if c == 'Z' || c == 'z' {
        Some('\x1a')
    } else if c == '[' || c == '3' || c == '{' {
        Some('\x1b')
    } else if c == '\\' || c == '4' || c == '|' {
        Some('\x1c')
    } else if c == ']' || c == '5' || c == '}' {
        Some('\x1d')
    } else if c == '^' || c == '6' || c == '~' {
        Some('\x1e')
    } else if c == '_' || c == '7' || c == '/' {
        Some('\x1f')
    } else if c == '8' || c == '?' {
        Some('\x7f')
    } else {
        None
    }
}

/// Maps a character to its control-key equivalent, if it has one.
pub fn ctrl_mapping(c: char) -> (r: Option<char>)
    ensures
        r == spec_ctrl_mapping(c),
{
    if c == '@' || c == '`' || c == ' ' || c == '2' {
        Some('\x00')
    } else if c == 'A' || c == 'a' {
        Some('\x01')
    } else if c == 'B' || c == 'b' {
        Some('\x02')
    } else if c == 'C' || c == 'c' {
        Some('\x03')
    } else if c == 'D' || c == 'd' {
        Some('\x04')
    } else if c == 'E' || c == 'e' {
        Some('\x05')
    } else if c == 'F' || c == 'f' {
        Some('\x06')
    } else if c == 'G' || c == 'g' {
        Some('\x07')
    } else if c == 'H' || c == 'h' {
        Some('\x08')
    } else if c == 'I' || c == 'i' {
        Some('\x09')
    } else if c == 'J' || c == 'j' {
        Some('\x0a')
    } else if c == 'K' || c == 'k' {
        Some('\x0b')
    } else if c == 'L' || c == 'l' {
        Some('\x0c')
    } else if c == 'M' || c == 'm' {
        Some('\x0d')
    } else if c == 'N' || c == 'n' {
        Some('\x0e')
    } else if c == 'O' || c == 'o' {
        Some('\x0f')
    } else if c == 'P' || c == 'p' {
        Some('\x10')
    } else if c == 'Q' || c == 'q' {
        Some('\x11')
    } else if c == 'R' || c == 'r' {
        Some('\x12')
    } else if c == 'S' || c == 's' {
        Some('\x13')
    } else if c == 'T' || c == 't' {
        Some('\x14')
    } else if c == 'U' || c == 'u' {
        Some('\x15')
    } else if c == 'V' || c == 'v' {
        Some('\x16')
    } else if c == 'W' || c == 'w' {
        Some('\x17')
    } else if c == 'X' || c == 'x' {
        Some('\x18')
    } else if c == 'Y' || c == 'y' {
        Some('\x19')
    } else if c == 'Z' || c == 'z' {
        Some('\x1a')
    } else if c == '[' || c == '3' || c == '{' {
        Some('\x1b')
    } else if c == '\\' || c == '4' || c == '|' {
        Some('\x1c')
    } else if c == ']' || c == '5' || c == '}' {
        Some('\x1d')
    } else if c == '^' || c == '6' || c == '~' {
        Some('\x1e')
    } else if c == '_' || c == '7' || c == '/' {
        Some('\x1f')
    } else if c == '8' || c == '?' {
        Some('\x7f')
    } else {
        None
    }
}

/// The byte encoding of one character for the session byte stream: its
/// code for ASCII, the two-byte form for characters up to `0x7ff` (every
/// character the keyboard's single code byte can name), nothing beyond.
pub open spec fn spec_char_bytes(c: char) -> Seq<u8> {
    let u = c as u32;
    if u < 0x80 {
        seq![u as u8]
    } else if u < 0x800 {
        seq![(0xc0 | (u >> 6)) as u8, (0x80 | (u & 0x3f)) as u8]
    } else {
        Seq::empty()
    }
}

/// Encodes one character into session bytes.
pub fn char_bytes(c: char) -> (r: Vec<u8>)
    ensures
        r@ == spec_char_bytes(c),
{
    let u = c as u32;
    let mut r: Vec<u8> = Vec::new();
    if u < 0x80 {
        r.push(u as u8);
        proof {
            assert(r@ =~= spec_char_bytes(c));
        }
    } else if u < 0x800 {
        proof {
            assert(u < 0x800 ==> (0xc0 | (u >> 6)) < 256 && (0x80 | (u & 0x3f)) < 256)
                by (bit_vector);
        }
        r.push((0xc0 | (u >> 6)) as u8);
        r.push((0x80 | (u & 0x3f)) as u8);
        proof {
            assert(r@ =~= spec_char_bytes(c));
        }
    } else {
        proof {
            assert(r@ =~= spec_char_bytes(c));
        }
    }
    r
}

/// The session bytes one pressed key sends, with xterm-style encoding:
/// control-modified characters send their control code, alt prefixes an
/// escape byte, plain characters send their own encoding, and the named
/// editing and arrow keys send their escape sequences. Keys with no
/// encoding send nothing (though alt alone still sends its escape).
pub open spec fn spec_encode_key(r: KeyReport) -> Option<Seq<u8>> {
    if r.modifiers == Modifiers::ctrl() && (r.key matches Key::Char(c)
        && spec_ctrl_mapping(c) matches Some(m)) {
        Some(spec_char_bytes((spec_ctrl_mapping(r.key->Char_0)->Some_0)))
    } else {
        let prefix: Seq<u8> = if r.modifiers == Modifiers::alt() {
            seq![0x1bu8]
        } else {
            Seq::empty()
        };
        let body: Seq<u8> = match r.key {
            Key::Char(c) => spec_char_bytes(c),
            Key::Enter => seq![0x0au8],
            Key::BackSpace => seq![0x7fu8],
            Key::Tab => seq![0x09u8],
            Key::Escape => seq![0x1bu8],
            Key::Up => seq![0x1bu8, 0x5bu8, 0x41u8],
            Key::Down => seq![0x1bu8, 0x5bu8, 0x42u8],
            Key::Right => seq![0x1bu8, 0x5bu8, 0x43u8],
            Key::Left => seq![0x1bu8, 0x5bu8, 0x44u8],
            Key::Home => seq![0x1bu8, 0x5bu8, 0x48u8],
            Key::End => seq![0x1bu8, 0x5bu8, 0x46u8],
            Key::PageUp => seq![0x1bu8, 0x5bu8, 0x35u8, 0x7eu8],
            Key::PageDown => seq![0x1bu8, 0x5bu8, 0x36u8, 0x7eu8],
            _ => Seq::empty(),
        };
        if prefix.len() + body.len() == 0 {
            None
        } else {
            Some(prefix + body)
        }
    }
}

/// Encodes one key report into the bytes it sends to a remote session.
pub fn encode_key(r: KeyReport) -> (out: Option<Vec<u8>>)
    ensures
        match out {
            Some(v) => spec_encode_key(r) == Some(v@),
            None => spec_encode_key(r) == None::<Seq<u8>>,
        },
{
    if r.modifiers == Modifiers::ctrl() {
        if let Key::Char(c) = r.key {
            if let Some(m) = ctrl_mapping(c) {
                return Some(char_bytes(m));
            }
        }
    }
    let mut out: Vec<u8> = Vec::new();
    if r.modifiers == Modifiers::alt() {
        out.push(0x1b);
    }
    let ghost prefix = out@;
    let mut any = false;
    match r.key {
        Key::Char(c) => {
            let mut b = char_bytes(c);
            let ghost body = b@;
            let mut i: usize = 0;
            while i < b.len()
                invariant
                    i <= b@.len(),
                    b@ == body,
                    out@ =~= prefix + body.subrange(0, i as int),
                decreases b@.len() - i,
            {
                out.push(b[i]);
                i = i + 1;
            }
            proof {
                assert(body.subrange(0, body.len() as int) =~= body);
            }
            any = b.len() > 0;
        },
        Key::Enter => {
            out.push(0x0a);
            any = true;
        },
        Key::BackSpace => {
            out.push(0x7f);
            any = true;
        },
        Key::Tab => {
            out.push(0x09);
            any = true;
        },
        Key::Escape => {
            out.push(0x1b);
            any = true;
        },
        Key::Up => {
            out.push(0x1b);
            out.push(0x5b);
            out.push(0x41);
            any = true;
        },
        Key::Down => {
            out.push(0x1b);
            out.push(0x5b);
            out.push(0x42);
            any = true;
        },
        Key::Right => {
            out.push(0x1b);
            out.push(0x5b);
            out.push(0x43);
            any = true;
        },
        Key::Left => {
            out.push(0x1b);
            out.push(0x5b);
            out.push(0x44);
            any = true;
        },
        Key::Home => {
            out.push(0x1b);
            out.push(0x5b);
            out.push(0x48);
            any = true;
        },
        Key::End => {
            out.push(0x1b);
            out.push(0x5b);
            out.push(0x46);
            any = true;
        },
        Key::PageUp => {
            out.push(0x1b);
            out.push(0x5b);
            out.push(0x35);
            out.push(0x7e);
            any = true;
        },
        Key::PageDown => {
            out.push(0x1b);
            out.push(0x5b);
            out.push(0x36);
            out.push(0x7e);
            any = true;
        },
        _ => {},
    }
    if out.len() == 0 {
        proof {
            assert(spec_encode_key(r) == None::<Seq<u8>>);
        }
        None
    } else {
        proof {
            assert(spec_encode_key(r) matches Some(v) && v =~= out@);
        }
        Some(out)
    }
}

} // verus!
