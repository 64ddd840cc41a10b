//! Keyboard-injection planning: which key events to send for a key, a
//! combination, a character or a string.
//!
//! The moderator commands (save-state, load-state) are carried out by
//! injecting emulator hot-keys.  This module computes the exact event
//! sequence — virtual-key, unicode or scan-code, press or release — and
//! leaves performing the OS injection to the caller.

use vstd::prelude::*;

verus! {

/// A physical key selected by its virtual-key meaning.
#[derive(Copy, Clone, PartialEq, Eq, Structural, Debug)]
pub enum Physical {
    Return,
    Control,
    Alt,
    Shift,
    F1, F2, F3, F4, F5, F6, F7, F8, F9, F10, F11, F12,
    A, B, C, D, E, F, G, H, I, J, K, L, M, N, O, P, Q, R, S, T, U, V, W, X, Y, Z,
}

/// A key selected by its hardware scan code.
#[derive(Copy, Clone, PartialEq, Eq, Structural, Debug)]
pub enum Scan {
    F1, F2, F3, F4, F5, F6, F7, F8, F9, F10, F11, F12,
}

/// One key to inject, by whichever addressing the caller needs.
#[derive(Copy, Clone, PartialEq, Eq, Structural, Debug)]
pub enum Key {
    Physical(Physical),
    Unicode(char),
    Scan(Scan),
}

/// How one injected event addresses its key.
#[derive(Copy, Clone, PartialEq, Eq, Structural, Debug)]
pub enum KeyCode {
    /// A virtual-key code.
    VirtualKey(u16),
    /// A unicode code unit, delivered as a synthetic scan value.
    UnicodeScan(u16),
    /// A hardware scan code.
    ScanCode(u16),
}

/// One keyboard event: a key address and whether this is the release.
#[derive(Copy, Clone, PartialEq, Eq, Structural, Debug)]
pub struct KeyEvent {
    pub code: KeyCode,
    pub up: bool,
}

/// The virtual-key code of a physical key.
pub open spec fn spec_keycode(p: Physical) -> u16 {
    match p {
        Physical::Return => 0x0D,
        Physical::Shift => 0x10,
        Physical::Control => 0x11,
        Physical::Alt => 0x12,
        Physical::F1 => 0x70,
        Physical::F2 => 0x71,
        Physical::F3 => 0x72,
        Physical::F4 => 0x73,
        Physical::F5 => 0x74,
        Physical::F6 => 0x75,
        Physical::F7 => 0x76,
        Physical::F8 => 0x77,
        Physical::F9 => 0x78,
        Physical::F10 => 0x79,
        Physical::F11 => 0x7A,
        Physical::F12 => 0x7B,
        Physical::A => 65,
        Physical::B => 66,
        Physical::C => 67,
        Physical::D => 68,
        Physical::E => 69,
        Physical::F => 70,
        Physical::G => 71,
        Physical::H => 72,
        Physical::I => 73,
        Physical::J => 74,
        Physical::K => 75,
        Physical::L => 76,
        Physical::M => 77,
        Physical::N => 78,
        Physical::O => 79,
        Physical::P => 80,
        Physical::Q => 81,
        Physical::R => 82,
        Physical::S => 83,
        Physical::T => 84,
        Physical::U => 85,
        Physical::V => 86,
        Physical::W => 87,
        Physical::X => 88,
        Physical::Y => 89,
        Physical::Z => 90,
    }
}

/// The hardware scan code of a scan-addressed key.
pub open spec fn spec_scancode(s: Scan) -> u16 {
    match s {
        Scan::F1 => 0x3B,
        Scan::F2 => 0x3C,
        Scan::F3 => 0x3D,
        Scan::F4 => 0x3E,
        Scan::F5 => 0x3F,
        Scan::F6 => 0x40,
        Scan::F7 => 0x41,
        Scan::F8 => 0x42,
        Scan::F9 => 0x43,
        Scan::F10 => 0x44,
        Scan::F11 => 0x85,
        Scan::F12 => 0x86,
    }
}

/// The event address of a key.  A unicode key keeps its low 16 bits, as
/// the injection interface carries one code unit.
pub open spec fn spec_key_code(k: Key) -> KeyCode {
    match k {
        Key::Physical(p) => KeyCode::VirtualKey(spec_keycode(p)),
        Key::Unicode(c) => KeyCode::UnicodeScan(((c as u32) % 0x10000) as u16),
        Key::Scan(s) => KeyCode::ScanCode(spec_scancode(s)),
    }
}

pub open spec fn press_of(k: Key) -> KeyEvent {
    KeyEvent { code: spec_key_code(k), up: false }
}

pub open spec fn release_of(k: Key) -> KeyEvent {
    KeyEvent { code: spec_key_code(k), up: true }
}

/// The events injected for one character: nothing for characters above
/// the one-code-unit range, otherwise a press and a release.
pub open spec fn events_of_char(c: char) -> Seq<KeyEvent> {
    if (c as u32) < 0x10000 {
        seq![press_of(Key::Unicode(c)), release_of(Key::Unicode(c))]
    } else {
        Seq::empty()
    }
}

/// The events injected for a string: its characters in order.
pub open spec fn events_of_str(s: Seq<char>) -> Seq<KeyEvent>
    decreases s.len(),
{
    if s.len() == 0 {
        Seq::empty()
    } else {
        events_of_str(s.drop_last()) + events_of_char(s.last())
    }
}

/// Virtual-key code lookup for a physical key.
pub fn get_keycode(p: Physical) -> (r: u16)
    ensures
        r == spec_keycode(p),
{
    match p {
        Physical::Return => 0x0D,
        Physical::Shift => 0x10,
        Physical::Control => 0x11,
        Physical::Alt => 0x12,
        Physical::F1 => 0x70,
        Physical::F2 => 0x71,
        Physical::F3 => 0x72,
        Physical::F4 => 0x73,
        Physical::F5 => 0x74,
        Physical::F6 => 0x75,
        Physical::F7 => 0x76,
        Physical::F8 => 0x77,
        Physical::F9 => 0x78,
        Physical::F10 => 0x79,
        Physical::F11 => 0x7A,
        Physical::F12 => 0x7B,
        Physical::A => 65,
        Physical::B => 66,
        Physical::C => 67,
        Physical::D => 68,
        Physical::E => 69,
        Physical::F => 70,
        Physical::G => 71,
        Physical::H => 72,
        Physical::I => 73,
        Physical::J => 74,
        Physical::K => 75,
        Physical::L => 76,
        Physical::M => 77,
        Physical::N => 78,
        Physical::O => 79,
        Physical::P => 80,
        Physical::Q => 81,
        Physical::R => 82,
        Physical::S => 83,
        Physical::T => 84,
        Physical::U => 85,
        Physical::V => 86,
        Physical::W => 87,
        Physical::X => 88,
        Physical::Y => 89,
        Physical::Z => 90,
    }
}

/// Hardware scan code lookup.
pub fn get_scancode(s: Scan) -> (r: u16)
    ensures
        r == spec_scancode(s),
{
    match s {
        Scan::F1 => 0x3B,
        Scan::F2 => 0x3C,
        Scan::F3 => 0x3D,
        Scan::F4 => 0x3E,
        Scan::F5 => 0x3F,
        Scan::F6 => 0x40,
        Scan::F7 => 0x41,
        Scan::F8 => 0x42,
        Scan::F9 => 0x43,
        Scan::F10 => 0x44,
        Scan::F11 => 0x85,
        Scan::F12 => 0x86,
    }
}

/// The press event of a key.
pub fn press_key(k: Key) -> (r: KeyEvent)
    ensures
        r == press_of(k),
{
    key_event(k, false)
}

/// The release event of a key.
pub fn release_key(k: Key) -> (r: KeyEvent)
    ensures
        r == release_of(k),
{
    key_event(k, true)
}

fn key_event(k: Key, up: bool) -> (r: KeyEvent)
    ensures
        r == (KeyEvent { code: spec_key_code(k), up }),
{
    let code = match k {
        Key::Physical(p) => KeyCode::VirtualKey(get_keycode(p)),
        Key::Unicode(c) => {
            let u: u32 = c as u32;
            KeyCode::UnicodeScan((u % 0x10000) as u16)
        },
        Key::Scan(s) => KeyCode::ScanCode(get_scancode(s)),
    };
    KeyEvent { code, up }
}

/// The events for one key: press, then release.
pub fn send_key(k: Key) -> (r: Vec<KeyEvent>)
    ensures
        r@ =~= seq![press_of(k), release_of(k)],
{
    let mut v: Vec<KeyEvent> = Vec::new();
    v.push(press_key(k));
    v.push(release_key(k));
    v
}

/// The events for a key combination: all presses in order, then the
/// releases in reverse order.
pub fn send_combo(keys: &[Key]) -> (r: Vec<KeyEvent>)
    ensures
        r@.len() == 2 * keys@.len(),
        forall|i: int| 0 <= i < keys@.len() ==> r@[i] == press_of(#[trigger] keys@[i]),
        forall|i: int|
            0 <= i < keys@.len() ==> r@[keys@.len() + i] == release_of(
                #[trigger] keys@[keys@.len() - 1 - i],
            ),
{
    let n = keys.len();
    let mut v: Vec<KeyEvent> = Vec::new();
    let mut i: usize = 0;
    while i < n
        invariant
            n == keys@.len(),
            i <= n,
            v@.len() == i,
            forall|q: int| 0 <= q < i as int ==> v@[q] == press_of(#[trigger] keys@[q]),
        decreases n - i,
    {
        v.push(press_key(keys[i]));
        i = i + 1;
    }
    let mut j: usize = 0;
    while j < n
        invariant
            n == keys@.len(),
            j <= n,
            v@.len() == n + j,
            forall|q: int| 0 <= q < n as int ==> v@[q] == press_of(#[trigger] keys@[q]),
            forall|q: int|
                0 <= q < j as int ==> v@[n + q] == release_of(#[trigger] keys@[n - 1 - q]),
        decreases n - j,
    {
        v.push(release_key(keys[n - 1 - j]));
        j = j + 1;
    }
    v
}

/// The events for one character: characters beyond one code unit are
/// silently skipped.
pub fn send_char(c: char) -> (r: Vec<KeyEvent>)
    ensures
        r@ == events_of_char(c),
{
    let u: u32 = c as u32;
    if u < 0x10000 {
        let v = send_key(Key::Unicode(c));
        proof {
            assert(v@ =~= events_of_char(c));
        }
        v
    } else {
        Vec::new()
    }
}

/// The events for a whole string, character by character.
pub fn send_str(msg: &str) -> (r: Vec<KeyEvent>)
    ensures
        r@ == events_of_str(msg@),
{
    let n = msg.unicode_len();
    let mut v: Vec<KeyEvent> = Vec::new();
    let mut i: usize = 0;
    proof {
        assert(msg@.take(0) =~= Seq::<char>::empty());
    }
    while i < n
        invariant
            n == msg@.len(),
            i <= n,
            v@ == events_of_str(msg@.take(i as int)),
        decreases n - i,
    {
        let c = msg.get_char(i);
        proof {
            assert(msg@.take(i as int + 1).drop_last() =~= msg@.take(i as int));
            assert(msg@.take(i as int + 1).last() == msg@[i as int]);
        }
        let mut evs = send_char(c);
        let ghost pre = v@;
        v.append(&mut evs);
        proof {
            assert(v@ =~= pre + events_of_char(c));
        }
        i = i + 1;
    }
    proof {
        assert(msg@.take(n as int) =~= msg@);
    }
    v
}

} // verus!
