//! What the renderer's event loop does with each terminal event: quit on
//! Ctrl+C or Esc, follow a resize, ignore everything else.

use vstd::prelude::*;

verus! {

/// The Shift modifier bit.
pub const SHIFT: u8 = 1;

/// The Control modifier bit.
pub const CONTROL: u8 = 2;

/// No modifier at all.
pub const NO_MODIFIERS: u8 = 0;

/// The key of a key event, as far as the event loop tells keys apart.
#[derive(Clone, Copy, Debug, PartialEq, Eq, Structural)]
pub enum KeyCode {
    /// A character key.
    Char(char),
    /// The Escape key.
    Esc,
    /// Any other key.
    Other,
}

/// Whether a key went down, auto-repeated or came up.
#[derive(Clone, Copy, Debug, PartialEq, Eq, Structural)]
pub enum KeyKind {
    Press,
    Repeat,
    Release,
}

/// A key event: the key, the modifier bits (`SHIFT`, `CONTROL`, and the
/// other modifier bits of the terminal), the kind, and the keyboard state
/// bits (keypad, Caps Lock, Num Lock).
#[derive(Clone, Copy, Debug, PartialEq, Eq, Structural)]
pub struct KeyInput {
    pub code: KeyCode,
    pub modifiers: u8,
    pub kind: KeyKind,
    pub state: u8,
}

/// An event read from the terminal.
#[derive(Clone, Copy, Debug, PartialEq, Eq, Structural)]
pub enum InputEvent {
    Key(KeyInput),
    /// The terminal now has this many columns and rows.
    Resize(u16, u16),
    /// Focus, mouse, paste and the like.
    Other,
}

/// What the event loop does next.
#[derive(Clone, Copy, Debug, PartialEq, Eq, Structural)]
pub enum InputAction {
    /// Read on.
    Continue,
    /// Stop the program.
    Quit,
    /// Clear the terminal and start over with a surface of this size.
    Resize(u16, u16),
}

/// A plain key press with the given key and modifiers.
pub open spec fn press(code: KeyCode, modifiers: u8) -> KeyInput {
    KeyInput { code, modifiers, kind: KeyKind::Press, state: 0 }
}

pub open spec fn is_ascii_upper(c: char) -> bool {
    'A' <= c <= 'Z'
}

pub open spec fn ascii_upper(c: char) -> char {
    if 'a' <= c <= 'z' {
        ((c as u32) - 32) as char
    } else {
        c
    }
}

/// Key events compare modulo letter case: an upper-case letter counts as
/// Shift plus that letter, and a letter pressed with Shift counts as its
/// upper-case form.
pub open spec fn normalize_case(k: KeyInput) -> KeyInput {
    match k.code {
        KeyCode::Char(c) => if is_ascii_upper(c) {
            KeyInput { code: k.code, modifiers: k.modifiers | SHIFT, kind: k.kind, state: k.state }
        } else if k.modifiers & SHIFT != 0 {
            KeyInput { code: KeyCode::Char(ascii_upper(c)), modifiers: k.modifiers, kind: k.kind, state: k.state }
        } else {
            k
        },
        _ => k,
    }
}

/// Two key events are the same key event when they agree after
/// `normalize_case`.
pub open spec fn same_key(a: KeyInput, b: KeyInput) -> bool {
    normalize_case(a) == normalize_case(b)
}

/// The keys that stop the program: Ctrl+C and a bare Esc.
pub open spec fn is_quit(k: KeyInput) -> bool {
    same_key(k, press(KeyCode::Char('c'), CONTROL)) || same_key(k, press(KeyCode::Esc, NO_MODIFIERS))
}

/// The action for an event.
pub open spec fn action_for(event: InputEvent) -> InputAction {
    match event {
        InputEvent::Key(k) => if is_quit(k) {
            InputAction::Quit
        } else {
            InputAction::Continue
        },
        InputEvent::Resize(w, h) => InputAction::Resize(w, h),
        InputEvent::Other => InputAction::Continue,
    }
}

/// Whether `key` stops the program.
pub fn is_quit_key(key: &KeyInput) -> (quit: bool)
    ensures
        quit == is_quit(*key),
{
    let plain_press = match key.kind {
        KeyKind::Press => key.state == 0,
        _ => false,
    };
    let m = key.modifiers;
    proof {
        lemma_quit_keys(*key);
    }
    match key.code {
        KeyCode::Char(c) => plain_press && c == 'c' && m == CONTROL,
        KeyCode::Esc => plain_press && m == NO_MODIFIERS,
        KeyCode::Other => false,
    }
}

/// Decides what to do with one terminal event.
pub fn decide(event: &InputEvent) -> (action: InputAction)
    ensures
        action == action_for(*event),
        match *event {
            InputEvent::Key(k) => if k == press(KeyCode::Char('c'), CONTROL) || k == press(
                KeyCode::Esc,
                NO_MODIFIERS,
            ) {
                action == InputAction::Quit
            } else {
                action == InputAction::Continue
            },
            InputEvent::Resize(w, h) => action == InputAction::Resize(w, h),
            InputEvent::Other => action == InputAction::Continue,
        },
{
    proof {
        lemma_event_actions(*event);
    }
    match event {
        InputEvent::Key(k) => if is_quit_key(k) {
            InputAction::Quit
        } else {
            InputAction::Continue
        },
        InputEvent::Resize(w, h) => InputAction::Resize(*w, *h),
        InputEvent::Other => InputAction::Continue,
    }
}

/// The event loop stops on a plain press of `c` with Control and on a
/// plain press of Esc, and on nothing else; it follows every resize to the
/// size reported; every other key, and every other event, leaves it
/// running.
pub proof fn lemma_event_actions(event: InputEvent)
    ensures
        match event {
            InputEvent::Key(k) => if k == press(KeyCode::Char('c'), CONTROL) || k == press(
                KeyCode::Esc,
                NO_MODIFIERS,
            ) {
                action_for(event) == InputAction::Quit
            } else {
                action_for(event) == InputAction::Continue
            },
            InputEvent::Resize(w, h) => action_for(event) == InputAction::Resize(w, h),
            InputEvent::Other => action_for(event) == InputAction::Continue,
        },
{
    if let InputEvent::Key(k) = event {
        lemma_quit_keys(k);
    }
}

/// Only two key events stop the program: a plain press of `c` with Control
/// and nothing else, and a plain press of Esc with no modifier. Upper-case
/// `C`, Shift, other modifiers, repeats, releases and keypad or lock state
/// all leave the program running.
pub proof fn lemma_quit_keys(k: KeyInput)
    ensures
        is_quit(k) <==> (k == press(KeyCode::Char('c'), CONTROL) || k == press(KeyCode::Esc, NO_MODIFIERS)),
{
    let m = k.modifiers;
    assert((m | 1u8) != 2u8 && (m | 1u8) != 0u8) by (bit_vector);
    assert(m == 2u8 ==> m & 1u8 == 0u8) by (bit_vector);
}

} // verus!
