//! key presses, as the terminal reports them
use vstd::prelude::*;
use crate::text::{push_char, push_str, text};
use vstd::std_specs::cmp::PartialEqSpecImpl;

verus! {

/// a key of the keyboard
#[derive(Debug, Clone, Copy, PartialEq, Eq, Structural)]
pub enum KeyCode {
    Backspace,
    Enter,
    Left,
    Right,
    Up,
    Down,
    Home,
    End,
    PageUp,
    PageDown,
    Tab,
    BackTab,
    Delete,
    Insert,
    F(u8),
    Char(char),
    Null,
    Esc,
    CapsLock,
    ScrollLock,
    NumLock,
    PrintScreen,
    Pause,
    Menu,
    KeypadBegin,
    /// a media key, by its rank among the media keys
    Media(u8),
    /// a modifier key pressed on its own, by its rank among the modifier keys
    Modifier(u8),
}

/// the modifier keys held during a key press, as a set of bits
#[derive(Debug, Clone, Copy, PartialEq, Eq, Structural)]
pub struct KeyModifiers {
    pub bits: u8,
}

impl KeyModifiers {
    /// no modifier held
    pub fn none() -> (r: KeyModifiers)
        ensures
            r.bits == 0,
    {
        KeyModifiers { bits: 0 }
    }

    /// the shift modifier held
    pub fn shift() -> (r: KeyModifiers)
        ensures
            r.bits == 1,
    {
        KeyModifiers { bits: 1 }
    }

    /// the control modifier held
    pub fn control() -> (r: KeyModifiers)
        ensures
            r.bits == 2,
    {
        KeyModifiers { bits: 2 }
    }
}

/// whether a key is pressed, held or released
#[derive(Debug, Clone, Copy, PartialEq, Eq, Structural)]
pub enum KeyEventKind {
    Press,
    Repeat,
    Release,
}

/// extra state of the keyboard during a key press, as a set of bits
#[derive(Debug, Clone, Copy, PartialEq, Eq, Structural)]
pub struct KeyEventState {
    pub bits: u8,
}

/// a key press
#[derive(Debug, Clone, Copy)]
pub struct KeyEvent {
    pub code: KeyCode,
    pub modifiers: KeyModifiers,
    pub kind: KeyEventKind,
    pub state: KeyEventState,
}

impl KeyEvent {
    /// the press of `code` with `modifiers` held
    pub fn new(code: KeyCode, modifiers: KeyModifiers) -> (r: KeyEvent)
        ensures
            r == (KeyEvent { code, modifiers, kind: KeyEventKind::Press, state: KeyEventState { bits: 0 } }),
    {
        KeyEvent { code, modifiers, kind: KeyEventKind::Press, state: KeyEventState { bits: 0 } }
    }
}

pub open spec fn is_ascii_upper(c: char) -> bool {
    'A' <= c <= 'Z'
}

pub open spec fn is_ascii_lower(c: char) -> bool {
    'a' <= c <= 'z'
}

/// the upper case of an ASCII letter, any other character as it is
pub open spec fn ascii_upper(c: char) -> char {
    if is_ascii_lower(c) { ((c as u32) - 32) as char } else { c }
}

/// a key press where the shift modifier is held exactly when the character is an upper case
/// letter
pub open spec fn normalize(k: KeyEvent) -> KeyEvent {
    match k.code {
        KeyCode::Char(c) => if is_ascii_upper(c) {
            KeyEvent { modifiers: KeyModifiers { bits: k.modifiers.bits | 1 }, ..k }
        } else if k.modifiers.bits & 1 != 0 {
            KeyEvent { code: KeyCode::Char(ascii_upper(c)), ..k }
        } else {
            k
        },
        _ => k,
    }
}

/// whether two key presses are the same, shift and upper case being the same thing
pub open spec fn same_key(a: KeyEvent, b: KeyEvent) -> bool {
    normalize(a) == normalize(b)
}

fn upper(c: char) -> (r: char)
    ensures
        r == ascii_upper(c),
{
    if 'a' <= c && c <= 'z' {
        (((c as u32) - 32) as u8) as char
    } else {
        c
    }
}

fn normalized(k: KeyEvent) -> (r: KeyEvent)
    ensures
        r == normalize(k),
{
    match k.code {
        KeyCode::Char(c) => {
            if 'A' <= c && c <= 'Z' {
                KeyEvent { modifiers: KeyModifiers { bits: k.modifiers.bits | 1 }, ..k }
            } else if k.modifiers.bits & 1 != 0 {
                KeyEvent { code: KeyCode::Char(upper(c)), ..k }
            } else {
                k
            }
        },
        _ => k,
    }
}

impl KeyEvent {
    /// whether two key presses are the same, shift and upper case being the same thing
    pub fn same(&self, other: &KeyEvent) -> (r: bool)
        ensures
            r == same_key(*self, *other),
    {
        let a = normalized(*self);
        let b = normalized(*other);
        a.code == b.code && a.modifiers == b.modifiers && a.kind == b.kind && a.state == b.state
    }
}

} // verus!

verus! {

impl PartialEq for KeyEvent {
    fn eq(&self, other: &Self) -> (r: bool) {
        self.same(other)
    }
}

impl PartialEqSpecImpl for KeyEvent {
    open spec fn obeys_eq_spec() -> bool {
        true
    }

    open spec fn eq_spec(&self, other: &KeyEvent) -> bool {
        same_key(*self, *other)
    }
}

impl Eq for KeyEvent {
}

} // verus!

verus! {

/// how a key is shown to the user
pub open spec fn key_code_text(code: KeyCode) -> Seq<char> {
    match code {
        KeyCode::Char(c) => seq![c],
        KeyCode::Left => seq!['\u{2190}'],
        KeyCode::Up => seq!['\u{2191}'],
        KeyCode::Right => seq!['\u{2192}'],
        KeyCode::Down => seq!['\u{2193}'],
        KeyCode::Esc => "<esc>"@,
        KeyCode::Enter => seq!['\u{23ce}'],
        KeyCode::Backspace => seq!['\u{232b}'],
        KeyCode::Delete => seq!['\u{2326}'],
        _ => "??"@,
    }
}

/// how a key press is shown to the user, e.g. `x`, `<c-x>` or `<esc>`
pub open spec fn key_text(key: KeyEvent) -> Seq<char> {
    if key.modifiers.bits == 0 {
        key_code_text(key.code)
    } else if key.modifiers.bits == 2 {
        "<c-"@ + key_code_text(key.code) + ">"@
    } else {
        "??"@
    }
}

/// how a key is shown to the user
pub fn repr_keycode(code: &KeyCode) -> (r: String)
    ensures
        r@ == key_code_text(*code),
{
    match code {
        KeyCode::Char(c) => {
            let mut s = String::new();
            push_char(&mut s, *c);
            assert(s@ =~= seq![*c]);
            s
        },
        KeyCode::Left => single('\u{2190}'),
        KeyCode::Up => single('\u{2191}'),
        KeyCode::Right => single('\u{2192}'),
        KeyCode::Down => single('\u{2193}'),
        KeyCode::Esc => text("<esc>"),
        KeyCode::Enter => single('\u{23ce}'),
        KeyCode::Backspace => single('\u{232b}'),
        KeyCode::Delete => single('\u{2326}'),
        _ => text("??"),
    }
}

fn single(c: char) -> (r: String)
    ensures
        r@ == seq![c],
{
    let mut s = String::new();
    push_char(&mut s, c);
    assert(s@ =~= seq![c]);
    s
}

/// represent a [`KeyEvent`] as a simple string
pub fn repr_key(key: &KeyEvent) -> (r: String)
    ensures
        r@ == key_text(*key),
{
    let code = repr_keycode(&key.code);
    if key.modifiers.bits == 0 {
        code
    } else if key.modifiers.bits == 2 {
        let mut s = text("<c-");
        push_str(&mut s, code.as_str());
        push_str(&mut s, ">");
        s
    } else {
        text("??")
    }
}

/// the digit typed by a key press of `0` to `9`, if it is one
pub open spec fn digit_key(code: KeyCode) -> Option<nat> {
    match code {
        KeyCode::Char(c) => if '0' <= c <= '9' { Some(((c as u32) - ('0' as u32)) as nat) } else { None },
        _ => None,
    }
}

/// the digit typed by a key press of `0` to `9`, if it is one
pub fn key_digit(code: &KeyCode) -> (r: Option<usize>)
    ensures
        r matches Some(d) ==> digit_key(*code) == Some(d as nat) && d < 10,
        r is None <==> digit_key(*code) is None,
{
    match code {
        KeyCode::Char(c) => {
            if '0' <= *c && *c <= '9' {
                Some(((*c as u32) - ('0' as u32)) as usize)
            } else {
                None
            }
        },
        _ => None,
    }
}

} // verus!
