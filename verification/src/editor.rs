//! the editor used to change the cells of the data
use vstd::prelude::*;
use crate::keys::KeyCode;
use crate::text::push_char;

verus! {

/// a small text editor wrapping its buffer on lines of `width` characters
pub struct Editor {
    buffer: Vec<char>,
    cursor_position: (usize, usize),
    width: usize,
}

/// what the editor asks for after a key press
#[derive(Debug, PartialEq)]
pub enum EditorTransition {
    /// keep editing
    Continue,
    /// leave the editor without changing anything
    Quit,
    /// leave the editor with the text of the new value, to be read as NUON
    Submit(String),
}

/// the state of an editor: its text, the column and line of its cursor and its width
pub struct EditorView {
    pub buffer: Seq<char>,
    pub x: int,
    pub y: int,
    pub width: int,
}

impl View for Editor {
    type V = EditorView;

    closed spec fn view(&self) -> EditorView {
        EditorView {
            buffer: self.buffer@,
            x: self.cursor_position.0 as int,
            y: self.cursor_position.1 as int,
            width: self.width as int,
        }
    }
}

/// the index of the cursor in the text
pub open spec fn cursor(e: EditorView) -> int {
    e.y * e.width + e.x
}

/// the cursor put at the index `p` of the text
pub open spec fn at_index(e: EditorView, p: int) -> EditorView {
    EditorView { x: p % e.width, y: p / e.width, ..e }
}

pub open spec fn min(a: int, b: int) -> int {
    if a <= b { a } else { b }
}

pub open spec fn move_left(e: EditorView) -> EditorView {
    at_index(e, min(if cursor(e) >= 1 { cursor(e) - 1 } else { 0 }, e.buffer.len() as int))
}

pub open spec fn move_right(e: EditorView) -> EditorView {
    at_index(e, min(min(cursor(e) + 1, usize::MAX as int), e.buffer.len() as int))
}

pub open spec fn move_up(e: EditorView) -> EditorView {
    EditorView { y: min(if e.y >= 1 { e.y - 1 } else { 0 }, e.buffer.len() as int / e.width), ..e }
}

pub open spec fn move_down(e: EditorView) -> EditorView {
    let moved = EditorView { y: min(min(e.y + 1, usize::MAX as int), e.buffer.len() as int / e.width), ..e };
    if cursor(moved) > e.buffer.len() {
        at_index(moved, e.buffer.len() as int)
    } else {
        moved
    }
}

/// the text without its character at index `p`, if there is one
pub open spec fn without(s: Seq<char>, p: int) -> Seq<char> {
    if 0 <= p < s.len() { s.remove(p) } else { s }
}

pub open spec fn enter(e: EditorView, c: char) -> EditorView {
    move_right(EditorView { buffer: e.buffer.insert(cursor(e), c), ..e })
}

pub open spec fn delete_before(e: EditorView) -> EditorView {
    if cursor(e) != 0 {
        move_left(EditorView { buffer: without(e.buffer, cursor(e) - 1), ..e })
    } else {
        e
    }
}

pub open spec fn delete_under(e: EditorView) -> EditorView {
    EditorView { buffer: without(e.buffer, cursor(e)), ..e }
}

/// the editor after a key press
pub open spec fn edited(e: EditorView, code: KeyCode) -> EditorView {
    match code {
        KeyCode::Left => move_left(e),
        KeyCode::Right => move_right(e),
        KeyCode::Up => move_up(e),
        KeyCode::Down => move_down(e),
        KeyCode::Char(c) => enter(e, c),
        KeyCode::Backspace => delete_before(e),
        KeyCode::Delete => delete_under(e),
        _ => e,
    }
}

/// the cursor stands in the text, and its index can be computed
pub open spec fn cursor_in_text(e: EditorView) -> bool {
    &&& e.x >= 0
    &&& e.y >= 0
    &&& e.width >= 0
    &&& 0 <= cursor(e) <= e.buffer.len() <= i32::MAX
}

/// the editor with its cursor one line lower, the line kept in the text
pub open spec fn lowered(e: EditorView) -> EditorView {
    EditorView { y: min(min(e.y + 1, usize::MAX as int), e.buffer.len() as int / e.width), ..e }
}

/// a key press that the editor handles without a crash: moving the cursor and typing need a
/// width, typing needs the cursor in the text, and the index of the cursor must fit where it is
/// computed
pub open spec fn accepts(e: EditorView, code: KeyCode) -> bool {
    match code {
        KeyCode::Left | KeyCode::Right => e.width > 0 && cursor(e) <= usize::MAX,
        KeyCode::Up => e.width > 0,
        KeyCode::Down => e.width > 0 && cursor(lowered(e)) <= usize::MAX,
        KeyCode::Char(_) => e.width > 0 && cursor(e) <= e.buffer.len(),
        KeyCode::Backspace => cursor(e) <= i32::MAX && (cursor(e) != 0 ==> e.width > 0),
        KeyCode::Delete => cursor(e) <= i32::MAX,
        _ => true,
    }
}

impl Default for Editor {
    fn default() -> (r: Self)
        ensures
            r@.buffer.len() == 0,
            r@.x == 0,
            r@.y == 0,
            r@.width == 0,
    {
        Editor { buffer: Vec::new(), cursor_position: (0, 0), width: 0 }
    }
}

impl Editor {
    /// a copy of this editor
    pub fn copy(&self) -> (r: Editor)
        ensures
            r@ == self@,
    {
        let mut buffer: Vec<char> = Vec::new();
        let mut i: usize = 0;
        while i < self.buffer.len()
            invariant
                i <= self.buffer@.len(),
                buffer@ == self.buffer@.take(i as int),
            decreases self.buffer.len() - i,
        {
            buffer.push(self.buffer[i]);
            i = i + 1;
            assert(buffer@ =~= self.buffer@.take(i as int));
        }
        assert(self.buffer@.take(self.buffer@.len() as int) =~= self.buffer@);
        Editor { buffer, cursor_position: self.cursor_position, width: self.width }
    }

    /// an editor holding `text`, its cursor at the start
    pub fn from_text(text: &str) -> (r: Editor)
        ensures
            r@.buffer == text@,
            r@.x == 0,
            r@.y == 0,
            r@.width == 0,
    {
        let n = text.unicode_len();
        let mut buffer: Vec<char> = Vec::new();
        let mut i: usize = 0;
        while i < n
            invariant
                n == text@.len(),
                i <= n,
                buffer@ == text@.take(i as int),
            decreases n - i,
        {
            buffer.push(text.get_char(i));
            i = i + 1;
            assert(buffer@ =~= text@.take(i as int));
        }
        assert(text@.take(n as int) =~= text@);
        Editor { buffer, cursor_position: (0, 0), width: 0 }
    }

    /// the text being edited
    pub fn buffer(&self) -> (r: String)
        ensures
            r@ == self@.buffer,
    {
        let mut s = String::new();
        let mut i: usize = 0;
        while i < self.buffer.len()
            invariant
                i <= self.buffer@.len(),
                s@ == self.buffer@.take(i as int),
            decreases self.buffer.len() - i,
        {
            push_char(&mut s, self.buffer[i]);
            i = i + 1;
            assert(s@ =~= self.buffer@.take(i as int));
        }
        assert(self.buffer@.take(self.buffer@.len() as int) =~= self.buffer@);
        s
    }

    /// the cursor, as a column and a line
    pub fn cursor_position(&self) -> (r: (usize, usize))
        ensures
            r.0 == self@.x,
            r.1 == self@.y,
    {
        self.cursor_position
    }

    /// the width of the lines of the editor
    pub fn width(&self) -> (r: usize)
        ensures
            r == self@.width,
    {
        self.width
    }

    /// set the width of the editor
    ///
    /// this method removes the frame on the left and the right if any
    pub fn set_width(&mut self, width: usize)
        requires
            width >= 2,
        ensures
            final(self)@ == (EditorView { width: width - 2, ..old(self)@ }),
    {
        self.width = width - 2;
    }

    /// the index of the cursor in the text
    pub fn position(&self) -> (r: usize)
        requires
            cursor(self@) <= usize::MAX,
        ensures
            r == cursor(self@),
    {
        let (x, y) = self.cursor_position;
        assert(0 <= y * self.width <= cursor(self@)) by (nonlinear_arith)
            requires
                cursor(self@) == y * self.width + x,
                cursor(self@) <= usize::MAX;
        y * self.width + x
    }

    fn go_to(&mut self, p: usize)
        requires
            old(self)@.width > 0,
        ensures
            final(self)@ == at_index(old(self)@, p as int),
    {
        self.cursor_position = (p % self.width, p / self.width);
    }

    pub fn move_cursor_left(&mut self)
        requires
            old(self)@.width > 0,
            cursor(old(self)@) <= usize::MAX,
        ensures
            final(self)@ == move_left(old(self)@),
    {
        let p = self.position().saturating_sub(1);
        let p = if p <= self.buffer.len() { p } else { self.buffer.len() };
        self.go_to(p);
    }

    pub fn move_cursor_right(&mut self)
        requires
            old(self)@.width > 0,
            cursor(old(self)@) <= usize::MAX,
        ensures
            final(self)@ == move_right(old(self)@),
    {
        let p = self.position().saturating_add(1);
        let p = if p <= self.buffer.len() { p } else { self.buffer.len() };
        self.go_to(p);
    }

    pub fn move_cursor_up(&mut self)
        requires
            old(self)@.width > 0,
        ensures
            final(self)@ == move_up(old(self)@),
    {
        let (x, y) = self.cursor_position;
        let top = self.buffer.len() / self.width;
        let y = y.saturating_sub(1);
        let y = if y <= top { y } else { top };
        self.cursor_position = (x, y);
    }

    pub fn move_cursor_down(&mut self)
        requires
            old(self)@.width > 0,
            cursor(lowered(old(self)@)) <= usize::MAX,
        ensures
            final(self)@ == move_down(old(self)@),
    {
        let (x, y) = self.cursor_position;
        let bottom = self.buffer.len() / self.width;
        let y = y.saturating_add(1);
        let y = if y <= bottom { y } else { bottom };
        self.cursor_position = (x, y);
        let len = self.buffer.len();
        assert((y as int) * (self.width as int) <= len) by (nonlinear_arith)
            requires
                y <= bottom,
                bottom == len / self.width,
                self.width > 0;
        if self.position() > len {
            self.go_to(len);
        }
    }

    pub fn enter_char(&mut self, c: char)
        requires
            old(self)@.width > 0,
            cursor(old(self)@) <= old(self)@.buffer.len(),
        ensures
            final(self)@ == enter(old(self)@, c),
    {
        let n = self.buffer.len();
        assert(cursor(self@) <= n);
        let p = self.position();
        self.buffer.insert(p, c);
        self.move_cursor_right();
    }

    /// delete the character at `offset` from the cursor
    pub fn delete_char(&mut self, offset: i32)
        requires
            cursor(old(self)@) <= i32::MAX,
            0 <= cursor(old(self)@) + offset <= i32::MAX,
        ensures
            final(self)@ == (EditorView { buffer: without(old(self)@.buffer, cursor(old(self)@) + offset), ..old(self)@ }),
    {
        let position = ((self.position() as i32) + offset) as usize;
        if position < self.buffer.len() {
            self.buffer.remove(position);
        }
    }

    pub fn delete_char_before_cursor(&mut self)
        requires
            cursor(old(self)@) <= i32::MAX,
            cursor(old(self)@) != 0 ==> old(self)@.width > 0,
        ensures
            final(self)@ == delete_before(old(self)@),
    {
        let is_not_cursor_leftmost = self.position() != 0;

        if is_not_cursor_leftmost {
            self.delete_char(-1);
            self.move_cursor_left();
        }
    }

    pub fn delete_char_under_cursor(&mut self)
        requires
            cursor(old(self)@) <= i32::MAX,
        ensures
            final(self)@ == delete_under(old(self)@),
    {
        self.delete_char(0);
    }

    /// handle a key press: move the cursor, type or delete characters, submit the text or quit
    pub fn handle_key(&mut self, key: &KeyCode) -> (r: EditorTransition)
        requires
            accepts(old(self)@, *key),
        ensures
            final(self)@ == edited(old(self)@, *key),
            *key is Enter ==> r == EditorTransition::Submit(r->Submit_0) && r->Submit_0@ == old(self)@.buffer,
            *key is Esc ==> r == EditorTransition::Quit,
            !(*key is Enter) && !(*key is Esc) ==> r == EditorTransition::Continue,
    {
        match key {
            KeyCode::Left => self.move_cursor_left(),
            KeyCode::Right => self.move_cursor_right(),
            KeyCode::Up => self.move_cursor_up(),
            KeyCode::Down => self.move_cursor_down(),
            KeyCode::Char(c) => self.enter_char(*c),
            KeyCode::Backspace => self.delete_char_before_cursor(),
            KeyCode::Delete => self.delete_char_under_cursor(),
            KeyCode::Enter => {
                return EditorTransition::Submit(self.buffer());
            },
            KeyCode::Esc => {
                return EditorTransition::Quit;
            },
            _ => {},
        }
        EditorTransition::Continue
    }
}

proof fn lemma_at_index(e: EditorView, p: int)
    requires
        e.width > 0,
        p >= 0,
    ensures
        cursor(at_index(e, p)) == p,
{
    vstd::arithmetic::div_mod::lemma_fundamental_div_mod(p, e.width);
    assert(cursor(at_index(e, p)) == (p / e.width) * e.width + p % e.width) by (nonlinear_arith);
}

/// Every key press that the editor accepts keeps its cursor in the text, provided that typing
/// a character does not make the text too long.
pub proof fn law_editor_cursor_stays_in_text(e: EditorView, code: KeyCode)
    requires
        cursor_in_text(e),
        accepts(e, code),
        code is Char ==> e.buffer.len() < i32::MAX,
    ensures
        cursor_in_text(edited(e, code)),
{
    match code {
        KeyCode::Left => {
            lemma_at_index(e, min(if cursor(e) >= 1 { cursor(e) - 1 } else { 0 }, e.buffer.len() as int));
        },
        KeyCode::Right => {
            lemma_at_index(e, min(min(cursor(e) + 1, usize::MAX as int), e.buffer.len() as int));
        },
        KeyCode::Up => {
            let y = min(if e.y >= 1 { e.y - 1 } else { 0 }, e.buffer.len() as int / e.width);
            assert(0 <= y * e.width <= e.y * e.width) by (nonlinear_arith)
                requires
                    0 <= y <= e.y,
                    e.width > 0;
        },
        KeyCode::Down => {
            let moved = EditorView { y: min(min(e.y + 1, usize::MAX as int), e.buffer.len() as int / e.width), ..e };
            assert(0 <= moved.y * e.width) by (nonlinear_arith)
                requires
                    moved.y >= 0,
                    e.width > 0;
            if cursor(moved) > e.buffer.len() {
                lemma_at_index(moved, e.buffer.len() as int);
            }
        },
        KeyCode::Char(c) => {
            let inserted = EditorView { buffer: e.buffer.insert(cursor(e), c), ..e };
            lemma_at_index(inserted, min(min(cursor(inserted) + 1, usize::MAX as int), inserted.buffer.len() as int));
        },
        KeyCode::Backspace => {
            if cursor(e) != 0 {
                let removed = EditorView { buffer: without(e.buffer, cursor(e) - 1), ..e };
                lemma_at_index(removed, min(if cursor(removed) >= 1 { cursor(removed) - 1 } else { 0 }, removed.buffer.len() as int));
            }
        },
        _ => {},
    }
}

/// where the editor is drawn on a frame, and where its cursor stands
#[derive(Debug, Clone, Copy, PartialEq, Eq, Structural)]
pub struct EditorArea {
    pub x: u16,
    pub y: u16,
    pub width: u16,
    pub height: u16,
    pub cursor_x: u16,
    pub cursor_y: u16,
}

/// the number of lines that a text of `len` characters takes on lines of `width` characters,
/// one at least
pub open spec fn text_height(len: nat, width: nat) -> nat {
    if len == 0 {
        1
    } else if len % width == 0 {
        len / width
    } else {
        len / width + 1
    }
}

/// the area of the editor on a frame of `frame_width` by `frame_height`: centered, above the
/// two bottom lines, framed by a border of one character, with the cursor inside it
pub open spec fn editor_area(e: EditorView, frame_width: u16, frame_height: u16) -> EditorArea {
    let height = text_height(e.buffer.len(), e.width as nat) as u16;
    let width = e.width as u16;
    let x = ((frame_width - (width + 2)) / 2) as u16;
    let y = (frame_height - (height + 2) - 2) as u16;
    EditorArea {
        x,
        y,
        width: (width + 2) as u16,
        height: (height + 2) as u16,
        cursor_x: (x + 1 + e.x as u16) as u16,
        cursor_y: (y + 1 + e.y as u16) as u16,
    }
}

/// whether the editor fits on a frame of `frame_width` by `frame_height`, its cursor included
pub open spec fn fits(e: EditorView, frame_width: u16, frame_height: u16) -> bool {
    let height = text_height(e.buffer.len(), e.width as nat) as u16;
    let width = e.width as u16;
    &&& e.buffer.len() > 0 ==> e.width > 0
    &&& width + 2 <= frame_width
    &&& height + 4 <= frame_height
    &&& (frame_width - (width + 2)) / 2 + 1 + e.x as u16 <= u16::MAX
    &&& frame_height - (height + 2) - 2 + 1 + e.y as u16 <= u16::MAX
}

impl Editor {
    /// where the editor is drawn on a frame of `frame_width` by `frame_height`, `None` when it
    /// does not fit there
    pub fn area(&self, frame_width: u16, frame_height: u16) -> (r: Option<EditorArea>)
        ensures
            r is None <==> !fits(self@, frame_width, frame_height),
            r matches Some(a) ==> a == editor_area(self@, frame_width, frame_height),
    {
        let len = self.buffer.len();
        if len > 0 && self.width == 0 {
            return None;
        }
        let height = if len == 0 {
            1
        } else if len % self.width == 0 {
            len / self.width
        } else {
            let w = self.width;
            assert(len / w < len) by (nonlinear_arith)
                requires
                    w > 0,
                    len % w != 0,
                    len > 0,
            {
                assert(w != 1);
            }
            len / self.width + 1
        } as u16;
        let width = self.width as u16;
        let (cx, cy) = self.cursor_position;
        let (cx, cy) = (cx as u16, cy as u16);
        if width as u32 + 2 > frame_width as u32 || height as u32 + 4 > frame_height as u32 {
            return None;
        }
        let x = (frame_width - (width + 2)) / 2;
        let y = frame_height - (height + 2) - 2;
        if x as u32 + 1 + cx as u32 > 65535 || y as u32 + 1 + cy as u32 > 65535 {
            return None;
        }
        Some(EditorArea {
            x,
            y,
            width: width + 2,
            height: height + 2,
            cursor_x: x + 1 + cx,
            cursor_y: y + 1 + cy,
        })
    }
}

impl Editor {
    /// the index of the cursor, `None` when it does not fit in a `usize`
    fn checked_position(&self) -> (r: Option<usize>)
        ensures
            r is None <==> cursor(self@) > usize::MAX,
            r matches Some(c) ==> c == cursor(self@),
    {
        let (x, y) = self.cursor_position;
        assert(y * self.width >= 0) by (nonlinear_arith)
            requires
                y >= 0,
                self.width >= 0;
        match y.checked_mul(self.width) {
            None => None,
            Some(p) => p.checked_add(x),
        }
    }

    /// whether the editor handles a press of `code` without a crash
    pub fn accepts_key(&self, code: &KeyCode) -> (r: bool)
        ensures
            r == accepts(self@, *code),
    {
        let w = self.width;
        let len = self.buffer.len();
        let c = self.checked_position();
        match code {
            KeyCode::Left | KeyCode::Right => w > 0 && c.is_some(),
            KeyCode::Up => w > 0,
            KeyCode::Down => {
                if w == 0 {
                    return false;
                }
                let (x, y) = self.cursor_position;
                let y = y.saturating_add(1);
                let bottom = len / w;
                let y = if y <= bottom { y } else { bottom };
                assert(y * w >= 0) by (nonlinear_arith)
                    requires
                        y >= 0,
                        w >= 0;
                match y.checked_mul(w) {
                    None => false,
                    Some(p) => p.checked_add(x).is_some(),
                }
            },
            KeyCode::Char(_) => w > 0 && match c {
                Some(p) => p <= len,
                None => false,
            },
            KeyCode::Backspace => match c {
                Some(p) => p <= 2147483647 && (p == 0 || w > 0),
                None => false,
            },
            KeyCode::Delete => match c {
                Some(p) => p <= 2147483647,
                None => false,
            },
            _ => true,
        }
    }
}

/// Erasing the character just typed gives back the text as it was, with the cursor where it
/// was.
///
/// This is what [`Editor::enter_char`] followed by [`Editor::delete_char_before_cursor`] does,
/// and what the keys of a character and of Backspace do, for an editor with a width and its
/// cursor in its text; the text must stay shorter than `i32::MAX`, where the index is computed.
pub proof fn law_typing_then_erasing_restores(e: EditorView, c: char)
    requires
        e.width > 0,
        e.x >= 0,
        e.y >= 0,
        0 <= cursor(e) <= e.buffer.len(),
        e.buffer.len() < i32::MAX,
    ensures
        delete_before(enter(e, c)).buffer == e.buffer,
        cursor(delete_before(enter(e, c))) == cursor(e),
        edited(edited(e, KeyCode::Char(c)), KeyCode::Backspace) == delete_before(enter(e, c)),
{
    let p = cursor(e);
    let typed = EditorView { buffer: e.buffer.insert(p, c), ..e };
    lemma_at_index(typed, p + 1);
    let e1 = edited(e, KeyCode::Char(c));
    assert(cursor(e1) == p + 1);
    assert(e1.buffer == e.buffer.insert(p, c));
    let erased = EditorView { buffer: without(e1.buffer, p), ..e1 };
    assert(e1.buffer.remove(p) =~= e.buffer);
    lemma_at_index(erased, p);
}

/// Erasing before a cursor at the start of the text changes nothing.
pub proof fn law_erasing_at_the_start_changes_nothing(e: EditorView)
    requires
        cursor(e) == 0,
    ensures
        edited(e, KeyCode::Backspace) == e,
{
}

} // verus!

verus! {

impl Clone for Editor {
    fn clone(&self) -> (r: Self)
        ensures
            r@ == self@,
    {
        self.copy()
    }
}

} // verus!
