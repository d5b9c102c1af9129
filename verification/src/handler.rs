//! how the application answers key presses
use vstd::prelude::*;
use crate::value::{Data, Member, Value, PathMember, CellPath, follow, follow_cell_path};
use crate::keys::{KeyCode, KeyEvent, same_key, digit_key, key_digit};
use crate::config::KeyBindingsMap;
use crate::app::{App, AppView, Mode};
use crate::editor::{EditorTransition, accepts, edited};
use crate::navigation::{Direction, can_move, can_move_vertically, moved_vertically, moved_deeper, moved_back, go_up_or_down_in_data, go_deeper_in_data, go_back_in_data};
use crate::table::{transposed, transpose_defined, transpose, can_transpose};
use crate::text::{text};
pub use crate::keys::repr_key;

verus! {

/// the result of a state transition
#[derive(Debug, PartialEq)]
pub enum TransitionResult {
    /// leave the application
    Quit,
    /// keep exploring
    Continue,
    /// leave the application, giving back this value
    Return(Value),
    /// put the first value at the cell path in the data
    Mutate(Value, CellPath),
    /// show this error
    Error(String),
    /// INSERT mode was entered to change this value: its NUON text goes into the editor
    Edit(Value),
    /// the text of the editor is ready, to be read as NUON
    Submit(String),
}

/// the mathematical model of a [`TransitionResult`]
pub enum Transition {
    Quit,
    Continue,
    Return(Data),
    Mutate(Data, Seq<Member>),
    Error(Seq<char>),
    Edit(Data),
    Submit(Seq<char>),
}

impl View for TransitionResult {
    type V = Transition;

    open spec fn view(&self) -> Transition {
        match self {
            TransitionResult::Quit => Transition::Quit,
            TransitionResult::Continue => Transition::Continue,
            TransitionResult::Return(v) => Transition::Return(v@),
            TransitionResult::Mutate(v, p) => Transition::Mutate(v@, p@),
            TransitionResult::Error(e) => Transition::Error(e@),
            TransitionResult::Edit(v) => Transition::Edit(v@),
            TransitionResult::Submit(s) => Transition::Submit(s@),
        }
    }
}

impl TransitionResult {
    /// whether this transition leaves the application
    pub fn is_quit(&self) -> (r: bool)
        ensures
            r == (self is Quit || self is Return),
    {
        match self {
            TransitionResult::Quit | TransitionResult::Return(_) => true,
            _ => false,
        }
    }
}

/// what a key press does in NORMAL mode
#[derive(Debug, Clone, Copy, PartialEq, Eq, Structural)]
pub enum NormalAction {
    Digit(usize),
    HalfPageDown,
    HalfPageUp,
    GotoBottom,
    GotoTop,
    Quit,
    Insert,
    Peek,
    Down,
    Up,
    Right,
    Left,
    Transpose,
    Nothing,
}

/// what a key press does in WAITING mode
#[derive(Debug, Clone, Copy, PartialEq, Eq, Structural)]
pub enum WaitingAction {
    Digit(usize),
    Cancel,
    Down,
    Up,
    GotoLine,
    Nothing,
}

/// what a key press does in PEEKING mode
#[derive(Debug, Clone, Copy, PartialEq, Eq, Structural)]
pub enum PeekingAction {
    Quit,
    Normal,
    All,
    View,
    Under,
    CellPath,
    Nothing,
}

/// what a key press does in BOTTOM mode
#[derive(Debug, Clone, Copy, PartialEq, Eq, Structural)]
pub enum BottomAction {
    Quit,
    Left,
    Peek,
    Nothing,
}

pub open spec fn normal_action(kb: KeyBindingsMap, key: KeyEvent) -> NormalAction {
    if digit_key(key.code) is Some {
        NormalAction::Digit(digit_key(key.code).unwrap() as usize)
    } else if same_key(key, kb.navigation.half_page_down) {
        NormalAction::HalfPageDown
    } else if same_key(key, kb.navigation.half_page_up) {
        NormalAction::HalfPageUp
    } else if same_key(key, kb.navigation.goto_bottom) {
        NormalAction::GotoBottom
    } else if same_key(key, kb.navigation.goto_top) {
        NormalAction::GotoTop
    } else if same_key(key, kb.quit) {
        NormalAction::Quit
    } else if same_key(key, kb.insert) {
        NormalAction::Insert
    } else if same_key(key, kb.peek) {
        NormalAction::Peek
    } else if same_key(key, kb.navigation.down) {
        NormalAction::Down
    } else if same_key(key, kb.navigation.up) {
        NormalAction::Up
    } else if same_key(key, kb.navigation.right) {
        NormalAction::Right
    } else if same_key(key, kb.navigation.left) {
        NormalAction::Left
    } else if same_key(key, kb.transpose) {
        NormalAction::Transpose
    } else {
        NormalAction::Nothing
    }
}

pub open spec fn waiting_action(kb: KeyBindingsMap, key: KeyEvent) -> WaitingAction {
    if digit_key(key.code) is Some {
        WaitingAction::Digit(digit_key(key.code).unwrap() as usize)
    } else if key.code == KeyCode::Esc {
        WaitingAction::Cancel
    } else if same_key(key, kb.navigation.down) {
        WaitingAction::Down
    } else if same_key(key, kb.navigation.up) {
        WaitingAction::Up
    } else if same_key(key, kb.navigation.goto_line) {
        WaitingAction::GotoLine
    } else {
        WaitingAction::Nothing
    }
}

pub open spec fn peeking_action(kb: KeyBindingsMap, key: KeyEvent) -> PeekingAction {
    if same_key(key, kb.quit) {
        PeekingAction::Quit
    } else if same_key(key, kb.normal) {
        PeekingAction::Normal
    } else if same_key(key, kb.peeking.all) {
        PeekingAction::All
    } else if same_key(key, kb.peeking.view) {
        PeekingAction::View
    } else if same_key(key, kb.peeking.under) {
        PeekingAction::Under
    } else if same_key(key, kb.peeking.cell_path) {
        PeekingAction::CellPath
    } else {
        PeekingAction::Nothing
    }
}

pub open spec fn bottom_action(kb: KeyBindingsMap, key: KeyEvent) -> BottomAction {
    if same_key(key, kb.quit) {
        BottomAction::Quit
    } else if same_key(key, kb.navigation.left) {
        BottomAction::Left
    } else if same_key(key, kb.peek) {
        BottomAction::Peek
    } else {
        BottomAction::Nothing
    }
}

fn normal_action_of(kb: &KeyBindingsMap, key: &KeyEvent) -> (r: NormalAction)
    ensures
        r == normal_action(*kb, *key),
{
    match key_digit(&key.code) {
        Some(d) => NormalAction::Digit(d),
        None => {
            if key.same(&kb.navigation.half_page_down) {
                NormalAction::HalfPageDown
            } else if key.same(&kb.navigation.half_page_up) {
                NormalAction::HalfPageUp
            } else if key.same(&kb.navigation.goto_bottom) {
                NormalAction::GotoBottom
            } else if key.same(&kb.navigation.goto_top) {
                NormalAction::GotoTop
            } else if key.same(&kb.quit) {
                NormalAction::Quit
            } else if key.same(&kb.insert) {
                NormalAction::Insert
            } else if key.same(&kb.peek) {
                NormalAction::Peek
            } else if key.same(&kb.navigation.down) {
                NormalAction::Down
            } else if key.same(&kb.navigation.up) {
                NormalAction::Up
            } else if key.same(&kb.navigation.right) {
                NormalAction::Right
            } else if key.same(&kb.navigation.left) {
                NormalAction::Left
            } else if key.same(&kb.transpose) {
                NormalAction::Transpose
            } else {
                NormalAction::Nothing
            }
        },
    }
}

fn waiting_action_of(kb: &KeyBindingsMap, key: &KeyEvent) -> (r: WaitingAction)
    ensures
        r == waiting_action(*kb, *key),
{
    match key_digit(&key.code) {
        Some(d) => WaitingAction::Digit(d),
        None => {
            if key.code == KeyCode::Esc {
                WaitingAction::Cancel
            } else if key.same(&kb.navigation.down) {
                WaitingAction::Down
            } else if key.same(&kb.navigation.up) {
                WaitingAction::Up
            } else if key.same(&kb.navigation.goto_line) {
                WaitingAction::GotoLine
            } else {
                WaitingAction::Nothing
            }
        },
    }
}

fn peeking_action_of(kb: &KeyBindingsMap, key: &KeyEvent) -> (r: PeekingAction)
    ensures
        r == peeking_action(*kb, *key),
{
    if key.same(&kb.quit) {
        PeekingAction::Quit
    } else if key.same(&kb.normal) {
        PeekingAction::Normal
    } else if key.same(&kb.peeking.all) {
        PeekingAction::All
    } else if key.same(&kb.peeking.view) {
        PeekingAction::View
    } else if key.same(&kb.peeking.under) {
        PeekingAction::Under
    } else if key.same(&kb.peeking.cell_path) {
        PeekingAction::CellPath
    } else {
        PeekingAction::Nothing
    }
}

fn bottom_action_of(kb: &KeyBindingsMap, key: &KeyEvent) -> (r: BottomAction)
    ensures
        r == bottom_action(*kb, *key),
{
    if key.same(&kb.quit) {
        BottomAction::Quit
    } else if key.same(&kb.navigation.left) {
        BottomAction::Left
    } else if key.same(&kb.peek) {
        BottomAction::Peek
    } else {
        BottomAction::Nothing
    }
}

} // verus!

verus! {

/// the cursor without its last member, if it has one
pub open spec fn parent(p: Seq<Member>) -> Seq<Member> {
    if p.len() > 0 { p.drop_last() } else { p }
}

/// the cursor on the first row of a transposed view
pub open spec fn transposed_member(t: Data) -> Member {
    match t {
        Data::Record(f) => Member::Str { val: if f.len() == 0 { Seq::empty() } else { f[0].0 }, optional: f.len() == 0 },
        _ => Member::Int { val: 0, optional: false },
    }
}

/// the state of the application and the result after a key press in NORMAL mode
pub open spec fn handled_normal(a: AppView, key: KeyEvent, half_page: usize) -> (AppView, Transition) {
    match normal_action(a.config.keybindings, key) {
        NormalAction::Digit(d) => (AppView { mode: Mode::Waiting(d), ..a }, Transition::Continue),
        NormalAction::HalfPageDown => (moved_vertically(a, Direction::Down(half_page)), Transition::Continue),
        NormalAction::HalfPageUp => (moved_vertically(a, Direction::Up(half_page)), Transition::Continue),
        NormalAction::GotoBottom => (moved_vertically(a, Direction::Bottom), Transition::Continue),
        NormalAction::GotoTop => (moved_vertically(a, Direction::Top), Transition::Continue),
        NormalAction::Quit => (a, Transition::Quit),
        NormalAction::Insert => (AppView { mode: Mode::Insert, ..a }, Transition::Edit(follow(a.value, a.position).unwrap())),
        NormalAction::Peek => (AppView { mode: Mode::Peeking, ..a }, Transition::Continue),
        NormalAction::Down => (moved_vertically(a, Direction::Down(1)), Transition::Continue),
        NormalAction::Up => (moved_vertically(a, Direction::Up(1)), Transition::Continue),
        NormalAction::Right => (moved_deeper(a), Transition::Continue),
        NormalAction::Left => (moved_back(a), Transition::Continue),
        NormalAction::Transpose => {
            let path = parent(a.position);
            let view = follow(a.value, path).unwrap();
            let t = transposed(view);
            if t != view {
                (AppView { position: a.position.update(a.position.len() - 1, transposed_member(t)), ..a }, Transition::Mutate(t, path))
            } else {
                (a, Transition::Continue)
            }
        },
        NormalAction::Nothing => (a, Transition::Continue),
    }
}

/// the state of the application and the result after a key press in WAITING mode
pub open spec fn handled_waiting(a: AppView, n: usize, key: KeyEvent) -> (AppView, Transition) {
    let normal = AppView { mode: Mode::Normal, ..a };
    match waiting_action(a.config.keybindings, key) {
        WaitingAction::Digit(u) => (AppView { mode: Mode::Waiting((n * 10 + u) as usize), ..a }, Transition::Continue),
        WaitingAction::Cancel => (normal, Transition::Continue),
        WaitingAction::Down => (moved_vertically(normal, Direction::Down(n)), Transition::Continue),
        WaitingAction::Up => (moved_vertically(normal, Direction::Up(n)), Transition::Continue),
        WaitingAction::GotoLine => (moved_vertically(normal, Direction::At(if n >= 1 { (n - 1) as usize } else { 0 })), Transition::Continue),
        WaitingAction::Nothing => (a, Transition::Continue),
    }
}

/// the state of the application and the result after a key press in INSERT mode
pub open spec fn handled_insert(a: AppView, key: KeyEvent) -> (AppView, Transition) {
    if same_key(key, a.config.keybindings.normal) {
        (AppView { mode: Mode::Normal, ..a }, Transition::Continue)
    } else {
        let e = AppView { editor: edited(a.editor, key.code), ..a };
        if key.code is Enter {
            (e, Transition::Submit(a.editor.buffer))
        } else if key.code is Esc {
            (AppView { mode: Mode::Normal, ..e }, Transition::Continue)
        } else {
            (e, Transition::Continue)
        }
    }
}

/// the state of the application and the result after a key press in PEEKING mode
pub open spec fn handled_peeking(a: AppView, key: KeyEvent) -> (AppView, Transition) {
    match peeking_action(a.config.keybindings, key) {
        PeekingAction::Quit => (a, Transition::Quit),
        PeekingAction::Normal => (AppView { mode: Mode::Normal, ..a }, Transition::Continue),
        PeekingAction::All => (a, Transition::Return(a.value)),
        PeekingAction::View => (AppView { position: parent(a.position), ..a }, Transition::Return(follow(a.value, parent(a.position)).unwrap())),
        PeekingAction::Under => (a, Transition::Return(follow(a.value, a.position).unwrap())),
        PeekingAction::CellPath => (a, Transition::Return(Data::CellPath(a.position))),
        PeekingAction::Nothing => (a, Transition::Continue),
    }
}

/// the state of the application and the result after a key press in BOTTOM mode
pub open spec fn handled_bottom(a: AppView, key: KeyEvent) -> (AppView, Transition) {
    match bottom_action(a.config.keybindings, key) {
        BottomAction::Quit => (a, Transition::Quit),
        BottomAction::Left => (AppView { mode: Mode::Normal, ..a }, Transition::Continue),
        BottomAction::Peek => (a, Transition::Return(follow(a.value, a.position).unwrap())),
        BottomAction::Nothing => (a, Transition::Continue),
    }
}

/// the state of the application and the result after a key press
pub open spec fn handled(a: AppView, key: KeyEvent, half_page: usize) -> (AppView, Transition) {
    match a.mode {
        Mode::Normal => handled_normal(a, key, half_page),
        Mode::Waiting(n) => handled_waiting(a, n, key),
        Mode::Insert => handled_insert(a, key),
        Mode::Peeking => handled_peeking(a, key),
        Mode::Bottom => handled_bottom(a, key),
    }
}

/// a key press is handled without a crash: the cursor can be followed or moved where the key
/// asks for it, the typed count fits, the transposed view is well formed and the editor accepts
/// the key
pub open spec fn key_handled_safely(a: AppView, key: KeyEvent) -> bool {
    match a.mode {
        Mode::Normal => match normal_action(a.config.keybindings, key) {
            NormalAction::HalfPageDown | NormalAction::HalfPageUp | NormalAction::GotoBottom | NormalAction::GotoTop
                | NormalAction::Down | NormalAction::Up => can_move_vertically(a),
            NormalAction::Insert | NormalAction::Right => follow(a.value, a.position) is Some,
            NormalAction::Transpose => {
                &&& follow(a.value, parent(a.position)) is Some
                &&& transpose_defined(follow(a.value, parent(a.position)).unwrap())
                &&& transposed(follow(a.value, parent(a.position)).unwrap()) != follow(a.value, parent(a.position)).unwrap() ==> a.position.len() > 0
            },
            _ => true,
        },
        Mode::Waiting(n) => match waiting_action(a.config.keybindings, key) {
            WaitingAction::Digit(u) => n * 10 + u <= usize::MAX,
            WaitingAction::Down | WaitingAction::Up | WaitingAction::GotoLine => can_move_vertically(AppView { mode: Mode::Normal, ..a }),
            _ => true,
        },
        Mode::Insert => !same_key(key, a.config.keybindings.normal) ==> accepts(a.editor, key.code),
        Mode::Peeking => match peeking_action(a.config.keybindings, key) {
            PeekingAction::View => follow(a.value, parent(a.position)) is Some,
            PeekingAction::Under => follow(a.value, a.position) is Some,
            _ => true,
        },
        Mode::Bottom => match bottom_action(a.config.keybindings, key) {
            BottomAction::Peek => follow(a.value, a.position) is Some,
            _ => true,
        },
    }
}

} // verus!

verus! {

/// the cursor on the first row of a transposed view
fn transposed_member_of(t: &Value) -> (r: PathMember)
    ensures
        r@ == transposed_member(t@),
{
    match t {
        Value::Record(f) => {
            if f.len() == 0 {
                let m = PathMember::String { val: String::new(), optional: true };
                assert(m@ == transposed_member(t@));
                m
            } else {
                PathMember::String { val: f[0].0.clone(), optional: false }
            }
        },
        _ => PathMember::Int { val: 0, optional: false },
    }
}

impl App {
    /// the cursor without its last member, if it has one
    fn parent_path(&self) -> (r: CellPath)
        ensures
            r@ == parent(self@.position),
    {
        let mut path = self.position.copy();
        if path.members.len() > 0 {
            path.members.pop();
            assert(path@ =~= self@.position.drop_last());
        }
        path
    }

    fn handle_normal(&mut self, key_event: KeyEvent, half_page: usize) -> (r: TransitionResult)
        requires
            old(self).mode == Mode::Normal,
            key_handled_safely(old(self)@, key_event),
        ensures
            (final(self)@, r@) == handled_normal(old(self)@, key_event, half_page),
    {
        let action = normal_action_of(&self.config.keybindings, &key_event);
        match action {
            NormalAction::Digit(d) => {
                self.mode = Mode::Waiting(d);
                TransitionResult::Continue
            },
            NormalAction::HalfPageDown => {
                // TODO: add a margin to the bottom
                go_up_or_down_in_data(self, Direction::Down(half_page));
                TransitionResult::Continue
            },
            NormalAction::HalfPageUp => {
                // TODO: add a margin to the top
                go_up_or_down_in_data(self, Direction::Up(half_page));
                TransitionResult::Continue
            },
            NormalAction::GotoBottom => {
                go_up_or_down_in_data(self, Direction::Bottom);
                TransitionResult::Continue
            },
            NormalAction::GotoTop => {
                go_up_or_down_in_data(self, Direction::Top);
                TransitionResult::Continue
            },
            NormalAction::Quit => TransitionResult::Quit,
            NormalAction::Insert => {
                let value = self.value_under_cursor(None);
                self.mode = Mode::Insert;
                TransitionResult::Edit(value)
            },
            NormalAction::Peek => {
                self.mode = Mode::Peeking;
                TransitionResult::Continue
            },
            NormalAction::Down => {
                go_up_or_down_in_data(self, Direction::Down(1));
                TransitionResult::Continue
            },
            NormalAction::Up => {
                go_up_or_down_in_data(self, Direction::Up(1));
                TransitionResult::Continue
            },
            NormalAction::Right => {
                go_deeper_in_data(self);
                TransitionResult::Continue
            },
            NormalAction::Left => {
                go_back_in_data(self);
                TransitionResult::Continue
            },
            NormalAction::Transpose => {
                let path = self.parent_path();
                let view = self.value_under_cursor(Some(path.copy()));
                let transposed_view = transpose(&view);
                if !transposed_view.same(&view) {
                    let m = transposed_member_of(&transposed_view);
                    let last = self.position.members.len() - 1;
                    self.position.members.set(last, m);
                    assert(self.position@ =~= old(self)@.position.update(last as int, transposed_member(transposed_view@)));
                    return TransitionResult::Mutate(transposed_view, path);
                }
                TransitionResult::Continue
            },
            NormalAction::Nothing => TransitionResult::Continue,
        }
    }

    fn handle_waiting(&mut self, n: usize, key_event: KeyEvent) -> (r: TransitionResult)
        requires
            old(self).mode == Mode::Waiting(n),
            key_handled_safely(old(self)@, key_event),
        ensures
            (final(self)@, r@) == handled_waiting(old(self)@, n, key_event),
    {
        let action = waiting_action_of(&self.config.keybindings, &key_event);
        match action {
            WaitingAction::Digit(u) => {
                self.mode = Mode::Waiting(n * 10 + u);
            },
            WaitingAction::Cancel => {
                self.mode = Mode::Normal;
            },
            WaitingAction::Down => {
                self.mode = Mode::Normal;
                go_up_or_down_in_data(self, Direction::Down(n));
            },
            WaitingAction::Up => {
                self.mode = Mode::Normal;
                go_up_or_down_in_data(self, Direction::Up(n));
            },
            WaitingAction::GotoLine => {
                self.mode = Mode::Normal;
                go_up_or_down_in_data(self, Direction::At(n.saturating_sub(1)));
            },
            WaitingAction::Nothing => {},
        }
        TransitionResult::Continue
    }

    fn handle_insert(&mut self, key_event: KeyEvent) -> (r: TransitionResult)
        requires
            old(self).mode == Mode::Insert,
            key_handled_safely(old(self)@, key_event),
        ensures
            (final(self)@, r@) == handled_insert(old(self)@, key_event),
    {
        if key_event.same(&self.config.keybindings.normal) {
            self.mode = Mode::Normal;
            return TransitionResult::Continue;
        }
        match self.editor.handle_key(&key_event.code) {
            EditorTransition::Submit(text) => TransitionResult::Submit(text),
            EditorTransition::Quit => {
                self.mode = Mode::Normal;
                TransitionResult::Continue
            },
            EditorTransition::Continue => TransitionResult::Continue,
        }
    }

    fn handle_peeking(&mut self, key_event: KeyEvent) -> (r: TransitionResult)
        requires
            old(self).mode == Mode::Peeking,
            key_handled_safely(old(self)@, key_event),
        ensures
            (final(self)@, r@) == handled_peeking(old(self)@, key_event),
    {
        let action = peeking_action_of(&self.config.keybindings, &key_event);
        match action {
            PeekingAction::Quit => TransitionResult::Quit,
            PeekingAction::Normal => {
                self.mode = Mode::Normal;
                TransitionResult::Continue
            },
            PeekingAction::All => TransitionResult::Return(self.value.copy()),
            PeekingAction::View => {
                self.position = self.parent_path();
                TransitionResult::Return(self.value_under_cursor(None))
            },
            PeekingAction::Under => TransitionResult::Return(self.value_under_cursor(None)),
            PeekingAction::CellPath => TransitionResult::Return(Value::CellPath(self.position.copy())),
            PeekingAction::Nothing => TransitionResult::Continue,
        }
    }

    fn handle_bottom(&mut self, key_event: KeyEvent) -> (r: TransitionResult)
        requires
            old(self).mode == Mode::Bottom,
            key_handled_safely(old(self)@, key_event),
        ensures
            (final(self)@, r@) == handled_bottom(old(self)@, key_event),
    {
        let action = bottom_action_of(&self.config.keybindings, &key_event);
        match action {
            BottomAction::Quit => TransitionResult::Quit,
            BottomAction::Left => {
                self.mode = Mode::Normal;
                TransitionResult::Continue
            },
            BottomAction::Peek => TransitionResult::Return(self.value_under_cursor(None)),
            BottomAction::Nothing => TransitionResult::Continue,
        }
    }

    /// Handles the key events and updates the state of [`App`].
    pub fn handle_key_events(&mut self, key_event: KeyEvent, half_page: usize) -> (r: TransitionResult)
        requires
            key_handled_safely(old(self)@, key_event),
        ensures
            (final(self)@, r@) == handled(old(self)@, key_event, half_page),
    {
        match self.mode {
            Mode::Normal => self.handle_normal(key_event, half_page),
            Mode::Waiting(n) => self.handle_waiting(n, key_event),
            Mode::Insert => self.handle_insert(key_event),
            Mode::Peeking => self.handle_peeking(key_event),
            Mode::Bottom => self.handle_bottom(key_event),
        }
    }
}

} // verus!

verus! {

impl App {
    /// whether a press of `key` is handled without a crash
    pub fn handles_safely(&self, key: &KeyEvent) -> (r: bool)
        ensures
            r == key_handled_safely(self@, *key),
    {
        let kb = &self.config.keybindings;
        match self.mode {
            Mode::Normal => match normal_action_of(kb, key) {
                NormalAction::HalfPageDown | NormalAction::HalfPageUp | NormalAction::GotoBottom
                | NormalAction::GotoTop | NormalAction::Down | NormalAction::Up => can_move(self),
                NormalAction::Insert | NormalAction::Right => follow_cell_path(&self.value, &self.position.members).is_some(),
                NormalAction::Transpose => {
                    let p = self.parent_path();
                    match follow_cell_path(&self.value, &p.members) {
                        None => false,
                        Some(v) => {
                            if !can_transpose(&v) {
                                return false;
                            }
                            let t = transpose(&v);
                            t.same(&v) || self.position.members.len() > 0
                        },
                    }
                },
                _ => true,
            },
            Mode::Waiting(n) => match waiting_action_of(kb, key) {
                WaitingAction::Digit(u) => match n.checked_mul(10) {
                    None => false,
                    Some(m) => m.checked_add(u).is_some(),
                },
                WaitingAction::Down | WaitingAction::Up | WaitingAction::GotoLine => can_move(self),
                _ => true,
            },
            Mode::Insert => key.same(&kb.normal) || self.editor.accepts_key(&key.code),
            Mode::Peeking => match peeking_action_of(kb, key) {
                PeekingAction::View => {
                    let p = self.parent_path();
                    follow_cell_path(&self.value, &p.members).is_some()
                },
                PeekingAction::Under => follow_cell_path(&self.value, &self.position.members).is_some(),
                _ => true,
            },
            Mode::Bottom => match bottom_action_of(kb, key) {
                BottomAction::Peek => follow_cell_path(&self.value, &self.position.members).is_some(),
                _ => true,
            },
        }
    }
}

} // verus!

verus! {

/// A key press never changes the data being explored nor the configuration: the data only
/// changes through the cell that a transition asks to put in it.
pub proof fn law_keys_keep_data_and_config(a: AppView, key: KeyEvent, half_page: usize)
    ensures
        handled(a, key, half_page).0.value == a.value,
        handled(a, key, half_page).0.config == a.config,
{
}

/// In PEEKING mode, peeking all the data gives the whole data back, and peeking under the
/// cursor gives the cell under the cursor.
pub proof fn law_peeking_gives_the_data(a: AppView, key: KeyEvent, half_page: usize)
    requires
        a.mode == Mode::Peeking,
    ensures
        peeking_action(a.config.keybindings, key) == PeekingAction::All
            ==> handled(a, key, half_page).1 == Transition::Return(a.value),
        peeking_action(a.config.keybindings, key) == PeekingAction::Under
            ==> handled(a, key, half_page).1 == Transition::Return(follow(a.value, a.position).unwrap()),
{
}

} // verus!

verus! {

/// In WAITING mode with a typed count `n`, on a row `i` of a list, the up key moves the cursor
/// `n` rows up, stopping at the first row, and the down key moves it `n` rows down, stopping at
/// the last row; either key leaves WAITING mode for NORMAL mode.
pub proof fn law_counted_vertical_moves(a: AppView, key: KeyEvent, half_page: usize, vals: Seq<Data>, i: nat, optional: bool)
    requires
        a.mode matches Mode::Waiting(_),
        digit_key(key.code) is None,
        key.code != KeyCode::Esc,
        a.position.len() > 0,
        a.position.last() == (Member::Int { val: i, optional }),
        follow(a.value, a.position.drop_last()) == Some(Data::List(vals)),
        0 < vals.len() <= usize::MAX,
    ensures
        ({
            let n = a.mode->Waiting_0;
            same_key(key, a.config.keybindings.navigation.up) && !same_key(key, a.config.keybindings.navigation.down)
                ==> handled(a, key, half_page) == (AppView {
                    mode: Mode::Normal,
                    position: a.position.drop_last().push(Member::Int { val: if i >= n { (i - n) as nat } else { 0 }, optional }),
                    ..a
                }, Transition::Continue)
        }),
        ({
            let n = a.mode->Waiting_0;
            same_key(key, a.config.keybindings.navigation.down)
                ==> handled(a, key, half_page) == (AppView {
                    mode: Mode::Normal,
                    position: a.position.drop_last().push(Member::Int { val: if i + n < vals.len() - 1 { (i + n) as nat } else { (vals.len() - 1) as nat }, optional }),
                    ..a
                }, Transition::Continue)
        }),
{
}

} // verus!
