//! the higher level application
use vstd::prelude::*;
use crate::value::{Data, Member, Value, PathMember, CellPath, follow, follow_cell_path};
use crate::editor::{Editor, EditorView};
use crate::config::{Config, ConfigView, default_config};
use crate::text::{text, push_str};
use crate::handler::{TransitionResult, Transition};
use crate::cells::{mutate, mutate_defined, mutate_value_cell, path_exact, law_read_after_mutate};

verus! {

/// the mode in which the application is
#[derive(Debug, Clone, Copy, PartialEq, Eq, Structural)]
pub enum Mode {
    /// the *navigation* mode, where the user can move around in the data
    Normal,
    /// lets the user edit cells of the structured data
    Insert,
    /// lets the user *peek* data out of the application, to be reused later
    Peeking,
    /// indicates that the user has arrived to the very bottom of the nested data, i.e. there is
    /// nothing more to the right
    Bottom,
    /// waits for more keys to perform an action, e.g. jumping to a line or motion repetition that
    /// both require to enter a number before the actual action
    Waiting(usize),
}

/// how a mode is shown to the user
pub open spec fn mode_text(m: Mode) -> Seq<char> {
    match m {
        Mode::Normal => "NORMAL"@,
        Mode::Insert => "INSERT"@,
        Mode::Peeking => "PEEKING"@,
        Mode::Bottom => "BOTTOM"@,
        Mode::Waiting(_) => "WAITING"@,
    }
}

impl Mode {
    /// how this mode is shown to the user
    pub fn text(&self) -> (r: String)
        ensures
            r@ == mode_text(*self),
    {
        match self {
            Mode::Normal => text("NORMAL"),
            Mode::Insert => text("INSERT"),
            Mode::Peeking => text("PEEKING"),
            Mode::Bottom => text("BOTTOM"),
            Mode::Waiting(_) => text("WAITING"),
        }
    }
}

impl Default for Mode {
    fn default() -> (r: Self)
        ensures
            r == Mode::Normal,
    {
        Mode::Normal
    }
}

/// the complete state of the application
pub struct App {
    /// the full current path in the data
    pub position: CellPath,
    /// used for rendering
    pub rendering_tops: Vec<i32>,
    /// the current [`Mode`]
    pub mode: Mode,
    /// the editor to modify the cells of the data
    pub editor: Editor,
    /// the value that is being explored
    pub value: Value,
    /// the configuration for the app
    pub config: Config,
}

/// the mathematical model of an [`App`]
pub struct AppView {
    pub position: Seq<Member>,
    pub mode: Mode,
    pub editor: EditorView,
    pub value: Data,
    pub config: ConfigView,
}

impl View for App {
    type V = AppView;

    open spec fn view(&self) -> AppView {
        AppView {
            position: self.position@,
            mode: self.mode,
            editor: self.editor@,
            value: self.value@,
            config: self.config@,
        }
    }
}

/// the cursor put on the first row of some data, if it has rows
pub open spec fn first_member(v: Data) -> Option<Member> {
    match v {
        Data::List(vals) => Some(Member::Int { val: 0, optional: vals.len() == 0 }),
        Data::Record(f) => Some(Member::Str { val: if f.len() == 0 { Seq::empty() } else { f[0].0 }, optional: f.len() == 0 }),
        _ => None,
    }
}

/// the cursor put on the first row of some data
pub fn first_member_of(v: &Value) -> (r: Option<PathMember>)
    ensures
        r is None <==> first_member(v@) is None,
        r matches Some(m) ==> first_member(v@) == Some(m@),
{
    match v {
        Value::List(vals) => Some(PathMember::Int { val: 0, optional: vals.len() == 0 }),
        Value::Record(f) => {
            if f.len() == 0 {
                let m = PathMember::String { val: String::new(), optional: true };
                assert(m@ == Member::Str { val: Seq::<char>::empty(), optional: true });
                Some(m)
            } else {
                Some(PathMember::String { val: f[0].0.clone(), optional: false })
            }
        },
        _ => None,
    }
}

impl Default for App {
    fn default() -> (r: Self)
        ensures
            r@.position.len() == 0,
            r@.mode == Mode::Normal,
            r@.value == Data::Nothing,
            r@.config == default_config(),
    {
        let position = CellPath { members: Vec::new() };
        assert(position@ =~= Seq::<Member>::empty());
        App {
            position,
            rendering_tops: Vec::new(),
            mode: Mode::Normal,
            editor: Editor::default(),
            value: Value::Nothing,
            config: Config::default(),
        }
    }
}

impl App {
    /// Handles the tick event of the terminal.
    pub fn tick(&self) {
    }

    /// the application exploring `value`, its cursor on the first row of the data
    pub fn from_value(value: Value) -> (r: App)
        ensures
            r@.value == value@,
            r@.mode == Mode::Normal,
            r@.config == default_config(),
            r@.position == (match first_member(value@) {
                Some(m) => seq![m],
                None => Seq::<Member>::empty(),
            }),
    {
        let mut app = App::default();
        match first_member_of(&value) {
            Some(m) => {
                app.position.members.push(m);
                assert(app.position@ =~= seq![m@]);
            },
            None => {},
        }
        app.value = value;
        app
    }

    pub fn is_at_bottom(&self) -> (r: bool)
        ensures
            r == (self.mode == Mode::Bottom),
    {
        match self.mode {
            Mode::Bottom => true,
            _ => false,
        }
    }

    pub fn hit_bottom(&mut self)
        ensures
            final(self)@ == (AppView { mode: Mode::Bottom, ..old(self)@ }),
    {
        self.mode = Mode::Bottom;
    }

    /// the value under the cursor, or under `alternate_cursor` when it is given
    pub fn value_under_cursor(&self, alternate_cursor: Option<CellPath>) -> (r: Value)
        requires
            follow(self.value@, match alternate_cursor {
                Some(c) => c@,
                None => self.position@,
            }) is Some,
        ensures
            Some(r@) == follow(self.value@, match alternate_cursor {
                Some(c) => c@,
                None => self.position@,
            }),
    {
        let path = match alternate_cursor {
            Some(c) => c,
            None => self.position.copy(),
        };
        match follow_cell_path(&self.value, &path.members) {
            Some(v) => v,
            None => {
                assert(false);
                Value::Nothing
            },
        }
    }

    /// this application with another configuration
    pub fn with_config(&self, config: Config) -> (r: App)
        ensures
            r@ == (AppView { config: config@, ..self@ }),
    {
        let mut rendering_tops: Vec<i32> = Vec::new();
        let mut i: usize = 0;
        while i < self.rendering_tops.len()
            invariant
                i <= self.rendering_tops@.len(),
            decreases self.rendering_tops.len() - i,
        {
            rendering_tops.push(self.rendering_tops[i]);
            i = i + 1;
        }
        App {
            position: self.position.copy(),
            rendering_tops,
            mode: self.mode,
            editor: self.editor.copy(),
            value: self.value.copy(),
            config,
        }
    }

    /// put `text` in the editor, its cursor at the start
    pub fn open_editor(&mut self, text: &str)
        ensures
            final(self)@ == (AppView { editor: final(self)@.editor, ..old(self)@ }),
            final(self)@.editor.buffer == text@,
            final(self)@.editor.x == 0,
            final(self)@.editor.y == 0,
            final(self)@.editor.width == 0,
    {
        self.editor = Editor::from_text(text);
    }
}

/// the state of the application and the result once the text of the editor has been read as
/// NUON: the value read replaces the cell under the cursor, or the reason why it could not be
/// read is shown
pub open spec fn submitted(a: AppView, parsed: Result<Data, Seq<char>>) -> (AppView, Transition) {
    match parsed {
        Ok(v) => (AppView { mode: Mode::Normal, ..a }, Transition::Mutate(v, a.position)),
        Err(m) => (a, Transition::Error("could not convert back from NUON: "@ + m)),
    }
}

impl App {
    /// answer the text of the editor read as NUON: `Ok` with the value read, or `Err` with why
    /// it could not be read
    pub fn submit_edit(&mut self, parsed: Result<Value, String>) -> (r: TransitionResult)
        ensures
            (final(self)@, r@) == submitted(old(self)@, match parsed {
                Ok(v) => Ok::<Data, Seq<char>>(v@),
                Err(m) => Err::<Data, Seq<char>>(m@),
            }),
    {
        match parsed {
            Ok(v) => {
                self.mode = Mode::Normal;
                TransitionResult::Mutate(v, self.position.copy())
            },
            Err(m) => {
                let mut s = text("could not convert back from NUON: ");
                push_str(&mut s, m.as_str());
                TransitionResult::Error(s)
            },
        }
    }

    /// put `cell` at `path` in the data being explored
    ///
    /// `false`, and the data unchanged, when `path` does not lead anywhere in the data.
    pub fn apply_mutation(&mut self, cell: &Value, path: &CellPath) -> (r: bool)
        requires
            mutate_defined(old(self)@.value, path@),
        ensures
            r == mutate(old(self)@.value, path@, cell@) is Some,
            r ==> final(self)@ == (AppView { value: mutate(old(self)@.value, path@, cell@).unwrap(), ..old(self)@ }),
            !r ==> final(self)@ == old(self)@,
    {
        match mutate_value_cell(&self.value, path, cell) {
            Some(v) => {
                self.value = v;
                true
            },
            None => false,
        }
    }
}

/// A value submitted from the editor, once put in the data, is what the cursor then points at,
/// as long as the cursor leads to a single cell.
pub proof fn law_submitted_edit_reads_back(a: AppView, v: Data)
    requires
        path_exact(a.value, a.position),
    ensures
        submitted(a, Ok(v)).1 == Transition::Mutate(v, a.position),
        mutate_defined(a.value, a.position),
        mutate(a.value, a.position, v) is Some,
        follow(mutate(a.value, a.position, v).unwrap(), a.position) == Some(v),
{
    law_read_after_mutate(a.value, a.position, v);
}

} // verus!

verus! {

impl Clone for App {
    fn clone(&self) -> (r: Self)
        ensures
            r@ == self@,
    {
        self.with_config(self.config.copy())
    }
}

} // verus!
