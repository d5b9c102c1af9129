//! the configuration of the explorer: its colors, its key bindings and its layout
use vstd::prelude::*;
use crate::keys::{KeyCode, KeyEvent, KeyModifiers, KeyEventKind, KeyEventState};
use crate::style::{Color, Modifier};
use crate::text::text;
use crate::value::{Data, Member, Value, follow, fields_view, lookup};
use crate::parsing::{
    LabeledError, LabeledErrorView, config_error, invalid_field_text, invalid_type_text, positive_integer_text,
    tried, bool_at, string_at, int_at, modifier_at, layout_at, key_at, fg_bg_at, fold_columns, names, str_path,
    path_view, try_bool, try_string, try_int, try_modifier, try_layout, try_key, try_fg_bg_colors,
    follow_cell_path, invalid_field, invalid_type, positive_integer, lemma_column_found, is_text, key_named,
};

verus! {

/// a pair of background / foreground colors
#[derive(Debug, Clone, Copy, PartialEq, Eq, Structural)]
pub struct BgFgColorConfig {
    pub background: Color,
    pub foreground: Color,
}

/// the configuration for the status bar colors in all modes
#[derive(Debug, Clone, Copy, PartialEq, Eq, Structural)]
pub struct StatusBarColorConfig {
    pub normal: BgFgColorConfig,
    pub insert: BgFgColorConfig,
    pub peek: BgFgColorConfig,
    pub bottom: BgFgColorConfig,
}

/// the configuration for a row of the data rendering table
#[derive(Debug, Clone, Copy, PartialEq, Eq, Structural)]
pub struct TableRowColorConfig {
    /// the name of the data, i.e. the key on the left
    pub name: BgFgColorConfig,
    /// the data itself
    pub data: BgFgColorConfig,
    /// the type of the data, e.g. `string` or `int`
    pub shape: BgFgColorConfig,
}

/// the configuration for the editor box
#[derive(Debug, Clone, Copy, PartialEq, Eq, Structural)]
pub struct EditorColorConfig {
    pub frame: BgFgColorConfig,
    pub buffer: BgFgColorConfig,
}

/// the configuration for the line numbers
#[derive(Debug, Clone, Copy, PartialEq, Eq, Structural)]
pub struct LineNumbersColorConfig {
    /// all lines
    pub normal: BgFgColorConfig,
    /// the selected line
    pub selected: BgFgColorConfig,
}

/// the colors of the application
#[derive(Debug, Clone, PartialEq)]
pub struct ColorConfig {
    /// the color when a row is NOT selected
    pub normal: TableRowColorConfig,
    /// the color when a row is selected
    pub selected: BgFgColorConfig,
    /// the modifier to apply to the row under the cursor
    pub selected_modifier: Modifier,
    /// the symbol to show to the left of the selected row under the cursor
    pub selected_symbol: String,
    pub status_bar: StatusBarColorConfig,
    /// the color when editing a cell
    pub editor: EditorColorConfig,
    /// the color of a warning banner
    pub warning: BgFgColorConfig,
    /// the color of the line numbers
    pub line_numbers: LineNumbersColorConfig,
}

/// the bindings in NORMAL mode
#[derive(Debug, Clone, Copy, PartialEq)]
pub struct NavigationBindingsMap {
    /// go one row up in the data
    pub up: KeyEvent,
    /// go one row down in the data
    pub down: KeyEvent,
    /// go one level higher in the data
    pub left: KeyEvent,
    /// go one level deeper in the data
    pub right: KeyEvent,
    /// go one half page up in the data
    pub half_page_up: KeyEvent,
    /// go one half page down in the data
    pub half_page_down: KeyEvent,
    /// go to the top of the data, i.e. the first element or the first key
    pub goto_top: KeyEvent,
    /// go to the bottom of the data, i.e. the last element or the last key
    pub goto_bottom: KeyEvent,
    /// go at a particular line in the data
    pub goto_line: KeyEvent,
}

/// the bindings in PEEKING mode
#[derive(Debug, Clone, Copy, PartialEq)]
pub struct PeekingBindingsMap {
    /// peek the whole data structure
    pub all: KeyEvent,
    /// peek the current cell path
    pub cell_path: KeyEvent,
    /// peek the current level, but only the row under the cursor
    pub under: KeyEvent,
    /// peek the current view
    pub view: KeyEvent,
}

/// the keybindings mapping
#[derive(Debug, Clone, Copy, PartialEq)]
pub struct KeyBindingsMap {
    pub quit: KeyEvent,
    /// go into INSERT mode
    pub insert: KeyEvent,
    /// go back into NORMAL mode
    pub normal: KeyEvent,
    pub navigation: NavigationBindingsMap,
    /// go into PEEKING mode
    pub peek: KeyEvent,
    pub peeking: PeekingBindingsMap,
    pub transpose: KeyEvent,
}

/// the layout of the application
#[derive(Debug, Clone, Copy, PartialEq, Eq, Structural)]
pub enum Layout {
    /// show each row in a `[name, data, type]` column
    Table,
    /// show each row in compact form, to the left, `"{name}: ({type}) {data}"`
    Compact,
}

/// the configuration of the whole application
#[derive(Debug, Clone, PartialEq)]
pub struct Config {
    pub colors: ColorConfig,
    pub keybindings: KeyBindingsMap,
    pub show_cell_path: bool,
    pub layout: Layout,
    pub show_table_header: bool,
    pub margin: usize,
    pub number: bool,
    pub relativenumber: bool,
    pub show_hints: bool,
    pub strict_tables: bool,
}

/// the mathematical model of a [`ColorConfig`]
pub struct ColorConfigView {
    pub normal: TableRowColorConfig,
    pub selected: BgFgColorConfig,
    pub selected_modifier: Modifier,
    pub selected_symbol: Seq<char>,
    pub status_bar: StatusBarColorConfig,
    pub editor: EditorColorConfig,
    pub warning: BgFgColorConfig,
    pub line_numbers: LineNumbersColorConfig,
}

/// the mathematical model of a [`Config`]
pub struct ConfigView {
    pub colors: ColorConfigView,
    pub keybindings: KeyBindingsMap,
    pub show_cell_path: bool,
    pub layout: Layout,
    pub show_table_header: bool,
    pub margin: usize,
    pub number: bool,
    pub relativenumber: bool,
    pub show_hints: bool,
    pub strict_tables: bool,
}

impl View for ColorConfig {
    type V = ColorConfigView;

    open spec fn view(&self) -> ColorConfigView {
        ColorConfigView {
            normal: self.normal,
            selected: self.selected,
            selected_modifier: self.selected_modifier,
            selected_symbol: self.selected_symbol@,
            status_bar: self.status_bar,
            editor: self.editor,
            warning: self.warning,
            line_numbers: self.line_numbers,
        }
    }
}

impl View for Config {
    type V = ConfigView;

    open spec fn view(&self) -> ConfigView {
        ConfigView {
            colors: self.colors@,
            keybindings: self.keybindings,
            show_cell_path: self.show_cell_path,
            layout: self.layout,
            show_table_header: self.show_table_header,
            margin: self.margin,
            number: self.number,
            relativenumber: self.relativenumber,
            show_hints: self.show_hints,
            strict_tables: self.strict_tables,
        }
    }
}

/// the press of `code` with no modifier
pub open spec fn press(code: KeyCode) -> KeyEvent {
    KeyEvent { code, modifiers: KeyModifiers { bits: 0 }, kind: KeyEventKind::Press, state: KeyEventState { bits: 0 } }
}

/// the press of `code` with control held
pub open spec fn ctrl_press(code: KeyCode) -> KeyEvent {
    KeyEvent { code, modifiers: KeyModifiers { bits: 2 }, kind: KeyEventKind::Press, state: KeyEventState { bits: 0 } }
}

pub open spec fn colors(background: Color, foreground: Color) -> BgFgColorConfig {
    BgFgColorConfig { background, foreground }
}

/// the default key bindings: Vim-like
pub open spec fn default_keybindings() -> KeyBindingsMap {
    KeyBindingsMap {
        quit: press(KeyCode::Char('q')),
        insert: press(KeyCode::Char('i')),
        normal: press(KeyCode::Esc),
        navigation: NavigationBindingsMap {
            left: press(KeyCode::Char('h')),
            down: press(KeyCode::Char('j')),
            up: press(KeyCode::Char('k')),
            right: press(KeyCode::Char('l')),
            half_page_down: ctrl_press(KeyCode::Char('d')),
            half_page_up: ctrl_press(KeyCode::Char('u')),
            goto_top: press(KeyCode::Char('g')),
            goto_bottom: press(KeyCode::Char('G')),
            goto_line: press(KeyCode::Char('g')),
        },
        peek: press(KeyCode::Char('p')),
        peeking: PeekingBindingsMap {
            all: press(KeyCode::Char('a')),
            cell_path: press(KeyCode::Char('c')),
            under: press(KeyCode::Char('p')),
            view: press(KeyCode::Char('v')),
        },
        transpose: press(KeyCode::Char('t')),
    }
}

/// the default colors
///
/// "reset" is used instead of "black" in a dark terminal because, when the terminal is actually
/// black, "black" is not really black which is ugly, whereas "reset" is really black.
pub open spec fn default_colors() -> ColorConfigView {
    ColorConfigView {
        normal: TableRowColorConfig {
            name: colors(Color::Reset, Color::Green),
            data: colors(Color::Reset, Color::White),
            shape: colors(Color::Reset, Color::Blue),
        },
        selected: colors(Color::White, Color::Black),
        selected_modifier: Modifier { bits: 1 },
        selected_symbol: Seq::empty(),
        status_bar: StatusBarColorConfig {
            normal: colors(Color::Black, Color::White),
            insert: colors(Color::Black, Color::LightYellow),
            peek: colors(Color::Black, Color::LightGreen),
            bottom: colors(Color::Black, Color::LightMagenta),
        },
        editor: EditorColorConfig {
            frame: colors(Color::Black, Color::LightCyan),
            buffer: colors(Color::Reset, Color::White),
        },
        warning: colors(Color::Yellow, Color::Red),
        line_numbers: LineNumbersColorConfig {
            normal: colors(Color::Reset, Color::White),
            selected: colors(Color::White, Color::Black),
        },
    }
}

/// the default configuration
pub open spec fn default_config() -> ConfigView {
    ConfigView {
        colors: default_colors(),
        keybindings: default_keybindings(),
        show_cell_path: true,
        layout: Layout::Table,
        show_table_header: true,
        margin: 10,
        number: false,
        relativenumber: false,
        show_hints: true,
        strict_tables: false,
    }
}

fn key(code: KeyCode) -> (r: KeyEvent)
    ensures
        r == press(code),
{
    KeyEvent::new(code, KeyModifiers::none())
}

fn ctrl_key(code: KeyCode) -> (r: KeyEvent)
    ensures
        r == ctrl_press(code),
{
    KeyEvent::new(code, KeyModifiers::control())
}

fn pair(background: Color, foreground: Color) -> (r: BgFgColorConfig)
    ensures
        r == colors(background, foreground),
{
    BgFgColorConfig { background, foreground }
}

impl Default for Config {
    fn default() -> (r: Self)
        ensures
            r@ == default_config(),
    {
        let symbol = String::new();
        let c = Config {
            show_cell_path: true,
            show_table_header: true,
            layout: Layout::Table,
            margin: 10,
            number: false,
            relativenumber: false,
            show_hints: true,
            strict_tables: false,
            colors: ColorConfig {
                normal: TableRowColorConfig {
                    name: pair(Color::Reset, Color::Green),
                    data: pair(Color::Reset, Color::White),
                    shape: pair(Color::Reset, Color::Blue),
                },
                selected: pair(Color::White, Color::Black),
                selected_modifier: Modifier::bold(),
                selected_symbol: symbol,
                status_bar: StatusBarColorConfig {
                    normal: pair(Color::Black, Color::White),
                    insert: pair(Color::Black, Color::LightYellow),
                    peek: pair(Color::Black, Color::LightGreen),
                    bottom: pair(Color::Black, Color::LightMagenta),
                },
                editor: EditorColorConfig {
                    frame: pair(Color::Black, Color::LightCyan),
                    buffer: pair(Color::Reset, Color::White),
                },
                warning: pair(Color::Yellow, Color::Red),
                line_numbers: LineNumbersColorConfig {
                    normal: pair(Color::Reset, Color::White),
                    selected: pair(Color::White, Color::Black),
                },
            },
            keybindings: KeyBindingsMap {
                quit: key(KeyCode::Char('q')),
                insert: key(KeyCode::Char('i')),
                normal: key(KeyCode::Esc),
                navigation: NavigationBindingsMap {
                    left: key(KeyCode::Char('h')),
                    down: key(KeyCode::Char('j')),
                    up: key(KeyCode::Char('k')),
                    right: key(KeyCode::Char('l')),
                    half_page_down: ctrl_key(KeyCode::Char('d')),
                    half_page_up: ctrl_key(KeyCode::Char('u')),
                    goto_top: key(KeyCode::Char('g')),
                    goto_bottom: key(KeyCode::Char('G')),
                    goto_line: key(KeyCode::Char('g')),
                },
                peek: key(KeyCode::Char('p')),
                peeking: PeekingBindingsMap {
                    all: key(KeyCode::Char('a')),
                    cell_path: key(KeyCode::Char('c')),
                    under: key(KeyCode::Char('p')),
                    view: key(KeyCode::Char('v')),
                },
                transpose: key(KeyCode::Char('t')),
            },
        };
        assert(c.colors.selected_symbol@ =~= Seq::<char>::empty());
        c
    }
}

impl ColorConfig {
    /// a copy of these colors
    pub fn copy(&self) -> (r: ColorConfig)
        ensures
            r@ == self@,
    {
        ColorConfig {
            normal: self.normal,
            selected: self.selected,
            selected_modifier: self.selected_modifier,
            selected_symbol: self.selected_symbol.clone(),
            status_bar: self.status_bar,
            editor: self.editor,
            warning: self.warning,
            line_numbers: self.line_numbers,
        }
    }
}

impl Config {
    /// a copy of this configuration
    pub fn copy(&self) -> (r: Config)
        ensures
            r@ == self@,
    {
        Config {
            colors: self.colors.copy(),
            keybindings: self.keybindings,
            show_cell_path: self.show_cell_path,
            layout: self.layout,
            show_table_header: self.show_table_header,
            margin: self.margin,
            number: self.number,
            relativenumber: self.relativenumber,
            show_hints: self.show_hints,
            strict_tables: self.strict_tables,
        }
    }
}

} // verus!

verus! {

/// a record of settings at `p` in `v`, each of its columns read by `step` over `c`
pub open spec fn section<C>(
    v: Data,
    p: Seq<Seq<char>>,
    c: C,
    step: spec_fn(Seq<char>, C) -> Result<C, LabeledErrorView>,
) -> Result<C, LabeledErrorView> {
    match follow(v, str_path(p)) {
        Some(Data::Record(f)) => fold_columns(names(f), c, step),
        Some(x) => Err(config_error(invalid_type_text(x, p, "record"@))),
        None => Ok(c),
    }
}

/// `c` with the setting given by `r` set by `set`, `c` itself when none is given, or the error
pub open spec fn set_if_given<T, C>(r: Result<Option<T>, LabeledErrorView>, c: C, set: spec_fn(T) -> C) -> Result<C, LabeledErrorView> {
    match r {
        Err(e) => Err(e),
        Ok(Some(x)) => Ok(set(x)),
        Ok(None) => Ok(c),
    }
}

/// the settings read from a section, set by `set`, or the error
pub open spec fn set_from<T, C>(r: Result<T, LabeledErrorView>, set: spec_fn(T) -> C) -> Result<C, LabeledErrorView> {
    match r {
        Err(e) => Err(e),
        Ok(x) => Ok(set(x)),
    }
}

/// one column, named `col`, of `$.colors.normal` in `v`, read over `c`
#[verifier::opaque]
pub open spec fn normal_column(v: Data, col: Seq<char>, c: TableRowColorConfig) -> Result<TableRowColorConfig, LabeledErrorView> {
    if col == "name"@ {
        set_if_given(fg_bg_at(v, seq!["colors"@, "normal"@, "name"@], c.name), c, |x| TableRowColorConfig { name: x, ..c })
    } else if col == "data"@ {
        set_if_given(fg_bg_at(v, seq!["colors"@, "normal"@, "data"@], c.data), c, |x| TableRowColorConfig { data: x, ..c })
    } else if col == "shape"@ {
        set_if_given(fg_bg_at(v, seq!["colors"@, "normal"@, "shape"@], c.shape), c, |x| TableRowColorConfig { shape: x, ..c })
    } else {
        Err(config_error(invalid_field_text(seq!["colors"@, "normal"@, col])))
    }
}

/// one column of `$.colors.normal` in `v`, as a step of [`fold_columns`]
pub open spec fn normal_step(v: Data) -> spec_fn(Seq<char>, TableRowColorConfig) -> Result<TableRowColorConfig, LabeledErrorView> {
    |col: Seq<char>, c: TableRowColorConfig| normal_column(v, col, c)
}

/// one column, named `col`, of `$.colors.status_bar` in `v`, read over `c`
#[verifier::opaque]
pub open spec fn status_bar_column(v: Data, col: Seq<char>, c: StatusBarColorConfig) -> Result<StatusBarColorConfig, LabeledErrorView> {
    if col == "normal"@ {
        set_if_given(fg_bg_at(v, seq!["colors"@, "status_bar"@, "normal"@], c.normal), c, |x| StatusBarColorConfig { normal: x, ..c })
    } else if col == "insert"@ {
        set_if_given(fg_bg_at(v, seq!["colors"@, "status_bar"@, "insert"@], c.insert), c, |x| StatusBarColorConfig { insert: x, ..c })
    } else if col == "peek"@ {
        set_if_given(fg_bg_at(v, seq!["colors"@, "status_bar"@, "peek"@], c.peek), c, |x| StatusBarColorConfig { peek: x, ..c })
    } else if col == "bottom"@ {
        set_if_given(fg_bg_at(v, seq!["colors"@, "status_bar"@, "bottom"@], c.bottom), c, |x| StatusBarColorConfig { bottom: x, ..c })
    } else {
        Err(config_error(invalid_field_text(seq!["colors"@, "status_bar"@, col])))
    }
}

/// one column of `$.colors.status_bar` in `v`, as a step of [`fold_columns`]
pub open spec fn status_bar_step(v: Data) -> spec_fn(Seq<char>, StatusBarColorConfig) -> Result<StatusBarColorConfig, LabeledErrorView> {
    |col: Seq<char>, c: StatusBarColorConfig| status_bar_column(v, col, c)
}

/// one column, named `col`, of `$.colors.editor` in `v`, read over `c`
#[verifier::opaque]
pub open spec fn editor_column(v: Data, col: Seq<char>, c: EditorColorConfig) -> Result<EditorColorConfig, LabeledErrorView> {
    if col == "frame"@ {
        set_if_given(fg_bg_at(v, seq!["colors"@, "editor"@, "frame"@], c.frame), c, |x| EditorColorConfig { frame: x, ..c })
    } else if col == "buffer"@ {
        set_if_given(fg_bg_at(v, seq!["colors"@, "editor"@, "buffer"@], c.buffer), c, |x| EditorColorConfig { buffer: x, ..c })
    } else {
        Err(config_error(invalid_field_text(seq!["colors"@, "editor"@, col])))
    }
}

/// one column of `$.colors.editor` in `v`, as a step of [`fold_columns`]
pub open spec fn editor_step(v: Data) -> spec_fn(Seq<char>, EditorColorConfig) -> Result<EditorColorConfig, LabeledErrorView> {
    |col: Seq<char>, c: EditorColorConfig| editor_column(v, col, c)
}

/// one column, named `col`, of `$.colors.line_numbers` in `v`, read over `c`
#[verifier::opaque]
pub open spec fn line_numbers_column(v: Data, col: Seq<char>, c: LineNumbersColorConfig) -> Result<LineNumbersColorConfig, LabeledErrorView> {
    if col == "normal"@ {
        set_if_given(fg_bg_at(v, seq!["colors"@, "line_numbers"@, "normal"@], c.normal), c, |x| LineNumbersColorConfig { normal: x, ..c })
    } else if col == "selected"@ {
        set_if_given(fg_bg_at(v, seq!["colors"@, "line_numbers"@, "selected"@], c.selected), c, |x| LineNumbersColorConfig { selected: x, ..c })
    } else {
        Err(config_error(invalid_field_text(seq!["colors"@, "line_numbers"@, col])))
    }
}

/// one column of `$.colors.line_numbers` in `v`, as a step of [`fold_columns`]
pub open spec fn line_numbers_step(v: Data) -> spec_fn(Seq<char>, LineNumbersColorConfig) -> Result<LineNumbersColorConfig, LabeledErrorView> {
    |col: Seq<char>, c: LineNumbersColorConfig| line_numbers_column(v, col, c)
}

/// one column, named `col`, of `$.colors` in `v`, read over `c`
#[verifier::opaque]
pub open spec fn colors_column(v: Data, col: Seq<char>, c: ColorConfigView) -> Result<ColorConfigView, LabeledErrorView> {
    if col == "normal"@ {
        set_from(section(v, seq!["colors"@, "normal"@], c.normal, normal_step(v)), |x| ColorConfigView { normal: x, ..c })
    } else if col == "selected"@ {
        set_if_given(fg_bg_at(v, seq!["colors"@, "selected"@], c.selected), c, |x| ColorConfigView { selected: x, ..c })
    } else if col == "selected_symbol"@ {
        set_if_given(string_at(v, seq!["colors"@, "selected_symbol"@]), c, |x| ColorConfigView { selected_symbol: x, ..c })
    } else if col == "selected_modifier"@ {
        set_if_given(modifier_at(v, seq!["colors"@, "selected_modifier"@]), c, |x| ColorConfigView { selected_modifier: x, ..c })
    } else if col == "status_bar"@ {
        set_from(section(v, seq!["colors"@, "status_bar"@], c.status_bar, status_bar_step(v)), |x| ColorConfigView { status_bar: x, ..c })
    } else if col == "editor"@ {
        set_from(section(v, seq!["colors"@, "editor"@], c.editor, editor_step(v)), |x| ColorConfigView { editor: x, ..c })
    } else if col == "warning"@ {
        set_if_given(fg_bg_at(v, seq!["colors"@, "warning"@], c.warning), c, |x| ColorConfigView { warning: x, ..c })
    } else if col == "line_numbers"@ {
        set_from(section(v, seq!["colors"@, "line_numbers"@], c.line_numbers, line_numbers_step(v)), |x| ColorConfigView { line_numbers: x, ..c })
    } else {
        Err(config_error(invalid_field_text(seq!["colors"@, col])))
    }
}

/// one column of `$.colors` in `v`, as a step of [`fold_columns`]
pub open spec fn colors_step(v: Data) -> spec_fn(Seq<char>, ColorConfigView) -> Result<ColorConfigView, LabeledErrorView> {
    |col: Seq<char>, c: ColorConfigView| colors_column(v, col, c)
}

/// one column, named `col`, of `$.keybindings.navigation` in `v`, read over `c`
#[verifier::opaque]
pub open spec fn navigation_column(v: Data, col: Seq<char>, c: NavigationBindingsMap) -> Result<NavigationBindingsMap, LabeledErrorView> {
    if col == "up"@ {
        set_if_given(key_at(v, seq!["keybindings"@, "navigation"@, "up"@]), c, |x| NavigationBindingsMap { up: x, ..c })
    } else if col == "down"@ {
        set_if_given(key_at(v, seq!["keybindings"@, "navigation"@, "down"@]), c, |x| NavigationBindingsMap { down: x, ..c })
    } else if col == "left"@ {
        set_if_given(key_at(v, seq!["keybindings"@, "navigation"@, "left"@]), c, |x| NavigationBindingsMap { left: x, ..c })
    } else if col == "right"@ {
        set_if_given(key_at(v, seq!["keybindings"@, "navigation"@, "right"@]), c, |x| NavigationBindingsMap { right: x, ..c })
    } else if col == "half_page_up"@ {
        set_if_given(key_at(v, seq!["keybindings"@, "navigation"@, "half_page_up"@]), c, |x| NavigationBindingsMap { half_page_up: x, ..c })
    } else if col == "half_page_down"@ {
        set_if_given(key_at(v, seq!["keybindings"@, "navigation"@, "half_page_down"@]), c, |x| NavigationBindingsMap { half_page_down: x, ..c })
    } else if col == "goto_top"@ {
        set_if_given(key_at(v, seq!["keybindings"@, "navigation"@, "goto_top"@]), c, |x| NavigationBindingsMap { goto_top: x, ..c })
    } else if col == "goto_bottom"@ {
        set_if_given(key_at(v, seq!["keybindings"@, "navigation"@, "goto_bottom"@]), c, |x| NavigationBindingsMap { goto_bottom: x, ..c })
    } else if col == "goto_line"@ {
        set_if_given(key_at(v, seq!["keybindings"@, "navigation"@, "goto_line"@]), c, |x| NavigationBindingsMap { goto_line: x, ..c })
    } else {
        Err(config_error(invalid_field_text(seq!["keybindings"@, "navigation"@, col])))
    }
}

/// one column of `$.keybindings.navigation` in `v`, as a step of [`fold_columns`]
pub open spec fn navigation_step(v: Data) -> spec_fn(Seq<char>, NavigationBindingsMap) -> Result<NavigationBindingsMap, LabeledErrorView> {
    |col: Seq<char>, c: NavigationBindingsMap| navigation_column(v, col, c)
}

/// one column, named `col`, of `$.keybindings.peeking` in `v`, read over `c`
#[verifier::opaque]
pub open spec fn peeking_column(v: Data, col: Seq<char>, c: PeekingBindingsMap) -> Result<PeekingBindingsMap, LabeledErrorView> {
    if col == "all"@ {
        set_if_given(key_at(v, seq!["keybindings"@, "peeking"@, "all"@]), c, |x| PeekingBindingsMap { all: x, ..c })
    } else if col == "cell_path"@ {
        set_if_given(key_at(v, seq!["keybindings"@, "peeking"@, "cell_path"@]), c, |x| PeekingBindingsMap { cell_path: x, ..c })
    } else if col == "under"@ {
        set_if_given(key_at(v, seq!["keybindings"@, "peeking"@, "under"@]), c, |x| PeekingBindingsMap { under: x, ..c })
    } else if col == "view"@ {
        set_if_given(key_at(v, seq!["keybindings"@, "peeking"@, "view"@]), c, |x| PeekingBindingsMap { view: x, ..c })
    } else {
        Err(config_error(invalid_field_text(seq!["keybindings"@, "peeking"@, col])))
    }
}

/// one column of `$.keybindings.peeking` in `v`, as a step of [`fold_columns`]
pub open spec fn peeking_step(v: Data) -> spec_fn(Seq<char>, PeekingBindingsMap) -> Result<PeekingBindingsMap, LabeledErrorView> {
    |col: Seq<char>, c: PeekingBindingsMap| peeking_column(v, col, c)
}

/// one column, named `col`, of `$.keybindings` in `v`, read over `c`
#[verifier::opaque]
pub open spec fn keybindings_column(v: Data, col: Seq<char>, c: KeyBindingsMap) -> Result<KeyBindingsMap, LabeledErrorView> {
    if col == "quit"@ {
        set_if_given(key_at(v, seq!["keybindings"@, "quit"@]), c, |x| KeyBindingsMap { quit: x, ..c })
    } else if col == "insert"@ {
        set_if_given(key_at(v, seq!["keybindings"@, "insert"@]), c, |x| KeyBindingsMap { insert: x, ..c })
    } else if col == "normal"@ {
        set_if_given(key_at(v, seq!["keybindings"@, "normal"@]), c, |x| KeyBindingsMap { normal: x, ..c })
    } else if col == "navigation"@ {
        set_from(section(v, seq!["keybindings"@, "navigation"@], c.navigation, navigation_step(v)), |x| KeyBindingsMap { navigation: x, ..c })
    } else if col == "peek"@ {
        set_if_given(key_at(v, seq!["keybindings"@, "peek"@]), c, |x| KeyBindingsMap { peek: x, ..c })
    } else if col == "peeking"@ {
        set_from(section(v, seq!["keybindings"@, "peeking"@], c.peeking, peeking_step(v)), |x| KeyBindingsMap { peeking: x, ..c })
    } else if col == "transpose"@ {
        set_if_given(key_at(v, seq!["keybindings"@, "transpose"@]), c, |x| KeyBindingsMap { transpose: x, ..c })
    } else {
        Err(config_error(invalid_field_text(seq!["keybindings"@, col])))
    }
}

/// one column of `$.keybindings` in `v`, as a step of [`fold_columns`]
pub open spec fn keybindings_step(v: Data) -> spec_fn(Seq<char>, KeyBindingsMap) -> Result<KeyBindingsMap, LabeledErrorView> {
    |col: Seq<char>, c: KeyBindingsMap| keybindings_column(v, col, c)
}

/// one column, named `col`, of the configuration in `v`, read over `c`
#[verifier::opaque]
pub open spec fn top_column(v: Data, col: Seq<char>, c: ConfigView) -> Result<ConfigView, LabeledErrorView> {
    if col == "show_cell_path"@ {
        set_if_given(bool_at(v, seq!["show_cell_path"@]), c, |x| ConfigView { show_cell_path: x, ..c })
    } else if col == "show_table_header"@ {
        set_if_given(bool_at(v, seq!["show_table_header"@]), c, |x| ConfigView { show_table_header: x, ..c })
    } else if col == "layout"@ {
        set_if_given(layout_at(v, seq!["layout"@]), c, |x| ConfigView { layout: x, ..c })
    } else if col == "margin"@ {
        match int_at(v, seq!["margin"@]) {
            Err(e) => Err(e),
            Ok(Some(i)) => if i < 0 {
                Err(config_error(positive_integer_text(i, seq!["margin"@])))
            } else {
                Ok(ConfigView { margin: i as usize, ..c })
            },
            Ok(None) => Ok(c),
        }
    } else if col == "number"@ {
        set_if_given(bool_at(v, seq!["number"@]), c, |x| ConfigView { number: x, ..c })
    } else if col == "relativenumber"@ {
        set_if_given(bool_at(v, seq!["relativenumber"@]), c, |x| ConfigView { relativenumber: x, ..c })
    } else if col == "show_hints"@ {
        set_if_given(bool_at(v, seq!["show_hints"@]), c, |x| ConfigView { show_hints: x, ..c })
    } else if col == "strict_tables"@ {
        set_if_given(bool_at(v, seq!["strict_tables"@]), c, |x| ConfigView { strict_tables: x, ..c })
    } else if col == "colors"@ {
        set_from(section(v, seq!["colors"@], c.colors, colors_step(v)), |x| ConfigView { colors: x, ..c })
    } else if col == "keybindings"@ {
        set_from(section(v, seq!["keybindings"@], c.keybindings, keybindings_step(v)), |x| ConfigView { keybindings: x, ..c })
    } else {
        Err(config_error(invalid_field_text(seq![col])))
    }
}

/// one column of the configuration in `v`, as a step of [`fold_columns`]
pub open spec fn top_step(v: Data) -> spec_fn(Seq<char>, ConfigView) -> Result<ConfigView, LabeledErrorView> {
    |col: Seq<char>, c: ConfigView| top_column(v, col, c)
}

} // verus!

verus! {

/// what a parse of the configuration gives, by its view
pub open spec fn config_result(r: Result<Config, LabeledError>) -> Result<ConfigView, LabeledErrorView> {
    match r {
        Ok(c) => Ok(c@),
        Err(e) => Err(e@),
    }
}

/// what a parse of the colors gives, by its view
pub open spec fn colors_result(r: Result<ColorConfig, LabeledError>) -> Result<ColorConfigView, LabeledErrorView> {
    match r {
        Ok(c) => Ok(c@),
        Err(e) => Err(e@),
    }
}

fn path1<'a>(a: &'a str) -> (r: Vec<&'a str>)
    ensures
        path_view(r@) == seq![a@],
{
    let mut r: Vec<&'a str> = Vec::new();
    r.push(a);
    assert(path_view(r@) =~= seq![a@]);
    r
}

fn path2<'a>(a: &'a str, b: &'a str) -> (r: Vec<&'a str>)
    ensures
        path_view(r@) == seq![a@, b@],
{
    let mut r: Vec<&'a str> = Vec::new();
    r.push(a);
    r.push(b);
    assert(path_view(r@) =~= seq![a@, b@]);
    r
}

fn path3<'a>(a: &'a str, b: &'a str, c: &'a str) -> (r: Vec<&'a str>)
    ensures
        path_view(r@) == seq![a@, b@, c@],
{
    let mut r: Vec<&'a str> = Vec::new();
    r.push(a);
    r.push(b);
    r.push(c);
    assert(path_view(r@) =~= seq![a@, b@, c@]);
    r
}

/// read one column, named `col`, of `$.colors.normal`
fn normal_setting(value: &Value, col: &String, c: TableRowColorConfig) -> (r: Result<TableRowColorConfig, LabeledError>)
    requires
        follow(value@, str_path(seq!["colors"@, "normal"@].push(col@))) is Some,
    ensures
        tried(r) == normal_column(value@, col@, c),
{
    reveal(normal_column);
    let ghost p = seq!["colors"@, "normal"@];
    let mut c = c;
    if is_text(col, "name") {
        let q = path3("colors", "normal", "name");
        assert(p.push(col@) =~= path_view(q@));
        match try_fg_bg_colors(value, q.as_slice(), &c.name) {
            Err(e) => Err(e),
            Ok(Some(x)) => {
                c.name = x;
                Ok(c)
            },
            Ok(None) => Ok(c),
        }
    } else if is_text(col, "data") {
        let q = path3("colors", "normal", "data");
        assert(p.push(col@) =~= path_view(q@));
        match try_fg_bg_colors(value, q.as_slice(), &c.data) {
            Err(e) => Err(e),
            Ok(Some(x)) => {
                c.data = x;
                Ok(c)
            },
            Ok(None) => Ok(c),
        }
    } else if is_text(col, "shape") {
        let q = path3("colors", "normal", "shape");
        assert(p.push(col@) =~= path_view(q@));
        match try_fg_bg_colors(value, q.as_slice(), &c.shape) {
            Err(e) => Err(e),
            Ok(Some(x)) => {
                c.shape = x;
                Ok(c)
            },
            Ok(None) => Ok(c),
        }
    } else {
        let q = path3("colors", "normal", col.as_str());
        Err(invalid_field(q.as_slice()))
    }
}

/// read the columns of `$.colors.normal`, found in `fields`, over `initial`
fn normal_section(value: &Value, fields: &Vec<(String, Value)>, initial: TableRowColorConfig) -> (r: Result<TableRowColorConfig, LabeledError>)
    requires
        follow(value@, str_path(seq!["colors"@, "normal"@])) == Some(Data::Record(fields_view(fields@))),
    ensures
        tried(r) == fold_columns(names(fields_view(fields@)), initial, normal_step(value@)),
{
    let ghost p = seq!["colors"@, "normal"@];
    let ghost cols = names(fields_view(fields@));
    let ghost step = normal_step(value@);
    let ghost c0 = initial;
    let mut c = initial;
    let mut i: usize = 0;
    assert(cols.skip(0) =~= cols);
    while i < fields.len()
        invariant
            i <= fields@.len(),
            cols == names(fields_view(fields@)),
            step == normal_step(value@),
            p == seq!["colors"@, "normal"@],
            c0 == initial,
            follow(value@, str_path(p)) == Some(Data::Record(fields_view(fields@))),
            fold_columns(cols, c0, step) == fold_columns(cols.skip(i as int), c, step),
        decreases fields.len() - i,
    {
        assert(cols.skip(i as int).drop_first() =~= cols.skip(i + 1));
        assert(cols.skip(i as int)[0] == fields@[i as int].0@);
        proof {
            lemma_column_found(value@, p, fields_view(fields@), i as int);
        }
        match normal_setting(value, &fields[i].0, c) {
            Ok(x) => {
                c = x;
            },
            Err(e) => {
                return Err(e);
            },
        }
        i = i + 1;
    }
    Ok(c)
}

/// read one column, named `col`, of `$.colors.status_bar`
fn status_bar_setting(value: &Value, col: &String, c: StatusBarColorConfig) -> (r: Result<StatusBarColorConfig, LabeledError>)
    requires
        follow(value@, str_path(seq!["colors"@, "status_bar"@].push(col@))) is Some,
    ensures
        tried(r) == status_bar_column(value@, col@, c),
{
    reveal(status_bar_column);
    let ghost p = seq!["colors"@, "status_bar"@];
    let mut c = c;
    if is_text(col, "normal") {
        let q = path3("colors", "status_bar", "normal");
        assert(p.push(col@) =~= path_view(q@));
        match try_fg_bg_colors(value, q.as_slice(), &c.normal) {
            Err(e) => Err(e),
            Ok(Some(x)) => {
                c.normal = x;
                Ok(c)
            },
            Ok(None) => Ok(c),
        }
    } else if is_text(col, "insert") {
        let q = path3("colors", "status_bar", "insert");
        assert(p.push(col@) =~= path_view(q@));
        match try_fg_bg_colors(value, q.as_slice(), &c.insert) {
            Err(e) => Err(e),
            Ok(Some(x)) => {
                c.insert = x;
                Ok(c)
            },
            Ok(None) => Ok(c),
        }
    } else if is_text(col, "peek") {
        let q = path3("colors", "status_bar", "peek");
        assert(p.push(col@) =~= path_view(q@));
        match try_fg_bg_colors(value, q.as_slice(), &c.peek) {
            Err(e) => Err(e),
            Ok(Some(x)) => {
                c.peek = x;
                Ok(c)
            },
            Ok(None) => Ok(c),
        }
    } else if is_text(col, "bottom") {
        let q = path3("colors", "status_bar", "bottom");
        assert(p.push(col@) =~= path_view(q@));
        match try_fg_bg_colors(value, q.as_slice(), &c.bottom) {
            Err(e) => Err(e),
            Ok(Some(x)) => {
                c.bottom = x;
                Ok(c)
            },
            Ok(None) => Ok(c),
        }
    } else {
        let q = path3("colors", "status_bar", col.as_str());
        Err(invalid_field(q.as_slice()))
    }
}

/// read the columns of `$.colors.status_bar`, found in `fields`, over `initial`
fn status_bar_section(value: &Value, fields: &Vec<(String, Value)>, initial: StatusBarColorConfig) -> (r: Result<StatusBarColorConfig, LabeledError>)
    requires
        follow(value@, str_path(seq!["colors"@, "status_bar"@])) == Some(Data::Record(fields_view(fields@))),
    ensures
        tried(r) == fold_columns(names(fields_view(fields@)), initial, status_bar_step(value@)),
{
    let ghost p = seq!["colors"@, "status_bar"@];
    let ghost cols = names(fields_view(fields@));
    let ghost step = status_bar_step(value@);
    let ghost c0 = initial;
    let mut c = initial;
    let mut i: usize = 0;
    assert(cols.skip(0) =~= cols);
    while i < fields.len()
        invariant
            i <= fields@.len(),
            cols == names(fields_view(fields@)),
            step == status_bar_step(value@),
            p == seq!["colors"@, "status_bar"@],
            c0 == initial,
            follow(value@, str_path(p)) == Some(Data::Record(fields_view(fields@))),
            fold_columns(cols, c0, step) == fold_columns(cols.skip(i as int), c, step),
        decreases fields.len() - i,
    {
        assert(cols.skip(i as int).drop_first() =~= cols.skip(i + 1));
        assert(cols.skip(i as int)[0] == fields@[i as int].0@);
        proof {
            lemma_column_found(value@, p, fields_view(fields@), i as int);
        }
        match status_bar_setting(value, &fields[i].0, c) {
            Ok(x) => {
                c = x;
            },
            Err(e) => {
                return Err(e);
            },
        }
        i = i + 1;
    }
    Ok(c)
}

/// read one column, named `col`, of `$.colors.editor`
fn editor_setting(value: &Value, col: &String, c: EditorColorConfig) -> (r: Result<EditorColorConfig, LabeledError>)
    requires
        follow(value@, str_path(seq!["colors"@, "editor"@].push(col@))) is Some,
    ensures
        tried(r) == editor_column(value@, col@, c),
{
    reveal(editor_column);
    let ghost p = seq!["colors"@, "editor"@];
    let mut c = c;
    if is_text(col, "frame") {
        let q = path3("colors", "editor", "frame");
        assert(p.push(col@) =~= path_view(q@));
        match try_fg_bg_colors(value, q.as_slice(), &c.frame) {
            Err(e) => Err(e),
            Ok(Some(x)) => {
                c.frame = x;
                Ok(c)
            },
            Ok(None) => Ok(c),
        }
    } else if is_text(col, "buffer") {
        let q = path3("colors", "editor", "buffer");
        assert(p.push(col@) =~= path_view(q@));
        match try_fg_bg_colors(value, q.as_slice(), &c.buffer) {
            Err(e) => Err(e),
            Ok(Some(x)) => {
                c.buffer = x;
                Ok(c)
            },
            Ok(None) => Ok(c),
        }
    } else {
        let q = path3("colors", "editor", col.as_str());
        Err(invalid_field(q.as_slice()))
    }
}

/// read the columns of `$.colors.editor`, found in `fields`, over `initial`
fn editor_section(value: &Value, fields: &Vec<(String, Value)>, initial: EditorColorConfig) -> (r: Result<EditorColorConfig, LabeledError>)
    requires
        follow(value@, str_path(seq!["colors"@, "editor"@])) == Some(Data::Record(fields_view(fields@))),
    ensures
        tried(r) == fold_columns(names(fields_view(fields@)), initial, editor_step(value@)),
{
    let ghost p = seq!["colors"@, "editor"@];
    let ghost cols = names(fields_view(fields@));
    let ghost step = editor_step(value@);
    let ghost c0 = initial;
    let mut c = initial;
    let mut i: usize = 0;
    assert(cols.skip(0) =~= cols);
    while i < fields.len()
        invariant
            i <= fields@.len(),
            cols == names(fields_view(fields@)),
            step == editor_step(value@),
            p == seq!["colors"@, "editor"@],
            c0 == initial,
            follow(value@, str_path(p)) == Some(Data::Record(fields_view(fields@))),
            fold_columns(cols, c0, step) == fold_columns(cols.skip(i as int), c, step),
        decreases fields.len() - i,
    {
        assert(cols.skip(i as int).drop_first() =~= cols.skip(i + 1));
        assert(cols.skip(i as int)[0] == fields@[i as int].0@);
        proof {
            lemma_column_found(value@, p, fields_view(fields@), i as int);
        }
        match editor_setting(value, &fields[i].0, c) {
            Ok(x) => {
                c = x;
            },
            Err(e) => {
                return Err(e);
            },
        }
        i = i + 1;
    }
    Ok(c)
}

/// read one column, named `col`, of `$.colors.line_numbers`
fn line_numbers_setting(value: &Value, col: &String, c: LineNumbersColorConfig) -> (r: Result<LineNumbersColorConfig, LabeledError>)
    requires
        follow(value@, str_path(seq!["colors"@, "line_numbers"@].push(col@))) is Some,
    ensures
        tried(r) == line_numbers_column(value@, col@, c),
{
    reveal(line_numbers_column);
    let ghost p = seq!["colors"@, "line_numbers"@];
    let mut c = c;
    if is_text(col, "normal") {
        let q = path3("colors", "line_numbers", "normal");
        assert(p.push(col@) =~= path_view(q@));
        match try_fg_bg_colors(value, q.as_slice(), &c.normal) {
            Err(e) => Err(e),
            Ok(Some(x)) => {
                c.normal = x;
                Ok(c)
            },
            Ok(None) => Ok(c),
        }
    } else if is_text(col, "selected") {
        let q = path3("colors", "line_numbers", "selected");
        assert(p.push(col@) =~= path_view(q@));
        match try_fg_bg_colors(value, q.as_slice(), &c.selected) {
            Err(e) => Err(e),
            Ok(Some(x)) => {
                c.selected = x;
                Ok(c)
            },
            Ok(None) => Ok(c),
        }
    } else {
        let q = path3("colors", "line_numbers", col.as_str());
        Err(invalid_field(q.as_slice()))
    }
}

/// read the columns of `$.colors.line_numbers`, found in `fields`, over `initial`
fn line_numbers_section(value: &Value, fields: &Vec<(String, Value)>, initial: LineNumbersColorConfig) -> (r: Result<LineNumbersColorConfig, LabeledError>)
    requires
        follow(value@, str_path(seq!["colors"@, "line_numbers"@])) == Some(Data::Record(fields_view(fields@))),
    ensures
        tried(r) == fold_columns(names(fields_view(fields@)), initial, line_numbers_step(value@)),
{
    let ghost p = seq!["colors"@, "line_numbers"@];
    let ghost cols = names(fields_view(fields@));
    let ghost step = line_numbers_step(value@);
    let ghost c0 = initial;
    let mut c = initial;
    let mut i: usize = 0;
    assert(cols.skip(0) =~= cols);
    while i < fields.len()
        invariant
            i <= fields@.len(),
            cols == names(fields_view(fields@)),
            step == line_numbers_step(value@),
            p == seq!["colors"@, "line_numbers"@],
            c0 == initial,
            follow(value@, str_path(p)) == Some(Data::Record(fields_view(fields@))),
            fold_columns(cols, c0, step) == fold_columns(cols.skip(i as int), c, step),
        decreases fields.len() - i,
    {
        assert(cols.skip(i as int).drop_first() =~= cols.skip(i + 1));
        assert(cols.skip(i as int)[0] == fields@[i as int].0@);
        proof {
            lemma_column_found(value@, p, fields_view(fields@), i as int);
        }
        match line_numbers_setting(value, &fields[i].0, c) {
            Ok(x) => {
                c = x;
            },
            Err(e) => {
                return Err(e);
            },
        }
        i = i + 1;
    }
    Ok(c)
}

/// read one column, named `col`, of `$.colors`
fn colors_setting(value: &Value, col: &String, c: ColorConfig) -> (r: Result<ColorConfig, LabeledError>)
    requires
        follow(value@, str_path(seq!["colors"@].push(col@))) is Some,
    ensures
        colors_result(r) == colors_column(value@, col@, c@),
{
    reveal(colors_column);
    let ghost p = seq!["colors"@];
    let mut c = c;
    if is_text(col, "normal") {
        let q = path2("colors", "normal");
        assert(p.push(col@) =~= path_view(q@));
        let cell = follow_cell_path(value, q.as_slice()).unwrap();
        match &cell {
            Value::Record(f) => match normal_section(value, f, c.normal) {
                Ok(x) => {
                    c.normal = x;
                    Ok(c)
                },
                Err(e) => Err(e),
            },
            x => Err(invalid_type(x, q.as_slice(), "record")),
        }
    } else if is_text(col, "selected") {
        let q = path2("colors", "selected");
        assert(p.push(col@) =~= path_view(q@));
        match try_fg_bg_colors(value, q.as_slice(), &c.selected) {
            Err(e) => Err(e),
            Ok(Some(x)) => {
                c.selected = x;
                Ok(c)
            },
            Ok(None) => Ok(c),
        }
    } else if is_text(col, "selected_symbol") {
        let q = path2("colors", "selected_symbol");
        match try_string(value, q.as_slice()) {
            Err(e) => Err(e),
            Ok(Some(x)) => {
                c.selected_symbol = x;
                Ok(c)
            },
            Ok(None) => Ok(c),
        }
    } else if is_text(col, "selected_modifier") {
        let q = path2("colors", "selected_modifier");
        match try_modifier(value, q.as_slice()) {
            Err(e) => Err(e),
            Ok(Some(x)) => {
                c.selected_modifier = x;
                Ok(c)
            },
            Ok(None) => Ok(c),
        }
    } else if is_text(col, "status_bar") {
        let q = path2("colors", "status_bar");
        assert(p.push(col@) =~= path_view(q@));
        let cell = follow_cell_path(value, q.as_slice()).unwrap();
        match &cell {
            Value::Record(f) => match status_bar_section(value, f, c.status_bar) {
                Ok(x) => {
                    c.status_bar = x;
                    Ok(c)
                },
                Err(e) => Err(e),
            },
            x => Err(invalid_type(x, q.as_slice(), "record")),
        }
    } else if is_text(col, "editor") {
        let q = path2("colors", "editor");
        assert(p.push(col@) =~= path_view(q@));
        let cell = follow_cell_path(value, q.as_slice()).unwrap();
        match &cell {
            Value::Record(f) => match editor_section(value, f, c.editor) {
                Ok(x) => {
                    c.editor = x;
                    Ok(c)
                },
                Err(e) => Err(e),
            },
            x => Err(invalid_type(x, q.as_slice(), "record")),
        }
    } else if is_text(col, "warning") {
        let q = path2("colors", "warning");
        assert(p.push(col@) =~= path_view(q@));
        match try_fg_bg_colors(value, q.as_slice(), &c.warning) {
            Err(e) => Err(e),
            Ok(Some(x)) => {
                c.warning = x;
                Ok(c)
            },
            Ok(None) => Ok(c),
        }
    } else if is_text(col, "line_numbers") {
        let q = path2("colors", "line_numbers");
        assert(p.push(col@) =~= path_view(q@));
        let cell = follow_cell_path(value, q.as_slice()).unwrap();
        match &cell {
            Value::Record(f) => match line_numbers_section(value, f, c.line_numbers) {
                Ok(x) => {
                    c.line_numbers = x;
                    Ok(c)
                },
                Err(e) => Err(e),
            },
            x => Err(invalid_type(x, q.as_slice(), "record")),
        }
    } else {
        let q = path2("colors", col.as_str());
        Err(invalid_field(q.as_slice()))
    }
}

/// read the columns of `$.colors`, found in `fields`, over `initial`
fn colors_section(value: &Value, fields: &Vec<(String, Value)>, initial: ColorConfig) -> (r: Result<ColorConfig, LabeledError>)
    requires
        follow(value@, str_path(seq!["colors"@])) == Some(Data::Record(fields_view(fields@))),
    ensures
        colors_result(r) == fold_columns(names(fields_view(fields@)), initial@, colors_step(value@)),
{
    let ghost p = seq!["colors"@];
    let ghost cols = names(fields_view(fields@));
    let ghost step = colors_step(value@);
    let ghost c0 = initial@;
    let mut c = initial;
    let mut i: usize = 0;
    assert(cols.skip(0) =~= cols);
    while i < fields.len()
        invariant
            i <= fields@.len(),
            cols == names(fields_view(fields@)),
            step == colors_step(value@),
            p == seq!["colors"@],
            c0 == initial@,
            follow(value@, str_path(p)) == Some(Data::Record(fields_view(fields@))),
            fold_columns(cols, c0, step) == fold_columns(cols.skip(i as int), c@, step),
        decreases fields.len() - i,
    {
        assert(cols.skip(i as int).drop_first() =~= cols.skip(i + 1));
        assert(cols.skip(i as int)[0] == fields@[i as int].0@);
        proof {
            lemma_column_found(value@, p, fields_view(fields@), i as int);
        }
        match colors_setting(value, &fields[i].0, c) {
            Ok(x) => {
                c = x;
            },
            Err(e) => {
                return Err(e);
            },
        }
        i = i + 1;
    }
    Ok(c)
}

/// read one column, named `col`, of `$.keybindings.navigation`
fn navigation_setting(value: &Value, col: &String, c: NavigationBindingsMap) -> (r: Result<NavigationBindingsMap, LabeledError>)
    requires
        follow(value@, str_path(seq!["keybindings"@, "navigation"@].push(col@))) is Some,
    ensures
        tried(r) == navigation_column(value@, col@, c),
{
    reveal(navigation_column);
    let ghost p = seq!["keybindings"@, "navigation"@];
    let mut c = c;
    if is_text(col, "up") {
        let q = path3("keybindings", "navigation", "up");
        match try_key(value, q.as_slice()) {
            Err(e) => Err(e),
            Ok(Some(x)) => {
                c.up = x;
                Ok(c)
            },
            Ok(None) => Ok(c),
        }
    } else if is_text(col, "down") {
        let q = path3("keybindings", "navigation", "down");
        match try_key(value, q.as_slice()) {
            Err(e) => Err(e),
            Ok(Some(x)) => {
                c.down = x;
                Ok(c)
            },
            Ok(None) => Ok(c),
        }
    } else if is_text(col, "left") {
        let q = path3("keybindings", "navigation", "left");
        match try_key(value, q.as_slice()) {
            Err(e) => Err(e),
            Ok(Some(x)) => {
                c.left = x;
                Ok(c)
            },
            Ok(None) => Ok(c),
        }
    } else if is_text(col, "right") {
        let q = path3("keybindings", "navigation", "right");
        match try_key(value, q.as_slice()) {
            Err(e) => Err(e),
            Ok(Some(x)) => {
                c.right = x;
                Ok(c)
            },
            Ok(None) => Ok(c),
        }
    } else if is_text(col, "half_page_up") {
        let q = path3("keybindings", "navigation", "half_page_up");
        match try_key(value, q.as_slice()) {
            Err(e) => Err(e),
            Ok(Some(x)) => {
                c.half_page_up = x;
                Ok(c)
            },
            Ok(None) => Ok(c),
        }
    } else if is_text(col, "half_page_down") {
        let q = path3("keybindings", "navigation", "half_page_down");
        match try_key(value, q.as_slice()) {
            Err(e) => Err(e),
            Ok(Some(x)) => {
                c.half_page_down = x;
                Ok(c)
            },
            Ok(None) => Ok(c),
        }
    } else if is_text(col, "goto_top") {
        let q = path3("keybindings", "navigation", "goto_top");
        match try_key(value, q.as_slice()) {
            Err(e) => Err(e),
            Ok(Some(x)) => {
                c.goto_top = x;
                Ok(c)
            },
            Ok(None) => Ok(c),
        }
    } else if is_text(col, "goto_bottom") {
        let q = path3("keybindings", "navigation", "goto_bottom");
        match try_key(value, q.as_slice()) {
            Err(e) => Err(e),
            Ok(Some(x)) => {
                c.goto_bottom = x;
                Ok(c)
            },
            Ok(None) => Ok(c),
        }
    } else if is_text(col, "goto_line") {
        let q = path3("keybindings", "navigation", "goto_line");
        match try_key(value, q.as_slice()) {
            Err(e) => Err(e),
            Ok(Some(x)) => {
                c.goto_line = x;
                Ok(c)
            },
            Ok(None) => Ok(c),
        }
    } else {
        let q = path3("keybindings", "navigation", col.as_str());
        Err(invalid_field(q.as_slice()))
    }
}

/// read the columns of `$.keybindings.navigation`, found in `fields`, over `initial`
fn navigation_section(value: &Value, fields: &Vec<(String, Value)>, initial: NavigationBindingsMap) -> (r: Result<NavigationBindingsMap, LabeledError>)
    requires
        follow(value@, str_path(seq!["keybindings"@, "navigation"@])) == Some(Data::Record(fields_view(fields@))),
    ensures
        tried(r) == fold_columns(names(fields_view(fields@)), initial, navigation_step(value@)),
{
    let ghost p = seq!["keybindings"@, "navigation"@];
    let ghost cols = names(fields_view(fields@));
    let ghost step = navigation_step(value@);
    let ghost c0 = initial;
    let mut c = initial;
    let mut i: usize = 0;
    assert(cols.skip(0) =~= cols);
    while i < fields.len()
        invariant
            i <= fields@.len(),
            cols == names(fields_view(fields@)),
            step == navigation_step(value@),
            p == seq!["keybindings"@, "navigation"@],
            c0 == initial,
            follow(value@, str_path(p)) == Some(Data::Record(fields_view(fields@))),
            fold_columns(cols, c0, step) == fold_columns(cols.skip(i as int), c, step),
        decreases fields.len() - i,
    {
        assert(cols.skip(i as int).drop_first() =~= cols.skip(i + 1));
        assert(cols.skip(i as int)[0] == fields@[i as int].0@);
        proof {
            lemma_column_found(value@, p, fields_view(fields@), i as int);
        }
        match navigation_setting(value, &fields[i].0, c) {
            Ok(x) => {
                c = x;
            },
            Err(e) => {
                return Err(e);
            },
        }
        i = i + 1;
    }
    Ok(c)
}

/// read one column, named `col`, of `$.keybindings.peeking`
fn peeking_setting(value: &Value, col: &String, c: PeekingBindingsMap) -> (r: Result<PeekingBindingsMap, LabeledError>)
    requires
        follow(value@, str_path(seq!["keybindings"@, "peeking"@].push(col@))) is Some,
    ensures
        tried(r) == peeking_column(value@, col@, c),
{
    reveal(peeking_column);
    let ghost p = seq!["keybindings"@, "peeking"@];
    let mut c = c;
    if is_text(col, "all") {
        let q = path3("keybindings", "peeking", "all");
        match try_key(value, q.as_slice()) {
            Err(e) => Err(e),
            Ok(Some(x)) => {
                c.all = x;
                Ok(c)
            },
            Ok(None) => Ok(c),
        }
    } else if is_text(col, "cell_path") {
        let q = path3("keybindings", "peeking", "cell_path");
        match try_key(value, q.as_slice()) {
            Err(e) => Err(e),
            Ok(Some(x)) => {
                c.cell_path = x;
                Ok(c)
            },
            Ok(None) => Ok(c),
        }
    } else if is_text(col, "under") {
        let q = path3("keybindings", "peeking", "under");
        match try_key(value, q.as_slice()) {
            Err(e) => Err(e),
            Ok(Some(x)) => {
                c.under = x;
                Ok(c)
            },
            Ok(None) => Ok(c),
        }
    } else if is_text(col, "view") {
        let q = path3("keybindings", "peeking", "view");
        match try_key(value, q.as_slice()) {
            Err(e) => Err(e),
            Ok(Some(x)) => {
                c.view = x;
                Ok(c)
            },
            Ok(None) => Ok(c),
        }
    } else {
        let q = path3("keybindings", "peeking", col.as_str());
        Err(invalid_field(q.as_slice()))
    }
}

/// read the columns of `$.keybindings.peeking`, found in `fields`, over `initial`
fn peeking_section(value: &Value, fields: &Vec<(String, Value)>, initial: PeekingBindingsMap) -> (r: Result<PeekingBindingsMap, LabeledError>)
    requires
        follow(value@, str_path(seq!["keybindings"@, "peeking"@])) == Some(Data::Record(fields_view(fields@))),
    ensures
        tried(r) == fold_columns(names(fields_view(fields@)), initial, peeking_step(value@)),
{
    let ghost p = seq!["keybindings"@, "peeking"@];
    let ghost cols = names(fields_view(fields@));
    let ghost step = peeking_step(value@);
    let ghost c0 = initial;
    let mut c = initial;
    let mut i: usize = 0;
    assert(cols.skip(0) =~= cols);
    while i < fields.len()
        invariant
            i <= fields@.len(),
            cols == names(fields_view(fields@)),
            step == peeking_step(value@),
            p == seq!["keybindings"@, "peeking"@],
            c0 == initial,
            follow(value@, str_path(p)) == Some(Data::Record(fields_view(fields@))),
            fold_columns(cols, c0, step) == fold_columns(cols.skip(i as int), c, step),
        decreases fields.len() - i,
    {
        assert(cols.skip(i as int).drop_first() =~= cols.skip(i + 1));
        assert(cols.skip(i as int)[0] == fields@[i as int].0@);
        proof {
            lemma_column_found(value@, p, fields_view(fields@), i as int);
        }
        match peeking_setting(value, &fields[i].0, c) {
            Ok(x) => {
                c = x;
            },
            Err(e) => {
                return Err(e);
            },
        }
        i = i + 1;
    }
    Ok(c)
}

/// read one column, named `col`, of `$.keybindings`
fn keybindings_setting(value: &Value, col: &String, c: KeyBindingsMap) -> (r: Result<KeyBindingsMap, LabeledError>)
    requires
        follow(value@, str_path(seq!["keybindings"@].push(col@))) is Some,
    ensures
        tried(r) == keybindings_column(value@, col@, c),
{
    reveal(keybindings_column);
    let ghost p = seq!["keybindings"@];
    let mut c = c;
    if is_text(col, "quit") {
        let q = path2("keybindings", "quit");
        match try_key(value, q.as_slice()) {
            Err(e) => Err(e),
            Ok(Some(x)) => {
                c.quit = x;
                Ok(c)
            },
            Ok(None) => Ok(c),
        }
    } else if is_text(col, "insert") {
        let q = path2("keybindings", "insert");
        match try_key(value, q.as_slice()) {
            Err(e) => Err(e),
            Ok(Some(x)) => {
                c.insert = x;
                Ok(c)
            },
            Ok(None) => Ok(c),
        }
    } else if is_text(col, "normal") {
        let q = path2("keybindings", "normal");
        match try_key(value, q.as_slice()) {
            Err(e) => Err(e),
            Ok(Some(x)) => {
                c.normal = x;
                Ok(c)
            },
            Ok(None) => Ok(c),
        }
    } else if is_text(col, "navigation") {
        let q = path2("keybindings", "navigation");
        assert(p.push(col@) =~= path_view(q@));
        let cell = follow_cell_path(value, q.as_slice()).unwrap();
        match &cell {
            Value::Record(f) => match navigation_section(value, f, c.navigation) {
                Ok(x) => {
                    c.navigation = x;
                    Ok(c)
                },
                Err(e) => Err(e),
            },
            x => Err(invalid_type(x, q.as_slice(), "record")),
        }
    } else if is_text(col, "peek") {
        let q = path2("keybindings", "peek");
        match try_key(value, q.as_slice()) {
            Err(e) => Err(e),
            Ok(Some(x)) => {
                c.peek = x;
                Ok(c)
            },
            Ok(None) => Ok(c),
        }
    } else if is_text(col, "peeking") {
        let q = path2("keybindings", "peeking");
        assert(p.push(col@) =~= path_view(q@));
        let cell = follow_cell_path(value, q.as_slice()).unwrap();
        match &cell {
            Value::Record(f) => match peeking_section(value, f, c.peeking) {
                Ok(x) => {
                    c.peeking = x;
                    Ok(c)
                },
                Err(e) => Err(e),
            },
            x => Err(invalid_type(x, q.as_slice(), "record")),
        }
    } else if is_text(col, "transpose") {
        let q = path2("keybindings", "transpose");
        match try_key(value, q.as_slice()) {
            Err(e) => Err(e),
            Ok(Some(x)) => {
                c.transpose = x;
                Ok(c)
            },
            Ok(None) => Ok(c),
        }
    } else {
        let q = path2("keybindings", col.as_str());
        Err(invalid_field(q.as_slice()))
    }
}

/// read the columns of `$.keybindings`, found in `fields`, over `initial`
fn keybindings_section(value: &Value, fields: &Vec<(String, Value)>, initial: KeyBindingsMap) -> (r: Result<KeyBindingsMap, LabeledError>)
    requires
        follow(value@, str_path(seq!["keybindings"@])) == Some(Data::Record(fields_view(fields@))),
    ensures
        tried(r) == fold_columns(names(fields_view(fields@)), initial, keybindings_step(value@)),
{
    let ghost p = seq!["keybindings"@];
    let ghost cols = names(fields_view(fields@));
    let ghost step = keybindings_step(value@);
    let ghost c0 = initial;
    let mut c = initial;
    let mut i: usize = 0;
    assert(cols.skip(0) =~= cols);
    while i < fields.len()
        invariant
            i <= fields@.len(),
            cols == names(fields_view(fields@)),
            step == keybindings_step(value@),
            p == seq!["keybindings"@],
            c0 == initial,
            follow(value@, str_path(p)) == Some(Data::Record(fields_view(fields@))),
            fold_columns(cols, c0, step) == fold_columns(cols.skip(i as int), c, step),
        decreases fields.len() - i,
    {
        assert(cols.skip(i as int).drop_first() =~= cols.skip(i + 1));
        assert(cols.skip(i as int)[0] == fields@[i as int].0@);
        proof {
            lemma_column_found(value@, p, fields_view(fields@), i as int);
        }
        match keybindings_setting(value, &fields[i].0, c) {
            Ok(x) => {
                c = x;
            },
            Err(e) => {
                return Err(e);
            },
        }
        i = i + 1;
    }
    Ok(c)
}

/// read one column, named `col`, of the configuration: `show_cell_path`, `show_table_header`, `layout` or `margin`
fn top_setting_first(value: &Value, col: &String, c: Config) -> (r: Result<Config, LabeledError>)
    requires
        col@ == "show_cell_path"@ || col@ == "show_table_header"@ || col@ == "layout"@ || col@ == "margin"@,
    ensures
        config_result(r) == top_column(value@, col@, c@),
{
    reveal(top_column);
    let mut c = c;
    if is_text(col, "show_cell_path") {
        let q = path1("show_cell_path");
        match try_bool(value, q.as_slice()) {
            Err(e) => Err(e),
            Ok(Some(x)) => {
                c.show_cell_path = x;
                Ok(c)
            },
            Ok(None) => Ok(c),
        }
    } else if is_text(col, "show_table_header") {
        let q = path1("show_table_header");
        match try_bool(value, q.as_slice()) {
            Err(e) => Err(e),
            Ok(Some(x)) => {
                c.show_table_header = x;
                Ok(c)
            },
            Ok(None) => Ok(c),
        }
    } else if is_text(col, "layout") {
        let q = path1("layout");
        match try_layout(value, q.as_slice()) {
            Err(e) => Err(e),
            Ok(Some(x)) => {
                c.layout = x;
                Ok(c)
            },
            Ok(None) => Ok(c),
        }
    } else {
        let q = path1("margin");
        match try_int(value, q.as_slice()) {
            Err(e) => Err(e),
            Ok(Some(val)) => {
                if val < 0 {
                    Err(positive_integer(val, q.as_slice()))
                } else {
                    c.margin = val as usize;
                    Ok(c)
                }
            },
            Ok(None) => Ok(c),
        }
    }
}

/// read one column, named `col`, of the configuration: `number`, `relativenumber`, `show_hints` or `strict_tables`
fn top_setting_second(value: &Value, col: &String, c: Config) -> (r: Result<Config, LabeledError>)
    requires
        col@ == "number"@ || col@ == "relativenumber"@ || col@ == "show_hints"@ || col@ == "strict_tables"@,
        col@ != "show_cell_path"@ && col@ != "show_table_header"@ && col@ != "layout"@ && col@ != "margin"@,
    ensures
        config_result(r) == top_column(value@, col@, c@),
{
    reveal(top_column);
    let mut c = c;
    if is_text(col, "number") {
        let q = path1("number");
        match try_bool(value, q.as_slice()) {
            Err(e) => Err(e),
            Ok(Some(x)) => {
                c.number = x;
                Ok(c)
            },
            Ok(None) => Ok(c),
        }
    } else if is_text(col, "relativenumber") {
        let q = path1("relativenumber");
        match try_bool(value, q.as_slice()) {
            Err(e) => Err(e),
            Ok(Some(x)) => {
                c.relativenumber = x;
                Ok(c)
            },
            Ok(None) => Ok(c),
        }
    } else if is_text(col, "show_hints") {
        let q = path1("show_hints");
        match try_bool(value, q.as_slice()) {
            Err(e) => Err(e),
            Ok(Some(x)) => {
                c.show_hints = x;
                Ok(c)
            },
            Ok(None) => Ok(c),
        }
    } else {
        let q = path1("strict_tables");
        match try_bool(value, q.as_slice()) {
            Err(e) => Err(e),
            Ok(Some(x)) => {
                c.strict_tables = x;
                Ok(c)
            },
            Ok(None) => Ok(c),
        }
    }
}

/// read one column, named `col`, of the configuration
fn top_setting(value: &Value, col: &String, c: Config) -> (r: Result<Config, LabeledError>)
    requires
        follow(value@, str_path(Seq::<Seq<char>>::empty().push(col@))) is Some,
    ensures
        config_result(r) == top_column(value@, col@, c@),
{
    reveal(top_column);
    let ghost p = Seq::<Seq<char>>::empty();
    let mut c = c;
    if is_text(col, "show_cell_path") || is_text(col, "show_table_header") || is_text(col, "layout") || is_text(col, "margin") {
        top_setting_first(value, col, c)
    } else if is_text(col, "number") || is_text(col, "relativenumber") || is_text(col, "show_hints") || is_text(col, "strict_tables") {
        top_setting_second(value, col, c)
    } else if is_text(col, "colors") {
        let q = path1("colors");
        assert(p.push(col@) =~= path_view(q@));
        let cell = follow_cell_path(value, q.as_slice()).unwrap();
        match &cell {
            Value::Record(f) => match colors_section(value, f, c.colors.copy()) {
                Ok(x) => {
                    c.colors = x;
                    Ok(c)
                },
                Err(e) => Err(e),
            },
            x => Err(invalid_type(x, q.as_slice(), "record")),
        }
    } else if is_text(col, "keybindings") {
        let q = path1("keybindings");
        assert(p.push(col@) =~= path_view(q@));
        let cell = follow_cell_path(value, q.as_slice()).unwrap();
        match &cell {
            Value::Record(f) => match keybindings_section(value, f, c.keybindings) {
                Ok(x) => {
                    c.keybindings = x;
                    Ok(c)
                },
                Err(e) => Err(e),
            },
            x => Err(invalid_type(x, q.as_slice(), "record")),
        }
    } else {
        let q = path1(col.as_str());
        Err(invalid_field(q.as_slice()))
    }
}

/// read the columns of the configuration, found in `fields`, over `initial`
fn top_section(value: &Value, fields: &Vec<(String, Value)>, initial: Config) -> (r: Result<Config, LabeledError>)
    requires
        follow(value@, str_path(Seq::<Seq<char>>::empty())) == Some(Data::Record(fields_view(fields@))),
    ensures
        config_result(r) == fold_columns(names(fields_view(fields@)), initial@, top_step(value@)),
{
    let ghost p = Seq::<Seq<char>>::empty();
    let ghost cols = names(fields_view(fields@));
    let ghost step = top_step(value@);
    let ghost c0 = initial@;
    let mut c = initial;
    let mut i: usize = 0;
    assert(cols.skip(0) =~= cols);
    while i < fields.len()
        invariant
            i <= fields@.len(),
            cols == names(fields_view(fields@)),
            step == top_step(value@),
            p == Seq::<Seq<char>>::empty(),
            c0 == initial@,
            follow(value@, str_path(p)) == Some(Data::Record(fields_view(fields@))),
            fold_columns(cols, c0, step) == fold_columns(cols.skip(i as int), c@, step),
        decreases fields.len() - i,
    {
        assert(cols.skip(i as int).drop_first() =~= cols.skip(i + 1));
        assert(cols.skip(i as int)[0] == fields@[i as int].0@);
        proof {
            lemma_column_found(value@, p, fields_view(fields@), i as int);
        }
        match top_setting(value, &fields[i].0, c) {
            Ok(x) => {
                c = x;
            },
            Err(e) => {
                return Err(e);
            },
        }
        i = i + 1;
    }
    Ok(c)
}


} // verus!

verus! {

/// the configuration given by `v`: the default one, changed by each column of `v` in turn, or
/// the first error that a column gives
pub open spec fn config_from(v: Data) -> Result<ConfigView, LabeledErrorView> {
    match v {
        Data::Record(f) => fold_columns(names(f), default_config(), top_step(v)),
        _ => Ok(default_config()),
    }
}

impl Config {
    /// parse a configuration out of a value: anything but a record gives the default one
    pub fn from_value(value: &Value) -> (r: Result<Config, LabeledError>)
        ensures
            config_result(r) == config_from(value@),
    {
        let config = Config::default();
        match value {
            Value::Record(fields) => {
                assert(str_path(Seq::empty()) =~= Seq::<Member>::empty());
                top_section(value, fields, config)
            },
            _ => Ok(config),
        }
    }
}

/// Data that holds no setting, anything but a record or a record without columns, gives the
/// default configuration.
pub proof fn law_no_setting_gives_default(v: Data)
    requires
        !(v is Record) || v->Record_0.len() == 0,
    ensures
        config_from(v) == Ok::<ConfigView, LabeledErrorView>(default_config()),
{
    if v is Record {
        assert(names(v->Record_0) =~= Seq::<Seq<char>>::empty());
    }
}

} // verus!

verus! {

/// the names of the settings of the configuration
pub open spec fn is_setting_name(col: Seq<char>) -> bool {
    ||| col == "show_cell_path"@
    ||| col == "show_table_header"@
    ||| col == "layout"@
    ||| col == "margin"@
    ||| col == "number"@
    ||| col == "relativenumber"@
    ||| col == "show_hints"@
    ||| col == "strict_tables"@
    ||| col == "colors"@
    ||| col == "keybindings"@
}

/// A configuration whose first column is not a setting is refused, and the error names that
/// column.
pub proof fn law_unknown_setting_is_refused(f: Seq<(Seq<char>, Data)>)
    requires
        f.len() > 0,
        !is_setting_name(f[0].0),
    ensures
        config_from(Data::Record(f)) == Err::<ConfigView, LabeledErrorView>(config_error(invalid_field_text(seq![f[0].0]))),
{
    reveal(top_column);
    assert(names(f)[0] == f[0].0);
}

} // verus!

verus! {

/// the key bindings with the one read directly under `$.keybindings` in the column `col` set to
/// `x`, `None` when `col` names no such binding
pub open spec fn with_key_binding(k: KeyBindingsMap, col: Seq<char>, x: KeyEvent) -> Option<KeyBindingsMap> {
    if col == "quit"@ {
        Some(KeyBindingsMap { quit: x, ..k })
    } else if col == "insert"@ {
        Some(KeyBindingsMap { insert: x, ..k })
    } else if col == "normal"@ {
        Some(KeyBindingsMap { normal: x, ..k })
    } else if col == "peek"@ {
        Some(KeyBindingsMap { peek: x, ..k })
    } else if col == "transpose"@ {
        Some(KeyBindingsMap { transpose: x, ..k })
    } else {
        None
    }
}

/// the columns of `$.keybindings` that each hold a key
pub open spec fn is_key_binding_column(col: Seq<char>) -> bool {
    ||| col == "quit"@
    ||| col == "insert"@
    ||| col == "normal"@
    ||| col == "peek"@
    ||| col == "transpose"@
}

/// A configuration that only sets one of the key bindings under `keybindings` to a key that it
/// names gives the default configuration with that binding changed, and nothing else.
pub proof fn law_key_binding_replaces_default(col: Seq<char>, s: Seq<char>)
    requires
        is_key_binding_column(col),
        key_named(s) is Some,
    ensures
        config_from(Data::Record(seq![("keybindings"@, Data::Record(seq![(col, Data::Str(s))]))]))
            == Ok::<ConfigView, LabeledErrorView>(ConfigView {
                keybindings: with_key_binding(default_config().keybindings, col, key_named(s).unwrap()).unwrap(),
                ..default_config()
            }),
{
    reveal(top_column);
    reveal(keybindings_column);
    reveal(key_at);
    reveal_strlit("keybindings");
    reveal_strlit("show_cell_path");
    reveal_strlit("show_table_header");
    reveal_strlit("layout");
    reveal_strlit("margin");
    reveal_strlit("number");
    reveal_strlit("relativenumber");
    reveal_strlit("show_hints");
    reveal_strlit("strict_tables");
    reveal_strlit("colors");
    reveal_strlit("quit");
    reveal_strlit("insert");
    reveal_strlit("normal");
    reveal_strlit("navigation");
    reveal_strlit("peek");
    reveal_strlit("peeking");
    reveal_strlit("transpose");
    let inner = Data::Record(seq![(col, Data::Str(s))]);
    let top = seq![("keybindings"@, inner)];
    let v = Data::Record(top);
    let d = default_config();
    let k = key_named(s).unwrap();
    assert(names(top) =~= seq!["keybindings"@]);
    assert(names(seq![(col, Data::Str(s))]) =~= seq![col]);
    assert(seq!["keybindings"@].drop_first() =~= Seq::<Seq<char>>::empty());
    assert(seq![col].drop_first() =~= Seq::<Seq<char>>::empty());
    assert(str_path(seq!["keybindings"@]) =~= seq![Member::Str { val: "keybindings"@, optional: false }]);
    assert(str_path(seq!["keybindings"@, col]) =~= seq![
        Member::Str { val: "keybindings"@, optional: false },
        Member::Str { val: col, optional: false },
    ]);
    assert(lookup(top, "keybindings"@) == Some(inner));
    assert(lookup(seq![(col, Data::Str(s))], col) == Some(Data::Str(s)));
    let p1 = str_path(seq!["keybindings"@]);
    let p2 = str_path(seq!["keybindings"@, col]);
    assert(p1.drop_first() =~= Seq::<Member>::empty());
    assert(p2.drop_first() =~= seq![Member::Str { val: col, optional: false }]);
    assert(p2.drop_first().drop_first() =~= Seq::<Member>::empty());
    assert(follow(Data::Str(s), p2.drop_first().drop_first()) == Some(Data::Str(s)));
    assert(follow(inner, p2.drop_first()) == Some(Data::Str(s)));
    assert(follow(inner, p1.drop_first()) == Some(inner));
    assert(follow(v, p1) == Some(inner));
    assert(follow(v, p2) == Some(Data::Str(s)));
    assert(key_at(v, seq!["keybindings"@, col]) == Ok::<Option<KeyEvent>, LabeledErrorView>(Some(k)));
    let kb = with_key_binding(d.keybindings, col, k).unwrap();
    assert(keybindings_column(v, col, d.keybindings) == Ok::<KeyBindingsMap, LabeledErrorView>(kb));
    assert(keybindings_step(v)(col, d.keybindings) == keybindings_column(v, col, d.keybindings));
    assert(fold_columns(seq![col].drop_first(), kb, keybindings_step(v)) == Ok::<KeyBindingsMap, LabeledErrorView>(kb));
    assert(fold_columns(seq![col], d.keybindings, keybindings_step(v)) == Ok::<KeyBindingsMap, LabeledErrorView>(kb));
    assert(section(v, seq!["keybindings"@], d.keybindings, keybindings_step(v)) == Ok::<KeyBindingsMap, LabeledErrorView>(kb));
    let r = ConfigView { keybindings: kb, ..d };
    let kw = "keybindings"@;
    assert(kw.len() == 11);
    assert(kw != "show_cell_path"@ && kw != "show_table_header"@ && kw != "layout"@ && kw != "margin"@);
    assert(kw != "number"@ && kw != "relativenumber"@ && kw != "show_hints"@ && kw != "strict_tables"@);
    assert(kw != "colors"@);
    assert(top_column(v, "keybindings"@, d) == Ok::<ConfigView, LabeledErrorView>(r));
    assert(top_step(v)("keybindings"@, d) == top_column(v, "keybindings"@, d));
    assert(fold_columns(seq!["keybindings"@].drop_first(), r, top_step(v)) == Ok::<ConfigView, LabeledErrorView>(r));
    assert(fold_columns(seq!["keybindings"@], d, top_step(v)) == Ok::<ConfigView, LabeledErrorView>(r));
}

} // verus!

verus! {

/// the configuration with its boolean setting named `col` set to `b`, `None` when `col` names no
/// boolean setting
pub open spec fn with_bool_setting(c: ConfigView, col: Seq<char>, b: bool) -> Option<ConfigView> {
    if col == "show_cell_path"@ {
        Some(ConfigView { show_cell_path: b, ..c })
    } else if col == "show_table_header"@ {
        Some(ConfigView { show_table_header: b, ..c })
    } else if col == "number"@ {
        Some(ConfigView { number: b, ..c })
    } else if col == "relativenumber"@ {
        Some(ConfigView { relativenumber: b, ..c })
    } else if col == "show_hints"@ {
        Some(ConfigView { show_hints: b, ..c })
    } else if col == "strict_tables"@ {
        Some(ConfigView { strict_tables: b, ..c })
    } else {
        None
    }
}

/// the settings of the configuration that hold a boolean
pub open spec fn is_bool_setting(col: Seq<char>) -> bool {
    ||| col == "show_cell_path"@
    ||| col == "show_table_header"@
    ||| col == "number"@
    ||| col == "relativenumber"@
    ||| col == "show_hints"@
    ||| col == "strict_tables"@
}

/// A configuration that only sets one of its boolean settings gives the default configuration
/// with that setting changed, and nothing else.
pub proof fn law_bool_setting_replaces_default(col: Seq<char>, b: bool)
    requires
        is_bool_setting(col),
    ensures
        config_from(Data::Record(seq![(col, Data::Bool(b))]))
            == Ok::<ConfigView, LabeledErrorView>(with_bool_setting(default_config(), col, b).unwrap()),
{
    reveal(top_column);
    reveal(bool_at);
    reveal_strlit("show_cell_path");
    reveal_strlit("show_table_header");
    reveal_strlit("layout");
    reveal_strlit("margin");
    reveal_strlit("number");
    reveal_strlit("relativenumber");
    reveal_strlit("show_hints");
    reveal_strlit("strict_tables");
    let top = seq![(col, Data::Bool(b))];
    let v = Data::Record(top);
    let d = default_config();
    let r = with_bool_setting(d, col, b).unwrap();
    assert(names(top) =~= seq![col]);
    assert(seq![col].drop_first() =~= Seq::<Seq<char>>::empty());
    let p1 = str_path(seq![col]);
    assert(p1 =~= seq![Member::Str { val: col, optional: false }]);
    assert(p1.drop_first() =~= Seq::<Member>::empty());
    assert(lookup(top, col) == Some(Data::Bool(b)));
    assert(follow(Data::Bool(b), p1.drop_first()) == Some(Data::Bool(b)));
    assert(follow(v, p1) == Some(Data::Bool(b)));
    assert(bool_at(v, seq![col]) == Ok::<Option<bool>, LabeledErrorView>(Some(b)));
    assert("number"@[0] != "layout"@[0] && "number"@[0] != "margin"@[0]);
    assert("number"@ != "layout"@ && "number"@ != "margin"@);
    assert("relativenumber"@.len() != "layout"@.len() && "relativenumber"@.len() != "margin"@.len());
    assert("show_hints"@.len() != "layout"@.len() && "strict_tables"@.len() != "layout"@.len());
    assert("show_hints"@.len() != "margin"@.len() && "strict_tables"@.len() != "margin"@.len());
    assert(top_column(v, col, d) == Ok::<ConfigView, LabeledErrorView>(r));
    assert(top_step(v)(col, d) == top_column(v, col, d));
    assert(fold_columns(seq![col].drop_first(), r, top_step(v)) == Ok::<ConfigView, LabeledErrorView>(r));
    assert(fold_columns(seq![col], d, top_step(v)) == Ok::<ConfigView, LabeledErrorView>(r));
}

} // verus!
