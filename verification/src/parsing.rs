//! utilities to parse a [`Value`] into a configuration
use vstd::prelude::*;
use crate::value::{Data, Member, Value, PathMember, follow, lookup, project, members_view, list_view, follow_cell_path as follow_members, fields_view};
use crate::types::{type_of, type_text, push_type_text};
use crate::keys::{KeyCode, KeyEvent, KeyModifiers, key_text, key_code_text};
use crate::style::{Color, Modifier};
use crate::config::{BgFgColorConfig, Layout, press, ctrl_press};
use crate::text::{push_str, text, push_signed_decimal, push_decimal, usize_text, signed_decimal, decimal};

verus! {

/// one label of an error, the text that points at what went wrong
#[derive(Debug, Clone, PartialEq)]
pub struct ErrorLabel {
    pub text: String,
}

/// an error with a message and labels
#[derive(Debug, Clone, PartialEq)]
pub struct LabeledError {
    pub msg: String,
    pub labels: Vec<ErrorLabel>,
}

/// the mathematical model of a [`LabeledError`]
pub struct LabeledErrorView {
    pub msg: Seq<char>,
    pub labels: Seq<Seq<char>>,
}

impl View for LabeledError {
    type V = LabeledErrorView;

    open spec fn view(&self) -> LabeledErrorView {
        LabeledErrorView { msg: self.msg@, labels: self.labels@.map_values(|l: ErrorLabel| l.text@) }
    }
}

/// the error about the configuration with the given label
pub open spec fn config_error(label: Seq<char>) -> LabeledErrorView {
    LabeledErrorView { msg: "invalid config"@, labels: seq![label] }
}

/// the names of a cell path given as text
pub open spec fn path_view(p: Seq<&str>) -> Seq<Seq<char>> {
    p.map_values(|s: &str| s@)
}

/// a cell path made of column names
pub open spec fn str_path(p: Seq<Seq<char>>) -> Seq<Member> {
    p.map_values(|s: Seq<char>| Member::Str { val: s, optional: false })
}

/// the names of a cell path, separated by dots
pub open spec fn join(p: Seq<Seq<char>>) -> Seq<char>
    decreases p.len(),
{
    if p.len() == 0 {
        Seq::empty()
    } else if p.len() == 1 {
        p[0]
    } else {
        join(p.drop_last()) + "."@ + p.last()
    }
}

/// how a cell path is shown in an error, e.g. `` `$.colors.normal` ``
pub open spec fn path_text(p: Seq<Seq<char>>) -> Seq<char> {
    "`$."@ + join(p) + "`"@
}

pub open spec fn invalid_field_text(p: Seq<Seq<char>>) -> Seq<char> {
    path_text(p) + " is not a valid config field"@
}

pub open spec fn invalid_type_text(v: Data, p: Seq<Seq<char>>, expected: Seq<char>) -> Seq<char> {
    path_text(p) + " should be a "@ + expected + ", found "@ + type_text(type_of(v))
}

pub open spec fn u8_out_of_range_text(x: int, p: Seq<Seq<char>>) -> Seq<char> {
    path_text(p) + " should be an integer between 0 and 255, found "@ + signed_decimal(x)
}

pub open spec fn positive_integer_text(x: int, p: Seq<Seq<char>>) -> Seq<char> {
    path_text(p) + " should be a positive integer, found "@ + signed_decimal(x)
}

/// an error with the message of invalid configurations and a single label
pub fn config_error_with(label: String) -> (r: LabeledError)
    ensures
        r@ == config_error(label@),
{
    let mut labels: Vec<ErrorLabel> = Vec::new();
    labels.push(ErrorLabel { text: label });
    let r = LabeledError { msg: text("invalid config"), labels };
    assert(r@.labels =~= seq![label@]);
    r
}

/// appends the names of a cell path, separated by dots, at the end of `s`
fn push_join(s: &mut String, p: &[&str])
    ensures
        final(s)@ == old(s)@ + join(path_view(p@)),
{
    let ghost pv = path_view(p@);
    let mut i: usize = 0;
    assert(pv.take(0) =~= Seq::<Seq<char>>::empty());
    assert(s@ =~= old(s)@ + join(pv.take(0)));
    while i < p.len()
        invariant
            i <= p@.len(),
            pv == path_view(p@),
            s@ == old(s)@ + join(pv.take(i as int)),
        decreases p.len() - i,
    {
        assert(pv.take(i + 1).drop_last() =~= pv.take(i as int));
        if i > 0 {
            push_str(s, ".");
        }
        push_str(s, p[i]);
        i = i + 1;
        assert(s@ =~= old(s)@ + join(pv.take(i as int)));
    }
    assert(pv.take(p@.len() as int) =~= pv);
}

/// how a cell path is shown in an error
fn path_string(p: &[&str]) -> (r: String)
    ensures
        r@ == path_text(path_view(p@)),
{
    let mut s = text("`$.");
    push_join(&mut s, p);
    push_str(&mut s, "`");
    s
}

/// return an *invalid field* error, e.g. `` `$.foo` is not a valid config field ``
pub fn invalid_field(cell_path: &[&str]) -> (r: LabeledError)
    ensures
        r@ == config_error(invalid_field_text(path_view(cell_path@))),
{
    let mut s = path_string(cell_path);
    push_str(&mut s, " is not a valid config field");
    config_error_with(s)
}

/// return an *invalid type* error, e.g. `` `$.layout` should be a string, found int ``
pub fn invalid_type(value: &Value, cell_path: &[&str], expected: &str) -> (r: LabeledError)
    ensures
        r@ == config_error(invalid_type_text(value@, path_view(cell_path@), expected@)),
{
    let mut s = path_string(cell_path);
    push_str(&mut s, " should be a ");
    push_str(&mut s, expected);
    push_str(&mut s, ", found ");
    push_type_text(&mut s, &value.get_type());
    config_error_with(s)
}

fn u8_out_of_range(value: i64, cell_path: &[&str]) -> (r: LabeledError)
    ensures
        r@ == config_error(u8_out_of_range_text(value as int, path_view(cell_path@))),
{
    let mut s = path_string(cell_path);
    push_str(&mut s, " should be an integer between 0 and 255, found ");
    push_signed_decimal(&mut s, value);
    config_error_with(s)
}

/// return an error about a negative integer, e.g. `` `$.margin` should be a positive integer, found -1 ``
pub fn positive_integer(value: i64, cell_path: &[&str]) -> (r: LabeledError)
    ensures
        r@ == config_error(positive_integer_text(value as int, path_view(cell_path@))),
{
    let mut s = path_string(cell_path);
    push_str(&mut s, " should be a positive integer, found ");
    push_signed_decimal(&mut s, value);
    config_error_with(s)
}

/// follow a cell path made of column names into a value, giving the value found there if any
pub fn follow_cell_path(value: &Value, cell_path: &[&str]) -> (r: Option<Value>)
    ensures
        r is None <==> follow(value@, str_path(path_view(cell_path@))) is None,
        r matches Some(x) ==> follow(value@, str_path(path_view(cell_path@))) == Some(x@),
{
    let mut members: Vec<PathMember> = Vec::new();
    let mut i: usize = 0;
    while i < cell_path.len()
        invariant
            i <= cell_path@.len(),
            members@.len() == i,
            forall|j: int| 0 <= j < i ==> #[trigger] members@[j]@ == (Member::Str { val: cell_path@[j]@, optional: false }),
        decreases cell_path.len() - i,
    {
        members.push(PathMember::String { val: text(cell_path[i]), optional: false });
        i = i + 1;
    }
    assert(members_view(members@) =~= str_path(path_view(cell_path@)));
    follow_members(value, &members)
}

/// what a parse in the configuration gives, its error taken by its view
pub open spec fn tried<T>(r: Result<T, LabeledError>) -> Result<T, LabeledErrorView> {
    match r {
        Ok(x) => Ok(x),
        Err(e) => Err(e@),
    }
}

/// whether `s` holds the text `t`
pub(crate) fn is_text(s: &String, t: &str) -> (r: bool)
    ensures
        r == (s@ == t@),
{
    *s == text(t)
}

/// `p` followed by `last`
fn extend<'a>(p: &[&'a str], last: &'a str) -> (r: Vec<&'a str>)
    ensures
        r@ == p@.push(last),
        path_view(r@) == path_view(p@).push(last@),
{
    let mut r: Vec<&'a str> = Vec::new();
    let mut i: usize = 0;
    while i < p.len()
        invariant
            i <= p@.len(),
            r@ == p@.take(i as int),
        decreases p.len() - i,
    {
        r.push(p[i]);
        i = i + 1;
        assert(r@ =~= p@.take(i as int));
    }
    assert(p@.take(p@.len() as int) =~= p@);
    r.push(last);
    assert(path_view(r@) =~= path_view(p@).push(last@));
    r
}

/// the label of an error where the value found was not one of the expected choices
fn unexpected(cell_path: &[&str], expected: &str, found: &String) -> (r: LabeledError)
    ensures
        r@ == config_error(path_text(path_view(cell_path@)) + expected@ + found@),
{
    let mut s = path_string(cell_path);
    push_str(&mut s, expected);
    push_str(&mut s, found.as_str());
    proof {
        assert(s@ =~= path_text(path_view(cell_path@)) + expected@ + found@);
    }
    config_error_with(s)
}

/// the data at `p` in `v`, read as a bool
#[verifier::opaque]
pub open spec fn bool_at(v: Data, p: Seq<Seq<char>>) -> Result<Option<bool>, LabeledErrorView> {
    match follow(v, str_path(p)) {
        Some(Data::Bool(b)) => Ok(Some(b)),
        Some(x) => Err(config_error(invalid_type_text(x, p, "bool"@))),
        None => Ok(None),
    }
}

/// the data at `p` in `v`, read as a string
#[verifier::opaque]
pub open spec fn string_at(v: Data, p: Seq<Seq<char>>) -> Result<Option<Seq<char>>, LabeledErrorView> {
    match follow(v, str_path(p)) {
        Some(Data::Str(s)) => Ok(Some(s)),
        Some(x) => Err(config_error(invalid_type_text(x, p, "string"@))),
        None => Ok(None),
    }
}

/// the data at `p` in `v`, read as an integer
#[verifier::opaque]
pub open spec fn int_at(v: Data, p: Seq<Seq<char>>) -> Result<Option<int>, LabeledErrorView> {
    match follow(v, str_path(p)) {
        Some(Data::Int(i)) => Ok(Some(i)),
        Some(x) => Err(config_error(invalid_type_text(x, p, "int"@))),
        None => Ok(None),
    }
}

/// try to parse a bool in the *value* at the given *cell path*
pub fn try_bool(value: &Value, cell_path: &[&str]) -> (r: Result<Option<bool>, LabeledError>)
    ensures
        tried(r) == bool_at(value@, path_view(cell_path@)),
{
    reveal(bool_at);
    match follow_cell_path(value, cell_path) {
        Some(Value::Bool(b)) => Ok(Some(b)),
        Some(x) => Err(invalid_type(&x, cell_path, "bool")),
        None => Ok(None),
    }
}

/// try to parse a string in the *value* at the given *cell path*
pub fn try_string(value: &Value, cell_path: &[&str]) -> (r: Result<Option<String>, LabeledError>)
    ensures
        match r {
            Ok(Some(s)) => string_at(value@, path_view(cell_path@)) == Ok::<Option<Seq<char>>, LabeledErrorView>(Some(s@)),
            Ok(None) => string_at(value@, path_view(cell_path@)) == Ok::<Option<Seq<char>>, LabeledErrorView>(None),
            Err(e) => string_at(value@, path_view(cell_path@)) == Err::<Option<Seq<char>>, LabeledErrorView>(e@),
        },
{
    reveal(string_at);
    match follow_cell_path(value, cell_path) {
        Some(Value::String(s)) => Ok(Some(s)),
        Some(x) => Err(invalid_type(&x, cell_path, "string")),
        None => Ok(None),
    }
}

/// try to parse an integer in the *value* at the given *cell path*
pub fn try_int(value: &Value, cell_path: &[&str]) -> (r: Result<Option<i64>, LabeledError>)
    ensures
        match r {
            Ok(Some(i)) => int_at(value@, path_view(cell_path@)) == Ok::<Option<int>, LabeledErrorView>(Some(i as int)),
            Ok(None) => int_at(value@, path_view(cell_path@)) == Ok::<Option<int>, LabeledErrorView>(None),
            Err(e) => int_at(value@, path_view(cell_path@)) == Err::<Option<int>, LabeledErrorView>(e@),
        },
{
    reveal(int_at);
    match follow_cell_path(value, cell_path) {
        Some(Value::Int(i)) => Ok(Some(i)),
        Some(x) => Err(invalid_type(&x, cell_path, "int")),
        None => Ok(None),
    }
}

/// the modifier named `s`, if any
pub open spec fn modifier_named(s: Seq<char>) -> Option<Modifier> {
    if s == ""@ {
        Some(Modifier { bits: 0 })
    } else if s == "bold"@ {
        Some(Modifier { bits: 1 })
    } else if s == "italic"@ {
        Some(Modifier { bits: 4 })
    } else if s == "underline"@ {
        Some(Modifier { bits: 8 })
    } else if s == "blink"@ {
        Some(Modifier { bits: 16 })
    } else {
        None
    }
}

/// the data at `p` in `v`, read as a text modifier
#[verifier::opaque]
pub open spec fn modifier_at(v: Data, p: Seq<Seq<char>>) -> Result<Option<Modifier>, LabeledErrorView> {
    match follow(v, str_path(p)) {
        Some(Data::Nothing) => Ok(Some(Modifier { bits: 0 })),
        Some(Data::Str(s)) => match modifier_named(s) {
            Some(m) => Ok(Some(m)),
            None => Err(config_error(path_text(p)
                + " should be the empty string, one of [italic, bold, underline, blink] or null, found "@ + s)),
        },
        Some(x) => Err(config_error(invalid_type_text(x, p, "string or null"@))),
        None => Ok(None),
    }
}

/// the layout named `s`, if any
pub open spec fn layout_named(s: Seq<char>) -> Option<Layout> {
    if s == "table"@ {
        Some(Layout::Table)
    } else if s == "compact"@ {
        Some(Layout::Compact)
    } else {
        None
    }
}

/// the data at `p` in `v`, read as a layout
#[verifier::opaque]
pub open spec fn layout_at(v: Data, p: Seq<Seq<char>>) -> Result<Option<Layout>, LabeledErrorView> {
    match follow(v, str_path(p)) {
        Some(Data::Str(s)) => match layout_named(s) {
            Some(l) => Ok(Some(l)),
            None => Err(config_error(path_text(p) + " should be one of [table, compact] , found "@ + s)),
        },
        Some(x) => Err(config_error(invalid_type_text(x, p, "string"@))),
        None => Ok(None),
    }
}

/// try to parse an ANSI modifier in the *value* at the given *cell path*
pub fn try_modifier(value: &Value, cell_path: &[&str]) -> (r: Result<Option<Modifier>, LabeledError>)
    ensures
        tried(r) == modifier_at(value@, path_view(cell_path@)),
{
    reveal(modifier_at);
    match follow_cell_path(value, cell_path) {
        Some(Value::Nothing) => Ok(Some(Modifier::empty())),
        Some(Value::String(s)) => {
            if is_text(&s, "") {
                Ok(Some(Modifier::empty()))
            } else if is_text(&s, "bold") {
                Ok(Some(Modifier::bold()))
            } else if is_text(&s, "italic") {
                Ok(Some(Modifier::italic()))
            } else if is_text(&s, "underline") {
                Ok(Some(Modifier::underlined()))
            } else if is_text(&s, "blink") {
                Ok(Some(Modifier::slow_blink()))
            } else {
                Err(unexpected(
                    cell_path,
                    " should be the empty string, one of [italic, bold, underline, blink] or null, found ",
                    &s,
                ))
            }
        },
        Some(x) => Err(invalid_type(&x, cell_path, "string or null")),
        None => Ok(None),
    }
}

/// try to parse a layout in the *value* at the given *cell path*
pub fn try_layout(value: &Value, cell_path: &[&str]) -> (r: Result<Option<Layout>, LabeledError>)
    ensures
        tried(r) == layout_at(value@, path_view(cell_path@)),
{
    reveal(layout_at);
    match follow_cell_path(value, cell_path) {
        Some(Value::String(s)) => {
            if is_text(&s, "table") {
                Ok(Some(Layout::Table))
            } else if is_text(&s, "compact") {
                Ok(Some(Layout::Compact))
            } else {
                Err(unexpected(cell_path, " should be one of [table, compact] , found ", &s))
            }
        },
        Some(x) => Err(invalid_type(&x, cell_path, "string")),
        None => Ok(None),
    }
}

/// whether `c` is written with a single byte
pub open spec fn is_ascii_char(c: char) -> bool {
    (c as u32) < 128
}

/// the key named `s`, if any: a direction, `escape`, a single character, or a single character
/// inside `<c-...>` or `<C-...>` for the press of that character with control held
pub open spec fn key_named(s: Seq<char>) -> Option<KeyEvent> {
    if s == "up"@ {
        Some(press(KeyCode::Up))
    } else if s == "down"@ {
        Some(press(KeyCode::Down))
    } else if s == "left"@ {
        Some(press(KeyCode::Left))
    } else if s == "right"@ {
        Some(press(KeyCode::Right))
    } else if s == "escape"@ {
        Some(press(KeyCode::Esc))
    } else if s.len() == 1 && is_ascii_char(s[0]) {
        Some(press(KeyCode::Char(s[0])))
    } else if s.len() == 5 && s[0] == '<' && (s[1] == 'c' || s[1] == 'C') && s[2] == '-'
        && is_ascii_char(s[3]) && s[4] == '>' {
        Some(ctrl_press(KeyCode::Char(s[3])))
    } else {
        None
    }
}

/// the data at `p` in `v`, read as a key
#[verifier::opaque]
pub open spec fn key_at(v: Data, p: Seq<Seq<char>>) -> Result<Option<KeyEvent>, LabeledErrorView> {
    match follow(v, str_path(p)) {
        Some(Data::Str(s)) => match key_named(s) {
            Some(k) => Ok(Some(k)),
            None => Err(config_error(path_text(p)
                + " should be a character, possibly inside '<c-...>' or '<C-...>', or one of [up, down, left, right, escape] , found "@
                + s)),
        },
        Some(x) => Err(config_error(invalid_type_text(x, p, "string"@))),
        None => Ok(None),
    }
}

/// the key written in `s`, if any
fn key_of(s: &String) -> (r: Option<KeyEvent>)
    ensures
        r == key_named(s@),
{
    if is_text(s, "up") {
        return Some(KeyEvent::new(KeyCode::Up, KeyModifiers::none()));
    } else if is_text(s, "down") {
        return Some(KeyEvent::new(KeyCode::Down, KeyModifiers::none()));
    } else if is_text(s, "left") {
        return Some(KeyEvent::new(KeyCode::Left, KeyModifiers::none()));
    } else if is_text(s, "right") {
        return Some(KeyEvent::new(KeyCode::Right, KeyModifiers::none()));
    } else if is_text(s, "escape") {
        return Some(KeyEvent::new(KeyCode::Esc, KeyModifiers::none()));
    }
    let t = s.as_str();
    let n = t.unicode_len();
    if n == 1 {
        let c = t.get_char(0);
        if (c as u32) < 128 {
            return Some(KeyEvent::new(KeyCode::Char(c), KeyModifiers::none()));
        }
        return None;
    }
    if n == 5 {
        let c0 = t.get_char(0);
        let c1 = t.get_char(1);
        let c2 = t.get_char(2);
        let c3 = t.get_char(3);
        let c4 = t.get_char(4);
        if c0 == '<' && (c1 == 'c' || c1 == 'C') && c2 == '-' && (c3 as u32) < 128 && c4 == '>' {
            return Some(KeyEvent::new(KeyCode::Char(c3), KeyModifiers::control()));
        }
    }
    None
}

/// try to parse a key in the *value* at the given *cell path*
pub fn try_key(value: &Value, cell_path: &[&str]) -> (r: Result<Option<KeyEvent>, LabeledError>)
    ensures
        tried(r) == key_at(value@, path_view(cell_path@)),
{
    reveal(key_at);
    match follow_cell_path(value, cell_path) {
        Some(Value::String(s)) => match key_of(&s) {
            Some(k) => Ok(Some(k)),
            None => Err(unexpected(
                cell_path,
                " should be a character, possibly inside '<c-...>' or '<C-...>', or one of [up, down, left, right, escape] , found ",
                &s,
            )),
        },
        Some(x) => Err(invalid_type(&x, cell_path, "string")),
        None => Ok(None),
    }
}

/// the color named `s`, if any
pub open spec fn color_named(s: Seq<char>) -> Option<Color> {
    if s == "reset"@ {
        Some(Color::Reset)
    } else if s == "black"@ {
        Some(Color::Black)
    } else if s == "red"@ {
        Some(Color::Red)
    } else if s == "green"@ {
        Some(Color::Green)
    } else if s == "yellow"@ {
        Some(Color::Yellow)
    } else if s == "blue"@ {
        Some(Color::Blue)
    } else if s == "magenta"@ {
        Some(Color::Magenta)
    } else if s == "cyan"@ {
        Some(Color::Cyan)
    } else if s == "gray"@ {
        Some(Color::Gray)
    } else if s == "darkgray"@ {
        Some(Color::DarkGray)
    } else if s == "lightred"@ {
        Some(Color::LightRed)
    } else if s == "lightgreen"@ {
        Some(Color::LightGreen)
    } else if s == "lightyellow"@ {
        Some(Color::LightYellow)
    } else if s == "lightblue"@ {
        Some(Color::LightBlue)
    } else if s == "lightmagenta"@ {
        Some(Color::LightMagenta)
    } else if s == "lightcyan"@ {
        Some(Color::LightCyan)
    } else if s == "white"@ {
        Some(Color::White)
    } else {
        None
    }
}

/// one channel of an RGB color, the `i`-th item of the list at `p`
pub open spec fn channel(x: Data, p: Seq<Seq<char>>, i: nat) -> Result<u8, LabeledErrorView> {
    match x {
        Data::Int(n) => if 0 <= n <= 255 {
            Ok(n as u8)
        } else {
            Err(config_error(u8_out_of_range_text(n, p.push(decimal(i)))))
        },
        _ => Err(config_error(invalid_type_text(x, p.push(decimal(i)), "u8"@))),
    }
}

/// the RGB color given by three channels
pub open spec fn rgb_of(vals: Seq<Data>, p: Seq<Seq<char>>) -> Result<Color, LabeledErrorView> {
    match channel(vals[0], p, 0) {
        Err(e) => Err(e),
        Ok(r) => match channel(vals[1], p, 1) {
            Err(e) => Err(e),
            Ok(g) => match channel(vals[2], p, 2) {
                Err(e) => Err(e),
                Ok(b) => Ok(Color::Rgb(r, g, b)),
            },
        },
    }
}

/// the data at `p` in `v`, read as a color: a name, a gray level or three RGB channels
#[verifier::opaque]
pub open spec fn color_at(v: Data, p: Seq<Seq<char>>) -> Result<Option<Color>, LabeledErrorView> {
    match follow(v, str_path(p)) {
        Some(Data::Str(s)) => match color_named(s) {
            Some(c) => Ok(Some(c)),
            None => Err(config_error(path_text(p)
                + " should be a u8, a list of three u8s or one of [black, red, green, yellow, blue, magenta, cyan, gray, darkgray, lightred, lightgreen, lightyellow, lightblue, lightmagenta, lightcyan, white] , found "@
                + s)),
        },
        Some(Data::Int(n)) => if 0 <= n <= 255 {
            Ok(Some(Color::Rgb(n as u8, n as u8, n as u8)))
        } else {
            Err(config_error(u8_out_of_range_text(n, p)))
        },
        Some(Data::List(vals)) => if vals.len() != 3 {
            Err(config_error(path_text(p) + " is not a valid config field, expected a list of three u8, found "@
                + decimal(vals.len()) + " items"@))
        } else {
            match rgb_of(vals, p) {
                Ok(c) => Ok(Some(c)),
                Err(e) => Err(e),
            }
        },
        Some(x) => Err(config_error(invalid_type_text(x, p, "string, u8 or [u8, u8, u8]"@))),
        None => Ok(None),
    }
}

/// the color named in `s`, if any
fn color_of(s: &String) -> (r: Option<Color>)
    ensures
        r == color_named(s@),
{
    if is_text(s, "reset") {
        Some(Color::Reset)
    } else if is_text(s, "black") {
        Some(Color::Black)
    } else if is_text(s, "red") {
        Some(Color::Red)
    } else if is_text(s, "green") {
        Some(Color::Green)
    } else if is_text(s, "yellow") {
        Some(Color::Yellow)
    } else if is_text(s, "blue") {
        Some(Color::Blue)
    } else if is_text(s, "magenta") {
        Some(Color::Magenta)
    } else if is_text(s, "cyan") {
        Some(Color::Cyan)
    } else if is_text(s, "gray") {
        Some(Color::Gray)
    } else if is_text(s, "darkgray") {
        Some(Color::DarkGray)
    } else if is_text(s, "lightred") {
        Some(Color::LightRed)
    } else if is_text(s, "lightgreen") {
        Some(Color::LightGreen)
    } else if is_text(s, "lightyellow") {
        Some(Color::LightYellow)
    } else if is_text(s, "lightblue") {
        Some(Color::LightBlue)
    } else if is_text(s, "lightmagenta") {
        Some(Color::LightMagenta)
    } else if is_text(s, "lightcyan") {
        Some(Color::LightCyan)
    } else if is_text(s, "white") {
        Some(Color::White)
    } else {
        None
    }
}

/// read the `i`-th item of the list at `cell_path` as one channel of an RGB color
fn try_channel(x: &Value, cell_path: &[&str], i: usize) -> (r: Result<u8, LabeledError>)
    ensures
        tried(r) == channel(x@, path_view(cell_path@), i as nat),
{
    let tail = usize_text(i);
    let p = extend(cell_path, tail.as_str());
    match x {
        Value::Int(n) => {
            if *n < 0 || *n > 255 {
                Err(u8_out_of_range(*n, p.as_slice()))
            } else {
                Ok(*n as u8)
            }
        },
        _ => Err(invalid_type(x, p.as_slice(), "u8")),
    }
}

/// try to parse a color in the *value* at the given *cell path*
pub fn try_color(value: &Value, cell_path: &[&str]) -> (r: Result<Option<Color>, LabeledError>)
    ensures
        tried(r) == color_at(value@, path_view(cell_path@)),
{
    reveal(color_at);
    match follow_cell_path(value, cell_path) {
        Some(Value::String(s)) => match color_of(&s) {
            Some(c) => Ok(Some(c)),
            None => Err(unexpected(
                cell_path,
                " should be a u8, a list of three u8s or one of [black, red, green, yellow, blue, magenta, cyan, gray, darkgray, lightred, lightgreen, lightyellow, lightblue, lightmagenta, lightcyan, white] , found ",
                &s,
            )),
        },
        Some(Value::Int(n)) => {
            if n < 0 || n > 255 {
                Err(u8_out_of_range(n, cell_path))
            } else {
                Ok(Some(Color::Rgb(n as u8, n as u8, n as u8)))
            }
        },
        Some(Value::List(vals)) => {
            if vals.len() != 3 {
                let mut s = path_string(cell_path);
                push_str(&mut s, " is not a valid config field, expected a list of three u8, found ");
                push_decimal(&mut s, vals.len() as u128);
                push_str(&mut s, " items");
                proof {
                    assert(s@ =~= path_text(path_view(cell_path@))
                        + " is not a valid config field, expected a list of three u8, found "@
                        + decimal(list_view(vals@).len()) + " items"@);
                }
                return Err(config_error_with(s));
            }
            let ghost lv = list_view(vals@);
            assert(lv[0] == vals@[0]@ && lv[1] == vals@[1]@ && lv[2] == vals@[2]@);
            let r = match try_channel(&vals[0], cell_path, 0) {
                Err(e) => {
                    return Err(e);
                },
                Ok(r) => r,
            };
            let g = match try_channel(&vals[1], cell_path, 1) {
                Err(e) => {
                    return Err(e);
                },
                Ok(g) => g,
            };
            let b = match try_channel(&vals[2], cell_path, 2) {
                Err(e) => {
                    return Err(e);
                },
                Ok(b) => b,
            };
            Ok(Some(Color::Rgb(r, g, b)))
        },
        Some(x) => Err(invalid_type(&x, cell_path, "string, u8 or [u8, u8, u8]")),
        None => Ok(None),
    }
}

/// the names of the columns of a record, in order
pub open spec fn names(f: Seq<(Seq<char>, Data)>) -> Seq<Seq<char>> {
    f.map_values(|x: (Seq<char>, Data)| x.0)
}

/// read the columns `cols` of a record one after the other, each changing `c` by `step`, and stop
/// at the first error
pub open spec fn fold_columns<C>(
    cols: Seq<Seq<char>>,
    c: C,
    step: spec_fn(Seq<char>, C) -> Result<C, LabeledErrorView>,
) -> Result<C, LabeledErrorView>
    decreases cols.len(),
{
    if cols.len() == 0 {
        Ok(c)
    } else {
        match step(cols[0], c) {
            Err(e) => Err(e),
            Ok(next) => fold_columns(cols.drop_first(), next, step),
        }
    }
}

/// one column of a background / foreground color pair found at `p` in `v`
pub open spec fn fg_bg_step(v: Data, p: Seq<Seq<char>>) -> spec_fn(Seq<char>, BgFgColorConfig) -> Result<BgFgColorConfig, LabeledErrorView> {
    |col: Seq<char>, c: BgFgColorConfig|
        if col == "background"@ {
            match color_at(v, p.push(col)) {
                Err(e) => Err(e),
                Ok(Some(x)) => Ok(BgFgColorConfig { background: x, foreground: c.foreground }),
                Ok(None) => Ok(c),
            }
        } else if col == "foreground"@ {
            match color_at(v, p.push(col)) {
                Err(e) => Err(e),
                Ok(Some(x)) => Ok(BgFgColorConfig { background: c.background, foreground: x }),
                Ok(None) => Ok(c),
            }
        } else {
            Err(config_error(invalid_field_text(p.push(col))))
        }
}

/// the data at `p` in `v`, read as a background / foreground color pair, each color of which is
/// that of `default` unless the data gives it
#[verifier::opaque]
pub open spec fn fg_bg_at(v: Data, p: Seq<Seq<char>>, default: BgFgColorConfig) -> Result<Option<BgFgColorConfig>, LabeledErrorView> {
    match follow(v, str_path(p)) {
        Some(Data::Record(f)) => match fold_columns(names(f), default, fg_bg_step(v, p)) {
            Ok(c) => Ok(Some(c)),
            Err(e) => Err(e),
        },
        Some(x) => Err(config_error(invalid_type_text(x, p, "record"@))),
        None => Ok(None),
    }
}

/// try to parse a background / foreground color pair in the *value* at the given *cell path*
pub fn try_fg_bg_colors(value: &Value, cell_path: &[&str], default: &BgFgColorConfig) -> (r: Result<Option<BgFgColorConfig>, LabeledError>)
    requires
        follow(value@, str_path(path_view(cell_path@))) is Some,
    ensures
        tried(r) == fg_bg_at(value@, path_view(cell_path@), *default),
{
    reveal(fg_bg_at);
    let cell = follow_cell_path(value, cell_path).unwrap();
    let fields = match &cell {
        Value::Record(f) => f,
        x => {
            return Err(invalid_type(x, cell_path, "record"));
        },
    };
    let ghost p = path_view(cell_path@);
    let ghost cols = names(fields_view(fields@));
    let ghost step = fg_bg_step(value@, p);
    let mut colors: BgFgColorConfig = *default;
    let mut i: usize = 0;
    assert(cols.skip(0) =~= cols);
    while i < fields.len()
        invariant
            i <= fields@.len(),
            cols == names(fields_view(fields@)),
            step == fg_bg_step(value@, p),
            p == path_view(cell_path@),
            follow(value@, str_path(p)) == Some(Data::Record(fields_view(fields@))),
            fold_columns(cols, *default, step) == fold_columns(cols.skip(i as int), colors, step),
        decreases fields.len() - i,
    {
        reveal(fg_bg_at);
        assert(cols.skip(i as int).drop_first() =~= cols.skip(i + 1));
        assert(cols.skip(i as int)[0] == fields@[i as int].0@);
        let col = &fields[i].0;
        if is_text(col, "background") {
            let q = extend(cell_path, "background");
            match try_color(value, q.as_slice()) {
                Err(e) => {
                    return Err(e);
                },
                Ok(Some(x)) => {
                    colors.background = x;
                },
                Ok(None) => {},
            }
        } else if is_text(col, "foreground") {
            let q = extend(cell_path, "foreground");
            match try_color(value, q.as_slice()) {
                Err(e) => {
                    return Err(e);
                },
                Ok(Some(x)) => {
                    colors.foreground = x;
                },
                Ok(None) => {},
            }
        } else {
            let q = extend(cell_path, col.as_str());
            return Err(invalid_field(q.as_slice()));
        }
        i = i + 1;
    }
    Ok(Some(colors))
}

/// a column of a record is found there
pub proof fn lemma_lookup_present(f: Seq<(Seq<char>, Data)>, i: int)
    requires
        0 <= i < f.len(),
    ensures
        lookup(f, f[i].0) is Some,
    decreases f.len(),
{
    if f.last().0 != f[i].0 {
        assert(i < f.len() - 1);
        assert(f.drop_last()[i] == f[i]);
        lemma_lookup_present(f.drop_last(), i);
    }
}

/// following a path made of column names one column further is following that column from
/// where the path led
pub proof fn lemma_follow_extend(v: Data, p: Seq<Seq<char>>, col: Seq<char>, d: Data)
    requires
        follow(v, str_path(p)) == Some(d),
    ensures
        follow(v, str_path(p.push(col))) == follow(d, str_path(seq![col])),
    decreases p.len(),
{
    let sp = str_path(p.push(col));
    if p.len() == 0 {
        assert(sp =~= str_path(seq![col]));
    } else {
        assert(str_path(p).drop_first() =~= str_path(p.drop_first()));
        assert(sp.drop_first() =~= str_path(p.drop_first().push(col)));
        assert(sp[0] == str_path(p)[0]);
        match v {
            Data::Record(f) => {
                let x = lookup(f, p[0]).unwrap();
                lemma_follow_extend(x, p.drop_first(), col, d);
            },
            Data::List(rows) => {
                let l = project(rows, p[0], false).unwrap();
                lemma_follow_extend(Data::List(l), p.drop_first(), col, d);
            },
            _ => {},
        }
    }
}

/// following one column further, to a column that the record found there has
pub proof fn lemma_column_found(v: Data, p: Seq<Seq<char>>, f: Seq<(Seq<char>, Data)>, i: int)
    requires
        follow(v, str_path(p)) == Some(Data::Record(f)),
        0 <= i < f.len(),
    ensures
        follow(v, str_path(p.push(f[i].0))) is Some,
        follow(v, str_path(p.push(f[i].0))) == lookup(f, f[i].0),
{
    lemma_follow_extend(v, p, f[i].0, Data::Record(f));
    lemma_lookup_present(f, i);
    let x = lookup(f, f[i].0).unwrap();
    assert(str_path(seq![f[i].0]).drop_first() =~= Seq::<Member>::empty());
    assert(follow(x, Seq::<Member>::empty()) == Some(x));
}

} // verus!

verus! {

/// A key written as a single character, or as a single character inside `<c-...>`, is shown as
/// it was written.
pub proof fn law_key_shown_as_written(s: Seq<char>)
    requires
        key_named(s) is Some,
        s.len() == 1 || (s.len() == 5 && s[1] == 'c'),
    ensures
        key_text(key_named(s).unwrap()) == s,
{
    reveal_strlit("up");
    reveal_strlit("down");
    reveal_strlit("left");
    reveal_strlit("right");
    reveal_strlit("escape");
    reveal_strlit("<c-");
    reveal_strlit(">");
    if s.len() == 1 {
        assert(s != "up"@ && s != "down"@ && s != "left"@ && s != "right"@ && s != "escape"@);
        assert(key_code_text(KeyCode::Char(s[0])) =~= s);
    } else {
        assert(s[1] != "right"@[1]);
        assert(s != "up"@ && s != "down"@ && s != "left"@ && s != "right"@ && s != "escape"@);
        assert("<c-"@ + key_code_text(KeyCode::Char(s[3])) + ">"@ =~= s);
    }
}

} // verus!

verus! {

/// the name of a named color, as ratatui names its colors, in lower case; `None` for the colors
/// given by their RGB channels or by their index
pub open spec fn color_name(c: Color) -> Option<Seq<char>> {
    match c {
        Color::Reset => Some("reset"@),
        Color::Black => Some("black"@),
        Color::Red => Some("red"@),
        Color::Green => Some("green"@),
        Color::Yellow => Some("yellow"@),
        Color::Blue => Some("blue"@),
        Color::Magenta => Some("magenta"@),
        Color::Cyan => Some("cyan"@),
        Color::Gray => Some("gray"@),
        Color::DarkGray => Some("darkgray"@),
        Color::LightRed => Some("lightred"@),
        Color::LightGreen => Some("lightgreen"@),
        Color::LightYellow => Some("lightyellow"@),
        Color::LightBlue => Some("lightblue"@),
        Color::LightMagenta => Some("lightmagenta"@),
        Color::LightCyan => Some("lightcyan"@),
        Color::White => Some("white"@),
        Color::Rgb(_, _, _) => None,
        Color::Indexed(_) => None,
    }
}

/// Each named color is read from its own name and from no other text: the name of a color
/// gives that color, and a text that gives a color is that color's name.
pub proof fn law_color_read_by_its_name(c: Color, s: Seq<char>)
    ensures
        color_name(c) matches Some(name) ==> color_named(name) == Some(c),
        color_named(s) == Some(c) ==> color_name(c) == Some(s),
{
    reveal_strlit("reset");
    reveal_strlit("black");
    reveal_strlit("red");
    reveal_strlit("green");
    reveal_strlit("yellow");
    reveal_strlit("blue");
    reveal_strlit("magenta");
    reveal_strlit("cyan");
    reveal_strlit("gray");
    reveal_strlit("darkgray");
    reveal_strlit("lightred");
    reveal_strlit("lightgreen");
    reveal_strlit("lightyellow");
    reveal_strlit("lightblue");
    reveal_strlit("lightmagenta");
    reveal_strlit("lightcyan");
    reveal_strlit("white");
    assert("reset"@[0] == 'r' && "black"@[0] == 'b' && "red"@[0] == 'r' && "green"@[0] == 'g');
    assert("yellow"@[0] == 'y' && "blue"@[0] == 'b' && "magenta"@[0] == 'm' && "cyan"@[0] == 'c');
    assert("gray"@[0] == 'g' && "darkgray"@[0] == 'd' && "white"@[0] == 'w');
    assert("lightred"@[5] == 'r' && "lightgreen"@[5] == 'g' && "lightyellow"@[5] == 'y');
    assert("lightblue"@[5] == 'b' && "lightmagenta"@[5] == 'm' && "lightcyan"@[5] == 'c');
    assert("lightred"@[0] == 'l' && "lightgreen"@[0] == 'l' && "lightyellow"@[0] == 'l');
    assert("lightblue"@[0] == 'l' && "lightmagenta"@[0] == 'l' && "lightcyan"@[0] == 'l');
    assert("red"@.len() == 3 && "reset"@.len() == 5 && "blue"@.len() == 4 && "black"@.len() == 5);
    assert("gray"@.len() == 4 && "green"@.len() == 5);
    match c {
        Color::Reset => assert(color_named("reset"@) == Some(c)),
        Color::Black => assert(color_named("black"@) == Some(c)),
        Color::Red => assert(color_named("red"@) == Some(c)),
        Color::Green => assert(color_named("green"@) == Some(c)),
        Color::Yellow => assert(color_named("yellow"@) == Some(c)),
        Color::Blue => assert(color_named("blue"@) == Some(c)),
        Color::Magenta => assert(color_named("magenta"@) == Some(c)),
        Color::Cyan => assert(color_named("cyan"@) == Some(c)),
        Color::Gray => assert(color_named("gray"@) == Some(c)),
        Color::DarkGray => assert(color_named("darkgray"@) == Some(c)),
        Color::LightRed => assert(color_named("lightred"@) == Some(c)),
        Color::LightGreen => assert(color_named("lightgreen"@) == Some(c)),
        Color::LightYellow => assert(color_named("lightyellow"@) == Some(c)),
        Color::LightBlue => assert(color_named("lightblue"@) == Some(c)),
        Color::LightMagenta => assert(color_named("lightmagenta"@) == Some(c)),
        Color::LightCyan => assert(color_named("lightcyan"@) == Some(c)),
        Color::White => assert(color_named("white"@) == Some(c)),
        _ => {},
    }
}

} // verus!
