//! what the interface shows of the data: one row of name, data and shape for each item
use vstd::prelude::*;
use crate::value::{Data, Member, Value, PathMember, CellPath, follow, follow_cell_path, members_view, list_view, fields_view};
use crate::app::{App, AppView, Mode, mode_text};
use crate::config::KeyBindingsMap;
use crate::keys::{KeyCode, KeyEvent, key_text, key_code_text, repr_key, repr_keycode};
use crate::types::{type_of, type_text};
use crate::strings::{SpecialString, special_of, special_text, url_scheme};
use crate::display::data_text;
use crate::text::{text, push_str, push_decimal, decimal};
use crate::cells::{first_index, find_first_column, lemma_first_index_range};
use crate::parsing::{names, join};

verus! {

/// a common representation for an explore row
#[derive(Clone, Debug, PartialEq)]
pub struct DataRowRepr {
    pub name: Option<String>,
    pub shape: String,
    pub data: String,
}

/// the mathematical model of a [`DataRowRepr`]
pub struct RowView {
    pub name: Option<Seq<char>>,
    pub shape: Seq<char>,
    pub data: Seq<char>,
}

impl View for DataRowRepr {
    type V = RowView;

    open spec fn view(&self) -> RowView {
        RowView {
            name: match self.name {
                Some(n) => Some(n@),
                None => None,
            },
            shape: self.shape@,
            data: self.data@,
        }
    }
}

pub open spec fn rows_view(r: Seq<DataRowRepr>) -> Seq<RowView> {
    r.map_values(|x: DataRowRepr| x@)
}

/// a row without a name
pub open spec fn unnamed_row(data: Seq<char>, shape: Seq<char>) -> RowView {
    RowView { name: None, shape, data }
}

impl DataRowRepr {
    /// a row without a name
    pub fn unnamed(data: &str, shape: &str) -> (r: DataRowRepr)
        ensures
            r@ == unnamed_row(data@, shape@),
    {
        DataRowRepr { name: None, shape: text(shape), data: text(data) }
    }

    /// a row with a name
    pub fn named(name: &str, data: &str, shape: &str) -> (r: DataRowRepr)
        ensures
            r@ == (RowView { name: Some(name@), shape: shape@, data: data@ }),
    {
        DataRowRepr { name: Some(text(name)), shape: text(shape), data: text(data) }
    }
}

/// how many items a list has: `[]`, `[1 item]` or `[n items]`
pub open spec fn items_count_text(n: nat) -> Seq<char> {
    if n == 0 {
        "[]"@
    } else if n == 1 {
        "[1 item]"@
    } else {
        "["@ + decimal(n) + " items]"@
    }
}

/// how many fields a record has: `{}`, `{1 field}` or `{n fields}`
pub open spec fn fields_count_text(n: nat) -> Seq<char> {
    if n == 0 {
        "{}"@
    } else if n == 1 {
        "{1 field}"@
    } else {
        "{"@ + decimal(n) + " fields}"@
    }
}

/// the shape of a value: `url` or `path` for the strings that are one, its type otherwise
pub open spec fn shape_of(d: Data) -> Seq<char> {
    match d {
        Data::Str(s) => match special_of(s, url_scheme(s)) {
            Some(x) => special_text(x),
            None => type_text(type_of(d)),
        },
        _ => type_text(type_of(d)),
    }
}

/// the row of a value that is neither a list nor a record
pub open spec fn simple_row(d: Data) -> RowView {
    unnamed_row(data_text(d, " "@), shape_of(d))
}

/// the row of any value
pub open spec fn value_row(d: Data) -> RowView {
    match d {
        Data::List(vals) => unnamed_row(items_count_text(vals.len()), "list"@),
        Data::Record(f) => unnamed_row(fields_count_text(f.len()), "record"@),
        _ => simple_row(d),
    }
}

/// the row of a value, under a name
pub open spec fn named_row(name: Seq<char>, d: Data) -> RowView {
    RowView { name: Some(name), ..value_row(d) }
}

/// the rows of some data: one per item of a list, one per field of a record, the data itself
/// otherwise
pub open spec fn data_rows(d: Data) -> Seq<RowView> {
    match d {
        Data::List(vals) => if vals.len() == 0 {
            seq![unnamed_row("[]"@, "list"@)]
        } else {
            Seq::new(vals.len(), |i: int| value_row(vals[i]))
        },
        Data::Record(f) => if f.len() == 0 {
            seq![unnamed_row("{}"@, "record"@)]
        } else {
            Seq::new(f.len(), |i: int| named_row(f[i].0, f[i].1))
        },
        _ => seq![simple_row(d)],
    }
}

/// compute the preview representation of a list
pub fn repr_list(vals: &[Value]) -> (r: DataRowRepr)
    ensures
        r@ == unnamed_row(items_count_text(vals@.len()), "list"@),
{
    let data = if vals.len() == 0 {
        text("[]")
    } else if vals.len() == 1 {
        text("[1 item]")
    } else {
        let mut s = text("[");
        push_decimal(&mut s, vals.len() as u128);
        push_str(&mut s, " items]");
        s
    };
    DataRowRepr { name: None, shape: text("list"), data }
}

/// compute the preview representation of a record
pub fn repr_record(cols: &[String]) -> (r: DataRowRepr)
    ensures
        r@ == unnamed_row(fields_count_text(cols@.len()), "record"@),
{
    let data = if cols.len() == 0 {
        text("{}")
    } else if cols.len() == 1 {
        text("{1 field}")
    } else {
        let mut s = text("{");
        push_decimal(&mut s, cols.len() as u128);
        push_str(&mut s, " fields}");
        s
    };
    DataRowRepr { name: None, shape: text("record"), data }
}

/// the shape of a value: `url` or `path` for the strings that are one, its type otherwise
pub fn shape(value: &Value) -> (r: String)
    ensures
        r@ == shape_of(value@),
{
    match value {
        Value::String(s) => match SpecialString::parse(s.as_str()) {
            Some(x) => x.text(),
            None => value.get_type().text(),
        },
        _ => value.get_type().text(),
    }
}

/// compute the preview representation of a simple value
pub fn repr_simple_value(value: &Value) -> (r: DataRowRepr)
    ensures
        r@ == simple_row(value@),
{
    DataRowRepr { name: None, shape: shape(value), data: value.into_string(" ") }
}

/// the names of the columns of a record
pub fn column_names(fields: &Vec<(String, Value)>) -> (r: Vec<String>)
    ensures
        r@.len() == fields@.len(),
        forall|i: int| 0 <= i < fields@.len() ==> #[trigger] r@[i]@ == fields@[i].0@,
{
    let mut r: Vec<String> = Vec::new();
    let mut i: usize = 0;
    while i < fields.len()
        invariant
            i <= fields@.len(),
            r@.len() == i,
            forall|j: int| 0 <= j < i ==> #[trigger] r@[j]@ == fields@[j].0@,
        decreases fields.len() - i,
    {
        r.push(fields[i].0.clone());
        i = i + 1;
    }
    r
}

/// compute the preview representation of a value
pub fn repr_value(value: &Value) -> (r: DataRowRepr)
    ensures
        r@ == value_row(value@),
{
    match value {
        Value::List(vals) => repr_list(vals.as_slice()),
        Value::Record(f) => repr_record(column_names(f).as_slice()),
        _ => repr_simple_value(value),
    }
}

/// compute the row / item representation of a complete value
pub fn repr_data(data: &Value) -> (r: Vec<DataRowRepr>)
    ensures
        rows_view(r@) == data_rows(data@),
{
    let mut rows: Vec<DataRowRepr> = Vec::new();
    match data {
        Value::List(vals) => {
            if vals.len() == 0 {
                rows.push(DataRowRepr { name: None, shape: text("list"), data: text("[]") });
                assert(rows_view(rows@) =~= data_rows(data@));
                return rows;
            }
            let ghost lv = list_view(vals@);
            let mut i: usize = 0;
            while i < vals.len()
                invariant
                    i <= vals@.len(),
                    lv == list_view(vals@),
                    rows@.len() == i,
                    forall|j: int| 0 <= j < i ==> #[trigger] rows@[j]@ == value_row(lv[j]),
                decreases vals.len() - i,
            {
                rows.push(repr_value(&vals[i]));
                i = i + 1;
            }
            assert(rows_view(rows@) =~= data_rows(data@));
            rows
        },
        Value::Record(f) => {
            if f.len() == 0 {
                rows.push(DataRowRepr { name: None, shape: text("record"), data: text("{}") });
                assert(rows_view(rows@) =~= data_rows(data@));
                return rows;
            }
            let ghost fv = fields_view(f@);
            let mut i: usize = 0;
            while i < f.len()
                invariant
                    i <= f@.len(),
                    fv == fields_view(f@),
                    rows@.len() == i,
                    forall|j: int| 0 <= j < i ==> #[trigger] rows@[j]@ == named_row(fv[j].0, fv[j].1),
                decreases f.len() - i,
            {
                let mut row = repr_value(&f[i].1);
                row.name = Some(f[i].0.clone());
                rows.push(row);
                i = i + 1;
            }
            assert(rows_view(rows@) =~= data_rows(data@));
            rows
        },
        _ => {
            rows.push(repr_simple_value(data));
            assert(rows_view(rows@) =~= data_rows(data@));
            rows
        },
    }
}

/// the fields of a record, none for anything else
pub open spec fn record_fields(d: Data) -> Seq<(Seq<char>, Data)> {
    match d {
        Data::Record(f) => f,
        _ => Seq::empty(),
    }
}

/// the data of the first field named `col`
pub open spec fn first_value(f: Seq<(Seq<char>, Data)>, col: Seq<char>) -> Data {
    match first_index(f, col) {
        Some(i) => f[i].1,
        None => Data::Nothing,
    }
}

/// the columns of a table: those of its first row
pub open spec fn table_columns(t: Seq<Data>) -> Seq<Seq<char>> {
    names(record_fields(t[0]))
}

/// the shapes of the columns of a table: the types of the data in its first row
pub open spec fn table_shapes(t: Seq<Data>) -> Seq<Seq<char>> {
    let f = record_fields(t[0]);
    Seq::new(f.len(), |j: int| type_text(type_of(first_value(f, f[j].0))))
}

/// the cells of one row of a table, the data of each of its columns as in a preview
pub open spec fn table_row_cells(row: Data) -> Seq<Seq<char>> {
    let f = record_fields(row);
    Seq::new(f.len(), |j: int| value_row(first_value(f, f[j].0)).data)
}

pub open spec fn strings_view(s: Seq<String>) -> Seq<Seq<char>> {
    s.map_values(|x: String| x@)
}

pub open spec fn string_rows_view(s: Seq<Vec<String>>) -> Seq<Seq<Seq<char>>> {
    s.map_values(|x: Vec<String>| strings_view(x@))
}

/// the data of the first field of `f` named as its `j`-th field
fn first_field<'a>(f: &'a Vec<(String, Value)>, j: usize) -> (r: &'a Value)
    requires
        j < f@.len(),
    ensures
        r@ == first_value(fields_view(f@), f@[j as int].0@),
{
    match find_first_column(f, &f[j].0) {
        Some(i) => &f[i].1,
        None => {
            proof {
                lemma_first_index_found(fields_view(f@), j as int);
            }
            &f[0].1
        },
    }
}

proof fn lemma_first_index_found(f: Seq<(Seq<char>, Data)>, j: int)
    requires
        0 <= j < f.len(),
    ensures
        first_index(f, f[j].0) is Some,
    decreases f.len(),
{
    if j < f.len() - 1 {
        assert(f.drop_last()[j] == f[j]);
        lemma_first_index_found(f.drop_last(), j);
    }
}

/// compute the representation of a complete table: its columns, their shapes and its cells
pub fn repr_table(table: &[Value]) -> (r: (Vec<String>, Vec<String>, Vec<Vec<String>>))
    requires
        table@.len() > 0,
    ensures
        strings_view(r.0@) == table_columns(list_view(table@)),
        strings_view(r.1@) == table_shapes(list_view(table@)),
        string_rows_view(r.2@) == Seq::new(table@.len(), |i: int| table_row_cells(list_view(table@)[i])),
{
    let ghost lv = list_view(table@);
    let mut columns: Vec<String> = Vec::new();
    let mut shapes: Vec<String> = Vec::new();
    match &table[0] {
        Value::Record(f) => {
            let ghost fv = fields_view(f@);
            assert(lv[0] == Data::Record(fv));
            let mut j: usize = 0;
            while j < f.len()
                invariant
                    j <= f@.len(),
                    fv == fields_view(f@),
                    columns@.len() == j,
                    shapes@.len() == j,
                    forall|k: int| 0 <= k < j ==> #[trigger] columns@[k]@ == fv[k].0,
                    forall|k: int| 0 <= k < j ==> #[trigger] shapes@[k]@ == type_text(type_of(first_value(fv, fv[k].0))),
                decreases f.len() - j,
            {
                let x = first_field(f, j);
                columns.push(f[j].0.clone());
                shapes.push(x.get_type().text());
                j = j + 1;
            }
            assert(strings_view(columns@) =~= table_columns(lv));
            assert(strings_view(shapes@) =~= table_shapes(lv));
        },
        _ => {
            assert(strings_view(columns@) =~= table_columns(lv));
            assert(strings_view(shapes@) =~= table_shapes(lv));
        },
    }
    let mut rows: Vec<Vec<String>> = Vec::new();
    let mut i: usize = 0;
    while i < table.len()
        invariant
            i <= table@.len(),
            lv == list_view(table@),
            rows@.len() == i,
            forall|k: int| 0 <= k < i ==> #[trigger] strings_view(rows@[k]@) == table_row_cells(lv[k]),
        decreases table.len() - i,
    {
        let mut cells: Vec<String> = Vec::new();
        match &table[i] {
            Value::Record(f) => {
                let ghost fv = fields_view(f@);
                let mut j: usize = 0;
                while j < f.len()
                    invariant
                        j <= f@.len(),
                        fv == fields_view(f@),
                        cells@.len() == j,
                        forall|k: int| 0 <= k < j ==> #[trigger] cells@[k]@ == value_row(first_value(fv, fv[k].0)).data,
                    decreases f.len() - j,
                {
                    let x = first_field(f, j);
                    cells.push(repr_value(x).data);
                    j = j + 1;
                }
            },
            _ => {},
        }
        assert(strings_view(cells@) =~= table_row_cells(lv[i as int]));
        rows.push(cells);
        i = i + 1;
    }
    assert(string_rows_view(rows@) =~= Seq::new(table@.len(), |i: int| table_row_cells(lv[i])));
    (columns, shapes, rows)
}

/// a member of a cell path as shown in the cell path line: its index or its column
pub open spec fn member_plain(m: Member) -> Seq<char> {
    match m {
        Member::Int { val, .. } => decimal(val),
        Member::Str { val, .. } => val,
    }
}

/// the line that shows the cell path under the cursor, e.g. `cell path: $.foo.2.bar`
pub open spec fn cell_path_line_text(p: Seq<Member>) -> Seq<char> {
    "cell path: $."@ + join(p.map_values(|m: Member| member_plain(m)))
}

/// the line that shows the cell path under the cursor, e.g. `cell path: $.foo.2.bar`
pub fn cell_path_line(position: &CellPath) -> (r: String)
    ensures
        r@ == cell_path_line_text(position@),
{
    let ghost parts = position@.map_values(|m: Member| member_plain(m));
    let mut s = text("cell path: $.");
    let ghost start = s@;
    let mut i: usize = 0;
    assert(parts.take(0) =~= Seq::<Seq<char>>::empty());
    while i < position.members.len()
        invariant
            i <= position.members@.len(),
            parts == position@.map_values(|m: Member| member_plain(m)),
            start == "cell path: $."@,
            s@ == start + join(parts.take(i as int)),
        decreases position.members.len() - i,
    {
        assert(parts.take(i + 1).drop_last() =~= parts.take(i as int));
        assert(parts.take(i + 1).last() == member_plain(position.members@[i as int]@));
        if i > 0 {
            push_str(&mut s, ".");
        }
        match &position.members[i] {
            PathMember::Int { val, .. } => push_decimal(&mut s, *val as u128),
            PathMember::String { val, .. } => push_str(&mut s, val.as_str()),
        }
        i = i + 1;
        assert(s@ =~= start + join(parts.take(i as int)));
    }
    assert(parts.take(position.members@.len() as int) =~= parts);
    s
}

/// the line that shows an error
pub fn error_line(error: &str) -> (r: String)
    ensures
        r@ == "Err: "@ + error@,
{
    let mut s = text("Err: ");
    push_str(&mut s, error);
    s
}

/// the label of a mode in the status bar
pub fn mode_label(mode: Mode) -> (r: String)
    ensures
        r@ == " "@ + mode_text(mode) + " "@,
{
    let mut s = text(" ");
    let m = mode.text();
    push_str(&mut s, m.as_str());
    push_str(&mut s, " ");
    s
}

/// the hints about the keys to press shown in the status bar, in each mode
pub open spec fn hints_text(mode: Mode, k: KeyBindingsMap) -> Seq<char> {
    match mode {
        Mode::Normal => key_text(k.insert) + " to "@ + mode_text(Mode::Insert) + " | "@
            + key_text(k.navigation.left) + key_text(k.navigation.down) + key_text(k.navigation.up)
            + key_text(k.navigation.right) + " to move around | "@ + key_text(k.peek) + " to peek | "@
            + key_text(k.quit) + " to quit"@,
        Mode::Insert => key_code_text(KeyCode::Esc) + " to "@ + mode_text(Mode::Normal),
        Mode::Peeking => key_text(k.normal) + " to "@ + mode_text(Mode::Normal) + " | "@
            + key_text(k.peeking.all) + " to peek all | "@ + key_text(k.peeking.view) + " to peek current view | "@
            + key_text(k.peeking.under) + " to peek under cursor | "@ + key_text(k.quit) + " to quit"@,
        Mode::Bottom => key_text(k.navigation.left) + " to "@ + mode_text(Mode::Normal) + " | "@
            + key_text(k.peek) + " to peek | "@ + key_text(k.quit) + " to quit"@,
        Mode::Waiting(n) => key_code_text(KeyCode::Esc) + " to "@ + mode_text(Mode::Normal) + " | "@
            + key_text(k.navigation.down) + key_text(k.navigation.up) + " to move "@ + decimal(n as nat)
            + " rows | "@ + key_text(k.navigation.goto_line) + " to go to line "@ + decimal(n as nat),
    }
}

/// appends how `key` is shown at the end of `s`
fn push_key(s: &mut String, key: &KeyEvent)
    ensures
        final(s)@ == old(s)@ + key_text(*key),
{
    let k = repr_key(key);
    push_str(s, k.as_str());
}

/// appends how `code` is shown at the end of `s`
fn push_code(s: &mut String, code: KeyCode)
    ensures
        final(s)@ == old(s)@ + key_code_text(code),
{
    let k = repr_keycode(&code);
    push_str(s, k.as_str());
}

/// the hints about the keys to press shown in the status bar
pub fn status_hints(mode: Mode, k: &KeyBindingsMap) -> (r: String)
    ensures
        r@ == hints_text(mode, *k),
{
    let mut s = String::new();
    let ghost e = s@;
    match mode {
        Mode::Normal => {
            push_key(&mut s, &k.insert);
            push_str(&mut s, " to ");
            let m = Mode::Insert.text();
            push_str(&mut s, m.as_str());
            push_str(&mut s, " | ");
            push_key(&mut s, &k.navigation.left);
            push_key(&mut s, &k.navigation.down);
            push_key(&mut s, &k.navigation.up);
            push_key(&mut s, &k.navigation.right);
            push_str(&mut s, " to move around | ");
            push_key(&mut s, &k.peek);
            push_str(&mut s, " to peek | ");
            push_key(&mut s, &k.quit);
            push_str(&mut s, " to quit");
        },
        Mode::Insert => {
            push_code(&mut s, KeyCode::Esc);
            push_str(&mut s, " to ");
            let m = Mode::Normal.text();
            push_str(&mut s, m.as_str());
        },
        Mode::Peeking => {
            push_key(&mut s, &k.normal);
            push_str(&mut s, " to ");
            let m = Mode::Normal.text();
            push_str(&mut s, m.as_str());
            push_str(&mut s, " | ");
            push_key(&mut s, &k.peeking.all);
            push_str(&mut s, " to peek all | ");
            push_key(&mut s, &k.peeking.view);
            push_str(&mut s, " to peek current view | ");
            push_key(&mut s, &k.peeking.under);
            push_str(&mut s, " to peek under cursor | ");
            push_key(&mut s, &k.quit);
            push_str(&mut s, " to quit");
        },
        Mode::Bottom => {
            push_key(&mut s, &k.navigation.left);
            push_str(&mut s, " to ");
            let m = Mode::Normal.text();
            push_str(&mut s, m.as_str());
            push_str(&mut s, " | ");
            push_key(&mut s, &k.peek);
            push_str(&mut s, " to peek | ");
            push_key(&mut s, &k.quit);
            push_str(&mut s, " to quit");
        },
        Mode::Waiting(n) => {
            push_code(&mut s, KeyCode::Esc);
            push_str(&mut s, " to ");
            let m = Mode::Normal.text();
            push_str(&mut s, m.as_str());
            push_str(&mut s, " | ");
            push_key(&mut s, &k.navigation.down);
            push_key(&mut s, &k.navigation.up);
            push_str(&mut s, " to move ");
            push_decimal(&mut s, n as u128);
            push_str(&mut s, " rows | ");
            push_key(&mut s, &k.navigation.goto_line);
            push_str(&mut s, " to go to line ");
            push_decimal(&mut s, n as u128);
        },
    }
    assert(s@ =~= hints_text(mode, *k));
    s
}

/// the cell path of the data shown: the cursor without its last member, unless the cursor is at
/// the bottom of the data
pub open spec fn shown_path(a: AppView) -> Seq<Member> {
    if a.mode == Mode::Bottom || a.position.len() == 0 {
        a.position
    } else {
        a.position.drop_last()
    }
}

/// the member of the row under the cursor in the data shown, none at the bottom of the data
pub open spec fn shown_member(a: AppView) -> Option<Member> {
    if a.mode == Mode::Bottom || a.position.len() == 0 {
        None
    } else {
        Some(a.position.last())
    }
}

/// the index of the row under the cursor among the rows of the data shown
pub open spec fn selected_index(shown: Data, m: Option<Member>) -> nat {
    match m {
        Some(Member::Int { val, .. }) => val,
        Some(Member::Str { val, .. }) => match shown {
            Data::Record(f) => match first_index(f, val) {
                Some(i) => i as nat,
                None => 0,
            },
            _ => 0,
        },
        None => 0,
    }
}

/// the data to show and the index of the row under the cursor in it, `None` when the cursor
/// does not lead anywhere in the data
pub fn render_target(app: &App) -> (r: Option<(Value, usize)>)
    ensures
        r is None <==> follow(app@.value, shown_path(app@)) is None,
        r matches Some(t) ==> follow(app@.value, shown_path(app@)) == Some(t.0@)
            && t.1 == selected_index(t.0@, shown_member(app@)),
{
    let n = app.position.members.len();
    let at_bottom = app.is_at_bottom();
    let mut path = app.position.copy();
    assert(path.members@.len() == members_view(path.members@).len());
    let current = if !at_bottom && n > 0 {
        path.members.pop()
    } else {
        None
    };
    assert(path@ =~= shown_path(app@));
    let shown = match follow_cell_path(&app.value, &path.members) {
        Some(v) => v,
        None => {
            return None;
        },
    };
    let selected = match &current {
        Some(PathMember::Int { val, .. }) => *val,
        Some(PathMember::String { val, .. }) => match &shown {
            Value::Record(f) => match find_first_column(f, val) {
                Some(i) => i,
                None => 0,
            },
            _ => 0,
        },
        None => 0,
    };
    Some((shown, selected))
}

} // verus!

verus! {

/// Away from the bottom of the data, the data shown is the one that holds the cursor, and the
/// row shown as selected is the one under the cursor: an index into a list selects the row of
/// that index, and a column of a record selects a row of that column.
pub proof fn law_selected_row_is_under_the_cursor(a: AppView)
    requires
        a.mode != Mode::Bottom,
        a.position.len() > 0,
    ensures
        shown_path(a) == a.position.drop_last(),
        a.position.last() is Int ==> selected_index(follow(a.value, shown_path(a)).unwrap(), shown_member(a))
            == a.position.last()->Int_val,
        ({
            let shown = follow(a.value, a.position.drop_last());
            let col = a.position.last()->Str_val;
            &&& a.position.last() is Str
            &&& shown matches Some(Data::Record(f))
            &&& exists|j: int| 0 <= j < shown.unwrap()->Record_0.len() && #[trigger] shown.unwrap()->Record_0[j].0 == col
        } ==> {
            let f = follow(a.value, a.position.drop_last()).unwrap()->Record_0;
            let k = selected_index(follow(a.value, shown_path(a)).unwrap(), shown_member(a));
            k < f.len() && f[k as int].0 == a.position.last()->Str_val
        }),
{
    let shown = follow(a.value, a.position.drop_last());
    if a.position.last() is Str && shown is Some && shown.unwrap() is Record {
        let f = shown.unwrap()->Record_0;
        let col = a.position.last()->Str_val;
        lemma_first_index_range(f, col);
        if exists|j: int| 0 <= j < f.len() && #[trigger] f[j].0 == col {
            let j = choose|j: int| 0 <= j < f.len() && #[trigger] f[j].0 == col;
            if first_index(f, col) is None {
                lemma_first_index_found(f, j);
            }
        }
    }
}

} // verus!

verus! {

/// The cell path line lists every member of the cursor, in order, after `cell path: $.`: a
/// member added at the end of the cursor adds `.` and that member to the line, an index as its
/// decimal number and a column as its name.
pub proof fn law_cell_path_line_lists_every_member(p: Seq<Member>, m: Member)
    ensures
        p.len() == 0 ==> cell_path_line_text(seq![m]) == "cell path: $."@ + match m {
            Member::Int { val, .. } => decimal(val),
            Member::Str { val, .. } => val,
        },
        p.len() > 0 ==> cell_path_line_text(p.push(m)) == cell_path_line_text(p) + "."@ + match m {
            Member::Int { val, .. } => decimal(val),
            Member::Str { val, .. } => val,
        },
{
    let f = |x: Member| member_plain(x);
    let s = p.push(m).map_values(f);
    assert(s =~= p.map_values(f).push(member_plain(m)));
    assert(s.drop_last() =~= p.map_values(f));
    assert(seq![m].map_values(f) =~= seq![member_plain(m)]);
}

} // verus!
