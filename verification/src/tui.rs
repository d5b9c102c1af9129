//! the first form of the rows that the interface shows, where counts are always written out
use vstd::prelude::*;
use crate::value::{Data, Value, PathMember, follow, follow_cell_path, members_view, members_vec, list_view, fields_view};
use crate::types::{type_of, type_text};
use crate::strings::{SpecialString, special_text, url_scheme, parsed_url_scheme};
use crate::display::data_text;
use crate::text::{text, push_str, push_decimal, decimal, contains_char};
use crate::ui::{DataRowRepr, RowView, rows_view, unnamed_row, column_names};

verus! {

/// how many items a list has: `[n item]` up to one item, `[n items]` above
pub open spec fn items_count_text(n: nat) -> Seq<char> {
    if n <= 1 {
        "["@ + decimal(n) + " item]"@
    } else {
        "["@ + decimal(n) + " items]"@
    }
}

/// how many fields a record has: `{n field}` up to one field, `{n fields}` above
pub open spec fn fields_count_text(n: nat) -> Seq<char> {
    if n <= 1 {
        "{"@ + decimal(n) + " field}"@
    } else {
        "{"@ + decimal(n) + " fields}"@
    }
}

/// what a string is, given its text and its scheme as a URL if it is one: a `file` URL is a
/// path, any other URL is a URL, and a text with a `/` is a path
pub open spec fn special_kind(input: Seq<char>, scheme: Option<Seq<char>>) -> Option<SpecialString> {
    match scheme {
        Some(s) => if s == "file"@ {
            Some(SpecialString::Path)
        } else {
            Some(SpecialString::Url)
        },
        None => if input.contains('/') {
            Some(SpecialString::Path)
        } else {
            None
        },
    }
}

/// what `input` is, given its scheme as a URL if it is one
pub fn special_string(input: &str, scheme: Option<String>) -> (r: Option<SpecialString>)
    ensures
        r == special_kind(input@, match scheme {
            Some(s) => Some(s@),
            None => None::<Seq<char>>,
        }),
{
    match scheme {
        Some(s) => {
            if s == text("file") {
                Some(SpecialString::Path)
            } else {
                Some(SpecialString::Url)
            }
        },
        None => {
            if contains_char(input, '/') {
                Some(SpecialString::Path)
            } else {
                None
            }
        },
    }
}

/// the shape of a value: `url` or `path` for the strings that are one, its type otherwise
pub open spec fn shape_of(d: Data) -> Seq<char> {
    match d {
        Data::Str(s) => match special_kind(s, url_scheme(s)) {
            Some(x) => special_text(x),
            None => type_text(type_of(d)),
        },
        _ => type_text(type_of(d)),
    }
}

/// the row of a value that is neither a list nor a record
pub open spec fn simple_row(d: Data) -> RowView {
    unnamed_row(data_text(d, " "@), shape_of(d))
}

/// the row of any value
pub open spec fn value_row(d: Data) -> RowView {
    match d {
        Data::List(vals) => unnamed_row(items_count_text(vals.len()), "list"@),
        Data::Record(f) => unnamed_row(fields_count_text(f.len()), "record"@),
        _ => simple_row(d),
    }
}

/// the rows of some data: one per item of a list, one per field of a record, the data itself
/// otherwise
pub open spec fn data_rows(d: Data) -> Seq<RowView> {
    match d {
        Data::List(vals) => if vals.len() == 0 {
            seq![unnamed_row("[0 item]"@, "list"@)]
        } else {
            Seq::new(vals.len(), |i: int| value_row(vals[i]))
        },
        Data::Record(f) => if f.len() == 0 {
            seq![unnamed_row("{0 field}"@, "record"@)]
        } else {
            Seq::new(f.len(), |i: int| RowView { name: Some(f[i].0), ..value_row(f[i].1) })
        },
        _ => seq![simple_row(d)],
    }
}

/// compute the preview representation of a list
pub fn repr_list(vals: &[Value]) -> (r: DataRowRepr)
    ensures
        r@ == unnamed_row(items_count_text(vals@.len()), "list"@),
{
    let mut data = text("[");
    push_decimal(&mut data, vals.len() as u128);
    if vals.len() <= 1 {
        push_str(&mut data, " item]");
    } else {
        push_str(&mut data, " items]");
    }
    DataRowRepr { name: None, shape: text("list"), data }
}

/// compute the preview representation of a record
pub fn repr_record(cols: &[String]) -> (r: DataRowRepr)
    ensures
        r@ == unnamed_row(fields_count_text(cols@.len()), "record"@),
{
    let mut data = text("{");
    push_decimal(&mut data, cols.len() as u128);
    if cols.len() <= 1 {
        push_str(&mut data, " field}");
    } else {
        push_str(&mut data, " fields}");
    }
    DataRowRepr { name: None, shape: text("record"), data }
}

/// compute the preview representation of a simple value
pub fn repr_simple_value(value: &Value) -> (r: DataRowRepr)
    ensures
        r@ == simple_row(value@),
{
    let shape = match value {
        Value::String(s) => match special_string(s.as_str(), parsed_url_scheme(s.as_str())) {
            Some(x) => x.text(),
            None => value.get_type().text(),
        },
        _ => value.get_type().text(),
    };
    DataRowRepr { name: None, shape, data: value.into_string(" ") }
}

/// compute the preview representation of a value
pub fn repr_value(value: &Value) -> (r: DataRowRepr)
    ensures
        r@ == value_row(value@),
{
    match value {
        Value::List(vals) => repr_list(vals.as_slice()),
        Value::Record(f) => repr_record(column_names(f).as_slice()),
        _ => repr_simple_value(value),
    }
}

/// compute the row / item representation of the data at `cell_path` in `data`
pub fn repr_data(data: &Value, cell_path: &[PathMember]) -> (r: Vec<DataRowRepr>)
    requires
        follow(data@, members_view(cell_path@)) is Some,
    ensures
        rows_view(r@) == data_rows(follow(data@, members_view(cell_path@)).unwrap()),
{
    let path = members_vec(cell_path);
    let shown = follow_cell_path(data, &path).unwrap();
    let mut rows: Vec<DataRowRepr> = Vec::new();
    match &shown {
        Value::List(vals) => {
            if vals.len() == 0 {
                rows.push(DataRowRepr { name: None, shape: text("list"), data: text("[0 item]") });
                assert(rows_view(rows@) =~= data_rows(shown@));
                return rows;
            }
            let ghost lv = list_view(vals@);
            let mut i: usize = 0;
            while i < vals.len()
                invariant
                    i <= vals@.len(),
                    lv == list_view(vals@),
                    rows@.len() == i,
                    forall|j: int| 0 <= j < i ==> #[trigger] rows@[j]@ == value_row(lv[j]),
                decreases vals.len() - i,
            {
                rows.push(repr_value(&vals[i]));
                i = i + 1;
            }
            assert(rows_view(rows@) =~= data_rows(shown@));
            rows
        },
        Value::Record(f) => {
            if f.len() == 0 {
                rows.push(DataRowRepr { name: None, shape: text("record"), data: text("{0 field}") });
                assert(rows_view(rows@) =~= data_rows(shown@));
                return rows;
            }
            let ghost fv = fields_view(f@);
            let mut i: usize = 0;
            while i < f.len()
                invariant
                    i <= f@.len(),
                    fv == fields_view(f@),
                    rows@.len() == i,
                    forall|j: int| 0 <= j < i ==> #[trigger] rows@[j]@ == (RowView { name: Some(fv[j].0), ..value_row(fv[j].1) }),
                decreases f.len() - i,
            {
                let mut row = repr_value(&f[i].1);
                row.name = Some(f[i].0.clone());
                rows.push(row);
                i = i + 1;
            }
            assert(rows_view(rows@) =~= data_rows(shown@));
            rows
        },
        _ => {
            rows.push(repr_simple_value(&shown));
            assert(rows_view(rows@) =~= data_rows(shown@));
            rows
        },
    }
}

/// whether some data is a table: a non-empty list whose first item is a record, all its items
/// having the type of the first one
pub open spec fn table_shape(d: Data) -> bool {
    match d {
        Data::List(vals) => vals.len() > 0 && vals[0] is Record
            && forall|i: int| 0 <= i < vals.len() ==> #[trigger] type_text(type_of(vals[i])) == type_text(type_of(vals[0])),
        _ => false,
    }
}

/// whether the data at `cell_path` in `value` is a table, `None` when `cell_path` does not lead
/// anywhere in `value`
pub fn is_table(value: &Value, cell_path: &[PathMember]) -> (r: Option<bool>)
    ensures
        r is None <==> follow(value@, members_view(cell_path@)) is None,
        r matches Some(b) ==> b == table_shape(follow(value@, members_view(cell_path@)).unwrap()),
{
    let path = members_vec(cell_path);
    let shown = match follow_cell_path(value, &path) {
        Some(v) => v,
        None => {
            return None;
        },
    };
    match &shown {
        Value::List(vals) => {
            if vals.len() == 0 {
                return Some(false);
            }
            let ghost lv = list_view(vals@);
            assert(lv[0] == vals@[0]@);
            match &vals[0] {
                Value::Record(_) => {
                    let first = vals[0].get_type().text();
                    let mut i: usize = 0;
                    while i < vals.len()
                        invariant
                            i <= vals@.len(),
                            lv == list_view(vals@),
                            lv.len() > 0,
                            lv[0] is Record,
                            follow(value@, members_view(cell_path@)) == Some(Data::List(lv)),
                            first@ == type_text(type_of(lv[0])),
                            forall|j: int| 0 <= j < i ==> #[trigger] type_text(type_of(lv[j])) == type_text(type_of(lv[0])),
                        decreases vals.len() - i,
                    {
                        let t = vals[i].get_type().text();
                        assert(lv[i as int] == vals@[i as int]@);
                        if !(t == first) {
                            assert(type_text(type_of(lv[i as int])) != type_text(type_of(lv[0])));
                            return Some(false);
                        }
                        i = i + 1;
                    }
                    Some(true)
                },
                _ => Some(false),
            }
        },
        _ => Some(false),
    }
}

} // verus!
