use nu_plugin_explore::tui::{is_table, repr_data, repr_list, repr_record, repr_simple_value};
use nu_plugin_explore::ui::DataRowRepr;
use nu_plugin_explore::value::{PathMember, Value};

fn string(s: &str) -> Value {
    Value::String(s.to_string())
}

fn record(cols: Vec<&str>, vals: Vec<Value>) -> Value {
    Value::Record(cols.into_iter().map(|c| c.to_string()).zip(vals).collect())
}

#[test]
fn tui_simple_value() {
    let cases = vec![
        (string("foo"), DataRowRepr::unnamed("foo", "string")),
        (Value::Int(1), DataRowRepr::unnamed("1", "int")),
        (Value::Bool(true), DataRowRepr::unnamed("true", "bool")),
        (Value::Nothing, DataRowRepr::unnamed("", "nothing")),
        (string("foo"), DataRowRepr::unnamed("foo", "string")),
        (string("https://google.com"), DataRowRepr::unnamed("https://google.com", "url")),
        (string("file:///some/file"), DataRowRepr::unnamed("file:///some/file", "path")),
        (string("/path/to/something"), DataRowRepr::unnamed("/path/to/something", "path")),
        (string("relative/path/"), DataRowRepr::unnamed("relative/path/", "path")),
        (string("./relative/path/"), DataRowRepr::unnamed("./relative/path/", "path")),
        (string("../../relative/path/"), DataRowRepr::unnamed("../../relative/path/", "path")),
        (string("file:"), DataRowRepr::unnamed("file:", "path")),
        (
            string("normal string with a / inside"),
            DataRowRepr::unnamed("normal string with a / inside", "path")
        ),
    ];

    for (value, expected) in cases {
        assert_eq!(repr_simple_value(&value), expected);
    }
}

#[test]
fn tui_list() {
    let list = vec![string("a"), Value::Int(1), Value::Bool(false)];

    let cases = vec![
        (list, DataRowRepr::unnamed("[3 items]", "list")),
        (vec![], DataRowRepr::unnamed("[0 item]", "list")),
        (vec![Value::Nothing], DataRowRepr::unnamed("[1 item]", "list")),
    ];

    for (list, expected) in cases {
        assert_eq!(repr_list(&list), expected);
    }
}

#[test]
fn tui_record() {
    let cases = vec![
        (vec!["a", "b", "c"], DataRowRepr::unnamed("{3 fields}", "record")),
        (vec![], DataRowRepr::unnamed("{0 field}", "record")),
        (vec!["a"], DataRowRepr::unnamed("{1 field}", "record")),
    ];

    for (rec, expected) in cases {
        assert_eq!(repr_record(&rec.iter().map(|x| x.to_string()).collect::<Vec<String>>()), expected);
    }
}

#[test]
fn tui_data() {
    let data = record(
        vec!["l", "r", "s", "i"],
        vec![
            Value::List(vec![string("my"), string("list"), string("elements")]),
            record(vec!["a", "b"], vec![Value::Int(1), Value::Int(2)]),
            string("some string"),
            Value::Int(123),
        ],
    );

    let result = repr_data(&data, &[]);
    let expected: Vec<DataRowRepr> = vec![
        DataRowRepr::named("l", "[3 items]", "list"),
        DataRowRepr::named("r", "{2 fields}", "record"),
        DataRowRepr::named("s", "some string", "string"),
        DataRowRepr::named("i", "123", "int"),
    ];
    assert_eq!(result, expected);
}

#[test]
fn tui_is_a_table() {
    let table = Value::List(vec![
        record(vec!["a", "b"], vec![string("a"), Value::Int(1)]),
        record(vec!["a", "b"], vec![string("a"), Value::Int(1)]),
    ]);
    assert_eq!(is_table(&table, &[]), Some(true));

    let not_a_table = Value::List(vec![
        record(vec!["a"], vec![string("a")]),
        record(vec!["a", "b"], vec![string("a"), Value::Int(1)]),
    ]);
    assert_eq!(is_table(&not_a_table, &[]), Some(false));

    assert_eq!(is_table(&Value::Int(0), &[]), Some(false));
}

#[test]
fn data_under_a_cell_path() {
    let data = record(vec!["l"], vec![Value::List(vec![Value::Int(1), Value::Nothing])]);
    let path = vec![PathMember::String { val: "l".to_string(), optional: false }];
    assert_eq!(
        repr_data(&data, &path),
        vec![DataRowRepr::unnamed("1", "int"), DataRowRepr::unnamed("", "nothing")]
    );
    let missing = vec![PathMember::String { val: "x".to_string(), optional: false }];
    assert_eq!(is_table(&data, &missing), None);
    assert_eq!(repr_data(&Value::List(vec![]), &[]), vec![DataRowRepr::unnamed("[0 item]", "list")]);
}
