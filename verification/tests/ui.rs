use nu_plugin_explore::app::{App, Mode};
use nu_plugin_explore::config::Config;
use nu_plugin_explore::navigation::{go_deeper_in_data, go_up_or_down_in_data, Direction};
use nu_plugin_explore::ui::{
    cell_path_line, error_line, mode_label, render_target, repr_data, repr_list, repr_record,
    repr_simple_value, repr_table, status_hints, DataRowRepr,
};
use nu_plugin_explore::value::Value;

fn string(s: &str) -> Value {
    Value::String(s.to_string())
}

fn record(fields: Vec<(&str, Value)>) -> Value {
    Value::Record(fields.into_iter().map(|(k, v)| (k.to_string(), v)).collect())
}

#[test]
fn ui_simple_value() {
    let cases = vec![
        (string("foo"), DataRowRepr::unnamed("foo", "string")),
        (Value::Int(1), DataRowRepr::unnamed("1", "int")),
        (Value::Bool(true), DataRowRepr::unnamed("true", "bool")),
        (Value::Nothing, DataRowRepr::unnamed("", "nothing")),
        (string("foo"), DataRowRepr::unnamed("foo", "string")),
    ];

    for (value, expected) in cases {
        assert_eq!(repr_simple_value(&value), expected);
    }
}

#[test]
fn ui_list() {
    let list = vec![string("a"), Value::Int(1), Value::Bool(false)];

    let cases = vec![
        (list, DataRowRepr::unnamed("[3 items]", "list")),
        (vec![], DataRowRepr::unnamed("[]", "list")),
        (vec![Value::Nothing], DataRowRepr::unnamed("[1 item]", "list")),
    ];

    for (list, expected) in cases {
        assert_eq!(repr_list(&list), expected);
    }
}

#[test]
fn ui_record() {
    let cases = vec![
        (vec!["a", "b", "c"], DataRowRepr::unnamed("{3 fields}", "record")),
        (vec![], DataRowRepr::unnamed("{}", "record")),
        (vec!["a"], DataRowRepr::unnamed("{1 field}", "record")),
    ];

    for (rec, expected) in cases {
        assert_eq!(repr_record(&rec.iter().map(|x| x.to_string()).collect::<Vec<String>>()), expected);
    }
}

#[test]
fn ui_data() {
    let data = record(vec![
        ("l", Value::List(vec![string("my"), string("list"), string("elements")])),
        ("r", record(vec![("a", Value::Int(1)), ("b", Value::Int(2))])),
        ("s", string("some string")),
        ("i", Value::Int(123)),
    ]);

    let result = repr_data(&data);
    let expected: Vec<DataRowRepr> = vec![
        DataRowRepr::named("l", "[3 items]", "list"),
        DataRowRepr::named("r", "{2 fields}", "record"),
        DataRowRepr::named("s", "some string", "string"),
        DataRowRepr::named("i", "123", "int"),
    ];
    assert_eq!(result, expected);
}

#[test]
fn table() {
    let table = vec![
        record(vec![("a", string("x")), ("b", Value::Int(1))]),
        record(vec![("a", string("y")), ("b", Value::Int(2))]),
    ];

    let expected = (
        vec!["a".to_string(), "b".to_string()],
        vec!["string".to_string(), "int".to_string()],
        vec![vec!["x".to_string(), "1".to_string()], vec!["y".to_string(), "2".to_string()]],
    );

    assert_eq!(repr_table(&table), expected);
}

#[test]
fn special_strings_get_their_own_shape() {
    assert_eq!(repr_simple_value(&string("https://google.com")), DataRowRepr::unnamed("https://google.com", "url"));
    assert_eq!(repr_simple_value(&string("a/b")), DataRowRepr::unnamed("a/b", "path"));
    assert_eq!(repr_simple_value(&string("a/\nb")), DataRowRepr::unnamed("a/\nb", "string"));
}

#[test]
fn empty_data_has_one_row() {
    assert_eq!(repr_data(&Value::List(vec![])), vec![DataRowRepr::unnamed("[]", "list")]);
    assert_eq!(repr_data(&Value::Record(vec![])), vec![DataRowRepr::unnamed("{}", "record")]);
    assert_eq!(repr_data(&Value::Int(3)), vec![DataRowRepr::unnamed("3", "int")]);
}

#[test]
fn status_bar() {
    let config = Config::default();
    let k = &config.keybindings;
    assert_eq!(status_hints(Mode::Normal, k), "i to INSERT | hjkl to move around | p to peek | q to quit");
    assert_eq!(
        status_hints(Mode::Peeking, k),
        "<esc> to NORMAL | a to peek all | v to peek current view | p to peek under cursor | q to quit"
    );
    assert_eq!(status_hints(Mode::Bottom, k), "h to NORMAL | p to peek | q to quit");
    assert_eq!(status_hints(Mode::Insert, k), "<esc> to NORMAL");
    assert_eq!(status_hints(Mode::Waiting(4), k), "<esc> to NORMAL | jk to move 4 rows | g to go to line 4");
    assert_eq!(mode_label(Mode::Normal), " NORMAL ");
    assert_eq!(error_line("oops"), "Err: oops");
}

#[test]
fn cell_path_and_selected_row() {
    let data = record(vec![
        ("l", Value::List(vec![string("my"), string("list")])),
        ("r", record(vec![("a", Value::Int(1)), ("b", Value::Int(2))])),
    ]);
    let mut app = App::from_value(data.clone());
    assert_eq!(cell_path_line(&app.position), "cell path: $.l");
    assert_eq!(render_target(&app), Some((data.clone(), 0)));

    go_up_or_down_in_data(&mut app, Direction::Down(1));
    go_deeper_in_data(&mut app);
    go_up_or_down_in_data(&mut app, Direction::Down(1));
    assert_eq!(cell_path_line(&app.position), "cell path: $.r.b");
    assert_eq!(render_target(&app), Some((record(vec![("a", Value::Int(1)), ("b", Value::Int(2))]), 1)));
}
