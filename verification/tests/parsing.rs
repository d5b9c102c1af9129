use nu_plugin_explore::config::{BgFgColorConfig, Layout};
use nu_plugin_explore::keys::{repr_key, KeyCode, KeyEvent, KeyModifiers};
use nu_plugin_explore::parsing::{
    follow_cell_path, invalid_field, invalid_type, positive_integer, try_bool, try_color,
    try_fg_bg_colors, try_int, try_key, try_layout, try_modifier, try_string, LabeledError,
};
use nu_plugin_explore::style::{Color, Modifier};
use nu_plugin_explore::value::Value;

fn string(s: &str) -> Value {
    Value::String(s.to_string())
}

fn record(fields: Vec<(&str, Value)>) -> Value {
    Value::Record(fields.into_iter().map(|(k, v)| (k.to_string(), v)).collect())
}

fn test_tried_error<T>(result: Result<Option<T>, LabeledError>, cell_path: &str, expected: &str) {
    assert!(result.is_err());
    let err = match result {
        Err(e) => e,
        Ok(_) => unreachable!(),
    };
    assert_eq!(err.labels.len(), 1);
    assert_eq!(err.msg, "invalid config");
    assert_eq!(err.labels[0].text, format!("`$.{}` {}", cell_path, expected));
}

#[test]
fn follow_str_cell_path() {
    let inner_record_a = Value::Int(1);
    let inner_record_b = Value::Int(2);
    let rec = record(vec![("a", inner_record_a.clone()), ("b", inner_record_b.clone())]);
    let s = string("some string");
    let int = Value::Int(123);

    let value = record(vec![("r", rec.clone()), ("s", s.clone()), ("i", int.clone())]);

    assert_eq!(follow_cell_path(&value, &[]), Some(value.clone()));
    assert_eq!(follow_cell_path(&value, &["r"]), Some(rec));
    assert_eq!(follow_cell_path(&value, &["s"]), Some(s));
    assert_eq!(follow_cell_path(&value, &["i"]), Some(int));
    assert_eq!(follow_cell_path(&value, &["x"]), None);
    assert_eq!(follow_cell_path(&value, &["r", "a"]), Some(inner_record_a));
    assert_eq!(follow_cell_path(&value, &["r", "b"]), Some(inner_record_b));
    assert_eq!(follow_cell_path(&value, &["r", "x"]), None);
}

#[test]
fn trying_bool() {
    test_tried_error(try_bool(&string("not a bool"), &[]), "", "should be a bool, found string");
    test_tried_error(try_bool(&Value::Int(123), &[]), "", "should be a bool, found int");

    assert_eq!(try_bool(&Value::Bool(true), &[]), Ok(Some(true)));
    assert_eq!(try_bool(&Value::Bool(false), &[]), Ok(Some(false)));
    assert_eq!(try_bool(&Value::Nothing, &["x"]), Ok(None));
}

#[test]
fn trying_string() {
    test_tried_error(try_string(&Value::Bool(true), &[]), "", "should be a string, found bool");
    test_tried_error(try_string(&Value::Int(123), &[]), "", "should be a string, found int");

    assert_eq!(try_string(&string("my string"), &[]), Ok(Some("my string".to_string())));
    assert_eq!(try_string(&string("my string"), &["x"]), Ok(None));
}

#[test]
fn trying_int() {
    test_tried_error(try_int(&Value::Bool(true), &[]), "", "should be a int, found bool");
    test_tried_error(try_int(&string("my string"), &[]), "", "should be a int, found string");

    assert_eq!(try_int(&Value::Int(123), &[]), Ok(Some(123)));
    assert_eq!(try_int(&Value::Int(-123), &[]), Ok(Some(-123)));
    assert_eq!(try_int(&Value::Int(123), &["x"]), Ok(None));
}

#[test]
fn trying_key() {
    test_tried_error(try_key(&Value::Bool(true), &[]), "", "should be a string, found bool");
    test_tried_error(try_key(&Value::Int(123), &[]), "", "should be a string, found int");
    test_tried_error(
        try_key(&string("enter"), &[]),
        "",
        "should be a character, possibly inside '<c-...>' or '<C-...>', or one of [up, down, left, right, escape] , found enter",
    );

    let cases = vec![
        ("up", KeyEvent::new(KeyCode::Up, KeyModifiers::none())),
        ("down", KeyEvent::new(KeyCode::Down, KeyModifiers::none())),
        ("left", KeyEvent::new(KeyCode::Left, KeyModifiers::none())),
        ("right", KeyEvent::new(KeyCode::Right, KeyModifiers::none())),
        ("escape", KeyEvent::new(KeyCode::Esc, KeyModifiers::none())),
        ("a", KeyEvent::new(KeyCode::Char('a'), KeyModifiers::none())),
        ("b", KeyEvent::new(KeyCode::Char('b'), KeyModifiers::none())),
        ("x", KeyEvent::new(KeyCode::Char('x'), KeyModifiers::none())),
        ("x", KeyEvent::new(KeyCode::Char('x'), KeyModifiers::none())),
        ("<C-x>", KeyEvent::new(KeyCode::Char('x'), KeyModifiers::control())),
    ];

    for (input, expected) in cases {
        assert_eq!(try_key(&string(input), &[]), Ok(Some(expected)));
    }
}

#[test]
fn trying_layout() {
    test_tried_error(try_layout(&Value::Bool(true), &[]), "", "should be a string, found bool");
    test_tried_error(try_layout(&Value::Int(123), &[]), "", "should be a string, found int");
    test_tried_error(
        try_layout(&string("collapsed"), &[]),
        "",
        "should be one of [table, compact] , found collapsed",
    );

    let cases = vec![("table", Layout::Table), ("compact", Layout::Compact)];

    for (input, expected) in cases {
        assert_eq!(try_layout(&string(input), &[]), Ok(Some(expected)));
    }
}

#[test]
fn trying_modifier() {
    test_tried_error(try_modifier(&Value::Bool(true), &[]), "", "should be a string or null, found bool");
    test_tried_error(try_modifier(&Value::Int(123), &[]), "", "should be a string or null, found int");
    test_tried_error(
        try_modifier(&string("x"), &[]),
        "",
        "should be the empty string, one of [italic, bold, underline, blink] or null, found x",
    );

    assert_eq!(try_modifier(&Value::Nothing, &[]), Ok(Some(Modifier::empty())));

    let cases = vec![
        ("", Modifier::empty()),
        ("italic", Modifier::italic()),
        ("bold", Modifier::bold()),
        ("underline", Modifier::underlined()),
        ("blink", Modifier::slow_blink()),
    ];

    for (input, expected) in cases {
        assert_eq!(try_modifier(&string(input), &[]), Ok(Some(expected)));
    }
}

#[test]
fn trying_color() {
    test_tried_error(
        try_color(&Value::Bool(true), &[]),
        "",
        "should be a string, u8 or [u8, u8, u8], found bool",
    );
    test_tried_error(
        try_color(&Value::Int(-1), &[]),
        "",
        "should be an integer between 0 and 255, found -1",
    );
    test_tried_error(
        try_color(&Value::Int(256), &[]),
        "",
        "should be an integer between 0 and 255, found 256",
    );
    test_tried_error(
        try_color(&Value::List(vec![]), &[]),
        "",
        "is not a valid config field, expected a list of three u8, found 0 items",
    );
    test_tried_error(
        try_color(&Value::List(vec![Value::Int(1)]), &[]),
        "",
        "is not a valid config field, expected a list of three u8, found 1 items",
    );
    test_tried_error(
        try_color(&Value::List(vec![Value::Int(1), Value::Int(2)]), &[]),
        "",
        "is not a valid config field, expected a list of three u8, found 2 items",
    );
    test_tried_error(
        try_color(&string("x"), &[]),
        "",
        "should be a u8, a list of three u8s or one of [black, red, green, yellow, blue, magenta, cyan, gray, darkgray, lightred, lightgreen, lightyellow, lightblue, lightmagenta, lightcyan, white] , found x",
    );

    let cases = vec![
        (string("black"), Color::Black),
        (string("red"), Color::Red),
        (string("green"), Color::Green),
        (string("blue"), Color::Blue),
        (Value::Int(123), Color::Rgb(123, 123, 123)),
        (Value::List(vec![Value::Int(1), Value::Int(2), Value::Int(3)]), Color::Rgb(1, 2, 3)),
    ];

    for (input, expected) in cases {
        assert_eq!(try_color(&input, &[]), Ok(Some(expected)));
    }
}

#[test]
fn trying_fg_bg_colors() {
    let default_color = BgFgColorConfig { background: Color::Reset, foreground: Color::Reset };

    test_tried_error(
        try_fg_bg_colors(&Value::Bool(true), &[], &default_color),
        "",
        "should be a record, found bool",
    );
    test_tried_error(
        try_fg_bg_colors(&Value::Int(123), &[], &default_color),
        "",
        "should be a record, found int",
    );
    test_tried_error(
        try_fg_bg_colors(&string("x"), &[], &default_color),
        "",
        "should be a record, found string",
    );
    test_tried_error(
        try_fg_bg_colors(&record(vec![("x", Value::Nothing)]), &[], &default_color),
        "x",
        "is not a valid config field",
    );

    let cases = vec![
        (vec![], vec![], default_color.clone()),
        (
            vec!["foreground"],
            vec![string("green")],
            BgFgColorConfig { foreground: Color::Green, background: Color::Reset },
        ),
        (
            vec!["background"],
            vec![string("blue")],
            BgFgColorConfig { foreground: Color::Reset, background: Color::Blue },
        ),
        (
            vec!["foreground", "background"],
            vec![string("green"), string("blue")],
            BgFgColorConfig { foreground: Color::Green, background: Color::Blue },
        ),
    ];

    for (cols, vals, expected) in cases {
        let rec = record(cols.into_iter().zip(vals).collect());
        assert_eq!(try_fg_bg_colors(&rec, &[], &default_color), Ok(Some(expected)));
    }
}

#[test]
fn color_channel_errors_name_the_channel() {
    test_tried_error(
        try_color(&record(vec![("c", Value::List(vec![Value::Int(1), Value::Int(300), Value::Int(3)]))]), &["c"]),
        "c.1",
        "should be an integer between 0 and 255, found 300",
    );
    test_tried_error(
        try_color(&record(vec![("c", Value::List(vec![Value::Int(1), Value::Int(2), string("x")]))]), &["c"]),
        "c.2",
        "should be a u8, found string",
    );
}

#[test]
fn error_helpers() {
    let e = invalid_field(&["colors", "foo"]);
    assert_eq!(e.msg, "invalid config");
    assert_eq!(e.labels[0].text, "`$.colors.foo` is not a valid config field");
    let e = invalid_type(&Value::Int(1), &["layout"], "string");
    assert_eq!(e.labels[0].text, "`$.layout` should be a string, found int");
    let e = positive_integer(-3, &["margin"]);
    assert_eq!(e.labels[0].text, "`$.margin` should be a positive integer, found -3");
}

#[test]
fn key_written_as_a_character_is_shown_as_written() {
    for input in ["x", "<c-x>", "G"] {
        let key = try_key(&string(input), &[]).unwrap().unwrap();
        assert_eq!(repr_key(&key), input);
    }
    let key = try_key(&string("<C-x>"), &[]).unwrap().unwrap();
    assert_eq!(repr_key(&key), "<c-x>");
    test_tried_error(
        try_key(&string("é"), &[]),
        "",
        "should be a character, possibly inside '<c-...>' or '<C-...>', or one of [up, down, left, right, escape] , found é",
    );
}
