use nu_plugin_explore::config::Config;
use nu_plugin_explore::keys::repr_key;
use nu_plugin_explore::keys::{KeyCode, KeyEvent, KeyModifiers};
use nu_plugin_explore::value::Value;

fn string(s: &str) -> Value {
    Value::String(s.to_string())
}

fn record(fields: Vec<(&str, Value)>) -> Value {
    Value::Record(fields.into_iter().map(|(k, v)| (k.to_string(), v)).collect())
}

#[test]
fn keycode_representation() {
    for (key, modifiers, expected) in [
        (KeyCode::Char('x'), KeyModifiers::none(), "x"),
        (KeyCode::Char('x'), KeyModifiers::control(), "<c-x>"),
        (KeyCode::Left, KeyModifiers::none(), "←"),
        (KeyCode::Esc, KeyModifiers::none(), "<esc>"),
        (KeyCode::Enter, KeyModifiers::none(), "⏎"),
        (KeyCode::Home, KeyModifiers::none(), "??"),
    ] {
        assert_eq!(repr_key(&KeyEvent::new(key, modifiers)), expected);
    }
}

#[test]
fn parse_invalid_config() {
    assert_eq!(Config::from_value(&string("x")), Ok(Config::default()));
}

#[test]
fn parse_empty_config() {
    assert_eq!(Config::from_value(&Value::Record(vec![])), Ok(Config::default()));
}

#[test]
fn parse_config_with_invalid_field() {
    let value = record(vec![("x", Value::Nothing)]);
    let result = Config::from_value(&value);
    assert!(result.is_err());
    let error = result.err().unwrap();
    assert!(error.labels[0].text.contains("not a valid config field"));

    let value = record(vec![("colors", record(vec![("foo", Value::Nothing)]))]);
    let result = Config::from_value(&value);
    assert!(result.is_err());
    let error = result.err().unwrap();
    assert!(error.labels[0].text.contains("not a valid config field"));
}

#[test]
fn parse_config() {
    let value = record(vec![("show_cell_path", Value::Bool(true))]);
    assert_eq!(Config::from_value(&value), Ok(Config::default()));

    let value = record(vec![("show_cell_path", Value::Bool(false))]);
    let expected = Config { show_cell_path: false, ..Default::default() };
    assert_eq!(Config::from_value(&value), Ok(expected));

    let value = record(vec![(
        "keybindings",
        record(vec![("navigation", record(vec![("up", string("x"))]))]),
    )]);

    let mut expected = Config::default();
    expected.keybindings.navigation.up = KeyEvent::new(KeyCode::Char('x'), KeyModifiers::none());
    assert_eq!(Config::from_value(&value), Ok(expected));
}

#[test]
fn unknown_setting_is_named_in_the_error() {
    let error = Config::from_value(&record(vec![("x", Value::Nothing)])).err().unwrap();
    assert_eq!(error.msg, "invalid config");
    assert_eq!(error.labels[0].text, "`$.x` is not a valid config field");

    let error = Config::from_value(&record(vec![("colors", record(vec![("foo", Value::Nothing)]))]))
        .err()
        .unwrap();
    assert_eq!(error.labels[0].text, "`$.colors.foo` is not a valid config field");
}

#[test]
fn arrow_keys_for_navigation() {
    let value = record(vec![(
        "keybindings",
        record(vec![(
            "navigation",
            record(vec![
                ("left", string("left")),
                ("down", string("down")),
                ("up", string("up")),
                ("right", string("right")),
            ]),
        )]),
    )]);
    let mut expected = Config::default();
    expected.keybindings.navigation.left = KeyEvent::new(KeyCode::Left, KeyModifiers::none());
    expected.keybindings.navigation.down = KeyEvent::new(KeyCode::Down, KeyModifiers::none());
    expected.keybindings.navigation.up = KeyEvent::new(KeyCode::Up, KeyModifiers::none());
    expected.keybindings.navigation.right = KeyEvent::new(KeyCode::Right, KeyModifiers::none());
    assert_eq!(Config::from_value(&value), Ok(expected));
}

#[test]
fn margin_must_not_be_negative() {
    let error = Config::from_value(&record(vec![("margin", Value::Int(-1))])).err().unwrap();
    assert_eq!(error.labels[0].text, "`$.margin` should be a positive integer, found -1");

    let config = Config::from_value(&record(vec![("margin", Value::Int(3))])).unwrap();
    assert_eq!(config.margin, 3);
}

#[test]
fn sections_must_be_records() {
    let error = Config::from_value(&record(vec![("colors", Value::Int(1))])).err().unwrap();
    assert_eq!(error.labels[0].text, "`$.colors` should be a record, found int");

    let error = Config::from_value(&record(vec![(
        "keybindings",
        record(vec![("peeking", Value::Bool(true))]),
    )]))
    .err()
    .unwrap();
    assert_eq!(error.labels[0].text, "`$.keybindings.peeking` should be a record, found bool");
}

#[test]
fn nested_colors_and_settings() {
    let value = record(vec![
        ("layout", string("compact")),
        ("number", Value::Bool(true)),
        (
            "colors",
            record(vec![
                ("selected_symbol", string(">")),
                ("selected_modifier", string("italic")),
                ("status_bar", record(vec![("insert", record(vec![("background", string("red"))]))])),
                ("line_numbers", record(vec![("selected", record(vec![("foreground", Value::Int(7))]))])),
            ]),
        ),
    ]);
    let config = Config::from_value(&value).unwrap();
    let default = Config::default();
    assert_eq!(config.layout, nu_plugin_explore::config::Layout::Compact);
    assert!(config.number);
    assert_eq!(config.colors.selected_symbol, ">");
    assert_eq!(config.colors.selected_modifier, nu_plugin_explore::style::Modifier::italic());
    assert_eq!(config.colors.status_bar.insert.background, nu_plugin_explore::style::Color::Red);
    assert_eq!(config.colors.status_bar.insert.foreground, default.colors.status_bar.insert.foreground);
    assert_eq!(
        config.colors.line_numbers.selected.foreground,
        nu_plugin_explore::style::Color::Rgb(7, 7, 7)
    );
}

#[test]
fn transpose_key_replaces_the_default() {
    let value = record(vec![("keybindings", record(vec![("transpose", string("x"))]))]);
    let mut expected = Config::default();
    expected.keybindings.transpose = KeyEvent::new(KeyCode::Char('x'), KeyModifiers::none());
    assert_eq!(Config::from_value(&value), Ok(expected));
}

#[test]
fn quit_key_replaces_the_default() {
    let value = record(vec![("keybindings", record(vec![("quit", string("<c-q>"))]))]);
    let mut expected = Config::default();
    expected.keybindings.quit = KeyEvent::new(KeyCode::Char('q'), KeyModifiers::control());
    assert_eq!(Config::from_value(&value), Ok(expected));
}

#[test]
fn bool_setting_replaces_the_default() {
    let value = record(vec![("strict_tables", Value::Bool(true))]);
    let mut expected = Config::default();
    expected.strict_tables = true;
    assert_eq!(Config::from_value(&value), Ok(expected));
    let value = record(vec![("show_hints", Value::Bool(false))]);
    let mut expected = Config::default();
    expected.show_hints = false;
    assert_eq!(Config::from_value(&value), Ok(expected));
}

fn fg_bg(background: &str, foreground: &str) -> Value {
    record(vec![("background", string(background)), ("foreground", string(foreground))])
}

fn default_config_value() -> Value {
    record(vec![
        ("show_cell_path", Value::Bool(true)),
        ("show_table_header", Value::Bool(true)),
        ("layout", string("table")),
        ("margin", Value::Int(10)),
        ("number", Value::Bool(false)),
        ("relativenumber", Value::Bool(false)),
        ("show_hints", Value::Bool(true)),
        ("strict_tables", Value::Bool(false)),
        (
            "colors",
            record(vec![
                (
                    "normal",
                    record(vec![
                        ("name", fg_bg("reset", "green")),
                        ("data", fg_bg("reset", "white")),
                        ("shape", fg_bg("reset", "blue")),
                    ]),
                ),
                ("selected", fg_bg("white", "black")),
                ("selected_modifier", string("bold")),
                ("selected_symbol", string("")),
                (
                    "status_bar",
                    record(vec![
                        ("normal", fg_bg("black", "white")),
                        ("insert", fg_bg("black", "lightyellow")),
                        ("peek", fg_bg("black", "lightgreen")),
                        ("bottom", fg_bg("black", "lightmagenta")),
                    ]),
                ),
                (
                    "editor",
                    record(vec![("frame", fg_bg("black", "lightcyan")), ("buffer", fg_bg("reset", "white"))]),
                ),
                ("warning", fg_bg("yellow", "red")),
                (
                    "line_numbers",
                    record(vec![("normal", fg_bg("reset", "white")), ("selected", fg_bg("white", "black"))]),
                ),
            ]),
        ),
        (
            "keybindings",
            record(vec![
                ("quit", string("q")),
                ("insert", string("i")),
                ("normal", string("escape")),
                (
                    "navigation",
                    record(vec![
                        ("left", string("h")),
                        ("down", string("j")),
                        ("up", string("k")),
                        ("right", string("l")),
                        ("half_page_down", string("<c-d>")),
                        ("half_page_up", string("<c-u>")),
                        ("goto_top", string("g")),
                        ("goto_bottom", string("G")),
                        ("goto_line", string("g")),
                    ]),
                ),
                ("peek", string("p")),
                (
                    "peeking",
                    record(vec![
                        ("all", string("a")),
                        ("cell_path", string("c")),
                        ("under", string("p")),
                        ("view", string("v")),
                    ]),
                ),
                ("transpose", string("t")),
            ]),
        ),
    ])
}

#[test]
fn same_as_default() {
    assert_eq!(Config::default(), Config::from_value(&default_config_value()).unwrap());
}
