use nu_plugin_explore::app::{App, Mode};
use nu_plugin_explore::cell_path::{to_path_member_vec, PM};
use nu_plugin_explore::cells::mutate_value_cell;
use nu_plugin_explore::config::Config;
use nu_plugin_explore::handler::TransitionResult;
use nu_plugin_explore::keys::{repr_key, KeyCode, KeyEvent, KeyModifiers};
use nu_plugin_explore::value::{CellPath, PathMember, Value};

fn string(s: &str) -> Value {
    Value::String(s.to_string())
}

fn record(fields: Vec<(&str, Value)>) -> Value {
    Value::Record(fields.into_iter().map(|(k, v)| (k.to_string(), v)).collect())
}

/// {
///     l: ["my", "list", "elements"],
///     r: {a: 1, b: 2},
///     s: "some string",
///     i: 123,
/// }
fn test_value() -> Value {
    record(vec![
        ("l", Value::List(vec![string("my"), string("list"), string("elements")])),
        ("r", record(vec![("a", Value::Int(1)), ("b", Value::Int(2))])),
        ("s", string("some string")),
        ("i", Value::Int(123)),
    ])
}

#[test]
fn switch_modes() {
    let mut app = App::from_value(string("foo"));
    let keybindings = app.config.clone().keybindings;

    assert!(app.mode == Mode::Normal);

    // INSERT -> PEEKING: not allowed
    // PEEKING -> INSERT: not allowed
    let transitions = vec![
        (keybindings.normal, Mode::Normal),
        (keybindings.insert, Mode::Insert),
        (keybindings.normal, Mode::Normal),
        (keybindings.peek, Mode::Peeking),
        (keybindings.normal, Mode::Normal),
    ];

    for (key, expected_mode) in transitions {
        let mode = app.mode;

        let result = app.handle_key_events(key, 0);

        assert!(
            !result.is_quit(),
            "unexpected exit after pressing {} in {}",
            repr_key(&key),
            mode.text(),
        );
        assert!(
            app.mode == expected_mode,
            "expected to be in {} after pressing {} in {}, found {}",
            expected_mode.text(),
            repr_key(&key),
            mode.text(),
            app.mode.text()
        );
    }
}

#[test]
fn quit() {
    let mut app = App::from_value(test_value());
    let keybindings = app.config.clone().keybindings;

    let transitions = vec![
        (keybindings.insert, false),
        (keybindings.quit, false),
        (keybindings.normal, false),
        (keybindings.quit, true),
        (keybindings.peek, false),
        (keybindings.quit, true),
    ];

    for (key, exit) in transitions {
        let mode = app.mode;

        // NOTE: yeah this is a bit clunky...
        if app.mode == Mode::Insert {
            app.editor.set_width(10);
        }

        let result = app.handle_key_events(key, 0);

        if exit {
            assert!(
                result.is_quit(),
                "expected to quit after pressing {} in {} mode",
                repr_key(&key),
                mode.text()
            );
        } else {
            assert!(
                !result.is_quit(),
                "expected NOT to quit after pressing {} in {} mode",
                repr_key(&key),
                mode.text()
            );
        }
    }
}

fn repr_path_member_vec(members: &[PathMember]) -> String {
    format!(
        "$.{}",
        members
            .iter()
            .map(|m| match m {
                PathMember::Int { val, .. } => val.to_string(),
                PathMember::String { val, .. } => val.to_string(),
            })
            .collect::<Vec<String>>()
            .join(".")
    )
}

#[test]
fn navigate_the_data() {
    let mut app = App::from_value(test_value());
    let nav = app.config.clone().keybindings.navigation;

    assert!(!app.is_at_bottom());
    assert_eq!(app.position.members, to_path_member_vec(&[PM::S("l")]));

    let transitions = vec![
        (nav.up, vec![PM::S("l")], false),
        (nav.down, vec![PM::S("r")], false),
        (nav.left, vec![PM::S("r")], false),
        (nav.right, vec![PM::S("r"), PM::S("a")], false),
        (nav.right, vec![PM::S("r"), PM::S("a")], true),
        (nav.up, vec![PM::S("r"), PM::S("a")], true),
        (nav.down, vec![PM::S("r"), PM::S("a")], true),
        (nav.left, vec![PM::S("r"), PM::S("a")], false),
        (nav.down, vec![PM::S("r"), PM::S("b")], false),
        (nav.right, vec![PM::S("r"), PM::S("b")], true),
        (nav.up, vec![PM::S("r"), PM::S("b")], true),
        (nav.down, vec![PM::S("r"), PM::S("b")], true),
        (nav.left, vec![PM::S("r"), PM::S("b")], false),
        (nav.up, vec![PM::S("r"), PM::S("a")], false),
        (nav.up, vec![PM::S("r"), PM::S("a")], false),
        (nav.left, vec![PM::S("r")], false),
        (nav.down, vec![PM::S("s")], false),
        (nav.left, vec![PM::S("s")], false),
        (nav.right, vec![PM::S("s")], true),
        (nav.up, vec![PM::S("s")], true),
        (nav.down, vec![PM::S("s")], true),
        (nav.left, vec![PM::S("s")], false),
        (nav.down, vec![PM::S("i")], false),
        (nav.left, vec![PM::S("i")], false),
        (nav.right, vec![PM::S("i")], true),
        (nav.up, vec![PM::S("i")], true),
        (nav.down, vec![PM::S("i")], true),
        (nav.left, vec![PM::S("i")], false),
        (nav.up, vec![PM::S("s")], false),
        (nav.up, vec![PM::S("r")], false),
        (nav.up, vec![PM::S("l")], false),
        (nav.left, vec![PM::S("l")], false),
        (nav.right, vec![PM::S("l"), PM::I(0)], false),
        (nav.right, vec![PM::S("l"), PM::I(0)], true),
        (nav.up, vec![PM::S("l"), PM::I(0)], true),
        (nav.down, vec![PM::S("l"), PM::I(0)], true),
        (nav.left, vec![PM::S("l"), PM::I(0)], false),
        (nav.down, vec![PM::S("l"), PM::I(1)], false),
        (nav.right, vec![PM::S("l"), PM::I(1)], true),
        (nav.up, vec![PM::S("l"), PM::I(1)], true),
        (nav.down, vec![PM::S("l"), PM::I(1)], true),
        (nav.left, vec![PM::S("l"), PM::I(1)], false),
        (nav.down, vec![PM::S("l"), PM::I(2)], false),
        (nav.right, vec![PM::S("l"), PM::I(2)], true),
        (nav.up, vec![PM::S("l"), PM::I(2)], true),
        (nav.down, vec![PM::S("l"), PM::I(2)], true),
        (nav.left, vec![PM::S("l"), PM::I(2)], false),
        (nav.up, vec![PM::S("l"), PM::I(1)], false),
        (nav.up, vec![PM::S("l"), PM::I(0)], false),
        (nav.up, vec![PM::S("l"), PM::I(0)], false),
        (nav.left, vec![PM::S("l")], false),
    ];

    for (key, cell_path, bottom) in transitions {
        let expected = to_path_member_vec(&cell_path);
        app.handle_key_events(key, 0);

        if bottom {
            assert!(app.is_at_bottom(), "expected to be at the bottom after pressing {}", repr_key(&key));
        } else {
            assert!(!app.is_at_bottom(), "expected NOT to be at the bottom after pressing {}", repr_key(&key));
        }
        assert_eq!(
            app.position.members,
            expected,
            "expected to be at {:?}, found {:?}",
            repr_path_member_vec(&expected),
            repr_path_member_vec(&app.position.members)
        );
    }
}

fn run_peeking_scenario(transitions: Vec<(KeyEvent, bool, Option<Value>)>, config: Config, value: Value) {
    let mut app = App::from_value(value).with_config(config);

    for (key, exit, expected) in transitions {
        let mode = app.mode;

        let result = app.handle_key_events(key, 0);

        if exit {
            assert!(
                result.is_quit(),
                "expected to peek some data after pressing {} in {} mode",
                repr_key(&key),
                mode.text()
            );
        } else {
            assert!(
                !result.is_quit(),
                "expected NOT to peek some data after pressing {} in {} mode",
                repr_key(&key),
                mode.text()
            );
        }

        match expected {
            Some(value) => match result {
                TransitionResult::Return(val) => {
                    assert_eq!(value, val, "unexpected data after pressing {} in {} mode", repr_key(&key), mode.text())
                }
                _ => panic!("did expect output data after pressing {} in {} mode", repr_key(&key), mode.text()),
            },
            None => {
                if let TransitionResult::Return(_) = result {
                    panic!("did NOT expect output data after pressing {} in {} mode", repr_key(&key), mode.text())
                }
            }
        }
    }
}

#[test]
fn peek_data() {
    let config = Config::default();
    let keybindings = config.clone().keybindings;

    let value = test_value();

    let peek_all_from_top = vec![(keybindings.peek, false, None), (keybindings.peeking.all, true, Some(value.clone()))];
    run_peeking_scenario(peek_all_from_top, config.clone(), value.clone());

    let peek_current_from_top =
        vec![(keybindings.peek, false, None), (keybindings.peeking.view, true, Some(value.clone()))];
    run_peeking_scenario(peek_current_from_top, config.clone(), value.clone());

    let go_in_the_data_and_peek_all_and_current = vec![
        (keybindings.navigation.down, false, None),
        (keybindings.navigation.right, false, None), // on {r: {a: 1, b: 2}}
        (keybindings.peek, false, None),
        (keybindings.peeking.all, true, Some(value.clone())),
        (keybindings.peeking.view, true, Some(record(vec![("a", Value::Int(1)), ("b", Value::Int(2))]))),
    ];
    run_peeking_scenario(go_in_the_data_and_peek_all_and_current, config.clone(), value.clone());

    let go_in_the_data_and_peek_under = vec![
        (keybindings.navigation.down, false, None),
        (keybindings.navigation.right, false, None), // on {r: {a: 1, b: 2}}
        (keybindings.peek, false, None),
        (keybindings.peeking.all, true, Some(value.clone())),
        (keybindings.peeking.under, true, Some(Value::Int(1))),
    ];
    run_peeking_scenario(go_in_the_data_and_peek_under, config.clone(), value.clone());

    let go_in_the_data_and_peek_cell_path = vec![
        (keybindings.navigation.down, false, None),  // on {r: {a: 1, b: 2}}
        (keybindings.navigation.right, false, None), // on {a: 1}
        (keybindings.peek, false, None),
        (
            keybindings.peeking.cell_path,
            true,
            Some(Value::CellPath(CellPath {
                members: vec![
                    PathMember::String { val: "r".into(), optional: false },
                    PathMember::String { val: "a".into(), optional: false },
                ],
            })),
        ),
    ];
    run_peeking_scenario(go_in_the_data_and_peek_cell_path, config.clone(), value.clone());

    let peek_at_the_bottom = vec![
        (keybindings.navigation.right, false, None), // on l: ["my", "list", "elements"],
        (keybindings.navigation.right, false, None), // on "my"
        (keybindings.peek, true, Some(string("my"))),
    ];
    run_peeking_scenario(peek_at_the_bottom, config.clone(), value);
}

#[test]
fn transpose_the_data() {
    let mut app = App::from_value(record(vec![("a", Value::Int(1)), ("b", Value::Int(2)), ("c", Value::Int(3))]));
    let kmap = app.config.clone().keybindings;

    assert!(!app.is_at_bottom());
    assert_eq!(app.position.members, to_path_member_vec(&[PM::S("a")]));

    let transitions = vec![
        (kmap.navigation.down, vec![PM::S("b")]),
        (kmap.transpose, vec![PM::I(0)]),
        (kmap.navigation.down, vec![PM::I(1)]),
        (kmap.transpose, vec![PM::S("a")]),
    ];

    for (key, cell_path) in transitions {
        let expected = to_path_member_vec(&cell_path);
        if let TransitionResult::Mutate(cell, path) = app.handle_key_events(key, 0) {
            app.value = mutate_value_cell(&app.value, &path, &cell).unwrap()
        }

        assert!(!app.is_at_bottom(), "expected NOT to be at the bottom after pressing {}", repr_key(&key));

        assert_eq!(
            app.position.members,
            expected,
            "expected to be at {:?}, found {:?}",
            repr_path_member_vec(&expected),
            repr_path_member_vec(&app.position.members)
        );
    }
}

#[test]
fn counts_and_goto_line() {
    let mut app = App::from_value(Value::List((0..10).map(Value::Int).collect()));
    let kmap = app.config.clone().keybindings;
    let press = |c: char| KeyEvent::new(KeyCode::Char(c), KeyModifiers::none());

    app.handle_key_events(press('1'), 0);
    app.handle_key_events(press('2'), 0);
    assert!(app.mode == Mode::Waiting(12));
    app.handle_key_events(kmap.navigation.down, 0);
    assert!(app.mode == Mode::Normal);
    assert_eq!(app.position.members, to_path_member_vec(&[PM::I(9)]));

    app.handle_key_events(press('4'), 0);
    app.handle_key_events(kmap.navigation.goto_line, 0);
    assert_eq!(app.position.members, to_path_member_vec(&[PM::I(3)]));

    app.handle_key_events(kmap.navigation.half_page_up, 2);
    assert_eq!(app.position.members, to_path_member_vec(&[PM::I(1)]));
}

#[test]
fn keys_never_change_the_data() {
    let mut app = App::from_value(test_value());
    let kmap = app.config.clone().keybindings;
    for key in [kmap.navigation.down, kmap.navigation.right, kmap.transpose, kmap.navigation.left, kmap.insert] {
        if app.handles_safely(&key) {
            app.handle_key_events(key, 0);
        }
        assert_eq!(app.value, test_value());
    }
}

#[test]
fn submitting_an_edit() {
    let mut app = App::from_value(test_value());
    let kmap = app.config.clone().keybindings;
    match app.handle_key_events(kmap.insert, 0) {
        TransitionResult::Edit(v) => assert_eq!(v, Value::List(vec![string("my"), string("list"), string("elements")])),
        _ => panic!("expected to edit the cell under the cursor"),
    }
    assert!(app.mode == Mode::Insert);

    let result = app.submit_edit(Err("bad input".to_string()));
    assert_eq!(result, TransitionResult::Error("could not convert back from NUON: bad input".to_string()));
    assert!(app.mode == Mode::Insert);

    let result = app.submit_edit(Ok(Value::Int(7)));
    assert_eq!(result, TransitionResult::Mutate(Value::Int(7), CellPath { members: to_path_member_vec(&[PM::S("l")]) }));
    assert!(app.mode == Mode::Normal);

    if let TransitionResult::Mutate(cell, path) = result {
        assert!(app.apply_mutation(&cell, &path));
    }
    assert_eq!(
        app.value,
        record(vec![
            ("l", Value::Int(7)),
            ("r", record(vec![("a", Value::Int(1)), ("b", Value::Int(2))])),
            ("s", string("some string")),
            ("i", Value::Int(123)),
        ])
    );
}
