use nu_plugin_explore::app::App;
use nu_plugin_explore::navigation::{go_back_in_data, go_deeper_in_data, go_up_or_down_in_data, Direction};
use nu_plugin_explore::value::{PathMember, Value};

fn record(fields: Vec<(&str, Value)>) -> Value {
    Value::Record(fields.into_iter().map(|(k, v)| (k.to_string(), v)).collect())
}

fn test_string_pathmember(val: &str) -> PathMember {
    PathMember::String { val: val.to_string(), optional: false }
}

fn test_int_pathmember(val: usize) -> PathMember {
    PathMember::Int { val, optional: false }
}

#[test]
fn go_up_and_down_in_list() {
    let value = Value::List(vec![Value::Nothing, Value::Nothing, Value::Nothing]);
    let mut app = App::from_value(value);

    let sequence = vec![
        (Direction::Down(1), 1),
        (Direction::Down(1), 2),
        (Direction::Down(1), 2),
        (Direction::Up(1), 1),
        (Direction::Up(1), 0),
        (Direction::Up(1), 0),
        (Direction::Top, 0),
        (Direction::Bottom, 2),
        (Direction::Bottom, 2),
        (Direction::Top, 0),
    ];
    for (direction, id) in sequence {
        go_up_or_down_in_data(&mut app, direction);
        let expected = vec![test_int_pathmember(id)];
        assert_eq!(app.position.members, expected);
    }
}

#[test]
fn go_up_and_down_in_record() {
    let value = record(vec![("a", Value::Nothing), ("b", Value::Nothing), ("c", Value::Nothing)]);
    let mut app = App::from_value(value);

    let sequence = vec![
        (Direction::Down(1), "b"),
        (Direction::Down(1), "c"),
        (Direction::Down(1), "c"),
        (Direction::Up(1), "b"),
        (Direction::Up(1), "a"),
        (Direction::Up(1), "a"),
        (Direction::Top, "a"),
        (Direction::Bottom, "c"),
        (Direction::Bottom, "c"),
        (Direction::Top, "a"),
    ];
    for (direction, id) in sequence {
        go_up_or_down_in_data(&mut app, direction);
        let expected = vec![test_string_pathmember(id)];
        assert_eq!(app.position.members, expected);
    }
}

#[test]
fn go_deeper() {
    let value = Value::List(vec![record(vec![("a", Value::List(vec![Value::Nothing]))])]);
    let mut app = App::from_value(value);

    let mut expected = vec![test_int_pathmember(0)];
    assert_eq!(app.position.members, expected);

    go_deeper_in_data(&mut app);
    expected.push(test_string_pathmember("a"));
    assert_eq!(app.position.members, expected);

    go_deeper_in_data(&mut app);
    expected.push(test_int_pathmember(0));
    assert_eq!(app.position.members, expected);
}

#[test]
fn hit_bottom() {
    let value = Value::Nothing;
    let mut app = App::from_value(value);

    assert!(!app.is_at_bottom());

    go_deeper_in_data(&mut app);
    assert!(app.is_at_bottom());
}

#[test]
fn go_back() {
    let value = Value::List(vec![record(vec![("a", Value::List(vec![Value::Nothing]))])]);
    let mut app = App::from_value(value);
    app.position.members = vec![test_int_pathmember(0), test_string_pathmember("a"), test_int_pathmember(0)];
    app.hit_bottom();

    let mut expected = app.position.members.clone();

    go_back_in_data(&mut app);
    assert_eq!(app.position.members, expected);

    go_back_in_data(&mut app);
    expected.pop();
    assert_eq!(app.position.members, expected);

    go_back_in_data(&mut app);
    expected.pop();
    assert_eq!(app.position.members, expected);

    go_back_in_data(&mut app);
    assert_eq!(app.position.members, expected);
}

#[test]
fn back_after_deeper_returns() {
    let value = record(vec![("a", record(vec![("b", Value::Int(1))])), ("c", Value::Nothing)]);
    let mut app = App::from_value(value);
    let before = app.position.members.clone();
    go_deeper_in_data(&mut app);
    assert_eq!(app.position.members.len(), 2);
    go_back_in_data(&mut app);
    assert_eq!(app.position.members, before);
}

#[test]
fn going_to_a_line() {
    let mut app = App::from_value(Value::List(vec![Value::Nothing; 5]));
    go_up_or_down_in_data(&mut app, Direction::At(3));
    assert_eq!(app.position.members, vec![test_int_pathmember(3)]);
    go_up_or_down_in_data(&mut app, Direction::At(30));
    assert_eq!(app.position.members, vec![test_int_pathmember(4)]);
}
