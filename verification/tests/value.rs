use nu_plugin_explore::cell_path::{to_path_member_vec, PM};
use nu_plugin_explore::cells::{can_mutate, mutate_value_cell};
use nu_plugin_explore::table::{is_table, transpose, Table};
use nu_plugin_explore::types::Type;
use nu_plugin_explore::value::{follow_cell_path, CellPath, Value};

fn string(s: &str) -> Value {
    Value::String(s.to_string())
}

fn record(fields: Vec<(&str, Value)>) -> Value {
    Value::Record(fields.into_iter().map(|(k, v)| (k.to_string(), v)).collect())
}

fn default_value_repr(value: &Value) -> String {
    value.into_string(" ")
}

#[test]
fn value_mutation() {
    let list = Value::List(vec![Value::Int(1), Value::Int(2), Value::Int(3)]);
    let rec = record(vec![("a", Value::Int(1)), ("b", Value::Int(2)), ("c", Value::Int(3))]);

    let cases = vec![
        // simple value -> simple value
        (string("foo"), vec![], string("bar"), Some(string("bar"))),
        // list -> simple value
        (list.clone(), vec![], Value::Nothing, Some(Value::Nothing)),
        // record -> simple value
        (rec.clone(), vec![], Value::Nothing, Some(Value::Nothing)),
        // mutate a list element with simple value
        (
            list.clone(),
            vec![PM::I(0)],
            Value::Int(0),
            Some(Value::List(vec![Value::Int(0), Value::Int(2), Value::Int(3)])),
        ),
        // mutate a list element with complex value
        (
            list.clone(),
            vec![PM::I(1)],
            rec.clone(),
            Some(Value::List(vec![Value::Int(1), rec.clone(), Value::Int(3)])),
        ),
        // invalid list index
        (list.clone(), vec![PM::I(5)], Value::Int(0), None),
        // mutate a record field with a simple value
        (
            rec.clone(),
            vec![PM::S("a")],
            Value::Nothing,
            Some(record(vec![("a", Value::Nothing), ("b", Value::Int(2)), ("c", Value::Int(3))])),
        ),
        // mutate a record field with a complex value
        (
            rec.clone(),
            vec![PM::S("c")],
            list.clone(),
            Some(record(vec![("a", Value::Int(1)), ("b", Value::Int(2)), ("c", list.clone())])),
        ),
        // mutate a deeply-nested list element
        (
            Value::List(vec![Value::List(vec![Value::List(vec![string("foo")])])]),
            vec![PM::I(0), PM::I(0), PM::I(0)],
            string("bar"),
            Some(Value::List(vec![Value::List(vec![Value::List(vec![string("bar")])])])),
        ),
        // mutate a deeply-nested record field
        (
            record(vec![("a", record(vec![("b", record(vec![("c", string("foo"))]))]))]),
            vec![PM::S("a"), PM::S("b"), PM::S("c")],
            string("bar"),
            Some(record(vec![("a", record(vec![("b", record(vec![("c", string("bar"))]))]))])),
        ),
        // try to mutate bad cell path
        (
            record(vec![("a", record(vec![("b", record(vec![("c", string("foo"))]))]))]),
            vec![PM::S("a"), PM::I(0), PM::S("c")],
            string("bar"),
            None,
        ),
    ];

    for (value, members, cell, expected) in cases {
        let cell_path = CellPath { members: to_path_member_vec(&members) };

        assert!(can_mutate(&value, &cell_path));
        let result = mutate_value_cell(&value, &cell_path, &cell);
        assert_eq!(
            result,
            expected,
            "mutating {} at {:?} with {} should give {}, found {}",
            default_value_repr(&value),
            PM::as_cell_path(&members),
            default_value_repr(&cell),
            default_value_repr(&match expected.clone() {
                Some(v) => v,
                None => Value::Nothing,
            }),
            default_value_repr(&match result.clone() {
                Some(v) => v,
                None => Value::Nothing,
            }),
        );
    }
}

#[test]
fn value_is_a_table() {
    let simple_table = Value::List(vec![
        record(vec![("a", string("foo")), ("b", Value::Int(1))]),
        record(vec![("a", string("bar")), ("b", Value::Int(2))]),
    ]);
    let table_with_out_of_order_columns = Value::List(vec![
        record(vec![("b", Value::Int(1)), ("a", string("foo"))]),
        record(vec![("a", string("bar")), ("b", Value::Int(2))]),
    ]);
    let table_with_nulls = Value::List(vec![
        record(vec![("a", Value::Nothing), ("b", Value::Int(1))]),
        record(vec![("a", string("bar")), ("b", Value::Int(2))]),
    ]);
    let table_with_number_colum = Value::List(vec![
        record(vec![("a", string("foo")), ("b", Value::Int(1))]),
        record(vec![("a", string("bar")), ("b", Value::Float("2.34".to_string()))]),
    ]);
    for table in [simple_table, table_with_out_of_order_columns, table_with_nulls, table_with_number_colum] {
        assert_eq!(is_table(&table, false), Table::IsValid, "{} should be a table", default_value_repr(&table));
    }

    let not_a_table_missing_field = (
        Value::List(vec![
            record(vec![("a", string("a"))]),
            record(vec![("a", string("a")), ("b", Value::Int(1))]),
        ]),
        Table::RowIncompatibleLen(1, 2, 1),
    );
    let not_a_table_incompatible_types = (
        Value::List(vec![
            record(vec![("a", string("a")), ("b", Value::Int(1))]),
            record(vec![("a", string("a")), ("b", Value::List(vec![Value::Int(1)]))]),
        ]),
        Table::RowIncompatibleType(1, "b".to_string(), Type::List(Box::new(Type::Int)), Type::Int),
    );
    let not_a_table_row_not_record = (
        Value::List(vec![record(vec![("a", string("a")), ("b", Value::Int(1))]), Value::Int(0)]),
        Table::RowNotARecord(1, Type::Int),
    );
    let not_a_table_row_invalid_key = (
        Value::List(vec![
            record(vec![("a", string("a")), ("b", Value::Int(1))]),
            record(vec![("a", string("a")), ("c", Value::Int(2))]),
        ]),
        Table::RowInvalidKey(1, "b".into(), vec!["a".into(), "c".into()]),
    );
    for (not_a_table, expected) in [
        not_a_table_missing_field,
        not_a_table_incompatible_types,
        not_a_table_row_not_record,
        not_a_table_row_invalid_key,
    ] {
        assert_eq!(
            is_table(&not_a_table, false),
            expected,
            "{} should not be a table",
            default_value_repr(&not_a_table)
        );
    }

    assert_eq!(is_table(&Value::Int(0), false), Table::NotAList);
    assert_eq!(is_table(&Value::List(vec![]), false), Table::Empty);
}

#[test]
fn transposition() {
    let rec = record(vec![("a", Value::Int(1)), ("b", Value::Int(2))]);
    let expected = Value::List(vec![
        record(vec![("1", string("a")), ("2", Value::Int(1))]),
        record(vec![("1", string("b")), ("2", Value::Int(2))]),
    ]);
    let result = transpose(&rec);
    assert_eq!(
        result,
        expected,
        "transposing {} should give {}, found {}",
        default_value_repr(&rec),
        default_value_repr(&expected),
        default_value_repr(&result)
    );
    // make sure `transpose` is an *involution*
    let result = transpose(&expected);
    assert_eq!(
        result,
        rec,
        "transposing {} should give {}, found {}",
        default_value_repr(&expected),
        default_value_repr(&rec),
        default_value_repr(&result)
    );

    let table = Value::List(vec![
        record(vec![("a", Value::Int(1)), ("b", Value::Int(2))]),
        record(vec![("a", Value::Int(3)), ("b", Value::Int(4))]),
    ]);
    let expected = Value::List(vec![
        record(vec![("1", string("a")), ("2", Value::Int(1)), ("3", Value::Int(3))]),
        record(vec![("1", string("b")), ("2", Value::Int(2)), ("3", Value::Int(4))]),
    ]);
    let result = transpose(&table);
    assert_eq!(
        result,
        expected,
        "transposing {} should give {}, found {}",
        default_value_repr(&table),
        default_value_repr(&expected),
        default_value_repr(&result)
    );
    // make sure `transpose` is an *involution*
    let result = transpose(&expected);
    assert_eq!(
        result,
        table,
        "transposing {} should give {}, found {}",
        default_value_repr(&expected),
        default_value_repr(&table),
        default_value_repr(&result)
    );

    assert_eq!(transpose(&string("foo")), string("foo"));

    assert_eq!(
        transpose(&Value::List(vec![Value::Int(1), Value::Int(2)])),
        Value::List(vec![Value::Int(1), Value::Int(2)])
    );
}

#[test]
fn mixed_record_is_not_transposed_back() {
    let rec = record(vec![("a", Value::Int(1)), ("b", string("x"))]);
    let once = transpose(&rec);
    assert_eq!(
        once,
        Value::List(vec![
            record(vec![("1", string("a")), ("2", Value::Int(1))]),
            record(vec![("1", string("b")), ("2", string("x"))]),
        ])
    );
    assert_eq!(transpose(&once), once);
}

#[test]
fn reading_back_a_mutated_cell() {
    let value = record(vec![("a", Value::List(vec![Value::Int(1), record(vec![("b", string("x"))])]))]);
    let path = CellPath { members: to_path_member_vec(&[PM::S("a"), PM::I(1), PM::S("b")]) };
    let mutated = mutate_value_cell(&value, &path, &Value::Bool(true)).unwrap();
    assert_eq!(follow_cell_path(&mutated, &path.members), Some(Value::Bool(true)));
}

#[test]
fn mutation_that_would_crash_is_detected() {
    // a column of a list of records is followed, but cannot be changed
    let value = Value::List(vec![record(vec![("a", Value::Int(1))])]);
    let path = CellPath { members: to_path_member_vec(&[PM::S("a")]) };
    assert!(!can_mutate(&value, &path));
}

#[test]
fn table_messages() {
    assert_eq!(Table::Empty.to_msg(), None);
    assert_eq!(Table::IsValid.to_msg(), None);
    assert_eq!(Table::NotAList.to_msg(), None);
    assert_eq!(Table::RowNotARecord(2, Type::Int).to_msg(), Some("row $.2 is not a record: int".to_string()));
    assert_eq!(
        Table::RowIncompatibleLen(1, 3, 2).to_msg(),
        Some("row $.1 has incompatible length with first row: expected 2 found 3".to_string())
    );
    assert_eq!(
        Table::RowIncompatibleType(1, "b".into(), Type::String, Type::Int).to_msg(),
        Some("cell $.1.b has incompatible type with first row: expected int found string".to_string())
    );
    assert_eq!(
        Table::RowInvalidKey(1, "b".into(), vec!["a".into(), "c\"d".into()]).to_msg(),
        Some(r#"row $.1 does not contain key 'b': list of keys ["a", "c\"d"]"#.to_string())
    );
}

#[test]
fn plain_text_of_data() {
    let value = record(vec![
        ("l", Value::List(vec![Value::Int(1), Value::Int(-2)])),
        ("r", record(vec![("a", Value::Bool(true)), ("b", Value::Nothing)])),
    ]);
    assert_eq!(value.into_string(" "), "{l: [1, -2] r: {a: true, b: }}");
    let path = Value::CellPath(CellPath { members: to_path_member_vec(&[PM::S("a"), PM::I(2)]) });
    assert_eq!(path.into_string(" "), "$.a.2");
    assert_eq!(PM::as_cell_path(&[PM::S("a"), PM::I(2)]), "$.a.2");
}

#[test]
fn loose_tables() {
    let not_same_columns = Value::List(vec![record(vec![("a", Value::Int(1))]), record(vec![("b", Value::Int(2))])]);
    assert_eq!(is_table(&not_same_columns, false), Table::RowInvalidKey(1, "a".into(), vec!["b".into()]));
    assert_eq!(is_table(&not_same_columns, true), Table::IsValid);
    let with_int = Value::List(vec![record(vec![("a", Value::Int(1))]), Value::Int(2)]);
    assert_eq!(is_table(&with_int, true), is_table(&with_int, false));
}
