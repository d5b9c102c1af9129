use nu_plugin_explore::editor::{Editor, EditorTransition};
use nu_plugin_explore::keys::KeyCode;

#[test]
fn edit_cells() {
    let mut editor = Editor::from_text(r#""""#);
    editor.set_width(10 + 2);

    // NOTE: the buffer is wrapped in quotes, which are implicit in the strokes below; pressing
    // enter hands the text of the buffer over, to be read as NUON
    let strokes = vec![
        (KeyCode::Enter, "", None),
        (KeyCode::Right, "", Some(EditorTransition::Continue)),
        (KeyCode::Char('a'), "a", Some(EditorTransition::Continue)),
        (KeyCode::Char('b'), "ab", Some(EditorTransition::Continue)),
        (KeyCode::Char('c'), "abc", Some(EditorTransition::Continue)),
        (KeyCode::Char('d'), "abcd", Some(EditorTransition::Continue)),
        (KeyCode::Char('e'), "abcde", Some(EditorTransition::Continue)),
        (KeyCode::Left, "abcde", Some(EditorTransition::Continue)),
        (KeyCode::Char('f'), "abcdfe", Some(EditorTransition::Continue)),
        (KeyCode::Left, "abcdfe", Some(EditorTransition::Continue)),
        (KeyCode::Left, "abcdfe", Some(EditorTransition::Continue)),
        (KeyCode::Char('g'), "abcgdfe", Some(EditorTransition::Continue)),
        (KeyCode::Right, "abcgdfe", Some(EditorTransition::Continue)),
        (KeyCode::Right, "abcgdfe", Some(EditorTransition::Continue)),
        (KeyCode::Right, "abcgdfe", Some(EditorTransition::Continue)),
        (KeyCode::Up, "abcgdfe", Some(EditorTransition::Continue)),
        (KeyCode::Down, "abcgdfe", Some(EditorTransition::Continue)),
        (KeyCode::Char('h'), "abcgdfeh", Some(EditorTransition::Continue)),
        (KeyCode::Char('i'), "abcgdfehi", Some(EditorTransition::Continue)),
        (KeyCode::Char('j'), "abcgdfehij", Some(EditorTransition::Continue)),
        (KeyCode::Char('k'), "abcgdfehijk", Some(EditorTransition::Continue)),
        (KeyCode::Char('l'), "abcgdfehijkl", Some(EditorTransition::Continue)),
        (KeyCode::Up, "abcgdfehijkl", Some(EditorTransition::Continue)),
        (KeyCode::Char('m'), "abmcgdfehijkl", Some(EditorTransition::Continue)),
        (KeyCode::Down, "abmcgdfehijkl", Some(EditorTransition::Continue)),
        (KeyCode::Left, "abmcgdfehijkl", Some(EditorTransition::Continue)),
        (KeyCode::Char('n'), "abmcgdfehijknl", Some(EditorTransition::Continue)),
        (KeyCode::Left, "abmcgdfehijknl", Some(EditorTransition::Continue)),
        (KeyCode::Left, "abmcgdfehijknl", Some(EditorTransition::Continue)),
        (KeyCode::Left, "abmcgdfehijknl", Some(EditorTransition::Continue)),
        (KeyCode::Left, "abmcgdfehijknl", Some(EditorTransition::Continue)),
        (KeyCode::Left, "abmcgdfehijknl", Some(EditorTransition::Continue)),
        (KeyCode::Char('o'), "abmcgdfeohijknl", Some(EditorTransition::Continue)),
        (KeyCode::Right, "abmcgdfeohijknl", Some(EditorTransition::Continue)),
        (KeyCode::Right, "abmcgdfeohijknl", Some(EditorTransition::Continue)),
        (KeyCode::Enter, "abmcgdfeohijknl", None),
        (KeyCode::Right, "abmcgdfeohijknl", Some(EditorTransition::Continue)),
        (KeyCode::Right, "abmcgdfeohijknl", Some(EditorTransition::Continue)),
        (KeyCode::Char('p'), "abmcgdfeohijkpnl", Some(EditorTransition::Continue)),
        (KeyCode::Backspace, "abmcgdfeohijknl", Some(EditorTransition::Continue)),
        (KeyCode::Backspace, "abmcgdfeohijnl", Some(EditorTransition::Continue)),
        (KeyCode::Backspace, "abmcgdfeohinl", Some(EditorTransition::Continue)),
        (KeyCode::Up, "abmcgdfeohinl", Some(EditorTransition::Continue)),
        (KeyCode::Delete, "amcgdfeohinl", Some(EditorTransition::Continue)),
        (KeyCode::Delete, "acgdfeohinl", Some(EditorTransition::Continue)),
        (KeyCode::Delete, "agdfeohinl", Some(EditorTransition::Continue)),
        (KeyCode::Esc, "agdfeohinl", Some(EditorTransition::Quit)),
        (KeyCode::Enter, "agdfeohinl", None),
    ];

    for (key, expected_buffer, expected) in strokes {
        let result = editor.handle_key(&key);
        let text = format!(r#""{}""#, expected_buffer);

        match expected {
            Some(expected) => assert_eq!(result, expected),
            None => assert_eq!(result, EditorTransition::Submit(text.clone())),
        }
        assert_eq!(editor.buffer(), text);
    }
}

#[test]
fn erasing_what_was_typed() {
    let mut editor = Editor::from_text("hello");
    editor.set_width(5 + 2);
    for _ in 0..3 {
        editor.handle_key(&KeyCode::Right);
    }
    let before = editor.position();
    editor.handle_key(&KeyCode::Char('x'));
    assert_eq!(editor.buffer(), "helxlo");
    editor.handle_key(&KeyCode::Backspace);
    assert_eq!(editor.buffer(), "hello");
    assert_eq!(editor.position(), before);
}

#[test]
fn erasing_at_the_start_changes_nothing() {
    let mut editor = Editor::from_text("hello");
    editor.set_width(5 + 2);
    editor.handle_key(&KeyCode::Backspace);
    assert_eq!(editor.buffer(), "hello");
    assert_eq!(editor.position(), 0);
    assert_eq!(editor.cursor_position(), (0, 0));
}

#[test]
fn cursor_wraps_on_lines_of_the_width() {
    let mut editor = Editor::from_text("abcdefg");
    editor.set_width(3 + 2);
    for _ in 0..4 {
        editor.handle_key(&KeyCode::Right);
    }
    assert_eq!(editor.cursor_position(), (1, 1));
    assert_eq!(editor.position(), 4);
    editor.handle_key(&KeyCode::Down);
    assert_eq!(editor.cursor_position(), (1, 2));
    editor.handle_key(&KeyCode::Down);
    assert_eq!(editor.cursor_position(), (1, 2));
    editor.handle_key(&KeyCode::Up);
    editor.handle_key(&KeyCode::Up);
    editor.handle_key(&KeyCode::Up);
    assert_eq!(editor.cursor_position(), (1, 0));
}

#[test]
fn editor_area_on_a_frame() {
    let mut editor = Editor::from_text("abcdefg");
    editor.set_width(3 + 2);
    let area = editor.area(20, 20).unwrap();
    assert_eq!((area.x, area.y, area.width, area.height), (7, 13, 5, 5));
    assert_eq!((area.cursor_x, area.cursor_y), (8, 14));
    assert_eq!(editor.area(4, 20), None);
    let empty = Editor::default();
    assert_eq!(empty.area(10, 10).unwrap().height, 3);
}
