use veiltype::editor::{EditorAction, EditorState};
use veiltype::keys::{KeyCode, KeyEvent, KeyEventKind, KeyModifiers};

fn key(code: KeyCode, modifiers: KeyModifiers) -> KeyEvent {
    KeyEvent {
        code,
        modifiers,
        kind: KeyEventKind::Press,
    }
}

#[test]
fn inserts_and_moves_cursor() {
    let mut ed = EditorState::new();
    ed.insert_str("hello");
    ed.move_left();
    ed.insert_char('X');
    assert_eq!(ed.buffer(), "hellXo");
    assert_eq!(ed.cursor(), 5);
}

#[test]
fn alt_backspace_deletes_word_and_spaces() {
    let mut ed = EditorState::new();
    ed.insert_str("alpha  beta");
    ed.handle_key(key(KeyCode::Backspace, KeyModifiers::alt()));
    assert_eq!(ed.buffer(), "alpha  ");
    ed.handle_key(key(KeyCode::Backspace, KeyModifiers::alt()));
    assert_eq!(ed.buffer(), "");
}

#[test]
fn ctrl_w_uses_word_delete() {
    let mut ed = EditorState::new();
    ed.insert_str("let value = 42");
    ed.handle_key(key(KeyCode::Char('w'), KeyModifiers::control()));
    assert_eq!(ed.buffer(), "let value = ");
}

#[test]
fn up_down_preserve_column_across_lines() {
    let mut ed = EditorState::new();
    ed.insert_str("abcd\nxy\n12345");
    ed.move_end();
    ed.move_up();
    assert_eq!(ed.line_col(), (1, 2));
    ed.move_up();
    assert_eq!(ed.line_col(), (0, 4));
    ed.move_down();
    assert_eq!(ed.line_col(), (1, 2));
    ed.move_down();
    assert_eq!(ed.line_col(), (2, 5));
}

#[test]
fn handle_ctrl_s_exits() {
    let mut ed = EditorState::new();
    let action = ed.handle_key(key(KeyCode::Char('s'), KeyModifiers::control()));
    assert_eq!(action, EditorAction::SaveAndExit);
}

#[test]
fn handle_ctrl_q_exits_cancel() {
    let mut ed = EditorState::new();
    let action = ed.handle_key(key(KeyCode::Char('q'), KeyModifiers::control()));
    assert_eq!(action, EditorAction::Cancel);
}

#[test]
fn handle_ctrl_z_exits_cancel() {
    let mut ed = EditorState::new();
    let action = ed.handle_key(key(KeyCode::Char('z'), KeyModifiers::control()));
    assert_eq!(action, EditorAction::Cancel);
}

#[test]
fn cursor_counts_bytes_of_wide_characters() {
    let mut ed = EditorState::new();
    ed.insert_str("h\u{e9}\u{20ac}\u{1F600}");
    assert_eq!(ed.cursor(), 1 + 2 + 3 + 4);
    assert_eq!(ed.line_col(), (0, 4));
    ed.move_left();
    assert_eq!(ed.cursor(), 6);
    ed.move_left();
    assert_eq!(ed.cursor(), 3);
    ed.insert_char('\u{e9}');
    assert_eq!(ed.buffer(), "h\u{e9}\u{e9}\u{20ac}\u{1F600}");
    assert_eq!(ed.cursor(), 5);
    ed.move_home();
    assert_eq!(ed.cursor(), 0);
    ed.move_end();
    assert_eq!(ed.cursor(), ed.buffer().len());
}

#[test]
fn backspace_undoes_insert_char() {
    let mut ed = EditorState::new();
    ed.insert_str("abc");
    ed.move_left();
    let before = ed.buffer().to_owned();
    let cursor = ed.cursor();
    ed.insert_char('\u{20ac}');
    ed.backspace();
    assert_eq!(ed.buffer(), before);
    assert_eq!(ed.cursor(), cursor);
}

#[test]
fn left_then_right_returns() {
    let mut ed = EditorState::new();
    ed.insert_str("a\u{1F600}b");
    ed.move_left();
    let c = ed.cursor();
    ed.move_left();
    ed.move_right();
    assert_eq!(ed.cursor(), c);
}

#[test]
fn edges_do_not_move_or_delete() {
    let mut ed = EditorState::new();
    ed.backspace();
    ed.delete();
    ed.move_left();
    ed.move_right();
    ed.delete_word_back();
    assert_eq!(ed.buffer(), "");
    assert_eq!(ed.cursor(), 0);
    ed.insert_str("ab");
    ed.delete();
    assert_eq!(ed.buffer(), "ab");
    ed.move_right();
    assert_eq!(ed.cursor(), 2);
}

#[test]
fn delete_removes_character_after_cursor() {
    let mut ed = EditorState::new();
    ed.insert_str("xyz");
    ed.move_home();
    ed.delete();
    assert_eq!(ed.buffer(), "yz");
    assert_eq!(ed.cursor(), 0);
}

#[test]
fn word_delete_keeps_text_after_cursor() {
    let mut ed = EditorState::new();
    ed.insert_str("one two\tthree");
    for _ in 0..5 {
        ed.move_left();
    }
    ed.delete_word_back();
    assert_eq!(ed.buffer(), "one three");
    assert_eq!(ed.cursor(), 4);
    ed.delete_word_back();
    assert_eq!(ed.buffer(), "three");
    assert_eq!(ed.cursor(), 0);
}

#[test]
fn keys_edit_the_buffer() {
    let mut ed = EditorState::new();
    for c in ['a', 'b'] {
        assert_eq!(ed.handle_key(key(KeyCode::Char(c), KeyModifiers::none())), EditorAction::Continue);
    }
    ed.handle_key(key(KeyCode::Enter, KeyModifiers::none()));
    ed.handle_key(key(KeyCode::Tab, KeyModifiers::none()));
    ed.handle_key(key(KeyCode::Char('C'), KeyModifiers::shift()));
    assert_eq!(ed.buffer(), "ab\n    C");
    ed.handle_key(key(KeyCode::Char('x'), KeyModifiers::control()));
    ed.handle_key(key(KeyCode::Char('x'), KeyModifiers::super_key()));
    ed.handle_key(key(KeyCode::Other, KeyModifiers::none()));
    assert_eq!(ed.buffer(), "ab\n    C");
    ed.handle_key(key(KeyCode::Left, KeyModifiers::none()));
    ed.handle_key(key(KeyCode::Backspace, KeyModifiers::none()));
    assert_eq!(ed.buffer(), "ab\n   C");
    ed.handle_key(key(KeyCode::Delete, KeyModifiers::none()));
    assert_eq!(ed.buffer(), "ab\n   ");
    ed.handle_key(key(KeyCode::Up, KeyModifiers::none()));
    assert_eq!(ed.line_col(), (0, 2));
    ed.handle_key(key(KeyCode::Down, KeyModifiers::none()));
    assert_eq!(ed.line_col(), (1, 3));
    ed.handle_key(key(KeyCode::Home, KeyModifiers::none()));
    assert_eq!(ed.line_col(), (1, 0));
    ed.handle_key(key(KeyCode::End, KeyModifiers::none()));
    assert_eq!(ed.line_col(), (1, 3));
    ed.handle_key(key(KeyCode::Right, KeyModifiers::none()));
    assert_eq!(ed.line_col(), (1, 3));
    assert_eq!(ed.handle_key(key(KeyCode::Esc, KeyModifiers::none())), EditorAction::Cancel);
    assert_eq!(
        ed.handle_key(key(KeyCode::Char('s'), KeyModifiers::control().union(KeyModifiers::shift()))),
        EditorAction::SaveAndExit
    );
}

#[test]
fn vertical_moves_stop_at_first_and_last_line() {
    let mut ed = EditorState::new();
    ed.insert_str("ab\ncd");
    ed.move_down();
    assert_eq!(ed.line_col(), (1, 2));
    ed.move_up();
    ed.move_up();
    assert_eq!(ed.line_col(), (0, 2));
}

#[test]
fn up_then_down_restores_cursor() {
    let mut ed = EditorState::new();
    ed.insert_str("a long first line\nshort\nthird line here");
    ed.move_left();
    ed.move_left();
    let c = ed.cursor();
    ed.move_up();
    assert_eq!(ed.line_col(), (1, 5));
    ed.move_down();
    assert_eq!(ed.cursor(), c);
}

#[test]
fn default_is_empty() {
    let ed = EditorState::default();
    assert_eq!(ed.buffer(), "");
    assert_eq!(ed.cursor(), 0);
    assert_eq!(ed.line_col(), (0, 0));
}

#[test]
fn down_then_up_restores_cursor() {
    let mut ed = EditorState::new();
    ed.insert_str("first line\nxy\nlast");
    for _ in 0..12 {
        ed.move_left();
    }
    assert_eq!(ed.line_col(), (0, 6));
    let c = ed.cursor();
    ed.move_down();
    assert_eq!(ed.line_col(), (1, 2));
    ed.move_up();
    assert_eq!(ed.cursor(), c);
}

#[test]
fn cursor_is_always_on_a_char_boundary() {
    let mut ed = EditorState::new();
    ed.insert_str("\u{e9}t\u{e9}\n\u{1F600} a\u{20ac}b");
    for step in 0..40 {
        match step % 5 {
            0 => ed.move_left(),
            1 => ed.move_up(),
            2 => ed.move_right(),
            3 => ed.move_down(),
            _ => ed.move_left(),
        }
        assert!(ed.buffer().is_char_boundary(ed.cursor()));
        assert!(ed.cursor() <= ed.buffer().len());
    }
}

#[test]
fn two_inserts_are_one_insert_of_both() {
    let mut a = EditorState::new();
    let mut b = EditorState::new();
    a.insert_str("xy");
    b.insert_str("xy");
    a.move_left();
    b.move_left();
    a.insert_str("\u{e9}1");
    a.insert_str("2\n");
    b.insert_str("\u{e9}12\n");
    assert_eq!(a.buffer(), b.buffer());
    assert_eq!(a.cursor(), b.cursor());
    assert_eq!(a.buffer(), "x\u{e9}12\ny");
}
