use nova_core::{
    Buffer, Editor, EditorMode, Effect, KeyCode, KeyEvent, KeyKind, Modifiers, PendingAction,
    Settings, Step,
};

fn press(code: KeyCode, control: bool, shift: bool) -> KeyEvent {
    KeyEvent {
        code,
        modifiers: Modifiers { control, shift, alt: false },
        kind: KeyKind::Press,
    }
}

fn key(code: KeyCode) -> KeyEvent {
    press(code, false, false)
}

fn ctrl(c: char) -> KeyEvent {
    press(KeyCode::Char(c), true, false)
}

fn type_text(e: &mut Editor, s: &str) {
    for c in s.chars() {
        assert!(e.handle_key(&key(KeyCode::Char(c))).is_none());
    }
}

fn editor(content: &str) -> Editor {
    let settings = Settings::default();
    Editor::new(Buffer::from_content("file.txt".to_string(), content), settings, 80, 24)
}

fn text(e: &Editor) -> String {
    e.buffer.text.to_string()
}

#[test]
fn insert_then_undo_then_redo() {
    let mut e = editor("abc\n");
    e.cursor_col = 1;
    type_text(&mut e, "X");
    assert_eq!(text(&e), "aXbc\n");
    assert_eq!((e.cursor_line, e.cursor_col), (0, 2));
    e.handle_key(&ctrl('z'));
    assert_eq!(text(&e), "abc\n");
    e.handle_key(&ctrl('y'));
    assert_eq!(text(&e), "aXbc\n");
}

#[test]
fn enter_splits_line_without_auto_indent() {
    let mut settings = Settings::default();
    settings.auto_indent = false;
    let mut e = Editor::new(Buffer::from_content("f.txt".to_string(), "hello world\n"), settings, 80, 24);
    e.cursor_col = 5;
    e.handle_key(&key(KeyCode::Enter));
    assert_eq!(e.buffer.get_line(0), "hello");
    assert_eq!(e.buffer.get_line(1), " world");
    assert_eq!((e.cursor_line, e.cursor_col), (1, 0));
}

#[test]
fn enter_copies_indent() {
    let mut e = editor("    let x;\n");
    e.cursor_col = 10;
    e.handle_key(&key(KeyCode::Enter));
    assert_eq!(text(&e), "    let x;\n    \n");
    assert_eq!((e.cursor_line, e.cursor_col), (1, 4));
    e.handle_key(&ctrl('z'));
    assert_eq!(text(&e), "    let x;\n");
}

#[test]
fn search_mode_wraps_to_first_match() {
    let mut e = editor("foo\nbar\nfoo\n");
    e.cursor_line = 2;
    e.handle_key(&ctrl('f'));
    assert!(matches!(e.mode, EditorMode::Search { .. }));
    type_text(&mut e, "foo");
    assert_eq!((e.cursor_line, e.cursor_col), (0, 0));
    e.handle_key(&key(KeyCode::Esc));
    assert!(matches!(e.mode, EditorMode::Normal));
    assert_eq!((e.cursor_line, e.cursor_col), (0, 0));
}

#[test]
fn search_as_you_type_jumps() {
    let mut e = editor("alpha\nbeta\ngamma\n");
    e.handle_key(&ctrl('f'));
    type_text(&mut e, "gam");
    assert_eq!((e.cursor_line, e.cursor_col), (2, 0));
    e.handle_key(&key(KeyCode::Backspace));
    if let EditorMode::Search { query, .. } = &e.mode {
        assert_eq!(query, "ga");
    } else {
        panic!("left search mode");
    }
    e.handle_key(&key(KeyCode::Esc));
    assert!(matches!(e.mode, EditorMode::Normal));
    assert_eq!(text(&e), "alpha\nbeta\ngamma\n");
}

#[test]
fn replace_all_clears_history() {
    let mut e = editor("cat cat cat\n");
    e.cursor_col = 11;
    type_text(&mut e, "!");
    assert_eq!(e.undo.len(), 1);
    let r = e.apply_step(Step {
        mode: EditorMode::Normal,
        action: Some(PendingAction::ReplaceAll("cat".to_string(), "dog".to_string())),
        effect: Effect::Nothing,
        quit_after_save: false,
    });
    assert!(r.is_none());
    assert_eq!(text(&e), "dog dog dog!\n");
    assert_eq!(e.undo.len(), 0);
    e.handle_key(&ctrl('z'));
    assert_eq!(text(&e), "dog dog dog!\n");
}

#[test]
fn replace_mode_enter_twice_replaces() {
    let mut e = editor("cat\n");
    e.handle_key(&ctrl('\\'));
    e.handle_key(&key(KeyCode::Tab));
    if let EditorMode::Replace { search, .. } = &e.mode {
        assert_eq!(search, "cat");
    } else {
        panic!("not in replace mode");
    }
    e.handle_key(&key(KeyCode::Enter));
    type_text(&mut e, "dog");
    e.handle_key(&key(KeyCode::Enter));
    assert!(matches!(e.mode, EditorMode::Normal));
    assert_eq!(text(&e), "dog\n");
    assert_eq!(e.undo.len(), 0);
}

#[test]
fn quit_without_path_asks_for_name() {
    let mut e = Editor::new(Buffer::new(), Settings::default(), 80, 24);
    assert!(e.handle_key(&ctrl('q')).is_none());
    if let EditorMode::Input { title, input, .. } = &e.mode {
        assert_eq!(title, "Save As");
        assert_eq!(input, "");
    } else {
        panic!("no save-as prompt");
    }
    type_text(&mut e, "out.txt");
    let action = e.handle_key(&key(KeyCode::Enter)).expect("a save is asked for");
    match &action {
        PendingAction::SaveAs(name) => assert_eq!(name, "out.txt"),
        _ => panic!("wrong action"),
    }
    assert!(!e.should_quit);
    e.finish_save(&action, true);
    assert!(e.should_quit);
    assert_eq!(e.buffer.file_name(), "out.txt");
}

#[test]
fn failed_save_as_does_not_quit() {
    let mut e = Editor::new(Buffer::new(), Settings::default(), 80, 24);
    e.handle_key(&ctrl('q'));
    type_text(&mut e, "x.txt");
    let action = e.handle_key(&key(KeyCode::Enter)).unwrap();
    e.finish_save(&action, false);
    assert!(!e.should_quit);
    assert!(e.buffer.path.is_none());
}

#[test]
fn quit_confirm_choices() {
    let mut e = editor("a\n");
    type_text(&mut e, "b");
    e.handle_key(&ctrl('q'));
    assert!(matches!(e.mode, EditorMode::Confirm { selected: 0, .. }));
    for _ in 0..5 {
        e.handle_key(&key(KeyCode::Down));
    }
    assert!(matches!(e.mode, EditorMode::Confirm { selected: 2, .. }));
    e.handle_key(&key(KeyCode::Up));
    assert!(matches!(e.mode, EditorMode::Confirm { selected: 1, .. }));
    assert!(e.handle_key(&key(KeyCode::Enter)).is_none());
    assert!(e.should_quit);
    assert!(!e.buffer.is_modified);
}

#[test]
fn quit_confirm_yes_saves_and_quits() {
    let mut e = editor("a\n");
    type_text(&mut e, "b");
    e.handle_key(&ctrl('q'));
    let action = e.handle_key(&key(KeyCode::Enter)).unwrap();
    assert!(matches!(action, PendingAction::SaveAndQuit));
    e.finish_save(&action, true);
    assert!(e.should_quit);
    assert!(!e.buffer.is_modified);
}

#[test]
fn unmodified_named_document_quits_at_once() {
    let mut e = editor("a\n");
    e.handle_key(&ctrl('q'));
    assert!(e.should_quit);
}

#[test]
fn goto_line_clamps() {
    let mut e = editor("1\n2\n3\n");
    e.handle_key(&ctrl('g'));
    type_text(&mut e, "2");
    e.handle_key(&key(KeyCode::Enter));
    assert_eq!((e.cursor_line, e.cursor_col), (1, 0));
    e.handle_key(&ctrl('g'));
    type_text(&mut e, "99999999999999999999999");
    e.handle_key(&key(KeyCode::Enter));
    assert_eq!(e.cursor_line, 3);
    e.handle_key(&ctrl('g'));
    e.handle_key(&key(KeyCode::Enter));
    assert_eq!(e.cursor_line, 3);
    assert!(matches!(e.mode, EditorMode::Normal));
}

#[test]
fn backspace_removes_whole_character_and_joins_lines() {
    let mut e = editor("aé\nb\n");
    e.cursor_col = 3;
    e.handle_key(&key(KeyCode::Backspace));
    assert_eq!(text(&e), "a\nb\n");
    assert_eq!(e.cursor_col, 1);
    e.cursor_line = 1;
    e.cursor_col = 0;
    e.handle_key(&key(KeyCode::Backspace));
    assert_eq!(text(&e), "ab\n");
    assert_eq!((e.cursor_line, e.cursor_col), (0, 1));
    e.handle_key(&ctrl('z'));
    e.handle_key(&ctrl('z'));
    assert_eq!(text(&e), "aé\nb\n");
}

#[test]
fn typed_multibyte_character_moves_cursor_by_its_bytes() {
    let mut e = editor("\n");
    type_text(&mut e, "日");
    assert_eq!(text(&e), "日\n");
    assert_eq!(e.cursor_col, 3);
    e.handle_key(&key(KeyCode::Left));
    assert_eq!(e.cursor_col, 0);
    e.handle_key(&key(KeyCode::Right));
    assert_eq!(e.cursor_col, 3);
}

#[test]
fn tab_inserts_spaces() {
    let mut e = editor("x\n");
    e.handle_key(&key(KeyCode::Tab));
    assert_eq!(text(&e), "    x\n");
    assert_eq!(e.cursor_col, 4);
    e.handle_key(&key(KeyCode::Home));
    assert_eq!(e.cursor_col, 0);
    e.handle_key(&key(KeyCode::End));
    assert_eq!(e.cursor_col, 5);
    e.handle_key(&key(KeyCode::Home));
    assert_eq!(e.cursor_col, 4);
}

#[test]
fn delete_line_keeps_cursor_in_bounds() {
    let mut e = editor("a\nbb\nccc");
    e.cursor_line = 2;
    e.cursor_col = 3;
    e.handle_key(&ctrl('k'));
    assert_eq!(text(&e), "a\nbb\n");
    assert!(e.cursor_line < e.buffer.num_lines());
    assert!(e.cursor_col <= e.buffer.line_len(e.cursor_line));
    e.clamp_cursor();
    let before = (e.cursor_line, e.cursor_col);
    e.clamp_cursor();
    assert_eq!((e.cursor_line, e.cursor_col), before);
    e.handle_key(&ctrl('z'));
    assert_eq!(text(&e), "a\nbb\nccc\n");
}

#[test]
fn delete_to_line_start_and_forward() {
    let mut e = editor("hello\n");
    e.cursor_col = 3;
    e.handle_key(&ctrl('u'));
    assert_eq!(text(&e), "lo\n");
    assert_eq!(e.cursor_col, 0);
    e.handle_key(&ctrl('d'));
    assert_eq!(text(&e), "o\n");
}

#[test]
fn release_events_are_ignored() {
    let mut e = editor("a\n");
    let mut k = key(KeyCode::Char('z'));
    k.kind = KeyKind::Release;
    assert!(e.handle_key(&k).is_none());
    assert_eq!(text(&e), "a\n");
}

#[test]
fn help_opens_and_closes() {
    let mut e = editor("a\n");
    e.handle_key(&ctrl('h'));
    assert!(matches!(e.mode, EditorMode::Help));
    assert!(e.tip_requested);
    e.handle_key(&key(KeyCode::Char('x')));
    assert!(matches!(e.mode, EditorMode::Help));
    e.handle_key(&key(KeyCode::Esc));
    assert!(matches!(e.mode, EditorMode::Normal));
    assert_eq!(text(&e), "a\n");
}

#[test]
fn save_and_open_come_back_to_the_caller() {
    let mut e = editor("a\n");
    type_text(&mut e, "b");
    assert!(matches!(e.handle_key(&ctrl('s')), Some(PendingAction::Save)));
    e.finish_save(&PendingAction::Save, true);
    assert!(!e.buffer.is_modified);
    assert!(matches!(e.handle_key(&ctrl('o')), Some(PendingAction::OpenFile)));
    e.open_buffer(Buffer::from_content("other.rs".to_string(), "fn main() {}"));
    assert_eq!((e.cursor_line, e.cursor_col, e.scroll_offset), (0, 0, 0));
    assert_eq!(e.undo.len(), 0);
    assert_eq!(e.buffer.language, "rust");
}

#[test]
fn view_follows_cursor() {
    let content = "x\n".repeat(100);
    let mut e = Editor::new(Buffer::from_content("f.txt".to_string(), &content), Settings::default(), 80, 13);
    for _ in 0..30 {
        e.handle_key(&key(KeyCode::Down));
    }
    assert_eq!(e.cursor_line, 30);
    assert_eq!(e.scroll_offset, 21);
    e.handle_key(&key(KeyCode::PageUp));
    assert_eq!(e.cursor_line, 19);
    assert_eq!(e.scroll_offset, 19);
    e.goto_line(1000);
    assert_eq!(e.cursor_line, 100);
    assert_eq!(e.scroll_offset, 91);
}

#[test]
fn blink_toggles_after_interval() {
    let mut e = editor("a\n");
    assert!(e.cursor_blink_on);
    e.update_cursor_blink(300);
    assert!(e.cursor_blink_on);
    e.update_cursor_blink(300);
    assert!(!e.cursor_blink_on);
    assert_eq!(e.blink_elapsed_ms, 0);
}

#[test]
fn undoing_every_key_restores_the_start() {
    let start = "fn main() {\n    let é = 1;\n}\n";
    let mut e = editor(start);
    e.cursor_line = 1;
    e.cursor_col = 4;
    let keys = vec![
        key(KeyCode::Char('x')),
        key(KeyCode::Enter),
        key(KeyCode::Char('日')),
        key(KeyCode::Tab),
        key(KeyCode::Backspace),
        key(KeyCode::Backspace),
        ctrl('d'),
        key(KeyCode::Down),
        ctrl('k'),
        key(KeyCode::End),
        ctrl('u'),
        key(KeyCode::Char('y')),
        key(KeyCode::Up),
        key(KeyCode::Home),
        key(KeyCode::Backspace),
    ];
    for k in &keys {
        e.handle_key(k);
    }
    let end = text(&e);
    assert_ne!(end, start);
    for _ in 0..40 {
        e.handle_key(&ctrl('z'));
    }
    assert_eq!(text(&e), start);
    for _ in 0..40 {
        e.handle_key(&ctrl('y'));
    }
    assert_eq!(text(&e), end);
}
