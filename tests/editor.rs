use ste::{Action, Editor, InputFile, Key, TextBuffer, Viewport};

fn rows(b: &TextBuffer) -> Vec<String> {
    let v = Viewport { start_row: 0, end_row: b.lines_count() };
    b.visible_rows(&v).iter().map(|l| l.iter().collect()).collect()
}

fn type_text(e: &mut Editor, s: &str) {
    for c in s.chars() {
        e.handle_key(Key::Char(c));
    }
}

fn cursor(e: &Editor) -> (usize, usize) {
    (e.buffer.cursor_row, e.buffer.cursor_col)
}

#[test]
fn input_file_new_is_blank() {
    let f = InputFile::new();
    assert!(!f.file_exists);
    assert_eq!(f.file_name, "");
    assert_eq!(f.file_path, "");
    assert_eq!(f.file_hash, 0);
}

#[test]
fn new_editor_takes_base_name() {
    let e = Editor::new("dir/sub/notes.txt".to_string());
    assert_eq!(e.input_file.file_path, "dir/sub/notes.txt");
    assert_eq!(e.input_file.file_name, "notes.txt");
    assert_eq!(Editor::new("plain".to_string()).input_file.file_name, "plain");
    assert_eq!(Editor::new("dir/".to_string()).input_file.file_name, "");
    assert_eq!(cursor(&e), (0, 0));
    assert_eq!(rows(&e.buffer.content), vec![""]);
}

#[test]
fn new_file_is_not_modified_until_edited() {
    let mut e = Editor::new("missing.txt".to_string());
    assert!(!e.input_file.file_exists);
    assert!(!e.is_file_modified());
    e.handle_key(Key::Char('a'));
    assert!(e.is_file_modified());
    e.handle_key(Key::Backspace);
    assert!(!e.is_file_modified());
}

#[test]
fn saved_text_reloads_as_same_lines() {
    let mut e = Editor::new("f".to_string());
    type_text(&mut e, "one");
    e.handle_key(Key::Enter);
    e.handle_key(Key::Enter);
    type_text(&mut e, "three");
    let text = match e.handle_key(Key::Save) {
        Action::Save(text) => text,
        _ => panic!("expected a save action"),
    };
    let mut g = Editor::new("f".to_string());
    g.load_text(&text);
    assert_eq!(rows(&g.buffer.content), vec!["one", "", "three"]);
    assert_eq!(g.buffer.content.calculate_hash(), e.buffer.content.calculate_hash());
}

#[test]
fn load_text_splits_lines() {
    let mut e = Editor::new("f".to_string());
    e.load_text("a\r\nb\n\nc\n");
    assert_eq!(rows(&e.buffer.content), vec!["a", "b", "", "c"]);
    assert!(e.input_file.file_exists);
    let mut g = Editor::new("f".to_string());
    g.load_text("x\ny");
    assert_eq!(rows(&g.buffer.content), vec!["x", "y"]);
    let mut h = Editor::new("f".to_string());
    h.load_text("");
    assert_eq!(rows(&h.buffer.content), vec![""]);
    let mut k = Editor::new("f".to_string());
    k.load_text("x\n\n");
    assert_eq!(rows(&k.buffer.content), vec!["x", ""]);
}

#[test]
fn typing_then_save_gives_joined_text() {
    let mut e = Editor::new("new.txt".to_string());
    type_text(&mut e, "hi");
    e.handle_key(Key::Enter);
    type_text(&mut e, "there");
    match e.handle_key(Key::Save) {
        Action::Save(text) => assert_eq!(text, "hi\nthere"),
        _ => panic!("expected a save action"),
    }
}

#[test]
fn backspace_at_line_start_merges() {
    let mut e = Editor::new("f".to_string());
    e.load_text("a\nb\nc");
    e.buffer.cursor_row = 2;
    e.buffer.cursor_col = 0;
    e.handle_key(Key::Backspace);
    assert_eq!(rows(&e.buffer.content), vec!["a", "bc"]);
    assert_eq!(cursor(&e), (1, 1));
}

#[test]
fn down_on_last_line_appends() {
    let mut e = Editor::new("f".to_string());
    e.handle_key(Key::Down);
    assert_eq!(rows(&e.buffer.content), vec!["", ""]);
    assert_eq!(cursor(&e), (1, 0));
}

#[test]
fn load_then_save_is_not_modified() {
    let mut e = Editor::new("f".to_string());
    e.load_text("one\ntwo");
    assert!(!e.is_file_modified());
    match e.handle_key(Key::Save) {
        Action::Save(text) => assert_eq!(text, "one\ntwo"),
        _ => panic!("expected a save action"),
    }
    e.mark_saved();
    assert!(!e.is_file_modified());
}

#[test]
fn edits_mark_modified_until_saved() {
    let mut e = Editor::new("f".to_string());
    e.load_text("one");
    e.handle_key(Key::Char('x'));
    assert!(e.is_file_modified());
    e.handle_key(Key::Save);
    e.mark_saved();
    assert!(!e.is_file_modified());
}

#[test]
fn quit_and_other_keys() {
    let mut e = Editor::new("f".to_string());
    assert!(matches!(e.handle_key(Key::Quit), Action::Quit));
    assert!(matches!(e.handle_key(Key::Other), Action::Continue));
    assert_eq!(cursor(&e), (0, 0));
}

#[test]
fn backspace_within_line() {
    let mut e = Editor::new("f".to_string());
    e.load_text("abc");
    e.buffer.cursor_col = 2;
    e.handle_key(Key::Backspace);
    assert_eq!(rows(&e.buffer.content), vec!["ac"]);
    assert_eq!(cursor(&e), (0, 1));
    e.buffer.cursor_col = 0;
    e.handle_key(Key::Backspace);
    assert_eq!(rows(&e.buffer.content), vec!["ac"]);
    assert_eq!(cursor(&e), (0, 0));
}

#[test]
fn delete_key_does_not_merge() {
    let mut e = Editor::new("f".to_string());
    e.load_text("ab\ncd");
    e.handle_key(Key::Delete);
    assert_eq!(rows(&e.buffer.content), vec!["b", "cd"]);
    e.handle_key(Key::End);
    e.handle_key(Key::Delete);
    assert_eq!(rows(&e.buffer.content), vec!["b", "cd"]);
}

#[test]
fn right_is_unclamped_and_edits_use_line_end() {
    let mut e = Editor::new("f".to_string());
    e.load_text("ab");
    e.handle_key(Key::End);
    e.handle_key(Key::Right);
    e.handle_key(Key::Right);
    assert_eq!(cursor(&e), (0, 4));
    e.handle_key(Key::Char('c'));
    assert_eq!(rows(&e.buffer.content), vec!["abc"]);
    assert_eq!(cursor(&e), (0, 3));
    e.handle_key(Key::Right);
    e.handle_key(Key::Enter);
    assert_eq!(rows(&e.buffer.content), vec!["abc", ""]);
    assert_eq!(cursor(&e), (1, 0));
}

#[test]
fn left_home_end() {
    let mut e = Editor::new("f".to_string());
    e.load_text("abcd");
    e.handle_key(Key::Left);
    assert_eq!(cursor(&e), (0, 0));
    e.handle_key(Key::End);
    assert_eq!(cursor(&e), (0, 4));
    e.handle_key(Key::Left);
    assert_eq!(cursor(&e), (0, 3));
    e.handle_key(Key::Home);
    assert_eq!(cursor(&e), (0, 0));
}

#[test]
fn up_clamps_column_and_trims_below() {
    let mut e = Editor::new("f".to_string());
    e.load_text("ab\nlonger line");
    e.buffer.cursor_row = 1;
    e.buffer.cursor_col = 8;
    e.handle_key(Key::Up);
    assert_eq!(cursor(&e), (0, 2));
    let mut g = Editor::new("f".to_string());
    g.load_text("a");
    g.handle_key(Key::Down);
    g.handle_key(Key::Down);
    assert_eq!(g.buffer.content.lines_count(), 3);
    g.handle_key(Key::Up);
    assert_eq!(cursor(&g), (1, 0));
    assert_eq!(rows(&g.buffer.content), vec!["a"]);
}

#[test]
fn down_clamps_column() {
    let mut e = Editor::new("f".to_string());
    e.load_text("abcdef\nxy");
    e.buffer.cursor_col = 5;
    e.handle_key(Key::Down);
    assert_eq!(cursor(&e), (1, 2));
    assert_eq!(e.buffer.content.lines_count(), 2);
}

#[test]
fn save_trims_trailing_blank_lines_and_clamps_row() {
    let mut e = Editor::new("f".to_string());
    e.load_text("a\n\n\n\n");
    e.handle_key(Key::Down);
    e.handle_key(Key::Down);
    e.handle_key(Key::Down);
    assert_eq!(cursor(&e).0, 3);
    match e.handle_key(Key::Save) {
        Action::Save(text) => assert_eq!(text, "a"),
        _ => panic!("expected a save action"),
    }
    assert_eq!(e.buffer.content.lines_count(), 1);
    assert_eq!(cursor(&e).0, 1);
}

#[test]
fn scroll_follows_cursor() {
    let mut e = Editor::new("f".to_string());
    e.buffer.cursor_row = 10;
    e.scroll(5);
    assert_eq!(e.buffer.viewport_offset, 7);
    e.buffer.cursor_row = 8;
    e.scroll(5);
    assert_eq!(e.buffer.viewport_offset, 7);
    e.buffer.cursor_row = 3;
    e.scroll(5);
    assert_eq!(e.buffer.viewport_offset, 3);
}

#[test]
fn frame_lays_out_screen() {
    let mut e = Editor::new("notes.txt".to_string());
    e.load_text("a\nb\nc");
    let f = e.frame(6, 30);
    assert_eq!(f.rows, vec!["a", "b", "c"]);
    assert_eq!(f.filler_rows, 2);
    assert_eq!(f.cursor_x, 0);
    assert_eq!(f.cursor_y, 0);
    assert_eq!(f.status, format!("{:<30}", "notes.txt - 1/3 "));
    e.handle_key(Key::Char('z'));
    let g = e.frame(6, 10);
    assert_eq!(g.status, "notes.txt - 1/3 (modified)");
}

#[test]
fn frame_scrolls_window() {
    let mut e = Editor::new("f".to_string());
    let text: Vec<String> = (0..20).map(|i| i.to_string()).collect();
    e.load_text(&text.join("\n"));
    e.buffer.cursor_row = 12;
    e.buffer.cursor_col = 1;
    let f = e.frame(5, 0);
    assert_eq!(e.buffer.viewport_offset, 9);
    assert_eq!(f.rows, vec!["9", "10", "11", "12"]);
    assert_eq!(f.filler_rows, 0);
    assert_eq!(f.cursor_y, 3);
    assert_eq!(f.cursor_x, 1);
    assert_eq!(f.status, "f - 13/20 ");
}
