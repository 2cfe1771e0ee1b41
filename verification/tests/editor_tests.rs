use te::document::Document;
use te::editor::{
    prompt_result, prompt_step, Command, Editor, Position, PromptKey, PromptStatus, StatusMessage,
};
use te::terminal::Terminal;

fn editor_over(text: &str, columns: u16, rows: u16) -> Editor {
    let doc = Document::from_text(&text.chars().collect(), None);
    Editor::new(
        Terminal::new(columns, rows),
        doc,
        StatusMessage::from(String::new()),
    )
}

/// An editor whose viewport is 80 by 24 cells (two terminal rows are
/// reserved for the bars).
fn editor_80x24(text: &str) -> Editor {
    editor_over(text, 80, 26)
}

fn cursor(e: &Editor) -> (usize, usize) {
    let p = e.cursor_position();
    (p.x, p.y)
}

#[test]
fn wrapping_walk_visits_every_column_once() {
    let mut e = editor_80x24("abc\nde\n");
    let expected = [
        (0, 0),
        (1, 0),
        (2, 0),
        (3, 0),
        (0, 1),
        (1, 1),
        (2, 1),
        (0, 2),
    ];
    assert_eq!(cursor(&e), expected[0]);
    for want in expected.iter().skip(1) {
        e.process_command(Command::MoveRight);
        assert_eq!(cursor(&e), *want);
    }
    e.process_command(Command::MoveRight);
    assert_eq!(cursor(&e), (0, 2), "the walk stops at the document's end");
    for want in expected.iter().rev().skip(1) {
        e.process_command(Command::MoveLeft);
        assert_eq!(cursor(&e), *want);
    }
    e.process_command(Command::MoveLeft);
    assert_eq!(cursor(&e), (0, 0), "the walk stops at the origin");
}

#[test]
fn lefts_then_rights_return_to_start() {
    let mut e = editor_80x24("abc\nde\n");
    for _ in 0..5 {
        e.process_command(Command::MoveRight);
    }
    let start = cursor(&e);
    for _ in 0..4 {
        e.process_command(Command::MoveLeft);
    }
    for _ in 0..4 {
        e.process_command(Command::MoveRight);
    }
    assert_eq!(cursor(&e), start);
}

#[test]
fn example_walk_through_two_rows() {
    let mut e = editor_80x24("abc\nde\n");
    e.process_command(Command::End);
    assert_eq!(cursor(&e), (3, 0));
    e.process_command(Command::MoveRight);
    assert_eq!(cursor(&e), (0, 1));
    e.process_command(Command::MoveRight);
    assert_eq!(cursor(&e), (1, 1));
    e.process_command(Command::End);
    assert_eq!(cursor(&e), (2, 1));
    e.process_command(Command::MoveRight);
    assert_eq!(cursor(&e), (0, 2));
}

#[test]
fn vertical_moves_clamp_column_to_row_length() {
    let mut e = editor_80x24("abcd\nx\n");
    e.process_command(Command::End);
    assert_eq!(cursor(&e), (4, 0));
    e.process_command(Command::MoveDown);
    assert_eq!(cursor(&e), (1, 1), "column clamps to the shorter row");
    e.process_command(Command::MoveUp);
    assert_eq!(cursor(&e), (1, 0));
}

#[test]
fn page_moves_jump_by_viewport_height() {
    let mut text = String::new();
    for _ in 0..60 {
        text.push_str("r\n");
    }
    let mut e = editor_over(&text, 10, 12);
    e.process_command(Command::PageDown);
    assert_eq!(cursor(&e), (0, 10));
    e.process_command(Command::PageDown);
    assert_eq!(cursor(&e), (0, 20));
    e.process_command(Command::PageUp);
    assert_eq!(cursor(&e), (0, 10));
    e.process_command(Command::PageUp);
    assert_eq!(cursor(&e), (0, 0));
    for _ in 0..7 {
        e.process_command(Command::PageDown);
    }
    assert_eq!(cursor(&e), (0, 60), "page down stops one past the last row");
}

#[test]
fn insert_char_grows_row_and_advances_cursor() {
    let mut e = editor_80x24("ab\n");
    e.process_command(Command::MoveRight);
    assert_eq!(cursor(&e), (1, 0));
    e.process_command(Command::InsertChar('X'));
    assert_eq!(e.document().row(0).unwrap().len(), 3);
    assert_eq!(e.document().row(0).unwrap().string(), "aXb");
    assert_eq!(cursor(&e), (2, 0));
    assert!(e.document().is_dirty());
}

#[test]
fn insert_char_at_document_end_appends_row() {
    let mut e = editor_80x24("a\n");
    e.process_command(Command::MoveDown);
    assert_eq!(cursor(&e), (0, 1));
    e.process_command(Command::InsertChar('b'));
    assert_eq!(e.document().len(), 2);
    assert_eq!(e.document().row(1).unwrap().string(), "b");
    assert_eq!(cursor(&e), (1, 1));
}

#[test]
fn insert_newline_splits_and_homes_cursor() {
    let mut e = editor_80x24("abcd\n");
    e.process_command(Command::MoveRight);
    e.process_command(Command::MoveRight);
    e.process_command(Command::InsertNewline);
    assert_eq!(e.document().len(), 2);
    assert_eq!(e.document().row(0).unwrap().string(), "ab");
    assert_eq!(e.document().row(1).unwrap().string(), "cd");
    assert_eq!(cursor(&e), (0, 1));
}

#[test]
fn delete_backward_at_column_zero_joins_rows() {
    let mut e = editor_80x24("ab\ncd\n");
    e.process_command(Command::MoveDown);
    assert_eq!(cursor(&e), (0, 1));
    let rows_before = e.document().len();
    e.process_command(Command::DeleteBackward);
    assert_eq!(e.document().len(), rows_before - 1);
    assert_eq!(e.document().row(0).unwrap().string(), "abcd");
    assert_eq!(cursor(&e), (2, 0), "cursor sits at the join point");
}

#[test]
fn delete_backward_removes_previous_character() {
    let mut e = editor_80x24("abc\n");
    e.process_command(Command::End);
    e.process_command(Command::DeleteBackward);
    assert_eq!(e.document().row(0).unwrap().string(), "ab");
    assert_eq!(cursor(&e), (2, 0));
}

#[test]
fn delete_backward_at_origin_is_noop() {
    let mut e = editor_80x24("abc\n");
    e.process_command(Command::DeleteBackward);
    assert_eq!(e.document().row(0).unwrap().string(), "abc");
    assert_eq!(cursor(&e), (0, 0));
    assert!(!e.document().is_dirty());
}

#[test]
fn delete_forward_removes_character_under_cursor() {
    let mut e = editor_80x24("abc\n");
    e.process_command(Command::MoveRight);
    e.process_command(Command::DeleteForward);
    assert_eq!(e.document().row(0).unwrap().string(), "ac");
    assert_eq!(cursor(&e), (1, 0));
}

#[test]
fn quit_confirmation_needs_second_quit_when_dirty() {
    let mut e = editor_80x24("a\n");
    e.process_command(Command::InsertChar('b'));
    assert!(e.document().is_dirty());
    assert_eq!(e.quit_times(), 1);
    e.process_command(Command::Quit);
    assert!(!e.should_quit());
    assert_eq!(e.quit_times(), 0);
    assert_eq!(
        e.status().as_str(),
        "WARNING! File has unsaved changes. Press Ctrl-Q 1 more times to quit"
    );
    e.process_command(Command::Quit);
    assert!(e.should_quit());
}

#[test]
fn intervening_command_resets_quit_confirmation() {
    let mut e = editor_80x24("a\n");
    e.process_command(Command::InsertChar('b'));
    e.process_command(Command::Quit);
    assert_eq!(e.quit_times(), 0);
    e.process_command(Command::MoveRight);
    assert_eq!(e.quit_times(), 1);
    assert_eq!(e.status().as_str(), "");
    e.process_command(Command::Quit);
    assert!(!e.should_quit(), "the confirmation starts over");
    e.process_command(Command::Quit);
    assert!(e.should_quit());
}

#[test]
fn clean_document_quits_at_once() {
    let mut e = editor_80x24("a\n");
    e.process_command(Command::Quit);
    assert!(e.should_quit());
}

#[test]
fn unhandled_key_still_resets_confirmation() {
    let mut e = editor_80x24("a\n");
    e.process_command(Command::InsertChar('b'));
    e.process_command(Command::Quit);
    assert_eq!(e.quit_times(), 0);
    e.process_command(Command::Other);
    assert_eq!(e.quit_times(), 1);
}

#[test]
fn scroll_follows_cursor_and_is_idempotent() {
    let mut text = String::new();
    for i in 0..30 {
        text.push_str(&format!("line{}\n", i));
    }
    let mut e = editor_over(&text, 4, 5);
    let (width, height) = (4usize, 3usize);
    for _ in 0..40 {
        e.process_command(Command::MoveDown);
        let c = e.cursor_position();
        let o = e.offset();
        assert!(o.y <= c.y && c.y < o.y + height);
        assert!(o.x <= c.x && c.x < o.x + width);
        let before = e.offset();
        e.scroll();
        let after = e.offset();
        assert_eq!((before.x, before.y), (after.x, after.y));
    }
    for _ in 0..40 {
        e.process_command(Command::MoveUp);
        let c = e.cursor_position();
        let o = e.offset();
        assert!(o.y <= c.y && c.y < o.y + height);
    }
}

#[test]
fn horizontal_scroll_follows_cursor() {
    let mut e = editor_over("abcdefghij\n", 4, 6);
    for _ in 0..7 {
        e.process_command(Command::MoveRight);
    }
    let c = e.cursor_position();
    let o = e.offset();
    assert_eq!(c.x, 7);
    assert_eq!(o.x, 4, "offset puts the cursor on the window's last cell");
    e.process_command(Command::Home);
    assert_eq!(e.offset().x, 0);
}

#[test]
fn vertical_scroll_exact_offsets() {
    let mut e = editor_over("a\nb\nc\nd\ne\n", 10, 5);
    for _ in 0..4 {
        e.process_command(Command::MoveDown);
    }
    assert_eq!(e.cursor_position().y, 4);
    assert_eq!(e.offset().y, 2, "cursor y - height + 1 with height 3");
    e.process_command(Command::MoveUp);
    assert_eq!(e.offset().y, 2, "moving back inside the window keeps the offset");
    e.process_command(Command::PageUp);
    assert_eq!(e.cursor_position().y, 0);
    assert_eq!(e.offset().y, 0, "offset snaps back up to the cursor");
}

#[test]
fn screen_cursor_is_relative_to_offset() {
    let mut e = editor_over("abcdefghij\n", 4, 6);
    for _ in 0..7 {
        e.process_command(Command::MoveRight);
    }
    let s = e.screen_cursor();
    let c = e.cursor_position();
    let o = e.offset();
    assert_eq!(s.x, c.x - o.x);
    assert_eq!(s.y, c.y - o.y);
    assert!(s.x < 4);
}

#[test]
fn visible_row_renders_the_scrolled_window() {
    let mut e = editor_over("abcdefghij\nklm\n", 4, 6);
    assert_eq!(e.visible_row(0).expect("first row visible").as_str(), "abcd");
    assert_eq!(e.visible_row(1).expect("second row visible").as_str(), "klm");
    assert!(e.visible_row(2).is_none());
    for _ in 0..7 {
        e.process_command(Command::MoveRight);
    }
    let o = e.offset();
    assert_eq!(e.visible_row(0).expect("still visible").as_str(), &"abcdefghij"[o.x..o.x + 4]);
    assert_eq!(
        e.visible_row(1).expect("short row still exists").as_str(),
        "",
        "a row entirely left of the window renders empty"
    );
}

#[test]
fn welcome_banner_only_on_third_row_of_empty_document() {
    let empty = editor_80x24("");
    assert!(empty.shows_welcome(8));
    assert!(!empty.shows_welcome(7));
    assert!(!empty.shows_welcome(0));
    let full = editor_80x24("a\n");
    assert!(!full.shows_welcome(8));
}

#[test]
fn terminal_getter_reports_viewport() {
    let e = editor_over("a\n", 40, 12);
    assert_eq!(e.terminal().size().width, 40);
    assert_eq!(e.terminal().size().height, 10);
}

#[test]
fn save_with_known_name_proceeds() {
    let doc = Document::from_text(&"a\n".chars().collect(), Some("a.txt".to_string()));
    let mut e = Editor::new(Terminal::new(80, 26), doc, StatusMessage::from(String::new()));
    assert!(!e.needs_file_name());
    assert!(e.save(None));
    e.finish_save(true);
    assert!(!e.document().is_dirty());
    assert_eq!(e.status().as_str(), "File saved successfully");
}

#[test]
fn save_without_name_takes_the_prompted_one() {
    let mut e = editor_80x24("a\n");
    e.process_command(Command::InsertChar('b'));
    assert!(e.needs_file_name());
    assert!(e.save(Some("new.txt".to_string())));
    assert_eq!(e.document().file_name().as_deref(), Some("new.txt"));
    e.finish_save(true);
    assert!(!e.document().is_dirty());
}

#[test]
fn save_aborts_without_a_name() {
    let mut e = editor_80x24("a\n");
    e.process_command(Command::InsertChar('b'));
    assert!(!e.save(None));
    assert_eq!(e.status().as_str(), "Save aborted.");
    assert!(e.document().is_dirty(), "an aborted save keeps the dirty flag");
}

#[test]
fn failed_write_keeps_dirty_flag() {
    let mut e = editor_80x24("a\n");
    e.process_command(Command::InsertChar('b'));
    assert!(e.save(Some("x.txt".to_string())));
    e.finish_save(false);
    assert!(e.document().is_dirty());
    assert_eq!(e.status().as_str(), "Error writing file");
}

#[test]
fn save_command_is_reported_to_the_caller() {
    let mut e = editor_80x24("a\n");
    assert!(e.process_command(Command::Save));
    assert!(!e.process_command(Command::MoveRight));
}

#[test]
fn prompt_collects_printable_characters() {
    let mut buf: Vec<char> = Vec::new();
    assert_eq!(prompt_step(&mut buf, PromptKey::Char('a')), PromptStatus::Pending);
    assert_eq!(prompt_step(&mut buf, PromptKey::Char('b')), PromptStatus::Pending);
    assert_eq!(prompt_step(&mut buf, PromptKey::Char('\u{7}')), PromptStatus::Pending);
    assert_eq!(buf, vec!['a', 'b'], "control characters are ignored");
    assert_eq!(prompt_step(&mut buf, PromptKey::Backspace), PromptStatus::Pending);
    assert_eq!(buf, vec!['a']);
    assert_eq!(prompt_step(&mut buf, PromptKey::Enter), PromptStatus::Submitted);
    assert_eq!(prompt_result(&buf).as_deref(), Some("a"));
}

#[test]
fn prompt_escape_cancels_and_empties() {
    let mut buf: Vec<char> = Vec::new();
    prompt_step(&mut buf, PromptKey::Char('x'));
    assert_eq!(prompt_step(&mut buf, PromptKey::Esc), PromptStatus::Cancelled);
    assert!(buf.is_empty());
    assert!(prompt_result(&buf).is_none());
}

#[test]
fn prompt_backspace_on_empty_buffer_is_noop() {
    let mut buf: Vec<char> = Vec::new();
    assert_eq!(prompt_step(&mut buf, PromptKey::Backspace), PromptStatus::Pending);
    assert!(buf.is_empty());
    assert_eq!(prompt_step(&mut buf, PromptKey::Other), PromptStatus::Pending);
    assert!(buf.is_empty());
}

#[test]
fn empty_document_cursor_stays_at_origin() {
    let mut e = editor_80x24("");
    e.process_command(Command::MoveRight);
    assert_eq!(cursor(&e), (0, 0));
    e.process_command(Command::MoveLeft);
    assert_eq!(cursor(&e), (0, 0));
    e.process_command(Command::End);
    assert_eq!(cursor(&e), (0, 0));
    assert!(e.visible_row(0).is_none());
}

#[test]
fn tiny_viewport_still_contains_cursor() {
    let mut e = editor_over("abc\ndef\nghi\n", 1, 3);
    for _ in 0..8 {
        e.process_command(Command::MoveRight);
        let c = e.cursor_position();
        let o = e.offset();
        assert!(o.x <= c.x && c.x < o.x + 1);
        assert!(o.y <= c.y && c.y < o.y + 1);
    }
}

#[test]
fn status_message_can_be_replaced() {
    let mut e = editor_80x24("a\n");
    e.set_status(StatusMessage::from("hello".to_string()));
    assert_eq!(e.status().as_str(), "hello");
    assert_eq!(StatusMessage::from("msg".to_string()).text().as_str(), "msg");
}

#[test]
fn position_default_is_origin() {
    let p = Position::default();
    assert_eq!(p, Position { x: 0, y: 0 });
}
