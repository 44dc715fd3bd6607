use muse::controller::App;
use muse::state::{EditAction, Editor};
use muse::transport::Admission;
use muse::text::cells;

#[test]
fn cursor_edits_whole_graphemes_and_stays_visible_in_narrow_fields() {
    let mut editor = Editor::new(EditAction::Search, "가나👨‍👩‍👧‍👦다".into());
    editor.move_cursor(false);
    editor.backspace();
    assert_eq!(editor.buffer, "가나다");
    editor.insert("X");
    assert_eq!(editor.buffer, "가나X다");
    editor.delete();
    assert_eq!(editor.buffer, "가나X");
    editor.edge(false);
    editor.insert("첫\n줄 ");
    assert_eq!(editor.buffer, "첫 줄 가나X");
    editor.edge(true);
    for width in 1..10 {
        let visible = editor.visible(width);
        assert!(cells(&visible) <= width && visible.contains('▏'));
    }
    editor.clear();
    assert_eq!(editor.visible(10), "▏");
}

#[test]
fn editor_limits_and_grapheme_deletion_preserve_input() {
    let mut editor = Editor::new(EditAction::Search, "가사👨‍👩‍👧‍👦".into());
    editor.backspace();
    assert_eq!(editor.buffer, "가사");
    editor.insert(&"가".repeat(300));
    assert_eq!(editor.buffer.chars().count(), 200);
    let mut app = App::default();
    app.edit(EditAction::Create(None), " ".into());
    assert!(app.commit_edit().is_err());
    assert!(app.ui.editor.is_some());
    assert_eq!(app.flush(|_| Ok(Admission::Accepted)).unwrap(), 0);
}

#[test]
fn new_editor_starts_at_the_end_and_limits_follow_the_field() {
    let editor = Editor::new(EditAction::Rename("p".into()), "abc".into());
    assert_eq!(editor.cursor, 3);
    assert_eq!(EditAction::Describe("p".into()).limit(), 2000);
    assert_eq!(EditAction::Search.limit(), 200);
    assert_eq!(EditAction::Rename("p".into()).limit(), 100);
    assert_eq!(EditAction::Search.label(), "검색");
}

#[test]
fn cursor_moves_stop_at_the_edges() {
    let mut editor = Editor::new(EditAction::Search, "ab".into());
    editor.move_cursor(true);
    assert_eq!(editor.cursor, 2);
    editor.edge(false);
    editor.move_cursor(false);
    assert_eq!(editor.cursor, 0);
    editor.backspace();
    assert_eq!(editor.buffer, "ab");
    editor.delete();
    assert_eq!(editor.buffer, "b");
}
