use yonro_text_editor::editor::buffer::Buffer;
use yonro_text_editor::editor::command::{Edit, Move};
use yonro_text_editor::editor::uicomponent::UIComponent;
use yonro_text_editor::editor::view::View;
use yonro_text_editor::prelude::{Location, Position, Rect, Size};

fn setup_view_and_buffer(text: &str) -> (View, Buffer) {
    let mut view = View::default();
    let mut buffer = Buffer::default();
    view.set_size(Rect {
        position: Position { row: 0, col: 0 },
        size: Size { height: 24, width: 80 },
    });
    for ch in text.chars() {
        if ch == '\n' {
            view.handle_edit_command(Edit::InsertNewLine, &mut buffer);
        } else {
            view.handle_edit_command(Edit::Insert(ch), &mut buffer);
        }
    }
    view.undo_stack.clear();
    view.redo_stack.clear();
    view.text_location = Location { line_idx: 0, grapheme_idx: 0 };
    (view, buffer)
}

#[test]
fn undo_single_insert() {
    let mut view = View::default();
    let mut buffer = Buffer::default();
    view.handle_edit_command(Edit::Insert('a'), &mut buffer);
    assert_eq!(buffer.grapheme_count(0), 1);
    view.undo(&mut buffer);
    assert_eq!(buffer.grapheme_count(0), 0);
}

#[test]
fn redo_single_insert() {
    let mut view = View::default();
    let mut buffer = Buffer::default();
    view.handle_edit_command(Edit::Insert('a'), &mut buffer);
    view.undo(&mut buffer);
    view.redo(&mut buffer);
    assert_eq!(buffer.grapheme_count(0), 1);
}

#[test]
fn undo_multiple_inserts() {
    let mut view = View::default();
    let mut buffer = Buffer::default();
    for ch in "hello".chars() {
        view.handle_edit_command(Edit::Insert(ch), &mut buffer);
    }
    assert_eq!(buffer.grapheme_count(0), 5);
    for _ in 0..5 {
        view.undo(&mut buffer);
    }
    assert_eq!(buffer.grapheme_count(0), 0);
}

#[test]
fn undo_newline_merges_lines() {
    let mut view = View::default();
    let mut buffer = Buffer::default();
    for ch in "hello".chars() {
        view.handle_edit_command(Edit::Insert(ch), &mut buffer);
    }
    view.handle_edit_command(Edit::InsertNewLine, &mut buffer);
    assert_eq!(buffer.height(), 2);
    view.undo(&mut buffer);
    assert_eq!(buffer.height(), 1);
    assert_eq!(buffer.grapheme_count(0), 5);
}

#[test]
fn delete_undo_redo() {
    let (mut view, mut buffer) = setup_view_and_buffer("hi");
    view.handle_edit_command(Edit::Delete, &mut buffer);
    assert_eq!(buffer.grapheme_count(0), 1);
    view.undo(&mut buffer);
    assert_eq!(buffer.grapheme_count(0), 2);
    view.redo(&mut buffer);
    assert_eq!(buffer.grapheme_count(0), 1);
}

#[test]
fn rapid_inserts_form_a_group() {
    let mut view = View::default();
    let mut buffer = Buffer::default();
    for ch in "hello".chars() {
        view.handle_edit_command(Edit::Insert(ch), &mut buffer);
        view.last_insert_time = Some(std::time::Instant::now());
        view.last_insert_location = Some(view.text_location);
    }
    assert_eq!(view.undo_stack.len(), 1);
    view.undo(&mut buffer);
    assert_eq!(buffer.grapheme_count(0), 0);
}

#[test]
fn move_left_wrap_around() {
    let (mut view, buffer) = setup_view_and_buffer("a\nb");
    view.text_location = Location { line_idx: 1, grapheme_idx: 0 };
    view.handle_move_command(Move::Left, &buffer);
    assert_eq!(view.text_location.line_idx, 0);
    assert_eq!(view.text_location.grapheme_idx, 1);
}

#[test]
fn quick_typing_is_undone_at_once() {
    let mut view = View::default();
    let mut buffer = Buffer::default();
    for ch in "hello".chars() {
        view.handle_edit_command(Edit::Insert(ch), &mut buffer);
    }
    assert_eq!(view.last_insert_location, Some(view.text_location));
    assert_eq!(view.undo_stack.len(), 1);
    view.undo(&mut buffer);
    assert_eq!(buffer.grapheme_count(0), 0);
}
