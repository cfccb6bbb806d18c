use yonro_text_editor::editor::border::border_lines;
use yonro_text_editor::editor::annotation::AnnotationType;
use yonro_text_editor::editor::buffer::Buffer;
use yonro_text_editor::editor::highlight::match_annotations;
use yonro_text_editor::editor::line::Line;
use yonro_text_editor::editor::bufferbar::{buffer_tabs, BarItem, BufferBar};
use yonro_text_editor::editor::cmdline::{parse_pane_command, parse_usize, split_words, PaneCommand};
use yonro_text_editor::editor::command::{Command, Edit, MouseCommand, Move, System};
use yonro_text_editor::editor::context::PromptType;
use yonro_text_editor::editor::events::{
    key_to_command, mouse_to_command, EditorEvent, KeyCode, KeyInput, KeyModifiers, MouseAction,
    MouseButton, MouseInput,
};
use yonro_text_editor::editor::fileexplorer::{FileEntry, FileExplorer};
use yonro_text_editor::editor::handlers::{
    execute_pane_command, finish_save, handle_quit, handle_save_command, HandlerRegistry,
};
use yonro_text_editor::editor::documentstatus::DocumentStatus;
use yonro_text_editor::editor::fileinfo::{file_type_for, FileType};
use yonro_text_editor::editor::buffermanager::BufferManager;
use yonro_text_editor::editor::pane::{Pane, PaneContent};
use yonro_text_editor::editor::statusbar::StatusBar;
use yonro_text_editor::editor::view::View;
use yonro_text_editor::editor::plugins::PluginResponse;
use yonro_text_editor::editor::{Editor, PluginFollowUp, HELP_MESSAGE};
use yonro_text_editor::prelude::{Location, Position, Rect, Size};

fn share(extent: usize, ratio: u32) -> usize {
    (extent as f32 * f32::from_bits(ratio)) as usize
}

fn ratio_at(local: usize, total: usize) -> u32 {
    (local as f32 / total as f32).clamp(0.05, 0.95).to_bits()
}

fn new_editor() -> Editor {
    Editor::new(Size { height: 24, width: 80 }, &share)
}

fn key(c: char) -> EditorEvent {
    EditorEvent::Key(KeyInput { key_code: KeyCode::Char(c), modifiers: KeyModifiers::none() })
}

fn ctrl(c: char) -> EditorEvent {
    EditorEvent::Key(KeyInput { key_code: KeyCode::Char(c), modifiers: KeyModifiers::ctrl_only() })
}

fn special(code: KeyCode) -> EditorEvent {
    EditorEvent::Key(KeyInput { key_code: code, modifiers: KeyModifiers::none() })
}

fn active_text(editor: &Editor) -> Vec<String> {
    let id = editor.ctx.active_buffer_id().unwrap();
    editor.ctx.buffer_manager.get(id).unwrap().lines_as_strings()
}

#[test]
fn new_editor_lays_out_one_pane() {
    let editor = new_editor();
    assert_eq!(editor.ctx.message_bar.message, HELP_MESSAGE);
    let layouts = editor.ctx.layout_tree.collect_leaf_layouts();
    assert_eq!(layouts.len(), 1);
    assert_eq!(layouts[0].0, 0);
    assert_eq!(
        layouts[0].1,
        Rect { position: Position { row: 1, col: 0 }, size: Size { height: 21, width: 80 } }
    );
    assert_eq!(editor.status_bar.rect.position.row, 22);
    assert_eq!(editor.ctx.message_bar.rect.position.row, 23);
}

#[test]
fn typing_goes_into_the_active_buffer() {
    let mut editor = new_editor();
    for c in "hi".chars() {
        editor.handle_event(key(c), &share, &ratio_at);
    }
    editor.handle_event(special(KeyCode::Enter), &share, &ratio_at);
    editor.handle_event(key('x'), &share, &ratio_at);
    assert_eq!(active_text(&editor), vec!["hi".to_string(), "x".to_string()]);
}

#[test]
fn undo_then_redo_through_keys() {
    let mut editor = new_editor();
    editor.handle_event(key('a'), &share, &ratio_at);
    editor.handle_event(special(KeyCode::Enter), &share, &ratio_at);
    editor.handle_event(ctrl('z'), &share, &ratio_at);
    assert_eq!(active_text(&editor), vec!["a".to_string()]);
    editor.handle_event(ctrl('r'), &share, &ratio_at);
    assert_eq!(active_text(&editor), vec!["a".to_string(), String::new()]);
}

#[test]
fn undo_restores_text_of_an_edit() {
    let mut buffer = Buffer::from_text("hi\nthere", "notes.txt");
    let mut view = View::default();
    view.text_location = Location { line_idx: 0, grapheme_idx: 1 };
    view.handle_edit_command(Edit::Insert('x'), &mut buffer);
    assert_eq!(buffer.lines_as_strings(), vec!["hxi".to_string(), "there".to_string()]);
    view.undo(&mut buffer);
    assert_eq!(buffer.lines_as_strings(), vec!["hi".to_string(), "there".to_string()]);
    view.text_location = Location { line_idx: 0, grapheme_idx: 2 };
    view.handle_edit_command(Edit::Delete, &mut buffer);
    assert_eq!(buffer.lines_as_strings(), vec!["hithere".to_string()]);
    view.undo(&mut buffer);
    assert_eq!(buffer.lines_as_strings(), vec!["hi".to_string(), "there".to_string()]);
    view.redo(&mut buffer);
    assert_eq!(buffer.lines_as_strings(), vec!["hithere".to_string()]);
}

#[test]
fn quitting_a_modified_buffer_takes_three_asks() {
    let mut editor = new_editor();
    editor.handle_event(key('a'), &share, &ratio_at);
    handle_quit(&mut editor.ctx);
    assert!(!editor.ctx.should_quit);
    assert_eq!(
        editor.ctx.message_bar.message,
        "Warning! File has unsaved changes. Press Ctrl-Q 2 more times to quit."
    );
    handle_quit(&mut editor.ctx);
    assert!(!editor.ctx.should_quit);
    assert_eq!(
        editor.ctx.message_bar.message,
        "Warning! File has unsaved changes. Press Ctrl-Q 1 more times to quit."
    );
    handle_quit(&mut editor.ctx);
    assert!(editor.ctx.should_quit);
}

#[test]
fn quitting_an_unmodified_buffer_is_immediate() {
    let mut editor = new_editor();
    editor.handle_event(ctrl('q'), &share, &ratio_at);
    assert!(editor.ctx.should_quit);
}

#[test]
fn saving_an_unnamed_buffer_prompts_then_asks_to_write() {
    let mut editor = new_editor();
    editor.handle_event(key('a'), &share, &ratio_at);
    handle_save_command(&mut editor.ctx);
    assert_eq!(editor.ctx.prompt_type, PromptType::Save);
    for c in "out.txt".chars() {
        editor.handle_event(key(c), &share, &ratio_at);
    }
    editor.handle_event(special(KeyCode::Enter), &share, &ratio_at);
    assert_eq!(editor.ctx.prompt_type, PromptType::NoPrompt);
    let request = editor.ctx.save_request.clone().unwrap();
    assert_eq!(request.file_name, Some("out.txt".to_string()));
    finish_save(&mut editor.ctx, true);
    assert!(editor.ctx.save_request.is_none());
    assert_eq!(editor.ctx.message_bar.message, "File saved successfully.");
    let buffer = editor.ctx.buffer_manager.get(request.buffer_id).unwrap();
    assert!(!buffer.is_dirty());
    assert_eq!(buffer.get_file_info().get_path(), Some(&"out.txt".to_string()));
}

#[test]
fn failed_write_keeps_the_buffer_modified() {
    let mut editor = new_editor();
    editor.handle_event(key('a'), &share, &ratio_at);
    handle_save_command(&mut editor.ctx);
    editor.handle_event(key('f'), &share, &ratio_at);
    editor.handle_event(special(KeyCode::Enter), &share, &ratio_at);
    let request = editor.ctx.save_request.clone().unwrap();
    finish_save(&mut editor.ctx, false);
    assert_eq!(editor.ctx.message_bar.message, "Error writing file!");
    assert!(editor.ctx.buffer_manager.get(request.buffer_id).unwrap().is_dirty());
}

#[test]
fn dismissing_the_save_prompt_aborts() {
    let mut editor = new_editor();
    handle_save_command(&mut editor.ctx);
    editor.handle_event(special(KeyCode::Esc), &share, &ratio_at);
    assert_eq!(editor.ctx.prompt_type, PromptType::NoPrompt);
    assert_eq!(editor.ctx.message_bar.message, "Save aborted");
    assert!(editor.ctx.save_request.is_none());
}

#[test]
fn search_moves_the_caret_and_escape_restores_it() {
    let mut editor = new_editor();
    for c in "abc abc".chars() {
        editor.handle_event(key(c), &share, &ratio_at);
    }
    editor.handle_event(special(KeyCode::Home), &share, &ratio_at);
    editor.handle_event(ctrl('f'), &share, &ratio_at);
    assert_eq!(editor.ctx.prompt_type, PromptType::Search);
    editor.handle_event(key('c'), &share, &ratio_at);
    let loc = editor.ctx.pane_manager.active_pane().unwrap().view().unwrap().text_location;
    assert_eq!(loc, Location { line_idx: 0, grapheme_idx: 2 });
    editor.handle_event(special(KeyCode::Right), &share, &ratio_at);
    let loc = editor.ctx.pane_manager.active_pane().unwrap().view().unwrap().text_location;
    assert_eq!(loc, Location { line_idx: 0, grapheme_idx: 6 });
    editor.handle_event(special(KeyCode::Esc), &share, &ratio_at);
    let loc = editor.ctx.pane_manager.active_pane().unwrap().view().unwrap().text_location;
    assert_eq!(loc, Location { line_idx: 0, grapheme_idx: 0 });
    assert_eq!(editor.ctx.prompt_type, PromptType::NoPrompt);
}

#[test]
fn split_then_close_restores_the_layout() {
    let mut editor = new_editor();
    let before = editor.ctx.layout_tree.collect_leaf_layouts();
    editor.handle_event(ctrl('v'), &share, &ratio_at);
    let after_split = editor.ctx.layout_tree.collect_leaf_layouts();
    assert_eq!(after_split.len(), 2);
    let new_id = editor.ctx.pane_manager.active_pane().unwrap().pane_id;
    assert_eq!(after_split[1].0, new_id);
    execute_pane_command(&format!("close {new_id}"), &mut editor.ctx, &share);
    assert_eq!(editor.ctx.layout_tree.collect_leaf_layouts(), before);
    assert_eq!(editor.ctx.message_bar.message, format!("Pane {new_id} closed"));
    assert_eq!(editor.ctx.pane_manager.active_pane().unwrap().pane_id, 0);
}

#[test]
fn panes_are_listed_in_the_order_they_were_made() {
    let mut editor = new_editor();
    editor.handle_event(ctrl('v'), &share, &ratio_at);
    let new_id = editor.ctx.pane_manager.active_pane().unwrap().pane_id;
    let ids = editor.ctx.pane_manager.ids();
    assert_eq!(ids, vec![0, new_id]);
    let panes = editor.ctx.pane_manager.iter();
    assert_eq!(panes.len(), 2);
    assert_eq!(panes[0].pane_id, 0);
    assert_eq!(panes[1].pane_id, new_id);
    assert!(!panes[0].active);
    assert!(panes[1].active);
}

#[test]
fn the_last_tiled_pane_cannot_be_closed() {
    let mut editor = new_editor();
    execute_pane_command("close", &mut editor.ctx, &share);
    assert_eq!(editor.ctx.message_bar.message, "Cannot close the last tiled pane!");
    let layouts = editor.ctx.layout_tree.collect_leaf_layouts();
    assert_eq!(layouts.len(), 1);
    assert_eq!(layouts[0].0, 0);
}

#[test]
fn focusing_a_missing_pane_says_so() {
    let mut editor = new_editor();
    execute_pane_command("focus 9", &mut editor.ctx, &share);
    assert_eq!(editor.ctx.message_bar.message, "Pane 9 not found");
    execute_pane_command("bogus", &mut editor.ctx, &share);
    assert_eq!(
        editor.ctx.message_bar.message,
        "Commands: focus <id> (or just <id>), close [<id>], float, unfloat, explore"
    );
    execute_pane_command("explore", &mut editor.ctx, &share);
    assert!(editor.ctx.explorer_request);
}

#[test]
fn floating_a_split_pane_and_tiling_it_back() {
    let mut editor = new_editor();
    editor.handle_event(ctrl('v'), &share, &ratio_at);
    let id = editor.ctx.pane_manager.active_pane().unwrap().pane_id;
    execute_pane_command("float", &mut editor.ctx, &share);
    assert!(editor.ctx.pane_manager.get_pane(id).unwrap().is_floating);
    assert_eq!(editor.ctx.message_bar.message, format!("Pane {id} is now floating"));
    let leaves: Vec<usize> =
        editor.ctx.layout_tree.collect_leaf_layouts().iter().map(|l| l.0).collect();
    assert_eq!(leaves, vec![0]);
    execute_pane_command("float", &mut editor.ctx, &share);
    assert_eq!(editor.ctx.message_bar.message, "Pane is already floating.");
    execute_pane_command("unfloat", &mut editor.ctx, &share);
    assert!(!editor.ctx.pane_manager.get_pane(id).unwrap().is_floating);
    assert_eq!(editor.ctx.message_bar.message, format!("Pane {id} is now tiled"));
    let leaves: Vec<usize> =
        editor.ctx.layout_tree.collect_leaf_layouts().iter().map(|l| l.0).collect();
    assert_eq!(leaves, vec![0, id]);
}

#[test]
fn prompt_handler_takes_commands_while_a_prompt_is_shown() {
    let mut editor = new_editor();
    editor.handle_event(ctrl('f'), &share, &ratio_at);
    editor.handle_event(key('z'), &share, &ratio_at);
    assert_eq!(active_text(&editor), Vec::<String>::new());
    assert_eq!(editor.ctx.command_bar.value(), "z");
    let mut registry = HandlerRegistry::default();
    let r = registry.dispatch(&Command::Edit(Edit::DeleteBackward), &mut editor.ctx, &share, &ratio_at);
    assert!(r.is_ok());
    assert_eq!(editor.ctx.command_bar.value(), "");
    let r = registry.dispatch(&Command::System(System::Dismiss), &mut editor.ctx, &share, &ratio_at);
    assert!(r.is_ok());
    assert_eq!(editor.ctx.prompt_type, PromptType::NoPrompt);
    let r = registry.dispatch(&Command::Move(Move::Right), &mut editor.ctx, &share, &ratio_at);
    assert!(r.is_ok());
}

#[test]
fn pane_command_parsing() {
    assert_eq!(parse_pane_command("focus 3"), PaneCommand::Focus(3));
    assert_eq!(parse_pane_command("  7 "), PaneCommand::Focus(7));
    assert_eq!(parse_pane_command("+5"), PaneCommand::Focus(5));
    assert_eq!(parse_pane_command("close 2"), PaneCommand::Close(2));
    assert_eq!(parse_pane_command("close"), PaneCommand::CloseActive);
    assert_eq!(parse_pane_command("close x"), PaneCommand::Ignored);
    assert_eq!(parse_pane_command("focus"), PaneCommand::Help);
    assert_eq!(parse_pane_command("float"), PaneCommand::Float);
    assert_eq!(parse_pane_command("unfloat"), PaneCommand::Unfloat);
    assert_eq!(parse_pane_command("explore"), PaneCommand::Explore);
    assert_eq!(parse_pane_command("18446744073709551616"), PaneCommand::Help);
    assert_eq!(parse_pane_command(""), PaneCommand::Help);
}

#[test]
fn number_and_word_parsing() {
    assert_eq!(parse_usize(&"42".chars().collect()), Some(42));
    assert_eq!(parse_usize(&"+".chars().collect()), None);
    assert_eq!(parse_usize(&"4a".chars().collect()), None);
    assert_eq!(parse_usize(&"18446744073709551615".chars().collect()), Some(usize::MAX));
    let words = split_words(" a\tbc  d ");
    let words: Vec<String> = words.iter().map(|w| w.iter().collect()).collect();
    assert_eq!(words, vec!["a".to_string(), "bc".to_string(), "d".to_string()]);
}

#[test]
fn welcome_line_is_centred() {
    assert_eq!(View::build_welcome_message(0), "");
    assert_eq!(View::build_welcome_message(10), "~");
    assert_eq!(
        View::build_welcome_message(50),
        "~    yonro_text_editor editor -- version 0.1.0    "
    );
}

#[test]
fn content_rows_show_text_tildes_and_welcome() {
    let view = View::default();
    let empty = Buffer::default();
    let rect = Rect { position: Position { row: 0, col: 0 }, size: Size { height: 3, width: 50 } };
    let rows: Vec<String> =
        view.draw_content_with_buffer(rect, &empty).iter().map(|r| r.to_string()).collect();
    assert_eq!(rows[0], "~");
    assert_eq!(rows[1], "~    yonro_text_editor editor -- version 0.1.0    ");
    let buffer = Buffer::from_text("hello\nworld", "a.txt");
    let narrow = Rect { position: Position { row: 0, col: 0 }, size: Size { height: 3, width: 3 } };
    let rows: Vec<String> =
        view.draw_content_with_buffer(narrow, &buffer).iter().map(|r| r.to_string()).collect();
    assert_eq!(rows, vec!["hel".to_string(), "wor".to_string(), "~".to_string()]);
}

#[test]
fn buffer_bar_tabs_are_cut_at_the_bar_end() {
    let mut bar = BufferBar::default();
    bar.rect = Rect { position: Position { row: 0, col: 0 }, size: Size { height: 1, width: 20 } };
    let tabs = vec![(0, "untitled".to_string()), (1, "notes.txt".to_string())];
    let items: Vec<BarItem> = bar.lay_out(&tabs, Some(1), &vec![4]);
    assert_eq!(items.len(), 2);
    assert_eq!(items[0].text, " [0: untitled] ");
    assert_eq!(items[0].col, 0);
    assert!(!items[0].highlighted);
    assert_eq!(items[1].text, " [1: ");
    assert_eq!(items[1].col, 15);
    assert!(items[1].highlighted);
    assert_eq!(bar.tab_hitboxes, vec![(0, 0, 15), (1, 15, 20)]);
    assert!(bar.minimized_hitboxes.is_empty());
    bar.rect.size.width = 40;
    let items = bar.lay_out(&vec![(0, "a".to_string())], None, &vec![4]);
    let texts: Vec<String> = items.iter().map(|i| i.text.clone()).collect();
    assert_eq!(texts, vec![" [0: a] ".to_string(), " | MIN: ".to_string(), "<P4> ".to_string()]);
    assert_eq!(bar.minimized_hitboxes, vec![(4, 16, 21)]);
}

#[test]
fn unbound_keys_and_mouse_events_are_reported() {
    let r = key_to_command(KeyInput { key_code: KeyCode::Other, modifiers: KeyModifiers::none() });
    assert_eq!(
        r,
        Err("Unbound key Other with KeyModifiers { ctrl: false, shift: false, alt: false }".to_string())
    );
    let r = key_to_command(KeyInput { key_code: KeyCode::Up, modifiers: KeyModifiers::ctrl_only() });
    assert_eq!(r, Err("Unbound Ctrl+Up".to_string()));
    let mouse = MouseInput {
        position: Position { row: 1, col: 2 },
        button: Some(MouseButton::Right),
        action: MouseAction::Down,
    };
    let r = mouse_to_command(mouse);
    assert_eq!(
        r,
        Err("Unhandled mouse event MouseInput { position: Position { row: 1, col: 2 }, button: Some(Right), action: Down }".to_string())
    );
}

#[test]
fn explorer_selection_leads_to_parent_and_child_paths() {
    let entries = vec![FileEntry { name: "b.txt".to_string(), is_dir: false }];
    let mut explorer = FileExplorer::with_listing("/tmp/a", entries);
    assert_eq!(explorer.selection_target(), Some("/tmp".to_string()));
    explorer.handle_move_command(Move::Down);
    assert_eq!(explorer.selection_target(), Some("/tmp/a/b.txt".to_string()));
}

#[test]
fn floating_pane_opens_where_asked() {
    let mut editor = new_editor();
    let entries = vec![FileEntry { name: "b.txt".to_string(), is_dir: false }];
    let explorer = FileExplorer::with_listing("/tmp", entries);
    let rect = Rect { position: Position { row: 2, col: 4 }, size: Size { height: 24, width: 42 } };
    let id = editor.open_floating_pane(PaneContent::Plugin(Box::new(explorer)), rect).unwrap();
    let pane = editor.ctx.pane_manager.get_pane(id).unwrap();
    assert!(pane.is_floating);
    assert_eq!(pane.rect, rect);
    assert_eq!(pane.title_text(), format!("─ [Plugin {id}]  "));
    editor.close_plugin_pane(id, &share);
    assert!(editor.ctx.pane_manager.get_pane(id).is_none());
}

#[test]
fn keys_and_mouse_events_as_commands() {
    let quit = System::from_key(KeyInput { key_code: KeyCode::Char('q'), modifiers: KeyModifiers::ctrl_only() });
    assert_eq!(quit, Ok(System::Quit));
    let esc = System::from_key(KeyInput { key_code: KeyCode::Esc, modifiers: KeyModifiers::none() });
    assert_eq!(esc, Ok(System::Dismiss));
    let bad = System::from_key(KeyInput { key_code: KeyCode::Char('x'), modifiers: KeyModifiers::ctrl_only() });
    assert_eq!(bad, Err("Unsupported CONTROL+Char('x') combination".to_string()));
    let plain = System::from_key(KeyInput { key_code: KeyCode::Char('x'), modifiers: KeyModifiers::none() });
    assert_eq!(
        plain,
        Err("Unsupported key code Char('x') or modifier KeyModifiers { ctrl: false, shift: false, alt: false }".to_string())
    );
    let at = Position { row: 3, col: 4 };
    let drag = MouseInput { position: at, button: Some(MouseButton::Left), action: MouseAction::Drag };
    assert_eq!(MouseCommand::from_mouse(drag), Ok(MouseCommand::LeftDrag(at)));
    let wheel = MouseInput { position: at, button: None, action: MouseAction::ScrollDown };
    assert_eq!(MouseCommand::from_mouse(wheel), Ok(MouseCommand::ScrollDown(at)));
    let right = MouseInput { position: at, button: Some(MouseButton::Right), action: MouseAction::Up };
    assert_eq!(MouseCommand::from_mouse(right), Err("Mouse event not supported".to_string()));
}

#[test]
fn status_line_puts_the_position_at_the_right_end() {
    let mut bar = StatusBar::default();
    bar.rect = Rect { position: Position { row: 22, col: 0 }, size: Size { height: 1, width: 50 } };
    bar.update_status(DocumentStatus {
        total_lines: 12,
        current_line_idx: 2,
        is_modified: true,
        file_name: String::from("notes.txt"),
        file_type: FileType::Text,
    });
    let expected = format!("notes.txt - 12 lines (modified){}Text | 3/12", " ".repeat(8));
    assert_eq!(bar.status_text(), expected);
    assert_eq!(bar.status_text().chars().count(), 50);
    bar.rect.size.width = 40;
    assert_eq!(bar.status_text(), "");
}

#[test]
fn document_status_texts() {
    let status = DocumentStatus {
        total_lines: 7,
        current_line_idx: 0,
        is_modified: false,
        file_name: String::from("main.rs"),
        file_type: FileType::Rust,
    };
    assert_eq!(status.line_count_to_string(), "7 lines");
    assert_eq!(status.modified_indicator_to_string(), "");
    assert_eq!(status.position_indicator_to_string(), "1/7");
    assert_eq!(status.file_type_to_string(), "Rust");
}

#[test]
fn border_of_a_small_rectangle() {
    let rect = Rect { position: Position { row: 2, col: 3 }, size: Size { height: 3, width: 4 } };
    let lines = border_lines(rect);
    let expected = vec![
        (Position { row: 2, col: 3 }, String::from("┌──┐")),
        (Position { row: 3, col: 3 }, String::from("│")),
        (Position { row: 3, col: 6 }, String::from("│")),
        (Position { row: 4, col: 3 }, String::from("└──┘")),
    ];
    assert_eq!(lines, expected);
    let thin = Rect { position: Position { row: 0, col: 0 }, size: Size { height: 1, width: 10 } };
    assert!(border_lines(thin).is_empty());
}

fn view_pane(id: usize, rect: Rect, minimized: bool) -> Pane {
    let mut view = View::default();
    view.needs_redraw = true;
    Pane {
        pane_id: id,
        content: PaneContent::TextView(view),
        active: true,
        is_floating: false,
        z_index: 0,
        is_minimized: minimized,
        rect,
    }
}

#[test]
fn a_view_pane_is_framed_with_title_and_buttons() {
    let mut buffers = BufferManager::new();
    buffers.add(Buffer::default());
    let rect = Rect { position: Position { row: 1, col: 0 }, size: Size { height: 3, width: 12 } };
    let pane = view_pane(4, rect, false);
    let prints = pane.frame_prints(&buffers);
    let expected = vec![
        (Position { row: 1, col: 0 }, String::from("┌──────────┐")),
        (Position { row: 2, col: 0 }, String::from("│")),
        (Position { row: 2, col: 11 }, String::from("│")),
        (Position { row: 3, col: 0 }, String::from("└──────────┘")),
        (Position { row: 1, col: 1 }, String::from("─ [4]* ")),
        (Position { row: 1, col: 5 }, String::from("[-][x]")),
    ];
    assert_eq!(prints, expected);
    assert_eq!(
        pane.inner_rect(),
        Rect { position: Position { row: 2, col: 1 }, size: Size { height: 1, width: 10 } }
    );
    let no_buffers = BufferManager::new();
    assert!(pane.frame_prints(&no_buffers).is_empty());
}

#[test]
fn a_minimized_pane_shows_its_top_line_and_blank_rows() {
    let buffers = BufferManager::new();
    let rect = Rect { position: Position { row: 0, col: 2 }, size: Size { height: 3, width: 20 } };
    let pane = view_pane(1, rect, true);
    let prints = pane.frame_prints(&buffers);
    assert_eq!(prints.len(), 3);
    assert_eq!(prints[0].0, Position { row: 0, col: 2 });
    assert_eq!(prints[0].1, pane.minimized_top_line().unwrap());
    assert_eq!(prints[1], (Position { row: 1, col: 2 }, " ".repeat(20)));
    assert_eq!(prints[2], (Position { row: 2, col: 2 }, " ".repeat(20)));
}

#[test]
fn floating_panes_are_drawn_after_the_tiled_ones() {
    let mut editor = new_editor();
    editor.handle_event(ctrl('v'), &share, &ratio_at);
    let second = editor.ctx.pane_manager.active_pane().unwrap().pane_id;
    assert_eq!(editor.pane_draw_order(), vec![0, second]);
    execute_pane_command("focus 0", &mut editor.ctx, &share);
    execute_pane_command("float", &mut editor.ctx, &share);
    assert!(editor.ctx.pane_manager.get_pane(0).unwrap().is_floating);
    assert_eq!(editor.pane_draw_order(), vec![second, 0]);
}

#[test]
fn tabs_show_the_file_name_of_each_buffer() {
    let mut buffers = BufferManager::new();
    buffers.add(Buffer::default());
    buffers.add(Buffer::from_text("x", "docs/notes.txt"));
    buffers.add(Buffer::from_text("y", "docs/drafts/"));
    buffers.add(Buffer::from_text("z", "docs/.."));
    let tabs = buffer_tabs(&buffers);
    let names: Vec<&str> = tabs.iter().map(|t| t.1.as_str()).collect();
    assert_eq!(names, vec!["untitled", "notes.txt", "drafts", "untitled"]);
    let ids: Vec<usize> = tabs.iter().map(|t| t.0).collect();
    assert_eq!(ids, vec![0, 1, 2, 3]);
    assert_eq!(buffers.get(1).unwrap().get_file_info().display_name(), "notes.txt");
    assert_eq!(buffers.get(3).unwrap().get_file_info().display_name(), "[No Name]");
}

#[test]
fn file_type_follows_the_extension() {
    assert_eq!(file_type_for("src/main.rs"), FileType::Rust);
    assert_eq!(file_type_for("README.MD"), FileType::Markdown);
    assert_eq!(file_type_for("notes.txt"), FileType::Text);
    assert_eq!(file_type_for(".rs"), FileType::Text);
    assert_eq!(file_type_for("lib.Rs/"), FileType::Rust);
    assert_eq!(file_type_for("Makefile"), FileType::Text);
}

#[test]
fn buffer_bar_measures_tabs_in_bytes() {
    let mut bar = BufferBar::default();
    bar.rect = Rect { position: Position { row: 0, col: 0 }, size: Size { height: 1, width: 30 } };
    let tabs = vec![(0, "é.txt".to_string()), (1, "b".to_string())];
    let items = bar.lay_out(&tabs, None, &vec![]);
    assert_eq!(items[0].text, " [0: é.txt] ");
    assert_eq!(" [0: é.txt] ".len(), 13);
    assert_eq!(items[1].col, 13);
    assert_eq!(bar.tab_hitboxes, vec![(0, 0, 13), (1, 13, 21)]);
    bar.rect.size.width = 7;
    let items = bar.lay_out(&tabs, None, &vec![]);
    assert_eq!(items.len(), 1);
    assert_eq!(items[0].text, " [0: é");
    assert_eq!(bar.tab_hitboxes, vec![(0, 0, 7)]);
}

#[test]
fn window_title_is_offered_only_when_it_changes() {
    let mut editor = new_editor();
    let title = editor.refresh_status().unwrap();
    assert_eq!(title, "[No Name] - yonro_text_editor");
    assert_eq!(editor.status_bar.current_status.file_name, "[No Name]");
    editor.title = title;
    assert!(editor.refresh_status().is_none());
}

#[test]
fn search_matches_are_highlighted() {
    let line = Line::from("abcabc ab");
    let query = Line::from("ab");
    let anns = match_annotations(&line, &query, Some(3));
    let kinds: Vec<(AnnotationType, usize, usize)> =
        anns.iter().map(|a| (a.annotation_type, a.start_byte_idx, a.end_byte_idx)).collect();
    assert_eq!(
        kinds,
        vec![
            (AnnotationType::Match, 0, 2),
            (AnnotationType::SelectedMatch, 3, 5),
            (AnnotationType::Match, 7, 9),
        ]
    );
    let overlapping = match_annotations(&Line::from("aaa"), &Line::from("aa"), None);
    assert_eq!(overlapping.len(), 1);
    let wide = match_annotations(&Line::from("é é"), &Line::from("é"), None);
    let starts: Vec<(usize, usize)> = wide.iter().map(|a| (a.start_byte_idx, a.end_byte_idx)).collect();
    assert_eq!(starts, vec![(0, 2), (3, 5)]);
    assert!(match_annotations(&line, &Line::from(""), None).is_empty());
}

#[test]
fn the_content_of_a_searched_view_carries_its_matches() {
    let mut editor = new_editor();
    for c in "xaxa".chars() {
        editor.handle_event(key(c), &share, &ratio_at);
    }
    editor.handle_event(ctrl('f'), &share, &ratio_at);
    editor.handle_event(key('a'), &share, &ratio_at);
    let pane = editor.ctx.pane_manager.active_pane().unwrap();
    let view = pane.view().unwrap();
    let buffer = editor.ctx.buffer_manager.get(view.buffer_id()).unwrap();
    let rect = Rect { position: Position { row: 0, col: 0 }, size: Size { height: 2, width: 10 } };
    let rows = view.draw_content_with_buffer(rect, buffer);
    assert_eq!(rows[0].to_string(), "xaxa");
    let anns = rows[0].get_annotations();
    assert_eq!(anns.len(), 2);
    assert!(anns.iter().any(|a| a.annotation_type == AnnotationType::SelectedMatch));
    assert!(rows[1].get_annotations().is_empty());
}

#[test]
fn debug_texts_match_the_derived_ones() {
    let r = key_to_command(KeyInput { key_code: KeyCode::Char('\n'), modifiers: KeyModifiers { ctrl: false, shift: true, alt: true } });
    assert_eq!(
        r,
        Err(format!(
            "Unbound key {:?} with {:?}",
            KeyCode::Char('\n'),
            KeyModifiers { ctrl: false, shift: true, alt: true }
        ))
    );
    let mouse = MouseInput { position: Position { row: 7, col: 0 }, button: None, action: MouseAction::Drag };
    assert_eq!(mouse_to_command(mouse), Err(format!("Unhandled mouse event {mouse:?}")));
}

#[test]
fn a_view_is_drawn_once_until_it_asks_again() {
    let mut buffers = BufferManager::new();
    buffers.add(Buffer::from_text("hi", "a.txt"));
    let rect = Rect { position: Position { row: 0, col: 0 }, size: Size { height: 4, width: 6 } };
    let mut pane = view_pane(0, rect, false);
    let rows = pane.draw_view_rows(&buffers).unwrap();
    let texts: Vec<String> = rows.iter().map(|r| r.to_string()).collect();
    assert_eq!(texts, vec!["hi".to_string(), "~".to_string()]);
    assert!(pane.draw_view_rows(&buffers).is_some());
    pane.mark_view_drawn();
    assert!(pane.draw_view_rows(&buffers).is_none());
    let minimized = view_pane(0, rect, true);
    assert!(minimized.draw_view_rows(&buffers).is_none());
}

#[test]
fn a_plugin_request_opens_its_pane() {
    let mut editor = new_editor();
    let explorer = FileExplorer::with_listing("/tmp", vec![]);
    let rect = Rect { position: Position { row: 2, col: 4 }, size: Size { height: 24, width: 42 } };
    let response = PluginResponse::OpenFloatingPane { plugin_name: "file_explorer".to_string(), rect };
    let next = editor.apply_plugin_response(response, Some(PaneContent::Plugin(Box::new(explorer))), &share);
    let id = match next {
        PluginFollowUp::PaneOpened { plugin_name, pane_id } => {
            assert_eq!(plugin_name, "file_explorer");
            pane_id
        }
        _ => panic!("the pane was not opened"),
    };
    let pane = editor.ctx.pane_manager.get_pane(id).unwrap();
    assert!(pane.is_floating);
    assert_eq!(pane.z_index, 10);
    assert_eq!(pane.rect, rect);
    assert!(editor.ctx.pane_manager.get_pane(0).is_some());
    let response = PluginResponse::OpenFloatingPane { plugin_name: "other".to_string(), rect };
    assert!(matches!(editor.apply_plugin_response(response, None, &share), PluginFollowUp::Nothing));
    assert_eq!(editor.ctx.pane_manager.ids().len(), 2);
}
