//! What each command does to the editor: the handlers of system, edit,
//! move and mouse commands, the prompts, and the registry that hands a
//! command to the first handler that takes it.
use crate::editor::buffer::Buffer;
use crate::editor::cmdline::{parse_pane_command, pane_command_of, PaneCommand};
use crate::editor::command::{Command, Edit, MouseCommand, Move, System};
use vstd::string::StringExecFns;
use crate::editor::context::{
    editor_area, good_share, prompt_for, same_but_panes, EditorContext, PromptType, SaveRequest,
};
use crate::editor::layouttree::{
    holds_split, laid_out, leaf_layouts, lemma_changes_fit, lemma_laid_out_keeps_splits,
    lemma_split_has_asked_direction, resized, searchable, single_valued_ratio, split_at_leaf,
    split_under, total_ratio, SplitDirection, SplitHandle,
};
use crate::editor::panemanager::{focus_moved, lemma_focus_moved_fields, sorted_by_z};
use crate::editor::paneops::{
    HALF_RATIO, close_pane, closed_pane, floated_pane, is_active_pane, split_active_pane, split_done,
    tiled_pane, toggle_floating, unfloat_pane,
};
use crate::prelude::{Position, Rect};
use crate::editor::pane::{sat_sub, Pane, PaneContent};
use crate::editor::textfmt::{decimal, with_number};
use crate::editor::view::{
    edit_location, edit_text, loc, moved_location, redo_applicable, redo_location, redo_text,
    sadd, search_query, search_result, undo_applicable, undo_location, undo_text, SearchDirection,
    SearchInfo, View,
};
use crate::prelude::Location;
use vstd::prelude::*;
use vstd::view::View as _;

verus! {

/// How many times in a row quitting must be asked for while the text has
/// unsaved changes.
pub const QUIT_TIMES: u8 = 3;

/// The view in the active pane of `ctx`, if that pane shows one.
pub open spec fn active_view(ctx: EditorContext) -> Option<View> {
    let panes = ctx.pane_manager.panes();
    let id = ctx.pane_manager.active_id();
    if panes.contains_key(id) && panes[id].content is TextView {
        Some(panes[id].content->TextView_0)
    } else {
        None
    }
}

/// The buffer the active view shows, if there are both.
pub open spec fn active_buffer(ctx: EditorContext) -> Option<Buffer> {
    match active_view(ctx) {
        Some(v) => if ctx.buffer_manager.buffers().contains_key(v.buffer_id) {
            Some(ctx.buffer_manager.buffers()[v.buffer_id])
        } else {
            None
        },
        None => None,
    }
}

/// Whether the buffer of the active view has unsaved changes.
pub open spec fn active_modified(ctx: EditorContext) -> bool {
    match active_buffer(ctx) {
        Some(b) => b.dirty(),
        None => false,
    }
}

/// `new` is `old` but for the active view and the buffer it shows: the
/// other panes and buffers, the layout and the bars are as they were.
pub open spec fn only_active_changed(old: EditorContext, new: EditorContext) -> bool {
    let panes = old.pane_manager.panes();
    let id = old.pane_manager.active_id();
    &&& new.pane_manager.wf()
    &&& new.pane_manager.panes().dom() == panes.dom()
    &&& new.pane_manager.active_id() == id
    &&& new.pane_manager.next_id() == old.pane_manager.next_id()
    &&& forall|q: usize| #[trigger]
        panes.contains_key(q) && q != id ==> new.pane_manager.panes()[q] == panes[q]
    &&& panes.contains_key(id) ==> {
        let p = panes[id];
        let n = new.pane_manager.panes()[id];
        &&& n.pane_id == p.pane_id
        &&& n.active == p.active
        &&& n.is_floating == p.is_floating
        &&& n.z_index == p.z_index
        &&& n.is_minimized == p.is_minimized
        &&& n.rect == p.rect
        &&& (n.content is TextView <==> p.content is TextView)
        &&& !(p.content is TextView) ==> n == p
    }
    &&& new.buffer_manager.buffers().dom() == old.buffer_manager.buffers().dom()
    &&& new.buffer_manager.next_id() == old.buffer_manager.next_id()
    &&& forall|b: usize| #[trigger]
        old.buffer_manager.buffers().contains_key(b) && !(active_view(old) matches Some(v)
            && v.buffer_id == b) ==> new.buffer_manager.buffers()[b]
            == old.buffer_manager.buffers()[b]
    &&& active_view(old) matches Some(v) ==> active_view(new) matches Some(w) && w.buffer_id
        == v.buffer_id
    &&& new.layout_tree == old.layout_tree
    &&& new.prompt_type == old.prompt_type
    &&& new.command_bar == old.command_bar
    &&& new.message_bar == old.message_bar
    &&& new.terminal_size == old.terminal_size
    &&& new.should_quit == old.should_quit
    &&& new.quit_times == old.quit_times
    &&& new.dragging_split == old.dragging_split
    &&& new.dragging_pane == old.dragging_pane
    &&& new.drag_offset == old.drag_offset
    &&& new.buffer_changed == old.buffer_changed
    &&& new.save_request == old.save_request
    &&& new.explorer_request == old.explorer_request
}

/// Whether the last edit of `v`, if any, can be undone on `b`.
pub open spec fn can_undo_on(v: View, b: Buffer) -> bool {
    v.undo_stack@.len() > 0 ==> undo_applicable(b.text(), v.undo_stack@.last()@)
}

/// Whether the last undone edit of `v`, if any, can be redone on `b`.
pub open spec fn can_redo_on(v: View, b: Buffer) -> bool {
    v.redo_stack@.len() > 0 ==> redo_applicable(b.text(), v.redo_stack@.last()@)
}

/// Whether the active view has a buffer on which its last edit, if any,
/// can be undone.
pub open spec fn undo_possible(ctx: EditorContext) -> bool {
    active_buffer(ctx) is Some && can_undo_on(active_view(ctx)->0, active_buffer(ctx)->0)
}

/// Whether the active view has a buffer on which its last undone edit, if
/// any, can be redone.
pub open spec fn redo_possible(ctx: EditorContext) -> bool {
    active_buffer(ctx) is Some && can_redo_on(active_view(ctx)->0, active_buffer(ctx)->0)
}

/// `v2` and `b2` are `v` and `b` after undoing the last edit of `v`.
pub open spec fn undone(v: View, b: Buffer, v2: View, b2: Buffer) -> bool {
    if v.undo_stack@.len() == 0 {
        &&& b2.text() == b.text()
        &&& b2.dirty() == b.dirty()
        &&& v2.undo_stack@ == v.undo_stack@
        &&& v2.redo_stack@ == v.redo_stack@
        &&& v2.text_location == v.text_location
    } else {
        let op = v.undo_stack@.last();
        &&& b2.text() == undo_text(b.text(), op@)
        &&& v2.undo_stack@ == v.undo_stack@.drop_last()
        &&& v2.redo_stack@ == v.redo_stack@.push(op)
        &&& v2.text_location == undo_location(op@)
        &&& v2.needs_redraw
    }
}

/// `v2` and `b2` are `v` and `b` after redoing the last undone edit of `v`.
pub open spec fn redone(v: View, b: Buffer, v2: View, b2: Buffer) -> bool {
    if v.redo_stack@.len() == 0 {
        &&& b2.text() == b.text()
        &&& b2.dirty() == b.dirty()
        &&& v2.undo_stack@ == v.undo_stack@
        &&& v2.redo_stack@ == v.redo_stack@
        &&& v2.text_location == v.text_location
    } else {
        let op = v.redo_stack@.last();
        &&& b2.text() == redo_text(b.text(), op@)
        &&& v2.redo_stack@ == v.redo_stack@.drop_last()
        &&& v2.undo_stack@ == v.undo_stack@.push(op)
        &&& v2.text_location == redo_location(op@)
        &&& v2.needs_redraw
    }
}

/// The state after [`handle_undo`] on `old`.
pub open spec fn undo_done(old: EditorContext, new: EditorContext) -> bool {
    &&& only_active_changed(old, new)
    &&& undo_possible(old) ==> active_buffer(new) is Some && undone(
        active_view(old)->0,
        active_buffer(old)->0,
        active_view(new)->0,
        active_buffer(new)->0,
    )
    &&& !undo_possible(old) ==> new.pane_manager.panes() == old.pane_manager.panes()
        && new.buffer_manager.buffers() == old.buffer_manager.buffers()
}

/// Undoes the last edit made through the active view on its buffer (see
/// [`undone`]); nothing happens without a view and its buffer, or when the
/// edit no longer fits the buffer (see [`can_undo_on`]).
pub fn handle_undo(ctx: &mut EditorContext)
    requires
        old(ctx).pane_manager.wf(),
    ensures
        undo_done(*old(ctx), *final(ctx)),

{
    let buffer_id = match ctx.active_buffer_id() {
        Some(id) => id,
        None => {
            return;
        },
    };
    let ghost panes0 = ctx.pane_manager.panes();
    let ghost buffers0 = ctx.buffer_manager.buffers();
    match ctx.pane_manager.active_pane_mut() {
        Some(pane) => match pane.view_mut() {
            Some(view) => match ctx.buffer_manager.get_mut(buffer_id) {
                Some(buffer) => {
                    if view.can_undo(buffer) {
                        view.undo(buffer);
                    }
                },
                None => {},
            },
            None => {},
        },
        None => {},
    }
    proof {
        assert(ctx.pane_manager.panes().dom() =~= panes0.dom());
        assert(ctx.buffer_manager.buffers().dom() =~= buffers0.dom());
        if !undo_possible(*old(ctx)) {
            assert(ctx.pane_manager.panes() =~= panes0);
            assert(ctx.buffer_manager.buffers() =~= buffers0);
        }
    }
}

/// The state after [`handle_redo`] on `old`.
pub open spec fn redo_done(old: EditorContext, new: EditorContext) -> bool {
    &&& only_active_changed(old, new)
    &&& redo_possible(old) ==> active_buffer(new) is Some && redone(
        active_view(old)->0,
        active_buffer(old)->0,
        active_view(new)->0,
        active_buffer(new)->0,
    )
    &&& !redo_possible(old) ==> new.pane_manager.panes() == old.pane_manager.panes()
        && new.buffer_manager.buffers() == old.buffer_manager.buffers()
}

/// Redoes the last undone edit of the active view on its buffer (see
/// [`redone`]); nothing happens without a view and its buffer, or when the
/// edit no longer fits the buffer (see [`can_redo_on`]).
pub fn handle_redo(ctx: &mut EditorContext)
    requires
        old(ctx).pane_manager.wf(),
    ensures
        redo_done(*old(ctx), *final(ctx)),

{
    let buffer_id = match ctx.active_buffer_id() {
        Some(id) => id,
        None => {
            return;
        },
    };
    let ghost panes0 = ctx.pane_manager.panes();
    let ghost buffers0 = ctx.buffer_manager.buffers();
    match ctx.pane_manager.active_pane_mut() {
        Some(pane) => match pane.view_mut() {
            Some(view) => match ctx.buffer_manager.get_mut(buffer_id) {
                Some(buffer) => {
                    if view.can_redo(buffer) {
                        view.redo(buffer);
                    }
                },
                None => {},
            },
            None => {},
        },
        None => {},
    }
    proof {
        assert(ctx.pane_manager.panes().dom() =~= panes0.dom());
        assert(ctx.buffer_manager.buffers().dom() =~= buffers0.dom());
        if !redo_possible(*old(ctx)) {
            assert(ctx.pane_manager.panes() =~= panes0);
            assert(ctx.buffer_manager.buffers() =~= buffers0);
        }
    }
}

/// Whether `edit` can be made at the caret of the active view on its
/// buffer: there are both, and an insert is on a line of the text or just
/// below it.
pub open spec fn edit_possible(ctx: EditorContext, edit: Edit) -> bool {
    &&& active_buffer(ctx) is Some
    &&& edit is Insert ==> active_view(ctx)->0.text_location.line_idx
        <= active_buffer(ctx)->0.text().len()
}

/// The state after [`apply_edit`] on `old`.
pub open spec fn edit_done(old: EditorContext, new: EditorContext, edit: Edit) -> bool {
    &&& only_active_changed(old, new)
    &&& edit_possible(old, edit) ==> {
        let v = active_view(old)->0;
        let b = active_buffer(old)->0;
        &&& active_buffer(new) is Some
        &&& active_buffer(new)->0.text() == edit_text(b.text(), v.text_location, edit)
        &&& active_view(new)->0.text_location == edit_location(
            b.text(),
            v.text_location,
            edit,
        )
    }
    &&& !edit_possible(old, edit) ==> new.pane_manager.panes()
        == old.pane_manager.panes() && new.buffer_manager.buffers()
        == old.buffer_manager.buffers()
}

/// Makes `edit` at the caret of the active view (see
/// `View::handle_edit_command`): the buffer's text becomes [`edit_text`] of
/// it and the caret moves to [`edit_location`]; nothing happens when that is
/// not possible (see [`edit_possible`]).
pub fn apply_edit(ctx: &mut EditorContext, edit: Edit)
    requires
        old(ctx).pane_manager.wf(),
    ensures
        edit_done(*old(ctx), *final(ctx), edit),

{
    let buffer_id = match ctx.active_buffer_id() {
        Some(id) => id,
        None => {
            return;
        },
    };
    let ghost panes0 = ctx.pane_manager.panes();
    let ghost buffers0 = ctx.buffer_manager.buffers();
    match ctx.pane_manager.active_pane_mut() {
        Some(pane) => match pane.view_mut() {
            Some(view) => match ctx.buffer_manager.get_mut(buffer_id) {
                Some(buffer) => {
                    let fits = match edit {
                        Edit::Insert(_) => view.text_location.line_idx <= buffer.height(),
                        _ => true,
                    };
                    if fits {
                        view.handle_edit_command(edit, buffer);
                    }
                },
                None => {},
            },
            None => {},
        },
        None => {},
    }
    proof {
        assert(ctx.pane_manager.panes().dom() =~= panes0.dom());
        assert(ctx.buffer_manager.buffers().dom() =~= buffers0.dom());
        if !edit_possible(*old(ctx), edit) {
            assert(ctx.pane_manager.panes() =~= panes0);
            assert(ctx.buffer_manager.buffers() =~= buffers0);
        }
    }
}

/// The state after [`move_active_view`] on `old`.
pub open spec fn move_done(old: EditorContext, new: EditorContext, command: Move) -> bool {
    &&& only_active_changed(old, new)
    &&& new.buffer_manager.buffers() == old.buffer_manager.buffers()
    &&& active_buffer(old) is Some ==> active_view(new)->0.text_location
        == moved_location(
        active_buffer(old)->0.text(),
        active_view(old)->0.text_location,
        command,
        active_view(old)->0.page(),
    )
    &&& active_buffer(old) is None ==> new.pane_manager.panes()
        == old.pane_manager.panes()
}

/// Moves the caret of the active view as `command` says (see
/// [`moved_location`]), on the buffer it shows; nothing happens without a
/// view and its buffer. No buffer changes.
pub fn move_active_view(ctx: &mut EditorContext, command: Move)
    requires
        old(ctx).pane_manager.wf(),
    ensures
        move_done(*old(ctx), *final(ctx), command),

{
    let buffer_id = match ctx.active_buffer_id() {
        Some(id) => id,
        None => {
            return;
        },
    };
    let ghost panes0 = ctx.pane_manager.panes();
    match ctx.pane_manager.active_pane_mut() {
        Some(pane) => match pane.view_mut() {
            Some(view) => match ctx.buffer_manager.get(buffer_id) {
                Some(buffer) => view.handle_move_command(command, buffer),
                None => {},
            },
            None => {},
        },
        None => {},
    }
    proof {
        assert(ctx.pane_manager.panes().dom() =~= panes0.dom());
        if active_buffer(*old(ctx)) is None {
            assert(ctx.pane_manager.panes() =~= panes0);
        }
    }
}

/// Scrolls the active view a page up: its caret moves a page up.
pub fn pane_scroll_up(ctx: &mut EditorContext)
    requires
        old(ctx).pane_manager.wf(),
    ensures
        only_active_changed(*old(ctx), *final(ctx)),
        final(ctx).buffer_manager.buffers() == old(ctx).buffer_manager.buffers(),
        active_buffer(*old(ctx)) is Some ==> active_view(*final(ctx))->0.text_location
            == moved_location(
            active_buffer(*old(ctx))->0.text(),
            active_view(*old(ctx))->0.text_location,
            Move::PageUp,
            active_view(*old(ctx))->0.page(),
        ),
        active_buffer(*old(ctx)) is None ==> final(ctx).pane_manager.panes()
            == old(ctx).pane_manager.panes(),
{
    move_active_view(ctx, Move::PageUp);
}

/// Scrolls the active view a page down: its caret moves a page down.
pub fn pane_scroll_down(ctx: &mut EditorContext)
    requires
        old(ctx).pane_manager.wf(),
    ensures
        only_active_changed(*old(ctx), *final(ctx)),
        final(ctx).buffer_manager.buffers() == old(ctx).buffer_manager.buffers(),
        active_buffer(*old(ctx)) is Some ==> active_view(*final(ctx))->0.text_location
            == moved_location(
            active_buffer(*old(ctx))->0.text(),
            active_view(*old(ctx))->0.text_location,
            Move::PageDown,
            active_view(*old(ctx))->0.page(),
        ),
        active_buffer(*old(ctx)) is None ==> final(ctx).pane_manager.panes()
            == old(ctx).pane_manager.panes(),
{
    move_active_view(ctx, Move::PageDown);
}

/// Whether asking to quit now quits: the text has no unsaved changes, or
/// this is the last of the [`QUIT_TIMES`] asks.
pub open spec fn quits_now(ctx: EditorContext) -> bool {
    !active_modified(ctx) || ctx.quit_times + 1 == QUIT_TIMES
}

/// The warning shown when quitting is asked for with `quit_times` asks
/// made before.
pub open spec fn quit_warning(quit_times: u8) -> Seq<char> {
    "Warning! File has unsaved changes. Press Ctrl-Q "@ + decimal(
        (QUIT_TIMES - quit_times - 1) as nat,
    ) + " more times to quit."@
}

/// The state after [`handle_quit`] on `old`.
pub open spec fn quit_done(old: EditorContext, new: EditorContext) -> bool {
    &&& quits_now(old) ==> new.should_quit && new.quit_times
        == old.quit_times && new.message_bar == old.message_bar
    &&& !quits_now(old) ==> {
        &&& new.should_quit == old.should_quit
        &&& new.quit_times == old.quit_times + 1
        &&& new.message_bar.message@ == quit_warning(old.quit_times)
    }
    &&& new.pane_manager == old.pane_manager
    &&& new.layout_tree == old.layout_tree
    &&& new.buffer_manager == old.buffer_manager
    &&& new.prompt_type == old.prompt_type
    &&& new.command_bar == old.command_bar
    &&& new.save_request == old.save_request
    &&& new.explorer_request == old.explorer_request
}

/// Quits, unless the text has unsaved changes: then it warns, and quits
/// only on the last of [`QUIT_TIMES`] asks in a row.
pub fn handle_quit(ctx: &mut EditorContext)
    requires
        old(ctx).pane_manager.wf(),
        active_modified(*old(ctx)) ==> old(ctx).quit_times < QUIT_TIMES,
    ensures
        quit_done(*old(ctx), *final(ctx)),

{
    let is_modified = match ctx.active_buffer_id() {
        Some(id) => match ctx.buffer_manager.get(id) {
            Some(b) => b.is_dirty(),
            None => false,
        },
        None => false,
    };
    if !is_modified || ctx.quit_times + 1 == QUIT_TIMES {
        ctx.should_quit = true;
    } else {
        let left = QUIT_TIMES - ctx.quit_times - 1;
        let msg = with_number(
            "Warning! File has unsaved changes. Press Ctrl-Q ",
            left as usize,
            " more times to quit.",
        );
        ctx.update_message(msg.as_str());
        ctx.quit_times = ctx.quit_times + 1;
    }
}

/// Asks for the buffer of the active view to be written: to `file_name`,
/// or where it is stored when there is none (see [`SaveRequest`]); the
/// caller writes it and reports with [`finish_save`]. Nothing is asked
/// without a view and its buffer.
pub fn save(ctx: &mut EditorContext, file_name: Option<&str>)
    requires
        old(ctx).pane_manager.wf(),
    ensures
        active_buffer(*old(ctx)) is Some ==> (final(ctx).save_request matches Some(r)
            && r.buffer_id == active_view(*old(ctx))->0.buffer_id && (r.file_name is Some
            <==> file_name is Some) && (file_name is Some ==> r.file_name->0@ == file_name->0@)),
        active_buffer(*old(ctx)) is None ==> final(ctx).save_request == old(ctx).save_request,
        final(ctx).pane_manager == old(ctx).pane_manager,
        final(ctx).layout_tree == old(ctx).layout_tree,
        final(ctx).buffer_manager == old(ctx).buffer_manager,
        final(ctx).prompt_type == old(ctx).prompt_type,
        final(ctx).command_bar == old(ctx).command_bar,
        final(ctx).message_bar == old(ctx).message_bar,
        final(ctx).explorer_request == old(ctx).explorer_request,
        final(ctx).should_quit == old(ctx).should_quit,
        final(ctx).quit_times == old(ctx).quit_times,
{
    let buffer_id = match ctx.active_buffer_id() {
        Some(id) => id,
        None => {
            return;
        },
    };
    if ctx.buffer_manager.get(buffer_id).is_none() {
        return;
    }
    let name = match file_name {
        Some(n) => Some(String::from_str(n)),
        None => None,
    };
    ctx.save_request = Some(SaveRequest { buffer_id, file_name: name });
}

/// Settles the write asked for by [`save`], `written` saying whether it
/// succeeded: the buffer is then marked saved (stored under the name asked
/// for, if one was) and a message says how it went. The request is dropped.
pub fn finish_save(ctx: &mut EditorContext, written: bool)
    ensures
        final(ctx).save_request is None,
        old(ctx).save_request is None || !old(ctx).buffer_manager.buffers().contains_key(
            old(ctx).save_request->0.buffer_id,
        ) ==> final(ctx).buffer_manager.buffers() == old(ctx).buffer_manager.buffers()
            && final(ctx).message_bar == old(ctx).message_bar,
        old(ctx).save_request is Some && old(ctx).buffer_manager.buffers().contains_key(
            old(ctx).save_request->0.buffer_id,
        ) ==> {
            let r = old(ctx).save_request->0;
            let b = old(ctx).buffer_manager.buffers()[r.buffer_id];
            let b2 = final(ctx).buffer_manager.buffers()[r.buffer_id];
            &&& final(ctx).buffer_manager.buffers().dom() == old(ctx).buffer_manager.buffers().dom()
            &&& forall|k: usize| #[trigger]
                old(ctx).buffer_manager.buffers().contains_key(k) && k != r.buffer_id
                    ==> final(ctx).buffer_manager.buffers()[k]
                    == old(ctx).buffer_manager.buffers()[k]
            &&& written ==> {
                &&& b2.text() == b.text()
                &&& !b2.dirty()
                &&& r.file_name is None ==> b2.info() == b.info()
                &&& r.file_name is Some ==> b2.info().path() == Some(r.file_name->0@)
                &&& final(ctx).message_bar.message@ == "File saved successfully."@
            }
            &&& !written ==> b2 == b && final(ctx).message_bar.message@
                == "Error writing file!"@
        },
        final(ctx).pane_manager == old(ctx).pane_manager,
        final(ctx).layout_tree == old(ctx).layout_tree,
        final(ctx).prompt_type == old(ctx).prompt_type,
        final(ctx).command_bar == old(ctx).command_bar,
        final(ctx).explorer_request == old(ctx).explorer_request,
        final(ctx).should_quit == old(ctx).should_quit,
{
    let request = ctx.save_request.take();
    match request {
        None => {},
        Some(r) => {
            let ghost buffers0 = ctx.buffer_manager.buffers();
            match ctx.buffer_manager.get_mut(r.buffer_id) {
                None => {
                    return;
                },
                Some(buffer) => {
                    match &r.file_name {
                        Some(name) => {
                            buffer.save_as(name.as_str(), written);
                        },
                        None => {
                            buffer.save(written);
                        },
                    }
                },
            }
            if written {
                ctx.update_message("File saved successfully.");
            } else {
                ctx.update_message("Error writing file!");
            }
            assert(ctx.buffer_manager.buffers().dom() =~= buffers0.dom());
        },
    }
}

/// `ratio_at` turns offsets into ratios as a function.
pub open spec fn good_ratio<G: Fn(usize, usize) -> u32>(ratio_at: G) -> bool {
    total_ratio(ratio_at) && single_valued_ratio(ratio_at)
}

/// Whether `pos` lies in `rect`.
pub open spec fn in_rect(rect: Rect, pos: Position) -> bool {
    &&& rect.position.row <= pos.row < rect.position.row + rect.size.height
    &&& rect.position.col <= pos.col < rect.position.col + rect.size.width
}

/// Whether a click at `pos` lands on pane `p`: in its rectangle, or on its
/// top row only when it is minimized.
pub open spec fn pane_hit(p: Pane, pos: Position) -> bool {
    let height = if p.is_minimized {
        1
    } else {
        p.rect.size.height as int
    };
    &&& p.rect.position.row <= pos.row < p.rect.position.row + height
    &&& p.rect.position.col <= pos.col < p.rect.position.col + p.rect.size.width
}

/// The index of the last pane of `s` that a click at `pos` lands on.
pub open spec fn last_hit(s: Seq<Pane>, pos: Position) -> Option<int>
    decreases s.len(),
{
    if s.len() == 0 {
        None
    } else if pane_hit(s.last(), pos) {
        Some(s.len() - 1)
    } else {
        last_hit(s.drop_last(), pos)
    }
}

/// The floating pane a click at `pos` lands on: the topmost one that holds it.
pub open spec fn floating_target(ctx: EditorContext, pos: Position) -> Option<Pane> {
    let s = sorted_by_z(ctx.pane_manager.floating());
    match last_hit(s, pos) {
        Some(i) => Some(s[i]),
        None => None,
    }
}

/// The pane of the first leaf of `layouts` whose area holds `pos`.
pub open spec fn first_leaf_hit(layouts: Seq<(usize, Rect)>, pos: Position) -> Option<usize>
    decreases layouts.len(),
{
    if layouts.len() == 0 {
        None
    } else if in_rect(layouts[0].1, pos) {
        Some(layouts[0].0)
    } else {
        first_leaf_hit(layouts.drop_first(), pos)
    }
}

/// The split whose divider a click at `pos` grabs, if the layout can be
/// searched for one (see [`searchable`]).
pub open spec fn divider_target<F: Fn(usize, u32) -> usize>(
    ctx: EditorContext,
    pos: Position,
    share: F,
) -> Option<SplitHandle> {
    if searchable(ctx.layout_tree.root_node(), pos, share) {
        split_under(ctx.layout_tree.root_node(), pos, share)
    } else {
        None
    }
}

/// `new` is `old` with pane `id`, if it exists, minimized or restored; every
/// view is marked for drawing.
pub open spec fn minimize_toggled(old: EditorContext, new: EditorContext, id: usize) -> bool {
    let panes = old.pane_manager.panes();
    &&& new.wf()
    &&& new.pane_manager.panes().dom() == panes.dom()
    &&& new.pane_manager.active_id() == old.pane_manager.active_id()
    &&& panes.contains_key(id) ==> new.pane_manager.panes()[id].is_minimized
        != panes[id].is_minimized
    &&& forall|q: usize| #[trigger]
        panes.contains_key(q) && q != id ==> new.pane_manager.panes()[q].is_minimized
            == panes[q].is_minimized
    &&& same_but_panes(new, old)
}

/// Whether `pos` is on the top row of `p`.
pub open spec fn pos_on_title(p: Pane, pos: Position) -> bool {
    pos.row == p.rect.position.row && p.rect.position.col <= pos.col < p.rect.position.col
        + p.rect.size.width
}

/// How far into `p` a click at `pos` lands, stopping at zero.
pub open spec fn offset_in(p: Pane, pos: Position) -> Position {
    Position {
        col: sat_sub(pos.col as int, p.rect.position.col as int) as usize,
        row: sat_sub(pos.row as int, p.rect.position.row as int) as usize,
    }
}

/// `new` is `old` with the focus on pane `id` when it exists.
pub open spec fn focused_on(old: EditorContext, new: EditorContext, id: usize) -> bool {
    &&& new.wf()
    &&& new.pane_manager.panes().dom() == old.pane_manager.panes().dom()
    &&& old.pane_manager.panes().contains_key(id) ==> new.pane_manager.active_id() == id
        || is_active_pane(new, id)
    &&& !old.pane_manager.panes().contains_key(id) ==> new.pane_manager.active_id()
        == old.pane_manager.active_id()
    &&& new.layout_tree == old.layout_tree
    &&& new.buffer_manager == old.buffer_manager
    &&& new.prompt_type == old.prompt_type
    &&& new.command_bar == old.command_bar
    &&& new.message_bar == old.message_bar
    &&& new.dragging_split == old.dragging_split
    &&& new.terminal_size == old.terminal_size
    &&& new.save_request == old.save_request
    &&& new.explorer_request == old.explorer_request
}

/// The state after a click at `pos` on pane `id`, whose frame is `p`: its
/// close button closes it, its minimize button minimizes or restores it,
/// and elsewhere it gets the focus; `title_drags` says whether grabbing its
/// title then starts dragging it.
pub open spec fn pane_clicked<F: Fn(usize, u32) -> usize>(
    old: EditorContext,
    new: EditorContext,
    id: usize,
    p: Pane,
    pos: Position,
    title_drags: bool,
    share: F,
) -> bool {
    let close = p.on_button(p.close_col(), pos);
    let min = p.on_button(p.min_col(), pos);
    let title = title_drags && pos.row == p.rect.position.row && p.rect.position.col <= pos.col
        < p.rect.position.col + p.rect.size.width && !close && !min;
    &&& close ==> closed_pane(old, new, id, share)
    &&& !close && min ==> minimize_toggled(old, new, id) && new.dragging_pane
        == old.dragging_pane
    &&& !close && !min ==> {
        &&& focused_on(old, new, id)
        &&& title ==> new.dragging_pane == Some(id) && new.drag_offset == (Position {
            col: sat_sub(pos.col as int, p.rect.position.col as int) as usize,
            row: sat_sub(pos.row as int, p.rect.position.row as int) as usize,
        })
        &&& !title ==> new.dragging_pane == old.dragging_pane && new.drag_offset
            == old.drag_offset
    }
}

/// Minimizes or restores pane `id` and marks every view for drawing.
fn toggle_minimized(id: usize, ctx: &mut EditorContext)
    requires
        old(ctx).wf(),
    ensures
        minimize_toggled(*old(ctx), *final(ctx), id),
        final(ctx).quit_times == old(ctx).quit_times,
{
    let ghost panes0 = ctx.pane_manager.panes();
    match ctx.pane_manager.get_pane_mut(id) {
        Some(p) => {
            p.is_minimized = !p.is_minimized;
        },
        None => {},
    }
    let ghost panes1 = ctx.pane_manager.panes();
    assert(panes1.dom() =~= panes0.dom());
    ctx.mark_all_panes_for_redraw();
    proof {
        assert forall|q: usize| #[trigger]
            panes0.contains_key(q) && q != id implies ctx.pane_manager.panes()[q].is_minimized
            == panes0[q].is_minimized by {
            assert(panes1.contains_key(q));
        }
        if panes0.contains_key(id) {
            assert(panes1.contains_key(id));
        }
    }
}

/// Whether a click at `pos` lands on `p` (see [`pane_hit`]).
fn hits(p: &Pane, pos: Position) -> (b: bool)
    ensures
        b == pane_hit(*p, pos),
{
    let height = if p.is_minimized {
        1
    } else {
        p.rect.size.height
    };
    pos.row >= p.rect.position.row && pos.row - p.rect.position.row < height && pos.col
        >= p.rect.position.col && pos.col - p.rect.position.col < p.rect.size.width
}

/// Whether `pos` lies in `rect`.
fn holds(rect: Rect, pos: Position) -> (b: bool)
    ensures
        b == in_rect(rect, pos),
{
    pos.row >= rect.position.row && pos.row - rect.position.row < rect.size.height && pos.col
        >= rect.position.col && pos.col - rect.position.col < rect.size.width
}

/// What a click at `pos` on `p` touches: its close button, its minimize
/// button, its title (when `title_drags`), and the offset into it.
fn click_parts(p: &Pane, pos: Position, title_drags: bool) -> (r: (bool, bool, bool, Position))
    ensures
        r.0 == p.on_button(p.close_col(), pos),
        r.1 == p.on_button(p.min_col(), pos),
        r.2 == (title_drags && pos.row == p.rect.position.row && p.rect.position.col <= pos.col
            < p.rect.position.col + p.rect.size.width && !r.0 && !r.1),
        r.3 == (Position {
            col: sat_sub(pos.col as int, p.rect.position.col as int) as usize,
            row: sat_sub(pos.row as int, p.rect.position.row as int) as usize,
        }),
{
    let is_close = p.is_on_close_button(pos);
    let is_min = p.is_on_min_button(pos);
    let is_title = title_drags && p.is_on_title_bar(pos) && !is_close && !is_min;
    let offset = Position {
        col: pos.col.saturating_sub(p.rect.position.col),
        row: pos.row.saturating_sub(p.rect.position.row),
    };
    (is_close, is_min, is_title, offset)
}

/// Acts on a click on pane `id` that touched `parts` (see [`click_parts`]).
fn click_pane<F: Fn(usize, u32) -> usize>(
    id: usize,
    parts: (bool, bool, bool, Position),
    Ghost(p): Ghost<Pane>,
    Ghost(pos): Ghost<Position>,
    Ghost(title_drags): Ghost<bool>,
    ctx: &mut EditorContext,
    share: &F,
)
    requires
        old(ctx).wf(),
        good_share(*share),
        parts.0 == p.on_button(p.close_col(), pos),
        parts.1 == p.on_button(p.min_col(), pos),
        parts.2 == (title_drags && pos.row == p.rect.position.row && p.rect.position.col <= pos.col
            < p.rect.position.col + p.rect.size.width && !parts.0 && !parts.1),
        parts.3 == (Position {
            col: sat_sub(pos.col as int, p.rect.position.col as int) as usize,
            row: sat_sub(pos.row as int, p.rect.position.row as int) as usize,
        }),
    ensures
        pane_clicked(*old(ctx), *final(ctx), id, p, pos, title_drags, *share),
        final(ctx).quit_times == old(ctx).quit_times,
{
    let (is_close, is_min, is_title, offset) = parts;
    if is_close {
        close_pane(id, ctx, share);
        return;
    }
    if is_min {
        toggle_minimized(id, ctx);
        return;
    }
    proof {
        if ctx.pane_manager.panes().contains_key(id) {
            lemma_focus_moved_fields(
                ctx.pane_manager.panes(),
                ctx.pane_manager.active_id(),
                id,
            );
        }
    }
    ctx.set_active_pane(id);
    if is_title {
        ctx.dragging_pane = Some(id);
        ctx.drag_offset = offset;
    }
}

/// The state after [`handle_left_click`] on `old`.
pub open spec fn left_click_done<F: Fn(usize, u32) -> usize>(old: EditorContext, new: EditorContext, position: Position, share: F) -> bool {
    &&& new.wf()
    &&& floating_target(old, position) is Some ==> pane_clicked(
        old,
        new,
        floating_target(old, position)->0.pane_id,
        floating_target(old, position)->0,
        position,
        true,
        share,
    )
    &&& floating_target(old, position) is None && divider_target(old, position, share)
        is Some ==> {
        &&& new.dragging_split == Some(
            divider_target(old, position, share)->0.id,
        )
        &&& new.pane_manager == old.pane_manager
        &&& new.layout_tree == old.layout_tree
        &&& new.message_bar == old.message_bar
    }
    &&& floating_target(old, position) is None && divider_target(old, position, share)
        is None ==> match first_leaf_hit(
        leaf_layouts(old.layout_tree.root_node()),
        position,
    ) {
        Some(id) => if old.pane_manager.panes().contains_key(id) {
            pane_clicked(
                old,
                new,
                id,
                old.pane_manager.panes()[id],
                position,
                false,
                share,
            )
        } else {
            focused_on(old, new, id)
        },
        None => new.pane_manager == old.pane_manager && new.layout_tree
            == old.layout_tree && new.dragging_split == old.dragging_split,
    }
    &&& new.prompt_type == old.prompt_type
    &&& new.command_bar == old.command_bar
    &&& new.buffer_manager == old.buffer_manager
    &&& new.save_request == old.save_request
    &&& new.explorer_request == old.explorer_request
}

/// A click at `position`: on the topmost floating pane under it (its close
/// or minimize button, its title to drag it, or its body to focus it), else
/// on a divider of the layout to drag it, else on the tiled pane under it
/// (its buttons, or its body to focus it). See [`floating_target`],
/// [`divider_target`] and [`first_leaf_hit`].
pub fn handle_left_click<F: Fn(usize, u32) -> usize>(
    position: Position,
    ctx: &mut EditorContext,
    share: &F,
)
    requires
        old(ctx).wf(),
        good_share(*share),
    ensures
        left_click_done(*old(ctx), *final(ctx), position, *share),
        final(ctx).quit_times == old(ctx).quit_times,
{
    let ghost s = sorted_by_z(ctx.pane_manager.floating());
    let mut found = false;
    let mut hit_id: usize = 0;
    let mut hit_parts = (false, false, false, Position { row: 0, col: 0 });
    let ghost mut hit_pane: Pane = arbitrary();
    {
        let floating = ctx.pane_manager.get_floating_panes_sorted();
        let mut i = floating.len();
        assert(s.take(i as int) =~= s);
        while i > 0
            invariant_except_break
                !found,
                last_hit(s, position) == last_hit(s.take(i as int), position),
            invariant
                i <= floating@.len(),
                s == floating@.map_values(|q: &Pane| *q),
            ensures
                !found ==> last_hit(s, position) is None,
                found ==> (last_hit(s, position) matches Some(k) && hit_pane == s[k]),
                found ==> hit_id == hit_pane.pane_id,
                found ==> hit_parts.0 == hit_pane.on_button(hit_pane.close_col(), position),
                found ==> hit_parts.1 == hit_pane.on_button(hit_pane.min_col(), position),
                found ==> hit_parts.2 == (pos_on_title(hit_pane, position) && !hit_parts.0
                    && !hit_parts.1),
                found ==> hit_parts.3 == offset_in(hit_pane, position),
            decreases i,
        {
            let q = floating[i - 1];
            proof {
                assert(s.take(i as int).drop_last() =~= s.take(i - 1));
                assert(s.take(i as int).last() == s[i - 1]);
                assert(s[i - 1] == *q);
            }
            if hits(q, position) {
                hit_parts = click_parts(q, position, true);
                hit_id = q.pane_id;
                found = true;
                proof {
                    hit_pane = *q;
                }
                break;
            }
            i = i - 1;
        }
        proof {
            if !found {
                assert(s.take(0) =~= Seq::<Pane>::empty());
            }
        }
    }
    if found {
        click_pane(hit_id, hit_parts, Ghost(hit_pane), Ghost(position), Ghost(true), ctx, share);
        return;
    }
    if ctx.layout_tree.can_find_split(position, share) {
        match ctx.layout_tree.find_split(position, share) {
            Some(split) => {
                ctx.dragging_split = Some(split.id);
                return;
            },
            None => {},
        }
    }
    let layouts = ctx.layout_tree.collect_leaf_layouts();
    let mut k: usize = 0;
    let mut tiled: Option<usize> = None;
    assert(layouts@.skip(0) =~= layouts@);
    while k < layouts.len()
        invariant_except_break
            tiled is None,
            first_leaf_hit(layouts@, position) == first_leaf_hit(
                layouts@.skip(k as int),
                position,
            ),
        invariant
            k <= layouts@.len(),
            layouts@ == leaf_layouts(ctx.layout_tree.root_node()),
        ensures
            tiled == first_leaf_hit(layouts@, position),
        decreases layouts@.len() - k,
    {
        proof {
            assert(layouts@.skip(k as int).drop_first() =~= layouts@.skip(k + 1));
            assert(layouts@.skip(k as int)[0] == layouts@[k as int]);
        }
        if holds(layouts[k].1, position) {
            tiled = Some(layouts[k].0);
            break;
        }
        k = k + 1;
    }
    proof {
        if tiled is None {
            assert(layouts@.skip(layouts@.len() as int) =~= Seq::<(usize, Rect)>::empty());
        }
    }
    match tiled {
        Some(pane_id) => {
            let parts = match ctx.pane_manager.get_pane(pane_id) {
                Some(p) => Some(click_parts(p, position, false)),
                None => None,
            };
            match parts {
                Some(parts) => {
                    click_pane(
                        pane_id,
                        parts,
                        Ghost(ctx.pane_manager.panes()[pane_id]),
                        Ghost(position),
                        Ghost(false),
                        ctx,
                        share,
                    );
                },
                None => ctx.set_active_pane(pane_id),
            }
        },
        None => {},
    }
}

/// The area a dragged pane moves to: its area with the top-left corner at
/// the mouse less the offset at which it was grabbed, stopping at zero.
pub open spec fn dragged_rect(rect: Rect, mouse: Position, offset: Position) -> Rect {
    Rect {
        position: Position {
            col: sat_sub(mouse.col as int, offset.col as int) as usize,
            row: sat_sub(mouse.row as int, offset.row as int) as usize,
        },
        size: rect.size,
    }
}

/// The state after [`handle_left_drag`] on `old`.
pub open spec fn left_drag_done<F: Fn(usize, u32) -> usize, G: Fn(usize, usize) -> u32>(old: EditorContext, new: EditorContext, position: Position, share: F, ratio_at: G) -> bool {
    &&& new.wf()
    &&& old.dragging_split matches Some(id) ==> {
        &&& new.layout_tree.root_node() == laid_out(
            resized(old.layout_tree.root_node(), id, position, ratio_at),
            editor_area(old.terminal_size),
            share,
        )
        &&& new.pane_manager.panes().dom() == old.pane_manager.panes().dom()
    }
    &&& old.dragging_split is None && old.dragging_pane is Some ==> {
        let id = old.dragging_pane->0;
        let panes = old.pane_manager.panes();
        &&& new.layout_tree == old.layout_tree
        &&& new.pane_manager.panes().dom() == panes.dom()
        &&& panes.contains_key(id) ==> new.pane_manager.panes()[id].rect
            == dragged_rect(panes[id].rect, position, old.drag_offset)
        &&& forall|q: usize| #[trigger]
            panes.contains_key(q) && q != id ==> new.pane_manager.panes()[q].rect
                == panes[q].rect
    }
    &&& old.dragging_split is None && old.dragging_pane is None ==> new.pane_manager
        == old.pane_manager && new.layout_tree == old.layout_tree
    &&& new.dragging_split == old.dragging_split
    &&& new.dragging_pane == old.dragging_pane
    &&& new.prompt_type == old.prompt_type
    &&& new.buffer_manager == old.buffer_manager
    &&& new.command_bar == old.command_bar
    &&& new.message_bar == old.message_bar
    &&& new.save_request == old.save_request
    &&& new.explorer_request == old.explorer_request
}

/// A drag to `position`: a grabbed divider moves there (see [`resized`]) and
/// the layout is laid out anew; else a grabbed pane moves with the mouse
/// (see [`dragged_rect`]) and every view is marked for drawing.
pub fn handle_left_drag<F: Fn(usize, u32) -> usize, G: Fn(usize, usize) -> u32>(
    position: Position,
    ctx: &mut EditorContext,
    share: &F,
    ratio_at: &G,
)
    requires
        old(ctx).wf(),
        good_share(*share),
        good_ratio(*ratio_at),
    ensures
        left_drag_done(*old(ctx), *final(ctx), position, *share, *ratio_at),
        final(ctx).quit_times == old(ctx).quit_times,
{
    match ctx.dragging_split {
        Some(split_id) => {
            proof {
                lemma_changes_fit(
                    ctx.layout_tree.root_node(),
                    0,
                    0,
                    SplitDirection::Vertical,
                    0,
                    split_id,
                    position,
                    *ratio_at,
                );
            }
            ctx.layout_tree.resize_split(split_id, position, ratio_at);
            let size = ctx.terminal_size;
            ctx.handle_resize(size, share);
            return;
        },
        None => {},
    }
    match ctx.dragging_pane {
        Some(pane_id) => {
            let offset = ctx.drag_offset;
            let ghost panes0 = ctx.pane_manager.panes();
            match ctx.pane_manager.get_pane_mut(pane_id) {
                Some(pane) => {
                    let rect = Rect {
                        position: Position {
                            col: position.col.saturating_sub(offset.col),
                            row: position.row.saturating_sub(offset.row),
                        },
                        size: pane.rect.size,
                    };
                    pane.resize(rect);
                },
                None => {},
            }
            let ghost panes1 = ctx.pane_manager.panes();
            assert(panes1.dom() =~= panes0.dom());
            ctx.mark_all_panes_for_redraw();
            proof {
                assert forall|q: usize| #[trigger]
                    panes0.contains_key(q) && q != pane_id implies ctx.pane_manager.panes()[q].rect
                    == panes0[q].rect by {
                    assert(panes1.contains_key(q));
                }
                if panes0.contains_key(pane_id) {
                    assert(panes1.contains_key(pane_id));
                }
            }
        },
        None => {},
    }
}

/// The state after [`handle_left_release`] on `old`.
pub open spec fn release_done(old: EditorContext, new: EditorContext) -> bool {
    &&& new.dragging_split is None
    &&& new.dragging_pane is None
    &&& new.pane_manager == old.pane_manager
    &&& new.layout_tree == old.layout_tree
    &&& new.buffer_manager == old.buffer_manager
    &&& new.prompt_type == old.prompt_type
    &&& new.message_bar == old.message_bar
    &&& new.command_bar == old.command_bar
    &&& new.drag_offset == old.drag_offset
    &&& new.save_request == old.save_request
    &&& new.explorer_request == old.explorer_request
}

/// Releasing the mouse lets go of any divider or pane being dragged.
pub fn handle_left_release(ctx: &mut EditorContext)
    ensures
        release_done(*old(ctx), *final(ctx)),
        final(ctx).quit_times == old(ctx).quit_times,
{
    ctx.dragging_split = None;
    ctx.dragging_pane = None;
}

/// The state after [`handle_save_command`] on `old`.
pub open spec fn save_command_done(old: EditorContext, new: EditorContext) -> bool {
    &&& new.pane_manager.wf()
    &&& !old.pane_manager.panes().contains_key(old.pane_manager.active_id()) ==> {
        &&& new.save_request == old.save_request
        &&& new.prompt_type == old.prompt_type
        &&& new.message_bar == old.message_bar
        &&& new.command_bar == old.command_bar
    }
    &&& old.pane_manager.panes().contains_key(old.pane_manager.active_id())
        && active_view(old) is None ==> {
        &&& new.message_bar.message@ == "Cannot save from this pane type"@
        &&& new.save_request == old.save_request
        &&& new.prompt_type == old.prompt_type
    }
    &&& active_buffer(old) is Some && active_buffer(old)->0.info().path() is Some ==> {
        &&& new.save_request is Some
        &&& new.save_request->0.buffer_id == active_view(old)->0.buffer_id
        &&& new.save_request->0.file_name is None
        &&& new.prompt_type == old.prompt_type
        &&& new.message_bar == old.message_bar
    }
    &&& active_view(old) is Some && !(active_buffer(old) is Some
        && active_buffer(old)->0.info().path() is Some) ==> {
        &&& new.prompt_type == PromptType::Save
        &&& new.command_bar.prompt_text() == "Save as: "@
        &&& new.command_bar.value_text() == Seq::<char>::empty()
        &&& new.save_request == old.save_request
    }
    &&& new.pane_manager == old.pane_manager
    &&& new.layout_tree == old.layout_tree
    &&& new.buffer_manager == old.buffer_manager
    &&& new.explorer_request == old.explorer_request
    &&& new.should_quit == old.should_quit
}

/// Ctrl-S: the buffer of the active view is written where it is stored
/// (see [`save`]); a buffer stored nowhere prompts for a name first; a pane
/// showing no view cannot be saved from.
pub fn handle_save_command(ctx: &mut EditorContext)
    requires
        old(ctx).pane_manager.wf(),
    ensures
        save_command_done(*old(ctx), *final(ctx)),
        final(ctx).quit_times == old(ctx).quit_times,
{
    let result: Option<bool> = match ctx.pane_manager.active_pane() {
        None => {
            return;
        },
        Some(pane) => match pane.view() {
            Some(view) => Some(
                match ctx.buffer_manager.get(view.buffer_id()) {
                    Some(b) => b.is_file_loaded(),
                    None => false,
                },
            ),
            None => None,
        },
    };
    match result {
        None => ctx.update_message("Cannot save from this pane type"),
        Some(true) => save(ctx, None),
        Some(false) => ctx.set_prompt(PromptType::Save),
    }
}

/// The help shown for a line the pane prompt does not understand.
pub open spec fn pane_help() -> Seq<char> {
    "Commands: focus <id> (or just <id>), close [<id>], float, unfloat, explore"@
}

/// `new` is `old` with the panes, the layout and the message as they were.
pub open spec fn panes_kept(old: EditorContext, new: EditorContext) -> bool {
    &&& new.wf()
    &&& new.pane_manager.panes() == old.pane_manager.panes()
    &&& new.pane_manager.active_id() == old.pane_manager.active_id()
    &&& new.layout_tree == old.layout_tree
    &&& new.message_bar == old.message_bar
    &&& new.explorer_request == old.explorer_request
}

/// The state after [`execute_pane_command`] of `input` on `old` (see
/// [`pane_command_of`]).
pub open spec fn pane_command_done<F: Fn(usize, u32) -> usize>(
    old: EditorContext,
    new: EditorContext,
    input: Seq<char>,
    share: F,
) -> bool {
    let active = old.pane_manager.active_id();
    let panes = old.pane_manager.panes();
    match pane_command_of(input) {
        PaneCommand::Focus(n) => if panes.contains_key(n) {
            &&& new.wf()
            &&& new.pane_manager.panes() == focus_moved(panes, active, n)
            &&& new.pane_manager.active_id() == n
            &&& new.layout_tree == old.layout_tree
            &&& new.message_bar == old.message_bar
            &&& new.explorer_request == old.explorer_request
        } else {
            &&& new.wf()
            &&& new.pane_manager.panes() == panes
            &&& new.pane_manager.active_id() == active
            &&& new.layout_tree == old.layout_tree
            &&& new.message_bar.message@ == "Pane "@ + decimal(n as nat) + " not found"@
            &&& new.explorer_request == old.explorer_request
        },
        PaneCommand::Close(n) => closed_pane(old, new, n, share),
        PaneCommand::CloseActive => if panes.contains_key(active) {
            closed_pane(old, new, panes[active].pane_id, share)
        } else {
            panes_kept(old, new)
        },
        PaneCommand::Float => if panes.contains_key(active) {
            floated_pane(old, new, panes[active].pane_id, share)
        } else {
            panes_kept(old, new)
        },
        PaneCommand::Unfloat => if panes.contains_key(active) {
            tiled_pane(old, new, panes[active].pane_id, share)
        } else {
            panes_kept(old, new)
        },
        PaneCommand::Explore => {
            &&& new.wf()
            &&& new.explorer_request
            &&& new.pane_manager.panes() == panes
            &&& new.pane_manager.active_id() == active
            &&& new.layout_tree == old.layout_tree
            &&& new.message_bar == old.message_bar
        },
        PaneCommand::Ignored => panes_kept(old, new),
        PaneCommand::Help => {
            &&& new.wf()
            &&& new.pane_manager.panes() == panes
            &&& new.pane_manager.active_id() == active
            &&& new.layout_tree == old.layout_tree
            &&& new.message_bar.message@ == pane_help()
            &&& new.explorer_request == old.explorer_request
        },
    }
}

/// Carries out a line typed at the pane prompt (see [`pane_command_of`]
/// and [`pane_command_done`]); `explore` asks the caller to open a file
/// explorer (see `EditorContext::explorer_request`).
pub fn execute_pane_command<F: Fn(usize, u32) -> usize>(
    input: &str,
    ctx: &mut EditorContext,
    share: &F,
)
    requires
        old(ctx).wf(),
        good_share(*share),
    ensures
        pane_command_done(*old(ctx), *final(ctx), input@, *share),
        final(ctx).buffer_manager == old(ctx).buffer_manager,
        final(ctx).prompt_type == old(ctx).prompt_type,
        final(ctx).command_bar == old(ctx).command_bar,
        final(ctx).save_request == old(ctx).save_request,
        final(ctx).terminal_size == old(ctx).terminal_size,
        final(ctx).quit_times == old(ctx).quit_times,
{
    let active = match ctx.pane_manager.active_pane() {
        Some(p) => Some(p.pane_id),
        None => None,
    };
    match parse_pane_command(input) {
        PaneCommand::Focus(id) => {
            if ctx.pane_manager.get_pane(id).is_some() {
                ctx.pane_manager.set_active_pane(id);
            } else {
                let msg = with_number("Pane ", id, " not found");
                ctx.update_message(msg.as_str());
            }
        },
        PaneCommand::Close(id) => close_pane(id, ctx, share),
        PaneCommand::CloseActive => match active {
            Some(id) => close_pane(id, ctx, share),
            None => {},
        },
        PaneCommand::Float => match active {
            Some(id) => toggle_floating(id, ctx, share),
            None => {},
        },
        PaneCommand::Unfloat => match active {
            Some(id) => unfloat_pane(id, ctx, share),
            None => {},
        },
        PaneCommand::Explore => {
            ctx.explorer_request = true;
        },
        PaneCommand::Ignored => {},
        PaneCommand::Help => ctx.update_message(
            "Commands: focus <id> (or just <id>), close [<id>], float, unfloat, explore",
        ),
    }
}

/// The value of the command bar after `edit` (see
/// `CommandBar::handle_edit_command`).
pub open spec fn edited_value(value: Seq<char>, edit: Edit) -> Seq<char> {
    match edit {
        Edit::Insert(c) => value.push(c),
        Edit::DeleteBackward => if value.len() > 0 {
            value.drop_last()
        } else {
            value
        },
        _ => value,
    }
}

/// The state after [`handle_pane_prompt`] on `old`.
pub open spec fn pane_prompt_done<F: Fn(usize, u32) -> usize>(old: EditorContext, new: EditorContext, command: Command, share: F) -> bool {
    &&& new.wf()
    &&& command == Command::System(System::Dismiss) ==> new.prompt_type
        == PromptType::NoPrompt && panes_kept(old, new)
    &&& command == Command::Edit(Edit::InsertNewLine) ==> new.prompt_type
        == PromptType::NoPrompt && exists|mid: EditorContext|
        pane_command_done(old, mid, old.command_bar.value_text(), share)
            && new.pane_manager.panes() == mid.pane_manager.panes()
            && new.pane_manager.active_id() == mid.pane_manager.active_id()
            && new.layout_tree == mid.layout_tree && new.message_bar
            == mid.message_bar && new.explorer_request == mid.explorer_request
    &&& command is Edit && command->Edit_0 != Edit::InsertNewLine ==> new.command_bar.value_text()
        == edited_value(old.command_bar.value_text(), command->Edit_0) && panes_kept(old, new)
        && new.prompt_type == old.prompt_type
    &&& !(command is Edit) && command != Command::System(System::Dismiss) ==> panes_kept(
        old,
        new,
    ) && new.prompt_type == old.prompt_type && new.command_bar
        == old.command_bar
    &&& new.buffer_manager == old.buffer_manager
    &&& new.save_request == old.save_request
}

/// A command while the pane prompt is shown: Esc closes the prompt, Enter
/// carries out the line typed (see [`pane_command_done`]) and closes the
/// prompt, other edits change the line; anything else is ignored.
pub fn handle_pane_prompt<F: Fn(usize, u32) -> usize>(
    command: Command,
    ctx: &mut EditorContext,
    share: &F,
)
    requires
        old(ctx).wf(),
        good_share(*share),
    ensures
        pane_prompt_done(*old(ctx), *final(ctx), command, *share),
        final(ctx).quit_times == old(ctx).quit_times,
{
    match command {
        Command::System(System::Dismiss) => ctx.set_prompt(PromptType::NoPrompt),
        Command::Edit(Edit::InsertNewLine) => {
            let input = ctx.command_bar.value();
            execute_pane_command(input.as_str(), ctx, share);
            let ghost mid = *ctx;
            ctx.set_prompt(PromptType::NoPrompt);
            assert(pane_command_done(*old(ctx), mid, old(ctx).command_bar.value_text(), *share));
        },
        Command::Edit(e) => ctx.command_bar.handle_edit_command(e),
        _ => {},
    }
}

/// The state after [`handle_save_prompt`] on `old`.
pub open spec fn save_prompt_done(old: EditorContext, new: EditorContext, command: Command) -> bool {
    &&& new.pane_manager.wf()
    &&& command == Command::System(System::Dismiss) ==> new.prompt_type
        == PromptType::NoPrompt && new.message_bar.message@ == "Save aborted"@
        && new.save_request == old.save_request
    &&& command == Command::Edit(Edit::InsertNewLine) ==> {
        &&& new.prompt_type == PromptType::NoPrompt
        &&& active_buffer(old) is Some ==> (new.save_request matches Some(r)
            && r.buffer_id == active_view(old)->0.buffer_id && r.file_name is Some
            && r.file_name->0@ == old.command_bar.value_text())
        &&& active_buffer(old) is None ==> new.save_request
            == old.save_request
        &&& new.message_bar == old.message_bar
    }
    &&& command is Edit && command->Edit_0 != Edit::InsertNewLine ==> new.command_bar.value_text()
        == edited_value(old.command_bar.value_text(), command->Edit_0) && new.prompt_type
        == old.prompt_type && new.save_request == old.save_request
        && new.message_bar == old.message_bar
    &&& !(command is Edit) && command != Command::System(System::Dismiss) ==> new.prompt_type
        == old.prompt_type && new.command_bar == old.command_bar
        && new.save_request == old.save_request && new.message_bar
        == old.message_bar
    &&& new.pane_manager == old.pane_manager
    &&& new.layout_tree == old.layout_tree
    &&& new.buffer_manager == old.buffer_manager
    &&& new.explorer_request == old.explorer_request
}

/// A command while the save prompt is shown: Esc gives up, Enter asks for
/// the buffer to be written under the name typed (see [`save`]) and closes
/// the prompt, other edits change the name; anything else is ignored.
pub fn handle_save_prompt(command: Command, ctx: &mut EditorContext)
    requires
        old(ctx).pane_manager.wf(),
    ensures
        save_prompt_done(*old(ctx), *final(ctx), command),
        final(ctx).quit_times == old(ctx).quit_times,
{
    match command {
        Command::System(System::Dismiss) => {
            ctx.set_prompt(PromptType::NoPrompt);
            ctx.update_message("Save aborted");
        },
        Command::Edit(Edit::InsertNewLine) => {
            let file_name = ctx.command_bar.value();
            save(ctx, Some(file_name.as_str()));
            ctx.set_prompt(PromptType::NoPrompt);
        },
        Command::Edit(e) => ctx.command_bar.handle_edit_command(e),
        _ => {},
    }
}

/// Where a search in the active view from `from` towards `direction`
/// leaves its caret: at the match, or where it was.
pub open spec fn searched_location(
    ctx: EditorContext,
    query: Seq<char>,
    from: Location,
    direction: SearchDirection,
) -> Location {
    match search_result(active_buffer(ctx)->0.text(), query, from, direction) {
        Some(found) => found,
        None => active_view(ctx)->0.text_location,
    }
}

/// Where a search for the next match starts: one grapheme right of the
/// caret, when the query is not empty.
pub open spec fn next_search_start(v: View) -> Location {
    loc(
        sadd(
            v.text_location.grapheme_idx as int,
            vstd::math::min(search_query(v)->0.len() as int, 1),
        ),
        v.text_location.line_idx as int,
    )
}

/// Ends the search in the active view, putting its caret back where the
/// search began.
fn dismiss_active_search(ctx: &mut EditorContext)
    requires
        old(ctx).pane_manager.wf(),
    ensures
        only_active_changed(*old(ctx), *final(ctx)),
        final(ctx).buffer_manager.buffers() == old(ctx).buffer_manager.buffers(),
        active_buffer(*old(ctx)) is Some ==> {
            let v = active_view(*old(ctx))->0;
            let w = active_view(*final(ctx))->0;
            &&& w.search_info is None
            &&& w.text_location == match v.search_info {
                Some(info) => info.prev_location,
                None => v.text_location,
            }
        },
        active_buffer(*old(ctx)) is None ==> final(ctx).pane_manager.panes()
            == old(ctx).pane_manager.panes(),
{
    let buffer_id = match ctx.active_buffer_id() {
        Some(id) => id,
        None => {
            return;
        },
    };
    let ghost panes0 = ctx.pane_manager.panes();
    match ctx.pane_manager.active_pane_mut() {
        Some(pane) => match pane.view_mut() {
            Some(view) => match ctx.buffer_manager.get(buffer_id) {
                Some(buffer) => view.dismiss_search(buffer),
                None => {},
            },
            None => {},
        },
        None => {},
    }
    proof {
        assert(ctx.pane_manager.panes().dom() =~= panes0.dom());
        if active_buffer(*old(ctx)) is None {
            assert(ctx.pane_manager.panes() =~= panes0);
        }
    }
}

/// Ends the search in the active view, leaving its caret at the match.
fn exit_active_search(ctx: &mut EditorContext)
    requires
        old(ctx).pane_manager.wf(),
    ensures
        only_active_changed(*old(ctx), *final(ctx)),
        final(ctx).buffer_manager.buffers() == old(ctx).buffer_manager.buffers(),
        active_view(*old(ctx)) is Some ==> {
            let v = active_view(*old(ctx))->0;
            let w = active_view(*final(ctx))->0;
            &&& w.search_info is None
            &&& w.text_location == v.text_location
        },
        active_view(*old(ctx)) is None ==> final(ctx).pane_manager.panes()
            == old(ctx).pane_manager.panes(),
{
    let ghost panes0 = ctx.pane_manager.panes();
    match ctx.pane_manager.active_pane_mut() {
        Some(pane) => match pane.view_mut() {
            Some(view) => view.exit_search(),
            None => {},
        },
        None => {},
    }
    proof {
        assert(ctx.pane_manager.panes().dom() =~= panes0.dom());
        if active_view(*old(ctx)) is None {
            assert(ctx.pane_manager.panes() =~= panes0);
        }
    }
}

/// Whether the active view has a buffer and a search under way.
pub open spec fn searching(ctx: EditorContext) -> bool {
    active_buffer(ctx) is Some && active_view(ctx)->0.search_info is Some
}

/// Whether the active view has a buffer and a search with a query.
pub open spec fn searching_for(ctx: EditorContext) -> bool {
    active_buffer(ctx) is Some && search_query(active_view(ctx)->0) is Some
}

/// Searches the active view for `query` from its caret on (see
/// `View::search`); nothing happens without a search under way.
fn search_active(ctx: &mut EditorContext, query: &str)
    requires
        old(ctx).pane_manager.wf(),
    ensures
        only_active_changed(*old(ctx), *final(ctx)),
        final(ctx).buffer_manager.buffers() == old(ctx).buffer_manager.buffers(),
        searching(*old(ctx)) ==> {
            let w = active_view(*final(ctx))->0;
            &&& search_query(w) == Some(query@)
            &&& w.text_location == searched_location(
                *old(ctx),
                query@,
                active_view(*old(ctx))->0.text_location,
                SearchDirection::Forward,
            )
        },
        !searching(*old(ctx)) ==> final(ctx).pane_manager.panes()
            == old(ctx).pane_manager.panes(),
{
    let buffer_id = match ctx.active_buffer_id() {
        Some(id) => id,
        None => {
            return;
        },
    };
    let ghost panes0 = ctx.pane_manager.panes();
    match ctx.pane_manager.active_pane_mut() {
        Some(pane) => match pane.view_mut() {
            Some(view) => match ctx.buffer_manager.get(buffer_id) {
                Some(buffer) => {
                    if view.search_info.is_some() {
                        view.search(query, buffer);
                    }
                },
                None => {},
            },
            None => {},
        },
        None => {},
    }
    proof {
        assert(ctx.pane_manager.panes().dom() =~= panes0.dom());
        if !searching(*old(ctx)) {
            assert(ctx.pane_manager.panes() =~= panes0);
        }
    }
}

/// Whether `v` has a search with a query.
fn has_query(v: &View) -> (b: bool)
    ensures
        b == (search_query(*v) is Some),
{
    match &v.search_info {
        Some(info) => info.query.is_some(),
        None => false,
    }
}

/// Searches the active view for the next match of its query (forward) or
/// the previous one (backward); nothing happens without a query.
fn search_active_step(ctx: &mut EditorContext, forward: bool)
    requires
        old(ctx).pane_manager.wf(),
    ensures
        only_active_changed(*old(ctx), *final(ctx)),
        final(ctx).buffer_manager.buffers() == old(ctx).buffer_manager.buffers(),
        searching_for(*old(ctx)) ==> {
            let v = active_view(*old(ctx))->0;
            let w = active_view(*final(ctx))->0;
            &&& w.search_info == v.search_info
            &&& forward ==> w.text_location == searched_location(
                *old(ctx),
                search_query(v)->0,
                next_search_start(v),
                SearchDirection::Forward,
            )
            &&& !forward ==> w.text_location == searched_location(
                *old(ctx),
                search_query(v)->0,
                v.text_location,
                SearchDirection::Backward,
            )
        },
        !searching_for(*old(ctx)) ==> final(ctx).pane_manager.panes()
            == old(ctx).pane_manager.panes(),
{
    let buffer_id = match ctx.active_buffer_id() {
        Some(id) => id,
        None => {
            return;
        },
    };
    let ghost panes0 = ctx.pane_manager.panes();
    match ctx.pane_manager.active_pane_mut() {
        Some(pane) => match pane.view_mut() {
            Some(view) => match ctx.buffer_manager.get(buffer_id) {
                Some(buffer) => {
                    if has_query(view) {
                        if forward {
                            view.search_next(buffer);
                        } else {
                            view.search_prev(buffer);
                        }
                    }
                },
                None => {},
            },
            None => {},
        },
        None => {},
    }
    proof {
        assert(ctx.pane_manager.panes().dom() =~= panes0.dom());
        if !searching_for(*old(ctx)) {
            assert(ctx.pane_manager.panes() =~= panes0);
        }
    }
}

/// The state after [`handle_search_prompt`] on `old`.
pub open spec fn search_prompt_done(old: EditorContext, new: EditorContext, command: Command) -> bool {
    &&& new.pane_manager.wf()
    &&& new.buffer_manager.buffers() == old.buffer_manager.buffers()
    &&& new.layout_tree == old.layout_tree
    &&& new.pane_manager.panes().dom() == old.pane_manager.panes().dom()
    &&& new.pane_manager.active_id() == old.pane_manager.active_id()
    &&& command == Command::System(System::Dismiss) ==> {
        &&& new.prompt_type == PromptType::NoPrompt
        &&& active_buffer(old) is Some ==> {
            let v = active_view(old)->0;
            let w = active_view(new)->0;
            &&& w.search_info is None
            &&& w.text_location == match v.search_info {
                Some(info) => info.prev_location,
                None => v.text_location,
            }
        }
    }
    &&& command == Command::Edit(Edit::InsertNewLine) ==> {
        &&& new.prompt_type == PromptType::NoPrompt
        &&& active_view(old) is Some ==> active_view(new)->0.search_info is None
            && active_view(new)->0.text_location == active_view(
            old,
        )->0.text_location
    }
    &&& command is Edit && command->Edit_0 != Edit::InsertNewLine ==> {
        let query = edited_value(old.command_bar.value_text(), command->Edit_0);
        &&& new.command_bar.value_text() == query
        &&& new.prompt_type == old.prompt_type
        &&& searching(old) ==> search_query(active_view(new)->0) == Some(query)
            && active_view(new)->0.text_location == searched_location(
            old,
            query,
            active_view(old)->0.text_location,
            SearchDirection::Forward,
        )
    }
    &&& (command == Command::Move(Move::Right) || command == Command::Move(Move::Down))
        && searching_for(old) ==> active_view(new)->0.text_location
        == searched_location(
        old,
        search_query(active_view(old)->0)->0,
        next_search_start(active_view(old)->0),
        SearchDirection::Forward,
    )
    &&& (command == Command::Move(Move::Up) || command == Command::Move(Move::Left))
        && searching_for(old) ==> active_view(new)->0.text_location
        == searched_location(
        old,
        search_query(active_view(old)->0)->0,
        active_view(old)->0.text_location,
        SearchDirection::Backward,
    )
    &&& !(command is Edit) && command != Command::System(System::Dismiss) ==> new.prompt_type
        == old.prompt_type && new.command_bar == old.command_bar
    &&& !(command is Edit) && !(command is Move) && command != Command::System(System::Dismiss)
        ==> new.pane_manager.panes() == old.pane_manager.panes()
    &&& new.message_bar == old.message_bar
    &&& new.save_request == old.save_request
    &&& new.explorer_request == old.explorer_request
}

/// A command while a search is under way: Esc ends it and puts the caret
/// back, Enter ends it at the match, other edits change the query and
/// search again from the caret, right and down go to the next match, up
/// and left to the previous one; anything else is ignored.
pub fn handle_search_prompt(command: Command, ctx: &mut EditorContext)
    requires
        old(ctx).pane_manager.wf(),
    ensures
        search_prompt_done(*old(ctx), *final(ctx), command),
        final(ctx).quit_times == old(ctx).quit_times,
{
    match command {
        Command::System(System::Dismiss) => {
            ctx.set_prompt(PromptType::NoPrompt);
            dismiss_active_search(ctx);
        },
        Command::Edit(Edit::InsertNewLine) => {
            ctx.set_prompt(PromptType::NoPrompt);
            exit_active_search(ctx);
        },
        Command::Edit(e) => {
            ctx.command_bar.handle_edit_command(e);
            let query = ctx.command_bar.value();
            search_active(ctx, query.as_str());
        },
        Command::Move(Move::Right) | Command::Move(Move::Down) => search_active_step(ctx, true),
        Command::Move(Move::Up) | Command::Move(Move::Left) => search_active_step(ctx, false),
        _ => {},
    }
}

/// The state after an editor-wide command `sys` on `old`.
pub open spec fn system_done<F: Fn(usize, u32) -> usize>(
    old: EditorContext,
    new: EditorContext,
    sys: System,
    share: F,
) -> bool {
    match sys {
        System::Resize(size) => {
            &&& new.wf()
            &&& new.terminal_size == size
            &&& new.layout_tree.root_node() == laid_out(
                old.layout_tree.root_node(),
                editor_area(size),
                share,
            )
            &&& new.pane_manager.panes().dom() == old.pane_manager.panes().dom()
            &&& new.pane_manager.active_id() == old.pane_manager.active_id()
            &&& new.buffer_manager == old.buffer_manager
            &&& new.prompt_type == old.prompt_type
        },
        System::Quit => quit_done(old, new),
        System::Search => {
            &&& new.prompt_type == PromptType::Search
            &&& new.command_bar.prompt_text() == prompt_for(PromptType::Search)->0
            &&& new.command_bar.value_text() == Seq::<char>::empty()
            &&& active_view(old) is Some ==> active_view(new) is Some && active_view(
                new,
            )->0.search_info == Some(
                SearchInfo {
                    prev_location: active_view(old)->0.text_location,
                    prev_scroll_offset: active_view(old)->0.scroll_offset,
                    query: None,
                },
            )
            &&& new.buffer_manager == old.buffer_manager
            &&& new.layout_tree == old.layout_tree
        },
        System::Save => save_command_done(old, new),
        System::Undo => undo_done(old, new),
        System::Redo => redo_done(old, new),
        System::SplitHorizontal => split_done(old, new, SplitDirection::Horizontal, share),
        System::SplitVertical => split_done(old, new, SplitDirection::Vertical, share),
        System::OpenCommandBar => {
            &&& new.prompt_type == PromptType::FocusPane
            &&& new.command_bar.prompt_text() == prompt_for(PromptType::FocusPane)->0
            &&& new.command_bar.value_text() == Seq::<char>::empty()
            &&& new.pane_manager == old.pane_manager
            &&& new.buffer_manager == old.buffer_manager
            &&& new.layout_tree == old.layout_tree
        },
        System::Dismiss => new == old,
    }
}

/// The state after a mouse command `m` on `old`.
pub open spec fn mouse_done<F: Fn(usize, u32) -> usize, G: Fn(usize, usize) -> u32>(
    old: EditorContext,
    new: EditorContext,
    m: MouseCommand,
    share: F,
    ratio_at: G,
) -> bool {
    match m {
        MouseCommand::LeftClick(pos) => left_click_done(old, new, pos, share),
        MouseCommand::LeftDrag(pos) => left_drag_done(old, new, pos, share, ratio_at),
        MouseCommand::LeftRelease(_) => release_done(old, new),
        MouseCommand::ScrollUp(_) => move_done(old, new, Move::PageUp),
        MouseCommand::ScrollDown(_) => move_done(old, new, Move::PageDown),
    }
}

/// The kinds of handler, in the order a registry may hold them.
#[derive(Clone, Copy, Debug, PartialEq, Eq, Structural)]
pub enum HandlerKind {
    PromptAware,
    System,
    Edit,
    Move,
    Mouse,
}

/// Whether a handler of kind `k` takes commands like `command`.
pub open spec fn takes_kind(k: HandlerKind, command: Command) -> bool {
    match k {
        HandlerKind::PromptAware => true,
        HandlerKind::System => command is System,
        HandlerKind::Edit => command is Edit,
        HandlerKind::Move => command is Move,
        HandlerKind::Mouse => command is Mouse,
    }
}

/// Whether a handler of kind `k` acts on `command` while `prompt` is shown,
/// rather than leaving it to the next handler.
pub open spec fn acts_on(k: HandlerKind, prompt: PromptType, command: Command) -> bool {
    takes_kind(k, command) && !(k == HandlerKind::PromptAware && prompt == PromptType::NoPrompt)
}

/// The state after a handler of kind `k` acted on `command` in `old`.
pub open spec fn handled_by<F: Fn(usize, u32) -> usize, G: Fn(usize, usize) -> u32>(
    k: HandlerKind,
    old: EditorContext,
    new: EditorContext,
    command: Command,
    share: F,
    ratio_at: G,
) -> bool {
    match k {
        HandlerKind::PromptAware => match old.prompt_type {
            PromptType::Search => search_prompt_done(old, new, command),
            PromptType::Save => save_prompt_done(old, new, command),
            PromptType::NoPrompt => new == old,
            _ => pane_prompt_done(old, new, command, share),
        },
        HandlerKind::System => system_done(old, new, command->System_0, share),
        HandlerKind::Edit => edit_done(old, new, command->Edit_0),
        HandlerKind::Move => move_done(old, new, command->Move_0),
        HandlerKind::Mouse => mouse_done(old, new, command->Mouse_0, share, ratio_at),
    }
}

/// A handler of some kind of command.
pub trait CommandHandler {
    /// Whether the handler takes commands like `command`.
    fn can_handle(&self, command: &Command) -> bool;

    /// Acts on `command`: `Ok` when it did, an error "pass-through" when it
    /// leaves the command to the next handler, another error when it
    /// refuses it.
    fn handle<F: Fn(usize, u32) -> usize, G: Fn(usize, usize) -> u32>(
        &mut self,
        command: &Command,
        ctx: &mut EditorContext,
        share: &F,
        ratio_at: &G,
    ) -> (r: Result<(), String>)
        requires
            old(ctx).wf(),
            old(ctx).quit_times < QUIT_TIMES,
            good_share(*share),
            good_ratio(*ratio_at),
        ensures
            final(ctx).wf(),
            final(ctx).quit_times < QUIT_TIMES,
    ;
}

/// Handles editor-wide commands.
pub struct SystemHandler;

/// Handles edits of the text.
pub struct EditHandler;

/// Handles caret movements.
pub struct MoveHandler;

/// Handles the mouse.
pub struct MouseHandler;

/// Takes every command while a prompt is shown.
pub struct PromptAwareHandler;

impl CommandHandler for SystemHandler {
    fn can_handle(&self, command: &Command) -> (b: bool)
        ensures
            b == (*command is System),
    {
        match command {
            Command::System(_) => true,
            _ => false,
        }
    }

    fn handle<F: Fn(usize, u32) -> usize, G: Fn(usize, usize) -> u32>(
        &mut self,
        command: &Command,
        ctx: &mut EditorContext,
        share: &F,
        ratio_at: &G,
    ) -> (r: Result<(), String>)
        ensures
            *command is System ==> r is Ok && system_done(
                *old(ctx),
                *final(ctx),
                command->System_0,
                *share,
            ),
            !(*command is System) ==> r is Err && *final(ctx) == *old(ctx),
    {
        match command {
            Command::System(sys) => {
                match sys {
                    System::Resize(size) => ctx.handle_resize(*size, share),
                    System::Quit => handle_quit(ctx),
                    System::Search => ctx.set_prompt(PromptType::Search),
                    System::Save => handle_save_command(ctx),
                    System::Undo => handle_undo(ctx),
                    System::Redo => handle_redo(ctx),
                    System::SplitHorizontal => split_active_pane(
                        ctx,
                        SplitDirection::Horizontal,
                        share,
                    ),
                    System::SplitVertical => split_active_pane(
                        ctx,
                        SplitDirection::Vertical,
                        share,
                    ),
                    System::OpenCommandBar => ctx.set_prompt(PromptType::FocusPane),
                    System::Dismiss => {},
                }
                Ok(())
            },
            _ => Err(String::from_str("Not a System command")),
        }
    }
}

impl CommandHandler for EditHandler {
    fn can_handle(&self, command: &Command) -> (b: bool)
        ensures
            b == (*command is Edit),
    {
        match command {
            Command::Edit(_) => true,
            _ => false,
        }
    }

    fn handle<F: Fn(usize, u32) -> usize, G: Fn(usize, usize) -> u32>(
        &mut self,
        command: &Command,
        ctx: &mut EditorContext,
        share: &F,
        ratio_at: &G,
    ) -> (r: Result<(), String>)
        ensures
            *command is Edit ==> r is Ok && edit_done(*old(ctx), *final(ctx), command->Edit_0),
            !(*command is Edit) ==> r is Err && *final(ctx) == *old(ctx),
    {
        match command {
            Command::Edit(e) => {
                apply_edit(ctx, *e);
                Ok(())
            },
            _ => Err(String::from_str("Not an Edit command")),
        }
    }
}

impl CommandHandler for MoveHandler {
    fn can_handle(&self, command: &Command) -> (b: bool)
        ensures
            b == (*command is Move),
    {
        match command {
            Command::Move(_) => true,
            _ => false,
        }
    }

    fn handle<F: Fn(usize, u32) -> usize, G: Fn(usize, usize) -> u32>(
        &mut self,
        command: &Command,
        ctx: &mut EditorContext,
        share: &F,
        ratio_at: &G,
    ) -> (r: Result<(), String>)
        ensures
            *command is Move ==> r is Ok && move_done(*old(ctx), *final(ctx), command->Move_0),
            !(*command is Move) ==> r is Err && *final(ctx) == *old(ctx),
    {
        match command {
            Command::Move(m) => {
                move_active_view(ctx, *m);
                Ok(())
            },
            _ => Err(String::from_str("Not a Move command")),
        }
    }
}

impl CommandHandler for MouseHandler {
    fn can_handle(&self, command: &Command) -> (b: bool)
        ensures
            b == (*command is Mouse),
    {
        match command {
            Command::Mouse(_) => true,
            _ => false,
        }
    }

    fn handle<F: Fn(usize, u32) -> usize, G: Fn(usize, usize) -> u32>(
        &mut self,
        command: &Command,
        ctx: &mut EditorContext,
        share: &F,
        ratio_at: &G,
    ) -> (r: Result<(), String>)
        ensures
            *command is Mouse ==> r is Ok && mouse_done(
                *old(ctx),
                *final(ctx),
                command->Mouse_0,
                *share,
                *ratio_at,
            ),
            !(*command is Mouse) ==> r is Err && *final(ctx) == *old(ctx),
    {
        match command {
            Command::Mouse(m) => {
                match m {
                    MouseCommand::LeftClick(pos) => handle_left_click(*pos, ctx, share),
                    MouseCommand::LeftDrag(pos) => handle_left_drag(*pos, ctx, share, ratio_at),
                    MouseCommand::LeftRelease(_) => handle_left_release(ctx),
                    MouseCommand::ScrollUp(_) => pane_scroll_up(ctx),
                    MouseCommand::ScrollDown(_) => pane_scroll_down(ctx),
                }
                Ok(())
            },
            _ => Err(String::from_str("Not a Mouse command")),
        }
    }
}

impl CommandHandler for PromptAwareHandler {
    fn can_handle(&self, command: &Command) -> (b: bool)
        ensures
            b,
    {
        true
    }

    fn handle<F: Fn(usize, u32) -> usize, G: Fn(usize, usize) -> u32>(
        &mut self,
        command: &Command,
        ctx: &mut EditorContext,
        share: &F,
        ratio_at: &G,
    ) -> (r: Result<(), String>)
        ensures
            old(ctx).prompt_type == PromptType::NoPrompt ==> (r matches Err(e) && e@
                == "pass-through"@) && *final(ctx) == *old(ctx),
            old(ctx).prompt_type != PromptType::NoPrompt ==> r is Ok && handled_by(
                HandlerKind::PromptAware,
                *old(ctx),
                *final(ctx),
                *command,
                *share,
                *ratio_at,
            ),
    {
        match ctx.prompt_type {
            PromptType::NoPrompt => {
                return Err(String::from_str("pass-through"));
            },
            PromptType::Search => handle_search_prompt(*command, ctx),
            PromptType::Save => handle_save_prompt(*command, ctx),
            PromptType::FocusPane | PromptType::ClosePane => handle_pane_prompt(
                *command,
                ctx,
                share,
            ),
        }
        Ok(())
    }
}

/// The index of the first handler of `kinds` that acts on `command` while
/// `prompt` is shown, or the length.
pub open spec fn first_acting(kinds: Seq<HandlerKind>, prompt: PromptType, command: Command) -> int
    decreases kinds.len(),
{
    if kinds.len() == 0 {
        0
    } else if acts_on(kinds[0], prompt, command) {
        0
    } else {
        1 + first_acting(kinds.drop_first(), prompt, command)
    }
}

proof fn lemma_first_acting(kinds: Seq<HandlerKind>, prompt: PromptType, command: Command)
    ensures
        0 <= first_acting(kinds, prompt, command) <= kinds.len(),
        forall|i: int|
            0 <= i < first_acting(kinds, prompt, command) ==> !acts_on(
                #[trigger] kinds[i],
                prompt,
                command,
            ),
        first_acting(kinds, prompt, command) < kinds.len() ==> acts_on(
            kinds[first_acting(kinds, prompt, command)],
            prompt,
            command,
        ),
    decreases kinds.len(),
{
    if kinds.len() > 0 && !acts_on(kinds[0], prompt, command) {
        lemma_first_acting(kinds.drop_first(), prompt, command);
        assert forall|i: int|
            0 <= i < first_acting(kinds, prompt, command) implies !acts_on(
            #[trigger] kinds[i],
            prompt,
            command,
        ) by {
            if i > 0 {
                assert(kinds[i] == kinds.drop_first()[i - 1]);
            }
        }
    }
}

/// Whether a handler of kind `k` takes `command`.
fn kind_can_handle(k: HandlerKind, command: &Command) -> (b: bool)
    ensures
        b == takes_kind(k, *command),
{
    match k {
        HandlerKind::PromptAware => PromptAwareHandler.can_handle(command),
        HandlerKind::System => SystemHandler.can_handle(command),
        HandlerKind::Edit => EditHandler.can_handle(command),
        HandlerKind::Move => MoveHandler.can_handle(command),
        HandlerKind::Mouse => MouseHandler.can_handle(command),
    }
}

/// Has a handler of kind `k`, which takes `command`, act on it.
fn kind_handle<F: Fn(usize, u32) -> usize, G: Fn(usize, usize) -> u32>(
    k: HandlerKind,
    command: &Command,
    ctx: &mut EditorContext,
    share: &F,
    ratio_at: &G,
) -> (r: Result<(), String>)
    requires
        old(ctx).wf(),
        old(ctx).quit_times < QUIT_TIMES,
        good_share(*share),
        good_ratio(*ratio_at),
        takes_kind(k, *command),
    ensures
        final(ctx).wf(),
        final(ctx).quit_times < QUIT_TIMES,
        acts_on(k, old(ctx).prompt_type, *command) ==> r is Ok && handled_by(
            k,
            *old(ctx),
            *final(ctx),
            *command,
            *share,
            *ratio_at,
        ),
        !acts_on(k, old(ctx).prompt_type, *command) ==> (r matches Err(e) && e@
            == "pass-through"@) && *final(ctx) == *old(ctx),
{
    match k {
        HandlerKind::PromptAware => PromptAwareHandler.handle(command, ctx, share, ratio_at),
        HandlerKind::System => SystemHandler.handle(command, ctx, share, ratio_at),
        HandlerKind::Edit => EditHandler.handle(command, ctx, share, ratio_at),
        HandlerKind::Move => MoveHandler.handle(command, ctx, share, ratio_at),
        HandlerKind::Mouse => MouseHandler.handle(command, ctx, share, ratio_at),
    }
}

/// The handlers, in the order they are offered a command.
pub struct HandlerRegistry {
    handlers: Vec<HandlerKind>,
}

impl HandlerRegistry {
    /// The kinds of the handlers, in order.
    pub closed spec fn kinds(&self) -> Seq<HandlerKind> {
        self.handlers@
    }

    /// A registry with no handler.
    pub fn new() -> (r: Self)
        ensures
            r.kinds() == Seq::<HandlerKind>::empty(),
    {
        HandlerRegistry { handlers: Vec::new() }
    }

    /// Adds a handler of kind `handler` last.
    pub fn register(&mut self, handler: HandlerKind)
        ensures
            final(self).kinds() == old(self).kinds().push(handler),
    {
        self.handlers.push(handler);
    }

    /// Offers `command` to the handlers in order: the first that acts on it
    /// (see [`acts_on`]) handles it (see [`handled_by`]); with none, nothing
    /// changes.
    pub fn dispatch<F: Fn(usize, u32) -> usize, G: Fn(usize, usize) -> u32>(
        &mut self,
        command: &Command,
        ctx: &mut EditorContext,
        share: &F,
        ratio_at: &G,
    ) -> (r: Result<(), String>)
        requires
            old(ctx).wf(),
            old(ctx).quit_times < QUIT_TIMES,
            good_share(*share),
            good_ratio(*ratio_at),
        ensures
            r is Ok,
            final(ctx).wf(),
            final(ctx).quit_times < QUIT_TIMES,
            final(self).kinds() == old(self).kinds(),
            ({
                let i = first_acting(old(self).kinds(), old(ctx).prompt_type, *command);
                i < old(self).kinds().len() ==> handled_by(
                    old(self).kinds()[i],
                    *old(ctx),
                    *final(ctx),
                    *command,
                    *share,
                    *ratio_at,
                )
            }),
            first_acting(old(self).kinds(), old(ctx).prompt_type, *command) == old(
                self,
            ).kinds().len() ==> *final(ctx) == *old(ctx),
    {
        proof {
            lemma_first_acting(self.kinds(), ctx.prompt_type, *command);
        }
        let ghost first = first_acting(self.kinds(), ctx.prompt_type, *command);
        let mut i: usize = 0;
        while i < self.handlers.len()
            invariant
                i <= first,
                first <= self.handlers@.len(),
                first == first_acting(self.kinds(), old(ctx).prompt_type, *command),
                *ctx == *old(ctx),
                old(ctx).wf(),
                old(ctx).quit_times < QUIT_TIMES,
                good_share(*share),
                good_ratio(*ratio_at),
                self.kinds() == old(self).kinds(),
                forall|j: int|
                    0 <= j < first ==> !acts_on(
                        #[trigger] self.kinds()[j],
                        old(ctx).prompt_type,
                        *command,
                    ),
                first < self.kinds().len() ==> acts_on(
                    self.kinds()[first],
                    old(ctx).prompt_type,
                    *command,
                ),
            decreases self.handlers@.len() - i,
        {
            let kind = self.handlers[i];
            if kind_can_handle(kind, command) {
                let result = kind_handle(kind, command, ctx, share, ratio_at);
                match result {
                    Ok(()) => {
                        assert(i == first);
                        return Ok(());
                    },
                    Err(e) => {
                        if e != String::from_str("pass-through") {
                            return Err(e);
                        }
                    },
                }
            }
            assert(i != first);
            i = i + 1;
        }
        Ok(())
    }
}

impl Default for HandlerRegistry {
    /// The prompt handler first, then the handlers of system, edit, move and
    /// mouse commands.
    fn default() -> (r: Self)
        ensures
            r.kinds() == seq![
                HandlerKind::PromptAware,
                HandlerKind::System,
                HandlerKind::Edit,
                HandlerKind::Move,
                HandlerKind::Mouse,
            ],
    {
        let mut registry = HandlerRegistry::new();
        registry.register(HandlerKind::PromptAware);
        registry.register(HandlerKind::System);
        registry.register(HandlerKind::Edit);
        registry.register(HandlerKind::Move);
        registry.register(HandlerKind::Mouse);
        registry
    }
}

/// The kind of handler that takes `command` when no prompt is shown.
pub open spec fn kind_of(command: Command) -> HandlerKind {
    match command {
        Command::System(_) => HandlerKind::System,
        Command::Edit(_) => HandlerKind::Edit,
        Command::Move(_) => HandlerKind::Move,
        Command::Mouse(_) => HandlerKind::Mouse,
    }
}

/// The handlers of the default registry, in order.
pub open spec fn default_kinds() -> Seq<HandlerKind> {
    seq![
        HandlerKind::PromptAware,
        HandlerKind::System,
        HandlerKind::Edit,
        HandlerKind::Move,
        HandlerKind::Mouse,
    ]
}

/// With the default handlers, a command shown a prompt goes to the prompt
/// handler, and one with no prompt shown goes to the handler of its kind.
pub proof fn lemma_default_routing(prompt: PromptType, command: Command)
    ensures
        prompt != PromptType::NoPrompt ==> first_acting(default_kinds(), prompt, command) == 0,
        prompt == PromptType::NoPrompt ==> {
            let i = first_acting(default_kinds(), prompt, command);
            &&& 0 < i < default_kinds().len()
            &&& default_kinds()[i] == kind_of(command)
        },
{
    let k = default_kinds();
    assert(k.drop_first() =~= seq![
        HandlerKind::System,
        HandlerKind::Edit,
        HandlerKind::Move,
        HandlerKind::Mouse,
    ]);
    assert(k.drop_first().drop_first() =~= seq![
        HandlerKind::Edit,
        HandlerKind::Move,
        HandlerKind::Mouse,
    ]);
    assert(k.drop_first().drop_first().drop_first() =~= seq![
        HandlerKind::Move,
        HandlerKind::Mouse,
    ]);
    assert(k.drop_first().drop_first().drop_first().drop_first() =~= seq![
        HandlerKind::Mouse,
    ]);
    reveal_with_fuel(first_acting, 5);
}

/// With unsaved changes, quitting takes [`QUIT_TIMES`] asks in a row: the
/// first two only warn, the third quits.
pub proof fn lemma_quit_needs_three_asks(
    c0: EditorContext,
    c1: EditorContext,
    c2: EditorContext,
    c3: EditorContext,
)
    requires
        active_modified(c0),
        c0.quit_times == 0,
        !c0.should_quit,
        quit_done(c0, c1),
        quit_done(c1, c2),
        quit_done(c2, c3),
    ensures
        !c1.should_quit,
        !c2.should_quit,
        c3.should_quit,
{
    assert(active_modified(c1) == active_modified(c0));
    assert(active_modified(c2) == active_modified(c1));
}

/// The direction each split command splits in: split vertical puts the
/// parts side by side, split horizontal one above the other.
pub open spec fn command_direction(sys: System) -> SplitDirection {
    if sys == System::SplitVertical {
        SplitDirection::Vertical
    } else {
        SplitDirection::Horizontal
    }
}

/// A split command that splits the active pane leaves it and the new pane
/// in one split of the command's direction: the active pane first, the new
/// pane second.
pub proof fn lemma_split_command_keeps_direction<F: Fn(usize, u32) -> usize>(
    old: EditorContext,
    new: EditorContext,
    sys: System,
    share: F,
)
    requires
        sys == System::SplitVertical || sys == System::SplitHorizontal,
        system_done(old, new, sys, share),
        old.pane_manager.panes().contains_key(old.pane_manager.active_id()),
        old.buffer_manager.next_id() < usize::MAX,
        old.pane_manager.next_id() < usize::MAX,
        old.layout_tree.next_id() < usize::MAX,
        split_at_leaf(
            old.layout_tree.root_node(),
            old.pane_manager.panes()[old.pane_manager.active_id()].pane_id,
            old.pane_manager.next_id(),
            command_direction(sys),
            HALF_RATIO,
            old.layout_tree.next_id(),
        ) is Ok,
    ensures
        holds_split(
            new.layout_tree.root_node(),
            old.layout_tree.next_id(),
            command_direction(sys),
            old.pane_manager.panes()[old.pane_manager.active_id()].pane_id,
            old.pane_manager.next_id(),
        ),
{
    let d = command_direction(sys);
    let a = old.pane_manager.panes()[old.pane_manager.active_id()].pane_id;
    let b = old.pane_manager.next_id();
    let sid = old.layout_tree.next_id();
    let n = split_at_leaf(old.layout_tree.root_node(), a, b, d, HALF_RATIO, sid)->Ok_0;
    lemma_split_has_asked_direction(old.layout_tree.root_node(), a, b, d, HALF_RATIO, sid);
    lemma_laid_out_keeps_splits(n, editor_area(old.terminal_size), share, sid, d, a, b);
}

} // verus!
