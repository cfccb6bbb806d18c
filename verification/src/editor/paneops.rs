//! Opening, closing, splitting, floating and tiling panes.
use crate::editor::buffer::Buffer;
use crate::editor::context::{editor_area, good_share, EditorContext};
use crate::editor::fileexplorer::FileExplorer;
use crate::editor::layouttree::{
    laid_out, leaf_ids, leaf_layouts, lemma_changes_fit, lemma_layout_tiles, lemma_leaves_nonempty,
    lemma_remove_drops_leaf, lemma_remove_whole, lemma_split_inserts_leaf, removed, split_at_leaf, LayoutNode,
    SplitDirection,
};
use crate::editor::pane::PaneContent;
use crate::editor::textfmt::{decimal, with_number};
use crate::editor::uicomponent::UIComponent;
use crate::editor::view::View;
use crate::prelude::Position;
use vstd::prelude::*;
use vstd::view::View as _;

verus! {

/// The bits of `0.5` as an `f32`: an even split.
pub const HALF_RATIO: u32 = 0x3F00_0000;

/// The bits of `0.2` as an `f32`: the share a file explorer takes beside a pane.
pub const EXPLORER_RATIO: u32 = 0x3E4C_CCCD;

/// Whether the active pane of `ctx` is the pane with id `id`.
pub open spec fn is_active_pane(ctx: EditorContext, id: usize) -> bool {
    let panes = ctx.pane_manager.panes();
    let active = ctx.pane_manager.active_id();
    panes.contains_key(active) && panes[active].pane_id == id
}

/// Whether `ctx` holds a floating pane `id`.
pub open spec fn is_floating_pane(ctx: EditorContext, id: usize) -> bool {
    ctx.pane_manager.panes().contains_key(id) && ctx.pane_manager.panes()[id].is_floating
}

/// Whether the layout of `ctx` is the single leaf of pane `id`.
pub open spec fn is_last_pane(ctx: EditorContext, id: usize) -> bool {
    ctx.layout_tree.root_node() matches LayoutNode::Leaf { pane_id, .. } && pane_id == id
}

/// The state after [`close_pane`] of pane `id` on `old`.
pub open spec fn closed_pane<F: Fn(usize, u32) -> usize>(old: EditorContext, new: EditorContext, id: usize, share: F) -> bool {
    &&& new.wf()
    &&& is_floating_pane(old, id) ==> {
                &&& new.pane_manager.panes().dom() =~= old.pane_manager.panes().remove(
                    id,
                ).dom()
                &&& new.layout_tree == old.layout_tree
                &&& new.message_bar.message@ =~= "Floating pane "@ + decimal(id as nat)
                    + " closed"@
            }
    &&& !is_floating_pane(old, id) && !is_last_pane(old, id) ==> {
                &&& new.pane_manager.panes().dom() =~= old.pane_manager.panes().remove(
                    id,
                ).dom()
                &&& new.layout_tree.root_node() == laid_out(
                    removed(old.layout_tree.root_node(), id)->0,
                    editor_area(old.terminal_size),
                    share,
                )
                &&& new.message_bar.message@ =~= "Pane "@ + decimal(id as nat) + " closed"@
            }
    &&& !is_floating_pane(old, id) && is_last_pane(old, id) ==> {
                &&& new.pane_manager == old.pane_manager
                &&& new.layout_tree.root_node() == old.layout_tree.root_node()
                &&& new.message_bar.message@ =~= "Cannot close the last tiled pane!"@
            }
    &&& ((is_floating_pane(old, id) || !is_last_pane(old, id)) && is_active_pane(old, id)
        && new.pane_manager.panes().contains_key(leaf_layouts(new.layout_tree.root_node())[0].0)
        ==> new.pane_manager.active_id() == leaf_layouts(new.layout_tree.root_node())[0].0)
    &&& new.prompt_type == old.prompt_type
    &&& new.buffer_manager == old.buffer_manager
    &&& new.command_bar == old.command_bar
    &&& new.save_request == old.save_request
    &&& new.explorer_request == old.explorer_request
    &&& new.should_quit == old.should_quit
    &&& new.terminal_size == old.terminal_size
}

/// The state after [`toggle_floating`] of pane `id` on `old`.
pub open spec fn floated_pane<F: Fn(usize, u32) -> usize>(old: EditorContext, new: EditorContext, id: usize, share: F) -> bool {
    &&& new.wf()
    &&& is_floating_pane(old, id) ==> new.message_bar.message@
                =~= "Pane is already floating."@ && new.pane_manager == old.pane_manager
                && new.layout_tree == old.layout_tree
    &&& !is_floating_pane(old, id) && is_last_pane(old, id) ==> new.message_bar.message@
                =~= "Cannot float the last tiled pane!"@ && new.pane_manager == old.pane_manager
                && new.layout_tree.root_node() == old.layout_tree.root_node()
    &&& !is_floating_pane(old, id) && !is_last_pane(old, id) ==> {
                &&& new.layout_tree.root_node() == laid_out(
                    removed(old.layout_tree.root_node(), id)->0,
                    editor_area(old.terminal_size),
                    share,
                )
                &&& new.pane_manager.panes().dom() =~= old.pane_manager.panes().dom()
                &&& old.pane_manager.panes().contains_key(id) ==> new.pane_manager.panes()[id].is_floating
                &&& new.message_bar.message@ =~= "Pane "@ + decimal(id as nat)
                    + " is now floating"@
            }
    &&& new.prompt_type == old.prompt_type
    &&& new.buffer_manager == old.buffer_manager
    &&& new.command_bar == old.command_bar
    &&& new.save_request == old.save_request
    &&& new.explorer_request == old.explorer_request
    &&& new.terminal_size == old.terminal_size
}

/// The state after [`unfloat_pane`] of pane `id` on `old`.
pub open spec fn tiled_pane<F: Fn(usize, u32) -> usize>(old: EditorContext, new: EditorContext, id: usize, share: F) -> bool {
    &&& new.wf()
    &&& !is_floating_pane(old, id) ==> new.message_bar.message@
                =~= "Pane is already tiled."@ && new.pane_manager == old.pane_manager
                && new.layout_tree == old.layout_tree
    &&& is_floating_pane(old, id) && old.layout_tree.next_id() < usize::MAX ==> {
                let target = leaf_layouts(old.layout_tree.root_node())[0].0;
                match split_at_leaf(
                    old.layout_tree.root_node(),
                    target,
                    id,
                    SplitDirection::Vertical,
                    HALF_RATIO,
                    old.layout_tree.next_id(),
                ) {
                    Ok(n) => {
                        &&& new.layout_tree.root_node() == laid_out(
                            n,
                            editor_area(old.terminal_size),
                            share,
                        )
                        &&& !new.pane_manager.panes()[id].is_floating
                        &&& !new.pane_manager.panes()[id].is_minimized
                        &&& new.message_bar.message@ =~= "Pane "@ + decimal(id as nat)
                            + " is now tiled"@
                    },
                    Err(_) => {
                        &&& new.layout_tree.root_node() == old.layout_tree.root_node()
                        &&& new.pane_manager.panes() =~= old.pane_manager.panes()
                        &&& new.message_bar.message@
                            =~= "Failed to tile pane (target too small?)"@
                    },
                }
            }
    &&& new.prompt_type == old.prompt_type
    &&& new.buffer_manager == old.buffer_manager
    &&& new.command_bar == old.command_bar
    &&& new.save_request == old.save_request
    &&& new.explorer_request == old.explorer_request
    &&& new.terminal_size == old.terminal_size
}

/// Closes pane `id`: a floating one is dropped; a tiled one leaves the
/// layout, which is laid out anew; the last tiled pane is kept. Closing the
/// active pane gives the focus to the first pane of the layout.
pub fn close_pane<F: Fn(usize, u32) -> usize>(id: usize, ctx: &mut EditorContext, share: &F)
    requires
        old(ctx).wf(),
        good_share(*share),
    ensures
        closed_pane(*old(ctx), *final(ctx), id, *share),
        final(ctx).quit_times == old(ctx).quit_times,
{
    let is_floating = match ctx.pane_manager.get_pane(id) {
        Some(p) => p.is_floating,
        None => false,
    };
    let was_active = match ctx.pane_manager.active_pane() {
        Some(p) => p.pane_id == id,
        None => false,
    };
    if is_floating {
        ctx.pane_manager.remove_pane(id);
        let msg = with_number("Floating pane ", id, " closed");
        ctx.update_message(msg.as_str());
    } else {
        proof {
            lemma_changes_fit(
                ctx.layout_tree.root_node(),
                id,
                0,
                SplitDirection::Vertical,
                0,
                0,
                Position { row: 0, col: 0 },
                |a: usize, b: usize| 0u32,
            );
        }
        if ctx.layout_tree.remove_node(id).is_ok() {
            ctx.pane_manager.remove_pane(id);
            let size = ctx.terminal_size;
            ctx.handle_resize(size, share);
            let msg = with_number("Pane ", id, " closed");
            ctx.update_message(msg.as_str());
        } else {
            ctx.update_message("Cannot close the last tiled pane!");
            return;
        }
    }
    if was_active {
        ctx.assign_active_pane();
    }
}

/// Takes pane `id` out of the layout and lets it float, kept at most 15
/// rows by 40 columns and within reach, above the other floating panes.
pub fn toggle_floating<F: Fn(usize, u32) -> usize>(id: usize, ctx: &mut EditorContext, share: &F)
    requires
        old(ctx).wf(),
        good_share(*share),
    ensures
        floated_pane(*old(ctx), *final(ctx), id, *share),
        final(ctx).quit_times == old(ctx).quit_times,
{
    let is_floating = match ctx.pane_manager.get_pane(id) {
        Some(p) => p.is_floating,
        None => false,
    };
    if is_floating {
        ctx.update_message("Pane is already floating.");
        return;
    }
    let was_active = match ctx.pane_manager.active_pane() {
        Some(p) => p.pane_id == id,
        None => false,
    };
    proof {
        lemma_changes_fit(
            ctx.layout_tree.root_node(),
            id,
            0,
            SplitDirection::Vertical,
            0,
            0,
            Position { row: 0, col: 0 },
            |a: usize, b: usize| 0u32,
        );
    }
    if ctx.layout_tree.remove_node(id).is_err() {
        ctx.update_message("Cannot float the last tiled pane!");
        return;
    }
    let size = ctx.terminal_size;
    let ghost removed_root = ctx.layout_tree.root_node();
    let ghost dom0 = ctx.pane_manager.panes().dom();
    match ctx.pane_manager.get_pane_mut(id) {
        Some(pane) => {
            pane.is_floating = true;
            let mut rect = pane.component_rect();
            if 15 < rect.size.height {
                rect.size.height = 15;
            }
            if 40 < rect.size.width {
                rect.size.width = 40;
            }
            let max_col = size.width.saturating_sub(4);
            let max_row = size.height.saturating_sub(2);
            if max_col < rect.position.col {
                rect.position.col = max_col;
            }
            if max_row < rect.position.row {
                rect.position.row = max_row;
            }
            pane.resize(rect);
        },
        None => {},
    }
    proof {
        assert(ctx.pane_manager.panes().dom() =~= dom0);
        assert(dom0.contains(id) ==> ctx.pane_manager.panes()[id].is_floating);
    }
    if ctx.pane_manager.highest_floating_z() < usize::MAX {
        ctx.pane_manager.bring_to_front(id);
    }
    proof {
        assert(ctx.pane_manager.panes().dom() =~= dom0);
        assert(dom0.contains(id) ==> ctx.pane_manager.panes()[id].is_floating);
    }
    ctx.handle_resize(size, share);
    proof {
        assert(dom0.contains(id) ==> ctx.pane_manager.panes()[id].is_floating);
    }
    if was_active {
        proof {
            if ctx.pane_manager.panes().contains_key(id) {
                crate::editor::panemanager::lemma_focus_moved_fields(
                    ctx.pane_manager.panes(),
                    ctx.pane_manager.active_id(),
                    id,
                );
            }
        }
        ctx.pane_manager.set_active_pane(id);
    }
    let msg = with_number("Pane ", id, " is now floating");
    ctx.update_message(msg.as_str());
}

/// Puts the floating pane `id` back into the layout, splitting the first
/// tiled pane in two side by side.
pub fn unfloat_pane<F: Fn(usize, u32) -> usize>(id: usize, ctx: &mut EditorContext, share: &F)
    requires
        old(ctx).wf(),
        good_share(*share),
    ensures
        tiled_pane(*old(ctx), *final(ctx), id, *share),
        final(ctx).quit_times == old(ctx).quit_times,
{
    let is_floating = match ctx.pane_manager.get_pane(id) {
        Some(p) => p.is_floating,
        None => false,
    };
    if !is_floating {
        ctx.update_message("Pane is already tiled.");
        return;
    }
    proof {
        lemma_leaves_nonempty(ctx.layout_tree.root_node());
    }
    let layouts = ctx.layout_tree.collect_leaf_layouts();
    if layouts.len() == 0 {
        ctx.update_message("No tiled panes found.");
        return;
    }
    let tid = layouts[0].0;
    if !ctx.layout_tree.can_split() {
        return;
    }
    proof {
        lemma_changes_fit(
            ctx.layout_tree.root_node(),
            tid,
            id,
            SplitDirection::Vertical,
            HALF_RATIO,
            ctx.layout_tree.next_id(),
            Position { row: 0, col: 0 },
            |a: usize, b: usize| 0u32,
        );
    }
    if ctx.layout_tree.split_pane(tid, id, SplitDirection::Vertical, HALF_RATIO).is_ok() {
        match ctx.pane_manager.get_pane_mut(id) {
            Some(pane) => {
                pane.is_floating = false;
                pane.is_minimized = false;
            },
            None => {},
        }
        let ghost dom0 = ctx.pane_manager.panes().dom();
        let size = ctx.terminal_size;
        ctx.handle_resize(size, share);
        proof {
            assert(dom0.contains(id));
            assert(!ctx.pane_manager.panes()[id].is_floating);
        }
        let msg = with_number("Pane ", id, " is now tiled");
        ctx.update_message(msg.as_str());
    } else {
        ctx.update_message("Failed to tile pane (target too small?)");
    }
}

/// The content of a pane showing `explorer`.
fn plugin_content(explorer: FileExplorer) -> (c: PaneContent)
    ensures
        c matches PaneContent::Plugin(b) && b.shown_dir() == explorer.dir() && b.shown_rect()
            == explorer.area() && b.selection() == explorer.selected(),
{
    PaneContent::Plugin(Box::new(explorer))
}

/// The state after [`split_active_pane`] on `old`.
pub open spec fn split_done<F: Fn(usize, u32) -> usize>(old: EditorContext, new: EditorContext, direction: SplitDirection, share: F) -> bool {
    &&& new.wf()
    &&& !old.pane_manager.panes().contains_key(old.pane_manager.active_id()) ==> new.pane_manager == old.pane_manager && new.layout_tree == old.layout_tree
    &&& old.pane_manager.panes().contains_key(old.pane_manager.active_id()) && old.buffer_manager.next_id() < usize::MAX && old.pane_manager.next_id() < usize::MAX
        && old.layout_tree.next_id() < usize::MAX ==> {
        let new_id = old.pane_manager.next_id();
        &&& new.buffer_manager.buffers().dom() == old.buffer_manager.buffers().dom().insert(old.buffer_manager.next_id() as usize)
        &&& match split_at_leaf(
            old.layout_tree.root_node(),
            old.pane_manager.panes()[old.pane_manager.active_id()].pane_id,
            new_id,
            direction,
            HALF_RATIO,
            old.layout_tree.next_id(),
        ) {
            Ok(n) => {
                &&& new.layout_tree.root_node() == laid_out(
                    n,
                    editor_area(old.terminal_size),
                    share,
                )
                &&& new.pane_manager.panes().dom() == old.pane_manager.panes().dom().insert(new_id)
                &&& new.pane_manager.active_id() == new_id
                &&& new.pane_manager.panes()[new_id].content is TextView
                &&& new.pane_manager.panes()[new_id].content->TextView_0.buffer_id
                    == old.buffer_manager.next_id()
            },
            Err(_) => {
                &&& new.layout_tree.root_node() == old.layout_tree.root_node()
                &&& new.pane_manager.panes().dom() == old.pane_manager.panes().dom()
                &&& new.message_bar.message@ == "Pane too small to split"@
            },
        }
    }
    &&& new.prompt_type == old.prompt_type
    &&& new.command_bar == old.command_bar
    &&& new.save_request == old.save_request
    &&& new.explorer_request == old.explorer_request
    &&& new.terminal_size == old.terminal_size
}

/// Splits the active pane in `direction`, the new half showing a new empty
/// buffer, and gives it the focus; a pane too small to split stays whole
/// (the new buffer stays open).
pub fn split_active_pane<F: Fn(usize, u32) -> usize>(
    ctx: &mut EditorContext,
    direction: SplitDirection,
    share: &F,
)
    requires
        old(ctx).wf(),
        good_share(*share),
    ensures
        split_done(*old(ctx), *final(ctx), direction, *share),
        final(ctx).quit_times == old(ctx).quit_times,
{
    let active_id = match ctx.pane_manager.active_pane() {
        Some(p) => p.pane_id,
        None => {
            return;
        },
    };
    if !ctx.buffer_manager.can_add() || !ctx.pane_manager.can_create() || !ctx.layout_tree.can_split() {
        return;
    }
    let new_buffer_id = ctx.buffer_manager.add(Buffer::default());
    let mut view = View::default();
    view.set_buffer_id(new_buffer_id);
    let new_pane_id = ctx.pane_manager.create_pane(PaneContent::TextView(view));
    match ctx.pane_manager.get_pane_mut(new_pane_id) {
        Some(pane) => match pane.view_mut() {
            Some(v) => v.set_id(new_pane_id),
            None => {},
        },
        None => {},
    }
    proof {
        lemma_changes_fit(
            ctx.layout_tree.root_node(),
            active_id,
            new_pane_id,
            direction,
            HALF_RATIO,
            ctx.layout_tree.next_id(),
            Position { row: 0, col: 0 },
            |a: usize, b: usize| 0u32,
        );
    }
    if ctx.layout_tree.split_pane(active_id, new_pane_id, direction, HALF_RATIO).is_err() {
        ctx.update_message("Pane too small to split");
        ctx.pane_manager.remove_pane(new_pane_id);
        proof {
            assert(ctx.pane_manager.panes().dom() =~= old(ctx).pane_manager.panes().dom());
        }
        return;
    }
    let ghost dom0 = ctx.pane_manager.panes().dom();
    let size = ctx.terminal_size;
    ctx.handle_resize(size, share);
    proof {
        assert(dom0 =~= old(ctx).pane_manager.panes().dom().insert(new_pane_id));
        assert(ctx.pane_manager.panes().contains_key(new_pane_id));
        crate::editor::panemanager::lemma_focus_moved_fields(
            ctx.pane_manager.panes(),
            ctx.pane_manager.active_id(),
            new_pane_id,
        );
    }
    ctx.pane_manager.set_active_pane(new_pane_id);
}

/// Opens `explorer` in a new pane that splits the active one, a fifth of
/// it side by side, and gives it the focus; when the split fails the new
/// pane is dropped.
pub fn open_file_explorer<F: Fn(usize, u32) -> usize>(
    ctx: &mut EditorContext,
    explorer: FileExplorer,
    share: &F,
)
    requires
        old(ctx).wf(),
        good_share(*share),
    ensures
        final(ctx).wf(),
        !old(ctx).pane_manager.panes().contains_key(old(ctx).pane_manager.active_id()) ==> final(ctx).pane_manager == old(ctx).pane_manager && final(ctx).layout_tree == old(ctx).layout_tree,
        old(ctx).pane_manager.panes().contains_key(old(ctx).pane_manager.active_id()) && old(ctx).pane_manager.next_id() < usize::MAX && old(ctx).layout_tree.next_id() < usize::MAX ==> {
            let new_id = old(ctx).pane_manager.next_id();
            match split_at_leaf(
                old(ctx).layout_tree.root_node(),
                old(ctx).pane_manager.panes()[old(ctx).pane_manager.active_id()].pane_id,
                new_id,
                SplitDirection::Vertical,
                EXPLORER_RATIO,
                old(ctx).layout_tree.next_id(),
            ) {
                Ok(n) => {
                    &&& final(ctx).layout_tree.root_node() == laid_out(
                        n,
                        editor_area(old(ctx).terminal_size),
                        *share,
                    )
                    &&& final(ctx).pane_manager.panes().dom() == old(ctx).pane_manager.panes().dom().insert(new_id)
                    &&& final(ctx).pane_manager.active_id() == new_id
                    &&& !(final(ctx).pane_manager.panes()[new_id].content is TextView)
                },
                Err(_) => {
                    &&& final(ctx).layout_tree.root_node() == old(ctx).layout_tree.root_node()
                    &&& final(ctx).pane_manager.panes() == old(ctx).pane_manager.panes()
                    &&& final(ctx).message_bar.message@ == "Failed to open explorer"@
                },
            }
        },
        final(ctx).prompt_type == old(ctx).prompt_type,
        final(ctx).buffer_manager == old(ctx).buffer_manager,
        final(ctx).command_bar == old(ctx).command_bar,
        final(ctx).save_request == old(ctx).save_request,
        final(ctx).explorer_request == old(ctx).explorer_request,
        final(ctx).terminal_size == old(ctx).terminal_size,
        final(ctx).quit_times == old(ctx).quit_times,
{
    let active_pane_id = match ctx.pane_manager.active_pane() {
        Some(p) => p.pane_id,
        None => {
            return;
        },
    };
    if !ctx.pane_manager.can_create() || !ctx.layout_tree.can_split() {
        return;
    }
    let content = plugin_content(explorer);
    let new_pane_id = ctx.pane_manager.create_pane(content);
    proof {
        lemma_changes_fit(
            ctx.layout_tree.root_node(),
            active_pane_id,
            new_pane_id,
            SplitDirection::Vertical,
            EXPLORER_RATIO,
            ctx.layout_tree.next_id(),
            Position { row: 0, col: 0 },
            |a: usize, b: usize| 0u32,
        );
    }
    if ctx.layout_tree.split_pane(
        active_pane_id,
        new_pane_id,
        SplitDirection::Vertical,
        EXPLORER_RATIO,
    ).is_err() {
        ctx.update_message("Failed to open explorer");
        ctx.pane_manager.remove_pane(new_pane_id);
        proof {
            assert(ctx.pane_manager.panes() =~= old(ctx).pane_manager.panes());
        }
        return;
    }
    let ghost dom0 = ctx.pane_manager.panes().dom();
    let size = ctx.terminal_size;
    ctx.handle_resize(size, share);
    proof {
        assert(dom0 =~= old(ctx).pane_manager.panes().dom().insert(new_pane_id));
        assert(ctx.pane_manager.panes().contains_key(new_pane_id));
        crate::editor::panemanager::lemma_focus_moved_fields(
            ctx.pane_manager.panes(),
            ctx.pane_manager.active_id(),
            new_pane_id,
        );
    }
    ctx.pane_manager.set_active_pane(new_pane_id);
}

/// Floating panes live outside the layout: after a tiled pane that is not
/// the last one is floated, no leaf of the layout holds it, the other leaves
/// keep their order, and the pane is marked floating.
pub proof fn lemma_floating_leaves_the_layout<F: Fn(usize, u32) -> usize>(
    old: EditorContext,
    new: EditorContext,
    id: usize,
    share: F,
)
    requires
        floated_pane(old, new, id, share),
        old.pane_manager.panes().contains_key(id),
        !is_floating_pane(old, id),
        !is_last_pane(old, id),
        leaf_ids(old.layout_tree.root_node()).no_duplicates(),
    ensures
        leaf_ids(new.layout_tree.root_node()) == leaf_ids(old.layout_tree.root_node()).filter(
            |x: usize| x != id,
        ),
        !leaf_ids(new.layout_tree.root_node()).contains(id),
        is_floating_pane(new, id),
{
    let root = old.layout_tree.root_node();
    lemma_remove_whole(root, id);
    lemma_remove_drops_leaf(root, id);
    let rest = removed(root, id)->0;
    lemma_layout_tiles(rest, editor_area(old.terminal_size), share);
    let kept = leaf_ids(root).filter(|x: usize| x != id);
    if kept.contains(id) {
        let i = choose|i: int| 0 <= i < kept.len() && kept[i] == id;
        leaf_ids(root).lemma_filter_pred(|x: usize| x != id, i);
    }
}

/// Tiling a floating pane brings it back into the layout: when the first
/// leaf can be split for it, the pane becomes the leaf just after the one
/// that was split, every other leaf keeps its order, and the pane no longer
/// floats.
pub proof fn lemma_tiling_joins_the_layout<F: Fn(usize, u32) -> usize>(
    old: EditorContext,
    new: EditorContext,
    id: usize,
    share: F,
)
    requires
        tiled_pane(old, new, id, share),
        is_floating_pane(old, id),
        old.layout_tree.next_id() < usize::MAX,
        split_at_leaf(
            old.layout_tree.root_node(),
            leaf_layouts(old.layout_tree.root_node())[0].0,
            id,
            SplitDirection::Vertical,
            HALF_RATIO,
            old.layout_tree.next_id(),
        ) is Ok,
    ensures
        exists|i: int|
            0 <= i < leaf_ids(old.layout_tree.root_node()).len() && #[trigger] leaf_ids(
                old.layout_tree.root_node(),
            )[i] == leaf_layouts(old.layout_tree.root_node())[0].0 && leaf_ids(
                new.layout_tree.root_node(),
            ) == leaf_ids(old.layout_tree.root_node()).insert(i + 1, id),
        leaf_ids(new.layout_tree.root_node()).contains(id),
        !is_floating_pane(new, id),
{
    let root = old.layout_tree.root_node();
    let target = leaf_layouts(root)[0].0;
    let n = split_at_leaf(root, target, id, SplitDirection::Vertical, HALF_RATIO, old.layout_tree.next_id())->Ok_0;
    lemma_split_inserts_leaf(root, target, id, SplitDirection::Vertical, HALF_RATIO, old.layout_tree.next_id());
    lemma_layout_tiles(n, editor_area(old.terminal_size), share);
    let i = choose|i: int|
        0 <= i < leaf_ids(root).len() && leaf_ids(root)[i] == target && leaf_ids(n)
            == leaf_ids(root).insert(i + 1, id);
    assert(leaf_ids(new.layout_tree.root_node())[i + 1] == id);
}

} // verus!
