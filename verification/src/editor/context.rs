//! The editor's state as the command handlers see it: panes, their layout,
//! buffers, the prompt and message bars, and what the handlers ask the
//! caller to do (write a file, open a file explorer).
use crate::editor::buffermanager::BufferManager;
use crate::editor::commandbar::CommandBar;
use crate::editor::layouttree::{
    laid_out, leaf_layouts, lemma_layout_fits, lemma_leaves_nonempty, rect_fits, rects_fit,
    single_valued_share, total_share, LayoutTree,
};
use crate::editor::messagebar::MessageBar;
use crate::editor::pane::{Pane, PaneContent};
use crate::editor::panemanager::{focus_moved, PaneManager};
use crate::editor::uicomponent::UIComponent;
use crate::prelude::{Position, Rect, Size};
use vstd::prelude::*;

verus! {

/// Which prompt, if any, the command bar shows.
#[derive(Clone, Copy, Debug, PartialEq, Eq, Structural)]
pub enum PromptType {
    Search,
    Save,
    NoPrompt,
    FocusPane,
    ClosePane,
}

impl Default for PromptType {
    fn default() -> (r: Self)
        ensures
            r == PromptType::NoPrompt,
    {
        PromptType::NoPrompt
    }
}

impl PromptType {
    /// Whether no prompt is shown.
    pub fn is_none(&self) -> (b: bool)
        ensures
            b == (*self == PromptType::NoPrompt),
    {
        *self == PromptType::NoPrompt
    }
}

/// A buffer the caller is asked to write: to `file_name`, or where it is
/// stored when there is none.
#[derive(Clone, Debug)]
pub struct SaveRequest {
    pub buffer_id: usize,
    pub file_name: Option<String>,
}

/// The state the command handlers work on.
pub struct EditorContext {
    pub prompt_type: PromptType,
    pub pane_manager: PaneManager,
    pub layout_tree: LayoutTree,
    pub buffer_manager: BufferManager,
    pub command_bar: CommandBar,
    pub message_bar: MessageBar,
    pub terminal_size: Size,
    pub should_quit: bool,
    pub quit_times: u8,
    pub dragging_split: Option<usize>,
    pub dragging_pane: Option<usize>,
    pub drag_offset: Position,
    pub buffer_changed: Option<usize>,
    /// A buffer to write, asked for by the last command.
    pub save_request: Option<SaveRequest>,
    /// Whether the last command asked for a file explorer to be opened.
    pub explorer_request: bool,
}

/// The area of the tiled panes on a terminal of `size`: below the buffer
/// bar and above the status and message bars.
pub open spec fn editor_area(size: Size) -> Rect {
    Rect {
        position: Position { row: 1, col: 0 },
        size: Size {
            height: if size.height < 3 {
                0
            } else {
                (size.height - 3) as usize
            },
            width: size.width,
        },
    }
}

/// `share` scales extents by ratios as a function.
pub open spec fn good_share<F: Fn(usize, u32) -> usize>(share: F) -> bool {
    total_share(share) && single_valued_share(share)
}

/// `new` is `old` with the view it shows, if any, marked for drawing.
pub open spec fn redraw_marked(old: Pane, new: Pane) -> bool {
    &&& new.pane_id == old.pane_id
    &&& new.active == old.active
    &&& new.is_floating == old.is_floating
    &&& new.z_index == old.z_index
    &&& new.is_minimized == old.is_minimized
    &&& new.rect == old.rect
    &&& (old.content is TextView <==> new.content is TextView)
    &&& old.content is TextView ==> {
        let v = old.content->TextView_0;
        let w = new.content->TextView_0;
        &&& w.needs_redraw
        &&& w.text_location == v.text_location
        &&& w.scroll_offset == v.scroll_offset
        &&& w.buffer_id == v.buffer_id
        &&& w.rect == v.rect
        &&& w.is_active == v.is_active
    }
}

/// `new` is `old` moved and sized to `rect`, with its view, if any.
pub open spec fn resized_to(old: Pane, new: Pane, rect: Rect) -> bool {
    &&& new.pane_id == old.pane_id
    &&& new.active == old.active
    &&& new.is_floating == old.is_floating
    &&& new.z_index == old.z_index
    &&& new.is_minimized == old.is_minimized
    &&& new.rect == rect
    &&& (old.content is TextView <==> new.content is TextView)
    &&& old.content is TextView ==> {
        let v = old.content->TextView_0;
        let w = new.content->TextView_0;
        &&& w.rect == rect
        &&& w.needs_redraw == v.needs_redraw
        &&& w.text_location == v.text_location
        &&& w.buffer_id == v.buffer_id
        &&& w.is_active == v.is_active
    }
}

/// The area of the last leaf of `id` among `layouts`.
pub open spec fn last_rect(layouts: Seq<(usize, Rect)>, id: usize) -> Option<Rect>
    decreases layouts.len(),
{
    if layouts.len() == 0 {
        None
    } else if layouts.last().0 == id {
        Some(layouts.last().1)
    } else {
        last_rect(layouts.drop_last(), id)
    }
}

/// The fields of `a` other than the panes are those of `b`.
pub open spec fn same_but_panes(a: EditorContext, b: EditorContext) -> bool {
    &&& a.prompt_type == b.prompt_type
    &&& a.layout_tree == b.layout_tree
    &&& a.buffer_manager == b.buffer_manager
    &&& a.command_bar == b.command_bar
    &&& a.message_bar == b.message_bar
    &&& a.terminal_size == b.terminal_size
    &&& a.should_quit == b.should_quit
    &&& a.quit_times == b.quit_times
    &&& a.dragging_split == b.dragging_split
    &&& a.dragging_pane == b.dragging_pane
    &&& a.drag_offset == b.drag_offset
    &&& a.buffer_changed == b.buffer_changed
    &&& a.save_request == b.save_request
    &&& a.explorer_request == b.explorer_request
}

impl EditorContext {
    /// The panes are well formed and every area of the layout is numbered
    /// without overflow.
    pub open spec fn wf(&self) -> bool {
        self.pane_manager.wf() && rects_fit(self.layout_tree.root_node())
    }

    /// Shows `msg` in the message bar.
    pub fn update_message(&mut self, msg: &str)
        ensures
            final(self).message_bar.message@ == msg@,
            final(self).message_bar.needs_redraw,
            final(self).message_bar.rect == old(self).message_bar.rect,
            final(self).pane_manager == old(self).pane_manager,
            final(self).layout_tree == old(self).layout_tree,
            final(self).buffer_manager == old(self).buffer_manager,
            final(self).prompt_type == old(self).prompt_type,
            final(self).command_bar == old(self).command_bar,
            final(self).terminal_size == old(self).terminal_size,
            final(self).save_request == old(self).save_request,
            final(self).explorer_request == old(self).explorer_request,
            final(self).should_quit == old(self).should_quit,
            final(self).quit_times == old(self).quit_times,
    {
        self.message_bar.update_message(msg);
    }

    /// The buffer of the view in the active pane, if it shows one.
    pub fn active_buffer_id(&self) -> (r: Option<usize>)
        requires
            self.pane_manager.wf(),
        ensures
            r == (if self.pane_manager.panes().contains_key(self.pane_manager.active_id())
                && self.pane_manager.panes()[self.pane_manager.active_id()].content is TextView {
                Some(
                    self.pane_manager.panes()[self.pane_manager.active_id()].content->TextView_0.buffer_id,
                )
            } else {
                None::<usize>
            }),
    {
        match self.pane_manager.active_pane() {
            Some(p) => match p.view() {
                Some(v) => Some(v.buffer_id()),
                None => None,
            },
            None => None,
        }
    }

    /// Records that buffer `buffer_id` changed.
    pub fn notify_buffer_changed(&mut self, buffer_id: usize)
        ensures
            final(self).buffer_changed == Some(buffer_id),
            final(self).pane_manager == old(self).pane_manager,
            final(self).layout_tree == old(self).layout_tree,
            final(self).buffer_manager == old(self).buffer_manager,
            final(self).message_bar == old(self).message_bar,
    {
        self.buffer_changed = Some(buffer_id);
    }

    /// Marks the view of every pane for drawing.
    pub fn mark_all_panes_for_redraw(&mut self)
        requires
            old(self).pane_manager.wf(),
        ensures
            final(self).pane_manager.wf(),
            final(self).pane_manager.panes().dom() == old(self).pane_manager.panes().dom(),
            forall|id: usize| #[trigger]
                old(self).pane_manager.panes().contains_key(id) ==> redraw_marked(
                    old(self).pane_manager.panes()[id],
                    final(self).pane_manager.panes()[id],
                ),
            final(self).pane_manager.active_id() == old(self).pane_manager.active_id(),
            final(self).pane_manager.next_id() == old(self).pane_manager.next_id(),
            same_but_panes(*final(self), *old(self)),
    {
        let ids = self.pane_manager.ids();
        let mut k: usize = 0;
        while k < ids.len()
            invariant
                k <= ids@.len(),
                ids@.no_duplicates(),
                forall|id: usize|
                    #[trigger] ids@.contains(id) <==> old(self).pane_manager.panes().contains_key(id),
                self.pane_manager.wf(),
                self.pane_manager.panes().dom() == old(self).pane_manager.panes().dom(),
                forall|id: usize| #[trigger]
                    old(self).pane_manager.panes().contains_key(id) ==> (if ids@.take(
                        k as int,
                    ).contains(id) {
                        redraw_marked(
                            old(self).pane_manager.panes()[id],
                            self.pane_manager.panes()[id],
                        )
                    } else {
                        self.pane_manager.panes()[id] == old(self).pane_manager.panes()[id]
                    }),
                self.pane_manager.active_id() == old(self).pane_manager.active_id(),
                self.pane_manager.next_id() == old(self).pane_manager.next_id(),
                same_but_panes(*self, *old(self)),
            decreases ids@.len() - k,
        {
            let id = ids[k];
            let ghost before = self.pane_manager.panes();
            proof {
                assert(ids@.contains(id));
                if ids@.take(k as int).contains(id) {
                    let j = choose|j: int| 0 <= j < k && #[trigger] ids@.take(k as int)[j] == id;
                    assert(ids@[j] == ids@[k as int]);
                }
            }
            match self.pane_manager.get_pane_mut(id) {
                Some(pane) => {
                    match pane.view_mut() {
                        Some(view) => view.mark_redraw(true),
                        None => {},
                    }
                },
                None => {},
            }
            proof {
                assert(ids@.take(k + 1) =~= ids@.take(k as int).push(id));
                assert forall|q: usize| #[trigger]
                    old(self).pane_manager.panes().contains_key(q) implies (if ids@.take(
                        k + 1,
                    ).contains(q) {
                        redraw_marked(
                            old(self).pane_manager.panes()[q],
                            self.pane_manager.panes()[q],
                        )
                    } else {
                        self.pane_manager.panes()[q] == old(self).pane_manager.panes()[q]
                    }) by {
                    broadcast use vstd::seq_lib::group_seq_properties;

                    if q != id {
                        assert(self.pane_manager.panes()[q] == before[q]);
                    } else {
                        assert(ids@.take(k + 1)[k as int] == q);
                    }
                }
            }
            k = k + 1;
        }
        assert(ids@.take(ids@.len() as int) =~= ids@);
    }

    /// Moves and sizes every pane that has a leaf in the layout to the
    /// area of its (last) leaf.
    pub fn sync_pane_rects(&mut self)
        requires
            old(self).pane_manager.wf(),
        ensures
            final(self).pane_manager.wf(),
            final(self).pane_manager.panes().dom() == old(self).pane_manager.panes().dom(),
            forall|id: usize| #[trigger]
                old(self).pane_manager.panes().contains_key(id) ==> match last_rect(
                    leaf_layouts(old(self).layout_tree.root_node()),
                    id,
                ) {
                    Some(r) => resized_to(
                        old(self).pane_manager.panes()[id],
                        final(self).pane_manager.panes()[id],
                        r,
                    ),
                    None => final(self).pane_manager.panes()[id] == old(self).pane_manager.panes()[id],
                },
            final(self).pane_manager.active_id() == old(self).pane_manager.active_id(),
            final(self).pane_manager.next_id() == old(self).pane_manager.next_id(),
            same_but_panes(*final(self), *old(self)),
    {
        let layouts = self.layout_tree.collect_leaf_layouts();
        let mut k: usize = 0;
        while k < layouts.len()
            invariant
                k <= layouts@.len(),
                layouts@ == leaf_layouts(old(self).layout_tree.root_node()),
                self.pane_manager.wf(),
                self.pane_manager.panes().dom() == old(self).pane_manager.panes().dom(),
                forall|id: usize| #[trigger]
                    old(self).pane_manager.panes().contains_key(id) ==> match last_rect(
                        layouts@.take(k as int),
                        id,
                    ) {
                        Some(r) => resized_to(
                            old(self).pane_manager.panes()[id],
                            self.pane_manager.panes()[id],
                            r,
                        ),
                        None => self.pane_manager.panes()[id] == old(self).pane_manager.panes()[id],
                    },
                self.pane_manager.active_id() == old(self).pane_manager.active_id(),
                self.pane_manager.next_id() == old(self).pane_manager.next_id(),
                same_but_panes(*self, *old(self)),
            decreases layouts@.len() - k,
        {
            let (pane_id, rect) = layouts[k];
            let ghost before = self.pane_manager.panes();
            match self.pane_manager.get_pane_mut(pane_id) {
                Some(pane) => pane.resize(rect),
                None => {},
            }
            proof {
                let t = layouts@.take(k + 1);
                assert(t.drop_last() =~= layouts@.take(k as int));
                assert(t.last() == (pane_id, rect));
            }
            k = k + 1;
        }
        assert(layouts@.take(layouts@.len() as int) =~= layouts@);
    }
}

/// The prompt the command bar shows for `prompt`, if it changes it.
pub open spec fn prompt_for(prompt: PromptType) -> Option<Seq<char>> {
    match prompt {
        PromptType::NoPrompt => None,
        PromptType::Save => Some("Save as: "@),
        PromptType::Search => Some("Search (Esc to cancel, Arrows to navigate): "@),
        PromptType::FocusPane => Some("focus [Pane ID] to focus on that pane"@),
        PromptType::ClosePane => Some("close [Pane ID] to close that pane"@),
    }
}

/// `new` is `old` after a resize of the terminal to `size`: its view, if
/// any, is marked for drawing; a tiled pane takes the area of its leaf
/// (`leaf`, if it has one); a floating pane is kept within reach of the
/// top-left part of the terminal.
pub open spec fn resized_pane(old: Pane, new: Pane, leaf: Option<Rect>, size: Size) -> bool {
    &&& new.pane_id == old.pane_id
    &&& new.active == old.active
    &&& new.is_floating == old.is_floating
    &&& new.z_index == old.z_index
    &&& new.is_minimized == old.is_minimized
    &&& (old.content is TextView <==> new.content is TextView)
    &&& (new.content is TextView ==> new.content->TextView_0.needs_redraw)
    &&& (old.content is TextView ==> new.content->TextView_0.buffer_id
        == old.content->TextView_0.buffer_id)
    &&& (!old.is_floating ==> new.rect == match leaf {
        Some(r) => r,
        None => old.rect,
    })
    &&& (old.is_floating ==> new.rect.position.col <= (if size.width < 4 {
        0
    } else {
        size.width - 4
    }) && new.rect.position.row <= (if size.height < 2 {
        0
    } else {
        size.height - 2
    }))
}

impl EditorContext {
    /// Keeps every floating pane within reach of the top-left part of a
    /// terminal of `size`.
    fn clamp_floating(&mut self, size: Size)
        requires
            old(self).pane_manager.wf(),
        ensures
            final(self).pane_manager.wf(),
            final(self).pane_manager.panes().dom() == old(self).pane_manager.panes().dom(),
            forall|id: usize| #[trigger]
                old(self).pane_manager.panes().contains_key(id) ==> {
                    let p0 = old(self).pane_manager.panes()[id];
                    let p = final(self).pane_manager.panes()[id];
                    &&& p.pane_id == p0.pane_id
                    &&& p.active == p0.active
                    &&& p.is_floating == p0.is_floating
                    &&& p.z_index == p0.z_index
                    &&& p.is_minimized == p0.is_minimized
                    &&& (p0.content is TextView <==> p.content is TextView)
                    &&& (p0.content is TextView ==> p.content->TextView_0.needs_redraw
                        == p0.content->TextView_0.needs_redraw)
                    &&& (p0.content is TextView ==> p.content->TextView_0.buffer_id
                        == p0.content->TextView_0.buffer_id)
                    &&& (!p0.is_floating ==> p == p0)
                    &&& (p0.is_floating ==> p.rect.position.col <= (if size.width < 4 {
                        0
                    } else {
                        size.width - 4
                    }) && p.rect.position.row <= (if size.height < 2 {
                        0
                    } else {
                        size.height - 2
                    }))
                },
            final(self).pane_manager.active_id() == old(self).pane_manager.active_id(),
            final(self).pane_manager.next_id() == old(self).pane_manager.next_id(),
            same_but_panes(*final(self), *old(self)),
    {
        let ids = self.pane_manager.ids();
        let max_col = size.width.saturating_sub(4);
        let max_row = size.height.saturating_sub(2);
        let mut k: usize = 0;
        while k < ids.len()
            invariant
                k <= ids@.len(),
                ids@.no_duplicates(),
                max_col == (if size.width < 4 {
                    0
                } else {
                    size.width - 4
                }),
                max_row == (if size.height < 2 {
                    0
                } else {
                    size.height - 2
                }),
                forall|id: usize|
                    #[trigger] ids@.contains(id) <==> old(self).pane_manager.panes().contains_key(id),
                self.pane_manager.wf(),
                self.pane_manager.panes().dom() == old(self).pane_manager.panes().dom(),
                forall|id: usize| #[trigger]
                    old(self).pane_manager.panes().contains_key(id) ==> {
                        let p0 = old(self).pane_manager.panes()[id];
                        let p = self.pane_manager.panes()[id];
                        if ids@.take(k as int).contains(id) {
                            &&& p.pane_id == p0.pane_id
                            &&& p.active == p0.active
                            &&& p.is_floating == p0.is_floating
                            &&& p.z_index == p0.z_index
                            &&& p.is_minimized == p0.is_minimized
                            &&& (p0.content is TextView <==> p.content is TextView)
                            &&& (p0.content is TextView ==> p.content->TextView_0.needs_redraw
                                == p0.content->TextView_0.needs_redraw)
                            &&& (p0.content is TextView ==> p.content->TextView_0.buffer_id
                                == p0.content->TextView_0.buffer_id)
                            &&& (!p0.is_floating ==> p == p0)
                            &&& (p0.is_floating ==> p.rect.position.col <= max_col
                                && p.rect.position.row <= max_row)
                        } else {
                            p == p0
                        }
                    },
                self.pane_manager.active_id() == old(self).pane_manager.active_id(),
                self.pane_manager.next_id() == old(self).pane_manager.next_id(),
                same_but_panes(*self, *old(self)),
            decreases ids@.len() - k,
        {
            let id = ids[k];
            let ghost before = self.pane_manager.panes();
            proof {
                if ids@.take(k as int).contains(id) {
                    let j = choose|j: int| 0 <= j < k && #[trigger] ids@.take(k as int)[j] == id;
                    assert(ids@[j] == ids@[k as int]);
                }
            }
            match self.pane_manager.get_pane_mut(id) {
                Some(pane) => {
                    if pane.is_floating {
                        let mut rect = pane.component_rect();
                        if max_col < rect.position.col {
                            rect.position.col = max_col;
                        }
                        if max_row < rect.position.row {
                            rect.position.row = max_row;
                        }
                        pane.resize(rect);
                    }
                },
                None => {},
            }
            proof {
                assert(ids@.take(k + 1) =~= ids@.take(k as int).push(id));
                assert forall|q: usize| #[trigger]
                    old(self).pane_manager.panes().contains_key(q) && q != id implies
                    self.pane_manager.panes()[q] == before[q] by {}
                broadcast use vstd::seq_lib::group_seq_properties;

            }
            k = k + 1;
        }
        assert(ids@.take(ids@.len() as int) =~= ids@);
    }

    /// Lays the panes out for a terminal of `size`: the layout fills the
    /// editor area (see [`editor_area`]), tiled panes take the areas of their
    /// leaves, floating panes are kept within reach, and every view is
    /// marked for drawing.
    pub fn handle_resize<F: Fn(usize, u32) -> usize>(&mut self, size: Size, share: &F)
        requires
            old(self).wf(),
            good_share(*share),
        ensures
            final(self).wf(),
            final(self).terminal_size == size,
            final(self).layout_tree.root_node() == laid_out(
                old(self).layout_tree.root_node(),
                editor_area(size),
                *share,
            ),
            final(self).layout_tree.next_id() == old(self).layout_tree.next_id(),
            final(self).pane_manager.panes().dom() == old(self).pane_manager.panes().dom(),
            forall|id: usize| #[trigger]
                old(self).pane_manager.panes().contains_key(id) ==> resized_pane(
                    old(self).pane_manager.panes()[id],
                    final(self).pane_manager.panes()[id],
                    last_rect(leaf_layouts(final(self).layout_tree.root_node()), id),
                    size,
                ),
            final(self).pane_manager.active_id() == old(self).pane_manager.active_id(),
            final(self).pane_manager.next_id() == old(self).pane_manager.next_id(),
            final(self).prompt_type == old(self).prompt_type,
            final(self).buffer_manager == old(self).buffer_manager,
            final(self).command_bar == old(self).command_bar,
            final(self).message_bar == old(self).message_bar,
            final(self).save_request == old(self).save_request,
            final(self).explorer_request == old(self).explorer_request,
            final(self).dragging_split == old(self).dragging_split,
            final(self).dragging_pane == old(self).dragging_pane,
            final(self).should_quit == old(self).should_quit,
            final(self).quit_times == old(self).quit_times,
    {
        self.terminal_size = size;
        let editor_rect = Rect {
            position: Position { row: 1, col: 0 },
            size: Size { height: size.height.saturating_sub(3), width: size.width },
        };
        proof {
            lemma_layout_fits(old(self).layout_tree.root_node(), editor_rect, *share);
        }
        self.layout_tree.compute_layout(editor_rect, share);
        let ghost p0 = self.pane_manager.panes();
        self.sync_pane_rects();
        let ghost p1 = self.pane_manager.panes();
        self.clamp_floating(size);
        let ghost p2 = self.pane_manager.panes();
        self.mark_all_panes_for_redraw();
        proof {
            assert forall|id: usize| #[trigger]
                old(self).pane_manager.panes().contains_key(id) implies resized_pane(
                old(self).pane_manager.panes()[id],
                self.pane_manager.panes()[id],
                last_rect(leaf_layouts(self.layout_tree.root_node()), id),
                size,
            ) by {
                assert(p0.contains_key(id) && p1.contains_key(id) && p2.contains_key(id));
            }
        }
    }

    /// Shows `prompt_type`'s prompt (see [`prompt_for`]) with an empty value;
    /// a search starts in the active view.
    pub fn set_prompt(&mut self, prompt_type: PromptType)
        requires
            old(self).pane_manager.wf(),
        ensures
            final(self).pane_manager.wf(),
            final(self).prompt_type == prompt_type,
            final(self).command_bar.value_text() == Seq::<char>::empty(),
            final(self).command_bar.prompt_text() == match prompt_for(prompt_type) {
                Some(p) => p,
                None => old(self).command_bar.prompt_text(),
            },
            final(self).command_bar.redraw_needed(),
            final(self).command_bar.area() == old(self).command_bar.area(),
            prompt_type != PromptType::Search ==> final(self).pane_manager == old(self).pane_manager,
            prompt_type == PromptType::Search ==> {
                let id = old(self).pane_manager.active_id();
                let panes = old(self).pane_manager.panes();
                &&& final(self).pane_manager.panes().dom() == panes.dom()
                &&& final(self).pane_manager.active_id() == id
                &&& final(self).pane_manager.next_id() == old(self).pane_manager.next_id()
                &&& forall|q: usize| #[trigger]
                    panes.contains_key(q) && q != id ==> final(self).pane_manager.panes()[q]
                        == panes[q]
                &&& panes.contains_key(id) && panes[id].content is TextView ==> {
                    let v = panes[id].content->TextView_0;
                    let p = final(self).pane_manager.panes()[id];
                    &&& p.content is TextView
                    &&& p.content->TextView_0.search_info matches Some(info)
                    &&& info.prev_location == v.text_location
                    &&& info.prev_scroll_offset == v.scroll_offset
                    &&& info.query is None
                    &&& p.content->TextView_0.text_location == v.text_location
                    &&& p.content->TextView_0.buffer_id == v.buffer_id
                }
                &&& panes.contains_key(id) && !(panes[id].content is TextView)
                    ==> final(self).pane_manager.panes()[id] == panes[id]
            },
            final(self).layout_tree == old(self).layout_tree,
            final(self).buffer_manager == old(self).buffer_manager,
            final(self).message_bar == old(self).message_bar,
            final(self).terminal_size == old(self).terminal_size,
            final(self).save_request == old(self).save_request,
            final(self).explorer_request == old(self).explorer_request,
            final(self).should_quit == old(self).should_quit,
            final(self).quit_times == old(self).quit_times,
            final(self).dragging_split == old(self).dragging_split,
            final(self).dragging_pane == old(self).dragging_pane,
    {
        match prompt_type {
            PromptType::NoPrompt => {},
            PromptType::Save => self.command_bar.set_prompt("Save as: "),
            PromptType::Search => {
                match self.pane_manager.active_pane_mut() {
                    Some(pane) => match pane.view_mut() {
                        Some(view) => view.enter_search(),
                        None => {},
                    },
                    None => {},
                }
                self.command_bar.set_prompt("Search (Esc to cancel, Arrows to navigate): ");
            },
            PromptType::FocusPane => self.command_bar.set_prompt(
                "focus [Pane ID] to focus on that pane",
            ),
            PromptType::ClosePane => self.command_bar.set_prompt(
                "close [Pane ID] to close that pane",
            ),
        }
        self.command_bar.clear_value();
        self.prompt_type = prompt_type;
    }
}

/// The panes after giving the focus to `id`, when it exists.
pub open spec fn focus_given(panes: Map<usize, Pane>, active: usize, id: usize) -> Map<usize, Pane> {
    if panes.contains_key(id) {
        focus_moved(panes, active, id)
    } else {
        panes
    }
}

impl EditorContext {
    /// Gives the focus to the pane of the first leaf of the layout.
    pub fn assign_active_pane(&mut self)
        requires
            old(self).pane_manager.wf(),
        ensures
            final(self).pane_manager.wf(),
            final(self).pane_manager.panes() == focus_given(
                old(self).pane_manager.panes(),
                old(self).pane_manager.active_id(),
                leaf_layouts(old(self).layout_tree.root_node())[0].0,
            ),
            final(self).pane_manager.active_id() == (if old(self).pane_manager.panes().contains_key(
                leaf_layouts(old(self).layout_tree.root_node())[0].0,
            ) {
                leaf_layouts(old(self).layout_tree.root_node())[0].0
            } else {
                old(self).pane_manager.active_id()
            }),
            final(self).pane_manager.next_id() == old(self).pane_manager.next_id(),
            final(self).pane_manager.top_z() == old(self).pane_manager.top_z(),
            same_but_panes(*final(self), *old(self)),
    {
        proof {
            lemma_leaves_nonempty(self.layout_tree.root_node());
        }
        let layouts = self.layout_tree.collect_leaf_layouts();
        if layouts.len() > 0 {
            self.pane_manager.set_active_pane(layouts[0].0);
            return;
        }
        let floating = self.pane_manager.get_floating_panes_sorted();
        if floating.len() > 0 {
            let id = floating[0].pane_id;
            self.pane_manager.set_active_pane(id);
        }
    }

    /// Gives the focus to pane `pane_id`, unless the active pane is already
    /// that one: a floating pane is raised above the others, and every view
    /// is marked for drawing.
    pub fn set_active_pane(&mut self, pane_id: usize)
        requires
            old(self).pane_manager.wf(),
        ensures
            final(self).pane_manager.wf(),
            ({
                let panes = old(self).pane_manager.panes();
                let active = old(self).pane_manager.active_id();
                panes.contains_key(active) && panes[active].pane_id == pane_id
            }) ==> final(self).pane_manager == old(self).pane_manager,
            !({
                let panes = old(self).pane_manager.panes();
                let active = old(self).pane_manager.active_id();
                panes.contains_key(active) && panes[active].pane_id == pane_id
            }) ==> {
                let moved = focus_given(
                    old(self).pane_manager.panes(),
                    old(self).pane_manager.active_id(),
                    pane_id,
                );
                let now = final(self).pane_manager.panes();
                &&& now.dom() == moved.dom()
                &&& final(self).pane_manager.active_id() == (if moved.contains_key(pane_id) {
                    pane_id
                } else {
                    old(self).pane_manager.active_id()
                })
                &&& forall|q: usize| #[trigger]
                    moved.contains_key(q) ==> now[q].active == moved[q].active && now[q].pane_id
                        == moved[q].pane_id && now[q].is_floating == moved[q].is_floating
                        && now[q].is_minimized == moved[q].is_minimized && now[q].rect
                        == moved[q].rect && (now[q].content is TextView ==> now[q].content->TextView_0.needs_redraw)
                &&& forall|q: usize| #[trigger]
                    moved.contains_key(q) && q != pane_id ==> now[q].z_index == moved[q].z_index
                &&& (moved.contains_key(pane_id) && moved[pane_id].is_floating && old(self).pane_manager.top_z() < usize::MAX) ==> forall|q: usize| #[trigger]
                    now.contains_key(q) && q != pane_id && now[q].is_floating ==> now[q].z_index
                        < now[pane_id].z_index
            },
            final(self).pane_manager.next_id() == old(self).pane_manager.next_id(),
            same_but_panes(*final(self), *old(self)),
    {
        let already = match self.pane_manager.active_pane() {
            Some(p) => p.pane_id == pane_id,
            None => false,
        };
        if already {
            return;
        }
        let ghost moved = focus_given(
            self.pane_manager.panes(),
            self.pane_manager.active_id(),
            pane_id,
        );
        self.pane_manager.set_active_pane(pane_id);
        assert(self.pane_manager.panes() == moved);
        let raise = self.pane_manager.highest_floating_z() < usize::MAX;
        if raise {
            self.pane_manager.bring_to_front(pane_id);
        }
        let ghost mid = self.pane_manager.panes();
        proof {
            assert(mid.dom() =~= moved.dom());
            assert forall|q: usize| #[trigger]
                moved.contains_key(q) implies mid[q].active == moved[q].active && mid[q].pane_id
                == moved[q].pane_id && mid[q].is_floating == moved[q].is_floating
                && mid[q].is_minimized == moved[q].is_minimized && mid[q].rect == moved[q].rect
                && mid[q].content == moved[q].content && (q != pane_id ==> mid[q].z_index
                == moved[q].z_index) by {}
        }
        self.mark_all_panes_for_redraw();
        proof {
            let now = self.pane_manager.panes();
            assert forall|q: usize| #[trigger]
                mid.contains_key(q) implies redraw_marked(mid[q], now[q]) by {}
            assert(now.dom() =~= moved.dom());
            if moved.contains_key(pane_id) && moved[pane_id].is_floating && old(self).pane_manager.top_z() < usize::MAX {
                assert(raise);
                assert forall|q: usize| #[trigger]
                    now.contains_key(q) && q != pane_id && now[q].is_floating implies now[q].z_index
                    < now[pane_id].z_index by {
                    assert(redraw_marked(mid[q], now[q]));
                    assert(redraw_marked(mid[pane_id], now[pane_id]));
                    assert(mid[q].z_index < mid[pane_id].z_index);
                }
            }
        }
    }
}

} // verus!
