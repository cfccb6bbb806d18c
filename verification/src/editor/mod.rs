pub mod annotatedstring;
pub mod annotation;
pub mod buffer;
pub mod border;
pub mod bufferbar;
pub mod buffermanager;
pub mod cmdline;
pub mod command;
pub mod commandbar;
pub mod context;
pub mod documentstatus;
pub mod events;
pub mod fileexplorer;
pub mod fileinfo;
pub mod handlers;
pub mod highlight;
pub mod layouttree;
pub mod line;
pub mod messagebar;
pub mod pane;
pub mod panemanager;
pub mod paneops;
pub mod plugins;
pub mod statusbar;
pub mod stdtext;
pub mod textfmt;
pub mod uicomponent;
pub mod utf8text;
pub mod view;

use crate::editor::buffer::Buffer;
use crate::editor::buffermanager::BufferManager;
use crate::editor::bufferbar::BufferBar;
use crate::editor::commandbar::CommandBar;
use crate::editor::command::{Command, Move, System};
use crate::editor::context::{
    editor_area, good_share, last_rect, resized_pane, EditorContext, PromptType,
};
use crate::editor::documentstatus::DocumentStatus;
use crate::editor::events::{command_from_event, key_command, mouse_command, EditorEvent};
use crate::editor::fileinfo::FileType;
use crate::editor::handlers::{
    first_acting, good_ratio, handled_by, HandlerKind, HandlerRegistry, QUIT_TIMES,
};
use crate::editor::layouttree::{laid_out, leaf_layouts, removed, LayoutTree};
use crate::editor::messagebar::MessageBar;
use crate::editor::pane::{ClickAction, Pane, PaneContent};
use crate::editor::panemanager::{sorted_by_z, PaneManager};
use crate::editor::plugins::{BufferSnapshot, PluginResponse};
use crate::editor::statusbar::StatusBar;
use crate::editor::textfmt::concat2;
use crate::editor::uicomponent::UIComponent;
use crate::editor::view::View;
use crate::prelude::{Position, Rect, Size, NAME};
use vstd::prelude::*;
use vstd::string::StringExecFns;
use vstd::view::View as _;

verus! {

/// The help shown when the editor starts.
pub const HELP_MESSAGE: &'static str =
    "HELP: Ctrl-F = find | Ctrl-S = save | Ctrl-Q = quit | Ctrl-E = explorer";

/// What the caller is to do after a plugin's response was applied.
pub enum PluginFollowUp {
    /// Nothing more.
    Nothing,
    /// Tell the named plugin that the pane it asked for was opened as pane
    /// `pane_id`.
    PaneOpened { plugin_name: String, pane_id: usize },
    /// Send this snapshot to the plugins.
    SendSnapshot(BufferSnapshot),
    /// The selection in pane `pane_id` leads to `path`: list it there when
    /// it is a directory (see `PluginComponent::enter_directory`); else close
    /// the pane (see [`Editor::close_plugin_pane`]) and open the file (see
    /// [`Editor::open_loaded_buffer`]).
    Selected { pane_id: usize, path: String },
}

/// The editor: its state, the status bar, the title shown, the handlers of
/// commands, and the events plugins raised for the next cycle.
pub struct Editor {
    pub ctx: EditorContext,
    pub buffer_bar: BufferBar,
    pub status_bar: StatusBar,
    pub title: String,
    pub command_handler: HandlerRegistry,
    pub pending_events: Vec<EditorEvent>,
}

/// The command `event` stands for, if any (see `command_from_event`).
pub open spec fn event_command(event: EditorEvent) -> Option<Command> {
    match event {
        EditorEvent::Key(key) => key_command(key),
        EditorEvent::Mouse(mouse) => mouse_command(mouse),
        EditorEvent::Resize(size) => Some(Command::System(System::Resize(size))),
        _ => None,
    }
}

/// `new` is `old` after `command` was handled by the first of `kinds` that
/// acts on it (see `HandlerRegistry::dispatch`), after a resize, for a
/// resize command, laid the layout out for the new size (`pre`); `mid` is
/// the state the handler left, and the change to a buffer it recorded is
/// taken.
pub open spec fn event_handled<F: Fn(usize, u32) -> usize, G: Fn(usize, usize) -> u32>(
    old: EditorContext,
    pre: EditorContext,
    mid: EditorContext,
    new: EditorContext,
    kinds: Seq<HandlerKind>,
    command: Command,
    share: F,
    ratio_at: G,
) -> bool {
    let i = first_acting(kinds, pre.prompt_type, command);
    &&& command matches Command::System(System::Resize(size)) ==> {
        &&& pre.terminal_size == size
        &&& pre.layout_tree.root_node() == laid_out(
            old.layout_tree.root_node(),
            editor_area(size),
            share,
        )
        &&& pre.pane_manager.panes().dom() == old.pane_manager.panes().dom()
        &&& pre.prompt_type == old.prompt_type
        &&& pre.buffer_manager == old.buffer_manager
    }
    &&& !(command matches Command::System(System::Resize(_))) ==> pre == old
    &&& i < kinds.len() ==> handled_by(kinds[i], pre, mid, command, share, ratio_at)
    &&& i == kinds.len() ==> mid == pre
    &&& new == (EditorContext { buffer_changed: None, ..mid })
}

/// The status shown while the active pane shows a plugin's component.
pub open spec fn plugin_status(s: DocumentStatus) -> bool {
    &&& s.file_name@ == "Plugin"@
    &&& s.total_lines == 0
    &&& s.current_line_idx == 0
    &&& !s.is_modified
    &&& s.file_type == FileType::Text
}

/// The area of the bar at row `row` of a terminal `width` wide.
pub open spec fn bar_rect(row: int, width: usize) -> Rect {
    Rect {
        position: Position { row: if row < 0 {
            0
        } else {
            row as usize
        }, col: 0 },
        size: Size { height: 1, width },
    }
}

/// The panes and layout after pane `pane_id` of `old` was closed for a
/// plugin: a floating pane is dropped and the layout kept; a tiled pane
/// leaves the layout, which is laid out anew, unless it is the last one,
/// which stays.
pub open spec fn plugin_pane_closed<F: Fn(usize, u32) -> usize>(
    old: EditorContext,
    new: EditorContext,
    pane_id: usize,
    share: F,
) -> bool {
    let panes = old.pane_manager.panes();
    let floating = panes.contains_key(pane_id) && panes[pane_id].is_floating;
    let root = old.layout_tree.root_node();
    &&& floating ==> new.pane_manager.panes().dom() == panes.remove(pane_id).dom()
        && new.layout_tree == old.layout_tree
    &&& !floating && removed(root, pane_id) is Some ==> {
        &&& new.pane_manager.panes().dom() == panes.remove(pane_id).dom()
        &&& new.layout_tree.root_node() == laid_out(
            removed(root, pane_id)->0,
            editor_area(old.terminal_size),
            share,
        )
    }
    &&& !floating && removed(root, pane_id) is None ==> new.pane_manager.panes().dom()
        == panes.dom() && new.layout_tree.root_node() == root
}

/// The window title for the status `s`: the document's name, then the
/// editor's name.
pub open spec fn window_title(s: DocumentStatus) -> Seq<char> {
    s.file_name@ + " - "@ + NAME@
}

/// Pane manager `new` is `old` with a floating pane `id` added at z-index
/// 10 in `rect`, showing `content` (a component moved to `rect`), without
/// the focus and not minimized; every other pane is unchanged.
pub open spec fn floating_opened(
    old: PaneManager,
    new: PaneManager,
    id: usize,
    rect: Rect,
    content: PaneContent,
) -> bool {
    let p = new.panes()[id];
    &&& new.panes().dom() == old.panes().dom().insert(id)
    &&& !old.panes().contains_key(id)
    &&& p.pane_id == id
    &&& p.is_floating
    &&& p.z_index == 10
    &&& p.rect == rect
    &&& !p.active
    &&& !p.is_minimized
    &&& (content is TextView ==> p.content is TextView)
    &&& (content matches PaneContent::Plugin(c) ==> (p.content matches PaneContent::Plugin(d)
        && d.shown_rect() == rect && d.selection() == c.selection()))
    &&& (content matches PaneContent::Popup(c) ==> (p.content matches PaneContent::Popup(d)
        && d.shown_rect() == rect && d.selection() == c.selection()))
    &&& forall|q: usize| #[trigger] old.panes().contains_key(q) ==> new.panes()[q] == old.panes()[q]
    &&& new.active_id() == old.active_id()
    &&& new.next_id() == old.next_id() + 1
}

/// Where Enter on the component of pane `p` leads; nowhere for a view.
pub open spec fn pane_select_target(p: Pane) -> Option<Seq<char>> {
    match p.content {
        PaneContent::Plugin(c) => c.select_target(),
        PaneContent::Popup(c) => c.select_target(),
        PaneContent::TextView(_) => None,
    }
}

/// What a click at `pos` on the component of pane `p` resolves to; an
/// ordinary click on a view.
pub open spec fn pane_click_result(p: Pane, pos: Position) -> ClickAction {
    match p.content {
        PaneContent::Plugin(c) => c.click_result(pos),
        PaneContent::Popup(c) => c.click_result(pos),
        PaneContent::TextView(_) => ClickAction::Content,
    }
}

/// Pane `new` is pane `old` whose component moved its selection in
/// `direction`; a view is unchanged.
pub open spec fn component_moved(old: Pane, new: Pane, direction: Move) -> bool {
    match old.content {
        PaneContent::Plugin(c) => new.content matches PaneContent::Plugin(d) && d.selection()
            == c.selection_after(direction),
        PaneContent::Popup(c) => new.content matches PaneContent::Popup(d) && d.selection()
            == c.selection_after(direction),
        PaneContent::TextView(_) => new.content == old.content,
    }
}

/// Pane `new` is pane `old` whose component took a click at `pos`; a view
/// is unchanged.
pub open spec fn component_clicked(old: Pane, new: Pane, pos: Position) -> bool {
    match old.content {
        PaneContent::Plugin(c) => new.content matches PaneContent::Plugin(d) && d.selection()
            == c.selection_after_click(pos),
        PaneContent::Popup(c) => new.content matches PaneContent::Popup(d) && d.selection()
            == c.selection_after_click(pos),
        PaneContent::TextView(_) => new.content == old.content,
    }
}

/// `panes` with pane `id`, if it is there, minimized or restored.
pub open spec fn with_minimize_toggled(panes: Map<usize, Pane>, id: usize) -> Map<usize, Pane> {
    if panes.contains_key(id) {
        panes.insert(id, Pane { is_minimized: !panes[id].is_minimized, ..panes[id] })
    } else {
        panes
    }
}

impl Editor {
    /// Whether the editor's state is well formed and can take commands.
    pub open spec fn wf(&self) -> bool {
        self.ctx.wf() && self.ctx.quit_times < QUIT_TIMES
    }

    /// An editor on a terminal of `terminal_size`: one empty buffer in one
    /// pane that fills the editor area and has the focus, laid out, with the
    /// help message shown.
    pub fn new<F: Fn(usize, u32) -> usize>(terminal_size: Size, share: &F) -> (r: Self)
        requires
            good_share(*share),
        ensures
            r.wf(),
            r.ctx.buffer_manager.buffers().dom() == Set::<usize>::empty().insert(0),
            r.ctx.buffer_manager.buffers()[0].text() == Seq::<Seq<char>>::empty(),
            r.ctx.pane_manager.panes().dom() == Set::<usize>::empty().insert(0),
            r.ctx.pane_manager.active_id() == 0,
            r.ctx.pane_manager.panes()[0].content is TextView,
            r.ctx.pane_manager.panes()[0].content->TextView_0.buffer_id == 0,
            r.ctx.layout_tree.root_node() == laid_out(
                crate::editor::layouttree::LayoutNode::Leaf {
                    pane_id: 0,
                    rect: editor_area(terminal_size),
                },
                editor_area(terminal_size),
                *share,
            ),
            r.ctx.terminal_size == terminal_size,
            r.ctx.prompt_type == PromptType::NoPrompt,
            r.ctx.message_bar.message@ == HELP_MESSAGE@,
            !r.ctx.should_quit,
            r.ctx.quit_times == 0,
            r.ctx.save_request is None,
            !r.ctx.explorer_request,
    {
        let root_rect = Rect {
            position: Position { row: 1, col: 0 },
            size: Size {
                height: terminal_size.height.saturating_sub(3),
                width: terminal_size.width,
            },
        };
        let mut buffer_manager = BufferManager::new();
        let initial_buffer_id = buffer_manager.add(Buffer::default());
        let initial_pane_id: usize = 0;
        let mut initial_view = View::default();
        initial_view.set_id(initial_pane_id);
        initial_view.set_buffer_id(initial_buffer_id);
        let initial_pane = Pane {
            pane_id: initial_pane_id,
            content: PaneContent::TextView(initial_view),
            active: true,
            is_floating: false,
            z_index: 0,
            is_minimized: false,
            rect: root_rect,
        };
        let pane_manager = PaneManager::new(initial_pane);
        let layout_tree = LayoutTree::new(0, root_rect);
        let ctx = EditorContext {
            prompt_type: PromptType::NoPrompt,
            pane_manager,
            layout_tree,
            buffer_manager,
            command_bar: CommandBar::default(),
            message_bar: MessageBar::default(),
            terminal_size,
            should_quit: false,
            quit_times: 0,
            dragging_split: None,
            dragging_pane: None,
            drag_offset: Position { row: 0, col: 0 },
            buffer_changed: None,
            save_request: None,
            explorer_request: false,
        };
        let mut editor = Editor {
            ctx,
            buffer_bar: BufferBar::default(),
            status_bar: StatusBar::default(),
            title: String::new(),
            command_handler: HandlerRegistry::default(),
            pending_events: Vec::new(),
        };
        let ghost panes0 = editor.ctx.pane_manager.panes();
        editor.handle_resize_command(terminal_size, share);
        assert(panes0.contains_key(0));
        editor.ctx.update_message(HELP_MESSAGE);
        editor
    }

    /// Lays everything out for a terminal of `size` (see
    /// `EditorContext::handle_resize`): the status bar takes the row above
    /// the last, the message and command bars the last.
    pub fn handle_resize_command<F: Fn(usize, u32) -> usize>(&mut self, size: Size, share: &F)
        requires
            old(self).wf(),
            good_share(*share),
        ensures
            final(self).wf(),
            final(self).ctx.terminal_size == size,
            final(self).ctx.layout_tree.root_node() == laid_out(
                old(self).ctx.layout_tree.root_node(),
                editor_area(size),
                *share,
            ),
            final(self).ctx.pane_manager.panes().dom() == old(self).ctx.pane_manager.panes().dom(),
            forall|id: usize| #[trigger]
                old(self).ctx.pane_manager.panes().contains_key(id) ==> resized_pane(
                    old(self).ctx.pane_manager.panes()[id],
                    final(self).ctx.pane_manager.panes()[id],
                    last_rect(leaf_layouts(final(self).ctx.layout_tree.root_node()), id),
                    size,
                ),
            final(self).ctx.pane_manager.active_id() == old(self).ctx.pane_manager.active_id(),
            final(self).ctx.buffer_manager == old(self).ctx.buffer_manager,
            final(self).buffer_bar.rect == bar_rect(0, size.width),
            final(self).status_bar.rect == bar_rect(size.height - 2, size.width),
            final(self).ctx.message_bar.rect == bar_rect(size.height - 1, size.width),
            final(self).ctx.command_bar.area() == bar_rect(size.height - 1, size.width),
            final(self).ctx.message_bar.message@ == old(self).ctx.message_bar.message@,
            final(self).ctx.prompt_type == old(self).ctx.prompt_type,
            final(self).ctx.should_quit == old(self).ctx.should_quit,
            final(self).ctx.quit_times == old(self).ctx.quit_times,
            final(self).ctx.save_request == old(self).ctx.save_request,
            final(self).ctx.explorer_request == old(self).ctx.explorer_request,
            final(self).pending_events@ == old(self).pending_events@,
            final(self).command_handler.kinds() == old(self).command_handler.kinds(),
    {
        self.ctx.handle_resize(size, share);
        self.buffer_bar.set_size(
            Rect {
                position: Position { row: 0, col: 0 },
                size: Size { height: 1, width: size.width },
            },
        );
        self.status_bar.set_size(
            Rect {
                position: Position { row: size.height.saturating_sub(2), col: 0 },
                size: Size { height: 1, width: size.width },
            },
        );
        let bottom_rect = Rect {
            position: Position { row: size.height.saturating_sub(1), col: 0 },
            size: Size { height: 1, width: size.width },
        };
        self.ctx.message_bar.set_size(bottom_rect);
        self.ctx.command_bar.set_size(bottom_rect);
    }
}

impl Editor {
    /// Whether a prompt is shown.
    pub fn in_prompt(&self) -> (b: bool)
        ensures
            b == (self.ctx.prompt_type != PromptType::NoPrompt),
    {
        !self.ctx.prompt_type.is_none()
    }

    /// Shows `new_message` in the message bar.
    pub fn update_message(&mut self, new_message: &str)
        requires
            old(self).wf(),
        ensures
            final(self).wf(),
            final(self).ctx.message_bar.message@ == new_message@,
            final(self).ctx.pane_manager == old(self).ctx.pane_manager,
            final(self).ctx.buffer_manager == old(self).ctx.buffer_manager,
            final(self).ctx.layout_tree == old(self).ctx.layout_tree,
    {
        self.ctx.update_message(new_message);
    }

    /// Brings the status bar up to date with the active pane (see
    /// `View::get_status`; a pane showing a plugin's component has the
    /// status of [`plugin_status`]) and returns the window title to show,
    /// when it differs from the one shown (see [`Editor::title`]).
    pub fn refresh_status(&mut self) -> (r: Option<String>)
        requires
            old(self).ctx.pane_manager.wf(),
        ensures
            final(self).ctx == old(self).ctx,
            final(self).title == old(self).title,
            ({
                let s = final(self).status_bar.current_status;
                match crate::editor::handlers::active_buffer(old(self).ctx) {
                    Some(b) => {
                        let v = crate::editor::handlers::active_view(old(self).ctx)->0;
                        &&& s.file_name@ == crate::editor::fileinfo::display_name_of(b.info().path())
                        &&& s.total_lines == b.text().len()
                        &&& s.current_line_idx == v.text_location.line_idx
                        &&& s.is_modified == b.dirty()
                        &&& s.file_type == b.info().file_type()
                    },
                    None => plugin_status(s),
                }
            }),
            final(self).status_bar.current_status.same_as(&old(self).status_bar.current_status)
                ==> final(self).status_bar.current_status == old(self).status_bar.current_status,
            r is Some <==> window_title(final(self).status_bar.current_status) != old(self).title@,
            r matches Some(t) ==> t@ == window_title(final(self).status_bar.current_status),
    {
        let status = match self.ctx.active_buffer_id() {
            Some(id) => match self.ctx.buffer_manager.get(id) {
                Some(buffer) => match self.ctx.pane_manager.active_pane() {
                    Some(pane) => match pane.view() {
                        Some(view) => view.get_status(buffer),
                        None => DocumentStatus::default(),
                    },
                    None => DocumentStatus::default(),
                },
                None => Self::plugin_status_now(),
            },
            None => Self::plugin_status_now(),
        };
        let title = concat2(concat2(status.file_name.as_str(), " - ").as_str(), NAME);
        self.status_bar.update_status(status);
        if title == self.title {
            None
        } else {
            Some(title)
        }
    }

    /// The status shown for a plugin's pane (see [`plugin_status`]).
    fn plugin_status_now() -> (s: DocumentStatus)
        ensures
            plugin_status(s),
    {
        DocumentStatus {
            file_name: String::from_str("Plugin"),
            total_lines: 0,
            current_line_idx: 0,
            is_modified: false,
            file_type: FileType::Text,
        }
    }

    /// A snapshot of buffer `buffer_id`, if there is one.
    pub fn make_buffer_snapshot(&self, buffer_id: usize) -> (r: Option<BufferSnapshot>)
        ensures
            r is Some <==> self.ctx.buffer_manager.buffers().contains_key(buffer_id),
            r matches Some(snap) ==> {
                let b = self.ctx.buffer_manager.buffers()[buffer_id];
                &&& snap.buffer_id == buffer_id
                &&& snap.lines@.len() == b.text().len()
                &&& forall|i: int| 0 <= i < snap.lines@.len() ==> snap.lines@[i]@ == b.text()[i]
                &&& (snap.file_name is Some <==> b.info().path() is Some)
                &&& snap.file_name is Some ==> snap.file_name->0@ == b.info().path()->0
                &&& snap.is_dirty == b.dirty()
            },
    {
        match self.ctx.buffer_manager.get(buffer_id) {
            Some(buffer) => {
                let file_name = match buffer.get_file_info().get_path() {
                    Some(p) => Some(p.clone()),
                    None => None,
                };
                Some(
                    BufferSnapshot {
                        buffer_id,
                        lines: buffer.lines_as_strings(),
                        file_name,
                        is_dirty: buffer.is_dirty(),
                    },
                )
            },
            None => None,
        }
    }

    /// Handles `event` as the command it stands for (see
    /// `command_from_event`): a resize also lays the bars out; the command is
    /// dispatched to the handlers (see `HandlerRegistry::dispatch`). Returns a
    /// snapshot of the buffer the command changed, if one did.
    pub fn handle_event<F: Fn(usize, u32) -> usize, G: Fn(usize, usize) -> u32>(
        &mut self,
        event: EditorEvent,
        share: &F,
        ratio_at: &G,
    ) -> (r: Option<BufferSnapshot>)
        requires
            old(self).wf(),
            good_share(*share),
            good_ratio(*ratio_at),
        ensures
            final(self).wf(),
            final(self).ctx.buffer_changed is None,
            final(self).command_handler.kinds() == old(self).command_handler.kinds(),
            final(self).pending_events@ == old(self).pending_events@,
            event_command(event) is None ==> final(self).ctx == (EditorContext {
                buffer_changed: None,
                ..old(self).ctx
            }),
            event_command(event) is Some ==> exists|pre: EditorContext, mid: EditorContext|
                #[trigger] event_handled(
                    old(self).ctx,
                    pre,
                    mid,
                    final(self).ctx,
                    old(self).command_handler.kinds(),
                    event_command(event)->0,
                    *share,
                    *ratio_at,
                ),
    {
        match command_from_event(&event) {
            Ok(command) => {
                match command {
                    Command::System(System::Resize(size)) => self.handle_resize_command(size, share),
                    _ => {},
                }
                assert(event_command(event) == Some(command));
                let ghost pre = self.ctx;
                let _ = self.command_handler.dispatch(&command, &mut self.ctx, share, ratio_at);
                let ghost mid = self.ctx;
                let changed = self.ctx.buffer_changed;
                self.ctx.buffer_changed = None;
                assert(event_handled(
                    old(self).ctx,
                    pre,
                    mid,
                    self.ctx,
                    old(self).command_handler.kinds(),
                    command,
                    *share,
                    *ratio_at,
                ));
                assert(event_command(event)->0 == command);
                assert(exists|p: EditorContext, m: EditorContext|
                    #[trigger] event_handled(
                        old(self).ctx,
                        p,
                        m,
                        self.ctx,
                        old(self).command_handler.kinds(),
                        event_command(event)->0,
                        *share,
                        *ratio_at,
                    ));
                match changed {
                    Some(id) => self.make_buffer_snapshot(id),
                    None => None,
                }
            },
            Err(_) => {
                self.ctx.buffer_changed = None;
                None
            },
        }
    }

    /// Closes pane `pane_id` for a plugin: a floating pane is dropped, a
    /// tiled one leaves the layout, which is laid out anew (the last tiled
    /// pane stays); when it had the focus, the pane of the first leaf gets it.
    pub fn close_plugin_pane<F: Fn(usize, u32) -> usize>(&mut self, pane_id: usize, share: &F)
        requires
            old(self).wf(),
            good_share(*share),
        ensures
            final(self).wf(),
            plugin_pane_closed(old(self).ctx, final(self).ctx, pane_id, *share),
            final(self).ctx.buffer_manager == old(self).ctx.buffer_manager,
            final(self).ctx.prompt_type == old(self).ctx.prompt_type,
            final(self).ctx.quit_times == old(self).ctx.quit_times,
            final(self).pending_events@ == old(self).pending_events@,
    {
        let is_floating = match self.ctx.pane_manager.get_pane(pane_id) {
            Some(p) => p.is_floating,
            None => false,
        };
        let was_active = match self.ctx.pane_manager.active_pane() {
            Some(p) => p.pane_id == pane_id,
            None => false,
        };
        if is_floating {
            self.ctx.pane_manager.remove_pane(pane_id);
        } else {
            proof {
                crate::editor::layouttree::lemma_changes_fit(
                    self.ctx.layout_tree.root_node(),
                    pane_id,
                    0,
                    crate::editor::layouttree::SplitDirection::Vertical,
                    0,
                    0,
                    Position { row: 0, col: 0 },
                    |a: usize, b: usize| 0u32,
                );
            }
            if self.ctx.layout_tree.remove_node(pane_id).is_ok() {
                self.ctx.pane_manager.remove_pane(pane_id);
                let size = self.ctx.terminal_size;
                let ghost dom0 = self.ctx.pane_manager.panes().dom();
                self.handle_resize_command(size, share);
                assert(self.ctx.pane_manager.panes().dom() =~= dom0);
            }
        }
        if was_active {
            let layouts = self.ctx.layout_tree.collect_leaf_layouts();
            if layouts.len() > 0 {
                let ghost dom1 = self.ctx.pane_manager.panes().dom();
                proof {
                    if self.ctx.pane_manager.panes().contains_key(layouts@[0].0) {
                        crate::editor::panemanager::lemma_focus_moved_fields(
                            self.ctx.pane_manager.panes(),
                            self.ctx.pane_manager.active_id(),
                            layouts@[0].0,
                        );
                    }
                }
                self.ctx.pane_manager.set_active_pane(layouts[0].0);
                assert(self.ctx.pane_manager.panes().dom() =~= dom1);
            }
        }
        proof {
            assert(self.ctx.pane_manager.panes().dom() =~= self.ctx.pane_manager.panes().dom());
        }
    }

    /// Opens a floating pane showing `content` at `rect` (stacked at z-index
    /// ten) and returns its id; none when no id is left.
    pub fn open_floating_pane(&mut self, content: PaneContent, rect: Rect) -> (r: Option<usize>)
        requires
            old(self).wf(),
        ensures
            final(self).wf(),
            old(self).ctx.pane_manager.next_id() < usize::MAX ==> r == Some(
                old(self).ctx.pane_manager.next_id(),
            ) && floating_opened(
                old(self).ctx.pane_manager,
                final(self).ctx.pane_manager,
                r->0,
                rect,
                content,
            ),
            old(self).ctx.pane_manager.next_id() == usize::MAX ==> r is None
                && final(self).ctx.pane_manager == old(self).ctx.pane_manager,
            final(self).ctx.layout_tree == old(self).ctx.layout_tree,
            final(self).ctx.buffer_manager == old(self).ctx.buffer_manager,
            final(self).ctx.quit_times == old(self).ctx.quit_times,
            final(self).pending_events@ == old(self).pending_events@,
    {
        if !self.ctx.pane_manager.can_create() {
            return None;
        }
        let pane_id = self.ctx.pane_manager.create_floating_pane(content, 10);
        let ghost dom0 = self.ctx.pane_manager.panes().dom();
        match self.ctx.pane_manager.get_pane_mut(pane_id) {
            Some(pane) => pane.resize(rect),
            None => {},
        }
        assert(self.ctx.pane_manager.panes().dom() =~= dom0);
        Some(pane_id)
    }

    /// Shows `buffer`, just loaded from a file, in the active view under a
    /// new buffer id; nothing happens when no id is left.
    pub fn open_loaded_buffer(&mut self, buffer: Buffer)
        requires
            old(self).wf(),
        ensures
            final(self).wf(),
            old(self).ctx.buffer_manager.next_id() < usize::MAX ==> {
                let id = old(self).ctx.buffer_manager.next_id() as usize;
                &&& final(self).ctx.buffer_manager.buffers() == old(self).ctx.buffer_manager.buffers().insert(id, buffer)
                &&& crate::editor::handlers::active_view(old(self).ctx) is Some
                    ==> crate::editor::handlers::active_view(final(self).ctx) is Some
                    && crate::editor::handlers::active_view(final(self).ctx)->0.buffer_id == id
            },
            final(self).ctx.pane_manager.panes().dom() == old(self).ctx.pane_manager.panes().dom(),
            final(self).ctx.layout_tree == old(self).ctx.layout_tree,
            final(self).ctx.quit_times == old(self).ctx.quit_times,
            final(self).pending_events@ == old(self).pending_events@,
    {
        if !self.ctx.buffer_manager.can_add() {
            return;
        }
        let buffer_id = self.ctx.buffer_manager.add(buffer);
        let ghost dom0 = self.ctx.pane_manager.panes().dom();
        match self.ctx.pane_manager.active_pane_mut() {
            Some(pane) => match pane.view_mut() {
                Some(view) => view.set_buffer_id(buffer_id),
                None => {},
            },
            None => {},
        }
        assert(self.ctx.pane_manager.panes().dom() =~= dom0);
    }

    /// Says that the file `file_name` could not be opened.
    pub fn report_open_failure(&mut self, file_name: &str)
        requires
            old(self).wf(),
        ensures
            final(self).wf(),
            final(self).ctx.message_bar.message@ == "ERR: Could not open file: "@ + file_name@,
            final(self).ctx.pane_manager == old(self).ctx.pane_manager,
            final(self).ctx.buffer_manager == old(self).ctx.buffer_manager,
            final(self).ctx.layout_tree == old(self).ctx.layout_tree,
    {
        let msg = concat2("ERR: Could not open file: ", file_name);
        self.ctx.update_message(msg.as_str());
    }

    /// Minimizes or restores pane `pane_id`, if it exists.
    fn toggle_minimize(&mut self, pane_id: usize)
        requires
            old(self).wf(),
        ensures
            final(self).wf(),
            final(self).ctx.pane_manager.panes().dom() == old(self).ctx.pane_manager.panes().dom(),
            final(self).ctx.pane_manager.panes() == with_minimize_toggled(old(self).ctx.pane_manager.panes(), pane_id),
            final(self).ctx.pane_manager.active_id() == old(self).ctx.pane_manager.active_id(),
            final(self).ctx.layout_tree == old(self).ctx.layout_tree,
            final(self).ctx.message_bar == old(self).ctx.message_bar,
            final(self).ctx.buffer_manager == old(self).ctx.buffer_manager,
            final(self).ctx.quit_times == old(self).ctx.quit_times,
            final(self).pending_events@ == old(self).pending_events@,
    {
        let ghost dom0 = self.ctx.pane_manager.panes().dom();
        match self.ctx.pane_manager.get_pane_mut(pane_id) {
            Some(pane) => {
                pane.is_minimized = !pane.is_minimized;
            },
            None => {},
        }
        assert(self.ctx.pane_manager.panes().dom() =~= dom0);
    }

    /// Applies what a plugin asked for (see [`PluginResponse`]); returns what
    /// the caller is left to do (see [`PluginFollowUp`]). For a request to
    /// open a floating pane, `content` is what the plugin's content factory
    /// built (none when the plugin is unknown): it is opened at z-index 10
    /// in the asked rectangle (see [`Editor::open_floating_pane`]). Other
    /// requests ignore `content`.
    pub fn apply_plugin_response<F: Fn(usize, u32) -> usize>(
        &mut self,
        response: PluginResponse,
        content: Option<PaneContent>,
        share: &F,
    ) -> (r: PluginFollowUp)
        requires
            old(self).wf(),
            good_share(*share),
        ensures
            final(self).wf(),
            final(self).ctx.buffer_manager == old(self).ctx.buffer_manager,
            final(self).ctx.quit_times == old(self).ctx.quit_times,
            match response {
                PluginResponse::OpenFloatingPane { plugin_name, rect } => (match content {
                    Some(c) => {
                        &&& old(self).ctx.pane_manager.next_id() < usize::MAX ==> (r matches PluginFollowUp::PaneOpened { plugin_name: n, pane_id }
                            && n@ == plugin_name@ && pane_id == old(self).ctx.pane_manager.next_id()
                            && floating_opened(old(self).ctx.pane_manager, final(self).ctx.pane_manager, pane_id, rect, c))
                        &&& old(self).ctx.pane_manager.next_id() == usize::MAX ==> r is Nothing
                            && final(self).ctx.pane_manager == old(self).ctx.pane_manager
                    },
                    None => r is Nothing && final(self).ctx.pane_manager == old(self).ctx.pane_manager,
                }) && final(self).ctx.layout_tree == old(self).ctx.layout_tree,
                PluginResponse::UpdateMessage(msg) => r is Nothing
                    && final(self).ctx.message_bar.message@ == msg@
                    && final(self).ctx.pane_manager == old(self).ctx.pane_manager,
                PluginResponse::EmitCustomEvent(c) => r is Nothing && final(self).pending_events@
                    == old(self).pending_events@.push(EditorEvent::Custom(c)),
                PluginResponse::RequestSnapshot { buffer_id } => (r is SendSnapshot
                    <==> old(self).ctx.buffer_manager.buffers().contains_key(buffer_id))
                    && (r matches PluginFollowUp::SendSnapshot(snap) ==> snap.buffer_id == buffer_id)
                    && final(self).ctx.pane_manager == old(self).ctx.pane_manager,
                PluginResponse::ToggleMinimize { pane_id } => r is Nothing
                    && final(self).ctx.pane_manager.panes() == with_minimize_toggled(old(self).ctx.pane_manager.panes(), pane_id)
                    && final(self).ctx.layout_tree == old(self).ctx.layout_tree,
                PluginResponse::ClosePane { pane_id } => r is Nothing
                    && plugin_pane_closed(old(self).ctx, final(self).ctx, pane_id, *share),
                PluginResponse::SelectInPane { pane_id } => ({
                    let panes = old(self).ctx.pane_manager.panes();
                    let target = if panes.contains_key(pane_id) {
                        pane_select_target(panes[pane_id])
                    } else {
                        None
                    };
                    &&& target is None ==> r is Nothing
                    &&& target is Some ==> (r matches PluginFollowUp::Selected { pane_id: id, path }
                        && id == pane_id && path@ == target->0)
                    &&& panes.contains_key(pane_id) ==> final(self).ctx.pane_manager.panes()[pane_id].content is TextView
                        == panes[pane_id].content is TextView
                })
                    && final(self).ctx.pane_manager.panes().dom() == old(self).ctx.pane_manager.panes().dom()
                    && final(self).ctx.layout_tree == old(self).ctx.layout_tree,
                PluginResponse::MoveInPane { pane_id, direction } => r is Nothing
                    && final(self).ctx.pane_manager.panes().dom() == old(self).ctx.pane_manager.panes().dom()
                    && final(self).ctx.layout_tree == old(self).ctx.layout_tree
                    && (old(self).ctx.pane_manager.panes().contains_key(pane_id) ==> component_moved(
                        old(self).ctx.pane_manager.panes()[pane_id],
                        final(self).ctx.pane_manager.panes()[pane_id],
                        direction,
                    )),
                PluginResponse::MouseClickInPane { pane_id, position } => r is Nothing && ({
                    let panes = old(self).ctx.pane_manager.panes();
                    let action = if panes.contains_key(pane_id) {
                        pane_click_result(panes[pane_id], position)
                    } else {
                        ClickAction::Content
                    };
                    &&& action == ClickAction::Close ==> plugin_pane_closed(
                        old(self).ctx,
                        final(self).ctx,
                        pane_id,
                        *share,
                    )
                    &&& action == ClickAction::Minimize ==> final(self).ctx.pane_manager.panes().dom()
                        == panes.dom() && final(self).ctx.layout_tree == old(self).ctx.layout_tree
                        && final(self).ctx.pane_manager.panes()[pane_id].is_minimized
                        != panes[pane_id].is_minimized
                    &&& action == ClickAction::Content ==> final(self).ctx.pane_manager.panes().dom()
                        == panes.dom() && final(self).ctx.layout_tree == old(self).ctx.layout_tree
                        && (panes.contains_key(pane_id) ==> component_clicked(
                        panes[pane_id],
                        final(self).ctx.pane_manager.panes()[pane_id],
                        position,
                    ))
                }),
            },
    {
        match response {
            PluginResponse::OpenFloatingPane { plugin_name, rect } => match content {
                Some(c) => match self.open_floating_pane(c, rect) {
                    Some(pane_id) => PluginFollowUp::PaneOpened { plugin_name, pane_id },
                    None => PluginFollowUp::Nothing,
                },
                None => PluginFollowUp::Nothing,
            },
            PluginResponse::ClosePane { pane_id } => {
                self.close_plugin_pane(pane_id, share);
                PluginFollowUp::Nothing
            },
            PluginResponse::UpdateMessage(msg) => {
                self.ctx.update_message(msg.as_str());
                PluginFollowUp::Nothing
            },
            PluginResponse::EmitCustomEvent(custom) => {
                self.pending_events.push(EditorEvent::Custom(custom));
                PluginFollowUp::Nothing
            },
            PluginResponse::RequestSnapshot { buffer_id } => {
                match self.make_buffer_snapshot(buffer_id) {
                    Some(snapshot) => PluginFollowUp::SendSnapshot(snapshot),
                    None => PluginFollowUp::Nothing,
                }
            },
            PluginResponse::ToggleMinimize { pane_id } => {
                self.toggle_minimize(pane_id);
                PluginFollowUp::Nothing
            },
            PluginResponse::MoveInPane { pane_id, direction } => {
                let ghost dom0 = self.ctx.pane_manager.panes().dom();
                match self.ctx.pane_manager.get_pane_mut(pane_id) {
                    Some(pane) => pane.plugin_handle_move(direction),
                    None => {},
                }
                assert(self.ctx.pane_manager.panes().dom() =~= dom0);
                PluginFollowUp::Nothing
            },
            PluginResponse::SelectInPane { pane_id } => {
                let ghost dom0 = self.ctx.pane_manager.panes().dom();
                let target = match self.ctx.pane_manager.get_pane_mut(pane_id) {
                    Some(pane) => pane.plugin_handle_select(),
                    None => None,
                };
                assert(self.ctx.pane_manager.panes().dom() =~= dom0);
                match target {
                    Some(path) => PluginFollowUp::Selected { pane_id, path },
                    None => PluginFollowUp::Nothing,
                }
            },
            PluginResponse::MouseClickInPane { pane_id, position } => {
                let ghost dom0 = self.ctx.pane_manager.panes().dom();
                let action = match self.ctx.pane_manager.get_pane_mut(pane_id) {
                    Some(pane) => pane.plugin_handle_click(position),
                    None => ClickAction::Content,
                };
                assert(self.ctx.pane_manager.panes().dom() =~= dom0);
                match action {
                    ClickAction::Close => self.close_plugin_pane(pane_id, share),
                    ClickAction::Minimize => self.toggle_minimize(pane_id),
                    ClickAction::Content => {},
                }
                PluginFollowUp::Nothing
            },
        }
    }

    /// Where the caret is shown: in the command bar while a prompt is shown,
    /// else at the caret of the active view, else inside the top-left corner
    /// of the active pane's frame.
    pub fn caret_position(&self) -> (p: Position)
        requires
            self.ctx.pane_manager.wf(),
        ensures
            self.ctx.prompt_type != PromptType::NoPrompt ==> p.row
                == self.ctx.command_bar.area().position.row && p.col == vstd::math::min(
                self.ctx.command_bar.area().position.col + self.ctx.command_bar.caret_col(),
                usize::MAX as int,
            ),
            self.ctx.prompt_type == PromptType::NoPrompt && crate::editor::handlers::active_buffer(
                self.ctx,
            ) is Some ==> {
                let v = crate::editor::handlers::active_view(self.ctx)->0;
                let b = crate::editor::handlers::active_buffer(self.ctx)->0;
                p == crate::editor::view::caret_cell(
                    crate::editor::view::location_position(b.text(), v.text_location),
                    v.scroll_offset,
                    v.rect,
                )
            },
    {
        if self.in_prompt() {
            return self.ctx.command_bar.caret_position();
        }
        match self.ctx.pane_manager.active_pane() {
            Some(pane) => match pane.view() {
                Some(view) => match self.ctx.buffer_manager.get(view.buffer_id()) {
                    Some(buffer) => view.caret_position(buffer),
                    None => Position { row: 0, col: 0 },
                },
                None => {
                    let rect = pane.component_rect();
                    Position {
                        row: rect.position.row.saturating_add(1),
                        col: rect.position.col.saturating_add(1),
                    }
                },
            },
            None => Position { row: 0, col: 0 },
        }
    }
}

/// The ids of the leaves in `leaves` whose pane `panes` holds and does not
/// float, in order.
pub open spec fn tiled_ids(leaves: Seq<(usize, Rect)>, panes: Map<usize, Pane>) -> Seq<usize>
    decreases leaves.len(),
{
    if leaves.len() == 0 {
        Seq::empty()
    } else {
        let rest = tiled_ids(leaves.drop_last(), panes);
        let id = leaves.last().0;
        if panes.contains_key(id) && !panes[id].is_floating {
            rest.push(id)
        } else {
            rest
        }
    }
}

/// The order in which the panes of `e` are drawn: the tiled ones in the
/// order of the layout, then the floating ones from the lowest z-index up,
/// so that each is drawn over those below it.
pub open spec fn draw_order(e: Editor) -> Seq<usize> {
    tiled_ids(leaf_layouts(e.ctx.layout_tree.root_node()), e.ctx.pane_manager.panes())
        + sorted_by_z(e.ctx.pane_manager.floating()).map_values(|p: Pane| p.pane_id)
}

impl Editor {
    /// The ids of the panes in the order they are drawn (see
    /// [`draw_order`]).
    pub fn pane_draw_order(&self) -> (r: Vec<usize>)
        requires
            self.ctx.pane_manager.wf(),
        ensures
            r@ == draw_order(*self),
    {
        let leaves = self.ctx.layout_tree.collect_leaf_layouts();
        let ghost panes = self.ctx.pane_manager.panes();
        let mut r: Vec<usize> = Vec::new();
        let mut i: usize = 0;
        while i < leaves.len()
            invariant
                i <= leaves@.len(),
                self.ctx.pane_manager.wf(),
                panes == self.ctx.pane_manager.panes(),
                r@ == tiled_ids(leaves@.take(i as int), panes),
            decreases leaves@.len() - i,
        {
            let id = leaves[i].0;
            assert(leaves@.take(i + 1).drop_last() =~= leaves@.take(i as int));
            match self.ctx.pane_manager.get_pane(id) {
                Some(pane) => {
                    if !pane.is_floating {
                        r.push(id);
                    }
                },
                None => {},
            }
            i = i + 1;
        }
        assert(leaves@.take(leaves@.len() as int) =~= leaves@);
        let ghost tiled = r@;
        let floating = self.ctx.pane_manager.get_floating_panes_sorted();
        let ghost sorted = sorted_by_z(self.ctx.pane_manager.floating());
        let mut k: usize = 0;
        while k < floating.len()
            invariant
                k <= floating@.len(),
                floating@.map_values(|p: &Pane| *p) == sorted,
                r@ == tiled + sorted.take(k as int).map_values(|p: Pane| p.pane_id),
            decreases floating@.len() - k,
        {
            r.push(floating[k].pane_id);
            assert(sorted.take(k + 1).map_values(|p: Pane| p.pane_id) =~= sorted.take(k as int).map_values(
                |p: Pane| p.pane_id,
            ).push(sorted[k as int].pane_id));
            k = k + 1;
        }
        assert(sorted.take(floating@.len() as int) =~= sorted);
        r
    }
}

} // verus!
