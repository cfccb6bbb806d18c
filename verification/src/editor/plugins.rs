//! What plugins tell the editor, and the built-in file explorer plugin's
//! decisions. Running plugins (their tasks and channels) is left to the
//! caller.
use crate::editor::command::Move;
use crate::editor::events::{CustomEvent, EditorEvent, KeyCode, MouseAction, MouseButton};
use crate::prelude::{Position, Rect, Size};
use vstd::prelude::*;
use vstd::string::StringExecFns;

verus! {

/// The state of a buffer as plugins see it.
#[derive(Clone, Debug)]
pub struct BufferSnapshot {
    pub buffer_id: usize,
    pub lines: Vec<String>,
    pub file_name: Option<String>,
    pub is_dirty: bool,
}

/// What a plugin asks the editor to do. A floating pane is opened with the
/// content that the named plugin provides.
#[derive(Debug)]
pub enum PluginResponse {
    /// Open a floating pane for the plugin at `rect`.
    OpenFloatingPane { plugin_name: String, rect: Rect },
    /// Close a pane.
    ClosePane { pane_id: usize },
    /// Minimize or restore a floating pane.
    ToggleMinimize { pane_id: usize },
    /// Move the selection in a plugin's pane.
    MoveInPane { pane_id: usize, direction: Move },
    /// Select in a plugin's pane.
    SelectInPane { pane_id: usize },
    /// Pass a click on to a plugin's pane.
    MouseClickInPane { pane_id: usize, position: Position },
    /// Show a message.
    UpdateMessage(String),
    /// Handle a custom event in the next cycle.
    EmitCustomEvent(CustomEvent),
    /// Send a fresh snapshot of a buffer.
    RequestSnapshot { buffer_id: usize },
}

/// The name of the file explorer plugin.
pub const FILE_EXPLORER_NAME: &'static str = "file_explorer";

/// Where the file explorer opens its pane.
pub open spec fn explorer_rect() -> Rect {
    Rect { position: Position { row: 2, col: 4 }, size: Size { height: 24, width: 42 } }
}

/// What the file explorer plugin does with an event.
pub enum ExplorerStep {
    /// Close its pane.
    Close(usize),
    /// Open its pane.
    Open,
    /// Move the selection in its pane.
    MoveIn(usize, Move),
    /// Select in its pane.
    Select(usize),
    /// Pass a click on to its pane.
    Click(usize, Position),
    /// Nothing.
    Ignore,
}

/// The file explorer's reaction to `event` while its pane is `open`: Ctrl+E
/// toggles the pane; while it is open, the arrow keys Up and Down, Enter and
/// Esc (without modifiers) act in it and a left button press is passed on.
pub open spec fn explorer_step(open: Option<usize>, event: EditorEvent) -> ExplorerStep {
    match event {
        EditorEvent::Key(key) => {
            let m = key.modifiers;
            if m.ctrl && !m.shift && !m.alt && key.key_code == KeyCode::Char('e') {
                match open {
                    Some(id) => ExplorerStep::Close(id),
                    None => ExplorerStep::Open,
                }
            } else if open is Some && !m.ctrl && !m.shift && !m.alt {
                let id = open->0;
                match key.key_code {
                    KeyCode::Up => ExplorerStep::MoveIn(id, Move::Up),
                    KeyCode::Down => ExplorerStep::MoveIn(id, Move::Down),
                    KeyCode::Enter => ExplorerStep::Select(id),
                    KeyCode::Esc => ExplorerStep::Close(id),
                    _ => ExplorerStep::Ignore,
                }
            } else {
                ExplorerStep::Ignore
            }
        },
        EditorEvent::Mouse(mouse) => if open is Some && mouse.action == MouseAction::Down
            && mouse.button == Some(MouseButton::Left) {
            ExplorerStep::Click(open->0, mouse.position)
        } else {
            ExplorerStep::Ignore
        },
        _ => ExplorerStep::Ignore,
    }
}

/// The response that carries out `step`.
pub open spec fn step_response(step: ExplorerStep, r: Option<PluginResponse>) -> bool {
    match step {
        ExplorerStep::Close(id) => r matches Some(PluginResponse::ClosePane { pane_id })
            && pane_id == id,
        ExplorerStep::Open => r matches Some(PluginResponse::OpenFloatingPane { plugin_name, rect })
            && plugin_name@ == FILE_EXPLORER_NAME@ && rect == explorer_rect(),
        ExplorerStep::MoveIn(id, d) => r matches Some(
            PluginResponse::MoveInPane { pane_id, direction },
        ) && pane_id == id && direction == d,
        ExplorerStep::Select(id) => r matches Some(PluginResponse::SelectInPane { pane_id })
            && pane_id == id,
        ExplorerStep::Click(id, p) => r matches Some(
            PluginResponse::MouseClickInPane { pane_id, position },
        ) && pane_id == id && position == p,
        ExplorerStep::Ignore => r is None,
    }
}

/// The built-in plugin that opens a file explorer in a floating pane.
#[derive(Debug)]
pub struct FileExplorerPlugin {
    pub open_pane_id: Option<usize>,
}

impl Default for FileExplorerPlugin {
    fn default() -> (r: Self)
        ensures
            r.open_pane_id is None,
    {
        FileExplorerPlugin::new()
    }
}

impl FileExplorerPlugin {
    /// A plugin with no pane open.
    pub fn new() -> (r: Self)
        ensures
            r.open_pane_id is None,
    {
        FileExplorerPlugin { open_pane_id: None }
    }

    /// The plugin's name.
    pub fn name(&self) -> (s: &'static str)
        ensures
            s@ == FILE_EXPLORER_NAME@,
    {
        FILE_EXPLORER_NAME
    }

    /// Records the pane that the editor opened for the plugin.
    pub fn on_pane_opened(&mut self, pane_id: usize)
        ensures
            final(self).open_pane_id == Some(pane_id),
    {
        self.open_pane_id = Some(pane_id);
    }

    /// Reacts to an editor event (see [`explorer_step`]); closing forgets the pane.
    pub fn on_event(&mut self, event: &EditorEvent) -> (r: Option<PluginResponse>)
        ensures
            step_response(explorer_step(old(self).open_pane_id, *event), r),
            final(self).open_pane_id == (if explorer_step(
                old(self).open_pane_id,
                *event,
            ) is Close {
                None
            } else {
                old(self).open_pane_id
            }),
    {
        match event {
            EditorEvent::Key(key) => {
                let m = key.modifiers;
                if m.ctrl && !m.shift && !m.alt && key.key_code == KeyCode::Char('e') {
                    if let Some(pane_id) = self.open_pane_id {
                        self.open_pane_id = None;
                        return Some(PluginResponse::ClosePane { pane_id });
                    }
                    return Some(
                        PluginResponse::OpenFloatingPane {
                            plugin_name: String::from_str(FILE_EXPLORER_NAME),
                            rect: Rect {
                                position: Position { row: 2, col: 4 },
                                size: Size { height: 24, width: 42 },
                            },
                        },
                    );
                }
                if let Some(pane_id) = self.open_pane_id {
                    if !m.ctrl && !m.shift && !m.alt {
                        match key.key_code {
                            KeyCode::Up => {
                                return Some(
                                    PluginResponse::MoveInPane { pane_id, direction: Move::Up },
                                );
                            },
                            KeyCode::Down => {
                                return Some(
                                    PluginResponse::MoveInPane { pane_id, direction: Move::Down },
                                );
                            },
                            KeyCode::Enter => {
                                return Some(PluginResponse::SelectInPane { pane_id });
                            },
                            KeyCode::Esc => {
                                self.open_pane_id = None;
                                return Some(PluginResponse::ClosePane { pane_id });
                            },
                            _ => {},
                        }
                    }
                }
                None
            },
            EditorEvent::Mouse(mouse) => {
                if let Some(pane_id) = self.open_pane_id {
                    if mouse.action == MouseAction::Down && mouse.button == Some(MouseButton::Left) {
                        return Some(
                            PluginResponse::MouseClickInPane { pane_id, position: mouse.position },
                        );
                    }
                }
                None
            },
            _ => None,
        }
    }

    /// Buffer changes need no response from this plugin.
    pub fn on_buffer_change(&mut self, snapshot: BufferSnapshot) -> (r: Option<PluginResponse>)
        ensures
            r is None,
            final(self).open_pane_id == old(self).open_pane_id,
    {
        None
    }
}

} // verus!
