use crate::editor::events::{
    key_code_debug, key_code_debug_text, key_modifiers_debug, key_modifiers_debug_text, KeyCode,
    KeyInput, MouseAction, MouseButton, MouseInput,
};
use crate::prelude::{Position, Size};
use vstd::prelude::*;
use vstd::string::StringExecFns;

verus! {

/// A cursor movement.
#[derive(Clone, Copy, Debug, PartialEq, Eq, Structural)]
pub enum Move {
    PageUp,
    PageDown,
    StartOfLine,
    EndOfLine,
    Up,
    Left,
    Right,
    Down,
}

/// A change to the text.
#[derive(Clone, Copy, Debug, PartialEq, Eq, Structural)]
pub enum Edit {
    Insert(char),
    InsertNewLine,
    Delete,
    DeleteBackward,
}

/// An editor-wide command.
#[derive(Clone, Copy, Debug, PartialEq, Eq, Structural)]
pub enum System {
    Save,
    Resize(Size),
    Quit,
    Dismiss,
    Search,
    Undo,
    Redo,
    SplitHorizontal,
    SplitVertical,
    OpenCommandBar,
}

/// A mouse action at a screen position.
#[derive(Clone, Copy, Debug, PartialEq, Eq, Structural)]
pub enum MouseCommand {
    LeftClick(Position),
    LeftDrag(Position),
    LeftRelease(Position),
    ScrollUp(Position),
    ScrollDown(Position),
}

/// Anything the editor can be told to do.
#[derive(Clone, Copy, Debug, PartialEq, Eq, Structural)]
pub enum Command {
    Move(Move),
    Edit(Edit),
    System(System),
    Mouse(MouseCommand),
}

/// The editor-wide command a key press stands for: Ctrl with `q`, `s`, `f`,
/// `z`, `r`, `h`, `v` or space, or Esc alone.
pub open spec fn system_of_key(key: KeyInput) -> Option<System> {
    let m = key.modifiers;
    if m.ctrl && !m.shift && !m.alt {
        match key.key_code {
            KeyCode::Char('q') => Some(System::Quit),
            KeyCode::Char('s') => Some(System::Save),
            KeyCode::Char('f') => Some(System::Search),
            KeyCode::Char('z') => Some(System::Undo),
            KeyCode::Char('r') => Some(System::Redo),
            KeyCode::Char('h') => Some(System::SplitHorizontal),
            KeyCode::Char('v') => Some(System::SplitVertical),
            KeyCode::Char(' ') => Some(System::OpenCommandBar),
            _ => None,
        }
    } else if !m.ctrl && !m.shift && !m.alt && key.key_code == KeyCode::Esc {
        Some(System::Dismiss)
    } else {
        None
    }
}

impl System {
    /// The editor-wide command `key` stands for (see [`system_of_key`]), or
    /// why it stands for none.
    pub fn from_key(key: KeyInput) -> (r: Result<System, String>)
        ensures
            match r {
                Ok(sys) => system_of_key(key) == Some(sys),
                Err(msg) => system_of_key(key) is None && msg@ == if key.modifiers.ctrl
                    && !key.modifiers.shift && !key.modifiers.alt {
                    "Unsupported CONTROL+"@ + key_code_debug(key.key_code) + " combination"@
                } else {
                    "Unsupported key code "@ + key_code_debug(key.key_code) + " or modifier "@
                        + key_modifiers_debug(key.modifiers)
                },
            },
    {
        let m = key.modifiers;
        if m.ctrl && !m.shift && !m.alt {
            let found = match key.key_code {
                KeyCode::Char('q') => Some(System::Quit),
                KeyCode::Char('s') => Some(System::Save),
                KeyCode::Char('f') => Some(System::Search),
                KeyCode::Char('z') => Some(System::Undo),
                KeyCode::Char('r') => Some(System::Redo),
                KeyCode::Char('h') => Some(System::SplitHorizontal),
                KeyCode::Char('v') => Some(System::SplitVertical),
                KeyCode::Char(' ') => Some(System::OpenCommandBar),
                _ => None,
            };
            match found {
                Some(sys) => Ok(sys),
                None => {
                    let mut msg = String::from_str("Unsupported CONTROL+");
                    msg.append(key_code_debug_text(key.key_code).as_str());
                    msg.append(" combination");
                    Err(msg)
                },
            }
        } else if !m.ctrl && !m.shift && !m.alt && key.key_code == KeyCode::Esc {
            Ok(System::Dismiss)
        } else {
            let mut msg = String::from_str("Unsupported key code ");
            msg.append(key_code_debug_text(key.key_code).as_str());
            msg.append(" or modifier ");
            msg.append(key_modifiers_debug_text(key.modifiers).as_str());
            Err(msg)
        }
    }
}

/// The mouse command a mouse event stands for: the left button pressed,
/// dragged or released, or the wheel turned.
pub open spec fn mouse_command_of(mouse: MouseInput) -> Option<MouseCommand> {
    let p = mouse.position;
    match (mouse.button, mouse.action) {
        (Some(MouseButton::Left), MouseAction::Down) => Some(MouseCommand::LeftClick(p)),
        (Some(MouseButton::Left), MouseAction::Drag) => Some(MouseCommand::LeftDrag(p)),
        (Some(MouseButton::Left), MouseAction::Up) => Some(MouseCommand::LeftRelease(p)),
        (_, MouseAction::ScrollUp) => Some(MouseCommand::ScrollUp(p)),
        (_, MouseAction::ScrollDown) => Some(MouseCommand::ScrollDown(p)),
        _ => None,
    }
}

impl MouseCommand {
    /// The mouse command `mouse` stands for (see [`mouse_command_of`]), or
    /// an error saying it is not supported.
    pub fn from_mouse(mouse: MouseInput) -> (r: Result<MouseCommand, String>)
        ensures
            match r {
                Ok(cmd) => mouse_command_of(mouse) == Some(cmd),
                Err(msg) => mouse_command_of(mouse) is None && msg@ == "Mouse event not supported"@,
            },
    {
        let p = mouse.position;
        match (mouse.button, mouse.action) {
            (Some(MouseButton::Left), MouseAction::Down) => Ok(MouseCommand::LeftClick(p)),
            (Some(MouseButton::Left), MouseAction::Drag) => Ok(MouseCommand::LeftDrag(p)),
            (Some(MouseButton::Left), MouseAction::Up) => Ok(MouseCommand::LeftRelease(p)),
            (_, MouseAction::ScrollUp) => Ok(MouseCommand::ScrollUp(p)),
            (_, MouseAction::ScrollDown) => Ok(MouseCommand::ScrollDown(p)),
            _ => Err(String::from_str("Mouse event not supported")),
        }
    }
}

} // verus!
