use crate::editor::command::{Command, Edit, MouseCommand, Move, System};
use crate::editor::stdtext::string_push;
use crate::editor::textfmt::{decimal, push_decimal};
use crate::editor::view::edit_text;
use crate::prelude::{Location, Position, Size};
use vstd::prelude::*;

verus! {

/// A keyboard key, independent of the terminal library.
#[derive(Clone, Copy, Debug, PartialEq, Eq, Structural)]
pub enum KeyCode {
    Char(char),
    Backspace,
    Delete,
    Enter,
    Tab,
    Esc,
    Up,
    Down,
    Left,
    Right,
    Home,
    End,
    PageUp,
    PageDown,
    Other,
}

/// The modifier keys held with a key.
#[derive(Clone, Copy, Debug, PartialEq, Eq, Structural)]
pub struct KeyModifiers {
    pub ctrl: bool,
    pub shift: bool,
    pub alt: bool,
}

impl KeyModifiers {
    /// No modifier held.
    pub fn none() -> (r: Self)
        ensures
            !r.ctrl && !r.shift && !r.alt,
    {
        KeyModifiers { ctrl: false, shift: false, alt: false }
    }

    /// Only Ctrl held.
    pub fn ctrl_only() -> (r: Self)
        ensures
            r.ctrl && !r.shift && !r.alt,
    {
        KeyModifiers { ctrl: true, shift: false, alt: false }
    }

    /// Only Shift held.
    pub fn shift_only() -> (r: Self)
        ensures
            !r.ctrl && r.shift && !r.alt,
    {
        KeyModifiers { ctrl: false, shift: true, alt: false }
    }
}

impl Default for KeyModifiers {
    fn default() -> (r: Self)
        ensures
            r == (KeyModifiers { ctrl: false, shift: false, alt: false }),
    {
        KeyModifiers { ctrl: false, shift: false, alt: false }
    }
}

/// A key press.
#[derive(Clone, Copy, Debug, PartialEq, Eq, Structural)]
pub struct KeyInput {
    pub key_code: KeyCode,
    pub modifiers: KeyModifiers,
}

/// A mouse button.
#[derive(Clone, Copy, Debug, PartialEq, Eq, Structural)]
pub enum MouseButton {
    Left,
    Right,
    Middle,
}

/// What the mouse did.
#[derive(Clone, Copy, Debug, PartialEq, Eq, Structural)]
pub enum MouseAction {
    Down,
    Up,
    Drag,
    ScrollUp,
    ScrollDown,
}

/// A mouse event: where, with which button (none for scrolling), and what.
#[derive(Clone, Copy, Debug, PartialEq, Eq, Structural)]
pub struct MouseInput {
    pub position: Position,
    pub button: Option<MouseButton>,
    pub action: MouseAction,
}

/// An event that plugins raise for the editor.
#[derive(Clone, Debug)]
pub enum CustomEvent {
    PluginEvent { plugin_name: String, data: Vec<u8> },
    ThemeChanged,
    SettingsChanged,
}

/// An input event, independent of the terminal library.
#[derive(Clone, Debug)]
pub enum EditorEvent {
    Key(KeyInput),
    Mouse(MouseInput),
    Resize(Size),
    Custom(CustomEvent),
    Unhandled,
}

/// The command a key press is bound to, if any: Ctrl with a letter (and no
/// other modifier) for the system commands, Esc for dismissing, the
/// navigation keys for moving, and printable characters (alone or with
/// Shift), Tab, Enter, Backspace and Delete for editing.
pub open spec fn key_command(key: KeyInput) -> Option<Command> {
    let m = key.modifiers;
    let no_mod = !m.ctrl && !m.shift && !m.alt;
    let shift_only = !m.ctrl && m.shift && !m.alt;
    if m.ctrl && !m.shift && !m.alt {
        match key.key_code {
            KeyCode::Char(c) => if c == 'q' {
                Some(Command::System(System::Quit))
            } else if c == 's' {
                Some(Command::System(System::Save))
            } else if c == 'f' {
                Some(Command::System(System::Search))
            } else if c == 'z' {
                Some(Command::System(System::Undo))
            } else if c == 'r' {
                Some(Command::System(System::Redo))
            } else if c == 'h' {
                Some(Command::System(System::SplitHorizontal))
            } else if c == 'v' {
                Some(Command::System(System::SplitVertical))
            } else if c == ' ' {
                Some(Command::System(System::OpenCommandBar))
            } else {
                None
            },
            _ => None,
        }
    } else if no_mod && key.key_code == KeyCode::Esc {
        Some(Command::System(System::Dismiss))
    } else if no_mod && key.key_code == KeyCode::Up {
        Some(Command::Move(Move::Up))
    } else if no_mod && key.key_code == KeyCode::Down {
        Some(Command::Move(Move::Down))
    } else if no_mod && key.key_code == KeyCode::Left {
        Some(Command::Move(Move::Left))
    } else if no_mod && key.key_code == KeyCode::Right {
        Some(Command::Move(Move::Right))
    } else if no_mod && key.key_code == KeyCode::PageUp {
        Some(Command::Move(Move::PageUp))
    } else if no_mod && key.key_code == KeyCode::PageDown {
        Some(Command::Move(Move::PageDown))
    } else if no_mod && key.key_code == KeyCode::Home {
        Some(Command::Move(Move::StartOfLine))
    } else if no_mod && key.key_code == KeyCode::End {
        Some(Command::Move(Move::EndOfLine))
    } else {
        match key.key_code {
            KeyCode::Char(c) => if no_mod || shift_only {
                Some(Command::Edit(Edit::Insert(c)))
            } else {
                None
            },
            KeyCode::Tab => if no_mod {
                Some(Command::Edit(Edit::Insert('\t')))
            } else {
                None
            },
            KeyCode::Enter => if no_mod {
                Some(Command::Edit(Edit::InsertNewLine))
            } else {
                None
            },
            KeyCode::Backspace => if no_mod {
                Some(Command::Edit(Edit::DeleteBackward))
            } else {
                None
            },
            KeyCode::Delete => if no_mod {
                Some(Command::Edit(Edit::Delete))
            } else {
                None
            },
            _ => None,
        }
    }
}

/// `std`'s debug rendering of a character, as `{:?}` prints it: quoted,
/// with escapes.
pub uninterp spec fn char_debug(c: char) -> Seq<char>;

/// `format!("{:?}", c)` for a `char`: std's `Debug` of `char`, which
/// quotes the character and escapes it (`'\n'`, `'\u{301}'`, ...), a
/// function of the character alone; the escaping rules are not written out.
#[verifier::external_body]
fn char_debug_text(c: char) -> (s: String)
    ensures
        s@ == char_debug(c),
{
    format!("{c:?}")
}

/// `true` or `false`.
pub open spec fn bool_text(b: bool) -> Seq<char> {
    if b {
        "true"@
    } else {
        "false"@
    }
}

/// The debug rendering of a key code, as `{:?}` prints it: the variant's
/// name, with the character in brackets for `Char`.
pub open spec fn key_code_debug(key_code: KeyCode) -> Seq<char> {
    match key_code {
        KeyCode::Char(c) => "Char("@ + char_debug(c) + ")"@,
        KeyCode::Backspace => "Backspace"@,
        KeyCode::Delete => "Delete"@,
        KeyCode::Enter => "Enter"@,
        KeyCode::Tab => "Tab"@,
        KeyCode::Esc => "Esc"@,
        KeyCode::Up => "Up"@,
        KeyCode::Down => "Down"@,
        KeyCode::Left => "Left"@,
        KeyCode::Right => "Right"@,
        KeyCode::Home => "Home"@,
        KeyCode::End => "End"@,
        KeyCode::PageUp => "PageUp"@,
        KeyCode::PageDown => "PageDown"@,
        KeyCode::Other => "Other"@,
    }
}

/// The debug rendering of key modifiers, as `{:?}` prints them:
/// `KeyModifiers { ctrl: .., shift: .., alt: .. }`.
pub open spec fn key_modifiers_debug(modifiers: KeyModifiers) -> Seq<char> {
    "KeyModifiers { ctrl: "@ + bool_text(modifiers.ctrl) + ", shift: "@ + bool_text(
        modifiers.shift,
    ) + ", alt: "@ + bool_text(modifiers.alt) + " }"@
}

fn bool_string(b: bool) -> (s: String)
    ensures
        s@ == bool_text(b),
{
    if b {
        String::from_str("true")
    } else {
        String::from_str("false")
    }
}

/// The debug rendering of `key_code` (see [`key_code_debug`]).
pub(crate) fn key_code_debug_text(key_code: KeyCode) -> (s: String)
    ensures
        s@ == key_code_debug(key_code),
{
    match key_code {
        KeyCode::Char(c) => {
            let mut s = String::from_str("Char(");
            let d = char_debug_text(c);
            s.append(d.as_str());
            s.append(")");
            s
        },
        KeyCode::Backspace => String::from_str("Backspace"),
        KeyCode::Delete => String::from_str("Delete"),
        KeyCode::Enter => String::from_str("Enter"),
        KeyCode::Tab => String::from_str("Tab"),
        KeyCode::Esc => String::from_str("Esc"),
        KeyCode::Up => String::from_str("Up"),
        KeyCode::Down => String::from_str("Down"),
        KeyCode::Left => String::from_str("Left"),
        KeyCode::Right => String::from_str("Right"),
        KeyCode::Home => String::from_str("Home"),
        KeyCode::End => String::from_str("End"),
        KeyCode::PageUp => String::from_str("PageUp"),
        KeyCode::PageDown => String::from_str("PageDown"),
        KeyCode::Other => String::from_str("Other"),
    }
}

/// The debug rendering of `modifiers` (see [`key_modifiers_debug`]).
pub(crate) fn key_modifiers_debug_text(modifiers: KeyModifiers) -> (s: String)
    ensures
        s@ == key_modifiers_debug(modifiers),
{
    let mut s = String::from_str("KeyModifiers { ctrl: ");
    s.append(bool_string(modifiers.ctrl).as_str());
    s.append(", shift: ");
    s.append(bool_string(modifiers.shift).as_str());
    s.append(", alt: ");
    s.append(bool_string(modifiers.alt).as_str());
    s.append(" }");
    s
}

/// Why a key press has no command.
pub open spec fn unbound_key_message(key: KeyInput) -> Seq<char> {
    let m = key.modifiers;
    if m.ctrl && !m.shift && !m.alt {
        match key.key_code {
            KeyCode::Char(c) => "Unbound Ctrl+"@ + seq![c],
            _ => "Unbound Ctrl+"@ + key_code_debug(key.key_code),
        }
    } else {
        "Unbound key "@ + key_code_debug(key.key_code) + " with "@ + key_modifiers_debug(
            key.modifiers,
        )
    }
}

/// The command bound to `key` (see [`key_command`]), or why there is none
/// (see [`unbound_key_message`]).
pub fn key_to_command(key: KeyInput) -> (r: Result<Command, String>)
    ensures
        match r {
            Ok(cmd) => key_command(key) == Some(cmd),
            Err(msg) => key_command(key) is None && msg@ == unbound_key_message(key),
        },
{
    let key_code = key.key_code;
    let modifiers = key.modifiers;
    if modifiers.ctrl && !modifiers.shift && !modifiers.alt {
        if let KeyCode::Char(c) = key_code {
            let system = if c == 'q' {
                System::Quit
            } else if c == 's' {
                System::Save
            } else if c == 'f' {
                System::Search
            } else if c == 'z' {
                System::Undo
            } else if c == 'r' {
                System::Redo
            } else if c == 'h' {
                System::SplitHorizontal
            } else if c == 'v' {
                System::SplitVertical
            } else if c == ' ' {
                System::OpenCommandBar
            } else {
                let mut msg = String::from_str("Unbound Ctrl+");
                string_push(&mut msg, c);
                return Err(msg);
            };
            return Ok(Command::System(system));
        }
        let mut msg = String::from_str("Unbound Ctrl+");
        let name = key_code_debug_text(key_code);
        msg.append(name.as_str());
        return Err(msg);
    }
    let no_mod = !modifiers.ctrl && !modifiers.shift && !modifiers.alt;
    let shift_only = !modifiers.ctrl && modifiers.shift && !modifiers.alt;
    if key_code == KeyCode::Esc && no_mod {
        return Ok(Command::System(System::Dismiss));
    }
    if no_mod {
        let move_cmd = match key_code {
            KeyCode::Up => Some(Move::Up),
            KeyCode::Down => Some(Move::Down),
            KeyCode::Left => Some(Move::Left),
            KeyCode::Right => Some(Move::Right),
            KeyCode::PageUp => Some(Move::PageUp),
            KeyCode::PageDown => Some(Move::PageDown),
            KeyCode::Home => Some(Move::StartOfLine),
            KeyCode::End => Some(Move::EndOfLine),
            _ => None,
        };
        if let Some(mv) = move_cmd {
            return Ok(Command::Move(mv));
        }
    }
    let edit_cmd = match key_code {
        KeyCode::Char(c) if no_mod || shift_only => Some(Edit::Insert(c)),
        KeyCode::Tab if no_mod => Some(Edit::Insert('\t')),
        KeyCode::Enter if no_mod => Some(Edit::InsertNewLine),
        KeyCode::Backspace if no_mod => Some(Edit::DeleteBackward),
        KeyCode::Delete if no_mod => Some(Edit::Delete),
        _ => None,
    };
    match edit_cmd {
        Some(e) => Ok(Command::Edit(e)),
        None => {
            let mut msg = String::from_str("Unbound key ");
            let name = key_code_debug_text(key_code);
            msg.append(name.as_str());
            msg.append(" with ");
            let mods = key_modifiers_debug_text(modifiers);
            msg.append(mods.as_str());
            Err(msg)
        },
    }
}

/// The command a mouse event is bound to, if any: left button down, drag
/// and up for clicking, dragging and releasing, and the wheel for scrolling.
pub open spec fn mouse_command(mouse: MouseInput) -> Option<Command> {
    let p = mouse.position;
    match (mouse.button, mouse.action) {
        (Some(MouseButton::Left), MouseAction::Down) => Some(
            Command::Mouse(MouseCommand::LeftClick(p)),
        ),
        (Some(MouseButton::Left), MouseAction::Drag) => Some(
            Command::Mouse(MouseCommand::LeftDrag(p)),
        ),
        (Some(MouseButton::Left), MouseAction::Up) => Some(
            Command::Mouse(MouseCommand::LeftRelease(p)),
        ),
        (None, MouseAction::ScrollUp) => Some(Command::Mouse(MouseCommand::ScrollUp(p))),
        (None, MouseAction::ScrollDown) => Some(Command::Mouse(MouseCommand::ScrollDown(p))),
        _ => None,
    }
}

/// The debug rendering of a mouse button, as `{:?}` prints it.
pub open spec fn mouse_button_debug(button: MouseButton) -> Seq<char> {
    match button {
        MouseButton::Left => "Left"@,
        MouseButton::Right => "Right"@,
        MouseButton::Middle => "Middle"@,
    }
}

/// The debug rendering of a mouse action, as `{:?}` prints it.
pub open spec fn mouse_action_debug(action: MouseAction) -> Seq<char> {
    match action {
        MouseAction::Down => "Down"@,
        MouseAction::Up => "Up"@,
        MouseAction::Drag => "Drag"@,
        MouseAction::ScrollUp => "ScrollUp"@,
        MouseAction::ScrollDown => "ScrollDown"@,
    }
}

/// The debug rendering of a mouse event, as `{:?}` prints it:
/// `MouseInput { position: Position { row: .., col: .. }, button: .., action: .. }`.
pub open spec fn mouse_input_debug(mouse: MouseInput) -> Seq<char> {
    "MouseInput { position: Position { row: "@ + decimal(mouse.position.row as nat) + ", col: "@
        + decimal(mouse.position.col as nat) + " }, button: "@ + match mouse.button {
        Some(b) => "Some("@ + mouse_button_debug(b) + ")"@,
        None => "None"@,
    } + ", action: "@ + mouse_action_debug(mouse.action) + " }"@
}

fn mouse_button_text(button: MouseButton) -> (s: String)
    ensures
        s@ == mouse_button_debug(button),
{
    match button {
        MouseButton::Left => String::from_str("Left"),
        MouseButton::Right => String::from_str("Right"),
        MouseButton::Middle => String::from_str("Middle"),
    }
}

fn mouse_action_text(action: MouseAction) -> (s: String)
    ensures
        s@ == mouse_action_debug(action),
{
    match action {
        MouseAction::Down => String::from_str("Down"),
        MouseAction::Up => String::from_str("Up"),
        MouseAction::Drag => String::from_str("Drag"),
        MouseAction::ScrollUp => String::from_str("ScrollUp"),
        MouseAction::ScrollDown => String::from_str("ScrollDown"),
    }
}

/// The debug rendering of `mouse` (see [`mouse_input_debug`]).
fn mouse_input_debug_text(mouse: MouseInput) -> (s: String)
    ensures
        s@ == mouse_input_debug(mouse),
{
    let mut s = String::from_str("MouseInput { position: Position { row: ");
    push_decimal(&mut s, mouse.position.row);
    s.append(", col: ");
    push_decimal(&mut s, mouse.position.col);
    s.append(" }, button: ");
    match mouse.button {
        Some(b) => {
            s.append("Some(");
            s.append(mouse_button_text(b).as_str());
            s.append(")");
        },
        None => {
            s.append("None");
        },
    }
    s.append(", action: ");
    s.append(mouse_action_text(mouse.action).as_str());
    s.append(" }");
    s
}

/// The command bound to `mouse` (see [`mouse_command`]), or why there is none.
pub fn mouse_to_command(mouse: MouseInput) -> (r: Result<Command, String>)
    ensures
        match r {
            Ok(cmd) => mouse_command(mouse) == Some(cmd),
            Err(msg) => mouse_command(mouse) is None && msg@ == "Unhandled mouse event "@
                + mouse_input_debug(mouse),
        },
{
    let position = mouse.position;
    let cmd = match (mouse.button, mouse.action) {
        (Some(MouseButton::Left), MouseAction::Down) => MouseCommand::LeftClick(position),
        (Some(MouseButton::Left), MouseAction::Drag) => MouseCommand::LeftDrag(position),
        (Some(MouseButton::Left), MouseAction::Up) => MouseCommand::LeftRelease(position),
        (None, MouseAction::ScrollUp) => MouseCommand::ScrollUp(position),
        (None, MouseAction::ScrollDown) => MouseCommand::ScrollDown(position),
        _ => {
            let mut msg = String::from_str("Unhandled mouse event ");
            let text = mouse_input_debug_text(mouse);
            msg.append(text.as_str());
            return Err(msg);
        },
    };
    Ok(Command::Mouse(cmd))
}

/// The command an event stands for: key presses and mouse events as bound,
/// a resize as itself; custom and unhandled events stand for none.
pub fn command_from_event(event: &EditorEvent) -> (r: Result<Command, String>)
    ensures
        match event {
            EditorEvent::Key(key) => match r {
                Ok(cmd) => key_command(*key) == Some(cmd),
                Err(msg) => key_command(*key) is None && msg@ == unbound_key_message(*key),
            },
            EditorEvent::Mouse(mouse) => match r {
                Ok(cmd) => mouse_command(*mouse) == Some(cmd),
                Err(msg) => mouse_command(*mouse) is None,
            },
            EditorEvent::Resize(size) => r == Ok::<Command, String>(
                Command::System(System::Resize(*size)),
            ),
            _ => r is Err && r->Err_0@ == "Event not mapped to a command"@,
        },
{
    match event {
        EditorEvent::Key(key) => key_to_command(*key),
        EditorEvent::Mouse(mouse) => mouse_to_command(*mouse),
        EditorEvent::Resize(size) => Ok(Command::System(System::Resize(*size))),
        _ => Err(String::from_str("Event not mapped to a command")),
    }
}

/// `key_code` pressed with no modifier.
pub open spec fn unmodified(key_code: KeyCode) -> KeyInput {
    KeyInput { key_code, modifiers: KeyModifiers { ctrl: false, shift: false, alt: false } }
}

/// Delete, with no modifier, removes the grapheme under the caret, and
/// Backspace, with no modifier, the one before it.
pub proof fn lemma_delete_keys_remove_at_and_before_caret(text: Seq<Seq<char>>, at: Location)
    requires
        at.line_idx < text.len(),
        0 < at.grapheme_idx < text[at.line_idx as int].len(),
    ensures
        key_command(unmodified(KeyCode::Delete)) matches Some(Command::Edit(e)) && edit_text(text, at, e) == text.update(
            at.line_idx as int,
            text[at.line_idx as int].remove(at.grapheme_idx as int),
        ),
        key_command(unmodified(KeyCode::Backspace)) matches Some(Command::Edit(e)) && edit_text(text, at, e) == text.update(
            at.line_idx as int,
            text[at.line_idx as int].remove(at.grapheme_idx - 1),
        ),
{
}

} // verus!
