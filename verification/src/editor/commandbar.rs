//! The bar at the bottom of the screen where a prompt asks for a value.
use crate::editor::command::Edit;
use crate::editor::line::{visible_range, Line};
use crate::editor::uicomponent::UIComponent;
use crate::prelude::{ColIdx, Position, Rect};
use vstd::prelude::*;
use vstd::string::StringExecFns;
use vstd::utf8::*;

verus! {

/// The text the bar shows: the prompt, then as much of the end of the value
/// as fits after it; nothing when even that does not fit (lengths in bytes).
pub open spec fn bar_text(prompt: Seq<char>, value: Seq<char>, width: int) -> Seq<char> {
    let prompt_len = (encode_utf8(prompt).len() as usize) as int;
    let area = if width > prompt_len {
        width - prompt_len
    } else {
        0
    };
    let end = value.len() as int;
    let start = if end > area {
        end - area
    } else {
        0
    };
    let message = prompt + visible_range(value, start, end);
    if (encode_utf8(message).len() as usize) <= width {
        message
    } else {
        Seq::empty()
    }
}

/// A prompt and the value typed after it.
#[derive(Debug)]
pub struct CommandBar {
    prompt: String,
    value: Line,
    needs_redraw: bool,
    rect: Rect,
}

impl Default for CommandBar {
    fn default() -> (r: Self)
        ensures
            r.prompt_text() == Seq::<char>::empty(),
            r.value_text() == Seq::<char>::empty(),
            !r.redraw_needed(),
            r.area() == Rect::default_spec(),
    {
        CommandBar {
            prompt: String::new(),
            value: Line::from_chars(Vec::new()),
            needs_redraw: false,
            rect: Rect::default(),
        }
    }
}

impl CommandBar {
    /// The prompt.
    pub closed spec fn prompt_text(&self) -> Seq<char> {
        self.prompt@
    }

    /// The value typed so far.
    pub closed spec fn value_text(&self) -> Seq<char> {
        self.value@
    }

    /// Whether the bar needs drawing.
    pub closed spec fn redraw_needed(&self) -> bool {
        self.needs_redraw
    }

    /// Where the bar is drawn.
    pub closed spec fn area(&self) -> Rect {
        self.rect
    }

    /// The column of the caret within the bar: after the prompt (counted in
    /// bytes) and the value, but not past the bar's width.
    pub open spec fn caret_col(&self) -> int {
        vstd::math::min(
            vstd::math::min(
                (encode_utf8(self.prompt_text()).len() as usize) + self.value_text().len(),
                usize::MAX as int,
            ),
            self.area().size.width as int,
        )
    }

    /// Edits the value: an insert appends, a backward delete removes the
    /// last character, other edits do nothing; the bar is marked for drawing.
    pub fn handle_edit_command(&mut self, command: Edit)
        ensures
            final(self).value_text() == match command {
                Edit::Insert(c) => old(self).value_text().push(c),
                Edit::DeleteBackward => if old(self).value_text().len() > 0 {
                    old(self).value_text().drop_last()
                } else {
                    old(self).value_text()
                },
                _ => old(self).value_text(),
            },
            final(self).redraw_needed(),
            final(self).prompt_text() == old(self).prompt_text(),
            final(self).area() == old(self).area(),
    {
        match command {
            Edit::Insert(character) => self.value.append_char(character),
            Edit::Delete | Edit::InsertNewLine => {},
            Edit::DeleteBackward => self.value.delete_last(),
        }
        self.needs_redraw = true;
    }

    /// The column of the caret within the bar (see [`CommandBar::caret_col`]).
    pub fn caret_position_col(&self) -> (c: ColIdx)
        ensures
            c == self.caret_col(),
    {
        let max_width = self.prompt.as_str().len().saturating_add(self.value.grapheme_count());
        if max_width < self.rect.size.width {
            max_width
        } else {
            self.rect.size.width
        }
    }

    /// The screen cell of the caret.
    pub fn caret_position(&self) -> (p: Position)
        ensures
            p.row == self.area().position.row,
            p.col == vstd::math::min(
                self.area().position.col + self.caret_col(),
                usize::MAX as int,
            ),
    {
        Position {
            row: self.rect.position.row,
            col: self.rect.position.col.saturating_add(self.caret_position_col()),
        }
    }

    /// The value typed so far.
    pub fn value(&self) -> (s: String)
        ensures
            s@ == self.value_text(),
    {
        self.value.to_string()
    }

    /// Sets the prompt; the bar is marked for drawing.
    pub fn set_prompt(&mut self, prompt: &str)
        ensures
            final(self).prompt_text() == prompt@,
            final(self).value_text() == old(self).value_text(),
            final(self).redraw_needed(),
            final(self).area() == old(self).area(),
    {
        self.prompt = String::from_str(prompt);
        self.needs_redraw = true;
    }

    /// Empties the value; the bar is marked for drawing.
    pub fn clear_value(&mut self)
        ensures
            final(self).value_text() == Seq::<char>::empty(),
            final(self).prompt_text() == old(self).prompt_text(),
            final(self).redraw_needed(),
            final(self).area() == old(self).area(),
    {
        self.value = Line::from_chars(Vec::new());
        self.needs_redraw = true;
    }

    /// The text the bar shows (see [`bar_text`]).
    pub fn display_text(&self) -> (s: String)
        ensures
            s@ == bar_text(self.prompt_text(), self.value_text(), self.area().size.width as int),
    {
        let width = self.rect.size.width;
        let area_for_value = width.saturating_sub(self.prompt.as_str().len());
        let value_end = self.value.width();
        let value_start = value_end.saturating_sub(area_for_value);
        let mut message = String::from_str(self.prompt.as_str());
        let visible = self.value.get_visible_graphemes(value_start, value_end);
        message.append(visible.as_str());
        if message.as_str().len() <= width {
            message
        } else {
            String::new()
        }
    }
}

impl UIComponent for CommandBar {
    open spec fn ui_rect(&self) -> Rect {
        self.area()
    }

    open spec fn ui_redraw(&self) -> bool {
        self.redraw_needed()
    }

    fn mark_redraw(&mut self, value: bool)
        ensures
            final(self).redraw_needed() == value,
            final(self).prompt_text() == old(self).prompt_text(),
            final(self).value_text() == old(self).value_text(),
            final(self).area() == old(self).area(),
    {
        self.needs_redraw = value;
    }

    fn needs_redraw(&self) -> (b: bool)
        ensures
            b == self.redraw_needed(),
    {
        self.needs_redraw
    }

    fn set_size(&mut self, rect: Rect)
        ensures
            final(self).area() == rect,
            final(self).redraw_needed() == old(self).redraw_needed(),
            final(self).prompt_text() == old(self).prompt_text(),
            final(self).value_text() == old(self).value_text(),
    {
        self.rect = rect;
    }

    fn rect(&self) -> (r: Rect)
        ensures
            r == self.area(),
    {
        self.rect
    }
}

} // verus!
