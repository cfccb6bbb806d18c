//! The bar that shows the status of the document in the active view.
use crate::editor::documentstatus::{file_type_name, DocumentStatus};
use crate::editor::fileexplorer::{push_repeat, repeat};
use crate::editor::uicomponent::UIComponent;
use crate::prelude::Rect;
use vstd::prelude::*;
use vstd::string::StringExecFns;

verus! {

/// The status shown, and where.
#[derive(Debug)]
pub struct StatusBar {
    pub current_status: DocumentStatus,
    pub needs_redraw: bool,
    pub rect: Rect,
}

impl Default for StatusBar {
    fn default() -> (r: Self)
        ensures
            r.current_status.total_lines == 0,
            r.current_status.current_line_idx == 0,
            !r.current_status.is_modified,
            r.current_status.file_name@ == Seq::<char>::empty(),
            !r.needs_redraw,
            r.rect == Rect::default_spec(),
    {
        StatusBar { current_status: DocumentStatus::default(), needs_redraw: false, rect: Rect::default() }
    }
}

/// The front of the status line: the file name, the line count and the
/// mark of changes, as in `notes.txt - 12 lines (modified)`.
pub open spec fn status_front(s: DocumentStatus) -> Seq<char> {
    s.file_name@ + " - "@ + s.line_count_text() + " "@ + s.modified_text()
}

/// The back of the status line: the file type and the caret's line, as in
/// `Text | 3/12`.
pub open spec fn status_back(s: DocumentStatus) -> Seq<char> {
    file_type_name(s.file_type) + " | "@ + s.position_text()
}

/// `front`, then `back` pushed to the right end of a row `width` columns
/// wide; nothing when the two do not fit.
pub open spec fn status_line(front: Seq<char>, back: Seq<char>, width: int) -> Seq<char> {
    let room = if front.len() < width {
        width - front.len()
    } else {
        0
    };
    let pad = if back.len() < room {
        room - back.len()
    } else {
        0
    };
    let line = front + repeat(' ', pad) + back;
    if line.len() <= width {
        line
    } else {
        Seq::empty()
    }
}

impl StatusBar {
    /// The row the bar shows: the front of the status on the left and its
    /// back on the right, or nothing when the row is too narrow for both.
    pub fn status_text(&self) -> (r: String)
        ensures
            r@ == status_line(
                status_front(self.current_status),
                status_back(self.current_status),
                self.rect.size.width as int,
            ),
    {
        let st = &self.current_status;
        let mut front = st.file_name.clone();
        front.append(" - ");
        let count = st.line_count_to_string();
        front.append(count.as_str());
        front.append(" ");
        let modified = st.modified_indicator_to_string();
        front.append(modified.as_str());
        let mut back = st.file_type_to_string();
        back.append(" | ");
        let position = st.position_indicator_to_string();
        back.append(position.as_str());
        let width = self.rect.size.width;
        let front_len = front.as_str().unicode_len();
        let back_len = back.as_str().unicode_len();
        let room = if front_len < width {
            width - front_len
        } else {
            0
        };
        let pad = if back_len < room {
            room - back_len
        } else {
            0
        };
        let mut line = front;
        push_repeat(&mut line, ' ', pad);
        line.append(back.as_str());
        let line_len = line.as_str().unicode_len();
        if line_len <= width {
            line
        } else {
            String::new()
        }
    }

    /// Shows `new_status`; the bar is marked for drawing when the status
    /// changed.
    pub fn update_status(&mut self, new_status: DocumentStatus)
        ensures
            old(self).current_status.same_as(&new_status) ==> final(self).current_status
                == old(self).current_status && final(self).needs_redraw == old(self).needs_redraw,
            !old(self).current_status.same_as(&new_status) ==> final(self).current_status
                == new_status && final(self).needs_redraw,
            final(self).rect == old(self).rect,
    {
        if !new_status.equals(&self.current_status) {
            self.current_status = new_status;
            self.needs_redraw = true;
        }
    }
}

impl UIComponent for StatusBar {
    open spec fn ui_rect(&self) -> Rect {
        self.rect
    }

    open spec fn ui_redraw(&self) -> bool {
        self.needs_redraw
    }

    fn mark_redraw(&mut self, value: bool)
        ensures
            final(self).needs_redraw == value,
            final(self).current_status == old(self).current_status,
            final(self).rect == old(self).rect,
    {
        self.needs_redraw = value;
    }

    fn needs_redraw(&self) -> (b: bool)
        ensures
            b == self.needs_redraw,
    {
        self.needs_redraw
    }

    fn set_size(&mut self, rect: Rect)
        ensures
            final(self).rect == rect,
            final(self).needs_redraw == old(self).needs_redraw,
            final(self).current_status == old(self).current_status,
    {
        self.rect = rect;
    }

    fn rect(&self) -> (r: Rect)
        ensures
            r == self.rect,
    {
        self.rect
    }
}

} // verus!
