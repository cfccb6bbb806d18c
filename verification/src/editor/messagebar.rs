//! The bar at the bottom of the screen that shows the latest message.
use crate::editor::uicomponent::UIComponent;
use crate::prelude::Rect;
use vstd::prelude::*;
use vstd::string::StringExecFns;

verus! {

/// The latest message for the user.
#[derive(Debug)]
pub struct MessageBar {
    pub message: String,
    pub needs_redraw: bool,
    pub rect: Rect,
}

impl Default for MessageBar {
    fn default() -> (r: Self)
        ensures
            r.message@ == Seq::<char>::empty(),
            !r.needs_redraw,
            r.rect == Rect::default_spec(),
    {
        MessageBar { message: String::new(), needs_redraw: false, rect: Rect::default() }
    }
}

impl MessageBar {
    /// Shows `new_message`; the bar is marked for drawing.
    pub fn update_message(&mut self, new_message: &str)
        ensures
            final(self).message@ == new_message@,
            final(self).needs_redraw,
            final(self).rect == old(self).rect,
    {
        self.message = String::from_str(new_message);
        self.needs_redraw = true;
    }
}

impl UIComponent for MessageBar {
    open spec fn ui_rect(&self) -> Rect {
        self.rect
    }

    open spec fn ui_redraw(&self) -> bool {
        self.needs_redraw
    }

    fn mark_redraw(&mut self, value: bool)
        ensures
            final(self).needs_redraw == value,
            final(self).message@ == old(self).message@,
            final(self).rect == old(self).rect,
    {
        self.needs_redraw = value;
    }

    fn needs_redraw(&self) -> (b: bool)
        ensures
            b == self.needs_redraw,
    {
        self.needs_redraw
    }

    fn set_size(&mut self, rect: Rect)
        ensures
            final(self).rect == rect,
            final(self).needs_redraw == old(self).needs_redraw,
            final(self).message@ == old(self).message@,
    {
        self.rect = rect;
    }

    fn rect(&self) -> (r: Rect)
        ensures
            r == self.rect,
    {
        self.rect
    }
}

} // verus!
