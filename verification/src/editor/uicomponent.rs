use crate::prelude::Rect;
use vstd::prelude::*;

verus! {

/// A component that occupies an area of the screen and remembers whether it
/// must be drawn again.
pub trait UIComponent {
    /// The area the component occupies.
    spec fn ui_rect(&self) -> Rect;

    /// Whether the component must be drawn again.
    spec fn ui_redraw(&self) -> bool;

    /// Marks the component as in need of drawing (or not).
    fn mark_redraw(&mut self, value: bool)
        ensures
            final(self).ui_redraw() == value,
            final(self).ui_rect() == old(self).ui_rect(),
    ;

    /// Whether the component must be drawn again.
    fn needs_redraw(&self) -> (b: bool)
        ensures
            b == self.ui_redraw(),
    ;

    /// Moves the component to `rect` and marks it for drawing.
    fn resize(&mut self, rect: Rect)
        ensures
            final(self).ui_rect() == rect,
            final(self).ui_redraw(),
    {
        self.set_size(rect);
        self.mark_redraw(true);
    }

    /// Moves the component to `rect`.
    fn set_size(&mut self, rect: Rect)
        ensures
            final(self).ui_rect() == rect,
    ;

    /// The area the component occupies.
    fn rect(&self) -> (r: Rect)
        ensures
            r == self.ui_rect(),
    ;
}

} // verus!
