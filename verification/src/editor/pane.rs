//! A pane: one rectangle of the screen showing a view of a buffer or a
//! plugin's component, tiled in the layout tree or floating above it.
use crate::editor::border::{border_fits, border_lines, border_prints, printed};
use crate::editor::annotatedstring::AnnotatedString;
use crate::editor::buffermanager::BufferManager;
use crate::editor::command::Move;
use crate::editor::fileexplorer::{add_sat, push_repeat, repeat, FileEntry};
use crate::editor::textfmt::{decimal, push_decimal};
use crate::editor::uicomponent::UIComponent;
use crate::editor::view::{content_drawn, View};
use crate::prelude::{Position, Rect, Size};
use vstd::prelude::*;
use vstd::string::StringExecFns;
use vstd::utf8::encode_utf8;
use vstd::view::View as _;

verus! {

/// What a mouse click on a plugin component resolved to.
#[derive(Clone, Copy, Debug, PartialEq, Eq, Structural)]
pub enum ClickAction {
    /// The close `[x]` button was clicked.
    Close,
    /// The minimize `[-]` button was clicked.
    Minimize,
    /// An ordinary click inside the content.
    Content,
}

/// A component that a plugin puts in a pane: it is drawn in a rectangle and
/// handles keyboard navigation and mouse clicks.
pub trait PluginComponent: Send {
    /// The rectangle the component is drawn in.
    spec fn shown_rect(&self) -> Rect;

    /// Whether the component needs drawing.
    spec fn drawing_needed(&self) -> bool;

    /// Whether the component has the focus.
    spec fn has_focus(&self) -> bool;

    /// The position of the selection in the component.
    spec fn selection(&self) -> int;

    /// Where arrow-key navigation in `direction` takes the selection.
    spec fn selection_after(&self, direction: Move) -> int;

    /// The path that Enter leads to from the selection, if any.
    spec fn select_target(&self) -> Option<Seq<char>>;

    /// What a mouse click at `position` resolves to.
    spec fn click_result(&self, position: Position) -> ClickAction;

    /// Where a mouse click at `position` takes the selection.
    spec fn selection_after_click(&self, position: Position) -> int;

    /// The directory the component shows.
    spec fn shown_dir(&self) -> Seq<char>;

    /// The text of each row of the component's rectangle, top to bottom.
    spec fn row_texts(&self) -> Seq<Seq<char>>;

    /// Marks the component as in need of drawing, or not.
    fn mark_redraw(&mut self, value: bool)
        ensures
            final(self).drawing_needed() == value,
            final(self).shown_rect() == old(self).shown_rect(),
            final(self).selection() == old(self).selection(),
    ;

    /// Whether the component needs drawing.
    fn needs_redraw(&self) -> (b: bool)
        ensures
            b == self.drawing_needed(),
    ;

    /// Sets the rectangle the component is drawn in.
    fn set_size(&mut self, rect: Rect)
        ensures
            final(self).shown_rect() == rect,
            final(self).selection() == old(self).selection(),
    ;

    /// The rectangle the component is drawn in.
    fn rect(&self) -> (r: Rect)
        ensures
            r == self.shown_rect(),
    ;

    /// Marks the component as having the focus, or not.
    fn set_active(&mut self, active: bool)
        ensures
            final(self).has_focus() == active,
            final(self).shown_rect() == old(self).shown_rect(),
            final(self).selection() == old(self).selection(),
    ;

    /// Arrow-key navigation inside the component.
    fn handle_move(&mut self, direction: Move)
        ensures
            final(self).selection() == old(self).selection_after(direction),
            final(self).shown_rect() == old(self).shown_rect(),
    ;

    /// Enter: the path the selection leads to, if any. The caller opens it
    /// when it is a file, or lists it and hands the listing to
    /// [`PluginComponent::enter_directory`] when it is a directory.
    fn handle_select(&mut self) -> (r: Option<String>)
        ensures
            match r {
                Some(p) => old(self).select_target() == Some(p@),
                None => old(self).select_target() is None,
            },
            final(self).selection() == old(self).selection(),
            final(self).shown_rect() == old(self).shown_rect(),
    ;

    /// Shows the directory `path`, whose entries are `listing`.
    fn enter_directory(&mut self, path: String, listing: Vec<FileEntry>)
        ensures
            final(self).shown_dir() == path@,
            final(self).selection() == 0,
            final(self).shown_rect() == old(self).shown_rect(),
    ;

    /// A mouse click at `position`, and what it resolved to.
    fn handle_click(&mut self, position: Position) -> (r: ClickAction)
        ensures
            r == old(self).click_result(position),
            final(self).selection() == old(self).selection_after_click(position),
            final(self).shown_rect() == old(self).shown_rect(),
    ;

    /// The text of each row of the component's rectangle, top to bottom.
    fn rows(&self) -> (r: Vec<String>)
        ensures
            r@.map_values(|t: String| t@) == self.row_texts(),
    ;
}

/// What a pane shows.
pub enum PaneContent {
    /// A view of a buffer.
    TextView(View),
    /// A component of a plugin.
    Plugin(Box<dyn PluginComponent>),
    /// A temporary component shown above the others.
    Popup(Box<dyn PluginComponent>),
}

/// A rectangle of the screen with what it shows.
pub struct Pane {
    pub pane_id: usize,
    pub content: PaneContent,
    pub active: bool,
    pub is_floating: bool,
    pub z_index: usize,
    pub is_minimized: bool,
    pub rect: Rect,
}

/// `a - b`, stopping at zero.
pub open spec fn sat_sub(a: int, b: int) -> int {
    if a < b {
        0
    } else {
        a - b
    }
}

impl Pane {
    /// The column where the close button `[x]` starts on the top border.
    pub open spec fn close_col(self) -> int {
        self.rect.position.col + sat_sub(self.rect.size.width as int, 4)
    }

    /// The column where the minimize button `[-]` starts on the top border.
    pub open spec fn min_col(self) -> int {
        self.rect.position.col + sat_sub(self.rect.size.width as int, 7)
    }

    /// Whether `pos` is on the three cells of a button starting at `col` on
    /// the top border.
    pub open spec fn on_button(self, col: int, pos: Position) -> bool {
        pos.row == self.rect.position.row && col <= pos.col < col + 3
    }

    /// The view shown, if the pane shows one.
    pub fn view(&self) -> (r: Option<&View>)
        ensures
            match self.content {
                PaneContent::TextView(v) => r == Some(&v),
                _ => r is None,
            },
    {
        match &self.content {
            PaneContent::TextView(v) => Some(v),
            _ => None,
        }
    }

    /// The view shown, to change, if the pane shows one.
    pub fn view_mut(&mut self) -> (r: Option<&mut View>)
        ensures
            match old(self).content {
                PaneContent::TextView(v) => r is Some && *r->0 == v && final(self).content
                    == PaneContent::TextView(*final(r->0)),
                _ => r is None && final(self).content == old(self).content,
            },
            final(self).pane_id == old(self).pane_id,
            final(self).active == old(self).active,
            final(self).is_floating == old(self).is_floating,
            final(self).z_index == old(self).z_index,
            final(self).is_minimized == old(self).is_minimized,
            final(self).rect == old(self).rect,
    {
        match &mut self.content {
            PaneContent::TextView(v) => Some(v),
            _ => None,
        }
    }

    /// The rectangle the content is drawn in.
    pub fn component_rect(&self) -> (r: Rect)
        ensures
            self.content matches PaneContent::TextView(v) ==> r == v.rect,
    {
        match &self.content {
            PaneContent::TextView(v) => v.rect(),
            PaneContent::Plugin(c) => c.rect(),
            PaneContent::Popup(c) => c.rect(),
        }
    }

    /// Passes the focus state on to the content.
    pub fn set_content_active(&mut self, active: bool)
        ensures
            old(self).content is TextView ==> final(self).content is TextView,
            old(self).content is TextView ==> {
                let v = old(self).content->TextView_0;
                let w = final(self).content->TextView_0;
                &&& w.is_active == active
                &&& w.buffer_id == v.buffer_id
                &&& w.text_location == v.text_location
                &&& w.rect == v.rect
                &&& (v.is_active != active ==> w.needs_redraw)
                &&& (v.is_active == active ==> w.needs_redraw == v.needs_redraw)
            },
            !(old(self).content is TextView) ==> !(final(self).content is TextView),
            old(self).content matches PaneContent::Plugin(c) ==> (final(self).content matches PaneContent::Plugin(d)
                && d.has_focus() == active && d.shown_rect() == c.shown_rect()
                && d.selection() == c.selection()),
            old(self).content matches PaneContent::Popup(c) ==> (final(self).content matches PaneContent::Popup(d)
                && d.has_focus() == active && d.shown_rect() == c.shown_rect()
                && d.selection() == c.selection()),
            final(self).pane_id == old(self).pane_id,
            final(self).active == old(self).active,
            final(self).is_floating == old(self).is_floating,
            final(self).z_index == old(self).z_index,
            final(self).is_minimized == old(self).is_minimized,
            final(self).rect == old(self).rect,
    {
        match &mut self.content {
            PaneContent::TextView(view) => {
                view.set_active(active);
            },
            PaneContent::Plugin(component) => {
                component.set_active(active);
            },
            PaneContent::Popup(popup) => {
                popup.set_active(active);
            },
        }
    }

    /// Passes an arrow key on to a plugin's component; a view ignores it.
    pub fn plugin_handle_move(&mut self, direction: Move)
        ensures
            old(self).content is TextView ==> final(self).content == old(self).content,
            !(old(self).content is TextView) ==> !(final(self).content is TextView),
            old(self).content matches PaneContent::Plugin(c) ==> (final(self).content matches PaneContent::Plugin(d)
                && d.selection() == c.selection_after(direction) && d.shown_rect() == c.shown_rect()),
            old(self).content matches PaneContent::Popup(c) ==> (final(self).content matches PaneContent::Popup(d)
                && d.selection() == c.selection_after(direction) && d.shown_rect() == c.shown_rect()),
            final(self).pane_id == old(self).pane_id,
            final(self).active == old(self).active,
            final(self).is_floating == old(self).is_floating,
            final(self).z_index == old(self).z_index,
            final(self).is_minimized == old(self).is_minimized,
            final(self).rect == old(self).rect,
    {
        match &mut self.content {
            PaneContent::Plugin(c) => c.handle_move(direction),
            PaneContent::Popup(c) => c.handle_move(direction),
            PaneContent::TextView(_) => {},
        }
    }

    /// Passes Enter on to a plugin's component: the file it selected, if
    /// any; a view selects nothing.
    pub fn plugin_handle_select(&mut self) -> (r: Option<String>)
        ensures
            old(self).content is TextView ==> r is None && final(self).content == old(self).content,
            old(self).content matches PaneContent::Plugin(c) ==> (match r {
                Some(p) => c.select_target() == Some(p@),
                None => c.select_target() is None,
            }) && (final(self).content matches PaneContent::Plugin(d) && d.selection() == c.selection()
                && d.shown_rect() == c.shown_rect()),
            old(self).content matches PaneContent::Popup(c) ==> (match r {
                Some(p) => c.select_target() == Some(p@),
                None => c.select_target() is None,
            }) && (final(self).content matches PaneContent::Popup(d) && d.selection() == c.selection()
                && d.shown_rect() == c.shown_rect()),
            !(old(self).content is TextView) ==> !(final(self).content is TextView),
            final(self).pane_id == old(self).pane_id,
            final(self).active == old(self).active,
            final(self).is_floating == old(self).is_floating,
            final(self).z_index == old(self).z_index,
            final(self).is_minimized == old(self).is_minimized,
            final(self).rect == old(self).rect,
    {
        match &mut self.content {
            PaneContent::Plugin(c) => c.handle_select(),
            PaneContent::Popup(c) => c.handle_select(),
            PaneContent::TextView(_) => None,
        }
    }

    /// Passes a mouse click on to a plugin's component; on a view it is an
    /// ordinary click.
    pub fn plugin_handle_click(&mut self, position: Position) -> (r: ClickAction)
        ensures
            old(self).content is TextView ==> r == ClickAction::Content && final(self).content
                == old(self).content,
            old(self).content matches PaneContent::Plugin(c) ==> r == c.click_result(position)
                && (final(self).content matches PaneContent::Plugin(d) && d.selection()
                == c.selection_after_click(position) && d.shown_rect() == c.shown_rect()),
            old(self).content matches PaneContent::Popup(c) ==> r == c.click_result(position)
                && (final(self).content matches PaneContent::Popup(d) && d.selection()
                == c.selection_after_click(position) && d.shown_rect() == c.shown_rect()),
            !(old(self).content is TextView) ==> !(final(self).content is TextView),
            final(self).pane_id == old(self).pane_id,
            final(self).active == old(self).active,
            final(self).is_floating == old(self).is_floating,
            final(self).z_index == old(self).z_index,
            final(self).is_minimized == old(self).is_minimized,
            final(self).rect == old(self).rect,
    {
        match &mut self.content {
            PaneContent::Plugin(c) => c.handle_click(position),
            PaneContent::Popup(c) => c.handle_click(position),
            PaneContent::TextView(_) => ClickAction::Content,
        }
    }

    /// The column where the close button `[x]` starts on the top border.
    pub fn close_button_col(&self) -> (c: usize)
        requires
            self.close_col() <= usize::MAX,
        ensures
            c == self.close_col(),
    {
        self.rect.position.col + self.rect.size.width.saturating_sub(4)
    }

    /// The column where the minimize button `[-]` starts on the top border.
    pub fn min_button_col(&self) -> (c: usize)
        requires
            self.min_col() <= usize::MAX,
        ensures
            c == self.min_col(),
    {
        self.rect.position.col + self.rect.size.width.saturating_sub(7)
    }

    /// Whether `pos` is on the close button.
    pub fn is_on_close_button(&self, pos: Position) -> (b: bool)
        ensures
            b == self.on_button(self.close_col(), pos),
    {
        let offset = self.rect.size.width.saturating_sub(4);
        pos.row == self.rect.position.row && pos.col >= self.rect.position.col && pos.col
            - self.rect.position.col >= offset && pos.col - self.rect.position.col - offset < 3
    }

    /// Whether `pos` is on the minimize button.
    pub fn is_on_min_button(&self, pos: Position) -> (b: bool)
        ensures
            b == self.on_button(self.min_col(), pos),
    {
        let offset = self.rect.size.width.saturating_sub(7);
        pos.row == self.rect.position.row && pos.col >= self.rect.position.col && pos.col
            - self.rect.position.col >= offset && pos.col - self.rect.position.col - offset < 3
    }

    /// Whether `pos` is on the pane's top row.
    pub fn is_on_title_bar(&self, pos: Position) -> (b: bool)
        ensures
            b == (pos.row == self.rect.position.row && self.rect.position.col <= pos.col
                < self.rect.position.col + self.rect.size.width),
    {
        pos.row == self.rect.position.row && pos.col >= self.rect.position.col && pos.col
            - self.rect.position.col < self.rect.size.width
    }

    /// Moves and sizes the pane and its content to `rect`.
    pub fn resize(&mut self, rect: Rect)
        ensures
            final(self).rect == rect,
            old(self).content is TextView ==> final(self).content is TextView,
            old(self).content is TextView ==> {
                let v = old(self).content->TextView_0;
                let w = final(self).content->TextView_0;
                &&& w.rect == rect
                &&& w.needs_redraw == v.needs_redraw
                &&& w.text_location == v.text_location
                &&& w.buffer_id == v.buffer_id
                &&& w.is_active == v.is_active
            },
            !(old(self).content is TextView) ==> !(final(self).content is TextView),
            old(self).content matches PaneContent::Plugin(c) ==> (final(self).content matches PaneContent::Plugin(d)
                && d.shown_rect() == rect && d.selection() == c.selection()),
            old(self).content matches PaneContent::Popup(c) ==> (final(self).content matches PaneContent::Popup(d)
                && d.shown_rect() == rect && d.selection() == c.selection()),
            final(self).pane_id == old(self).pane_id,
            final(self).active == old(self).active,
            final(self).is_floating == old(self).is_floating,
            final(self).z_index == old(self).z_index,
            final(self).is_minimized == old(self).is_minimized,
    {
        self.rect = rect;
        match &mut self.content {
            PaneContent::TextView(v) => v.set_size(rect),
            PaneContent::Plugin(c) => c.set_size(rect),
            PaneContent::Popup(c) => c.set_size(rect),
        }
    }
}

/// The title on the top border of pane `p`: its id, `Plugin` before it for
/// a plugin's component, and a `*` when it has the focus.
pub open spec fn title_of(p: Pane) -> Seq<char> {
    (if p.content is TextView {
        "─ ["@
    } else {
        "─ [Plugin "@
    }) + decimal(p.pane_id as nat) + (if p.active {
        "]* "@
    } else {
        "]  "@
    })
}

/// The top border of a minimized pane `p`: the corner and the title, a
/// line filling the width less the bytes of those (less the buttons and
/// the corner), then the buttons and the corner.
pub open spec fn minimized_line(p: Pane) -> Seq<char> {
    let title_part = seq!['┌'] + title_of(p);
    let fill = sat_sub(
        sat_sub(
            sat_sub(p.rect.size.width as int, (encode_utf8(title_part).len() as usize) as int),
            6,
        ),
        1,
    );
    title_part + repeat('─', fill) + "[-][x]"@ + seq!['┐']
}

impl Pane {
    /// The title on the top border (see [`title_of`]).
    pub fn title_text(&self) -> (s: String)
        ensures
            s@ == title_of(*self),
    {
        let mut s = match &self.content {
            PaneContent::TextView(_) => String::from_str("─ ["),
            _ => String::from_str("─ [Plugin "),
        };
        push_decimal(&mut s, self.pane_id);
        if self.active {
            s.append("]* ");
        } else {
            s.append("]  ");
        }
        s
    }

    /// The top border drawn for the pane when it is minimized (see
    /// [`minimized_line`]); none when the pane is less than two columns wide.
    pub fn minimized_top_line(&self) -> (r: Option<String>)
        ensures
            self.rect.size.width < 2 ==> r is None,
            self.rect.size.width >= 2 ==> r is Some && r->0@ == minimized_line(*self),
    {
        let width = self.rect.size.width;
        if width < 2 {
            return None;
        }
        let mut title_part = String::from_str("┌");
        let title = self.title_text();
        title_part.append(title.as_str());
        proof {
            reveal_strlit("┌");
            assert(title_part@ =~= seq!['┌'] + title_of(*self));
        }
        let fill = width.saturating_sub(title_part.as_str().len()).saturating_sub(6).saturating_sub(1);
        let mut line = title_part;
        push_repeat(&mut line, '─', fill);
        line.append("[-][x]");
        line.append("┐");
        proof {
            reveal_strlit("┐");
            assert(fill == sat_sub(sat_sub(sat_sub(width as int, (encode_utf8(title_part@).len() as usize) as int), 6), 1));
            assert(line@ =~= minimized_line(*self));
        }
        Some(line)
    }
}

/// The rectangle inside the border of `rect`: one cell in from each side.
pub open spec fn inner_rect(rect: Rect) -> Rect {
    Rect {
        position: Position {
            row: add_sat(rect.position.row as int, 1) as usize,
            col: add_sat(rect.position.col as int, 1) as usize,
        },
        size: Size {
            height: sat_sub(rect.size.height as int, 2) as usize,
            width: sat_sub(rect.size.width as int, 2) as usize,
        },
    }
}

/// The rows below the top row of `rect`, each cleared with blanks the
/// width of `rect`.
pub open spec fn blank_rows(rect: Rect) -> Seq<(Position, Seq<char>)> {
    let first = add_sat(rect.position.row as int, 1);
    let end = add_sat(rect.position.row as int, rect.size.height as int);
    Seq::new(
        sat_sub(end, first) as nat,
        |i: int|
            (
                Position { row: (first + i) as usize, col: rect.position.col },
                repeat(' ', rect.size.width as int),
            ),
    )
}

/// Whether pane `p` shows a view that asks to be drawn, of a buffer that
/// `buffers` holds.
pub open spec fn view_drawn(p: Pane, buffers: Map<usize, crate::editor::buffer::Buffer>) -> bool {
    p.content matches PaneContent::TextView(v) && v.needs_redraw && buffers.contains_key(
        v.buffer_id,
    )
}

/// What drawing pane `p` prints around its content, in order. A minimized
/// pane shows only its top line (when two columns fit) and blank rows. A
/// view that is drawn gets the border, its title one column in on the top
/// row and, from ten columns on, the buttons. Anything else prints nothing
/// here.
pub open spec fn frame_prints(p: Pane, buffers: Map<usize, crate::editor::buffer::Buffer>) -> Seq<
    (Position, Seq<char>),
> {
    if p.is_minimized {
        (if p.rect.size.width >= 2 {
            seq![(p.rect.position, minimized_line(p))]
        } else {
            Seq::empty()
        }) + blank_rows(p.rect)
    } else if view_drawn(p, buffers) {
        let title = (
            Position {
                row: p.rect.position.row,
                col: add_sat(p.rect.position.col as int, 1) as usize,
            },
            title_of(p),
        );
        let buttons = (Position { row: p.rect.position.row, col: p.min_col() as usize }, "[-][x]"@);
        border_prints(p.rect) + seq![title] + (if p.rect.size.width >= 10 {
            seq![buttons]
        } else {
            Seq::empty()
        })
    } else {
        Seq::empty()
    }
}

impl Pane {
    /// The rectangle inside the pane's border (see [`inner_rect`]).
    pub fn inner_rect(&self) -> (r: Rect)
        ensures
            r == inner_rect(self.rect),
    {
        Rect {
            position: Position {
                row: self.rect.position.row.saturating_add(1),
                col: self.rect.position.col.saturating_add(1),
            },
            size: Size {
                height: self.rect.size.height.saturating_sub(2),
                width: self.rect.size.width.saturating_sub(2),
            },
        }
    }

    /// What drawing the pane prints around its content, and where (see
    /// [`frame_prints`]). The content of a view that is drawn goes in
    /// [`inner_rect`].
    pub fn frame_prints(&self, buffers: &BufferManager) -> (r: Vec<(Position, String)>)
        requires
            self.min_col() <= usize::MAX,
            !self.is_minimized && view_drawn(*self, buffers.buffers()) ==> border_fits(self.rect),
        ensures
            printed(r@) == frame_prints(*self, buffers.buffers()),
    {
        let rect = self.rect;
        let mut r: Vec<(Position, String)> = Vec::new();
        if self.is_minimized {
            match self.minimized_top_line() {
                Some(line) => r.push((rect.position, line)),
                None => {},
            }
            let first = rect.position.row.saturating_add(1);
            let end = rect.position.row.saturating_add(rect.size.height);
            let ghost head = printed(r@);
            let mut row = first;
            while row < end
                invariant
                    first <= row,
                    row <= end || row == first,
                    first == add_sat(rect.position.row as int, 1),
                    end == add_sat(rect.position.row as int, rect.size.height as int),
                    printed(r@) == head + blank_rows(rect).take(row - first),
                decreases end - row,
            {
                let mut blank = String::new();
                push_repeat(&mut blank, ' ', rect.size.width);
                let ghost before = r@;
                r.push((Position { row, col: rect.position.col }, blank));
                proof {
                    assert(printed(r@) =~= printed(before).push((Position { row, col: rect.position.col }, repeat(' ', rect.size.width as int))));
                    assert(blank_rows(rect).take(row + 1 - first) =~= blank_rows(rect).take(row - first).push(blank_rows(rect)[row - first]));
                }
                row = row + 1;
            }
            proof {
                assert(blank_rows(rect).take(sat_sub(end as int, first as int)) =~= blank_rows(rect));
                if !(first < end) {
                    assert(blank_rows(rect) =~= Seq::<(Position, Seq<char>)>::empty());
                    assert(blank_rows(rect).take(row - first) =~= Seq::<(Position, Seq<char>)>::empty());
                }
                reveal_strlit("[-][x]");
            }
            assert(printed(r@) =~= frame_prints(*self, buffers.buffers()));
            return r;
        }
        let drawn = match &self.content {
            PaneContent::TextView(v) => v.needs_redraw && buffers.get(v.buffer_id).is_some(),
            _ => false,
        };
        if !drawn {
            assert(printed(r@) =~= frame_prints(*self, buffers.buffers()));
            return r;
        }
        let mut border = border_lines(rect);
        proof {
            assert(printed(border@) =~= border_prints(rect));
        }
        r.append(&mut border);
        let title = self.title_text();
        r.push((Position { row: rect.position.row, col: rect.position.col.saturating_add(1) }, title));
        if rect.size.width >= 10 {
            r.push((Position { row: rect.position.row, col: self.min_button_col() }, String::from_str("[-][x]")));
        }
        assert(printed(r@) =~= frame_prints(*self, buffers.buffers()));
        r
    }
}

impl Pane {
    /// The rows to draw for the view of the pane when it is drawn (see
    /// [`view_drawn`]) and the pane is not minimized: the rows of its content
    /// in [`inner_rect`] (see `View::draw_content_with_buffer`). None
    /// otherwise. Once they are written, [`Pane::mark_view_drawn`] records it.
    pub fn draw_view_rows(&self, buffers: &BufferManager) -> (r: Option<Vec<AnnotatedString>>)
        ensures
            !self.is_minimized && view_drawn(*self, buffers.buffers()) ==> {
                let v = self.content->TextView_0;
                &&& r is Some
                &&& content_drawn(
                    v,
                    buffers.buffers()[v.buffer_id].text(),
                    inner_rect(self.rect),
                    r->0@,
                )
            },
            !(!self.is_minimized && view_drawn(*self, buffers.buffers())) ==> r is None,
    {
        if self.is_minimized {
            return None;
        }
        let inner = self.inner_rect();
        match &self.content {
            PaneContent::TextView(v) => {
                if !v.needs_redraw {
                    return None;
                }
                match buffers.get(v.buffer_id) {
                    Some(b) => Some(v.draw_content_with_buffer(inner, b)),
                    None => None,
                }
            },
            _ => None,
        }
    }

    /// Records that the view of the pane was drawn: it no longer needs
    /// drawing. A pane showing a component is unchanged.
    pub fn mark_view_drawn(&mut self)
        ensures
            old(self).content matches PaneContent::TextView(v) ==> final(self).content
                == PaneContent::TextView(View { needs_redraw: false, ..v }),
            !(old(self).content is TextView) ==> final(self).content == old(self).content,
            final(self).pane_id == old(self).pane_id,
            final(self).active == old(self).active,
            final(self).is_floating == old(self).is_floating,
            final(self).z_index == old(self).z_index,
            final(self).is_minimized == old(self).is_minimized,
            final(self).rect == old(self).rect,
    {
        match &mut self.content {
            PaneContent::TextView(v) => {
                v.needs_redraw = false;
            },
            _ => {},
        }
    }
}

} // verus!
