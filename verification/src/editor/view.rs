use crate::editor::buffer::{
    Buffer, deletes_grapheme, deletes_line_break, search_backward_result, search_forward_result,
    text_delete, text_insert_char, text_insert_newline,
};
use crate::editor::command::{Edit, Move};
use crate::editor::documentstatus::DocumentStatus;
use crate::editor::fileinfo::display_name_of;
use crate::editor::annotatedstring::AnnotatedString;
use crate::editor::annotation::Annotation;
use crate::editor::highlight::{match_annotations, match_annotations_of};
use crate::editor::line::{
    line_delete, line_insert, split_head, split_tail, visible_annotations, visible_range, Line,
};
use crate::editor::uicomponent::UIComponent;
use crate::prelude::{ColIdx, Location, Position, Rect, RowIdx, Size, NAME, VERSION};
use std::time::Instant;
use vstd::prelude::*;
use vstd::view::View as _;

verus! {

#[verifier::external_type_specification]
#[verifier::external_body]
pub struct ExInstant(std::time::Instant);

/// `Instant::now`: the current time. Nothing is claimed of it.
#[verifier::external_body]
fn now() -> Instant {
    Instant::now()
}

/// `Instant::duration_since` then `Duration::as_millis`: the milliseconds
/// from `earlier` to `later`. The result depends on the clock, so nothing is
/// claimed of it.
#[verifier::external_body]
fn millis_between(earlier: &Instant, later: &Instant) -> u128 {
    later.duration_since(*earlier).as_millis()
}

/// How long a pause between keystrokes ends a group of inserts, in milliseconds.
pub const GROUP_TIMEOUT_MS: u128 = 800;

/// One change to a buffer, as recorded for undo and redo.
#[derive(Clone, Debug, PartialEq, Eq)]
pub enum EditOperation {
    InsertChar { at: Location, text: char },
    DeleteChar { at: Location, text: char },
    InsertNewLine { at: Location, grapheme_count_at_split: usize },
    DeleteNewLine { line_idx: usize, split_at_grapheme: usize },
    InsertGroup { start: Location, chars: Vec<char> },
}

impl EditOperation {
    /// The record of deleting `text` at `at`.
    fn delete_char(at: Location, text: char) -> (r: Self)
        ensures
            r == (EditOperation::DeleteChar { at, text }),
    {
        EditOperation::DeleteChar { at, text }
    }
}

/// The direction of a search.
#[derive(Clone, Copy, Debug, PartialEq, Eq, Structural)]
pub enum SearchDirection {
    Forward,
    Backward,
}

/// What a view remembers while a search is under way.
#[derive(Clone, Debug)]
pub struct SearchInfo {
    pub prev_location: Location,
    pub prev_scroll_offset: Position,
    pub query: Option<Line>,
}

// Geometry of text locations

/// The number of graphemes of line `l`; zero past the last line.
pub open spec fn line_len(text: Seq<Seq<char>>, l: int) -> int {
    if 0 <= l < text.len() {
        text[l].len() as int
    } else {
        0
    }
}

/// A location the caret may rest at: on a line or just past the last one,
/// and at most at the end of its line.
pub open spec fn valid_location(text: Seq<Seq<char>>, loc: Location) -> bool {
    loc.line_idx <= text.len() && loc.grapheme_idx <= line_len(text, loc.line_idx as int)
}

/// `a + b`, stopping at `usize::MAX`.
pub open spec fn sadd(a: int, b: int) -> int {
    if a + b > usize::MAX {
        usize::MAX as int
    } else {
        a + b
    }
}

/// `a - b`, stopping at zero.
pub open spec fn ssub(a: int, b: int) -> int {
    if a - b < 0 {
        0
    } else {
        a - b
    }
}

pub open spec fn loc(g: int, l: int) -> Location {
    Location { grapheme_idx: g as usize, line_idx: l as usize }
}

/// The location with its grapheme index pulled back to the end of its line.
pub open spec fn snap_grapheme(text: Seq<Seq<char>>, at: Location) -> Location {
    loc(
        vstd::math::min(at.grapheme_idx as int, line_len(text, at.line_idx as int)),
        at.line_idx as int,
    )
}

/// The location with its line index pulled back to just past the last line.
pub open spec fn snap_line(text: Seq<Seq<char>>, at: Location) -> Location {
    loc(at.grapheme_idx as int, vstd::math::min(at.line_idx as int, text.len() as int))
}

/// `step` lines up.
pub open spec fn move_up_loc(text: Seq<Seq<char>>, at: Location, step: int) -> Location {
    snap_grapheme(text, loc(at.grapheme_idx as int, ssub(at.line_idx as int, step)))
}

/// `step` lines down.
pub open spec fn move_down_loc(text: Seq<Seq<char>>, at: Location, step: int) -> Location {
    snap_line(text, snap_grapheme(text, loc(at.grapheme_idx as int, sadd(at.line_idx as int, step))))
}

/// One grapheme right, or to the start of the next line at the end of a line.
pub open spec fn move_right_loc(text: Seq<Seq<char>>, at: Location) -> Location {
    if (at.grapheme_idx as int) < line_len(text, at.line_idx as int) {
        loc(at.grapheme_idx + 1, at.line_idx as int)
    } else {
        move_down_loc(text, loc(0, at.line_idx as int), 1)
    }
}

/// One grapheme left, or to the end of the previous line at the start of a line.
pub open spec fn move_left_loc(text: Seq<Seq<char>>, at: Location) -> Location {
    if at.grapheme_idx > 0 {
        loc(at.grapheme_idx - 1, at.line_idx as int)
    } else if at.line_idx > 0 {
        let up = move_up_loc(text, at, 1);
        loc(line_len(text, up.line_idx as int), up.line_idx as int)
    } else {
        at
    }
}

/// Where `cmd` takes the caret; a page is `page` lines.
pub open spec fn moved_location(text: Seq<Seq<char>>, at: Location, cmd: Move, page: int) -> Location {
    match cmd {
        Move::Up => move_up_loc(text, at, 1),
        Move::Down => move_down_loc(text, at, 1),
        Move::Left => move_left_loc(text, at),
        Move::Right => move_right_loc(text, at),
        Move::PageUp => move_up_loc(text, at, page),
        Move::PageDown => move_down_loc(text, at, page),
        Move::StartOfLine => loc(0, at.line_idx as int),
        Move::EndOfLine => loc(line_len(text, at.line_idx as int), at.line_idx as int),
    }
}

/// The screen cell (in document coordinates) of a location: its line and
/// the columns taken before it.
pub open spec fn location_position(text: Seq<Seq<char>>, at: Location) -> Position {
    Position {
        row: at.line_idx,
        col: vstd::math::min(at.grapheme_idx as int, line_len(text, at.line_idx as int)) as usize,
    }
}

/// The scroll offset along one axis after bringing `to` into a window of
/// `extent` cells starting at `off`.
pub open spec fn scroll_to(off: int, to: int, extent: int) -> int {
    if to < off {
        to
    } else if to >= sadd(off, extent) {
        sadd(ssub(to, extent), 1)
    } else {
        off
    }
}

/// Whether bringing `to` into the window `[off, off + extent)` moves the window.
pub open spec fn scroll_moves(off: int, to: int, extent: int) -> bool {
    to < off || to >= sadd(off, extent)
}

/// Whether bringing `pos` into view in an area of `rect` scrolls.
pub open spec fn scroll_needed(off: Position, pos: Position, rect: Rect) -> bool {
    let height = ssub(rect.size.height as int, 2);
    let width = ssub(rect.size.width as int, 2);
    (height != 0 && scroll_moves(off.row as int, pos.row as int, height)) || scroll_moves(
        off.col as int,
        pos.col as int,
        width,
    )
}

/// The scroll offset after bringing `pos` into view in an area of `rect`
/// (whose border takes one cell on each side).
pub open spec fn scrolled_offset(off: Position, pos: Position, rect: Rect) -> Position {
    let height = ssub(rect.size.height as int, 2);
    let width = ssub(rect.size.width as int, 2);
    Position {
        row: if height == 0 {
            off.row
        } else {
            scroll_to(off.row as int, pos.row as int, height) as usize
        },
        col: scroll_to(off.col as int, pos.col as int, width) as usize,
    }
}

/// The scroll offset that puts `pos` in the middle of an area of `rect`.
pub open spec fn centered_offset(pos: Position, rect: Rect) -> Position {
    let height = ssub(rect.size.height as int, 2);
    let width = ssub(rect.size.width as int, 2);
    Position {
        row: ssub(pos.row as int, (height + 1) / 2) as usize,
        col: ssub(pos.col as int, (width + 1) / 2) as usize,
    }
}

/// The screen cell of the caret for a document position `pos`, a scroll
/// offset and an area: relative to the offset, kept inside the border.
pub open spec fn caret_cell(pos: Position, off: Position, rect: Rect) -> Position {
    let rel_row = vstd::math::min(
        ssub(pos.row as int, off.row as int),
        ssub(rect.size.height as int, 3),
    );
    let rel_col = vstd::math::min(
        ssub(pos.col as int, off.col as int),
        ssub(rect.size.width as int, 3),
    );
    Position {
        row: sadd(sadd(rel_row, rect.position.row as int), 1) as usize,
        col: sadd(sadd(rel_col, rect.position.col as int), 1) as usize,
    }
}


/// What an [`EditOperation`] records, with the characters of a group as a sequence.
pub enum Op {
    InsertChar { at: Location, text: char },
    DeleteChar { at: Location, text: char },
    InsertNewLine { at: Location, grapheme_count_at_split: usize },
    DeleteNewLine { line_idx: usize, split_at_grapheme: usize },
    InsertGroup { start: Location, chars: Seq<char> },
}

impl vstd::view::View for EditOperation {
    type V = Op;

    open spec fn view(&self) -> Op {
        match self {
            EditOperation::InsertChar { at, text } => Op::InsertChar { at: *at, text: *text },
            EditOperation::DeleteChar { at, text } => Op::DeleteChar { at: *at, text: *text },
            EditOperation::InsertNewLine { at, grapheme_count_at_split } => Op::InsertNewLine {
                at: *at,
                grapheme_count_at_split: *grapheme_count_at_split,
            },
            EditOperation::DeleteNewLine { line_idx, split_at_grapheme } => Op::DeleteNewLine {
                line_idx: *line_idx,
                split_at_grapheme: *split_at_grapheme,
            },
            EditOperation::InsertGroup { start, chars } => Op::InsertGroup {
                start: *start,
                chars: chars@,
            },
        }
    }
}

/// What a stack of operations records.
pub open spec fn ops_view(ops: Seq<EditOperation>) -> Seq<Op> {
    ops.map_values(|o: EditOperation| o@)
}

/// Deletes, one after another, the graphemes at `g0 + k - 1`, ..., `g0` of line `l`.
pub open spec fn delete_back(text: Seq<Seq<char>>, l: int, g0: int, k: int) -> Seq<Seq<char>>
    decreases k,
{
    if k <= 0 {
        text
    } else {
        delete_back(text_delete(text, loc(g0 + k - 1, l)), l, g0, k - 1)
    }
}

/// Inserts `chars` one after another at `g0`, `g0 + 1`, ... of line `l`.
pub open spec fn insert_run(text: Seq<Seq<char>>, l: int, g0: int, chars: Seq<char>) -> Seq<Seq<char>>
    decreases chars.len(),
{
    if chars.len() == 0 {
        text
    } else {
        text_insert_char(
            insert_run(text, l, g0, chars.drop_last()),
            chars.last(),
            loc(sadd(g0, chars.len() - 1), l),
        )
    }
}

/// The text after undoing `op`.
pub open spec fn undo_text(text: Seq<Seq<char>>, op: Op) -> Seq<Seq<char>> {
    match op {
        Op::InsertChar { at, .. } => text_delete(text, at),
        Op::DeleteChar { at, text: c } => text_insert_char(text, c, at),
        Op::InsertNewLine { at, grapheme_count_at_split } => text_delete(
            text,
            loc(grapheme_count_at_split as int, at.line_idx as int),
        ),
        Op::DeleteNewLine { line_idx, split_at_grapheme } => text_insert_newline(
            text,
            loc(split_at_grapheme as int, line_idx as int),
        ),
        Op::InsertGroup { start, chars } => delete_back(
            text,
            start.line_idx as int,
            start.grapheme_idx as int,
            sadd(start.grapheme_idx as int, chars.len() as int) - start.grapheme_idx,
        ),
    }
}

/// Where the caret goes when `op` is undone.
pub open spec fn undo_location(op: Op) -> Location {
    match op {
        Op::InsertChar { at, .. } => at,
        Op::DeleteChar { at, .. } => at,
        Op::InsertNewLine { at, .. } => at,
        Op::DeleteNewLine { line_idx, .. } => loc(0, sadd(line_idx as int, 1)),
        Op::InsertGroup { start, .. } => start,
    }
}

/// The text after redoing `op`.
pub open spec fn redo_text(text: Seq<Seq<char>>, op: Op) -> Seq<Seq<char>> {
    match op {
        Op::InsertChar { at, text: c } => text_insert_char(text, c, at),
        Op::DeleteChar { at, .. } => text_delete(text, at),
        Op::InsertNewLine { at, .. } => text_insert_newline(text, at),
        Op::DeleteNewLine { line_idx, split_at_grapheme } => text_delete(
            text,
            loc(split_at_grapheme as int, line_idx as int),
        ),
        Op::InsertGroup { start, chars } => insert_run(
            text,
            start.line_idx as int,
            start.grapheme_idx as int,
            chars,
        ),
    }
}

/// Where the caret goes when `op` is redone.
pub open spec fn redo_location(op: Op) -> Location {
    match op {
        Op::InsertChar { at, .. } => loc(sadd(at.grapheme_idx as int, 1), at.line_idx as int),
        Op::DeleteChar { at, .. } => at,
        Op::InsertNewLine { at, .. } => loc(0, sadd(at.line_idx as int, 1)),
        Op::DeleteNewLine { line_idx, split_at_grapheme } => loc(
            split_at_grapheme as int,
            line_idx as int,
        ),
        Op::InsertGroup { start, chars } => loc(
            sadd(start.grapheme_idx as int, chars.len() as int),
            start.line_idx as int,
        ),
    }
}

/// Undoing `op` inserts only into lines that exist or just past the last one.
pub open spec fn undo_applicable(text: Seq<Seq<char>>, op: Op) -> bool {
    match op {
        Op::DeleteChar { at, .. } => at.line_idx <= text.len(),
        _ => true,
    }
}

/// Redoing `op` inserts only into lines that exist or just past the last one.
pub open spec fn redo_applicable(text: Seq<Seq<char>>, op: Op) -> bool {
    match op {
        Op::InsertChar { at, .. } => at.line_idx <= text.len(),
        Op::InsertGroup { start, .. } => start.line_idx <= text.len(),
        _ => true,
    }
}

/// The undo stack after inserting `c` at `at`: when the insert joins the
/// previous ones (`grouped`), a group on top grows by `c` and a single
/// insert on top becomes a group of both characters; otherwise a single
/// insert is pushed.
pub open spec fn record_insert(stack: Seq<Op>, at: Location, c: char, grouped: bool) -> Seq<Op> {
    if grouped && stack.len() > 0 && stack.last() is InsertGroup {
        stack.drop_last().push(
            Op::InsertGroup {
                start: stack.last()->InsertGroup_start,
                chars: stack.last()->InsertGroup_chars.push(c),
            },
        )
    } else if grouped && stack.len() > 0 && stack.last() is InsertChar {
        stack.drop_last().push(
            Op::InsertGroup {
                start: stack.last()->InsertChar_at,
                chars: seq![stack.last()->InsertChar_text, c],
            },
        )
    } else {
        stack.push(Op::InsertChar { at, text: c })
    }
}

/// The text after `edit` at `at`.
pub open spec fn edit_text(text: Seq<Seq<char>>, at: Location, edit: Edit) -> Seq<Seq<char>> {
    match edit {
        Edit::Insert(c) => text_insert_char(text, c, at),
        Edit::InsertNewLine => text_insert_newline(text, at),
        Edit::Delete => text_delete(text, at),
        Edit::DeleteBackward => if at.line_idx == 0 && at.grapheme_idx == 0 {
            text
        } else if at.grapheme_idx == 0 || deletes_grapheme(text, move_left_loc(text, at)) {
            text_delete(text, move_left_loc(text, at))
        } else {
            text
        },
    }
}

/// Whether `edit` at `at` moves the caret through a move command, which
/// also scrolls it into view.
pub open spec fn edit_moves(at: Location, edit: Edit) -> bool {
    match edit {
        Edit::Delete => false,
        Edit::DeleteBackward => !(at.line_idx == 0 && at.grapheme_idx == 0),
        _ => true,
    }
}

/// Where the caret goes after `edit` at `at`.
pub open spec fn edit_location(text: Seq<Seq<char>>, at: Location, edit: Edit) -> Location {
    match edit {
        Edit::Insert(_) => move_right_loc(edit_text(text, at, edit), at),
        Edit::InsertNewLine => move_right_loc(edit_text(text, at, edit), at),
        Edit::Delete => at,
        Edit::DeleteBackward => if at.line_idx == 0 && at.grapheme_idx == 0 {
            at
        } else {
            move_left_loc(text, at)
        },
    }
}

/// The operation an edit other than an insert records, if any.
pub open spec fn recorded_op(text: Seq<Seq<char>>, at: Location, edit: Edit) -> Option<Op> {
    let l = at.line_idx as int;
    match edit {
        Edit::Insert(c) => Some(Op::InsertChar { at, text: c }),
        Edit::InsertNewLine => Some(
            Op::InsertNewLine { at, grapheme_count_at_split: line_len(text, l) as usize },
        ),
        Edit::Delete => if deletes_line_break(text, at) {
            Some(Op::DeleteNewLine { line_idx: at.line_idx, split_at_grapheme: text[l].len() as usize })
        } else if deletes_grapheme(text, at) {
            Some(Op::DeleteChar { at, text: text[l][at.grapheme_idx as int] })
        } else {
            None
        },
        Edit::DeleteBackward => if at.line_idx == 0 && at.grapheme_idx == 0 {
            None
        } else if at.grapheme_idx == 0 {
            Some(
                Op::DeleteNewLine {
                    line_idx: (l - 1) as usize,
                    split_at_grapheme: line_len(text, l - 1) as usize,
                },
            )
        } else {
            let left = move_left_loc(text, at);
            if deletes_grapheme(text, left) {
                Some(
                    Op::DeleteChar {
                        at: left,
                        text: text[left.line_idx as int][left.grapheme_idx as int],
                    },
                )
            } else {
                None
            }
        },
    }
}

/// The undo stack after `edit` at `at`; `grouped` says whether an insert
/// joins the previous ones.
pub open spec fn recorded_stack(
    stack: Seq<Op>,
    text: Seq<Seq<char>>,
    at: Location,
    edit: Edit,
    grouped: bool,
) -> Seq<Op> {
    match edit {
        Edit::Insert(c) => record_insert(stack, at, c, grouped),
        _ => match recorded_op(text, at, edit) {
            Some(op) => stack.push(op),
            None => stack,
        },
    }
}

/// The welcome line: a `~`, then the program's name and version centred in
/// the rest of a row `width` wide; a bare `~` when they do not fit.
pub open spec fn welcome_line(width: int) -> Seq<char> {
    let message = NAME@ + " editor -- version "@ + VERSION@;
    let rest = width - 1;
    if width <= 0 {
        Seq::empty()
    } else if rest < message.len() {
        seq!['~']
    } else {
        let left = (rest - message.len()) / 2;
        let right = rest - message.len() - left;
        seq!['~'] + Seq::new(left as nat, |i: int| ' ') + message + Seq::new(
            right as nat,
            |i: int| ' ',
        )
    }
}

/// Appends `n` spaces to `s`.
fn push_spaces(s: &mut String, n: usize)
    ensures
        final(s)@ == old(s)@ + Seq::new(n as nat, |i: int| ' '),
{
    let mut k: usize = 0;
    while k < n
        invariant
            k <= n,
            s@ == old(s)@ + Seq::new(k as nat, |i: int| ' '),
        decreases n - k,
    {
        crate::editor::stdtext::string_push(s, ' ');
        assert(Seq::new((k + 1) as nat, |i: int| ' ') =~= Seq::new(k as nat, |i: int| ' ').push(
            ' ',
        ));
        k = k + 1;
    }
}

impl View {
    /// The welcome line for a row `width` wide (see [`welcome_line`]).
    pub fn build_welcome_message(width: usize) -> (s: String)
        ensures
            s@ == welcome_line(width as int),
    {
        if width == 0 {
            return String::new();
        }
        let message = crate::editor::textfmt::concat2(
            crate::editor::textfmt::concat2(NAME, " editor -- version ").as_str(),
            VERSION,
        );
        let len = message.as_str().unicode_len();
        let rest = width - 1;
        if rest < len {
            proof {
                reveal_strlit("~");
            }
            return String::from_str("~");
        }
        let left = (rest - len) / 2;
        let right = rest - len - left;
        let mut s = String::from_str("~");
        proof {
            reveal_strlit("~");
            assert(s@ =~= seq!['~']);
        }
        push_spaces(&mut s, left);
        s.append(message.as_str());
        push_spaces(&mut s, right);
        s
    }
}

/// The text of row `row` of a view scrolled by `off` showing `text` in an
/// area of `size`: the visible part of its line, the welcome line a third
/// of the way down an empty text, or `~` below the text.
pub open spec fn content_row(text: Seq<Seq<char>>, off: Position, size: Size, row: int) -> Seq<
    char,
> {
    let l = sadd(row, off.row as int);
    let top_third = (size.height as int + 2) / 3;
    if l < text.len() {
        visible_range(text[l], off.col as int, sadd(off.col as int, size.width as int))
    } else if row == top_third && text.len() == 0 {
        welcome_line(size.width as int)
    } else {
        seq!['~']
    }
}

/// `rows` are the rows of the content of view `v` of `text` drawn in
/// `rect`: none when `rect` is empty, else one per row of `rect` (see
/// [`row_drawn`]).
pub open spec fn content_drawn(v: View, text: Seq<Seq<char>>, rect: Rect, rows: Seq<AnnotatedString>) -> bool {
    &&& rect.size.height == 0 || rect.size.width == 0 ==> rows.len() == 0
    &&& !(rect.size.height == 0 || rect.size.width == 0) ==> {
        &&& rows.len() == rect.size.height
        &&& forall|row: int|
            0 <= row < rows.len() ==> row_drawn(v, text, rect.size, row, #[trigger] rows[row])
    }
}

/// `a` is row `row` of the content of view `v` of a `size` area: its text
/// (see [`content_row`]) with its highlighting (see
/// [`content_row_annotations`]).
pub open spec fn row_drawn(v: View, text: Seq<Seq<char>>, size: Size, row: int, a: AnnotatedString) -> bool {
    &&& a.text() == content_row(text, v.scroll_offset, size, row)
    &&& a.annotations() == content_row_annotations(v, text, size, row)
}

/// The search highlighting of line `l` of `text` in view `v`: the
/// occurrences of the query (see [`match_annotations_of`]), the one at the
/// caret selected; none without a query.
pub open spec fn line_search_annotations(v: View, text: Seq<Seq<char>>, l: int) -> Seq<Annotation> {
    match v.search_info {
        Some(info) => match info.query {
            Some(q) => match_annotations_of(
                text[l],
                q@,
                if l == v.text_location.line_idx {
                    Some(v.text_location.grapheme_idx)
                } else {
                    None
                },
            ),
            None => Seq::empty(),
        },
        None => Seq::empty(),
    }
}

/// The highlighting of row `row` of the content of view `v` of a `size`
/// area: that of its text line moved onto the visible columns (see
/// `visible_annotations`); none for other rows.
pub open spec fn content_row_annotations(v: View, text: Seq<Seq<char>>, size: Size, row: int) -> Seq<
    Annotation,
> {
    let l = sadd(row, v.scroll_offset.row as int);
    let left = v.scroll_offset.col as int;
    let right = sadd(left, size.width as int);
    if l < text.len() && left < right {
        visible_annotations(text[l], line_search_annotations(v, text, l), left, right)
    } else {
        Seq::empty()
    }
}

impl View {
    /// Each row of the view's content drawn in `rect`: its text (see
    /// [`content_row`]) with the search highlighting of the text lines (see
    /// [`content_row_annotations`]); no rows when `rect` is empty.
    pub fn draw_content_with_buffer(&self, rect: Rect, buffer: &Buffer) -> (r: Vec<AnnotatedString>)
        ensures
            content_drawn(*self, buffer.text(), rect, r@),
    {
        let mut rows: Vec<AnnotatedString> = Vec::new();
        let height = rect.size.height;
        let width = rect.size.width;
        if height == 0 || width == 0 {
            return rows;
        }
        let top_third = height / 3 + if height % 3 == 0 {
            0
        } else {
            1
        };
        assert(top_third == (height as int + 2) / 3);
        let left = self.scroll_offset.col;
        let right = left.saturating_add(width);
        let empty = buffer.is_empty();
        let mut screen_row: usize = 0;
        while screen_row < height
            invariant
                screen_row <= height,
                height == rect.size.height,
                width == rect.size.width,
                top_third == (height as int + 2) / 3,
                left == self.scroll_offset.col,
                right == sadd(left as int, width as int),
                empty == (buffer.text().len() == 0),
                rows@.len() == screen_row,
                forall|row: int|
                    0 <= row < screen_row ==> row_drawn(*self, buffer.text(), rect.size, row, #[trigger] rows@[row]),
            decreases height - screen_row,
        {
            let line_idx = screen_row.saturating_add(self.scroll_offset.row);
            let text = match buffer.get_line(line_idx) {
                Some(line) => {
                    let anns = match &self.search_info {
                        Some(info) => match &info.query {
                            Some(q) => {
                                let selected = if line_idx == self.text_location.line_idx {
                                    Some(self.text_location.grapheme_idx)
                                } else {
                                    None
                                };
                                match_annotations(line, q, selected)
                            },
                            None => Vec::new(),
                        },
                        None => Vec::new(),
                    };
                    assert(line@ == buffer.text()[line_idx as int]);
                    assert(anns@ == line_search_annotations(*self, buffer.text(), line_idx as int));
                    let a = line.get_annotated_visible_substr(left, right, Some(&anns));
                    assert(a.text() == content_row(buffer.text(), self.scroll_offset, rect.size, screen_row as int));
                    assert(a.annotations() == content_row_annotations(*self, buffer.text(), rect.size, screen_row as int));
                    a
                },
                None => {
                    assert(content_row_annotations(*self, buffer.text(), rect.size, screen_row as int)
                        =~= Seq::<Annotation>::empty());
                    if screen_row == top_third && empty {
                        let w = Self::build_welcome_message(width);
                        let a = AnnotatedString::from(w.as_str());
                        assert(a.text() == content_row(buffer.text(), self.scroll_offset, rect.size, screen_row as int));
                        a
                    } else {
                        proof {
                            reveal_strlit("~");
                        }
                        let a = AnnotatedString::from("~");
                        assert(a.text() =~= seq!['~']);
                        a
                    }
                },
            };
            assert(row_drawn(*self, buffer.text(), rect.size, screen_row as int, text));
            rows.push(text);
            screen_row = screen_row + 1;
        }
        rows
    }
}

/// Every line of `text` is short enough to be counted in a `usize`.
pub open spec fn lines_fit(text: Seq<Seq<char>>) -> bool {
    forall|i: int| 0 <= i < text.len() ==> #[trigger] text[i].len() <= usize::MAX
}

/// Undoing an edit gives back the text it was made on: for an edit at a
/// caret on a line of the text and not past its end that records an
/// operation, undoing that operation on the edited text restores the text.
pub proof fn lemma_undo_restores_text(text: Seq<Seq<char>>, at: Location, edit: Edit)
    requires
        valid_location(text, at),
        at.line_idx < text.len(),
        lines_fit(text),
        recorded_op(text, at, edit) is Some,
    ensures
        undo_text(edit_text(text, at, edit), recorded_op(text, at, edit)->0) =~= text,
{
    let l = at.line_idx as int;
    let g = at.grapheme_idx as int;
    let line = text[l];
    match edit {
        Edit::Insert(c) => {
            let edited = edit_text(text, at, edit);
            assert(edited == text.update(l, line_insert(line, c, g)));
            assert(edited[l] =~= line_insert(line, c, g));
            assert(edited[l].len() == line.len() + 1);
            assert(!deletes_line_break(edited, at));
            assert(deletes_grapheme(edited, at));
            if g < line.len() {
                assert(line.insert(g, c).remove(g) =~= line);
            } else {
                assert(line.push(c).remove(g) =~= line);
            }
            assert(line_delete(edited[l], g) =~= line);
            assert(text_delete(edited, at) == edited.update(l, line_delete(edited[l], g)));
            assert(edited.update(l, line_delete(edited[l], g)) =~= text);
            assert(recorded_op(text, at, edit) == Some(Op::InsertChar { at, text: c }));
            assert(undo_text(edited, Op::InsertChar { at, text: c }) == text_delete(edited, at));
            assert(undo_text(edit_text(text, at, edit), recorded_op(text, at, edit)->0) =~= text);
        },
        Edit::InsertNewLine => {
            let edited = edit_text(text, at, edit);
            let head = split_head(line, g);
            let tail = split_tail(line, g);
            assert(edited[l] == head);
            assert(edited[l + 1] == tail);
            assert(head + tail =~= line);
            assert(edited.len() == text.len() + 1);
            assert(head.len() <= line.len());
            let split = loc(line_len(text, l), l);
            assert(deletes_line_break(edited, split));
            assert(text_delete(edited, split) == edited.update(l, edited[l] + edited[l + 1]).remove(
                l + 1,
            ));
            assert(edited.update(l, edited[l] + edited[l + 1]).remove(l + 1) =~= text);
            assert(undo_text(edit_text(text, at, edit), recorded_op(text, at, edit)->0) =~= text);
        },
        Edit::Delete => {
            if deletes_line_break(text, at) {
                let merged = line + text[l + 1];
                let edited = text.update(l, merged).remove(l + 1);
                let split = line.len() as int;
                assert(split_head(merged, split) =~= line);
                assert(split_tail(merged, split) =~= text[l + 1]);
                assert(edited.update(l, split_head(merged, split)).insert(
                    l + 1,
                    split_tail(merged, split),
                ) =~= text);
            } else {
                let c = line[g];
                let removed = line.remove(g);
                if g < removed.len() {
                    assert(removed.insert(g, c) =~= line);
                } else {
                    assert(removed.push(c) =~= line);
                }
                assert(text.update(l, removed).update(l, line_insert(removed, c, g)) =~= text);
            }
        },
        Edit::DeleteBackward => {
            if g == 0 {
                let p = l - 1;
                let prev = text[p];
                let merged = prev + line;
                let edited = text.update(p, merged).remove(p + 1);
                let split = prev.len() as int;
                assert(move_left_loc(text, at) == loc(split, p));
                assert(split_head(merged, split) =~= prev);
                assert(split_tail(merged, split) =~= line);
                assert(edited.update(p, split_head(merged, split)).insert(
                    p + 1,
                    split_tail(merged, split),
                ) =~= text);
            } else {
                let left = g - 1;
                let c = line[left];
                let removed = line.remove(left);
                if left < removed.len() {
                    assert(removed.insert(left, c) =~= line);
                } else {
                    assert(removed.push(c) =~= line);
                }
                assert(text.update(l, removed).update(l, line_insert(removed, c, left)) =~= text);
            }
        },
    }
}

/// Redoing an undone edit gives the edited text again: for an edit at a
/// caret on a line of the text and not past its end that records an
/// operation, redoing that operation on the text makes the same edit.
pub proof fn lemma_redo_repeats_edit(text: Seq<Seq<char>>, at: Location, edit: Edit)
    requires
        valid_location(text, at),
        at.line_idx < text.len(),
        lines_fit(text),
        recorded_op(text, at, edit) is Some,
    ensures
        redo_text(text, recorded_op(text, at, edit)->0) =~= edit_text(text, at, edit),
{
    let l = at.line_idx as int;
    let g = at.grapheme_idx as int;
    match edit {
        Edit::DeleteBackward => {
            if g == 0 {
                assert(move_left_loc(text, at) == loc(text[l - 1].len() as int, l - 1));
            }
        },
        _ => {},
    }
}

/// An edit and its undo, then its redo: the text is restored, then edited
/// again (see [`lemma_undo_restores_text`] and [`lemma_redo_repeats_edit`]).
pub proof fn lemma_undo_redo_round_trip(text: Seq<Seq<char>>, at: Location, edit: Edit)
    requires
        valid_location(text, at),
        at.line_idx < text.len(),
        lines_fit(text),
        recorded_op(text, at, edit) is Some,
    ensures
        ({
            let op = recorded_op(text, at, edit)->0;
            let edited = edit_text(text, at, edit);
            &&& undo_text(edited, op) == text
            &&& redo_text(undo_text(edited, op), op) == edited
        }),
{
    lemma_undo_restores_text(text, at, edit);
    lemma_redo_repeats_edit(text, at, edit);
}

/// Undo reverts an edit that the undo stack recorded as an operation of
/// its own: after an edit that changed the text (see [`recorded_op`]),
/// unless it was a character typed onto a pending group of typed
/// characters, the top of the new undo stack (see [`recorded_stack`])
/// undoes exactly that edit, whatever the stack held before.
pub proof fn lemma_undo_reverts_last_edit(
    text: Seq<Seq<char>>,
    at: Location,
    edit: Edit,
    stack: Seq<Op>,
    grouped: bool,
)
    requires
        valid_location(text, at),
        at.line_idx < text.len(),
        lines_fit(text),
        recorded_op(text, at, edit) is Some,
        !(grouped && edit is Insert && stack.len() > 0 && (stack.last() is InsertGroup
            || stack.last() is InsertChar)),
    ensures
        recorded_stack(stack, text, at, edit, grouped).len() > 0,
        recorded_stack(stack, text, at, edit, grouped).last() == recorded_op(text, at, edit)->0,
        undo_text(
            edit_text(text, at, edit),
            recorded_stack(stack, text, at, edit, grouped).last(),
        ) == text,
{
    lemma_undo_restores_text(text, at, edit);
}

/// `text` with `chars` typed in one run at grapheme `g` of line `l`: the
/// line gets `chars` between its first `g` graphemes and the rest; typed
/// just past the last line, they make a new line.
pub open spec fn typed_run(text: Seq<Seq<char>>, l: int, g: int, chars: Seq<char>) -> Seq<Seq<char>> {
    if l == text.len() {
        text.push(chars)
    } else {
        text.update(l, text[l].take(g) + chars + text[l].skip(g))
    }
}

/// Page down moves the caret `page` lines down, stopping just past the last
/// line, and keeps its column where the new line is long enough.
pub proof fn lemma_page_down_moves_a_page(text: Seq<Seq<char>>, at: Location, page: int)
    requires
        valid_location(text, at),
        0 <= page,
        text.len() <= usize::MAX,
    ensures
        moved_location(text, at, Move::PageDown, page).line_idx == vstd::math::min(
            at.line_idx + page,
            text.len() as int,
        ),
        moved_location(text, at, Move::PageDown, page).grapheme_idx == vstd::math::min(
            at.grapheme_idx as int,
            line_len(text, moved_location(text, at, Move::PageDown, page).line_idx as int),
        ),
{
}

/// Page up moves the caret `page` lines up, stopping at the first line, and
/// keeps its column where the new line is long enough.
pub proof fn lemma_page_up_moves_a_page(text: Seq<Seq<char>>, at: Location, page: int)
    requires
        valid_location(text, at),
        0 <= page,
    ensures
        moved_location(text, at, Move::PageUp, page).line_idx == (if at.line_idx >= page {
            at.line_idx - page
        } else {
            0
        }),
        moved_location(text, at, Move::PageUp, page).grapheme_idx == vstd::math::min(
            at.grapheme_idx as int,
            line_len(text, moved_location(text, at, Move::PageUp, page).line_idx as int),
        ),
{
}

/// A page of a view is one line less than the rows inside its borders: the
/// view's height less the top and bottom border, less one.
pub proof fn lemma_page_is_text_height_less_one(view: View)
    requires
        view.rect.size.height >= 3,
    ensures
        view.page() == view.rect.size.height - 3,
{
}

/// Redoing a group of typed characters types all of them again, in order,
/// at the group's start.
pub proof fn lemma_redo_group_types_run(text: Seq<Seq<char>>, l: int, g: int, chars: Seq<char>)
    requires
        0 <= l <= text.len(),
        l <= usize::MAX,
        l < text.len() ==> 0 <= g <= text[l].len(),
        l == text.len() ==> g == 0 && chars.len() > 0,
        g + chars.len() <= usize::MAX,
    ensures
        redo_text(text, Op::InsertGroup { start: loc(g, l), chars }) == typed_run(text, l, g, chars),
    decreases chars.len(),
{
    lemma_insert_run(text, l, g, chars);
}

proof fn lemma_insert_run(text: Seq<Seq<char>>, l: int, g: int, chars: Seq<char>)
    requires
        0 <= l <= text.len(),
        l <= usize::MAX,
        l < text.len() ==> 0 <= g <= text[l].len(),
        l == text.len() ==> g == 0 && chars.len() > 0,
        g + chars.len() <= usize::MAX,
    ensures
        insert_run(text, l, g, chars) == typed_run(text, l, g, chars),
    decreases chars.len(),
{
    let n = chars.len() as int;
    if n == 0 {
        assert(text[l].take(g) + chars + text[l].skip(g) =~= text[l]);
        assert(text.update(l, text[l]) =~= text);
    } else {
        let dl = chars.drop_last();
        let c = chars.last();
        if l == text.len() && n == 1 {
            assert(insert_run(text, l, g, dl) == text);
            assert(seq![c] =~= chars);
        } else {
            lemma_insert_run(text, l, g, dl);
            let r = typed_run(text, l, g, dl);
            assert(sadd(g, n - 1) == g + n - 1);
            if l == text.len() {
                assert(r[l] == dl);
                assert(dl.push(c) =~= chars);
                assert(r.update(l, dl.push(c)) =~= text.push(chars));
            } else {
                let line = text[l];
                assert(r[l] == line.take(g) + dl + line.skip(g));
                if g + n - 1 < r[l].len() {
                    assert(r[l].insert(g + n - 1, c) =~= line.take(g) + chars + line.skip(g));
                } else {
                    assert(r[l].push(c) =~= line.take(g) + chars + line.skip(g));
                }
                assert(r.update(l, line_insert(r[l], c, g + n - 1)) =~= typed_run(text, l, g, chars));
            }
        }
    }
}

/// Undoing a group of typed characters removes exactly those characters
/// from the line they were typed into.
pub proof fn lemma_undo_group_removes_run(text: Seq<Seq<char>>, l: int, g: int, chars: Seq<char>)
    requires
        0 <= l < text.len(),
        l <= usize::MAX,
        0 <= g <= text[l].len(),
        g + chars.len() <= usize::MAX,
    ensures
        undo_text(typed_run(text, l, g, chars), Op::InsertGroup { start: loc(g, l), chars })
            == text,
    decreases chars.len(),
{
    lemma_delete_back(text, l, g, chars);
    assert(sadd(g, chars.len() as int) - g == chars.len());
}

proof fn lemma_delete_back(text: Seq<Seq<char>>, l: int, g: int, chars: Seq<char>)
    requires
        0 <= l < text.len(),
        l <= usize::MAX,
        0 <= g <= text[l].len(),
        g + chars.len() <= usize::MAX,
    ensures
        delete_back(typed_run(text, l, g, chars), l, g, chars.len() as int) == text,
    decreases chars.len(),
{
    let n = chars.len() as int;
    let line = text[l];
    if n == 0 {
        assert(line.take(g) + chars + line.skip(g) =~= line);
        assert(text.update(l, line) =~= text);
    } else {
        let dl = chars.drop_last();
        let t = typed_run(text, l, g, chars);
        assert(t[l] == line.take(g) + chars + line.skip(g));
        assert(deletes_grapheme(t, loc(g + n - 1, l)));
        assert(t[l].remove(g + n - 1) =~= line.take(g) + dl + line.skip(g));
        assert(text_delete(t, loc(g + n - 1, l)) =~= typed_run(text, l, g, dl));
        lemma_delete_back(text, l, g, dl);
    }
}

/// Undo then redo of a group of typed characters gives back the typed
/// text, also for a group typed into a new last line.
pub proof fn lemma_group_undo_redo(text: Seq<Seq<char>>, l: int, g: int, chars: Seq<char>)
    requires
        0 <= l <= text.len(),
        l <= usize::MAX,
        l < text.len() ==> 0 <= g <= text[l].len(),
        l == text.len() ==> g == 0 && chars.len() > 0,
        g + chars.len() <= usize::MAX,
    ensures
        ({
            let op = Op::InsertGroup { start: loc(g, l), chars };
            let typed = typed_run(text, l, g, chars);
            redo_text(undo_text(typed, op), op) == typed
        }),
{
    let op = Op::InsertGroup { start: loc(g, l), chars };
    if l < text.len() {
        lemma_undo_group_removes_run(text, l, g, chars);
        lemma_redo_group_types_run(text, l, g, chars);
    } else {
        let t2 = text.push(Seq::<char>::empty());
        assert(typed_run(t2, l, 0, chars) =~= typed_run(text, l, 0, chars));
        lemma_undo_group_removes_run(t2, l, 0, chars);
        lemma_redo_group_types_run(t2, l, 0, chars);
    }
}

/// The fields of `a` that say which buffer it shows, where, and how it
/// searches are those of `b`.
pub open spec fn same_frame(a: View, b: View) -> bool {
    &&& a.id == b.id
    &&& a.buffer_id == b.buffer_id
    &&& a.is_active == b.is_active
    &&& a.rect == b.rect
    &&& a.search_info == b.search_info
}

/// Besides the frame, the history of edits of `a` is that of `b`.
pub open spec fn keeps_history(a: View, b: View) -> bool {
    &&& same_frame(a, b)
    &&& a.undo_stack@ == b.undo_stack@
    &&& a.redo_stack@ == b.redo_stack@
    &&& a.last_insert_time == b.last_insert_time
    &&& a.last_insert_location == b.last_insert_location
}

/// A view of a buffer: where the caret is, how the text is scrolled, and
/// the history of edits made through it.
#[derive(Debug)]
pub struct View {
    pub id: usize,
    pub buffer_id: usize,
    pub is_active: bool,
    pub needs_redraw: bool,
    pub rect: Rect,
    pub text_location: Location,
    pub scroll_offset: Position,
    pub search_info: Option<SearchInfo>,
    pub undo_stack: Vec<EditOperation>,
    pub redo_stack: Vec<EditOperation>,
    pub last_insert_time: Option<Instant>,
    pub last_insert_location: Option<Location>,
}

impl Default for View {
    fn default() -> (r: Self)
        ensures
            r.text_location == loc(0, 0),
            r.scroll_offset == (Position { row: 0, col: 0 }),
            r.rect == Rect::default_spec(),
            r.undo_stack@ == Seq::<EditOperation>::empty(),
            r.redo_stack@ == Seq::<EditOperation>::empty(),
            r.search_info is None,
            r.last_insert_time is None,
            r.last_insert_location is None,
            r.id == 0,
            r.buffer_id == 0,
            !r.is_active,
            !r.needs_redraw,
    {
        View {
            id: 0,
            buffer_id: 0,
            is_active: false,
            needs_redraw: false,
            rect: Rect::default(),
            text_location: Location::default(),
            scroll_offset: Position::default(),
            search_info: None,
            undo_stack: Vec::new(),
            redo_stack: Vec::new(),
            last_insert_time: None,
            last_insert_location: None,
        }
    }
}

impl View {
    /// The number of lines a page up or down moves: the inner height less one.
    pub open spec fn page(&self) -> int {
        ssub(ssub(self.rect.size.height as int, 2), 1)
    }

    /// The status of the document shown in this view.
    pub fn get_status(&self, buffer: &Buffer) -> (r: DocumentStatus)
        ensures
            r.file_name@ == display_name_of(buffer.info().path()),
            r.total_lines == buffer.text().len(),
            r.current_line_idx == self.text_location.line_idx,
            r.is_modified == buffer.dirty(),
            r.file_type == buffer.info().file_type(),
    {
        let file_info = buffer.get_file_info();
        DocumentStatus {
            file_name: file_info.display_name(),
            total_lines: buffer.height(),
            current_line_idx: self.text_location.line_idx,
            is_modified: buffer.is_dirty(),
            file_type: file_info.get_file_type(),
        }
    }

    /// Sets the view's id.
    pub fn set_id(&mut self, id: usize)
        ensures
            final(self).id == id,
            final(self).buffer_id == old(self).buffer_id,
            final(self).text_location == old(self).text_location,
    {
        self.id = id;
    }

    /// The id of the buffer shown.
    pub fn buffer_id(&self) -> (id: usize)
        ensures
            id == self.buffer_id,
    {
        self.buffer_id
    }

    /// Shows buffer `id` from its start.
    pub fn set_buffer_id(&mut self, id: usize)
        ensures
            final(self).buffer_id == id,
            final(self).text_location == loc(0, 0),
            final(self).scroll_offset == (Position { row: 0, col: 0 }),
            final(self).needs_redraw,
            final(self).id == old(self).id,
            final(self).rect == old(self).rect,
    {
        self.buffer_id = id;
        self.text_location = Location::default();
        self.scroll_offset = Position::default();
        self.needs_redraw = true;
    }

    /// Marks the view active or not; a change asks for drawing.
    pub fn set_active(&mut self, active: bool)
        ensures
            final(self).is_active == active,
            old(self).is_active != active ==> final(self).needs_redraw,
            old(self).is_active == active ==> final(self).needs_redraw == old(self).needs_redraw,
            final(self).buffer_id == old(self).buffer_id,
            final(self).text_location == old(self).text_location,
            final(self).scroll_offset == old(self).scroll_offset,
            final(self).rect == old(self).rect,
            final(self).id == old(self).id,
            final(self).search_info == old(self).search_info,
            final(self).undo_stack@ == old(self).undo_stack@,
            final(self).redo_stack@ == old(self).redo_stack@,
    {
        if self.is_active != active {
            self.is_active = active;
            self.needs_redraw = true;
        }
    }

    /// Moves the caret as `command` says, then scrolls it into view.
    pub fn handle_move_command(&mut self, command: Move, buffer: &Buffer)
        ensures
            final(self).text_location == moved_location(
                buffer.text(),
                old(self).text_location,
                command,
                old(self).page(),
            ),
            final(self).scroll_offset == scrolled_offset(
                old(self).scroll_offset,
                location_position(buffer.text(), final(self).text_location),
                old(self).rect,
            ),
            final(self).needs_redraw == (old(self).needs_redraw || scroll_needed(
                old(self).scroll_offset,
                location_position(buffer.text(), final(self).text_location),
                old(self).rect,
            )),
            keeps_history(*final(self), *old(self)),
    {
        let height = self.rect.size.height.saturating_sub(2);
        match command {
            Move::Up => self.move_up(1, buffer),
            Move::Down => self.move_down(1, buffer),
            Move::Left => self.move_left(buffer),
            Move::Right => self.move_right(buffer),
            Move::PageUp => self.move_up(height.saturating_sub(1), buffer),
            Move::PageDown => self.move_down(height.saturating_sub(1), buffer),
            Move::StartOfLine => self.move_to_start_of_line(),
            Move::EndOfLine => self.move_to_end_of_line(buffer),
        }
        self.scroll_text_location_into_view(buffer);
    }

    fn scroll_vertically(&mut self, to: RowIdx)
        ensures
            final(self).scroll_offset.col == old(self).scroll_offset.col,
            final(self).scroll_offset.row == (if ssub(old(self).rect.size.height as int, 2) == 0 {
                old(self).scroll_offset.row as int
            } else {
                scroll_to(
                    old(self).scroll_offset.row as int,
                    to as int,
                    ssub(old(self).rect.size.height as int, 2),
                )
            }),
            final(self).needs_redraw == (old(self).needs_redraw || (ssub(
                old(self).rect.size.height as int,
                2,
            ) != 0 && scroll_moves(
                old(self).scroll_offset.row as int,
                to as int,
                ssub(old(self).rect.size.height as int, 2),
            ))),
            final(self).text_location == old(self).text_location,
            keeps_history(*final(self), *old(self)),
    {
        let height = self.rect.size.height.saturating_sub(2);
        if height == 0 {
            return;
        }
        if to < self.scroll_offset.row {
            self.scroll_offset.row = to;
            self.needs_redraw = true;
        } else if to >= self.scroll_offset.row.saturating_add(height) {
            self.scroll_offset.row = to.saturating_sub(height).saturating_add(1);
            self.needs_redraw = true;
        }
    }

    fn scroll_horizontally(&mut self, to: ColIdx)
        ensures
            final(self).scroll_offset.row == old(self).scroll_offset.row,
            final(self).scroll_offset.col == scroll_to(
                old(self).scroll_offset.col as int,
                to as int,
                ssub(old(self).rect.size.width as int, 2),
            ),
            final(self).needs_redraw == (old(self).needs_redraw || scroll_moves(
                old(self).scroll_offset.col as int,
                to as int,
                ssub(old(self).rect.size.width as int, 2),
            )),
            final(self).text_location == old(self).text_location,
            keeps_history(*final(self), *old(self)),
    {
        let width = self.rect.size.width.saturating_sub(2);
        if to < self.scroll_offset.col {
            self.scroll_offset.col = to;
            self.needs_redraw = true;
        } else if to >= self.scroll_offset.col.saturating_add(width) {
            self.scroll_offset.col = to.saturating_sub(width).saturating_add(1);
            self.needs_redraw = true;
        }
    }

    fn center_text_location(&mut self, buffer: &Buffer)
        ensures
            final(self).scroll_offset == centered_offset(
                location_position(buffer.text(), old(self).text_location),
                old(self).rect,
            ),
            final(self).needs_redraw,
            final(self).text_location == old(self).text_location,
            keeps_history(*final(self), *old(self)),
    {
        let height = self.rect.size.height.saturating_sub(2);
        let width = self.rect.size.width.saturating_sub(2);
        let Position { row, col } = self.text_location_to_position(buffer);
        let vertical_mid = height / 2 + height % 2;
        let horizontal_mid = width / 2 + width % 2;
        self.scroll_offset.row = row.saturating_sub(vertical_mid);
        self.scroll_offset.col = col.saturating_sub(horizontal_mid);
        self.needs_redraw = true;
    }

    fn scroll_text_location_into_view(&mut self, buffer: &Buffer)
        ensures
            final(self).scroll_offset == scrolled_offset(
                old(self).scroll_offset,
                location_position(buffer.text(), old(self).text_location),
                old(self).rect,
            ),
            final(self).needs_redraw == (old(self).needs_redraw || scroll_needed(
                old(self).scroll_offset,
                location_position(buffer.text(), old(self).text_location),
                old(self).rect,
            )),
            final(self).text_location == old(self).text_location,
            keeps_history(*final(self), *old(self)),
    {
        let Position { row, col } = self.text_location_to_position(buffer);
        self.scroll_vertically(row);
        self.scroll_horizontally(col);
    }

    /// The screen cell of the caret (see [`caret_cell`]).
    pub fn caret_position(&self, buffer: &Buffer) -> (p: Position)
        ensures
            p == caret_cell(
                location_position(buffer.text(), self.text_location),
                self.scroll_offset,
                self.rect,
            ),
    {
        let Position { col, row } = self.text_location_to_position(buffer);
        let relative_row = row.saturating_sub(self.scroll_offset.row);
        let relative_col = col.saturating_sub(self.scroll_offset.col);
        let max_row = self.rect.size.height.saturating_sub(3);
        let max_col = self.rect.size.width.saturating_sub(3);
        let clamped_row = if relative_row < max_row {
            relative_row
        } else {
            max_row
        };
        let clamped_col = if relative_col < max_col {
            relative_col
        } else {
            max_col
        };
        Position {
            col: clamped_col.saturating_add(self.rect.position.col).saturating_add(1),
            row: clamped_row.saturating_add(self.rect.position.row).saturating_add(1),
        }
    }

    fn text_location_to_position(&self, buffer: &Buffer) -> (p: Position)
        ensures
            p == location_position(buffer.text(), self.text_location),
    {
        let row = self.text_location.line_idx;
        let col = buffer.width_until(row, self.text_location.grapheme_idx);
        Position { col, row }
    }

    fn move_up(&mut self, step: usize, buffer: &Buffer)
        ensures
            final(self).text_location == move_up_loc(buffer.text(), old(self).text_location, step as int),
            final(self).scroll_offset == old(self).scroll_offset,
            final(self).needs_redraw == old(self).needs_redraw,
            keeps_history(*final(self), *old(self)),
    {
        self.text_location.line_idx = self.text_location.line_idx.saturating_sub(step);
        self.snap_to_valid_grapheme(buffer);
    }

    fn move_down(&mut self, step: usize, buffer: &Buffer)
        ensures
            final(self).text_location == move_down_loc(buffer.text(), old(self).text_location, step as int),
            final(self).scroll_offset == old(self).scroll_offset,
            final(self).needs_redraw == old(self).needs_redraw,
            keeps_history(*final(self), *old(self)),
    {
        self.text_location.line_idx = self.text_location.line_idx.saturating_add(step);
        self.snap_to_valid_grapheme(buffer);
        self.snap_to_valid_line(buffer);
    }

    fn move_right(&mut self, buffer: &Buffer)
        ensures
            final(self).text_location == move_right_loc(buffer.text(), old(self).text_location),
            final(self).scroll_offset == old(self).scroll_offset,
            final(self).needs_redraw == old(self).needs_redraw,
            keeps_history(*final(self), *old(self)),
    {
        let grapheme_count = buffer.grapheme_count(self.text_location.line_idx);
        if self.text_location.grapheme_idx < grapheme_count {
            self.text_location.grapheme_idx = self.text_location.grapheme_idx + 1;
        } else {
            self.move_to_start_of_line();
            self.move_down(1, buffer);
        }
    }

    fn move_left(&mut self, buffer: &Buffer)
        ensures
            final(self).text_location == move_left_loc(buffer.text(), old(self).text_location),
            final(self).scroll_offset == old(self).scroll_offset,
            final(self).needs_redraw == old(self).needs_redraw,
            keeps_history(*final(self), *old(self)),
    {
        if self.text_location.grapheme_idx > 0 {
            self.text_location.grapheme_idx = self.text_location.grapheme_idx - 1;
        } else if self.text_location.line_idx > 0 {
            self.move_up(1, buffer);
            self.move_to_end_of_line(buffer);
        }
    }

    fn move_to_start_of_line(&mut self)
        ensures
            final(self).text_location == loc(0, old(self).text_location.line_idx as int),
            final(self).scroll_offset == old(self).scroll_offset,
            final(self).needs_redraw == old(self).needs_redraw,
            keeps_history(*final(self), *old(self)),
    {
        self.text_location.grapheme_idx = 0;
    }

    fn move_to_end_of_line(&mut self, buffer: &Buffer)
        ensures
            final(self).text_location == loc(
                line_len(buffer.text(), old(self).text_location.line_idx as int),
                old(self).text_location.line_idx as int,
            ),
            final(self).scroll_offset == old(self).scroll_offset,
            final(self).needs_redraw == old(self).needs_redraw,
            keeps_history(*final(self), *old(self)),
    {
        self.text_location.grapheme_idx = buffer.grapheme_count(self.text_location.line_idx);
    }

    fn snap_to_valid_grapheme(&mut self, buffer: &Buffer)
        ensures
            final(self).text_location == snap_grapheme(buffer.text(), old(self).text_location),
            final(self).scroll_offset == old(self).scroll_offset,
            final(self).needs_redraw == old(self).needs_redraw,
            keeps_history(*final(self), *old(self)),
    {
        let count = buffer.grapheme_count(self.text_location.line_idx);
        if count < self.text_location.grapheme_idx {
            self.text_location.grapheme_idx = count;
        }
    }

    fn snap_to_valid_line(&mut self, buffer: &Buffer)
        ensures
            final(self).text_location == snap_line(buffer.text(), old(self).text_location),
            final(self).scroll_offset == old(self).scroll_offset,
            final(self).needs_redraw == old(self).needs_redraw,
            keeps_history(*final(self), *old(self)),
    {
        let height = buffer.height();
        if height < self.text_location.line_idx {
            self.text_location.line_idx = height;
        }
    }
}

/// Whether `edit` at `at` marks the buffer changed.
pub open spec fn edit_dirties(text: Seq<Seq<char>>, at: Location, edit: Edit) -> bool {
    match edit {
        Edit::Insert(_) => true,
        Edit::InsertNewLine => at.line_idx <= text.len(),
        Edit::Delete => deletes_line_break(text, at) || deletes_grapheme(text, at),
        Edit::DeleteBackward => !(at.line_idx == 0 && at.grapheme_idx == 0) && (deletes_grapheme(
            text,
            move_left_loc(text, at),
        ) || (at.grapheme_idx == 0 && deletes_line_break(text, move_left_loc(text, at)))),
    }
}

/// The text against which the caret is scrolled into view after `edit`:
/// inserts move the caret after changing the text, deletions before.
pub open spec fn edit_scroll_text(text: Seq<Seq<char>>, at: Location, edit: Edit) -> Seq<Seq<char>> {
    match edit {
        Edit::Insert(_) => edit_text(text, at, edit),
        Edit::InsertNewLine => edit_text(text, at, edit),
        _ => text,
    }
}

/// The query of the search under way in `v`, if it has one.
pub open spec fn search_query(v: View) -> Option<Seq<char>> {
    match v.search_info {
        Some(info) => match info.query {
            Some(q) => Some(q@),
            None => None,
        },
        None => None,
    }
}

/// Where a search for `query` from `from` in `direction` stops.
pub open spec fn search_result(
    text: Seq<Seq<char>>,
    query: Seq<char>,
    from: Location,
    direction: SearchDirection,
) -> Option<Location> {
    match direction {
        SearchDirection::Forward => search_forward_result(text, query, from),
        SearchDirection::Backward => search_backward_result(text, query, from),
    }
}

/// Whether an insert into `v` that comes `elapsed_ms` after the previous one
/// joins it: it comes in time and at the place the previous one recorded.
pub open spec fn groups_with(v: View, elapsed_ms: Option<u128>) -> bool {
    match elapsed_ms {
        Some(ms) => ms < GROUP_TIMEOUT_MS && v.last_insert_location == Some(v.text_location),
        None => false,
    }
}

impl View {
    /// Inserts `character` at the caret, records it for undo and moves the
    /// caret past it. `elapsed_ms` is the time since the previous insert, if
    /// there was one; see [`groups_with`] and [`record_insert`].
    pub fn insert_char_after(
        &mut self,
        character: char,
        buffer: &mut Buffer,
        elapsed_ms: Option<u128>,
        now: Instant,
    )
        requires
            old(self).text_location.line_idx <= old(buffer).text().len(),
        ensures
            final(buffer).text() == text_insert_char(
                old(buffer).text(),
                character,
                old(self).text_location,
            ),
            final(buffer).dirty(),
            final(buffer).info() == old(buffer).info(),
            ops_view(final(self).undo_stack@) == record_insert(
                ops_view(old(self).undo_stack@),
                old(self).text_location,
                character,
                groups_with(*old(self), elapsed_ms),
            ),
            final(self).redo_stack@.len() == 0,
            final(self).last_insert_time == Some(now),
            final(self).last_insert_location == Some(final(self).text_location),
            final(self).text_location == move_right_loc(
                final(buffer).text(),
                old(self).text_location,
            ),
            final(self).scroll_offset == scrolled_offset(
                old(self).scroll_offset,
                location_position(final(buffer).text(), final(self).text_location),
                old(self).rect,
            ),
            final(self).needs_redraw,
            same_frame(*final(self), *old(self)),
    {
        let at = self.text_location;
        let old_len = buffer.grapheme_count(at.line_idx);
        buffer.insert_char(character, at);
        self.redo_stack.clear();
        let grouped = match elapsed_ms {
            Some(ms) => ms < GROUP_TIMEOUT_MS && match self.last_insert_location {
                Some(l) => l == at,
                None => false,
            },
            None => false,
        };
        let ghost old_stack = self.undo_stack@;
        if grouped && self.undo_stack.len() > 0 {
            proof {
                let n = old_stack.len() - 1;
                assert(ops_view(old_stack).last() == old_stack[n]@);
                assert(ops_view(old_stack).drop_last() =~= ops_view(old_stack.drop_last()));
            }
            match self.undo_stack.pop() {
                Some(EditOperation::InsertGroup { start, chars }) => {
                    let mut chars = chars;
                    chars.push(character);
                    self.undo_stack.push(EditOperation::InsertGroup { start, chars });
                    assert(ops_view(self.undo_stack@) =~= ops_view(old_stack).drop_last().push(
                        self.undo_stack@.last()@,
                    ));
                },
                Some(EditOperation::InsertChar { at: first, text }) => {
                    let mut chars: Vec<char> = Vec::new();
                    chars.push(text);
                    chars.push(character);
                    assert(chars@ =~= seq![text, character]);
                    self.undo_stack.push(EditOperation::InsertGroup { start: first, chars });
                    assert(ops_view(self.undo_stack@) =~= ops_view(old_stack).drop_last().push(
                        self.undo_stack@.last()@,
                    ));
                },
                Some(other) => {
                    self.undo_stack.push(other);
                    assert(self.undo_stack@ =~= old_stack);
                    self.undo_stack.push(EditOperation::InsertChar { at, text: character });
                    assert(ops_view(self.undo_stack@) =~= ops_view(old_stack).push(
                        self.undo_stack@.last()@,
                    ));
                },
                None => {},
            }
        } else {
            self.undo_stack.push(EditOperation::InsertChar { at, text: character });
        }
        assert(ops_view(self.undo_stack@) =~= record_insert(
            ops_view(old_stack),
            at,
            character,
            grouped,
        ));
        self.last_insert_time = Some(now);
        let new_len = buffer.grapheme_count(at.line_idx);
        if new_len.saturating_sub(old_len) > 0 {
            self.handle_move_command(Move::Right, buffer);
        }
        self.last_insert_location = Some(self.text_location);
        self.needs_redraw = true;
    }
}

impl View {
    /// Inserts `character` at the caret; the time since the previous insert
    /// decides whether it joins that one for undo.
    fn insert_char(&mut self, character: char, buffer: &mut Buffer)
        requires
            old(self).text_location.line_idx <= old(buffer).text().len(),
        ensures
            final(buffer).text() == text_insert_char(
                old(buffer).text(),
                character,
                old(self).text_location,
            ),
            final(buffer).dirty(),
            final(buffer).info() == old(buffer).info(),
            ops_view(final(self).undo_stack@) == record_insert(
                ops_view(old(self).undo_stack@),
                old(self).text_location,
                character,
                false,
            ) || (old(self).last_insert_time is Some && old(self).last_insert_location == Some(
                old(self).text_location,
            ) && ops_view(final(self).undo_stack@) == record_insert(
                ops_view(old(self).undo_stack@),
                old(self).text_location,
                character,
                true,
            )),
            final(self).redo_stack@.len() == 0,
            final(self).last_insert_time is Some,
            final(self).last_insert_location == Some(final(self).text_location),
            final(self).text_location == move_right_loc(
                final(buffer).text(),
                old(self).text_location,
            ),
            final(self).scroll_offset == scrolled_offset(
                old(self).scroll_offset,
                location_position(final(buffer).text(), final(self).text_location),
                old(self).rect,
            ),
            final(self).needs_redraw,
            same_frame(*final(self), *old(self)),
    {
        let now = now();
        let elapsed = match &self.last_insert_time {
            Some(t) => Some(millis_between(t, &now)),
            None => None,
        };
        self.insert_char_after(character, buffer, elapsed, now);
    }

    /// Breaks the line at the caret, records it for undo and moves the caret
    /// to the start of the new line.
    fn insert_newline(&mut self, buffer: &mut Buffer)
        ensures
            final(buffer).text() == text_insert_newline(old(buffer).text(), old(self).text_location),
            final(buffer).dirty() == (old(buffer).dirty() || old(self).text_location.line_idx
                <= old(buffer).text().len()),
            final(buffer).info() == old(buffer).info(),
            ops_view(final(self).undo_stack@) == recorded_stack(
                ops_view(old(self).undo_stack@),
                old(buffer).text(),
                old(self).text_location,
                Edit::InsertNewLine,
                false,
            ),
            final(self).redo_stack@.len() == 0,
            final(self).last_insert_time is None,
            final(self).last_insert_location is None,
            final(self).text_location == move_right_loc(
                final(buffer).text(),
                old(self).text_location,
            ),
            final(self).scroll_offset == scrolled_offset(
                old(self).scroll_offset,
                location_position(final(buffer).text(), final(self).text_location),
                old(self).rect,
            ),
            final(self).needs_redraw,
            same_frame(*final(self), *old(self)),
    {
        self.last_insert_time = None;
        self.last_insert_location = None;
        let at = self.text_location;
        let grapheme_count_at_split = buffer.grapheme_count(at.line_idx);
        let ghost old_stack = self.undo_stack@;
        self.undo_stack.push(EditOperation::InsertNewLine { at, grapheme_count_at_split });
        assert(ops_view(self.undo_stack@) =~= ops_view(old_stack).push(
            self.undo_stack@.last()@,
        ));
        self.redo_stack.clear();
        buffer.insert_newline(at);
        self.handle_move_command(Move::Right, buffer);
        self.needs_redraw = true;
    }

    /// Deletes the grapheme before the caret, or the line break before it at
    /// the start of a line, records it for undo and moves the caret back.
    fn delete_backward(&mut self, buffer: &mut Buffer)
        ensures
            final(buffer).text() == edit_text(
                old(buffer).text(),
                old(self).text_location,
                Edit::DeleteBackward,
            ),
            final(buffer).dirty() == (old(buffer).dirty() || edit_dirties(
                old(buffer).text(),
                old(self).text_location,
                Edit::DeleteBackward,
            )),
            final(buffer).info() == old(buffer).info(),
            ops_view(final(self).undo_stack@) == recorded_stack(
                ops_view(old(self).undo_stack@),
                old(buffer).text(),
                old(self).text_location,
                Edit::DeleteBackward,
                false,
            ),
            final(self).redo_stack@ == (if recorded_op(
                old(buffer).text(),
                old(self).text_location,
                Edit::DeleteBackward,
            ) is Some {
                Seq::<EditOperation>::empty()
            } else {
                old(self).redo_stack@
            }),
            final(self).last_insert_time is None,
            final(self).last_insert_location is None,
            final(self).text_location == edit_location(
                old(buffer).text(),
                old(self).text_location,
                Edit::DeleteBackward,
            ),
            final(self).scroll_offset == (if edit_moves(
                old(self).text_location,
                Edit::DeleteBackward,
            ) {
                scrolled_offset(
                    old(self).scroll_offset,
                    location_position(old(buffer).text(), final(self).text_location),
                    old(self).rect,
                )
            } else {
                old(self).scroll_offset
            }),
            final(self).needs_redraw == (old(self).needs_redraw || edit_moves(
                old(self).text_location,
                Edit::DeleteBackward,
            )),
            same_frame(*final(self), *old(self)),
    {
        self.last_insert_time = None;
        self.last_insert_location = None;
        if self.text_location.line_idx == 0 && self.text_location.grapheme_idx == 0 {
            return;
        }
        let ghost old_stack = self.undo_stack@;
        if self.text_location.grapheme_idx == 0 {
            let prev_line_idx = self.text_location.line_idx - 1;
            let split_at = buffer.grapheme_count(prev_line_idx);
            self.undo_stack.push(
                EditOperation::DeleteNewLine { line_idx: prev_line_idx, split_at_grapheme: split_at },
            );
            assert(ops_view(self.undo_stack@) =~= ops_view(old_stack).push(
                self.undo_stack@.last()@,
            ));
            self.redo_stack.clear();
            self.handle_move_command(Move::Left, buffer);
            buffer.delete(self.text_location);
        } else {
            self.handle_move_command(Move::Left, buffer);
            let left = self.text_location;
            let found = buffer.get_char_at(left);
            if let Some(ch) = found {
                self.undo_stack.push(EditOperation::delete_char(left, ch));
                assert(ops_view(self.undo_stack@) =~= ops_view(old_stack).push(
                    self.undo_stack@.last()@,
                ));
                self.redo_stack.clear();
                buffer.delete(left);
            }
        }
        self.needs_redraw = true;
    }

    /// Deletes the grapheme at the caret, or the line break at the end of its
    /// line, and records it for undo; the caret stays.
    fn delete(&mut self, buffer: &mut Buffer)
        ensures
            final(buffer).text() == text_delete(old(buffer).text(), old(self).text_location),
            final(buffer).dirty() == (old(buffer).dirty() || edit_dirties(
                old(buffer).text(),
                old(self).text_location,
                Edit::Delete,
            )),
            final(buffer).info() == old(buffer).info(),
            ops_view(final(self).undo_stack@) == recorded_stack(
                ops_view(old(self).undo_stack@),
                old(buffer).text(),
                old(self).text_location,
                Edit::Delete,
                false,
            ),
            final(self).redo_stack@ == (if recorded_op(
                old(buffer).text(),
                old(self).text_location,
                Edit::Delete,
            ) is Some {
                Seq::<EditOperation>::empty()
            } else {
                old(self).redo_stack@
            }),
            final(self).last_insert_time is None,
            final(self).last_insert_location is None,
            final(self).text_location == old(self).text_location,
            final(self).scroll_offset == old(self).scroll_offset,
            final(self).needs_redraw,
            same_frame(*final(self), *old(self)),
    {
        self.last_insert_time = None;
        self.last_insert_location = None;
        let at = self.text_location;
        let grapheme_count = buffer.grapheme_count(at.line_idx);
        let ghost old_stack = self.undo_stack@;
        if at.grapheme_idx >= grapheme_count {
            if at.line_idx.saturating_add(1) < buffer.height() {
                self.undo_stack.push(
                    EditOperation::DeleteNewLine {
                        line_idx: at.line_idx,
                        split_at_grapheme: grapheme_count,
                    },
                );
                assert(ops_view(self.undo_stack@) =~= ops_view(old_stack).push(
                    self.undo_stack@.last()@,
                ));
                self.redo_stack.clear();
                buffer.delete(at);
            }
        } else {
            let found = buffer.get_char_at(at);
            if found.is_some() {
                let ch = found.unwrap();
                self.undo_stack.push(EditOperation::delete_char(at, ch));
                assert(ops_view(self.undo_stack@) =~= ops_view(old_stack).push(
                    self.undo_stack@.last()@,
                ));
                self.redo_stack.clear();
                buffer.delete(at);
            }
        }
        self.needs_redraw = true;
    }
}

impl View {
    /// Applies `command` at the caret: see [`edit_text`], [`edit_location`]
    /// and [`recorded_stack`]. An insert joins the previous one for undo only
    /// when it comes soon enough after it, at the place that one recorded.
    pub fn handle_edit_command(&mut self, command: Edit, buffer: &mut Buffer)
        requires
            command is Insert ==> old(self).text_location.line_idx <= old(buffer).text().len(),
        ensures
            final(buffer).text() == edit_text(old(buffer).text(), old(self).text_location, command),
            final(buffer).dirty() == (old(buffer).dirty() || edit_dirties(
                old(buffer).text(),
                old(self).text_location,
                command,
            )),
            final(buffer).info() == old(buffer).info(),
            ops_view(final(self).undo_stack@) == recorded_stack(
                ops_view(old(self).undo_stack@),
                old(buffer).text(),
                old(self).text_location,
                command,
                false,
            ) || (command is Insert && old(self).last_insert_time is Some
                && old(self).last_insert_location == Some(old(self).text_location) && ops_view(
                final(self).undo_stack@,
            ) == recorded_stack(
                ops_view(old(self).undo_stack@),
                old(buffer).text(),
                old(self).text_location,
                command,
                true,
            )),
            final(self).redo_stack@ == (if recorded_op(
                old(buffer).text(),
                old(self).text_location,
                command,
            ) is Some {
                Seq::<EditOperation>::empty()
            } else {
                old(self).redo_stack@
            }),
            final(self).last_insert_time is Some <==> command is Insert,
            final(self).last_insert_location == (if command is Insert {
                Some(final(self).text_location)
            } else {
                None
            }),
            final(self).text_location == edit_location(
                old(buffer).text(),
                old(self).text_location,
                command,
            ),
            final(self).scroll_offset == (if edit_moves(old(self).text_location, command) {
                scrolled_offset(
                    old(self).scroll_offset,
                    location_position(
                        edit_scroll_text(old(buffer).text(), old(self).text_location, command),
                        final(self).text_location,
                    ),
                    old(self).rect,
                )
            } else {
                old(self).scroll_offset
            }),
            final(self).needs_redraw == (old(self).needs_redraw || !(command is DeleteBackward)
                || edit_moves(old(self).text_location, command)),
            same_frame(*final(self), *old(self)),
    {
        match command {
            Edit::Insert(character) => self.insert_char(character, buffer),
            Edit::Delete => self.delete(buffer),
            Edit::DeleteBackward => self.delete_backward(buffer),
            Edit::InsertNewLine => self.insert_newline(buffer),
        }
    }

    /// Whether undoing now is possible: the last recorded edit, if any, can
    /// be undone on `buffer` (see [`undo_applicable`]).
    pub fn can_undo(&self, buffer: &Buffer) -> (b: bool)
        ensures
            b == (self.undo_stack@.len() > 0 ==> undo_applicable(
                buffer.text(),
                self.undo_stack@.last()@,
            )),
    {
        if self.undo_stack.len() == 0 {
            return true;
        }
        match &self.undo_stack[self.undo_stack.len() - 1] {
            EditOperation::DeleteChar { at, .. } => at.line_idx <= buffer.height(),
            _ => true,
        }
    }

    /// Whether redoing now is possible: the last undone edit, if any, can be
    /// redone on `buffer` (see [`redo_applicable`]).
    pub fn can_redo(&self, buffer: &Buffer) -> (b: bool)
        ensures
            b == (self.redo_stack@.len() > 0 ==> redo_applicable(
                buffer.text(),
                self.redo_stack@.last()@,
            )),
    {
        if self.redo_stack.len() == 0 {
            return true;
        }
        match &self.redo_stack[self.redo_stack.len() - 1] {
            EditOperation::InsertChar { at, .. } => at.line_idx <= buffer.height(),
            EditOperation::InsertGroup { start, .. } => start.line_idx <= buffer.height(),
            _ => true,
        }
    }

    /// Undoes the last recorded edit, if there is one, and moves it to the
    /// redo stack (see [`undo_text`] and [`undo_location`]).
    pub fn undo(&mut self, buffer: &mut Buffer)
        requires
            old(self).undo_stack@.len() > 0 ==> undo_applicable(
                old(buffer).text(),
                old(self).undo_stack@.last()@,
            ),
        ensures
            old(self).undo_stack@.len() == 0 ==> {
                &&& final(buffer).text() == old(buffer).text()
                &&& final(buffer).dirty() == old(buffer).dirty()
                &&& final(self).undo_stack@ == old(self).undo_stack@
                &&& final(self).redo_stack@ == old(self).redo_stack@
                &&& final(self).text_location == old(self).text_location
                &&& final(self).scroll_offset == old(self).scroll_offset
                &&& final(self).needs_redraw == old(self).needs_redraw
            },
            old(self).undo_stack@.len() > 0 ==> {
                let op = old(self).undo_stack@.last();
                &&& final(buffer).text() == undo_text(old(buffer).text(), op@)
                &&& final(self).undo_stack@ == old(self).undo_stack@.drop_last()
                &&& final(self).redo_stack@ == old(self).redo_stack@.push(op)
                &&& final(self).text_location == undo_location(op@)
                &&& final(self).scroll_offset == scrolled_offset(
                    old(self).scroll_offset,
                    location_position(final(buffer).text(), undo_location(op@)),
                    old(self).rect,
                )
                &&& final(self).needs_redraw
            },
            final(buffer).info() == old(buffer).info(),
            old(buffer).dirty() ==> final(buffer).dirty(),
            final(buffer).text() != old(buffer).text() ==> final(buffer).dirty(),
            final(self).last_insert_time == old(self).last_insert_time,
            final(self).last_insert_location == old(self).last_insert_location,
            same_frame(*final(self), *old(self)),
    {
        if let Some(op) = self.undo_stack.pop() {
            self.apply_undo(&op, buffer);
            self.redo_stack.push(op);
            self.scroll_text_location_into_view(buffer);
            self.needs_redraw = true;
        }
    }

    /// Redoes the last undone edit, if there is one, and moves it back to the
    /// undo stack (see [`redo_text`] and [`redo_location`]).
    pub fn redo(&mut self, buffer: &mut Buffer)
        requires
            old(self).redo_stack@.len() > 0 ==> redo_applicable(
                old(buffer).text(),
                old(self).redo_stack@.last()@,
            ),
        ensures
            old(self).redo_stack@.len() == 0 ==> {
                &&& final(buffer).text() == old(buffer).text()
                &&& final(buffer).dirty() == old(buffer).dirty()
                &&& final(self).undo_stack@ == old(self).undo_stack@
                &&& final(self).redo_stack@ == old(self).redo_stack@
                &&& final(self).text_location == old(self).text_location
                &&& final(self).scroll_offset == old(self).scroll_offset
                &&& final(self).needs_redraw == old(self).needs_redraw
            },
            old(self).redo_stack@.len() > 0 ==> {
                let op = old(self).redo_stack@.last();
                &&& final(buffer).text() == redo_text(old(buffer).text(), op@)
                &&& final(self).redo_stack@ == old(self).redo_stack@.drop_last()
                &&& final(self).undo_stack@ == old(self).undo_stack@.push(op)
                &&& final(self).text_location == redo_location(op@)
                &&& final(self).scroll_offset == scrolled_offset(
                    old(self).scroll_offset,
                    location_position(final(buffer).text(), redo_location(op@)),
                    old(self).rect,
                )
                &&& final(self).needs_redraw
            },
            final(buffer).info() == old(buffer).info(),
            old(buffer).dirty() ==> final(buffer).dirty(),
            final(buffer).text() != old(buffer).text() ==> final(buffer).dirty(),
            final(self).last_insert_time == old(self).last_insert_time,
            final(self).last_insert_location == old(self).last_insert_location,
            same_frame(*final(self), *old(self)),
    {
        if let Some(op) = self.redo_stack.pop() {
            self.apply_redo(&op, buffer);
            self.undo_stack.push(op);
            self.scroll_text_location_into_view(buffer);
            self.needs_redraw = true;
        }
    }

    fn apply_undo(&mut self, op: &EditOperation, buffer: &mut Buffer)
        requires
            undo_applicable(old(buffer).text(), op@),
        ensures
            final(buffer).text() == undo_text(old(buffer).text(), op@),
            final(buffer).info() == old(buffer).info(),
            old(buffer).dirty() ==> final(buffer).dirty(),
            final(buffer).text() != old(buffer).text() ==> final(buffer).dirty(),
            final(self).text_location == undo_location(op@),
            final(self).scroll_offset == old(self).scroll_offset,
            final(self).needs_redraw == old(self).needs_redraw,
            keeps_history(*final(self), *old(self)),
    {
        match op {
            EditOperation::InsertChar { at, .. } => {
                buffer.delete(*at);
                self.text_location = *at;
            },
            EditOperation::DeleteChar { at, text } => {
                buffer.insert_char(*text, *at);
                self.text_location = *at;
            },
            EditOperation::InsertNewLine { at, grapheme_count_at_split } => {
                buffer.delete(
                    Location { line_idx: at.line_idx, grapheme_idx: *grapheme_count_at_split },
                );
                self.text_location = *at;
            },
            EditOperation::DeleteNewLine { line_idx, split_at_grapheme } => {
                buffer.insert_newline(
                    Location { line_idx: *line_idx, grapheme_idx: *split_at_grapheme },
                );
                self.text_location = Location {
                    line_idx: line_idx.saturating_add(1),
                    grapheme_idx: 0,
                };
            },
            EditOperation::InsertGroup { start, chars } => {
                let ghost old_text = buffer.text();
                let ghost l = start.line_idx as int;
                let ghost g0 = start.grapheme_idx as int;
                let end_grapheme = start.grapheme_idx.saturating_add(chars.len());
                let mut g = end_grapheme;
                while g > start.grapheme_idx
                    invariant
                        start.grapheme_idx <= g <= end_grapheme,
                        l == start.line_idx,
                        g0 == start.grapheme_idx,
                        delete_back(buffer.text(), l, g0, g - g0) == delete_back(
                            old_text,
                            l,
                            g0,
                            end_grapheme - g0,
                        ),
                        buffer.info() == old(buffer).info(),
                        old(buffer).dirty() ==> buffer.dirty(),
                        buffer.text() != old_text ==> buffer.dirty(),
                    decreases g,
                {
                    g = g - 1;
                    buffer.delete(Location { line_idx: start.line_idx, grapheme_idx: g });
                }
                self.text_location = *start;
            },
        }
    }

    fn apply_redo(&mut self, op: &EditOperation, buffer: &mut Buffer)
        requires
            redo_applicable(old(buffer).text(), op@),
        ensures
            final(buffer).text() == redo_text(old(buffer).text(), op@),
            final(buffer).info() == old(buffer).info(),
            old(buffer).dirty() ==> final(buffer).dirty(),
            final(buffer).text() != old(buffer).text() ==> final(buffer).dirty(),
            final(self).text_location == redo_location(op@),
            final(self).scroll_offset == old(self).scroll_offset,
            final(self).needs_redraw == old(self).needs_redraw,
            keeps_history(*final(self), *old(self)),
    {
        match op {
            EditOperation::InsertChar { at, text } => {
                buffer.insert_char(*text, *at);
                self.text_location = Location {
                    line_idx: at.line_idx,
                    grapheme_idx: at.grapheme_idx.saturating_add(1),
                };
            },
            EditOperation::DeleteChar { at, .. } => {
                buffer.delete(*at);
                self.text_location = *at;
            },
            EditOperation::InsertNewLine { at, .. } => {
                buffer.insert_newline(*at);
                self.text_location = Location {
                    line_idx: at.line_idx.saturating_add(1),
                    grapheme_idx: 0,
                };
            },
            EditOperation::DeleteNewLine { line_idx, split_at_grapheme } => {
                buffer.delete(Location { line_idx: *line_idx, grapheme_idx: *split_at_grapheme });
                self.text_location = Location {
                    line_idx: *line_idx,
                    grapheme_idx: *split_at_grapheme,
                };
            },
            EditOperation::InsertGroup { start, chars } => {
                let ghost old_text = buffer.text();
                let ghost l = start.line_idx as int;
                let ghost g0 = start.grapheme_idx as int;
                let mut current = *start;
                let mut k: usize = 0;
                while k < chars.len()
                    invariant
                        k <= chars@.len(),
                        l == start.line_idx,
                        g0 == start.grapheme_idx,
                        current == loc(sadd(g0, k as int), l),
                        l <= buffer.text().len(),
                        buffer.text() == insert_run(old_text, l, g0, chars@.take(k as int)),
                        buffer.info() == old(buffer).info(),
                        old(buffer).dirty() ==> buffer.dirty(),
                        buffer.text() != old_text ==> buffer.dirty(),
                    decreases chars@.len() - k,
                {
                    let ghost before = buffer.text();
                    buffer.insert_char(chars[k], current);
                    proof {
                        let s = chars@.take(k + 1);
                        assert(s.drop_last() =~= chars@.take(k as int));
                        assert(s.last() == chars@[k as int]);
                    }
                    current.grapheme_idx = current.grapheme_idx.saturating_add(1);
                    k = k + 1;
                }
                assert(chars@.take(chars@.len() as int) =~= chars@);
                self.text_location = current;
            },
        }
    }
}

impl View {
    /// Starts a search, remembering where the caret and the scroll were.
    pub fn enter_search(&mut self)
        ensures
            final(self).search_info == Some(
                SearchInfo {
                    prev_location: old(self).text_location,
                    prev_scroll_offset: old(self).scroll_offset,
                    query: None,
                },
            ),
            final(self).text_location == old(self).text_location,
            final(self).scroll_offset == old(self).scroll_offset,
            final(self).needs_redraw == old(self).needs_redraw,
            final(self).buffer_id == old(self).buffer_id,
            final(self).rect == old(self).rect,
            final(self).is_active == old(self).is_active,
    {
        self.search_info = Some(
            SearchInfo {
                prev_location: self.text_location,
                prev_scroll_offset: self.scroll_offset,
                query: None,
            },
        );
    }

    /// Ends the search, leaving the caret where it is.
    pub fn exit_search(&mut self)
        ensures
            final(self).search_info is None,
            final(self).needs_redraw,
            final(self).text_location == old(self).text_location,
            final(self).scroll_offset == old(self).scroll_offset,
            final(self).buffer_id == old(self).buffer_id,
            final(self).rect == old(self).rect,
            final(self).is_active == old(self).is_active,
    {
        self.search_info = None;
        self.needs_redraw = true;
    }

    /// Ends the search and puts the caret and the scroll back where they
    /// were when it began.
    pub fn dismiss_search(&mut self, buffer: &Buffer)
        ensures
            final(self).search_info is None,
            final(self).needs_redraw,
            final(self).buffer_id == old(self).buffer_id,
            final(self).rect == old(self).rect,
            final(self).is_active == old(self).is_active,
            match old(self).search_info {
                Some(info) => final(self).text_location == info.prev_location
                    && final(self).scroll_offset == scrolled_offset(
                    info.prev_scroll_offset,
                    location_position(buffer.text(), info.prev_location),
                    old(self).rect,
                ),
                None => final(self).text_location == old(self).text_location
                    && final(self).scroll_offset == old(self).scroll_offset,
            },
    {
        if let Some(info) = &self.search_info {
            self.text_location = info.prev_location;
            self.scroll_offset = info.prev_scroll_offset;
            self.scroll_text_location_into_view(buffer);
        }
        self.exit_search();
    }

    /// Searches for `query` from the caret on.
    pub fn search(&mut self, query: &str, buffer: &Buffer)
        requires
            old(self).search_info is Some,
        ensures
            final(self).search_info == Some(
                SearchInfo {
                    prev_location: old(self).search_info->0.prev_location,
                    prev_scroll_offset: old(self).search_info->0.prev_scroll_offset,
                    query: final(self).search_info->0.query,
                },
            ),
            search_query(*final(self)) == Some(query@),
            final(self).buffer_id == old(self).buffer_id,
            final(self).rect == old(self).rect,
            final(self).is_active == old(self).is_active,
            match search_result(
                buffer.text(),
                query@,
                old(self).text_location,
                SearchDirection::Forward,
            ) {
                Some(found) => final(self).text_location == found && final(self).scroll_offset
                    == centered_offset(location_position(buffer.text(), found), old(self).rect),
                None => final(self).text_location == old(self).text_location
                    && final(self).scroll_offset == old(self).scroll_offset,
            },
            final(self).needs_redraw,
    {
        if let Some(info) = &mut self.search_info {
            info.query = Some(Line::from(query));
        }
        let from = self.text_location;
        self.search_in_direction(from, SearchDirection::Forward, buffer);
    }

    fn get_search_query(&self) -> (r: Option<&Line>)
        requires
            search_query(*self) is Some,
        ensures
            r is Some && r->0@ == search_query(*self)->0,
    {
        match &self.search_info {
            Some(info) => match &info.query {
                Some(q) => Some(q),
                None => None,
            },
            None => None,
        }
    }

    fn search_in_direction(&mut self, from: Location, direction: SearchDirection, buffer: &Buffer)
        requires
            search_query(*old(self)) is Some,
        ensures
            match search_result(buffer.text(), search_query(*old(self))->0, from, direction) {
                Some(found) => final(self).text_location == found && final(self).scroll_offset
                    == centered_offset(location_position(buffer.text(), found), old(self).rect),
                None => final(self).text_location == old(self).text_location
                    && final(self).scroll_offset == old(self).scroll_offset,
            },
            final(self).needs_redraw,
            keeps_history(*final(self), *old(self)),
    {
        let query = self.get_search_query().unwrap();
        let q = query.to_string();
        let found = if query.is_empty() {
            None
        } else {
            match direction {
                SearchDirection::Forward => buffer.search_forward(q.as_str(), from),
                SearchDirection::Backward => buffer.search_backward(q.as_str(), from),
            }
        };
        if let Some(location) = found {
            self.text_location = location;
            self.center_text_location(buffer);
        }
        self.needs_redraw = true;
    }

    /// Searches on for the next match after the caret.
    pub fn search_next(&mut self, buffer: &Buffer)
        requires
            search_query(*old(self)) is Some,
        ensures
            match search_result(
                buffer.text(),
                search_query(*old(self))->0,
                loc(
                    sadd(
                        old(self).text_location.grapheme_idx as int,
                        vstd::math::min(search_query(*old(self))->0.len() as int, 1),
                    ),
                    old(self).text_location.line_idx as int,
                ),
                SearchDirection::Forward,
            ) {
                Some(found) => final(self).text_location == found && final(self).scroll_offset
                    == centered_offset(location_position(buffer.text(), found), old(self).rect),
                None => final(self).text_location == old(self).text_location
                    && final(self).scroll_offset == old(self).scroll_offset,
            },
            final(self).needs_redraw,
            keeps_history(*final(self), *old(self)),
    {
        let count = self.get_search_query().unwrap().grapheme_count();
        let step_right: usize = if count < 1 {
            count
        } else {
            1
        };
        let location = Location {
            line_idx: self.text_location.line_idx,
            grapheme_idx: self.text_location.grapheme_idx.saturating_add(step_right),
        };
        self.search_in_direction(location, SearchDirection::Forward, buffer);
    }

    /// Searches back for the previous match before the caret.
    pub fn search_prev(&mut self, buffer: &Buffer)
        requires
            search_query(*old(self)) is Some,
        ensures
            match search_result(
                buffer.text(),
                search_query(*old(self))->0,
                old(self).text_location,
                SearchDirection::Backward,
            ) {
                Some(found) => final(self).text_location == found && final(self).scroll_offset
                    == centered_offset(location_position(buffer.text(), found), old(self).rect),
                None => final(self).text_location == old(self).text_location
                    && final(self).scroll_offset == old(self).scroll_offset,
            },
            final(self).needs_redraw,
            keeps_history(*final(self), *old(self)),
    {
        let from = self.text_location;
        self.search_in_direction(from, SearchDirection::Backward, buffer);
    }
}

impl UIComponent for View {
    open spec fn ui_rect(&self) -> Rect {
        self.rect
    }

    open spec fn ui_redraw(&self) -> bool {
        self.needs_redraw
    }

    fn mark_redraw(&mut self, value: bool)
        ensures
            final(self).needs_redraw == value,
            final(self).text_location == old(self).text_location,
            final(self).scroll_offset == old(self).scroll_offset,
            keeps_history(*final(self), *old(self)),
    {
        self.needs_redraw = value;
    }

    fn needs_redraw(&self) -> (b: bool)
        ensures
            b == self.needs_redraw,
    {
        self.needs_redraw
    }

    fn set_size(&mut self, rect: Rect)
        ensures
            final(self).rect == rect,
            final(self).needs_redraw == old(self).needs_redraw,
            final(self).text_location == old(self).text_location,
            final(self).scroll_offset == old(self).scroll_offset,
            final(self).id == old(self).id,
            final(self).buffer_id == old(self).buffer_id,
            final(self).is_active == old(self).is_active,
            final(self).search_info == old(self).search_info,
            final(self).undo_stack@ == old(self).undo_stack@,
            final(self).redo_stack@ == old(self).redo_stack@,
    {
        self.rect = rect;
    }

    fn rect(&self) -> (r: Rect)
        ensures
            r == self.rect,
    {
        self.rect
    }
}

} // verus!
