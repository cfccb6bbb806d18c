//! The bar at the top of the screen: a tab for each open buffer, the one
//! the active view shows highlighted, then the minimized panes.
use crate::editor::buffermanager::BufferManager;
use crate::editor::fileinfo::{file_name_of, path_file_name};
use crate::editor::pane::{Pane, PaneContent};
use crate::editor::panemanager::PaneManager;
use crate::editor::textfmt::{decimal, push_decimal};
use crate::editor::uicomponent::UIComponent;
use crate::editor::utf8text::{char_byte_len, char_len, lemma_encode_concat, lemma_encode_push};
use crate::prelude::{Position, Rect};
use vstd::prelude::*;
use vstd::string::{StrSliceExecFns, StringExecFns};
use vstd::utf8::encode_utf8;

verus! {

/// A piece of text to draw on the bar: where it starts, and whether it is
/// highlighted.
#[derive(Debug)]
pub struct BarItem {
    pub col: usize,
    pub text: String,
    pub highlighted: bool,
}

/// The text of the tab of buffer `id` named `name`.
pub open spec fn tab_text(id: usize, name: Seq<char>) -> Seq<char> {
    " ["@ + decimal(id as nat) + ": "@ + name + "] "@
}

/// The text of the entry of minimized pane `id`.
pub open spec fn minimized_text(id: usize) -> Seq<char> {
    "<P"@ + decimal(id as nat) + "> "@
}

/// The separator before the minimized panes.
pub open spec fn minimized_label() -> Seq<char> {
    " | MIN: "@
}

/// The name a tab shows for a buffer stored at `path`: the path's file
/// name, or `untitled`.
pub open spec fn tab_name_of(path: Option<Seq<char>>) -> Seq<char> {
    match path {
        Some(p) => match file_name_of(p) {
            Some(name) => name,
            None => "untitled"@,
        },
        None => "untitled"@,
    }
}

/// The number of bytes of the UTF-8 encoding of `text`: the columns it
/// takes on the bar.
pub open spec fn byte_len(text: Seq<char>) -> int {
    encode_utf8(text).len() as int
}

/// How many characters from the start of `text` fit whole in `room` bytes.
pub open spec fn fitting(text: Seq<char>, room: int) -> nat
    decreases text.len(),
{
    if text.len() == 0 || char_len(text[0]) > room {
        0
    } else {
        1 + fitting(text.drop_first(), room - char_len(text[0]))
    }
}

/// `text` cut to at most `room` bytes. A cut inside a character stops
/// before that character.
pub open spec fn cut(text: Seq<char>, room: int) -> Seq<char> {
    if byte_len(text) > room {
        text.take(fitting(text, room) as int)
    } else {
        text
    }
}

proof fn lemma_fitting(text: Seq<char>, room: int)
    requires
        room >= 0,
    ensures
        fitting(text, room) <= text.len(),
        byte_len(text.take(fitting(text, room) as int)) <= room,
        byte_len(text) <= room ==> fitting(text, room) == text.len(),
    decreases text.len(),
{
    if text.len() == 0 {
        assert(text.take(0) =~= Seq::<char>::empty());
    } else {
        lemma_encode_concat(seq![text[0]], text.drop_first());
        assert(seq![text[0]] + text.drop_first() =~= text);
        lemma_encode_push(Seq::<char>::empty(), text[0]);
        assert(Seq::<char>::empty().push(text[0]) =~= seq![text[0]]);
        if char_len(text[0]) > room {
            assert(text.take(0) =~= Seq::<char>::empty());
        } else {
            let rest = text.drop_first();
            let r = room - char_len(text[0]);
            lemma_fitting(rest, r);
            let n = fitting(rest, r) as int;
            assert(text.take(n + 1) =~= seq![text[0]] + rest.take(n));
            lemma_encode_concat(seq![text[0]], rest.take(n));
        }
    }
}

/// A cut takes at most the room it is given, and cuts nothing from a text
/// that fits.
pub proof fn lemma_cut(text: Seq<char>, room: int)
    requires
        room >= 0,
    ensures
        byte_len(cut(text, room)) <= room,
        byte_len(text) <= room ==> cut(text, room) == text,
{
    lemma_fitting(text, room);
}

/// The column where text `k` of a run of `texts` starts, the run starting
/// at column `col` of a bar `width` wide: each text starts where the
/// previous one ended, cut to the room left (see [`cut`]).
pub open spec fn col_at(texts: Seq<Seq<char>>, col: int, width: int, k: int) -> int
    decreases k,
{
    if k <= 0 {
        col
    } else {
        let p = col_at(texts, col, width, k - 1);
        p + byte_len(cut(texts[k - 1], width - p))
    }
}

/// Whether the first `n` texts of a run are the ones drawn: each of them
/// starts before the bar's end, and the next one, if any, does not.
pub open spec fn drawn_count(texts: Seq<Seq<char>>, col: int, width: int, n: int) -> bool {
    &&& 0 <= n <= texts.len()
    &&& forall|k: int| 0 <= k < n ==> #[trigger] col_at(texts, col, width, k) < width
    &&& n < texts.len() ==> col_at(texts, col, width, n) >= width
}

/// `items` and `hitboxes` are exactly the pieces drawn of a run of `texts`
/// (the texts of the items `ids`) from column `col` of a bar `width` wide
/// whose left edge is at `left`: each at its column (see [`col_at`]), cut
/// to the room left, highlighted when it is `highlight`'s, with its hitbox.
pub open spec fn run_drawn(
    items: Seq<BarItem>,
    hitboxes: Seq<(usize, usize, usize)>,
    texts: Seq<Seq<char>>,
    ids: Seq<usize>,
    highlight: Option<usize>,
    col: int,
    width: int,
    left: int,
) -> bool {
    &&& drawn_count(texts, col, width, items.len() as int)
    &&& hitboxes.len() == items.len()
    &&& forall|k: int|
        0 <= k < items.len() ==> {
            let item = #[trigger] items[k];
            let at = col_at(texts, col, width, k);
            let shown = cut(texts[k], width - at);
            &&& item.col == left + at
            &&& item.text@ == shown
            &&& item.highlighted == (highlight == Some(ids[k]))
            &&& hitboxes[k] == (ids[k], item.col, (item.col + byte_len(shown)) as usize)
        }
}

/// The ids of `ids` whose pane `panes` holds and is minimized, in order.
pub open spec fn minimized_of(ids: Seq<usize>, panes: Map<usize, Pane>) -> Seq<usize>
    decreases ids.len(),
{
    if ids.len() == 0 {
        Seq::empty()
    } else {
        let rest = minimized_of(ids.drop_last(), panes);
        let id = ids.last();
        if panes.contains_key(id) && panes[id].is_minimized {
            rest.push(id)
        } else {
            rest
        }
    }
}

/// The buffer of the view in the active pane of `pm`, if it shows one.
pub open spec fn active_buffer_of(pm: PaneManager) -> Option<usize> {
    if pm.panes().contains_key(pm.active_id()) {
        match pm.panes()[pm.active_id()].content {
            PaneContent::TextView(v) => Some(v.buffer_id),
            _ => None,
        }
    } else {
        None
    }
}

/// The texts of the tabs of the buffers of `bm`, by increasing id.
pub open spec fn buffer_tab_texts(bm: BufferManager) -> Seq<Seq<char>> {
    bm.id_list().map_values(|id: usize| tab_text(id, tab_name_of(bm.buffers()[id].info().path())))
}

/// `items` and the hitboxes are what a bar `width` wide with its left edge
/// at `left` shows: the run of the tab texts `texts` (of the buffers `ids`)
/// from its left edge (see [`run_drawn`]), the tab of `active`
/// highlighted; then, when panes are minimized and more than the label's
/// width is left after the tabs, the label ` | MIN: ` and the run of the
/// entries of the panes `minimized`.
pub open spec fn bar_shows(
    items: Seq<BarItem>,
    tab_hitboxes: Seq<(usize, usize, usize)>,
    minimized_hitboxes: Seq<(usize, usize, usize)>,
    texts: Seq<Seq<char>>,
    ids: Seq<usize>,
    active: Option<usize>,
    minimized: Seq<usize>,
    width: int,
    left: int,
) -> bool {
    let n = tab_hitboxes.len() as int;
    let end = col_at(texts, 0, width, n);
    let shows_min = minimized.len() > 0 && end + 8 < width;
    &&& n <= items.len()
    &&& run_drawn(items.take(n), tab_hitboxes, texts, ids, active, 0, width, left)
    &&& !shows_min ==> items.len() == n && minimized_hitboxes.len() == 0
    &&& shows_min ==> {
        &&& items.len() > n
        &&& items[n].col == left + end
        &&& items[n].text@ == minimized_label()
        &&& !items[n].highlighted
        &&& run_drawn(
            items.skip(n + 1),
            minimized_hitboxes,
            minimized_texts(minimized),
            minimized,
            None,
            end + 8,
            width,
            left,
        )
    }
}

/// The bar at the top of the screen.
pub struct BufferBar {
    pub rect: Rect,
    pub needs_redraw: bool,
    /// The columns `[start, end)` of each buffer's tab: `(buffer id, start, end)`.
    pub tab_hitboxes: Vec<(usize, usize, usize)>,
    /// The columns `[start, end)` of each minimized pane: `(pane id, start, end)`.
    pub minimized_hitboxes: Vec<(usize, usize, usize)>,
}

impl Default for BufferBar {
    fn default() -> (r: Self)
        ensures
            r.rect == Rect::default_spec(),
            !r.needs_redraw,
            r.tab_hitboxes@.len() == 0,
            r.minimized_hitboxes@.len() == 0,
    {
        BufferBar {
            rect: Rect::default(),
            needs_redraw: false,
            tab_hitboxes: Vec::new(),
            minimized_hitboxes: Vec::new(),
        }
    }
}

/// `text` cut to at most `room` bytes (see [`cut`]).
fn cut_text(text: &str, room: usize) -> (r: String)
    ensures
        r@ == cut(text@, room as int),
{
    let line = crate::editor::line::Line::from(text);
    let chars = line.as_chars();
    let ghost t = text@;
    let mut k: usize = 0;
    let mut used: usize = 0;
    proof {
        assert(t.skip(0) =~= t);
        assert(t.take(0) =~= Seq::<char>::empty());
    }
    while k < chars.len() && char_byte_len(chars[k]) <= room - used
        invariant
            chars@ == t,
            k <= t.len(),
            used <= room,
            used == byte_len(t.take(k as int)),
            fitting(t, room as int) == k + fitting(t.skip(k as int), room - used),
        decreases t.len() - k,
    {
        let c = chars[k];
        proof {
            let rest = t.skip(k as int);
            assert(rest[0] == c);
            assert(rest.drop_first() =~= t.skip(k + 1));
            lemma_encode_push(t.take(k as int), c);
            assert(t.take(k as int).push(c) =~= t.take(k + 1));
        }
        used = used + char_byte_len(c);
        k = k + 1;
    }
    if k == chars.len() {
        assert(t.take(k as int) =~= t);
        return String::from_str(text);
    }
    proof {
        assert(t.skip(k as int)[0] == t[k as int]);
        lemma_encode_push(t.take(k as int), t[k as int]);
        assert(t.take(k as int).push(t[k as int]) =~= t.take(k + 1));
        lemma_encode_concat(t.take(k + 1), t.skip(k + 1));
        assert(t.take(k + 1) + t.skip(k + 1) =~= t);
    }
    String::from_str(text.substring_char(0, k))
}

/// The text of the tab of buffer `id` named `name`.
fn make_tab_text(id: usize, name: &str) -> (s: String)
    ensures
        s@ == tab_text(id, name@),
{
    let mut s = String::from_str(" [");
    push_decimal(&mut s, id);
    s.append(": ");
    s.append(name);
    s.append("] ");
    s
}

/// The text of the entry of minimized pane `id`.
fn make_minimized_text(id: usize) -> (s: String)
    ensures
        s@ == minimized_text(id),
{
    let mut s = String::from_str("<P");
    push_decimal(&mut s, id);
    s.append("> ");
    s
}

proof fn lemma_col_at_bound(texts: Seq<Seq<char>>, col: int, width: int, k: int)
    requires
        col <= width,
        0 <= k <= texts.len(),
    ensures
        col <= col_at(texts, col, width, k) <= width,
    decreases k,
{
    if k > 0 {
        lemma_col_at_bound(texts, col, width, k - 1);
        let p = col_at(texts, col, width, k - 1);
        lemma_cut(texts[k - 1], width - p);
    }
}

impl BufferBar {
    /// Lays out the run of `texts` (of the items `ids`) from column `col`:
    /// pushes a piece for each text drawn (see [`drawn_count`] and
    /// [`col_at`]), placed at the bar's left edge plus its column and
    /// highlighted when it is `highlight`'s, with its hitbox; returns the
    /// column where the run ends.
    fn lay_out_run(
        &self,
        texts: &Vec<String>,
        ids: &Vec<usize>,
        highlight: Option<usize>,
        col: usize,
        items: &mut Vec<BarItem>,
        hitboxes: &mut Vec<(usize, usize, usize)>,
    ) -> (end: usize)
        requires
            texts@.len() == ids@.len(),
            col <= self.rect.size.width,
            self.rect.position.col + self.rect.size.width <= usize::MAX,
        ensures
            final(items)@.len() >= old(items)@.len(),
            final(items)@.len() - old(items)@.len() == final(hitboxes)@.len() - old(
                hitboxes,
            )@.len(),
            final(items)@.take(old(items)@.len() as int) == old(items)@,
            final(hitboxes)@.take(old(hitboxes)@.len() as int) == old(hitboxes)@,
            run_drawn(
                final(items)@.skip(old(items)@.len() as int),
                final(hitboxes)@.skip(old(hitboxes)@.len() as int),
                texts@.map_values(|t: String| t@),
                ids@,
                highlight,
                col as int,
                self.rect.size.width as int,
                self.rect.position.col as int,
            ),
            end == col_at(
                texts@.map_values(|t: String| t@),
                col as int,
                self.rect.size.width as int,
                final(items)@.len() - old(items)@.len(),
            ),
    {
        let width = self.rect.size.width;
        let left = self.rect.position.col;
        let ghost all = texts@.map_values(|t: String| t@);
        let mut current_col = col;
        let mut k: usize = 0;
        let ghost items0 = items@;
        let ghost hit0 = hitboxes@;
        while k < texts.len() && current_col < width
            invariant
                k <= texts@.len(),
                texts@.len() == ids@.len(),
                all == texts@.map_values(|t: String| t@),
                col <= width,
                width == self.rect.size.width,
                left == self.rect.position.col,
                left + width <= usize::MAX,
                current_col == col_at(all, col as int, width as int, k as int),
                forall|j: int| 0 <= j < k ==> #[trigger] col_at(all, col as int, width as int, j) < width,
                items@.len() == items0.len() + k,
                hitboxes@.len() == hit0.len() + k,
                forall|i: int| 0 <= i < items0.len() ==> items@[i] == items0[i],
                forall|i: int| 0 <= i < hit0.len() ==> hitboxes@[i] == hit0[i],
                forall|j: int|
                    0 <= j < k ==> {
                        let item = #[trigger] items@[items0.len() + j];
                        let at = col_at(all, col as int, width as int, j);
                        let shown = cut(all[j], width - at);
                        &&& item.col == left + at
                        &&& item.text@ == shown
                        &&& item.highlighted == (highlight == Some(ids@[j]))
                        &&& hitboxes@[hit0.len() + j] == (
                            ids@[j],
                            item.col,
                            (item.col + byte_len(shown)) as usize,
                        )
                    },
            decreases texts@.len() - k,
        {
            proof {
                lemma_col_at_bound(all, col as int, width as int, k as int);
                lemma_col_at_bound(all, col as int, width as int, k + 1);
            }
            let remaining = width - current_col;
            let shown = cut_text(texts[k].as_str(), remaining);
            proof {
                lemma_cut(all[k as int], remaining as int);
            }
            let shown_len = shown.as_str().len();
            let start_col = left + current_col;
            let id = ids[k];
            assert(all[k as int] == texts@[k as int]@);
            assert(col_at(all, col as int, width as int, k + 1) == current_col + byte_len(shown@));
            items.push(BarItem { col: start_col, text: shown, highlighted: highlight == Some(id) });
            hitboxes.push((id, start_col, start_col + shown_len));
            current_col = current_col + shown_len;
            k = k + 1;
        }
        proof {
            assert(drawn_count(all, col as int, width as int, k as int));
            assert(items@.take(items0.len() as int) =~= items0);
            assert(hitboxes@.take(hit0.len() as int) =~= hit0);
            let its = items@.skip(items0.len() as int);
            let hbs = hitboxes@.skip(hit0.len() as int);
            assert forall|j: int| 0 <= j < its.len() implies {
                let item = #[trigger] its[j];
                let at = col_at(all, col as int, width as int, j);
                let shown = cut(all[j], width - at);
                &&& item.col == left + at
                &&& item.text@ == shown
                &&& item.highlighted == (highlight == Some(ids@[j]))
                &&& hbs[j] == (ids@[j], item.col, (item.col + byte_len(shown)) as usize)
            } by {
                assert(its[j] == items@[items0.len() + j]);
                assert(hbs[j] == hitboxes@[hit0.len() + j]);
            }
        }
        current_col
    }
}

/// The texts of the tabs `tabs`.
pub open spec fn tab_texts(tabs: Seq<(usize, String)>) -> Seq<Seq<char>> {
    tabs.map_values(|t: (usize, String)| tab_text(t.0, t.1@))
}

/// The buffer ids of the tabs `tabs`.
pub open spec fn tab_ids(tabs: Seq<(usize, String)>) -> Seq<usize> {
    tabs.map_values(|t: (usize, String)| t.0)
}

/// The texts of the entries of the minimized panes `ids`.
pub open spec fn minimized_texts(ids: Seq<usize>) -> Seq<Seq<char>> {
    ids.map_values(|id: usize| minimized_text(id))
}

impl BufferBar {
    /// What the bar shows: the tabs of `tabs` from its left edge (see
    /// [`run_drawn`]), the tab of buffer `active` highlighted; then, when
    /// panes are minimized and more than the label's width is left, the
    /// label ` | MIN: ` and an entry for each pane of `minimized`. The
    /// hitboxes are set anew, and the bar no longer needs drawing.
    pub fn lay_out(
        &mut self,
        tabs: &Vec<(usize, String)>,
        active: Option<usize>,
        minimized: &Vec<usize>,
    ) -> (r: Vec<BarItem>)
        requires
            old(self).rect.position.col + old(self).rect.size.width <= usize::MAX,
        ensures
            final(self).rect == old(self).rect,
            !final(self).needs_redraw,
            bar_shows(
                r@,
                final(self).tab_hitboxes@,
                final(self).minimized_hitboxes@,
                tab_texts(tabs@),
                tab_ids(tabs@),
                active,
                minimized@,
                old(self).rect.size.width as int,
                old(self).rect.position.col as int,
            ),
    {
        let mut texts: Vec<String> = Vec::new();
        let mut ids: Vec<usize> = Vec::new();
        let mut k: usize = 0;
        while k < tabs.len()
            invariant
                k <= tabs@.len(),
                texts@.len() == k,
                ids@.len() == k,
                forall|i: int|
                    0 <= i < k ==> #[trigger] texts@[i]@ == tab_text(tabs@[i].0, tabs@[i].1@),
                forall|i: int| 0 <= i < k ==> #[trigger] ids@[i] == tabs@[i].0,
            decreases tabs@.len() - k,
        {
            texts.push(make_tab_text(tabs[k].0, tabs[k].1.as_str()));
            ids.push(tabs[k].0);
            k = k + 1;
        }
        assert(texts@.map_values(|t: String| t@) =~= tab_texts(tabs@));
        assert(ids@ =~= tab_ids(tabs@));
        let mut items: Vec<BarItem> = Vec::new();
        let mut tab_hb: Vec<(usize, usize, usize)> = Vec::new();
        let end = self.lay_out_run(&texts, &ids, active, 0, &mut items, &mut tab_hb);
        let ghost n = items@.len();
        assert(items@.skip(0) =~= items@);
        assert(tab_hb@.skip(0) =~= tab_hb@);
        let mut min_hb: Vec<(usize, usize, usize)> = Vec::new();
        let width = self.rect.size.width;
        proof {
            lemma_col_at_bound(tab_texts(tabs@), 0, width as int, n as int);
        }
        if minimized.len() > 0 && end < width && width - end > 8 {
            items.push(
                BarItem {
                    col: self.rect.position.col + end,
                    text: String::from_str(" | MIN: "),
                    highlighted: false,
                },
            );
            let mut mtexts: Vec<String> = Vec::new();
            let mut j: usize = 0;
            while j < minimized.len()
                invariant
                    j <= minimized@.len(),
                    mtexts@.len() == j,
                    forall|i: int| 0 <= i < j ==> #[trigger] mtexts@[i]@ == minimized_text(minimized@[i]),
                decreases minimized@.len() - j,
            {
                mtexts.push(make_minimized_text(minimized[j]));
                j = j + 1;
            }
            assert(mtexts@.map_values(|t: String| t@) =~= minimized_texts(minimized@));
            let ghost before = items@;
            let _ = self.lay_out_run(&mtexts, minimized, None, end + 8, &mut items, &mut min_hb);
            proof {
                reveal_strlit(" | MIN: ");
                assert(before.len() == n + 1);
                assert(items@.take(before.len() as int)[n as int] == items@[n as int]);
                assert(items@[n as int] == before[n as int]);
                assert(items@.take(n as int) =~= before.take(n as int));
                assert(items@.skip((n + 1) as int) =~= items@.skip(before.len() as int));
                assert(min_hb@.skip(0) =~= min_hb@);
            }
        }
        self.tab_hitboxes = tab_hb;
        self.minimized_hitboxes = min_hb;
        self.needs_redraw = false;
        items
    }

    /// What the bar shows for the open buffers and the panes (see
    /// [`BufferBar::lay_out`], [`buffer_tabs`] and [`minimized_panes`]): the
    /// tab of the buffer of the active view is highlighted.
    pub fn render(&mut self, buffer_manager: &BufferManager, pane_manager: &PaneManager) -> (r: Vec<
        BarItem,
    >)
        requires
            pane_manager.wf(),
            old(self).rect.position.col + old(self).rect.size.width <= usize::MAX,
        ensures
            final(self).rect == old(self).rect,
            !final(self).needs_redraw,
            bar_shows(
                r@,
                final(self).tab_hitboxes@,
                final(self).minimized_hitboxes@,
                buffer_tab_texts(*buffer_manager),
                buffer_manager.id_list(),
                active_buffer_of(*pane_manager),
                minimized_of(pane_manager.order(), pane_manager.panes()),
                old(self).rect.size.width as int,
                old(self).rect.position.col as int,
            ),
    {
        let tabs = buffer_tabs(buffer_manager);
        proof {
            assert(tab_texts(tabs@) =~= buffer_tab_texts(*buffer_manager));
            assert(tab_ids(tabs@) =~= buffer_manager.id_list());
        }
        let active = match pane_manager.active_pane() {
            Some(p) => match p.view() {
                Some(v) => Some(v.buffer_id()),
                None => None,
            },
            None => None,
        };
        let minimized = minimized_panes(pane_manager);
        self.lay_out(&tabs, active, &minimized)
    }
}

impl UIComponent for BufferBar {
    open spec fn ui_rect(&self) -> Rect {
        self.rect
    }

    open spec fn ui_redraw(&self) -> bool {
        self.needs_redraw
    }

    fn mark_redraw(&mut self, value: bool)
        ensures
            final(self).needs_redraw == value,
            final(self).rect == old(self).rect,
    {
        self.needs_redraw = value;
    }

    fn needs_redraw(&self) -> (b: bool)
        ensures
            b == self.needs_redraw,
    {
        self.needs_redraw
    }

    fn set_size(&mut self, rect: Rect)
        ensures
            final(self).rect == rect,
            final(self).needs_redraw == old(self).needs_redraw,
    {
        self.rect = rect;
    }

    fn rect(&self) -> (r: Rect)
        ensures
            r == self.rect,
    {
        self.rect
    }
}

/// The tab name of a buffer stored at `path` (see [`tab_name_of`]).
fn tab_name(path: Option<&String>) -> (s: String)
    ensures
        s@ == tab_name_of(
            match path {
                Some(p) => Some(p@),
                None => None,
            },
        ),
{
    match path {
        Some(p) => match path_file_name(p.as_str()) {
            Some(name) => name,
            None => String::from_str("untitled"),
        },
        None => String::from_str("untitled"),
    }
}

/// The tabs of the open buffers, by increasing id: each id with the name
/// its tab shows (see [`tab_name_of`]).
pub fn buffer_tabs(buffer_manager: &BufferManager) -> (r: Vec<(usize, String)>)
    ensures
        r@.len() == buffer_manager.id_list().len(),
        forall|i: int| 0 <= i < r@.len() ==> (#[trigger] r@[i]).0 == buffer_manager.id_list()[i],
        forall|i: int, j: int| 0 <= i < j < r@.len() ==> r@[i].0 < r@[j].0,
        forall|id: usize|
            buffer_manager.buffers().dom().contains(id) <==> exists|i: int|
                0 <= i < r@.len() && #[trigger] r@[i].0 == id,
        forall|i: int|
            0 <= i < r@.len() ==> r@[i].1@ == tab_name_of(
                buffer_manager.buffers()[#[trigger] r@[i].0].info().path(),
            ),
{
    let ids = buffer_manager.ids();
    let mut r: Vec<(usize, String)> = Vec::new();
    let mut k: usize = 0;
    while k < ids.len()
        invariant
            k <= ids@.len(),
            r@.len() == k,
            ids@ == buffer_manager.id_list(),
            forall|i: int, j: int| 0 <= i < j < ids@.len() ==> ids@[i] < ids@[j],
            forall|id: usize| buffer_manager.buffers().dom().contains(id) <==> ids@.contains(id),
            forall|i: int|
                #![trigger r@[i]]
                0 <= i < k ==> r@[i].0 == ids@[i] && r@[i].1@ == tab_name_of(
                    buffer_manager.buffers()[r@[i].0].info().path(),
                ),
        decreases ids@.len() - k,
    {
        let id = ids[k];
        assert(ids@.contains(id));
        let name = match buffer_manager.get(id) {
            Some(b) => tab_name(b.get_file_info().get_path()),
            None => String::new(),
        };
        r.push((id, name));
        k = k + 1;
    }
    proof {
        assert forall|id: usize|
            buffer_manager.buffers().dom().contains(id) implies exists|i: int|
                0 <= i < r@.len() && #[trigger] r@[i].0 == id by {
            assert(ids@.contains(id));
            let i = choose|i: int| 0 <= i < ids@.len() && ids@[i] == id;
            assert(0 <= i < ids@.len());
            assert(r@.len() == ids@.len());
            assert(r@[i].0 == ids@[i]);
            assert(0 <= i < r@.len() && r@[i].0 == id);
        }
        assert forall|id: usize|
            (exists|i: int| 0 <= i < r@.len() && #[trigger] r@[i].0 == id) implies buffer_manager.buffers().dom().contains(id) by {
            let i = choose|i: int| 0 <= i < r@.len() && #[trigger] r@[i].0 == id;
            assert(r@[i].0 == ids@[i]);
            assert(ids@[i] == id);
            assert(ids@.contains(id));
        }
    }
    r
}

/// The ids of the minimized panes, each once.
pub fn minimized_panes(pane_manager: &PaneManager) -> (r: Vec<usize>)
    requires
        pane_manager.wf(),
    ensures
        r@ == minimized_of(pane_manager.order(), pane_manager.panes()),
        r@.no_duplicates(),
        forall|id: usize|
            #[trigger] r@.contains(id) <==> pane_manager.panes().contains_key(id)
                && pane_manager.panes()[id].is_minimized,
{
    let ids = pane_manager.ids();
    let mut r: Vec<usize> = Vec::new();
    let mut k: usize = 0;
    while k < ids.len()
        invariant
            k <= ids@.len(),
            pane_manager.wf(),
            ids@ == pane_manager.order(),
            r@ == minimized_of(ids@.take(k as int), pane_manager.panes()),
            ids@.no_duplicates(),
            forall|id: usize| #[trigger] ids@.contains(id) <==> pane_manager.panes().contains_key(id),
            r@.no_duplicates(),
            forall|x: usize|
                #[trigger] r@.contains(x) ==> pane_manager.panes().contains_key(x)
                    && pane_manager.panes()[x].is_minimized && exists|j: int|
                    0 <= j < k && ids@[j] == x,
            forall|j: int|
                0 <= j < k && pane_manager.panes().contains_key(ids@[j])
                    && pane_manager.panes()[ids@[j]].is_minimized ==> r@.contains(
                    #[trigger] ids@[j],
                ),
        decreases ids@.len() - k,
    {
        let id = ids[k];
        assert(ids@.contains(id));
        assert(ids@.take(k + 1).drop_last() =~= ids@.take(k as int));
        let minimized = match pane_manager.get_pane(id) {
            Some(p) => p.is_minimized,
            None => false,
        };
        if minimized {
            proof {
                if r@.contains(id) {
                    let j = choose|j: int| 0 <= j < k && ids@[j] == id;
                    assert(ids@[j] == ids@[k as int]);
                }
            }
            let ghost r0 = r@;
            r.push(id);
            proof {
                assert forall|x: usize| #[trigger] r@.contains(x) implies r0.contains(x) || x == id by {
                    let i = choose|i: int| 0 <= i < r@.len() && r@[i] == x;
                    if i < r0.len() {
                        assert(r0[i] == x);
                    }
                }
                assert forall|x: usize| r0.contains(x) implies #[trigger] r@.contains(x) by {
                    let i = choose|i: int| 0 <= i < r0.len() && r0[i] == x;
                    assert(r@[i] == x);
                }
                assert(r@[r@.len() - 1] == id);
                assert(r@.contains(id));
                assert forall|i: int, j: int| 0 <= i < j < r@.len() implies r@[i] != r@[j] by {
                    if j == r@.len() - 1 {
                        assert(r0.contains(r@[i]));
                    }
                }
            }
        }
        k = k + 1;
    }
    proof {
        assert(ids@.take(ids@.len() as int) =~= ids@);
        assert forall|id: usize|
            #[trigger] r@.contains(id) <==> pane_manager.panes().contains_key(id)
                && pane_manager.panes()[id].is_minimized by {
            if pane_manager.panes().contains_key(id) && pane_manager.panes()[id].is_minimized {
                assert(ids@.contains(id));
                let j = choose|j: int| 0 <= j < ids@.len() && ids@[j] == id;
                assert(r@.contains(ids@[j]));
            }
        }
    }
    r
}

} // verus!
