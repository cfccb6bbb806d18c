//! A floating list of the entries of a directory, with a selection that
//! arrow keys and clicks move. Reading directories and asking what a path is
//! are left to the caller, which hands the listings in.
use crate::editor::command::Move;
use crate::editor::pane::{ClickAction, PluginComponent};
use crate::editor::stdtext::string_push;
use crate::editor::uicomponent::UIComponent;
use crate::prelude::{Position, Rect};
use vstd::prelude::*;
use vstd::string::StringExecFns;

verus! {

/// An entry of a directory.
#[derive(Clone, Debug)]
pub struct FileEntry {
    pub name: String,
    pub is_dir: bool,
}

/// What a selection led to.
#[derive(Clone, Debug)]
pub enum FileExplorerAction {
    /// The explorer now lists another directory.
    DirectoryChanged,
    /// The selection is a file to open.
    OpenFile(String),
    /// Nothing happened.
    Nothing,
}

/// What a path names on disk.
#[derive(Clone, Copy, Debug, PartialEq, Eq, Structural)]
pub enum PathKind {
    Directory,
    File,
    Other,
}

/// `std::path::Path::parent` of a path: the path without its last
/// component, if it has one.
pub uninterp spec fn parent_path(path: Seq<char>) -> Option<Seq<char>>;

/// `std::path::Path::join` of a directory and a name.
pub uninterp spec fn joined_path(dir: Seq<char>, name: Seq<char>) -> Seq<char>;

/// `Path::parent`, as a string: depends on the path alone, so its result is
/// named by [`parent_path`].
#[verifier::external_body]
fn path_parent(path: &str) -> (r: Option<String>)
    ensures
        match r {
            Some(p) => parent_path(path@) == Some(p@),
            None => parent_path(path@) is None,
        },
{
    std::path::Path::new(path).parent().map(|p| p.to_string_lossy().into_owned())
}

/// `Path::join`, as a string: depends on its arguments alone, so its result
/// is named by [`joined_path`].
#[verifier::external_body]
fn path_join(dir: &str, name: &str) -> (r: String)
    ensures
        r@ == joined_path(dir@, name@),
{
    std::path::Path::new(dir).join(name).to_string_lossy().into_owned()
}

/// `a` comes before `b`, or is equal to it, in the order of `String`:
/// character by character, by code point.
pub open spec fn name_le(a: Seq<char>, b: Seq<char>) -> bool
    decreases a.len(),
{
    if a.len() == 0 {
        true
    } else if b.len() == 0 {
        false
    } else if (a[0] as u32) < (b[0] as u32) {
        true
    } else if (a[0] as u32) > (b[0] as u32) {
        false
    } else {
        name_le(a.drop_first(), b.drop_first())
    }
}

/// The index of the first entry of `s` whose name comes after `name`, or the length.
pub open spec fn first_after(s: Seq<FileEntry>, name: Seq<char>) -> int
    decreases s.len(),
{
    if s.len() == 0 {
        0
    } else if !name_le(s[0].name@, name) {
        0
    } else {
        1 + first_after(s.drop_first(), name)
    }
}

/// The entries sorted by name; entries of equal names keep their order.
pub open spec fn sorted_by_name(s: Seq<FileEntry>) -> Seq<FileEntry>
    decreases s.len(),
{
    if s.len() == 0 {
        Seq::empty()
    } else {
        let rest = sorted_by_name(s.drop_last());
        rest.insert(first_after(rest, s.last().name@), s.last())
    }
}

/// The entries that are (or are not, for `dirs == false`) directories, in order.
pub open spec fn entries_of_kind(s: Seq<FileEntry>, dirs: bool) -> Seq<FileEntry>
    decreases s.len(),
{
    if s.len() == 0 {
        Seq::empty()
    } else {
        let rest = entries_of_kind(s.drop_last(), dirs);
        if s.last().is_dir == dirs {
            rest.push(s.last())
        } else {
            rest
        }
    }
}

/// The entries an explorer lists for a directory whose entries are
/// `listing`: the parent `..` first, then the directories, then the files,
/// each sorted by name.
pub open spec fn listed(listing: Seq<FileEntry>, parent: FileEntry) -> Seq<FileEntry> {
    seq![parent] + sorted_by_name(entries_of_kind(listing, true)) + sorted_by_name(
        entries_of_kind(listing, false),
    )
}

/// `a - b`, stopping at zero.
pub open spec fn sub_sat(a: int, b: int) -> int {
    if a < b {
        0
    } else {
        a - b
    }
}

/// `a + b`, stopping at `usize::MAX`.
pub open spec fn add_sat(a: int, b: int) -> int {
    if a + b > usize::MAX {
        usize::MAX as int
    } else {
        a + b
    }
}

/// The first listed entry shown after bringing the selection `sel` into a
/// list `height` rows tall (its frame takes three) that showed entries from
/// `top` on; kept below `len`.
pub open spec fn scrolled_top(top: int, sel: int, height: int, len: int) -> int {
    let content = sub_sat(height, 3);
    if content == 0 || len == 0 {
        top
    } else {
        let t = if sel < top {
            sel
        } else if sel >= add_sat(top, content) {
            add_sat(sub_sat(sel, content), 1)
        } else {
            top
        };
        vstd::math::min(t, sub_sat(len, 1))
    }
}

/// `n` copies of `c`.
pub open spec fn repeat(c: char, n: int) -> Seq<char> {
    Seq::new(n as nat, |i: int| c)
}

/// The text of an entry in a list `width` columns wide: the marker of the
/// selection, the mark of a directory and the name, cut with an ellipsis or
/// padded to the width.
pub open spec fn entry_text(entry: FileEntry, marked: bool, width: int) -> Seq<char> {
    let full = (if marked {
        seq!['▶', ' ']
    } else {
        seq![' ', ' ']
    }) + (if entry.is_dir {
        seq!['📁', ' ']
    } else {
        seq![' ', ' ', ' ']
    }) + entry.name@;
    if full.len() > width {
        full.subrange(0, sub_sat(width, 1)) + seq!['…']
    } else {
        full + repeat(' ', width - full.len())
    }
}

/// The top border of a frame `width` columns wide, with the directory
/// (its end, after an ellipsis, when it is too long) and the buttons.
pub open spec fn frame_top(dir: Seq<char>, width: int) -> Seq<char> {
    let max_title = sub_sat(sub_sat(width, 4), 7);
    let shown = if dir.len() > max_title {
        seq!['…'] + dir.subrange(dir.len() - max_title, dir.len() as int)
    } else {
        dir
    };
    let title = seq![' '] + shown + seq![' '];
    let fill = sub_sat(sub_sat(sub_sat(width, 2), title.len() as int), 7);
    seq!['┌'] + title + repeat('─', fill) + seq![' ', '[', '-', ']', '[', 'x', ']'] + seq!['┐']
}

/// A directory listing with a selection.
pub struct FileExplorer {
    current_dir: String,
    entries: Vec<FileEntry>,
    selected_idx: usize,
    scroll_top: usize,
    rect: Rect,
    needs_redraw: bool,
    active: bool,
}

/// The parent entry `..`.
pub open spec fn is_parent_entry(e: FileEntry) -> bool {
    e.name@ == seq!['.', '.'] && e.is_dir
}

proof fn lemma_first_after_bound(s: Seq<FileEntry>, name: Seq<char>)
    ensures
        0 <= first_after(s, name) <= s.len(),
    decreases s.len(),
{
    if s.len() > 0 && name_le(s[0].name@, name) {
        lemma_first_after_bound(s.drop_first(), name);
    }
}

proof fn lemma_sorted_len(s: Seq<FileEntry>)
    ensures
        sorted_by_name(s).len() == s.len(),
    decreases s.len(),
{
    if s.len() > 0 {
        lemma_sorted_len(s.drop_last());
        lemma_first_after_bound(sorted_by_name(s.drop_last()), s.last().name@);
    }
}

/// Whether `a` comes before `b` or equals it, as `String` orders them.
fn name_le_exec(a: &String, b: &String) -> (r: bool)
    ensures
        r == name_le(a@, b@),
{
    let ac = crate::editor::line::Line::from(a.as_str());
    let bc = crate::editor::line::Line::from(b.as_str());
    let x = ac.as_chars();
    let y = bc.as_chars();
    let mut i: usize = 0;
    assert(a@.subrange(0, a@.len() as int) =~= a@);
    assert(b@.subrange(0, b@.len() as int) =~= b@);
    while i < x.len()
        invariant
            x@ == a@,
            y@ == b@,
            i <= x@.len(),
            i <= y@.len(),
            name_le(a@, b@) == name_le(a@.subrange(i as int, a@.len() as int), b@.subrange(i as int, b@.len() as int)),
        decreases x@.len() - i,
    {
        let ghost sa = a@.subrange(i as int, a@.len() as int);
        let ghost sb = b@.subrange(i as int, b@.len() as int);
        if i >= y.len() {
            assert(sb.len() == 0 && sa.len() > 0);
            return false;
        }
        let p = x[i] as u32;
        let q = y[i] as u32;
        if p < q {
            return true;
        }
        if p > q {
            return false;
        }
        assert(sa[0] == a@[i as int] && sb[0] == b@[i as int]);
        assert(sa.drop_first() =~= a@.subrange(i + 1, a@.len() as int));
        assert(sb.drop_first() =~= b@.subrange(i + 1, b@.len() as int));
        i = i + 1;
    }
    assert(a@.subrange(i as int, a@.len() as int).len() == 0);
    true
}

/// Inserts `e` into the sorted `v` after the entries whose names come
/// before or equal its own.
fn insert_by_name(v: &mut Vec<FileEntry>, e: FileEntry)
    ensures
        final(v)@ == old(v)@.insert(first_after(old(v)@, e.name@), e),
{
    let ghost before = v@;
    let mut pos: usize = 0;
    assert(before.subrange(0, before.len() as int) =~= before);
    while pos < v.len() && name_le_exec(&v[pos].name, &e.name)
        invariant
            v@ == before,
            pos <= v@.len(),
            first_after(before, e.name@) == pos + first_after(
                before.subrange(pos as int, before.len() as int),
                e.name@,
            ),
        decreases v@.len() - pos,
    {
        proof {
            let rest = before.subrange(pos as int, before.len() as int);
            assert(rest.drop_first() =~= before.subrange(pos + 1, before.len() as int));
            assert(rest[0] == before[pos as int]);
        }
        pos = pos + 1;
    }
    proof {
        let rest = before.subrange(pos as int, before.len() as int);
        if pos < before.len() {
            assert(rest[0] == before[pos as int]);
        }
        assert(first_after(rest, e.name@) == 0);
    }
    v.insert(pos, e);
}

/// The path the selection of `e` leads to (see
/// [`FileExplorer::selection_target`]).
pub open spec fn selection_path(e: FileExplorer) -> Option<Seq<char>> {
    if (e.selected() as int) < e.listed_entries().len() {
        let entry = e.listed_entries()[e.selected() as int];
        if entry.name@ == seq!['.', '.'] {
            parent_path(e.dir())
        } else {
            Some(joined_path(e.dir(), entry.name@))
        }
    } else {
        None
    }
}

impl FileExplorer {
    /// The directory listed.
    pub closed spec fn dir(&self) -> Seq<char> {
        self.current_dir@
    }

    /// The entries listed.
    pub closed spec fn listed_entries(&self) -> Seq<FileEntry> {
        self.entries@
    }

    /// The index of the selected entry.
    pub closed spec fn selected(&self) -> usize {
        self.selected_idx
    }

    /// The index of the first entry shown.
    pub closed spec fn top(&self) -> usize {
        self.scroll_top
    }

    /// Where the explorer is drawn.
    pub closed spec fn area(&self) -> Rect {
        self.rect
    }

    /// Whether the explorer needs drawing.
    pub closed spec fn redraw_needed(&self) -> bool {
        self.needs_redraw
    }

    /// Whether the explorer has the focus.
    pub closed spec fn focused(&self) -> bool {
        self.active
    }

    /// The entries, the selection and the scroll position are held in
    /// `usize` terms: there are at most `usize::MAX` entries.
    pub proof fn lemma_entries_fit(self)
        ensures
            self.listed_entries().len() <= usize::MAX,
    {
        assert(self.entries.len() == self.entries@.len());
    }

    /// An explorer of `current_dir`, whose entries are `listing`, with the
    /// first entry selected.
    pub fn with_listing(current_dir: &str, listing: Vec<FileEntry>) -> (r: Self)
        ensures
            r.dir() == current_dir@,
            r.listed_entries().len() >= 1,
            is_parent_entry(r.listed_entries()[0]),
            r.listed_entries() == listed(listing@, r.listed_entries()[0]),
            r.selected() == 0,
            r.top() == 0,
            r.area() == Rect::default_spec(),
            r.redraw_needed(),
            !r.focused(),
    {
        let mut explorer = FileExplorer {
            current_dir: String::from_str(current_dir),
            entries: Vec::new(),
            selected_idx: 0,
            scroll_top: 0,
            rect: Rect::default(),
            needs_redraw: true,
            active: false,
        };
        explorer.set_entries(listing);
        explorer
    }

    /// The directory listed.
    pub fn current_dir(&self) -> (r: &String)
        ensures
            r@ == self.dir(),
    {
        &self.current_dir
    }

    /// Lists `listing` (see [`listed`]), keeping the selection within the
    /// entries and in view; the explorer is marked for drawing.
    pub fn set_entries(&mut self, listing: Vec<FileEntry>)
        ensures
            final(self).listed_entries().len() >= 1,
            is_parent_entry(final(self).listed_entries()[0]),
            final(self).listed_entries() == listed(listing@, final(self).listed_entries()[0]),
            final(self).selected() == vstd::math::min(
                old(self).selected() as int,
                final(self).listed_entries().len() - 1,
            ),
            final(self).top() == scrolled_top(
                old(self).top() as int,
                final(self).selected() as int,
                old(self).area().size.height as int,
                final(self).listed_entries().len() as int,
            ),
            final(self).redraw_needed(),
            final(self).dir() == old(self).dir(),
            final(self).area() == old(self).area(),
            final(self).focused() == old(self).focused(),
    {
        let ghost given = listing@;
        let count: usize = listing.len();
        assert(given.len() == count);
        let mut listing = listing;
        let mut reversed: Vec<FileEntry> = Vec::new();
        while listing.len() > 0
            invariant
                listing@ + reversed@.reverse() == given,
            decreases listing@.len(),
        {
            let ghost l0 = listing@;
            let ghost r0 = reversed@;
            let e = listing.pop().unwrap();
            reversed.push(e);
            assert(reversed@.reverse() =~= seq![e] + r0.reverse());
            assert(l0 =~= listing@.push(e));
            assert(listing@ + reversed@.reverse() =~= l0 + r0.reverse());
        }
        assert(reversed@.reverse() =~= given);
        let mut dirs: Vec<FileEntry> = Vec::new();
        let mut files: Vec<FileEntry> = Vec::new();
        let mut taken: usize = 0;
        while reversed.len() > 0
            invariant
                taken + reversed@.len() == given.len(),
                given.len() <= usize::MAX,
                reversed@.reverse() == given.subrange(taken as int, given.len() as int),
                dirs@ == sorted_by_name(entries_of_kind(given.take(taken as int), true)),
                files@ == sorted_by_name(entries_of_kind(given.take(taken as int), false)),
            decreases reversed@.len(),
        {
            let ghost r0 = reversed@;
            let e = reversed.pop().unwrap();
            proof {
                assert(r0 =~= reversed@.push(e));
                assert(r0.reverse()[0] == e);
                assert(given[taken as int] == given.subrange(taken as int, given.len() as int)[0]);
                assert(reversed@.reverse() =~= r0.reverse().drop_first());
                assert(given.subrange(taken as int, given.len() as int).drop_first() =~= given.subrange(
                    taken + 1,
                    given.len() as int,
                ));
                let t = given.take(taken + 1);
                assert(t.drop_last() =~= given.take(taken as int));
                assert(t.last() == e);
                let d = entries_of_kind(given.take(taken as int), true);
                let f = entries_of_kind(given.take(taken as int), false);
                if e.is_dir {
                    assert(entries_of_kind(t, true) == d.push(e));
                    assert(entries_of_kind(t, false) == f);
                    assert(d.push(e).drop_last() =~= d);
                } else {
                    assert(entries_of_kind(t, false) == f.push(e));
                    assert(entries_of_kind(t, true) == d);
                    assert(f.push(e).drop_last() =~= f);
                }
            }
            if e.is_dir {
                insert_by_name(&mut dirs, e);
            } else {
                insert_by_name(&mut files, e);
            }
            taken = taken + 1;
        }
        assert(given.take(given.len() as int) =~= given);
        let mut entries: Vec<FileEntry> = Vec::new();
        entries.push(FileEntry { name: String::from_str(".."), is_dir: true });
        proof {
            reveal_strlit("..");
        }
        let ghost parent = entries@[0];
        assert(parent.name@ == seq!['.', '.']);
        entries.append(&mut dirs);
        entries.append(&mut files);
        assert(entries@[0] == parent);
        self.entries = entries;
        let last = self.entries.len() - 1;
        if last < self.selected_idx {
            self.selected_idx = last;
        }
        self.adjust_scroll();
        self.needs_redraw = true;
    }
}

/// Whether `pos` is on the close button of `e`.
pub open spec fn on_close_button(e: FileExplorer, pos: Position) -> bool {
    let c = sub_sat(add_sat(e.area().position.col as int, e.area().size.width as int), 4);
    pos.row == e.area().position.row && c <= pos.col < add_sat(c, 3)
}

/// Whether `pos` is on the minimize button of `e`.
pub open spec fn on_min_button(e: FileExplorer, pos: Position) -> bool {
    let c = sub_sat(add_sat(e.area().position.col as int, e.area().size.width as int), 7);
    pos.row == e.area().position.row && c <= pos.col < add_sat(c, 3)
}

/// Appends `n` copies of `c` to `s`.
pub fn push_repeat(s: &mut String, c: char, n: usize)
    ensures
        final(s)@ == old(s)@ + repeat(c, n as int),
{
    let mut k: usize = 0;
    while k < n
        invariant
            k <= n,
            s@ == old(s)@ + repeat(c, k as int),
        decreases n - k,
    {
        string_push(s, c);
        assert(old(s)@ + repeat(c, k + 1) =~= old(s)@ + repeat(c, k as int) + seq![c]);
        k = k + 1;
    }
}

/// Appends `chars[from..to]` to `s`.
fn push_range(s: &mut String, chars: &Vec<char>, from: usize, to: usize)
    requires
        from <= to <= chars@.len(),
    ensures
        final(s)@ == old(s)@ + chars@.subrange(from as int, to as int),
{
    let mut k: usize = from;
    while k < to
        invariant
            from <= k <= to <= chars@.len(),
            s@ == old(s)@ + chars@.subrange(from as int, k as int),
        decreases to - k,
    {
        string_push(s, chars[k]);
        assert(chars@.subrange(from as int, k + 1) =~= chars@.subrange(from as int, k as int).push(
            chars@[k as int],
        ));
        k = k + 1;
    }
}

/// Whether `name` is `..`.
fn is_dotdot(name: &String) -> (b: bool)
    ensures
        b == (name@ == seq!['.', '.']),
{
    let line = crate::editor::line::Line::from(name.as_str());
    let c = line.as_chars();
    if c.len() == 2 && c[0] == '.' && c[1] == '.' {
        assert(c@ =~= seq!['.', '.']);
        true
    } else {
        false
    }
}

impl FileExplorer {
    fn adjust_scroll(&mut self)
        ensures
            final(self).top() == scrolled_top(
                old(self).top() as int,
                old(self).selected() as int,
                old(self).area().size.height as int,
                old(self).listed_entries().len() as int,
            ),
            final(self).selected() == old(self).selected(),
            final(self).listed_entries() == old(self).listed_entries(),
            final(self).dir() == old(self).dir(),
            final(self).area() == old(self).area(),
            final(self).redraw_needed() == old(self).redraw_needed(),
            final(self).focused() == old(self).focused(),
    {
        let content_height = self.rect.size.height.saturating_sub(3);
        if content_height == 0 || self.entries.len() == 0 {
            return;
        }
        if self.selected_idx < self.scroll_top {
            self.scroll_top = self.selected_idx;
        } else if self.selected_idx >= self.scroll_top.saturating_add(content_height) {
            self.scroll_top = self.selected_idx.saturating_sub(content_height).saturating_add(1);
        }
        let max_scroll = self.entries.len() - 1;
        if max_scroll < self.scroll_top {
            self.scroll_top = max_scroll;
        }
    }

    /// The path the selection leads to: the parent of the directory for
    /// `..`, the directory joined with the entry's name otherwise; none
    /// when nothing is selected or the directory has no parent.
    pub fn selection_target(&self) -> (r: Option<String>)
        ensures
            (self.selected() as int) < self.listed_entries().len() ==> {
                let e = self.listed_entries()[self.selected() as int];
                if e.name@ == seq!['.', '.'] {
                    match r {
                        Some(p) => parent_path(self.dir()) == Some(p@),
                        None => parent_path(self.dir()) is None,
                    }
                } else {
                    r is Some && r->0@ == joined_path(self.dir(), e.name@)
                }
            },
            (self.selected() as int) >= self.listed_entries().len() ==> r is None,
    {
        if self.entries.len() == 0 || self.selected_idx >= self.entries.len() {
            return None;
        }
        let entry = &self.entries[self.selected_idx];
        if is_dotdot(&entry.name) {
            path_parent(self.current_dir.as_str())
        } else {
            Some(path_join(self.current_dir.as_str(), entry.name.as_str()))
        }
    }

    /// Lists the directory `path`, whose entries are `listing`, with the
    /// first entry selected.
    pub fn enter_directory(&mut self, path: String, listing: Vec<FileEntry>) -> (r:
        FileExplorerAction)
        ensures
            r is DirectoryChanged,
            final(self).dir() == path@,
            final(self).listed_entries().len() >= 1,
            is_parent_entry(final(self).listed_entries()[0]),
            final(self).listed_entries() == listed(listing@, final(self).listed_entries()[0]),
            final(self).selected() == 0,
            final(self).top() == scrolled_top(
                old(self).top() as int,
                0,
                old(self).area().size.height as int,
                final(self).listed_entries().len() as int,
            ),
            final(self).redraw_needed(),
            final(self).area() == old(self).area(),
            final(self).focused() == old(self).focused(),
    {
        self.current_dir = path;
        self.selected_idx = 0;
        self.set_entries(listing);
        FileExplorerAction::DirectoryChanged
    }

    /// Acts on the selection, whose target path (see
    /// [`FileExplorer::selection_target`]) the caller found to be of kind
    /// `kind`, with `listing` its entries when it is a directory: a directory
    /// is entered (see [`FileExplorer::enter_directory`]), a file is to be
    /// opened; otherwise nothing happens.
    pub fn perform_selection(&mut self, kind: PathKind, listing: Vec<FileEntry>) -> (r:
        FileExplorerAction)
        ensures
            ({
                let target = selection_path(*old(self));
                &&& target is None || kind == PathKind::Other ==> r is Nothing && *final(self)
                    == *old(self)
                &&& target is Some && kind == PathKind::File ==> (r matches FileExplorerAction::OpenFile(p) && p@ == target->0)
                    && *final(self) == *old(self)
                &&& target is Some && kind == PathKind::Directory ==> {
                    &&& r is DirectoryChanged
                    &&& final(self).dir() == target->0
                    &&& final(self).listed_entries().len() >= 1
                    &&& is_parent_entry(final(self).listed_entries()[0])
                    &&& final(self).listed_entries() == listed(
                        listing@,
                        final(self).listed_entries()[0],
                    )
                    &&& final(self).selected() == 0
                    &&& final(self).top() == scrolled_top(
                        old(self).top() as int,
                        0,
                        old(self).area().size.height as int,
                        final(self).listed_entries().len() as int,
                    )
                    &&& final(self).redraw_needed()
                    &&& final(self).area() == old(self).area()
                    &&& final(self).focused() == old(self).focused()
                }
            }),
    {
        match self.selection_target() {
            None => FileExplorerAction::Nothing,
            Some(path) => match kind {
                PathKind::Directory => self.enter_directory(path, listing),
                PathKind::File => FileExplorerAction::OpenFile(path),
                PathKind::Other => FileExplorerAction::Nothing,
            },
        }
    }

    /// Moves the selection up or down one entry (other moves do nothing),
    /// within the entries, and keeps it in view; a change asks for drawing.
    pub fn handle_move_command(&mut self, command: Move)
        ensures
            final(self).selected() == match command {
                Move::Up => sub_sat(old(self).selected() as int, 1),
                Move::Down => if add_sat(old(self).selected() as int, 1) < old(self).listed_entries().len() {
                    add_sat(old(self).selected() as int, 1)
                } else {
                    old(self).selected() as int
                },
                _ => old(self).selected() as int,
            },
            final(self).top() == scrolled_top(
                old(self).top() as int,
                final(self).selected() as int,
                old(self).area().size.height as int,
                old(self).listed_entries().len() as int,
            ),
            final(self).redraw_needed() == (old(self).redraw_needed() || final(self).selected()
                != old(self).selected()),
            final(self).listed_entries() == old(self).listed_entries(),
            final(self).dir() == old(self).dir(),
            final(self).area() == old(self).area(),
            final(self).focused() == old(self).focused(),
    {
        let prev = self.selected_idx;
        match command {
            Move::Up => {
                self.selected_idx = self.selected_idx.saturating_sub(1);
            },
            Move::Down => {
                if self.selected_idx.saturating_add(1) < self.entries.len() {
                    self.selected_idx = self.selected_idx.saturating_add(1);
                }
            },
            _ => {},
        }
        self.adjust_scroll();
        if prev != self.selected_idx {
            self.needs_redraw = true;
        }
    }

    /// The column where the close button starts on the title row.
    pub fn close_button_col(&self) -> (c: usize)
        ensures
            c == sub_sat(add_sat(self.area().position.col as int, self.area().size.width as int), 4),
    {
        self.rect.position.col.saturating_add(self.rect.size.width).saturating_sub(4)
    }

    /// The column where the minimize button starts on the title row.
    pub fn min_button_col(&self) -> (c: usize)
        ensures
            c == sub_sat(add_sat(self.area().position.col as int, self.area().size.width as int), 7),
    {
        self.rect.position.col.saturating_add(self.rect.size.width).saturating_sub(7)
    }

    /// The row of the title.
    pub fn title_bar_row(&self) -> (r: usize)
        ensures
            r == self.area().position.row,
    {
        self.rect.position.row
    }

    /// Whether `pos` is on the close button.
    pub fn is_on_close_button(&self, pos: Position) -> (b: bool)
        ensures
            b == (pos.row == self.area().position.row && sub_sat(
                add_sat(self.area().position.col as int, self.area().size.width as int),
                4,
            ) <= pos.col < add_sat(
                sub_sat(add_sat(self.area().position.col as int, self.area().size.width as int), 4),
                3,
            )),
    {
        pos.row == self.title_bar_row() && pos.col >= self.close_button_col() && pos.col
            < self.close_button_col().saturating_add(3)
    }

    /// Whether `pos` is on the minimize button.
    pub fn is_on_min_button(&self, pos: Position) -> (b: bool)
        ensures
            b == (pos.row == self.area().position.row && sub_sat(
                add_sat(self.area().position.col as int, self.area().size.width as int),
                7,
            ) <= pos.col < add_sat(
                sub_sat(add_sat(self.area().position.col as int, self.area().size.width as int), 7),
                3,
            )),
    {
        pos.row == self.title_bar_row() && pos.col >= self.min_button_col() && pos.col
            < self.min_button_col().saturating_add(3)
    }

    /// Whether `pos` is on the title row.
    pub fn is_on_title_bar(&self, pos: Position) -> (b: bool)
        ensures
            b == (pos.row == self.area().position.row && self.area().position.col <= pos.col
                < add_sat(self.area().position.col as int, self.area().size.width as int)),
    {
        pos.row == self.title_bar_row() && pos.col >= self.rect.position.col && pos.col
            < self.rect.position.col.saturating_add(self.rect.size.width)
    }

    /// A click: on a button, what it asks for; on an entry, it selects it
    /// (a change asks for drawing).
    pub fn click(&mut self, position: Position) -> (r: ClickAction)
        ensures
            on_close_button(*old(self), position) ==> r == ClickAction::Close
                && final(self).selected() == old(self).selected(),
            !on_close_button(*old(self), position) && on_min_button(*old(self), position) ==> r
                == ClickAction::Minimize && final(self).selected() == old(self).selected(),
            !on_close_button(*old(self), position) && !on_min_button(*old(self), position) ==> {
                let start = add_sat(old(self).area().position.row as int, 1);
                let rows = sub_sat(old(self).area().size.height as int, 2);
                let idx = add_sat(old(self).top() as int, position.row - start);
                &&& r == ClickAction::Content
                &&& final(self).selected() == (if start <= position.row < add_sat(start, rows)
                    && idx < old(self).listed_entries().len() {
                    idx
                } else {
                    old(self).selected() as int
                })
            },
            final(self).redraw_needed() == (old(self).redraw_needed() || final(self).selected()
                != old(self).selected()),
            final(self).top() == old(self).top(),
            final(self).listed_entries() == old(self).listed_entries(),
            final(self).dir() == old(self).dir(),
            final(self).area() == old(self).area(),
            final(self).focused() == old(self).focused(),
    {
        if self.is_on_close_button(position) {
            ClickAction::Close
        } else if self.is_on_min_button(position) {
            ClickAction::Minimize
        } else {
            let content_row_start = self.rect.position.row.saturating_add(1);
            let content_height = self.rect.size.height.saturating_sub(2);
            if position.row >= content_row_start && position.row < content_row_start.saturating_add(
                content_height,
            ) {
                let click_idx = self.scroll_top.saturating_add(position.row - content_row_start);
                if click_idx < self.entries.len() {
                    let prev = self.selected_idx;
                    self.selected_idx = click_idx;
                    if prev != self.selected_idx {
                        self.needs_redraw = true;
                    }
                }
            }
            ClickAction::Content
        }
    }

    /// Marks the explorer focused or not; a change asks for drawing.
    pub fn set_focus(&mut self, active: bool)
        ensures
            final(self).focused() == active,
            final(self).redraw_needed() == (old(self).redraw_needed() || old(self).focused()
                != active),
            final(self).selected() == old(self).selected(),
            final(self).top() == old(self).top(),
            final(self).listed_entries() == old(self).listed_entries(),
            final(self).dir() == old(self).dir(),
            final(self).area() == old(self).area(),
    {
        if self.active != active {
            self.active = active;
            self.needs_redraw = true;
        }
    }

    /// Moves the explorer to `rect`; a change of size keeps the selection in
    /// view and asks for drawing.
    pub fn resize_to(&mut self, rect: Rect)
        ensures
            final(self).area() == rect,
            old(self).area().size != rect.size ==> final(self).redraw_needed() && final(self).top()
                == scrolled_top(
                old(self).top() as int,
                old(self).selected() as int,
                rect.size.height as int,
                old(self).listed_entries().len() as int,
            ),
            old(self).area().size == rect.size ==> final(self).redraw_needed() == old(self).redraw_needed() && final(self).top() == old(self).top(),
            final(self).selected() == old(self).selected(),
            final(self).listed_entries() == old(self).listed_entries(),
            final(self).dir() == old(self).dir(),
            final(self).focused() == old(self).focused(),
    {
        if self.rect.size != rect.size {
            self.rect = rect;
            self.adjust_scroll();
            self.needs_redraw = true;
        } else {
            self.rect = rect;
        }
    }

    /// The text of the row of an entry, `width` columns wide (see [`entry_text`]).
    fn entry_row(&self, idx: usize, width: usize) -> (s: String)
        requires
            idx < self.listed_entries().len(),
        ensures
            s@ == entry_text(
                self.listed_entries()[idx as int],
                idx == self.selected() && self.focused(),
                width as int,
            ),
    {
        let entry = &self.entries[idx];
        let mut full: Vec<char> = Vec::new();
        if idx == self.selected_idx && self.active {
            full.push('▶');
        } else {
            full.push(' ');
        }
        full.push(' ');
        if entry.is_dir {
            full.push('📁');
            full.push(' ');
        } else {
            full.push(' ');
            full.push(' ');
            full.push(' ');
        }
        let ghost prefix = full@;
        let name = crate::editor::line::Line::from(entry.name.as_str());
        let nc = name.as_chars();
        let mut k: usize = 0;
        while k < nc.len()
            invariant
                k <= nc@.len(),
                full@ == prefix + nc@.take(k as int),
            decreases nc@.len() - k,
        {
            full.push(nc[k]);
            assert(nc@.take(k + 1) =~= nc@.take(k as int).push(nc@[k as int]));
            k = k + 1;
        }
        assert(nc@.take(nc@.len() as int) =~= nc@);
        let ghost whole = full@;
        assert(whole =~= (if idx == self.selected_idx && self.active {
            seq!['▶', ' ']
        } else {
            seq![' ', ' ']
        }) + (if entry.is_dir {
            seq!['📁', ' ']
        } else {
            seq![' ', ' ', ' ']
        }) + entry.name@);
        let mut s = String::new();
        if full.len() > width {
            let keep = width.saturating_sub(1);
            push_range(&mut s, &full, 0, keep);
            string_push(&mut s, '…');
        } else {
            push_range(&mut s, &full, 0, full.len());
            assert(full@.subrange(0, full@.len() as int) =~= full@);
            push_repeat(&mut s, ' ', width - full.len());
        }
        s
    }

    /// The text of each row of the explorer's area (nothing when it is
    /// narrower than four columns or lower than three rows): the top border
    /// with the directory and buttons (see [`frame_top`]), one row per
    /// shown entry or blank, and the bottom border.
    pub fn frame_rows(&self) -> (r: Vec<String>)
        ensures
            (self.area().size.width < 4 || self.area().size.height < 3) ==> r@.len() == 0,
            !(self.area().size.width < 4 || self.area().size.height < 3) ==> {
                let w = self.area().size.width as int;
                let h = self.area().size.height as int;
                &&& r@.len() == h
                &&& r@[0]@ == frame_top(self.dir(), w)
                &&& r@[h - 1]@ == seq!['└'] + repeat('─', w - 2) + seq!['┘']
                &&& forall|k: int|
                    1 <= k < h - 1 ==> #[trigger] r@[k]@ == seq!['│'] + (if add_sat(
                        self.top() as int,
                        k - 1,
                    ) < self.listed_entries().len() {
                        entry_text(
                            self.listed_entries()[add_sat(self.top() as int, k - 1)],
                            add_sat(self.top() as int, k - 1) == self.selected() && self.focused(),
                            w - 2,
                        )
                    } else {
                        repeat(' ', w - 2)
                    }) + seq!['│']
            },
    {
        let width = self.rect.size.width;
        let height = self.rect.size.height;
        let mut rows: Vec<String> = Vec::new();
        if width < 4 || height < 3 {
            return rows;
        }
        // top border
        let dir_line = crate::editor::line::Line::from(self.current_dir.as_str());
        let dir = dir_line.as_chars();
        let max_title_len = width.saturating_sub(4).saturating_sub(7);
        let mut title: Vec<char> = Vec::new();
        title.push(' ');
        if dir.len() > max_title_len {
            title.push('…');
            let mut k = dir.len() - max_title_len;
            while k < dir.len()
                invariant
                    dir@ == self.dir(),
                    dir@.len() > max_title_len,
                    dir@.len() - max_title_len <= k <= dir@.len(),
                    title@ == seq![' ', '…'] + dir@.subrange(dir@.len() - max_title_len, k as int),
                decreases dir@.len() - k,
            {
                title.push(dir[k]);
                assert(dir@.subrange(dir@.len() - max_title_len, k + 1) =~= dir@.subrange(
                    dir@.len() - max_title_len,
                    k as int,
                ).push(dir@[k as int]));
                k = k + 1;
            }
        } else {
            let mut k: usize = 0;
            while k < dir.len()
                invariant
                    dir@ == self.dir(),
                    k <= dir@.len(),
                    title@ == seq![' '] + dir@.take(k as int),
                decreases dir@.len() - k,
            {
                title.push(dir[k]);
                assert(dir@.take(k + 1) =~= dir@.take(k as int).push(dir@[k as int]));
                k = k + 1;
            }
            assert(dir@.take(dir@.len() as int) =~= dir@);
        }
        title.push(' ');
        let fill_len = width.saturating_sub(2).saturating_sub(title.len()).saturating_sub(7);
        let mut top = String::new();
        string_push(&mut top, '┌');
        push_range(&mut top, &title, 0, title.len());
        assert(title@.subrange(0, title@.len() as int) =~= title@);
        push_repeat(&mut top, '─', fill_len);
        top.append(" [-][x]┐");
        proof {
            reveal_strlit(" [-][x]┐");
            assert(top@ =~= frame_top(self.dir(), width as int));
        }
        rows.push(top);
        // rows of entries
        let content_width = width - 2;
        let mut k: usize = 1;
        while k < height - 1
            invariant
                1 <= k <= height - 1,
                width == self.area().size.width,
                height == self.area().size.height,
                content_width == width - 2,
                rows@.len() == k,
                rows@[0]@ == frame_top(self.dir(), width as int),
                forall|j: int|
                    1 <= j < k ==> #[trigger] rows@[j]@ == seq!['│'] + (if add_sat(
                        self.top() as int,
                        j - 1,
                    ) < self.listed_entries().len() {
                        entry_text(
                            self.listed_entries()[add_sat(self.top() as int, j - 1)],
                            add_sat(self.top() as int, j - 1) == self.selected() && self.focused(),
                            width - 2,
                        )
                    } else {
                        repeat(' ', width - 2)
                    }) + seq!['│'],
            decreases height - 1 - k,
        {
            let entry_idx = self.scroll_top.saturating_add(k - 1);
            let mut line = String::new();
            string_push(&mut line, '│');
            if entry_idx < self.entries.len() {
                let text = self.entry_row(entry_idx, content_width);
                line.append(text.as_str());
            } else {
                push_repeat(&mut line, ' ', content_width);
            }
            string_push(&mut line, '│');
            rows.push(line);
            k = k + 1;
        }
        // bottom border
        let mut bottom = String::new();
        string_push(&mut bottom, '└');
        push_repeat(&mut bottom, '─', width - 2);
        string_push(&mut bottom, '┘');
        rows.push(bottom);
        rows
    }
}

/// The rows the explorer `e` draws in its rectangle: the top border with the
/// directory, a row for each entry shown from the first one in view (blank
/// below the last entry), and the bottom border; none when the rectangle is
/// less than four columns wide or three rows high.
pub open spec fn frame_row_texts(e: FileExplorer) -> Seq<Seq<char>> {
    let w = e.area().size.width as int;
    let h = e.area().size.height as int;
    if w < 4 || h < 3 {
        Seq::empty()
    } else {
        Seq::new(
            h as nat,
            |k: int|
                if k == 0 {
                    frame_top(e.dir(), w)
                } else if k == h - 1 {
                    seq!['└'] + repeat('─', w - 2) + seq!['┘']
                } else {
                    seq!['│'] + (if add_sat(e.top() as int, k - 1) < e.listed_entries().len() {
                        entry_text(
                            e.listed_entries()[add_sat(e.top() as int, k - 1)],
                            add_sat(e.top() as int, k - 1) == e.selected() && e.focused(),
                            w - 2,
                        )
                    } else {
                        repeat(' ', w - 2)
                    }) + seq!['│']
                },
        )
    }
}

/// Where moving in `direction` takes the selection of `e`: one entry up or
/// down, within the entries; other moves keep it.
pub open spec fn moved_selection(e: FileExplorer, direction: Move) -> int {
    match direction {
        Move::Up => sub_sat(e.selected() as int, 1),
        Move::Down => if add_sat(e.selected() as int, 1) < e.listed_entries().len() {
            add_sat(e.selected() as int, 1)
        } else {
            e.selected() as int
        },
        _ => e.selected() as int,
    }
}

/// What a click at `pos` on `e` resolves to: its close button, its minimize
/// button, or its content.
pub open spec fn click_action(e: FileExplorer, pos: Position) -> ClickAction {
    if on_close_button(e, pos) {
        ClickAction::Close
    } else if on_min_button(e, pos) {
        ClickAction::Minimize
    } else {
        ClickAction::Content
    }
}

/// Where a click at `pos` on `e` takes the selection: to the entry on the
/// clicked row of the list, when there is one; else it stays.
pub open spec fn clicked_selection(e: FileExplorer, pos: Position) -> int {
    let start = add_sat(e.area().position.row as int, 1);
    let rows = sub_sat(e.area().size.height as int, 2);
    let idx = add_sat(e.top() as int, pos.row - start);
    if !on_close_button(e, pos) && !on_min_button(e, pos) && start <= pos.row < add_sat(
        start,
        rows,
    ) && idx < e.listed_entries().len() {
        idx
    } else {
        e.selected() as int
    }
}

impl UIComponent for FileExplorer {
    open spec fn ui_rect(&self) -> Rect {
        self.area()
    }

    open spec fn ui_redraw(&self) -> bool {
        self.redraw_needed()
    }

    fn mark_redraw(&mut self, value: bool)
        ensures
            final(self).redraw_needed() == value,
            final(self).area() == old(self).area(),
            final(self).selected() == old(self).selected(),
            final(self).top() == old(self).top(),
            final(self).listed_entries() == old(self).listed_entries(),
            final(self).dir() == old(self).dir(),
            final(self).focused() == old(self).focused(),
    {
        self.needs_redraw = value;
    }

    fn needs_redraw(&self) -> bool {
        self.needs_redraw
    }

    fn set_size(&mut self, rect: Rect)
        ensures
            final(self).area() == rect,
            old(self).area().size != rect.size ==> final(self).redraw_needed() && final(self).top()
                == scrolled_top(
                old(self).top() as int,
                old(self).selected() as int,
                rect.size.height as int,
                old(self).listed_entries().len() as int,
            ),
            old(self).area().size == rect.size ==> final(self).redraw_needed()
                == old(self).redraw_needed() && final(self).top() == old(self).top(),
            final(self).selected() == old(self).selected(),
            final(self).listed_entries() == old(self).listed_entries(),
            final(self).dir() == old(self).dir(),
            final(self).focused() == old(self).focused(),
    {
        self.resize_to(rect);
    }

    fn rect(&self) -> Rect {
        self.rect
    }
}

impl PluginComponent for FileExplorer {
    open spec fn shown_rect(&self) -> Rect {
        self.area()
    }

    open spec fn drawing_needed(&self) -> bool {
        self.redraw_needed()
    }

    open spec fn has_focus(&self) -> bool {
        self.focused()
    }

    open spec fn selection(&self) -> int {
        self.selected() as int
    }

    open spec fn selection_after(&self, direction: Move) -> int {
        moved_selection(*self, direction)
    }

    open spec fn select_target(&self) -> Option<Seq<char>> {
        selection_path(*self)
    }

    open spec fn click_result(&self, position: Position) -> ClickAction {
        click_action(*self, position)
    }

    open spec fn selection_after_click(&self, position: Position) -> int {
        clicked_selection(*self, position)
    }

    open spec fn shown_dir(&self) -> Seq<char> {
        self.dir()
    }

    open spec fn row_texts(&self) -> Seq<Seq<char>> {
        frame_row_texts(*self)
    }

    fn mark_redraw(&mut self, value: bool)
        ensures
            final(self).redraw_needed() == value,
            final(self).area() == old(self).area(),
            final(self).selected() == old(self).selected(),
            final(self).top() == old(self).top(),
            final(self).listed_entries() == old(self).listed_entries(),
            final(self).dir() == old(self).dir(),
            final(self).focused() == old(self).focused(),
    {
        self.needs_redraw = value;
    }

    fn needs_redraw(&self) -> bool {
        self.needs_redraw
    }

    fn set_size(&mut self, rect: Rect)
        ensures
            final(self).area() == rect,
            old(self).area().size != rect.size ==> final(self).redraw_needed() && final(self).top()
                == scrolled_top(
                old(self).top() as int,
                old(self).selected() as int,
                rect.size.height as int,
                old(self).listed_entries().len() as int,
            ),
            old(self).area().size == rect.size ==> final(self).redraw_needed()
                == old(self).redraw_needed() && final(self).top() == old(self).top(),
            final(self).selected() == old(self).selected(),
            final(self).listed_entries() == old(self).listed_entries(),
            final(self).dir() == old(self).dir(),
            final(self).focused() == old(self).focused(),
    {
        self.resize_to(rect);
    }

    fn rect(&self) -> Rect {
        self.rect
    }

    fn set_active(&mut self, active: bool)
        ensures
            final(self).focused() == active,
            final(self).redraw_needed() == (old(self).redraw_needed() || old(self).focused()
                != active),
            final(self).selected() == old(self).selected(),
            final(self).top() == old(self).top(),
            final(self).listed_entries() == old(self).listed_entries(),
            final(self).dir() == old(self).dir(),
            final(self).area() == old(self).area(),
    {
        self.set_focus(active);
    }

    fn handle_move(&mut self, direction: Move)
        ensures
            final(self).top() == scrolled_top(
                old(self).top() as int,
                final(self).selected() as int,
                old(self).area().size.height as int,
                old(self).listed_entries().len() as int,
            ),
            final(self).redraw_needed() == (old(self).redraw_needed() || final(self).selected()
                != old(self).selected()),
            final(self).listed_entries() == old(self).listed_entries(),
            final(self).dir() == old(self).dir(),
            final(self).focused() == old(self).focused(),
    {
        self.handle_move_command(direction);
    }

    fn handle_select(&mut self) -> (r: Option<String>)
        ensures
            *final(self) == *old(self),
    {
        self.selection_target()
    }

    fn enter_directory(&mut self, path: String, listing: Vec<FileEntry>)
        ensures
            final(self).listed_entries().len() >= 1,
            is_parent_entry(final(self).listed_entries()[0]),
            final(self).listed_entries() == listed(listing@, final(self).listed_entries()[0]),
            final(self).top() == scrolled_top(
                old(self).top() as int,
                0,
                old(self).area().size.height as int,
                final(self).listed_entries().len() as int,
            ),
            final(self).redraw_needed(),
            final(self).focused() == old(self).focused(),
    {
        let _ = FileExplorer::enter_directory(self, path, listing);
    }

    fn handle_click(&mut self, position: Position) -> (r: ClickAction)
        ensures
            final(self).redraw_needed() == (old(self).redraw_needed() || final(self).selected()
                != old(self).selected()),
            final(self).top() == old(self).top(),
            final(self).listed_entries() == old(self).listed_entries(),
            final(self).dir() == old(self).dir(),
            final(self).focused() == old(self).focused(),
    {
        self.click(position)
    }

    fn rows(&self) -> (r: Vec<String>) {
        let r = self.frame_rows();
        assert(r@.map_values(|t: String| t@) =~= frame_row_texts(*self));
        r
    }
}

/// Moving the selection of an explorer with entries keeps it on an entry,
/// and the scroll position that [`FileExplorer::handle_move_command`] sets
/// shows it: it lies between the first entry in view and the last one,
/// when the rectangle has room for entries.
pub proof fn lemma_move_keeps_selection_in_view(e: FileExplorer, direction: Move)
    requires
        e.listed_entries().len() > 0,
        e.selected() < e.listed_entries().len(),
    ensures
        0 <= moved_selection(e, direction) < e.listed_entries().len(),
        e.area().size.height > 3 ==> {
            let s = moved_selection(e, direction);
            let t = scrolled_top(
                e.top() as int,
                s,
                e.area().size.height as int,
                e.listed_entries().len() as int,
            );
            t <= s < t + (e.area().size.height - 3)
        },
{
    e.lemma_entries_fit();
}

} // verus!
