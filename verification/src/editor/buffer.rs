use crate::editor::annotatedstring::AnnotatedString;
use crate::editor::annotation::Annotation;
use crate::editor::fileinfo::{file_type_of, FileInfo};
use crate::editor::line::{
    first_match_from, last_match_until, line_delete, line_insert, matches_at, split_head, split_tail,
    visible_annotations, visible_range, Line,
};
use crate::prelude::{GraphemeIdx, LineIdx, Location};
use vstd::prelude::*;

verus! {

/// The characters of each line.
pub open spec fn lines_view(lines: Seq<Line>) -> Seq<Seq<char>> {
    lines.map_values(|l: Line| l@)
}

/// The first `k` scan steps of a forward search are over; step `k` looks at
/// line `(from_line mod n + k) mod n` of the `n` lines, from grapheme
/// `from_g` on the first step and from the line's start afterwards. The
/// search looks at `n + 1` lines in all, so the first line is seen again from
/// its start.
pub open spec fn forward_scan(
    text: Seq<Seq<char>>,
    query: Seq<char>,
    from_line: int,
    from_g: int,
    k: int,
) -> Option<Location>
    decreases text.len() + 1 - k,
{
    let n = text.len() as int;
    if n == 0 || k < 0 || k > n {
        None
    } else {
        let li = (from_line % n + k) % n;
        let g = if k == 0 {
            from_g
        } else {
            0
        };
        match first_match_from(text[li], query, g) {
            Some(i) => Some(Location { grapheme_idx: i as usize, line_idx: li as usize }),
            None => forward_scan(text, query, from_line, from_g, k + 1),
        }
    }
}

/// The first `k` scan steps of a backward search are over; the lines are
/// visited from the last to the first, cyclically, starting `skip` lines
/// from the end. On the first step a match must end at or before
/// `from_g`; afterwards anywhere in the line.
pub open spec fn backward_scan(
    text: Seq<Seq<char>>,
    query: Seq<char>,
    skip: int,
    from_g: int,
    k: int,
) -> Option<Location>
    decreases text.len() + 1 - k,
{
    let n = text.len() as int;
    if n == 0 || k < 0 || k > n {
        None
    } else {
        let li = n - 1 - (skip + k) % n;
        let until = if k == 0 {
            from_g
        } else {
            text[li].len() as int
        };
        match last_match_until(text[li], query, until) {
            Some(i) => Some(Location { grapheme_idx: i as usize, line_idx: li as usize }),
            None => backward_scan(text, query, skip, from_g, k + 1),
        }
    }
}

/// `a - b`, stopping at zero.
pub open spec fn sub0(a: int, b: int) -> int {
    if a - b < 0 {
        0
    } else {
        a - b
    }
}

/// Where a forward search for `query` from `from` stops: none for an empty query.
pub open spec fn search_forward_result(text: Seq<Seq<char>>, query: Seq<char>, from: Location) -> Option<
    Location,
> {
    if query.len() == 0 {
        None
    } else {
        forward_scan(text, query, from.line_idx as int, from.grapheme_idx as int, 0)
    }
}

/// Where a backward search for `query` from `from` stops: none for an empty query.
pub open spec fn search_backward_result(
    text: Seq<Seq<char>>,
    query: Seq<char>,
    from: Location,
) -> Option<Location> {
    if query.len() == 0 {
        None
    } else {
        backward_scan(
            text,
            query,
            sub0(sub0(text.len() as int, from.line_idx as int), 1),
            from.grapheme_idx as int,
            0,
        )
    }
}

/// The text after inserting `c` at `at`: a new line holding `c` when `at`
/// is just past the last line.
pub open spec fn text_insert_char(text: Seq<Seq<char>>, c: char, at: Location) -> Seq<Seq<char>> {
    let l = at.line_idx as int;
    if l == text.len() {
        text.push(seq![c])
    } else if l < text.len() {
        text.update(l, line_insert(text[l], c, at.grapheme_idx as int))
    } else {
        text
    }
}

/// Whether deleting at `at` merges line `at.line_idx` with the next one.
pub open spec fn deletes_line_break(text: Seq<Seq<char>>, at: Location) -> bool {
    let l = at.line_idx as int;
    l < text.len() && at.grapheme_idx >= text[l].len() && text.len() > l + 1
}

/// Whether deleting at `at` removes a grapheme.
pub open spec fn deletes_grapheme(text: Seq<Seq<char>>, at: Location) -> bool {
    let l = at.line_idx as int;
    l < text.len() && at.grapheme_idx < text[l].len()
}

/// The text after deleting at `at`: the grapheme there, or, at the end of a
/// line that has a successor, the line break.
pub open spec fn text_delete(text: Seq<Seq<char>>, at: Location) -> Seq<Seq<char>> {
    let l = at.line_idx as int;
    if deletes_line_break(text, at) {
        text.update(l, text[l] + text[l + 1]).remove(l + 1)
    } else if deletes_grapheme(text, at) {
        text.update(l, line_delete(text[l], at.grapheme_idx as int))
    } else {
        text
    }
}

/// The text after breaking the line at `at`: an empty line is added when
/// `at` is just past the last line.
pub open spec fn text_insert_newline(text: Seq<Seq<char>>, at: Location) -> Seq<Seq<char>> {
    let l = at.line_idx as int;
    if l == text.len() {
        text.push(Seq::empty())
    } else if l < text.len() {
        text.update(l, split_head(text[l], at.grapheme_idx as int)).insert(
            l + 1,
            split_tail(text[l], at.grapheme_idx as int),
        )
    } else {
        text
    }
}

/// The index of the first `'\n'` at or after `k`, or the length.
pub open spec fn line_end(s: Seq<char>, k: int) -> int
    decreases s.len() - k,
{
    if k >= s.len() || k < 0 {
        s.len() as int
    } else if s[k] == '\n' {
        k
    } else {
        line_end(s, k + 1)
    }
}

/// The lines of `s` from index `k` on, as `str::lines` cuts them: at each
/// `'\n'`, dropping a `'\r'` just before it; a final line break adds no
/// empty line.
pub open spec fn lines_from(s: Seq<char>, k: int) -> Seq<Seq<char>>
    decreases s.len() + 1 - k,
{
    if k < 0 || k >= s.len() {
        Seq::empty()
    } else {
        let j = vstd::math::min(s.len() as int, vstd::math::max(k, line_end(s, k)));
        let piece = s.subrange(k, j);
        let line = if j < s.len() && piece.len() > 0 && piece.last() == '\r' {
            piece.drop_last()
        } else {
            piece
        };
        seq![line] + lines_from(s, j + 1)
    }
}

/// A document: its lines, where it is stored, and whether it changed since.
#[derive(Debug)]
pub struct Buffer {
    lines: Vec<Line>,
    file_info: FileInfo,
    dirty: bool,
}

impl Default for Buffer {
    fn default() -> (r: Self)
        ensures
            r.text() == Seq::<Seq<char>>::empty(),
            !r.dirty(),
            r.info().path() == None::<Seq<char>>,
    {
        Buffer { lines: Vec::new(), file_info: FileInfo::default(), dirty: false }
    }
}

proof fn lemma_cycle_index(start: int, k: int, n: int)
    requires
        0 <= start < n,
        0 <= k <= n,
    ensures
        (start + k) % n == (if k < n - start {
            start + k
        } else {
            k - (n - start)
        }),
{
    if k < n - start {
        vstd::arithmetic::div_mod::lemma_small_mod((start + k) as nat, n as nat);
    } else {
        vstd::arithmetic::div_mod::lemma_small_mod((k - (n - start)) as nat, n as nat);
        vstd::arithmetic::div_mod::lemma_mod_add_multiples_vanish(k - (n - start), n);
    }
}

proof fn lemma_line_end(s: Seq<char>, k: int)
    requires
        0 <= k <= s.len(),
    ensures
        k <= line_end(s, k) <= s.len(),
        forall|i: int| k <= i < line_end(s, k) ==> s[i] != '\n',
        line_end(s, k) < s.len() ==> s[line_end(s, k)] == '\n',
    decreases s.len() - k,
{
    if k < s.len() && s[k] != '\n' {
        lemma_line_end(s, k + 1);
    }
}

impl Buffer {
    /// The characters of each line.
    pub closed spec fn text(&self) -> Seq<Seq<char>> {
        lines_view(self.lines@)
    }

    /// Whether the buffer changed since it was loaded or saved.
    pub closed spec fn dirty(&self) -> bool {
        self.dirty
    }

    /// Where the buffer is stored.
    pub closed spec fn info(&self) -> FileInfo {
        self.file_info
    }

    /// The buffer holding the lines of `contents` (see [`lines_from`]),
    /// stored at `file_name` and unchanged.
    pub fn from_text(contents: &str, file_name: &str) -> (r: Self)
        ensures
            r.text() == lines_from(contents@, 0),
            !r.dirty(),
            r.info().path() == Some(file_name@),
            r.info().file_type() == file_type_of(file_name@),
    {
        let all = Line::from(contents);
        let chars = all.as_chars();
        let ghost s = contents@;
        let mut lines: Vec<Line> = Vec::new();
        let mut k: usize = 0;
        while k < chars.len()
            invariant
                chars@ == s,
                k <= s.len() + 1,
                lines_view(lines@) + lines_from(s, k as int) == lines_from(s, 0),
            decreases s.len() - k,
        {
            let mut j = k;
            while j < chars.len() && chars[j] != '\n'
                invariant
                    chars@ == s,
                    k <= j <= s.len(),
                    line_end(s, j as int) == line_end(s, k as int),
                decreases s.len() - j,
            {
                j = j + 1;
            }
            proof {
                lemma_line_end(s, k as int);
            }
            let mut piece: Vec<char> = Vec::new();
            let mut i = k;
            while i < j
                invariant
                    chars@ == s,
                    k <= i <= j <= s.len(),
                    piece@ == s.subrange(k as int, i as int),
                decreases j - i,
            {
                piece.push(chars[i]);
                assert(s.subrange(k as int, i + 1) == s.subrange(k as int, i as int).push(
                    s[i as int],
                ));
                i = i + 1;
            }
            if j < chars.len() && piece.len() > 0 && piece[piece.len() - 1] == '\r' {
                piece.pop();
            }
            let ghost before = lines_view(lines@);
            let ghost line_chars = piece@;
            lines.push(Line::from_chars(piece));
            proof {
                assert(lines_view(lines@) == before.push(line_chars));
                assert(lines_from(s, k as int) == seq![line_chars] + lines_from(s, j + 1));
                assert(lines_view(lines@) + lines_from(s, j + 1) =~= before + lines_from(
                    s,
                    k as int,
                ));
            }
            k = if j < chars.len() {
                j + 1
            } else {
                j
            };
        }
        Buffer { lines, file_info: FileInfo::from(file_name), dirty: false }
    }

    /// Whether the buffer changed since it was loaded or saved.
    pub fn is_dirty(&self) -> (b: bool)
        ensures
            b == self.dirty(),
    {
        self.dirty
    }

    /// Where the buffer is stored.
    pub fn get_file_info(&self) -> (r: &FileInfo)
        ensures
            *r == self.info(),
    {
        &self.file_info
    }

    /// The number of graphemes of line `idx`; zero past the last line.
    pub fn grapheme_count(&self, idx: LineIdx) -> (n: GraphemeIdx)
        ensures
            n == (if idx < self.text().len() {
                self.text()[idx as int].len()
            } else {
                0
            }),
    {
        if idx < self.lines.len() {
            self.lines[idx].grapheme_count()
        } else {
            0
        }
    }

    /// The columns taken by the graphemes of line `idx` before `until`; zero
    /// past the last line.
    pub fn width_until(&self, idx: LineIdx, until: GraphemeIdx) -> (n: GraphemeIdx)
        ensures
            n == (if idx < self.text().len() {
                vstd::math::min(until as int, self.text()[idx as int].len() as int)
            } else {
                0
            }),
    {
        if idx < self.lines.len() {
            self.lines[idx].width_until(until)
        } else {
            0
        }
    }

    /// Each line as a `String`.
    pub fn lines_as_strings(&self) -> (r: Vec<String>)
        ensures
            r@.len() == self.text().len(),
            forall|i: int| 0 <= i < r@.len() ==> r@[i]@ == self.text()[i],
    {
        let mut r: Vec<String> = Vec::new();
        let mut i: usize = 0;
        while i < self.lines.len()
            invariant
                i <= self.lines@.len(),
                r@.len() == i,
                forall|k: int| 0 <= k < i ==> r@[k]@ == self.text()[k],
            decreases self.lines@.len() - i,
        {
            r.push(self.lines[i].to_string());
            i = i + 1;
        }
        r
    }

    /// The line `idx`, if there is one.
    pub fn get_line(&self, idx: LineIdx) -> (r: Option<&Line>)
        ensures
            match r {
                Some(l) => idx < self.text().len() && l@ == self.text()[idx as int],
                None => idx >= self.text().len(),
            },
    {
        if idx < self.lines.len() {
            Some(&self.lines[idx])
        } else {
            None
        }
    }

    /// The first occurrence of `query` at or after `from`, searching
    /// through the lines cyclically (see [`forward_scan`]).
    pub fn search_forward(&self, query: &str, from: Location) -> (r: Option<Location>)
        ensures
            r == search_forward_result(self.text(), query@, from),
    {
        let q = Line::from(query);
        if q.is_empty() {
            return None;
        }
        let n = self.lines.len();
        if n == 0 {
            return None;
        }
        let start = from.line_idx % n;
        let ghost text = self.text();
        let mut k: usize = 0;
        loop
            invariant
                text == self.text(),
                n == text.len(),
                n > 0,
                q@ == query@,
                query@.len() > 0,
                start == from.line_idx % n,
                start < n,
                k <= n,
                forward_scan(text, q@, from.line_idx as int, from.grapheme_idx as int, 0)
                    == forward_scan(text, q@, from.line_idx as int, from.grapheme_idx as int, k as int),
            decreases n - k,
        {
            let li = if k < n - start {
                start + k
            } else {
                k - (n - start)
            };
            proof {
                lemma_cycle_index(start as int, k as int, n as int);
                assert(self.lines@[li as int]@ == text[li as int]);
            }
            let g = if k == 0 {
                from.grapheme_idx
            } else {
                0
            };
            if let Some(i) = self.lines[li].search_forward(&q, g) {
                return Some(Location { grapheme_idx: i, line_idx: li });
            }
            assert(forward_scan(text, q@, from.line_idx as int, from.grapheme_idx as int, k as int)
                == forward_scan(text, q@, from.line_idx as int, from.grapheme_idx as int, k + 1));
            if k == n {
                assert(forward_scan(text, q@, from.line_idx as int, from.grapheme_idx as int, k + 1)
                    == None::<Location>);
                return None;
            }
            k = k + 1;
        }
    }

    /// The last occurrence of `query` before `from`, searching backwards
    /// through the lines cyclically (see [`backward_scan`]).
    pub fn search_backward(&self, query: &str, from: Location) -> (r: Option<Location>)
        ensures
            r == search_backward_result(self.text(), query@, from),
    {
        let q = Line::from(query);
        if q.is_empty() {
            return None;
        }
        let n = self.lines.len();
        if n == 0 {
            return None;
        }
        let skip = n.saturating_sub(from.line_idx).saturating_sub(1);
        let ghost text = self.text();
        let mut k: usize = 0;
        loop
            invariant
                text == self.text(),
                n == text.len(),
                n > 0,
                q@ == query@,
                query@.len() > 0,
                skip == sub0(sub0(n as int, from.line_idx as int), 1),
                skip < n,
                k <= n,
                backward_scan(text, q@, skip as int, from.grapheme_idx as int, 0)
                    == backward_scan(text, q@, skip as int, from.grapheme_idx as int, k as int),
            decreases n - k,
        {
            let m = if k < n - skip {
                skip + k
            } else {
                k - (n - skip)
            };
            proof {
                lemma_cycle_index(skip as int, k as int, n as int);
            }
            let li = n - 1 - m;
            proof {
                assert(self.lines@[li as int]@ == text[li as int]);
            }
            let until = if k == 0 {
                from.grapheme_idx
            } else {
                self.lines[li].grapheme_count()
            };
            if let Some(i) = self.lines[li].search_backward(&q, until) {
                return Some(Location { grapheme_idx: i, line_idx: li });
            }
            assert(backward_scan(text, q@, skip as int, from.grapheme_idx as int, k as int)
                == backward_scan(text, q@, skip as int, from.grapheme_idx as int, k + 1));
            if k == n {
                assert(backward_scan(text, q@, skip as int, from.grapheme_idx as int, k + 1)
                    == None::<Location>);
                return None;
            }
            k = k + 1;
        }
    }

    /// The character of the grapheme at `at`, if there is one.
    pub fn get_char_at(&self, at: Location) -> (r: Option<char>)
        ensures
            r == (if at.line_idx < self.text().len() && at.grapheme_idx
                < self.text()[at.line_idx as int].len() {
                Some(self.text()[at.line_idx as int][at.grapheme_idx as int])
            } else {
                None::<char>
            }),
    {
        if at.line_idx < self.lines.len() {
            self.lines[at.line_idx].get_char_at(at.grapheme_idx)
        } else {
            None
        }
    }

    /// Saves the buffer under `file_name`, once its lines have been written
    /// there (`written`): it is then stored there and unchanged. When the
    /// write failed nothing changes. Returns whether it was saved.
    pub fn save_as(&mut self, file_name: &str, written: bool) -> (saved: bool)
        ensures
            saved == written,
            final(self).text() == old(self).text(),
            written ==> final(self).info().path() == Some(file_name@),
            written ==> final(self).info().file_type() == file_type_of(file_name@),
            written ==> !final(self).dirty(),
            !written ==> *final(self) == *old(self),
    {
        if written {
            self.file_info = FileInfo::from(file_name);
            self.dirty = false;
        }
        written
    }

    /// Saves the buffer where it is stored, once its lines have been written
    /// there (`written`): it is then unchanged. When the write failed nothing
    /// changes. Returns whether it was saved.
    pub fn save(&mut self, written: bool) -> (saved: bool)
        ensures
            saved == written,
            final(self).text() == old(self).text(),
            final(self).info() == old(self).info(),
            written ==> !final(self).dirty(),
            !written ==> *final(self) == *old(self),
    {
        if written {
            self.dirty = false;
        }
        written
    }

    /// The graphemes in the columns `[start, end)` of line `line_idx`, with the
    /// highlighting `annotations` of that line moved onto them (see
    /// `Line::get_annotated_visible_substr`); none past the last line.
    pub fn get_highlighted_substring(
        &self,
        line_idx: LineIdx,
        start: GraphemeIdx,
        end: GraphemeIdx,
        annotations: Option<&Vec<Annotation>>,
    ) -> (r: Option<AnnotatedString>)
        requires
            annotations matches Some(anns) ==> forall|i: int|
                0 <= i < anns@.len() ==> anns@[i].start_byte_idx <= anns@[i].end_byte_idx,
        ensures
            r is Some <==> line_idx < self.text().len(),
            r matches Some(a) ==> a.text() == visible_range(
                self.text()[line_idx as int],
                start as int,
                end as int,
            ) && a.annotations() == (if start >= end {
                Seq::<Annotation>::empty()
            } else {
                visible_annotations(
                    self.text()[line_idx as int],
                    match annotations {
                        Some(anns) => anns@,
                        None => Seq::<Annotation>::empty(),
                    },
                    start as int,
                    end as int,
                )
            }),
    {
        match self.get_line(line_idx) {
            Some(line) => Some(line.get_annotated_visible_substr(start, end, annotations)),
            None => None,
        }
    }

    /// Whether the buffer has no line.
    pub fn is_empty(&self) -> (b: bool)
        ensures
            b == (self.text().len() == 0),
    {
        self.lines.len() == 0
    }

    /// Whether the buffer is stored somewhere.
    pub fn is_file_loaded(&self) -> (b: bool)
        ensures
            b == (self.info().path() is Some),
    {
        self.file_info.has_path()
    }

    /// The number of lines.
    pub fn height(&self) -> (n: LineIdx)
        ensures
            n == self.text().len(),
    {
        self.lines.len()
    }

    /// Inserts `character` at `at` (see [`text_insert_char`]).
    pub fn insert_char(&mut self, character: char, at: Location)
        requires
            at.line_idx <= old(self).text().len(),
        ensures
            final(self).text() == text_insert_char(old(self).text(), character, at),
            final(self).dirty(),
            final(self).info() == old(self).info(),
    {
        if at.line_idx == self.lines.len() {
            let mut line = Line::default();
            line.append_char(character);
            self.lines.push(line);
            assert(lines_view(self.lines@) =~= lines_view(old(self).lines@).push(seq![character]));
        } else {
            let mut line = self.lines.remove(at.line_idx);
            line.insert_char(character, at.grapheme_idx);
            self.lines.insert(at.line_idx, line);
            assert(lines_view(self.lines@) =~= lines_view(old(self).lines@).update(
                at.line_idx as int,
                line_insert(old(self).text()[at.line_idx as int], character, at.grapheme_idx as int),
            ));
        }
        self.dirty = true;
    }

    /// Deletes at `at` (see [`text_delete`]); marks the buffer changed when
    /// something was deleted.
    pub fn delete(&mut self, at: Location)
        ensures
            final(self).text() == text_delete(old(self).text(), at),
            final(self).dirty() == (old(self).dirty() || deletes_line_break(old(self).text(), at)
                || deletes_grapheme(old(self).text(), at)),
            final(self).info() == old(self).info(),
    {
        let ghost old_text = self.text();
        if at.line_idx < self.lines.len() {
            let count = self.lines[at.line_idx].grapheme_count();
            if at.grapheme_idx >= count && self.lines.len() > at.line_idx + 1 {
                let next_line = self.lines.remove(at.line_idx + 1);
                let mut line = self.lines.remove(at.line_idx);
                line.append(&next_line);
                self.lines.insert(at.line_idx, line);
                assert(lines_view(self.lines@) =~= old_text.update(
                    at.line_idx as int,
                    old_text[at.line_idx as int] + old_text[at.line_idx + 1],
                ).remove(at.line_idx + 1));
                self.dirty = true;
            } else if at.grapheme_idx < count {
                let mut line = self.lines.remove(at.line_idx);
                line.delete(at.grapheme_idx);
                self.lines.insert(at.line_idx, line);
                assert(lines_view(self.lines@) =~= old_text.update(
                    at.line_idx as int,
                    line_delete(old_text[at.line_idx as int], at.grapheme_idx as int),
                ));
                self.dirty = true;
            }
        }
    }

    /// Breaks the line at `at` (see [`text_insert_newline`]).
    pub fn insert_newline(&mut self, at: Location)
        ensures
            final(self).text() == text_insert_newline(old(self).text(), at),
            final(self).dirty() == (old(self).dirty() || at.line_idx <= old(self).text().len()),
            final(self).info() == old(self).info(),
    {
        let ghost old_text = self.text();
        if at.line_idx == self.lines.len() {
            self.lines.push(Line::default());
            assert(lines_view(self.lines@) =~= old_text.push(Seq::<char>::empty()));
            self.dirty = true;
        } else if at.line_idx < self.lines.len() {
            let mut line = self.lines.remove(at.line_idx);
            let new = line.split(at.grapheme_idx);
            self.lines.insert(at.line_idx, line);
            self.lines.insert(at.line_idx + 1, new);
            assert(lines_view(self.lines@) =~= old_text.update(
                at.line_idx as int,
                split_head(old_text[at.line_idx as int], at.grapheme_idx as int),
            ).insert(at.line_idx + 1, split_tail(old_text[at.line_idx as int], at.grapheme_idx as int)));
            self.dirty = true;
        }
    }
}

/// A line with an occurrence of `query` at `i` ending by `until` has a last
/// such occurrence, at or after `i`.
proof fn lemma_last_match_found(line: Seq<char>, query: Seq<char>, until: int, i: int)
    requires
        query.len() > 0,
        i + query.len() <= until,
        matches_at(line, query, i),
    ensures
        last_match_until(line, query, until) matches Some(c) && i <= c && c + query.len() <= until
            && matches_at(line, query, c) && forall|j: int|
            c < j && j + query.len() <= until ==> !matches_at(line, query, j),
    decreases line.len() - i,
{
    if exists|j: int| i < j < line.len() && j + query.len() <= until && matches_at(line, query, j) {
        let j = choose|j: int|
            i < j < line.len() && j + query.len() <= until && matches_at(line, query, j);
        lemma_last_match_found(line, query, until, j);
    } else {
        assert(0 <= i < line.len());
        let c = choose|c: int|
            0 <= c < line.len() && c + query.len() <= until && matches_at(line, query, c) && forall|
                j: int,
            |
                c < j < line.len() && j + query.len() <= until ==> !matches_at(line, query, j);
        assert(!(i < c));
        assert forall|j: int| c < j && j + query.len() <= until implies !matches_at(
            line,
            query,
            j,
        ) by {
            if j >= line.len() {
            }
        }
    }
}

/// Searching backward from the caret finds, on the caret's line, the last
/// occurrence that ends at or before the caret, when there is one: the
/// match the caret is on, or any later one, is never found first.
pub proof fn lemma_backward_search_stays_before_caret(
    text: Seq<Seq<char>>,
    query: Seq<char>,
    from: Location,
    i: int,
)
    requires
        query.len() > 0,
        from.line_idx < text.len(),
        i + query.len() <= from.grapheme_idx,
        matches_at(text[from.line_idx as int], query, i),
    ensures
        search_backward_result(text, query, from) matches Some(r) && r.line_idx == from.line_idx
            && matches_at(text[from.line_idx as int], query, r.grapheme_idx as int)
            && r.grapheme_idx + query.len() <= from.grapheme_idx && i <= r.grapheme_idx && forall|
            j: int,
        |
            r.grapheme_idx < j && j + query.len() <= from.grapheme_idx ==> !matches_at(
                text[from.line_idx as int],
                query,
                j,
            ),
{
    let n = text.len() as int;
    let l = from.line_idx as int;
    let skip = sub0(sub0(n, l), 1);
    assert(skip == n - l - 1);
    assert(skip % n == skip) by (nonlinear_arith)
        requires
            0 <= skip < n,
    ;
    lemma_last_match_found(text[l], query, from.grapheme_idx as int, i);
    let c = last_match_until(text[l], query, from.grapheme_idx as int)->0;
    assert(n - 1 - (skip + 0) % n == l);
    assert(backward_scan(text, query, skip, from.grapheme_idx as int, 0) == Some(
        Location { grapheme_idx: c as usize, line_idx: l as usize },
    ));
    assert(c as usize == c);
}

/// The line that step `k` of a backward scan over `n` lines, starting `skip`
/// lines from the end, looks at.
pub open spec fn backward_line(n: int, skip: int, k: int) -> int {
    n - 1 - (skip + k) % n
}

/// No occurrence of `query` anywhere in `line`.
pub open spec fn lacks(line: Seq<char>, query: Seq<char>) -> bool {
    forall|i: int| !matches_at(line, query, i)
}

proof fn lemma_last_match_bounds(line: Seq<char>, query: Seq<char>, until: int)
    requires
        query.len() > 0,
    ensures
        last_match_until(line, query, until) matches Some(c) ==> 0 <= c < line.len() && c
            + query.len() <= until,
        last_match_until(line, query, until) is None ==> forall|i: int|
            0 <= i < line.len() && i + query.len() <= until ==> !#[trigger] matches_at(
                line,
                query,
                i,
            ),
{
    if until > 0 && exists|i: int|
        0 <= i < line.len() && i + query.len() <= until && matches_at(line, query, i) {
        let w = choose|i: int|
            0 <= i < line.len() && i + query.len() <= until && matches_at(line, query, i);
        lemma_last_match_found(line, query, until, w);
    }
}

proof fn lemma_backward_scan_step_passes(
    text: Seq<Seq<char>>,
    query: Seq<char>,
    skip: int,
    from_g: int,
    k: int,
)
    requires
        query.len() > 0,
        0 < text.len() <= usize::MAX,
        0 <= skip < text.len(),
        0 <= k < text.len(),
        backward_scan(text, query, skip, from_g, k) matches Some(r) && r.line_idx == text.len()
            - 1 - skip && (k == 0 ==> r.grapheme_idx + query.len() > from_g),
    ensures
        backward_scan(text, query, skip, from_g, k) == backward_scan(
            text,
            query,
            skip,
            from_g,
            k + 1,
        ),
        1 <= k ==> lacks(text[backward_line(text.len() as int, skip, k)], query),
{
    let n = text.len() as int;
    lemma_cycle_index(skip, k, n);
    let m = (skip + k) % n;
    assert(0 <= m < n);
    assert(k == 0 ==> m == skip);
    assert(k > 0 ==> m != skip);
    let li = n - 1 - m;
    assert(li == backward_line(n, skip, k));
    let until = if k == 0 {
        from_g
    } else {
        text[li].len() as int
    };
    lemma_last_match_bounds(text[li], query, until);
    assert(backward_scan(text, query, skip, from_g, k) == match last_match_until(
        text[li],
        query,
        until,
    ) {
        Some(i) => Some(Location { grapheme_idx: i as usize, line_idx: li as usize }),
        None => backward_scan(text, query, skip, from_g, k + 1),
    });
    if let Some(c) = last_match_until(text[li], query, until) {
        assert(li as usize == li);
        if k == 0 {
            assert(c as usize == c);
        }
        assert(false);
    }
    if k > 0 {
        assert forall|i: int| !matches_at(text[li], query, i) by {
            if matches_at(text[li], query, i) {
                assert(0 <= i < text[li].len() && i + query.len() <= until);
            }
        }
    }
}

proof fn lemma_backward_scan_passed_over(
    text: Seq<Seq<char>>,
    query: Seq<char>,
    skip: int,
    from_g: int,
    k: int,
)
    requires
        query.len() > 0,
        0 < text.len() <= usize::MAX,
        0 <= skip < text.len(),
        0 <= k <= text.len(),
        backward_scan(text, query, skip, from_g, k) matches Some(r) && r.line_idx == text.len()
            - 1 - skip && (k == 0 ==> r.grapheme_idx + query.len() > from_g),
    ensures
        forall|k2: int|
            k <= k2 < text.len() && 1 <= k2 ==> lacks(
                text[#[trigger] backward_line(text.len() as int, skip, k2)],
                query,
            ),
    decreases text.len() - k,
{
    if k < text.len() {
        lemma_backward_scan_step_passes(text, query, skip, from_g, k);
        lemma_backward_scan_passed_over(text, query, skip, from_g, k + 1);
    }
}

/// A backward search only ends on the caret's line at or after the caret
/// when it has gone round every line: no other line holds the query.
pub proof fn lemma_backward_search_wraps_only_when_alone(
    text: Seq<Seq<char>>,
    query: Seq<char>,
    from: Location,
)
    requires
        from.line_idx < text.len() <= usize::MAX,
    ensures
        search_backward_result(text, query, from) matches Some(r) && r.line_idx == from.line_idx
            && r.grapheme_idx + query.len() > from.grapheme_idx ==> forall|l: int|
            0 <= l < text.len() && l != from.line_idx ==> #[trigger] lacks(text[l], query),
{
    let n = text.len() as int;
    let l0 = from.line_idx as int;
    let skip = sub0(sub0(n, l0), 1);
    assert(skip == n - l0 - 1);
    if search_backward_result(text, query, from) matches Some(r) && r.line_idx == from.line_idx
        && r.grapheme_idx + query.len() > from.grapheme_idx {
        lemma_backward_scan_passed_over(text, query, skip, from.grapheme_idx as int, 0);
        assert forall|l: int| 0 <= l < n && l != l0 implies #[trigger] lacks(text[l], query) by {
            let m = n - 1 - l;
            let k2 = if m > skip {
                m - skip
            } else {
                m + n - skip
            };
            lemma_cycle_index(skip, k2, n);
            assert(backward_line(n, skip, k2) == l);
        }
    }
}

/// A line with an occurrence of `query` at `i`, at or after `from`, has a
/// first such occurrence, at or before `i`.
proof fn lemma_first_match_found(line: Seq<char>, query: Seq<char>, from: int, i: int)
    requires
        from <= i,
        matches_at(line, query, i),
        query.len() > 0,
    ensures
        first_match_from(line, query, from) matches Some(c) && from <= c <= i && matches_at(
            line,
            query,
            c,
        ) && forall|j: int| from <= j < c ==> !matches_at(line, query, j),
    decreases i - from,
{
    if exists|j: int| from <= j < i && matches_at(line, query, j) {
        let j = choose|j: int| from <= j < i && matches_at(line, query, j);
        lemma_first_match_found(line, query, from, j);
    } else {
        assert(from <= i < line.len());
    }
}

/// Searching forward from the caret finds, on the caret's line, the first
/// occurrence that starts at or after the caret, when there is one.
pub proof fn lemma_forward_search_starts_at_caret(
    text: Seq<Seq<char>>,
    query: Seq<char>,
    from: Location,
    i: int,
)
    requires
        query.len() > 0,
        from.line_idx < text.len(),
        from.grapheme_idx <= i,
        matches_at(text[from.line_idx as int], query, i),
        text[from.line_idx as int].len() <= usize::MAX,
    ensures
        search_forward_result(text, query, from) matches Some(r) && r.line_idx == from.line_idx
            && matches_at(text[from.line_idx as int], query, r.grapheme_idx as int)
            && from.grapheme_idx <= r.grapheme_idx <= i && forall|j: int|
            from.grapheme_idx <= j < r.grapheme_idx ==> !matches_at(
                text[from.line_idx as int],
                query,
                j,
            ),
{
    let n = text.len() as int;
    let l = from.line_idx as int;
    vstd::arithmetic::div_mod::lemma_small_mod(l as nat, n as nat);
    assert((l % n + 0) % n == l);
    lemma_first_match_found(text[l], query, from.grapheme_idx as int, i);
    let c = first_match_from(text[l], query, from.grapheme_idx as int)->0;
    assert(forward_scan(text, query, l, from.grapheme_idx as int, 0) == Some(
        Location { grapheme_idx: c as usize, line_idx: l as usize },
    ));
    assert(c as usize == c);
}

} // verus!
