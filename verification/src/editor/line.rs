use crate::editor::annotatedstring::{AnnotatedString, replaced_annotations};
use crate::editor::annotation::Annotation;
use crate::editor::stdtext::string_push;
use crate::editor::utf8text::{byte_offset, char_byte_len, lemma_byte_offset, lemma_encode_push};
use crate::prelude::{GraphemeIdx, ByteIdx};
use vstd::prelude::*;
use vstd::utf8::*;

verus! {

broadcast use vstd::utf8::group_utf8_lib;

/// One line of text, as a sequence of graphemes. Each grapheme is one
/// character and takes one column on the screen.
#[derive(Clone, Debug)]
pub struct Line {
    graphemes: Vec<char>,
}

/// `text` with `c` inserted before grapheme `at`, or appended when there is none there.
pub open spec fn line_insert(text: Seq<char>, c: char, at: int) -> Seq<char> {
    if 0 <= at < text.len() {
        text.insert(at, c)
    } else {
        text.push(c)
    }
}

/// `text` without grapheme `at`, if there is one.
pub open spec fn line_delete(text: Seq<char>, at: int) -> Seq<char> {
    if 0 <= at < text.len() {
        text.remove(at)
    } else {
        text
    }
}

/// What stays of `text` when it is split before grapheme `at`.
pub open spec fn split_head(text: Seq<char>, at: int) -> Seq<char> {
    if 0 <= at < text.len() {
        text.subrange(0, at)
    } else {
        text
    }
}

/// What is cut off `text` when it is split before grapheme `at`.
pub open spec fn split_tail(text: Seq<char>, at: int) -> Seq<char> {
    if 0 <= at < text.len() {
        text.subrange(at, text.len() as int)
    } else {
        Seq::empty()
    }
}

/// `text[i..i + query.len()]` is `query`.
pub open spec fn matches_at(text: Seq<char>, query: Seq<char>, i: int) -> bool {
    0 <= i && i + query.len() <= text.len() && text.subrange(i, i + query.len()) == query
}

/// The first grapheme index at or after `from` (and before the end of the
/// line) at which `query` occurs.
pub open spec fn first_match_from(text: Seq<char>, query: Seq<char>, from: int) -> Option<int> {
    if exists|i: int| from <= i < text.len() && matches_at(text, query, i) {
        Some(choose|i: int| from <= i < text.len() && matches_at(text, query, i) && forall|j: int|
            from <= j < i ==> !matches_at(text, query, j))
    } else {
        None
    }
}

/// The last grapheme index at which `query` occurs and ends at or before
/// `until`; none when `until` is zero.
pub open spec fn last_match_until(text: Seq<char>, query: Seq<char>, until: int) -> Option<int> {
    if until > 0 && exists|i: int|
        0 <= i < text.len() && i + query.len() <= until && matches_at(text, query, i) {
        Some(choose|i: int|
            0 <= i < text.len() && i + query.len() <= until && matches_at(text, query, i)
                && forall|j: int|
                i < j < text.len() && j + query.len() <= until ==> !matches_at(text, query, j))
    } else {
        None
    }
}

/// The graphemes of a line that lie in the columns `[start, end)`.
pub open spec fn visible_range(text: Seq<char>, start: int, end: int) -> Seq<char> {
    if start >= end {
        Seq::empty()
    } else {
        text.subrange(vstd::math::min(start, text.len() as int), vstd::math::min(end, text.len() as int))
    }
}

/// The annotations of [`Line::get_annotated_visible_substr`]: the given ones,
/// moved as the text is first cut at column `end` and then before column
/// `start`.
pub open spec fn visible_annotations(
    text: Seq<char>,
    anns: Seq<Annotation>,
    start: int,
    end: int,
) -> Seq<Annotation> {
    let count = text.len() as int;
    let total = encode_utf8(text).len() as int;
    let e = vstd::math::min(end, count);
    let s = vstd::math::min(start, count);
    let after_right = if end < count {
        replaced_annotations(anns, byte_offset(text, end), total, 0, byte_offset(text, end))
    } else {
        anns
    };
    if start > 0 && count > 0 {
        replaced_annotations(
            after_right,
            0,
            byte_offset(text, s),
            0,
            byte_offset(text, e) - byte_offset(text, s),
        )
    } else {
        after_right
    }
}

impl View for Line {
    type V = Seq<char>;

    closed spec fn view(&self) -> Seq<char> {
        self.graphemes@
    }
}

impl Default for Line {
    fn default() -> (r: Self)
        ensures
            r@ == Seq::<char>::empty(),
    {
        Line { graphemes: Vec::new() }
    }
}

impl Line {
    /// The line holding the characters of `line_str`.
    pub fn from(line_str: &str) -> (r: Self)
        ensures
            r@ == line_str@,
    {
        let mut graphemes: Vec<char> = Vec::new();
        for c in it: line_str.chars()
            invariant
                graphemes@ == it.seq().take(it.index() as int),
        {
            graphemes.push(c);
        }
        Line { graphemes }
    }

    /// The line holding the characters of `chars`.
    pub fn from_chars(chars: Vec<char>) -> (r: Self)
        ensures
            r@ == chars@,
    {
        Line { graphemes: chars }
    }

    /// The graphemes, one character each.
    pub fn as_chars(&self) -> (r: &Vec<char>)
        ensures
            r@ == self@,
    {
        &self.graphemes
    }

    /// The number of graphemes.
    pub fn grapheme_count(&self) -> (n: GraphemeIdx)
        ensures
            n == self@.len(),
    {
        self.graphemes.len()
    }

    /// Whether the line holds no grapheme.
    pub fn is_empty(&self) -> (b: bool)
        ensures
            b == (self@.len() == 0),
    {
        self.graphemes.len() == 0
    }

    /// The number of columns the line takes on the screen.
    pub fn width(&self) -> (n: usize)
        ensures
            n == self@.len(),
    {
        self.graphemes.len()
    }

    /// The number of columns taken by the graphemes before `grapheme_idx`.
    pub fn width_until(&self, grapheme_idx: GraphemeIdx) -> (n: usize)
        ensures
            n == vstd::math::min(grapheme_idx as int, self@.len() as int),
    {
        if grapheme_idx < self.graphemes.len() {
            grapheme_idx
        } else {
            self.graphemes.len()
        }
    }

    /// The character of the grapheme at `grapheme_idx`, if there is one.
    pub fn get_char_at(&self, grapheme_idx: GraphemeIdx) -> (r: Option<char>)
        ensures
            r == (if grapheme_idx < self@.len() {
                Some(self@[grapheme_idx as int])
            } else {
                None::<char>
            }),
    {
        if grapheme_idx < self.graphemes.len() {
            Some(self.graphemes[grapheme_idx])
        } else {
            None
        }
    }

    /// Inserts `character` before the grapheme at `at`, or at the end when
    /// there is no grapheme there.
    pub fn insert_char(&mut self, character: char, at: GraphemeIdx)
        ensures
            final(self)@ == line_insert(old(self)@, character, at as int),
    {
        if at < self.graphemes.len() {
            self.graphemes.insert(at, character);
        } else {
            self.graphemes.push(character);
        }
    }

    /// Appends `character` at the end.
    pub fn append_char(&mut self, character: char)
        ensures
            final(self)@ == old(self)@.push(character),
    {
        self.graphemes.push(character);
    }

    /// Removes the grapheme at `at`, if there is one.
    pub fn delete(&mut self, at: GraphemeIdx)
        ensures
            final(self)@ == line_delete(old(self)@, at as int),
    {
        if at < self.graphemes.len() {
            self.graphemes.remove(at);
        }
    }

    /// Removes the last grapheme, if there is one.
    pub fn delete_last(&mut self)
        ensures
            final(self)@ == (if old(self)@.len() > 0 {
                old(self)@.drop_last()
            } else {
                old(self)@
            }),
    {
        if self.graphemes.len() > 0 {
            self.graphemes.pop();
        }
    }

    /// Appends the graphemes of `other`.
    pub fn append(&mut self, other: &Line)
        ensures
            final(self)@ == old(self)@ + other@,
    {
        let mut i: usize = 0;
        while i < other.graphemes.len()
            invariant
                i <= other@.len(),
                self@ == old(self)@ + other@.subrange(0, i as int),
            decreases other@.len() - i,
        {
            self.graphemes.push(other.graphemes[i]);
            assert(other@.subrange(0, i + 1) == other@.subrange(0, i as int).push(other@[i as int]));
            i = i + 1;
        }
        assert(other@.subrange(0, other@.len() as int) == other@);
    }

    /// Cuts the line before the grapheme at `at` and returns what followed;
    /// when there is no grapheme at `at` the line stays and the result is empty.
    pub fn split(&mut self, at: GraphemeIdx) -> (r: Line)
        ensures
            final(self)@ == split_head(old(self)@, at as int),
            r@ == split_tail(old(self)@, at as int),
    {
        if at < self.graphemes.len() {
            let rest = self.graphemes.split_off(at);
            Line { graphemes: rest }
        } else {
            Line { graphemes: Vec::new() }
        }
    }

    /// Whether `query` occurs at grapheme `i`.
    fn matches_at_exec(&self, query: &Line, i: usize) -> (b: bool)
        ensures
            b == matches_at(self@, query@, i as int),
    {
        if query.graphemes.len() > self.graphemes.len() || i > self.graphemes.len()
            - query.graphemes.len() {
            return false;
        }
        let mut k: usize = 0;
        while k < query.graphemes.len()
            invariant
                k <= query@.len(),
                i + query@.len() <= self@.len(),
                self@.len() == self.graphemes.len(),
                query@.len() == query.graphemes.len(),
                forall|j: int| 0 <= j < k ==> self@[i + j] == query@[j],
            decreases query@.len() - k,
        {
            if self.graphemes[i + k] != query.graphemes[k] {
                assert(self@.subrange(i as int, i + query@.len())[k as int] != query@[k as int]);
                return false;
            }
            k = k + 1;
        }
        assert(self@.subrange(i as int, i + query@.len()) =~= query@);
        true
    }

    /// The first grapheme index at or after `from` at which `query` occurs.
    pub fn search_forward(&self, query: &Line, from: GraphemeIdx) -> (r: Option<GraphemeIdx>)
        ensures
            r == (match first_match_from(self@, query@, from as int) {
                Some(i) => Some(i as usize),
                None => None::<usize>,
            }),
    {
        let mut i = from;
        while i < self.graphemes.len()
            invariant
                from <= i,
                forall|j: int| from <= j < i ==> !matches_at(self@, query@, j),
            decreases self@.len() - i,
        {
            if self.matches_at_exec(query, i) {
                assert(first_match_from(self@, query@, from as int) == Some(i as int)) by {
                    let w = choose|k: int|
                        from <= k < self@.len() && matches_at(self@, query@, k) && forall|j: int|
                            from <= j < k ==> !matches_at(self@, query@, j);
                    assert(from <= i < self@.len() && matches_at(self@, query@, i as int) && forall|
                        j: int,
                    | from <= j < i ==> !matches_at(self@, query@, j));
                    if w < i {
                    } else if w > i {
                    }
                }
                return Some(i);
            }
            i = i + 1;
        }
        None
    }

    /// The last grapheme index at which `query` occurs, ending at or before `until`.
    pub fn search_backward(&self, query: &Line, until: GraphemeIdx) -> (r: Option<GraphemeIdx>)
        ensures
            r == (match last_match_until(self@, query@, until as int) {
                Some(i) => Some(i as usize),
                None => None::<usize>,
            }),
    {
        if until == 0 {
            return None;
        }
        let mut i = self.graphemes.len();
        while i > 0
            invariant
                i <= self@.len(),
                until > 0,
                forall|j: int|
                    i <= j < self@.len() && j + query@.len() <= until ==> !matches_at(
                        self@,
                        query@,
                        j,
                    ),
            decreases i,
        {
            let j = i - 1;
            if query.graphemes.len() <= until && j <= until - query.graphemes.len()
                && self.matches_at_exec(query, j) {
                assert(last_match_until(self@, query@, until as int) == Some(j as int)) by {
                    let w = choose|k: int|
                        0 <= k < self@.len() && k + query@.len() <= until && matches_at(
                            self@,
                            query@,
                            k,
                        ) && forall|m: int|
                            k < m < self@.len() && m + query@.len() <= until ==> !matches_at(
                                self@,
                                query@,
                                m,
                            );
                    assert(0 <= j < self@.len() && j + query@.len() <= until && matches_at(
                        self@,
                        query@,
                        j as int,
                    ));
                    if w < j {
                    } else if w > j {
                    }
                }
                return Some(j);
            }
            i = j;
        }
        None
    }

    /// The line as a `String`.
    pub fn to_string(&self) -> (s: String)
        ensures
            s@ == self@,
    {
        let mut s = String::new();
        let mut i: usize = 0;
        while i < self.graphemes.len()
            invariant
                i <= self@.len(),
                s@ == self@.subrange(0, i as int),
            decreases self@.len() - i,
        {
            string_push(&mut s, self.graphemes[i]);
            assert(self@.subrange(0, i + 1) == self@.subrange(0, i as int).push(self@[i as int]));
            i = i + 1;
        }
        assert(self@.subrange(0, self@.len() as int) == self@);
        s
    }

    /// The graphemes in the columns `[start, end)` as a `String`.
    pub fn get_visible_graphemes(&self, start: usize, end: usize) -> (s: String)
        ensures
            s@ == visible_range(self@, start as int, end as int),
    {
        let mut s = String::new();
        if start >= end {
            return s;
        }
        let count = self.graphemes.len();
        let hi = if end < count {
            end
        } else {
            count
        };
        let mut i = if start < count {
            start
        } else {
            count
        };
        let lo = i;
        while i < hi
            invariant
                lo <= i <= hi <= self@.len(),
                s@ == self@.subrange(lo as int, i as int),
            decreases hi - i,
        {
            string_push(&mut s, self.graphemes[i]);
            assert(self@.subrange(lo as int, i + 1) == self@.subrange(lo as int, i as int).push(
                self@[i as int],
            ));
            i = i + 1;
        }
        s
    }

    /// The byte offset of grapheme `k` in the UTF-8 encoding of the line.
    pub fn byte_idx_of(&self, k: GraphemeIdx, total: usize) -> (b: ByteIdx)
        requires
            k <= self@.len(),
            total == encode_utf8(self@).len(),
        ensures
            b == byte_offset(self@, k as int),
    {
        let mut b: usize = 0;
        let mut i: usize = 0;
        while i < k
            invariant
                i <= k <= self@.len(),
                total == encode_utf8(self@).len(),
                b == byte_offset(self@, i as int),
            decreases k - i,
        {
            proof {
                lemma_encode_push(self@.subrange(0, i as int), self@[i as int]);
                assert(self@.subrange(0, i as int).push(self@[i as int]) == self@.subrange(
                    0,
                    i + 1,
                ));
                lemma_byte_offset(self@, i + 1);
            }
            b = b + char_byte_len(self.graphemes[i]);
            i = i + 1;
        }
        b
    }

    /// The graphemes in the columns `[start, end)` with the given annotations
    /// (byte ranges of the whole line) moved onto the cut text.
    pub fn get_annotated_visible_substr(
        &self,
        start: usize,
        end: usize,
        annotations: Option<&Vec<Annotation>>,
    ) -> (r: AnnotatedString)
        requires
            annotations matches Some(anns) ==> forall|i: int|
                0 <= i < anns@.len() ==> anns@[i].start_byte_idx <= anns@[i].end_byte_idx,
        ensures
            r.text() == visible_range(self@, start as int, end as int),
            r.annotations() == (if start >= end {
                Seq::<Annotation>::empty()
            } else {
                visible_annotations(
                    self@,
                    match annotations {
                        Some(anns) => anns@,
                        None => Seq::<Annotation>::empty(),
                    },
                    start as int,
                    end as int,
                )
            }),
    {
        if start >= end {
            return AnnotatedString::new();
        }
        let text = self.to_string();
        let mut result = AnnotatedString::from(text.as_str());
        let ghost anns: Seq<Annotation> = match annotations {
            Some(a) => a@,
            None => Seq::<Annotation>::empty(),
        };
        if let Some(list) = annotations {
            let mut i: usize = 0;
            while i < list.len()
                invariant
                    i <= list@.len(),
                    anns == list@,
                    forall|k: int|
                        0 <= k < list@.len() ==> list@[k].start_byte_idx <= list@[k].end_byte_idx,
                    result.bytes() == encode_utf8(self@),
                    result.annotations() == list@.subrange(0, i as int),
                decreases list@.len() - i,
            {
                let a = list[i];
                result.add_annotation(a.annotation_type, a.start_byte_idx, a.end_byte_idx);
                assert(list@.subrange(0, i + 1) == list@.subrange(0, i as int).push(a));
                i = i + 1;
            }
            assert(list@.subrange(0, list@.len() as int) == list@);
        } else {
            assert(result.annotations() == anns);
        }
        let total = result.len();
        let count = self.graphemes.len();
        let ghost line = self@;
        proof {
            lemma_byte_offset(line, count as int);
            assert(line.subrange(0, count as int) == line);
        }
        let e = if end < count {
            end
        } else {
            count
        };
        let s = if start < count {
            start
        } else {
            count
        };
        let e_byte = self.byte_idx_of(e, total);
        let s_byte = self.byte_idx_of(s, total);
        proof {
            lemma_byte_offset(line, e as int);
            lemma_byte_offset(line, s as int);
            lemma_byte_offset(line.subrange(0, e as int), s as int);
            assert(line.subrange(0, e as int).subrange(0, s as int) == line.subrange(0, s as int));
            assert(line.subrange(0, e as int).subrange(s as int, e as int) == line.subrange(
                s as int,
                e as int,
            ));
        }
        if end < count {
            result.truncate_right_from(e_byte);
        }
        assert(result.bytes() == encode_utf8(line.subrange(0, e as int)));
        if start > 0 && count > 0 {
            result.truncate_left_until(s_byte);
        }
        assert(result.bytes() == encode_utf8(line.subrange(s as int, e as int)));
        result
    }
}

} // verus!
