//! Search highlighting: the occurrences of the search query in a line, as
//! annotations of the line's UTF-8 encoding.
use crate::editor::annotatedstring::AnnotatedString;
use crate::editor::annotation::{Annotation, AnnotationType};
use crate::editor::line::{matches_at, Line};
use crate::editor::utf8text::byte_offset;
use crate::prelude::GraphemeIdx;
use vstd::prelude::*;
use vstd::utf8::encode_utf8;

verus! {

/// The grapheme indices, from `from` on and left to right, at which
/// `query` occurs in `text` without overlapping an earlier occurrence.
pub open spec fn match_starts(text: Seq<char>, query: Seq<char>, from: int) -> Seq<int>
    decreases text.len() - from,
{
    if query.len() == 0 || from < 0 || from + query.len() > text.len() {
        Seq::empty()
    } else if matches_at(text, query, from) {
        seq![from] + match_starts(text, query, from + query.len())
    } else {
        match_starts(text, query, from + 1)
    }
}

/// `a + b`, stopping at `usize::MAX`.
pub open spec fn sat_add(a: int, b: int) -> usize {
    if a + b > usize::MAX {
        usize::MAX
    } else {
        (a + b) as usize
    }
}

/// The annotation of the occurrence of `query` at grapheme `k` of `text`:
/// its bytes, marked as the selected match when `k` is `selected`, else as
/// a match.
pub open spec fn match_annotation(
    text: Seq<char>,
    query: Seq<char>,
    k: int,
    selected: Option<GraphemeIdx>,
) -> Annotation {
    let start = byte_offset(text, k);
    Annotation {
        annotation_type: if selected == Some(k as usize) {
            AnnotationType::SelectedMatch
        } else {
            AnnotationType::Match
        },
        start_byte_idx: start as usize,
        end_byte_idx: sat_add(start, encode_utf8(query).len() as int),
    }
}

/// The annotations of every occurrence of `query` in `text` (see
/// [`match_starts`]); the one at `selected` is the selected match. No
/// annotations for an empty query.
pub open spec fn match_annotations_of(
    text: Seq<char>,
    query: Seq<char>,
    selected: Option<GraphemeIdx>,
) -> Seq<Annotation> {
    match_starts(text, query, 0).map_values(|k: int| match_annotation(text, query, k, selected))
}

/// Whether `query` occurs in `text` at `pos`.
fn occurs_at(text: &Vec<char>, query: &Vec<char>, pos: usize) -> (b: bool)
    requires
        pos + query@.len() <= text@.len(),
    ensures
        b == matches_at(text@, query@, pos as int),
{
    let m = query.len();
    let mut j: usize = 0;
    while j < m
        invariant
            j <= m == query@.len(),
            pos + m <= text@.len() == text.len(),
            forall|i: int| 0 <= i < j ==> text@[pos + i] == query@[i],
        decreases m - j,
    {
        if text[pos + j] != query[j] {
            assert(text@.subrange(pos as int, pos + m)[j as int] != query@[j as int]);
            return false;
        }
        j = j + 1;
    }
    assert(text@.subrange(pos as int, pos + m) =~= query@);
    true
}

/// The annotations of the occurrences of `query` in `line` (see
/// [`match_annotations_of`]).
pub fn match_annotations(line: &Line, query: &Line, selected: Option<GraphemeIdx>) -> (r: Vec<
    Annotation,
>)
    ensures
        r@ == match_annotations_of(line@, query@, selected),
        forall|i: int| 0 <= i < r@.len() ==> r@[i].start_byte_idx <= r@[i].end_byte_idx,
{
    let text = line.as_chars();
    let q = query.as_chars();
    let n = text.len();
    let m = q.len();
    let ghost t = line@;
    let ghost qq = query@;
    let mut r: Vec<Annotation> = Vec::new();
    if m == 0 {
        assert(r@ =~= match_annotations_of(t, qq, selected));
        return r;
    }
    let total = AnnotatedString::from(line.to_string().as_str()).len();
    let qbytes = AnnotatedString::from(query.to_string().as_str()).len();
    let mut pos: usize = 0;
    let ghost mut done: Seq<int> = Seq::empty();
    while pos < n && m <= n - pos
        invariant
            t == text@ && qq == q@ && n == t.len() && m == qq.len() && m > 0,
            line@ == t && query@ == qq,
            total == encode_utf8(t).len(),
            qbytes == encode_utf8(qq).len(),
            pos <= n,
            match_starts(t, qq, 0) == done + match_starts(t, qq, pos as int),
            r@ == done.map_values(|k: int| match_annotation(t, qq, k, selected)),
            forall|i: int| 0 <= i < r@.len() ==> r@[i].start_byte_idx <= r@[i].end_byte_idx,
        decreases n - pos,
    {
        if occurs_at(text, q, pos) {
            let start = line.byte_idx_of(pos, total);
            let kind = match selected {
                Some(s) => if s == pos {
                    AnnotationType::SelectedMatch
                } else {
                    AnnotationType::Match
                },
                None => AnnotationType::Match,
            };
            let a = Annotation {
                annotation_type: kind,
                start_byte_idx: start,
                end_byte_idx: start.saturating_add(qbytes),
            };
            r.push(a);
            proof {
                assert(match_starts(t, qq, pos as int) == seq![pos as int] + match_starts(
                    t,
                    qq,
                    pos + m,
                ));
                assert(done + match_starts(t, qq, pos as int) =~= done.push(pos as int)
                    + match_starts(t, qq, pos + m));
                assert(a == match_annotation(t, qq, pos as int, selected));
                assert(r@ =~= done.push(pos as int).map_values(
                    |k: int| match_annotation(t, qq, k, selected),
                ));
                done = done.push(pos as int);
            }
            pos = pos + m;
        } else {
            pos = pos + 1;
        }
    }
    assert(match_starts(t, qq, pos as int) =~= Seq::<int>::empty());
    assert(done + Seq::<int>::empty() =~= done);
    r
}

} // verus!
