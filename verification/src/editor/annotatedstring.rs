use crate::editor::annotation::{Annotation, AnnotationType};
use crate::editor::stdtext::string_from_utf8;
use crate::editor::utf8text::{lemma_decode_concat, lemma_valid_is_encoding};
use crate::prelude::ByteIdx;
use vstd::prelude::*;
use vstd::utf8::*;

verus! {

broadcast use vstd::utf8::group_utf8_lib;

/// A string together with highlighted byte ranges of it.
///
/// The text is held as its UTF-8 encoding; annotation ranges are byte
/// offsets into that encoding.
#[derive(Debug)]
pub struct AnnotatedString {
    bytes: Vec<u8>,
    annotations: Vec<Annotation>,
}

/// A maximal run of an annotated string that carries one annotation type (or none).
#[derive(Debug)]
pub struct AnnotatedStringPart {
    pub string: String,
    pub annotation_type: Option<AnnotationType>,
}

/// `a - d`, stopping at zero.
pub open spec fn sat_sub(a: int, d: int) -> int {
    if a - d < 0 {
        0
    } else {
        a - d
    }
}

/// `a + d`, stopping at `usize::MAX`.
pub open spec fn sat_add(a: int, d: int) -> int {
    if a + d > usize::MAX {
        usize::MAX as int
    } else {
        a + d
    }
}

pub open spec fn abs_diff(a: int, b: int) -> int {
    if a < b {
        b - a
    } else {
        a - b
    }
}

/// Where a byte index of an annotation moves when the bytes `[start, end)`
/// are replaced by `new_len` bytes: indices at or after the replaced range
/// move by the change in length; indices inside it move by the change too,
/// but stay within `[start, end]`; indices before it stay.
pub open spec fn shift_index(idx: int, start: int, end: int, new_len: int) -> int {
    let shortened = new_len < end - start;
    let diff = abs_diff(new_len, end - start);
    if idx >= end {
        if shortened {
            sat_sub(idx, diff)
        } else {
            sat_add(idx, diff)
        }
    } else if idx >= start {
        if shortened {
            vstd::math::max(start, sat_sub(idx, diff))
        } else {
            vstd::math::min(end, sat_add(idx, diff))
        }
    } else {
        idx
    }
}

/// An annotation with both ends moved by [`shift_index`].
pub open spec fn shift_annotation(a: Annotation, start: int, end: int, new_len: int) -> Annotation {
    Annotation {
        annotation_type: a.annotation_type,
        start_byte_idx: shift_index(a.start_byte_idx as int, start, end, new_len) as usize,
        end_byte_idx: shift_index(a.end_byte_idx as int, start, end, new_len) as usize,
    }
}

/// An annotation survives a replacement when it is not empty and starts
/// within the new text of `total` bytes.
pub open spec fn annotation_kept(a: Annotation, total: int) -> bool {
    a.start_byte_idx < a.end_byte_idx && a.start_byte_idx < total
}

/// The annotations after replacing `[start, end)` by `new_len` bytes in a text
/// that is `total` bytes long afterwards. When the length does not change
/// the annotations stay as they are; otherwise each is shifted and the ones
/// that became empty or start past the end are dropped.
pub open spec fn replaced_annotations(
    anns: Seq<Annotation>,
    start: int,
    end: int,
    new_len: int,
    total: int,
) -> Seq<Annotation> {
    if new_len == end - start {
        anns
    } else {
        anns.map_values(shifter(start, end, new_len)).filter(keeper(total))
    }
}

/// [`shift_annotation`] for one replacement, as a function.
pub open spec fn shifter(start: int, end: int, new_len: int) -> spec_fn(Annotation) -> Annotation {
    |a: Annotation| shift_annotation(a, start, end, new_len)
}

/// [`annotation_kept`] for a text of `total` bytes, as a predicate.
pub open spec fn keeper(total: int) -> spec_fn(Annotation) -> bool {
    |a: Annotation| annotation_kept(a, total)
}

/// Whether annotation `a` covers byte `c`.
pub open spec fn covers(a: Annotation, c: int) -> bool {
    a.start_byte_idx <= c < a.end_byte_idx
}

/// The index of the last of the first `n` annotations that covers byte `c`, or -1.
pub open spec fn last_covering(anns: Seq<Annotation>, c: int, n: int) -> int
    decreases n,
{
    if n <= 0 {
        -1
    } else if covers(anns[n - 1], c) {
        n - 1
    } else {
        last_covering(anns, c, n - 1)
    }
}

/// The smallest start after `c` among the first `n` annotations, or `len` if it is smaller.
pub open spec fn next_start(anns: Seq<Annotation>, c: int, n: int, len: int) -> int
    decreases n,
{
    if n <= 0 {
        len
    } else {
        let r = next_start(anns, c, n - 1, len);
        if anns[n - 1].start_byte_idx > c && anns[n - 1].start_byte_idx < r {
            anns[n - 1].start_byte_idx as int
        } else {
            r
        }
    }
}

/// Where the part that begins at byte `c` ends, before rounding up to a
/// character boundary: at the end of the last annotation covering `c`, or
/// else at the next annotation start.
pub open spec fn part_end(anns: Seq<Annotation>, c: int, len: int) -> int {
    let k = last_covering(anns, c, anns.len() as int);
    if k >= 0 {
        vstd::math::min(anns[k].end_byte_idx as int, len)
    } else {
        next_start(anns, c, anns.len() as int, len)
    }
}

/// The annotation type of the part that begins at byte `c`.
pub open spec fn part_type(anns: Seq<Annotation>, c: int) -> Option<AnnotationType> {
    let k = last_covering(anns, c, anns.len() as int);
    if k >= 0 {
        Some(anns[k].annotation_type)
    } else {
        None
    }
}

/// What the parts hold, as characters and annotation types.
pub open spec fn part_views(parts: Seq<AnnotatedStringPart>) -> Seq<(Seq<char>, Option<AnnotationType>)> {
    parts.map_values(|p: AnnotatedStringPart| (p.string@, p.annotation_type))
}

/// The first character boundary at or after `e`.
pub open spec fn next_boundary(bytes: Seq<u8>, e: int) -> int
    decreases bytes.len() - e,
{
    if e >= bytes.len() {
        bytes.len() as int
    } else if is_char_boundary(bytes, e) {
        e
    } else {
        next_boundary(bytes, e + 1)
    }
}

/// The parts of the text from byte `c` on: each part runs from its start to
/// [`part_end`], rounded up to a character boundary so that no character is
/// split, and carries [`part_type`].
pub open spec fn parts_from(bytes: Seq<u8>, anns: Seq<Annotation>, c: int) -> Seq<
    (Seq<char>, Option<AnnotationType>),
>
    decreases bytes.len() - c,
{
    if c < 0 || c >= bytes.len() {
        Seq::empty()
    } else {
        let e = vstd::math::min(
            bytes.len() as int,
            vstd::math::max(c + 1, next_boundary(bytes, part_end(anns, c, bytes.len() as int))),
        );
        seq![(decode_utf8(bytes.subrange(c, e)), part_type(anns, c))] + parts_from(bytes, anns, e)
    }
}

proof fn lemma_next_boundary(bytes: Seq<u8>, e: int)
    requires
        valid_utf8(bytes),
        0 <= e <= bytes.len(),
    ensures
        e <= next_boundary(bytes, e) <= bytes.len(),
        is_char_boundary(bytes, next_boundary(bytes, e)),
    decreases bytes.len() - e,
{
    if e < bytes.len() && !is_char_boundary(bytes, e) {
        lemma_next_boundary(bytes, e + 1);
    }
}

proof fn lemma_last_covering(anns: Seq<Annotation>, c: int, n: int)
    requires
        0 <= n <= anns.len(),
    ensures
        -1 <= last_covering(anns, c, n) < n,
        last_covering(anns, c, n) >= 0 ==> covers(anns[last_covering(anns, c, n)], c),
    decreases n,
{
    if n > 0 {
        lemma_last_covering(anns, c, n - 1);
    }
}

proof fn lemma_next_start(anns: Seq<Annotation>, c: int, n: int, len: int)
    requires
        0 <= n <= anns.len(),
        c < len,
    ensures
        c < next_start(anns, c, n, len) <= len,
    decreases n,
{
    if n > 0 {
        lemma_next_start(anns, c, n - 1, len);
    }
}

/// Copies `src[from..to]` onto the end of `dst`.
fn extend_from_range(dst: &mut Vec<u8>, src: &[u8], from: usize, to: usize)
    requires
        from <= to <= src@.len(),
    ensures
        final(dst)@ == old(dst)@ + src@.subrange(from as int, to as int),
{
    let mut i = from;
    while i < to
        invariant
            from <= i <= to <= src@.len(),
            dst@ == old(dst)@ + src@.subrange(from as int, i as int),
        decreases to - i,
    {
        dst.push(src[i]);
        assert(src@.subrange(from as int, i + 1) == src@.subrange(from as int, i as int).push(
            src@[i as int],
        ));
        i = i + 1;
    }
}

impl AnnotatedString {
    #[verifier::type_invariant]
    spec fn well_formed(self) -> bool {
        valid_utf8(self.bytes@)
    }

    /// The UTF-8 encoding of the text.
    pub closed spec fn bytes(&self) -> Seq<u8> {
        self.bytes@
    }

    /// The annotations, in the order in which they were added.
    pub closed spec fn annotations(&self) -> Seq<Annotation> {
        self.annotations@
    }

    /// The characters of the text.
    pub open spec fn text(&self) -> Seq<char> {
        decode_utf8(self.bytes())
    }

    /// The text of `string` with no annotations.
    pub fn from(string: &str) -> (r: Self)
        ensures
            r.bytes() == encode_utf8(string@),
            r.text() == string@,
            r.annotations() == Seq::<Annotation>::empty(),
    {
        let mut bytes: Vec<u8> = Vec::new();
        let src = string.as_bytes();
        extend_from_range(&mut bytes, src, 0, src.len());
        assert(bytes@ =~= encode_utf8(string@));
        AnnotatedString { bytes, annotations: Vec::new() }
    }

    /// The empty string with no annotations.
    pub fn new() -> (r: Self)
        ensures
            r.bytes() == Seq::<u8>::empty(),
            r.text() == Seq::<char>::empty(),
            r.annotations() == Seq::<Annotation>::empty(),
    {
        AnnotatedString { bytes: Vec::new(), annotations: Vec::new() }
    }

    /// The annotations, in the order they were added.
    pub fn get_annotations(&self) -> (r: &Vec<Annotation>)
        ensures
            r@ == self.annotations(),
    {
        &self.annotations
    }

    /// The number of bytes of the text.
    pub fn len(&self) -> (n: usize)
        ensures
            n == self.bytes().len(),
    {
        self.bytes.len()
    }

    /// Marks the bytes `[start_byte_idx, end_byte_idx)` with `annotation_type`.
    pub fn add_annotation(
        &mut self,
        annotation_type: AnnotationType,
        start_byte_idx: ByteIdx,
        end_byte_idx: ByteIdx,
    )
        requires
            start_byte_idx <= end_byte_idx,
        ensures
            final(self).bytes() == old(self).bytes(),
            final(self).annotations() == old(self).annotations().push(
                Annotation { annotation_type, start_byte_idx, end_byte_idx },
            ),
    {
        let mut annotations: Vec<Annotation> = Vec::new();
        proof {
            use_type_invariant(&*self);
        }
        std::mem::swap(&mut annotations, &mut self.annotations);
        annotations.push(Annotation { annotation_type, start_byte_idx, end_byte_idx });
        self.annotations = annotations;
    }

    /// Removes the bytes before `until`.
    pub fn truncate_left_until(&mut self, until: ByteIdx)
        requires
            until <= old(self).bytes().len(),
            is_char_boundary(old(self).bytes(), until as int),
        ensures
            final(self).bytes() == old(self).bytes().subrange(
                until as int,
                old(self).bytes().len() as int,
            ),
            final(self).annotations() == replaced_annotations(
                old(self).annotations(),
                0,
                until as int,
                0,
                final(self).bytes().len() as int,
            ),
    {
        proof {
            use_type_invariant(&*self);
        }
        self.replace(0, until, "");
        proof {
            assert(encode_utf8(""@) =~= Seq::<u8>::empty()) by {
                assert(""@ =~= Seq::<char>::empty()) by {
                    reveal_strlit("");
                }
            }
            assert(old(self).bytes().subrange(0, 0) + encode_utf8(""@) + old(self).bytes().subrange(
                until as int,
                old(self).bytes().len() as int,
            ) =~= old(self).bytes().subrange(until as int, old(self).bytes().len() as int));
        }
    }

    /// Removes the bytes from `from` on.
    pub fn truncate_right_from(&mut self, from: ByteIdx)
        requires
            from <= old(self).bytes().len(),
            is_char_boundary(old(self).bytes(), from as int),
        ensures
            final(self).bytes() == old(self).bytes().subrange(0, from as int),
            final(self).annotations() == replaced_annotations(
                old(self).annotations(),
                from as int,
                old(self).bytes().len() as int,
                0,
                final(self).bytes().len() as int,
            ),
    {
        let len = self.bytes.len();
        proof {
            use_type_invariant(&*self);
        }
        self.replace(from, len, "");
        proof {
            assert(encode_utf8(""@) =~= Seq::<u8>::empty()) by {
                assert(""@ =~= Seq::<char>::empty()) by {
                    reveal_strlit("");
                }
            }
            assert(old(self).bytes().subrange(0, from as int) + encode_utf8(""@) + old(self).bytes().subrange(len as int, len as int) =~= old(self).bytes().subrange(
                0,
                from as int,
            ));
        }
    }

    /// Replaces the bytes `[start_byte_idx, end_byte_idx)` by `new_string`
    /// and moves the annotations as [`replaced_annotations`] describes.
    pub fn replace(&mut self, start_byte_idx: ByteIdx, end_byte_idx: ByteIdx, new_string: &str)
        requires
            start_byte_idx <= end_byte_idx <= old(self).bytes().len(),
            is_char_boundary(old(self).bytes(), start_byte_idx as int),
            is_char_boundary(old(self).bytes(), end_byte_idx as int),
        ensures
            final(self).bytes() == old(self).bytes().subrange(0, start_byte_idx as int)
                + encode_utf8(new_string@) + old(self).bytes().subrange(
                end_byte_idx as int,
                old(self).bytes().len() as int,
            ),
            final(self).annotations() == replaced_annotations(
                old(self).annotations(),
                start_byte_idx as int,
                end_byte_idx as int,
                encode_utf8(new_string@).len() as int,
                final(self).bytes().len() as int,
            ),
    {
        proof {
            use_type_invariant(&*self);
        }
        let ghost old_bytes = self.bytes@;
        let ghost old_anns = self.annotations@;
        let new_bytes_src = new_string.as_bytes();
        let mut new_bytes: Vec<u8> = Vec::new();
        extend_from_range(&mut new_bytes, self.bytes.as_slice(), 0, start_byte_idx);
        extend_from_range(&mut new_bytes, new_bytes_src, 0, new_bytes_src.len());
        extend_from_range(&mut new_bytes, self.bytes.as_slice(), end_byte_idx, self.bytes.len());
        proof {
            let pre = old_bytes.subrange(0, start_byte_idx as int);
            let post = old_bytes.subrange(end_byte_idx as int, old_bytes.len() as int);
            let mid = encode_utf8(new_string@);
            assert(new_bytes_src@.subrange(0, new_bytes_src@.len() as int) =~= mid);
            assert(new_bytes@ =~= pre + mid + post);
            assert(valid_utf8(pre));
            assert(valid_utf8(post)) by {
                assert(valid_utf8(old_bytes.subrange(end_byte_idx as int, old_bytes.len() as int)));
            }
            lemma_decode_concat(pre, mid);
            lemma_decode_concat(pre + mid, post);
        }
        let total = new_bytes.len();
        self.bytes = new_bytes;

        let new_len = new_bytes_src.len();
        let replaced_range_len = end_byte_idx - start_byte_idx;
        let shortened = new_len < replaced_range_len;
        let len_difference = if shortened {
            replaced_range_len - new_len
        } else {
            new_len - replaced_range_len
        };
        if len_difference == 0 {
            return;
        }
        let ghost shift = shifter(start_byte_idx as int, end_byte_idx as int, new_len as int);
        let ghost keep = keeper(total as int);
        let mut kept: Vec<Annotation> = Vec::new();
        let mut i: usize = 0;
        while i < self.annotations.len()
            invariant
                0 <= i <= self.annotations@.len(),
                self.annotations@ == old_anns,
                new_len == encode_utf8(new_string@).len(),
                start_byte_idx <= end_byte_idx,
                replaced_range_len == end_byte_idx - start_byte_idx,
                shortened == (new_len < replaced_range_len),
                len_difference == abs_diff(new_len as int, replaced_range_len as int),
                shift == shifter(start_byte_idx as int, end_byte_idx as int, new_len as int),
                keep == keeper(total as int),
                kept@ == old_anns.subrange(0, i as int).map_values(shift).filter(keep),
            decreases self.annotations@.len() - i,
        {
            let a = self.annotations[i];
            let start = Self::shift_exec(
                a.start_byte_idx,
                start_byte_idx,
                end_byte_idx,
                shortened,
                len_difference,
            );
            let end = Self::shift_exec(
                a.end_byte_idx,
                start_byte_idx,
                end_byte_idx,
                shortened,
                len_difference,
            );
            let moved = Annotation {
                annotation_type: a.annotation_type,
                start_byte_idx: start,
                end_byte_idx: end,
            };
            proof {
                assert(start == shift_index(
                    a.start_byte_idx as int,
                    start_byte_idx as int,
                    end_byte_idx as int,
                    new_len as int,
                ));
                assert(end == shift_index(
                    a.end_byte_idx as int,
                    start_byte_idx as int,
                    end_byte_idx as int,
                    new_len as int,
                ));
                assert(a == old_anns[i as int]);
                let sa = shift_annotation(
                    a,
                    start_byte_idx as int,
                    end_byte_idx as int,
                    new_len as int,
                );
                assert(sa.start_byte_idx == start);
                assert(sa.end_byte_idx == end);
                assert(sa == moved);
                assert(shift(a) == sa);
                let s = old_anns.subrange(0, i + 1).map_values(shift);
                assert(old_anns.subrange(0, i + 1).map_values(shift).drop_last() =~= old_anns.subrange(
                    0,
                    i as int,
                ).map_values(shift));
                assert(s.last() == moved);
                reveal_with_fuel(Seq::filter, 1);
            }
            if start < end && start < total {
                kept.push(moved);
            }
            i = i + 1;
        }
        proof {
            assert(old_anns.subrange(0, old_anns.len() as int) =~= old_anns);
        }
        self.annotations = kept;
    }

    /// One index moved as [`shift_index`] describes, given whether the
    /// replacement shortened the text and by how much its length changed.
    fn shift_exec(
        idx: ByteIdx,
        start: ByteIdx,
        end: ByteIdx,
        shortened: bool,
        len_difference: usize,
    ) -> (r: ByteIdx)
        requires
            start <= end,
        ensures
            forall|new_len: int|
                #![trigger shift_index(idx as int, start as int, end as int, new_len)]
                new_len >= 0 && shortened == (new_len < end - start) && len_difference
                    == abs_diff(new_len, end - start) ==> r == shift_index(
                    idx as int,
                    start as int,
                    end as int,
                    new_len,
                ),
    {
        if idx >= end {
            if shortened {
                idx.saturating_sub(len_difference)
            } else {
                idx.saturating_add(len_difference)
            }
        } else if idx >= start {
            if shortened {
                let s = idx.saturating_sub(len_difference);
                if s < start {
                    start
                } else {
                    s
                }
            } else {
                let s = idx.saturating_add(len_difference);
                if s < end {
                    s
                } else {
                    end
                }
            }
        } else {
            idx
        }
    }

    /// The text cut into its parts, from the first byte to the last: see
    /// [`parts_from`]. Each part holds the characters of its byte range and
    /// the annotation type of the last annotation that covers its first byte.
    pub fn parts(&self) -> (r: Vec<AnnotatedStringPart>)
        ensures
            part_views(r@) == parts_from(self.bytes(), self.annotations(), 0),
    {
        proof {
            use_type_invariant(self);
        }
        let ghost bytes = self.bytes@;
        let ghost anns = self.annotations@;
        let len = self.bytes.len();
        let n = self.annotations.len();
        let mut result: Vec<AnnotatedStringPart> = Vec::new();
        let mut c: usize = 0;
        while c < len
            invariant
                bytes == self.bytes@,
                anns == self.annotations@,
                valid_utf8(bytes),
                len == bytes.len(),
                n == anns.len(),
                c <= len,
                is_char_boundary(bytes, c as int),
                part_views(result@) + parts_from(bytes, anns, c as int) == parts_from(
                    bytes,
                    anns,
                    0,
                ),
            decreases len - c,
        {
            let mut cover: Option<usize> = None;
            let mut next: usize = len;
            let mut j: usize = 0;
            while j < n
                invariant
                    anns == self.annotations@,
                    n == anns.len(),
                    j <= n,
                    c < len,
                    cover == (if last_covering(anns, c as int, j as int) >= 0 {
                        Some(last_covering(anns, c as int, j as int) as usize)
                    } else {
                        None::<usize>
                    }),
                    next as int == next_start(anns, c as int, j as int, len as int),
                decreases n - j,
            {
                let a = self.annotations[j];
                if a.start_byte_idx <= c && c < a.end_byte_idx {
                    cover = Some(j);
                }
                if a.start_byte_idx > c && a.start_byte_idx < next {
                    next = a.start_byte_idx;
                }
                j = j + 1;
            }
            proof {
                lemma_last_covering(anns, c as int, n as int);
                lemma_next_start(anns, c as int, n as int, len as int);
            }
            let (end0, annotation_type) = match cover {
                Some(k) => {
                    let a = self.annotations[k];
                    let e = if a.end_byte_idx < len {
                        a.end_byte_idx
                    } else {
                        len
                    };
                    (e, Some(a.annotation_type))
                },
                None => (next, None),
            };
            assert(end0 as int == part_end(anns, c as int, len as int));
            assert(annotation_type == part_type(anns, c as int));
            let mut e = end0;
            while e < len && (self.bytes[e] >= 0x80 && self.bytes[e] <= 0xbf)
                invariant
                    bytes == self.bytes@,
                    valid_utf8(bytes),
                    len == bytes.len(),
                    c < end0 <= e <= len,
                    next_boundary(bytes, e as int) == next_boundary(bytes, end0 as int),
                decreases len - e,
            {
                proof {
                    is_char_boundary_iff_not_is_continuation_byte(bytes, e as int);
                }
                e = e + 1;
            }
            proof {
                lemma_next_boundary(bytes, end0 as int);
                if e < len {
                    is_char_boundary_iff_not_is_continuation_byte(bytes, e as int);
                }
                assert(next_boundary(bytes, e as int) == e as int);
                valid_utf8_split(bytes, c as int);
                let tail = bytes.subrange(c as int, len as int);
                if e < len {
                    is_char_boundary_iff_not_is_continuation_byte(tail, e - c);
                    assert(tail[e - c] == bytes[e as int]);
                    is_char_boundary_iff_not_is_continuation_byte(bytes, e as int);
                } else {
                    is_char_boundary_start_end_of_seq(tail);
                }
                valid_utf8_split(tail, e - c);
                assert(bytes.subrange(c as int, len as int).subrange(0, e - c) =~= bytes.subrange(
                    c as int,
                    e as int,
                ));
            }
            let mut piece: Vec<u8> = Vec::new();
            extend_from_range(&mut piece, self.bytes.as_slice(), c, e);
            let string = string_from_utf8(piece);
            let ghost before = part_views(result@);
            result.push(AnnotatedStringPart { string, annotation_type });
            proof {
                assert(part_views(result@) =~= before.push(
                    (decode_utf8(bytes.subrange(c as int, e as int)), part_type(anns, c as int)),
                ));
                let rest = parts_from(bytes, anns, e as int);
                assert(parts_from(bytes, anns, c as int) =~= seq![
                    (decode_utf8(bytes.subrange(c as int, e as int)), part_type(anns, c as int)),
                ] + rest);
                assert(part_views(result@) + rest =~= before + parts_from(bytes, anns, c as int));
            }
            c = e;
        }
        result
    }

    /// The text as a `String`.
    pub fn to_string(&self) -> (s: String)
        ensures
            s@ == self.text(),
    {
        proof {
            use_type_invariant(self);
        }
        let mut copy: Vec<u8> = Vec::new();
        extend_from_range(&mut copy, self.bytes.as_slice(), 0, self.bytes.len());
        assert(copy@ =~= self.bytes@);
        string_from_utf8(copy)
    }
}

} // verus!
