use crate::prelude::ByteIdx;
use vstd::prelude::*;

verus! {

/// The kind of highlighting that an annotation asks for.
#[derive(Clone, Copy, Debug, PartialEq, Eq, Structural)]
pub enum AnnotationType {
    Match,
    SelectedMatch,
    Number,
    Keyword,
    Type,
    KnownValue,
    Char,
    LifetimeSpecifier,
    Comment,
    String,
}

/// A highlighted byte range `[start_byte_idx, end_byte_idx)` of a string.
#[derive(Clone, Copy, Debug, PartialEq, Eq, Structural)]
pub struct Annotation {
    pub annotation_type: AnnotationType,
    pub start_byte_idx: ByteIdx,
    pub end_byte_idx: ByteIdx,
}

} // verus!
