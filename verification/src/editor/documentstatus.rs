use crate::editor::fileinfo::FileType;
use crate::editor::textfmt::{decimal, decimal_string};
use crate::prelude::LineIdx;
use vstd::prelude::*;
use vstd::string::StringExecFns;

verus! {

/// What the status bar shows about the document in the active view.
#[derive(Clone, Debug)]
pub struct DocumentStatus {
    pub total_lines: usize,
    pub current_line_idx: LineIdx,
    pub is_modified: bool,
    pub file_name: String,
    pub file_type: FileType,
}

impl Default for DocumentStatus {
    fn default() -> (r: Self)
        ensures
            r.total_lines == 0 && r.current_line_idx == 0 && !r.is_modified && r.file_name@
                == Seq::<char>::empty() && r.file_type == FileType::Text,
    {
        DocumentStatus {
            total_lines: 0,
            current_line_idx: 0,
            is_modified: false,
            file_name: String::new(),
            file_type: FileType::Text,
        }
    }
}

/// The name shown for a file type.
pub open spec fn file_type_name(t: FileType) -> Seq<char> {
    match t {
        FileType::Rust => "Rust"@,
        FileType::Markdown => "Markdown"@,
        FileType::Text => "Text"@,
    }
}

impl DocumentStatus {
    /// The number of lines, as in `12 lines`.
    pub open spec fn line_count_text(&self) -> Seq<char> {
        decimal(self.total_lines as nat) + " lines"@
    }

    /// `(modified)` when the document has changes that are not saved, else
    /// nothing.
    pub open spec fn modified_text(&self) -> Seq<char> {
        if self.is_modified {
            "(modified)"@
        } else {
            Seq::empty()
        }
    }

    /// The line of the caret counted from one, stopping at the largest
    /// index.
    pub open spec fn shown_line(&self) -> nat {
        if self.current_line_idx < usize::MAX {
            (self.current_line_idx + 1) as nat
        } else {
            usize::MAX as nat
        }
    }

    /// The caret's line out of all lines, as in `3/12`.
    pub open spec fn position_text(&self) -> Seq<char> {
        decimal(self.shown_line()) + "/"@ + decimal(self.total_lines as nat)
    }

    /// The number of lines, as in `12 lines`.
    pub fn line_count_to_string(&self) -> (s: String)
        ensures
            s@ == self.line_count_text(),
    {
        let mut s = decimal_string(self.total_lines);
        s.append(" lines");
        s
    }

    /// `(modified)` when the document has changes that are not saved, else
    /// the empty string.
    pub fn modified_indicator_to_string(&self) -> (s: String)
        ensures
            s@ == self.modified_text(),
    {
        if self.is_modified {
            String::from_str("(modified)")
        } else {
            String::new()
        }
    }

    /// The caret's line out of all lines, as in `3/12`.
    pub fn position_indicator_to_string(&self) -> (s: String)
        ensures
            s@ == self.position_text(),
    {
        let line = if self.current_line_idx < usize::MAX {
            self.current_line_idx + 1
        } else {
            self.current_line_idx
        };
        let mut s = decimal_string(line);
        s.append("/");
        let total = decimal_string(self.total_lines);
        s.append(total.as_str());
        s
    }

    /// The name of the file type.
    pub fn file_type_to_string(&self) -> (s: String)
        ensures
            s@ == file_type_name(self.file_type),
    {
        match self.file_type {
            FileType::Rust => String::from_str("Rust"),
            FileType::Markdown => String::from_str("Markdown"),
            FileType::Text => String::from_str("Text"),
        }
    }

    /// Whether the two statuses show the same.
    pub open spec fn same_as(&self, other: &DocumentStatus) -> bool {
        &&& self.total_lines == other.total_lines
        &&& self.current_line_idx == other.current_line_idx
        &&& self.is_modified == other.is_modified
        &&& self.file_name@ == other.file_name@
        &&& self.file_type == other.file_type
    }

    /// Whether the two statuses show the same.
    pub fn equals(&self, other: &DocumentStatus) -> (b: bool)
        ensures
            b == self.same_as(other),
    {
        self.total_lines == other.total_lines && self.current_line_idx == other.current_line_idx
            && self.is_modified == other.is_modified && self.file_name == other.file_name
            && self.file_type == other.file_type
    }
}

} // verus!
