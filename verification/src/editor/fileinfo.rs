use crate::editor::line::Line;
use vstd::prelude::*;

verus! {

/// The kind of document, decided by the file name's extension.
#[derive(Clone, Copy, Debug, PartialEq, Eq, Structural)]
pub enum FileType {
    Rust,
    Markdown,
    Text,
}

/// `std::path::Path::extension` of a path: what follows the last `.` of
/// its file name, none when the name has no `.` other than a leading one,
/// or when there is no file name.
pub uninterp spec fn extension_of(path: Seq<char>) -> Option<Seq<char>>;

/// `Path::extension`, as a string: depends on the path alone, so its result
/// is named by [`extension_of`]. An extension taken from a `&str` is valid
/// UTF-8, so the conversion back to a string loses nothing.
#[verifier::external_body]
fn path_extension(path: &str) -> (r: Option<String>)
    ensures
        match r {
            Some(e) => extension_of(path@) == Some(e@),
            None => extension_of(path@) is None,
        },
{
    std::path::Path::new(path).extension().map(|e| e.to_string_lossy().into_owned())
}

/// `c` in lower case, for ASCII letters.
pub open spec fn ascii_lower(c: char) -> char {
    if 'A' <= c <= 'Z' {
        (((c as u8) + 32) as u8) as char
    } else {
        c
    }
}

/// Whether `s` spells `lower` (which is in lower case) ignoring ASCII case.
pub open spec fn eq_ignore_ascii_case(s: Seq<char>, lower: Seq<char>) -> bool {
    s.len() == lower.len() && forall|i: int| 0 <= i < s.len() ==> ascii_lower(s[i]) == lower[i]
}

/// The file type of a path: Rust for the extension `rs`, Markdown for `md`
/// (in any case), Text otherwise.
pub open spec fn file_type_of(path: Seq<char>) -> FileType {
    match extension_of(path) {
        Some(e) => if eq_ignore_ascii_case(e, seq!['r', 's']) {
            FileType::Rust
        } else if eq_ignore_ascii_case(e, seq!['m', 'd']) {
            FileType::Markdown
        } else {
            FileType::Text
        },
        None => FileType::Text,
    }
}

/// Where a document is stored, if anywhere, and what type it is.
#[derive(Clone, Debug)]
pub struct FileInfo {
    path: Option<String>,
    file_type: FileType,
}

impl Default for FileInfo {
    fn default() -> (r: Self)
        ensures
            r.path() == None::<Seq<char>>,
            r.file_type() == FileType::Text,
    {
        FileInfo { path: None, file_type: FileType::Text }
    }
}

fn ascii_lower_exec(c: char) -> (r: char)
    ensures
        r == ascii_lower(c),
{
    if 'A' <= c && c <= 'Z' {
        let u: u8 = c as u8;
        (u + 32) as char
    } else {
        c
    }
}

/// Whether `chars[from..]` spells `a` then `b`, ignoring ASCII case.
fn two_letters(chars: &Vec<char>, from: usize, a: char, b: char) -> (r: bool)
    requires
        from <= chars@.len(),
    ensures
        r == eq_ignore_ascii_case(chars@.subrange(from as int, chars@.len() as int), seq![a, b]),
{
    if chars.len() - from != 2 {
        return false;
    }
    let r = ascii_lower_exec(chars[from]) == a && ascii_lower_exec(chars[from + 1]) == b;
    proof {
        let s = chars@.subrange(from as int, chars@.len() as int);
        if r {
            assert forall|i: int| 0 <= i < s.len() implies ascii_lower(s[i]) == seq![a, b][i] by {
                if i == 0 {
                } else {
                }
            }
        } else {
            if eq_ignore_ascii_case(s, seq![a, b]) {
                assert(ascii_lower(s[0]) == a);
                assert(ascii_lower(s[1]) == b);
            }
        }
    }
    r
}

/// The file type of `path`, decided as [`file_type_of`] says.
pub fn file_type_for(path: &str) -> (r: FileType)
    ensures
        r == file_type_of(path@),
{
    match path_extension(path) {
        Some(e) => {
            let line = Line::from(e.as_str());
            let chars = line.as_chars();
            if two_letters(chars, 0, 'r', 's') {
                FileType::Rust
            } else if two_letters(chars, 0, 'm', 'd') {
                FileType::Markdown
            } else {
                FileType::Text
            }
        },
        None => FileType::Text,
    }
}

/// `std::path::Path::file_name` of a path: its last component when that is
/// a name, none for the root, `.` or `..`.
pub uninterp spec fn file_name_of(path: Seq<char>) -> Option<Seq<char>>;

/// `Path::file_name`, as a string: depends on the path alone, so its result
/// is named by [`file_name_of`]. A name taken from a `&str` is valid UTF-8,
/// so the conversion back to a string loses nothing.
#[verifier::external_body]
pub(crate) fn path_file_name(path: &str) -> (r: Option<String>)
    ensures
        match r {
            Some(n) => file_name_of(path@) == Some(n@),
            None => file_name_of(path@) is None,
        },
{
    std::path::Path::new(path).file_name().map(|n| n.to_string_lossy().into_owned())
}

/// The name shown for a path: its file name, or `[No Name]` when it has
/// none.
pub open spec fn display_name_of(path: Option<Seq<char>>) -> Seq<char> {
    match path {
        Some(p) => match file_name_of(p) {
            Some(name) => name,
            None => "[No Name]"@,
        },
        None => "[No Name]"@,
    }
}

impl FileInfo {
    /// The name to show for the document (see [`display_name_of`]).
    pub fn display_name(&self) -> (s: String)
        ensures
            s@ == display_name_of(self.path()),
    {
        match &self.path {
            Some(p) => match path_file_name(p.as_str()) {
                Some(name) => name,
                None => String::from_str("[No Name]"),
            },
            None => String::from_str("[No Name]"),
        }
    }

    /// The path, as characters, if there is one.
    pub closed spec fn path(&self) -> Option<Seq<char>> {
        match self.path {
            Some(p) => Some(p@),
            None => None,
        }
    }

    pub closed spec fn file_type(&self) -> FileType {
        self.file_type
    }

    /// The file at `file_name`, typed by its extension.
    pub fn from(file_name: &str) -> (r: Self)
        ensures
            r.path() == Some(file_name@),
            r.file_type() == file_type_of(file_name@),
    {
        let file_type = file_type_for(file_name);
        FileInfo { path: Some(file_name.to_string()), file_type }
    }

    /// The path, if there is one.
    pub fn get_path(&self) -> (r: Option<&String>)
        ensures
            match r {
                Some(p) => self.path() == Some(p@),
                None => self.path() == None::<Seq<char>>,
            },
    {
        match &self.path {
            Some(p) => Some(p),
            None => None,
        }
    }

    /// Whether there is a path.
    pub fn has_path(&self) -> (b: bool)
        ensures
            b == (self.path() is Some),
    {
        self.path.is_some()
    }

    /// The file type.
    pub fn get_file_type(&self) -> (t: FileType)
        ensures
            t == self.file_type(),
    {
        self.file_type
    }
}

} // verus!
