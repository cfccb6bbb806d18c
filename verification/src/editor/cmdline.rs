//! Reading what is typed at the pane prompt: words separated by white
//! space, and decimal numbers.
use crate::editor::line::Line;
use vstd::prelude::*;
use vstd::string::StrSliceExecFns;

verus! {

/// Whether `c` is white space as `char::is_whitespace` counts it (Unicode's
/// `White_Space` property).
pub open spec fn is_space(c: char) -> bool {
    ||| c == '\t'
    ||| c == '\n'
    ||| c == '\u{0B}'
    ||| c == '\u{0C}'
    ||| c == '\r'
    ||| c == ' '
    ||| c == '\u{85}'
    ||| c == '\u{A0}'
    ||| c == '\u{1680}'
    ||| ('\u{2000}' as u32 <= c as u32 && c as u32 <= '\u{200A}' as u32)
    ||| c == '\u{2028}'
    ||| c == '\u{2029}'
    ||| c == '\u{202F}'
    ||| c == '\u{205F}'
    ||| c == '\u{3000}'
}

fn is_space_exec(c: char) -> (b: bool)
    ensures
        b == is_space(c),
{
    let n = c as u32;
    c == '\t' || c == '\n' || c == '\u{0B}' || c == '\u{0C}' || c == '\r' || c == ' ' || c
        == '\u{85}' || c == '\u{A0}' || c == '\u{1680}' || (0x2000 <= n && n <= 0x200A) || c
        == '\u{2028}' || c == '\u{2029}' || c == '\u{202F}' || c == '\u{205F}' || c == '\u{3000}'
}

/// The index of the first character at or after `i` that is (when `space`)
/// or is not white space, or the length.
pub open spec fn skip_to(s: Seq<char>, i: int, space: bool) -> int
    decreases s.len() - i,
{
    if i < 0 || i >= s.len() {
        s.len() as int
    } else if is_space(s[i]) == space {
        i
    } else {
        skip_to(s, i + 1, space)
    }
}

/// The words of `s` from index `i` on, as `str::split_whitespace` cuts them.
pub open spec fn words_from(s: Seq<char>, i: int) -> Seq<Seq<char>>
    decreases s.len() - i,
{
    if i < 0 || i >= s.len() {
        Seq::empty()
    } else {
        let start = skip_to(s, i, false);
        if start >= s.len() {
            Seq::empty()
        } else {
            let end = skip_to(s, start, true);
            if end <= i || end > s.len() {
                Seq::empty()
            } else {
                seq![s.subrange(start, end)] + words_from(s, end)
            }
        }
    }
}

proof fn lemma_skip_to(s: Seq<char>, i: int, space: bool)
    requires
        0 <= i <= s.len(),
    ensures
        i <= skip_to(s, i, space) <= s.len(),
        forall|k: int| i <= k < skip_to(s, i, space) ==> is_space(s[k]) != space,
        skip_to(s, i, space) < s.len() ==> is_space(s[skip_to(s, i, space)]) == space,
    decreases s.len() - i,
{
    if i < s.len() && is_space(s[i]) != space {
        lemma_skip_to(s, i + 1, space);
    }
}

fn skip_exec(s: &Vec<char>, i: usize, space: bool) -> (r: usize)
    requires
        i <= s@.len(),
    ensures
        r == skip_to(s@, i as int, space),
{
    let mut k = i;
    while k < s.len() && is_space_exec(s[k]) != space
        invariant
            i <= k <= s@.len(),
            skip_to(s@, i as int, space) == skip_to(s@, k as int, space),
        decreases s@.len() - k,
    {
        k = k + 1;
    }
    k
}

/// The words of `text` (see [`words_from`]), each as its characters.
pub fn split_words(text: &str) -> (r: Vec<Vec<char>>)
    ensures
        r@.map_values(|w: Vec<char>| w@) == words_from(text@, 0),
{
    let line = Line::from(text);
    let s = line.as_chars();
    let mut r: Vec<Vec<char>> = Vec::new();
    let mut i: usize = 0;
    while i < s.len()
        invariant
            s@ == text@,
            i <= s@.len(),
            r@.map_values(|w: Vec<char>| w@) + words_from(s@, i as int) == words_from(s@, 0),
        decreases s@.len() - i,
    {
        let start = skip_exec(s, i, false);
        proof {
            lemma_skip_to(s@, i as int, false);
        }
        if start >= s.len() {
            assert(words_from(s@, i as int) =~= Seq::<Seq<char>>::empty());
            assert(r@.map_values(|w: Vec<char>| w@) =~= words_from(s@, 0));
            return r;
        }
        let end = skip_exec(s, start, true);
        proof {
            lemma_skip_to(s@, start as int, true);
        }
        let mut word: Vec<char> = Vec::new();
        let mut k = start;
        while k < end
            invariant
                start <= k <= end <= s@.len(),
                word@ == s@.subrange(start as int, k as int),
            decreases end - k,
        {
            word.push(s[k]);
            assert(s@.subrange(start as int, k + 1) =~= s@.subrange(start as int, k as int).push(
                s@[k as int],
            ));
            k = k + 1;
        }
        let ghost before = r@.map_values(|w: Vec<char>| w@);
        r.push(word);
        proof {
            assert(r@.map_values(|w: Vec<char>| w@) =~= before.push(s@.subrange(start as int, end as int)));
            assert(words_from(s@, i as int) == seq![s@.subrange(start as int, end as int)] + words_from(s@, end as int));
            assert(before.push(s@.subrange(start as int, end as int)) + words_from(s@, end as int) =~= before
                + words_from(s@, i as int));
        }
        i = end;
    }
    assert(words_from(s@, i as int) =~= Seq::<Seq<char>>::empty());
    assert(r@.map_values(|w: Vec<char>| w@) =~= words_from(s@, 0));
    r
}

/// Whether `c` is an ASCII decimal digit.
pub open spec fn is_digit(c: char) -> bool {
    0x30 <= c as u32 && c as u32 <= 0x39
}

/// The value of the decimal digits `s`.
pub open spec fn digits_value(s: Seq<char>) -> nat
    decreases s.len(),
{
    if s.len() == 0 {
        0
    } else {
        digits_value(s.drop_last()) * 10 + ((s.last() as u32) - 0x30) as nat
    }
}

/// What `str::parse::<usize>` makes of `s`: an optional `+`, then at least
/// one decimal digit, of a value that fits in a `usize`.
pub open spec fn parsed_usize(s: Seq<char>) -> Option<usize> {
    let digits = unsigned_part(s);
    if digits.len() == 0 || exists|i: int| 0 <= i < digits.len() && !is_digit(digits[i]) {
        None
    } else if digits_value(digits) > usize::MAX {
        None
    } else {
        Some(digits_value(digits) as usize)
    }
}

proof fn lemma_digits_value_grows(s: Seq<char>, t: Seq<char>)
    requires
        s.is_prefix_of(t),
        forall|i: int| 0 <= i < t.len() ==> is_digit(t[i]),
    ensures
        digits_value(s) <= digits_value(t),
    decreases t.len(),
{
    if t.len() > s.len() {
        assert(s.is_prefix_of(t.drop_last()));
        lemma_digits_value_grows(s, t.drop_last());
        assert(t.drop_last() =~= t.subrange(0, t.len() - 1));
    } else {
        assert(s =~= t);
    }
}

/// The digits of `s`: `s` without a leading `+`.
pub open spec fn unsigned_part(s: Seq<char>) -> Seq<char> {
    if s.len() > 0 && s[0] == '+' {
        s.drop_first()
    } else {
        s
    }
}

proof fn lemma_not_number(s: Seq<char>, j: int)
    requires
        0 <= j < unsigned_part(s).len(),
        !is_digit(unsigned_part(s)[j]),
    ensures
        parsed_usize(s) is None,
{
    let digits = unsigned_part(s);
    assert(exists|i: int| 0 <= i < digits.len() && !is_digit(digits[i]));
}

proof fn lemma_too_large(s: Seq<char>, p: Seq<char>)
    requires
        p.is_prefix_of(unsigned_part(s)),
        digits_value(p) > usize::MAX,
    ensures
        parsed_usize(s) is None,
{
    let digits = unsigned_part(s);
    if forall|i: int| 0 <= i < digits.len() ==> is_digit(#[trigger] digits[i]) {
        lemma_digits_value_grows(p, digits);
    }
}

/// The number `word` spells (see [`parsed_usize`]).
pub fn parse_usize(word: &Vec<char>) -> (r: Option<usize>)
    ensures
        r == parsed_usize(word@),
{
    let ghost s = word@;
    let start: usize = if word.len() > 0 && word[0] == '+' {
        1
    } else {
        0
    };
    let ghost digits = unsigned_part(s);
    assert(digits =~= s.subrange(start as int, s.len() as int));
    if start >= word.len() {
        return None;
    }
    let mut value: usize = 0;
    let mut k = start;
    while k < word.len()
        invariant
            start <= k <= s.len(),
            s == word@,
            digits == s.subrange(start as int, s.len() as int),
            digits == unsigned_part(s),
            forall|i: int| start <= i < k ==> is_digit(s[i]),
            value == digits_value(s.subrange(start as int, k as int)),
        decreases s.len() - k,
    {
        let c = word[k];
        let code = c as u32;
        if code < 0x30 || code > 0x39 {
            proof {
                assert(digits[k - start] == c);
                lemma_not_number(s, k - start);
            }
            return None;
        }
        let d = (code - 0x30) as usize;
        let ghost p = s.subrange(start as int, k + 1);
        proof {
            assert(p.drop_last() =~= s.subrange(start as int, k as int));
            assert(p.last() == c);
            assert(digits_value(p) == value * 10 + d);
        }
        if value > (usize::MAX - d) / 10 {
            proof {
                assert(value * 10 + d > usize::MAX) by (nonlinear_arith)
                    requires
                        value > (usize::MAX - d) / 10,
                        d <= 9,
                ;
                assert(digits.subrange(0, p.len() as int) =~= p);
                lemma_too_large(s, p);
            }
            return None;
        }
        proof {
            assert(value * 10 + d <= usize::MAX) by (nonlinear_arith)
                requires
                    value <= (usize::MAX - d) / 10,
                    d <= 9,
            ;
        }
        value = value * 10 + d;
        k = k + 1;
    }
    assert(s.subrange(start as int, k as int) =~= digits);
    Some(value)
}

/// Whether `w` spells `lit`.
pub fn word_is(w: &Vec<char>, lit: &str) -> (b: bool)
    ensures
        b == (w@ == lit@),
{
    let n = lit.unicode_len();
    if w.len() != n {
        return false;
    }
    let mut i: usize = 0;
    while i < n
        invariant
            n == lit@.len(),
            w@.len() == n,
            i <= n,
            forall|k: int| 0 <= k < i ==> w@[k] == lit@[k],
        decreases n - i,
    {
        if w[i] != lit.get_char(i) {
            return false;
        }
        i = i + 1;
    }
    assert(w@ =~= lit@);
    true
}

/// What a line typed at the pane prompt asks for.
#[derive(Clone, Copy, Debug, PartialEq, Eq, Structural)]
pub enum PaneCommand {
    /// `focus <id>`, or just `<id>`: give pane `id` the focus.
    Focus(usize),
    /// `close <id>`: close pane `id`.
    Close(usize),
    /// `close`: close the active pane.
    CloseActive,
    /// `float`: make the active pane float.
    Float,
    /// `unfloat`: tile the active pane again.
    Unfloat,
    /// `explore`: open a file explorer beside the active pane.
    Explore,
    /// `focus` or `close` with something other than an id: nothing happens.
    Ignored,
    /// Anything else: the commands are listed.
    Help,
}

/// The command that the words `w` typed at the pane prompt ask for.
pub open spec fn pane_command_of_words(w: Seq<Seq<char>>) -> PaneCommand {
    if w.len() == 2 && w[0] == "focus"@ {
        match parsed_usize(w[1]) {
            Some(n) => PaneCommand::Focus(n),
            None => PaneCommand::Ignored,
        }
    } else if w.len() == 1 && parsed_usize(w[0]) is Some {
        PaneCommand::Focus(parsed_usize(w[0])->0)
    } else if w.len() == 2 && w[0] == "close"@ {
        match parsed_usize(w[1]) {
            Some(n) => PaneCommand::Close(n),
            None => PaneCommand::Ignored,
        }
    } else if w.len() == 1 && w[0] == "close"@ {
        PaneCommand::CloseActive
    } else if w.len() == 1 && w[0] == "float"@ {
        PaneCommand::Float
    } else if w.len() == 1 && w[0] == "unfloat"@ {
        PaneCommand::Unfloat
    } else if w.len() == 1 && w[0] == "explore"@ {
        PaneCommand::Explore
    } else {
        PaneCommand::Help
    }
}

/// The command that `input`, typed at the pane prompt, asks for.
pub open spec fn pane_command_of(input: Seq<char>) -> PaneCommand {
    pane_command_of_words(words_from(input, 0))
}

/// Reads a line typed at the pane prompt (see [`pane_command_of`]).
pub fn parse_pane_command(input: &str) -> (r: PaneCommand)
    ensures
        r == pane_command_of(input@),
{
    let words = split_words(input);
    let ghost w = words_from(input@, 0);
    assert(words@.len() == w.len());
    proof {
        if words@.len() >= 1 {
            assert(words@[0]@ == w[0]);
        }
        if words@.len() >= 2 {
            assert(words@[1]@ == w[1]);
        }
    }
    if words.len() == 2 && word_is(&words[0], "focus") {
        return match parse_usize(&words[1]) {
            Some(n) => PaneCommand::Focus(n),
            None => PaneCommand::Ignored,
        };
    }
    if words.len() == 1 {
        match parse_usize(&words[0]) {
            Some(n) => {
                return PaneCommand::Focus(n);
            },
            None => {},
        }
    }
    if words.len() == 2 && word_is(&words[0], "close") {
        return match parse_usize(&words[1]) {
            Some(n) => PaneCommand::Close(n),
            None => PaneCommand::Ignored,
        };
    }
    if words.len() == 1 && word_is(&words[0], "close") {
        return PaneCommand::CloseActive;
    }
    if words.len() == 1 && word_is(&words[0], "float") {
        return PaneCommand::Float;
    }
    if words.len() == 1 && word_is(&words[0], "unfloat") {
        return PaneCommand::Unfloat;
    }
    if words.len() == 1 && word_is(&words[0], "explore") {
        return PaneCommand::Explore;
    }
    PaneCommand::Help
}

} // verus!
