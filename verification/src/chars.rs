//! Character classes, and the longest run of one class in a text.

use vstd::prelude::*;

verus! {

/// An ASCII decimal digit.
#[verifier::allow_in_spec]
pub fn is_digit(c: char) -> bool
    returns
        '0' <= c <= '9',
{
    '0' <= c && c <= '9'
}

/// An ASCII letter or the underscore: what an identifier may begin with.
#[verifier::allow_in_spec]
pub fn is_alpha(c: char) -> bool
    returns
        'a' <= c <= 'z' || 'A' <= c <= 'Z' || c == '_',
{
    ('a' <= c && c <= 'z') || ('A' <= c && c <= 'Z') || c == '_'
}

/// What an identifier may continue with.
#[verifier::allow_in_spec]
pub fn is_alphanumeric(c: char) -> bool
    returns
        is_alpha(c) || is_digit(c),
{
    is_alpha(c) || is_digit(c)
}

/// A character that separates tokens and is otherwise ignored: space, tab,
/// carriage return or newline.
#[verifier::allow_in_spec]
pub fn is_whitespace(c: char) -> bool
    returns
        c == ' ' || c == '\t' || c == '\r' || c == '\n',
{
    c == ' ' || c == '\t' || c == '\r' || c == '\n'
}

/// The value of a decimal digit; `None` for any other character.
#[verifier::allow_in_spec]
pub fn digit_value(c: char) -> Option<u8>
    returns
        (if is_digit(c) {
            Some((c as int - '0' as int) as u8)
        } else {
            None
        }),
{
    if is_digit(c) {
        Some(c as u8 - 48)
    } else {
        None
    }
}

/// The sets of characters of which the scanner consumes whole runs.
#[derive(Debug, Clone, Copy, PartialEq, Eq, Structural)]
pub enum CharClass {
    /// Decimal digits: the parts of a number.
    Digit,
    /// Letters, digits and the underscore: the body of an identifier.
    Word,
    /// Everything but the newline: the rest of a line comment.
    LineRest,
    /// Everything but the double quote: the inside of a string literal.
    /// There are no escape sequences, so a backslash is a character like
    /// any other.
    StringBody,
}

impl CharClass {
    /// Whether `c` belongs to the class.
    #[verifier::allow_in_spec]
    pub fn contains(self, c: char) -> bool
        returns
            (match self {
                CharClass::Digit => is_digit(c),
                CharClass::Word => is_alphanumeric(c),
                CharClass::LineRest => c != '\n',
                CharClass::StringBody => c != '"',
            }),
    {
        match self {
            CharClass::Digit => is_digit(c),
            CharClass::Word => is_alphanumeric(c),
            CharClass::LineRest => c != '\n',
            CharClass::StringBody => c != '"',
        }
    }
}

/// Where the longest run of `class` characters that starts at `pos` ends:
/// the first position from `pos` on that holds no character of the class,
/// or the end of the text.
pub open spec fn run_end(text: Seq<char>, pos: int, class: CharClass) -> int
    decreases text.len() - pos,
{
    if 0 <= pos < text.len() && class.contains(text[pos]) {
        run_end(text, pos + 1, class)
    } else {
        pos
    }
}

/// A run is made of characters of its class only, and it is maximal: it
/// stops at the end of the text or before a character outside the class.
pub proof fn lemma_run_end(text: Seq<char>, pos: int, class: CharClass)
    requires
        0 <= pos <= text.len(),
    ensures
        pos <= run_end(text, pos, class) <= text.len(),
        forall|i: int| pos <= i < run_end(text, pos, class) ==> class.contains(#[trigger] text[i]),
        run_end(text, pos, class) < text.len() ==> !class.contains(
            text[run_end(text, pos, class)],
        ),
    decreases text.len() - pos,
{
    if pos < text.len() && class.contains(text[pos]) {
        lemma_run_end(text, pos + 1, class);
    }
}

/// A run reaches as far as the characters of its class do.
pub proof fn lemma_run_reaches(text: Seq<char>, pos: int, class: CharClass, to: int)
    requires
        0 <= pos <= to <= text.len(),
        forall|i: int| pos <= i < to ==> class.contains(#[trigger] text[i]),
    ensures
        to <= run_end(text, pos, class),
    decreases to - pos,
{
    if pos < to {
        lemma_run_reaches(text, pos + 1, class, to);
    } else {
        lemma_run_end(text, pos, class);
    }
}

/// Nothing else ends a run: a stretch of `class` characters from `pos` that
/// stops at the end of the text, or before a character outside the class,
/// stops where the run ends.
pub proof fn lemma_run_end_unique(text: Seq<char>, pos: int, class: CharClass, end: int)
    requires
        0 <= pos <= end <= text.len(),
        forall|i: int| pos <= i < end ==> class.contains(#[trigger] text[i]),
        end < text.len() ==> !class.contains(text[end]),
    ensures
        run_end(text, pos, class) == end,
    decreases end - pos,
{
    if pos < end {
        lemma_run_end_unique(text, pos + 1, class, end);
    }
}

/// Consumes the longest run of `class` characters that starts at `pos`.
pub fn skip_run(text: &[char], pos: usize, class: CharClass) -> (end: usize)
    requires
        pos <= text@.len(),
    ensures
        end == run_end(text@, pos as int, class),
        pos <= end <= text@.len(),
{
    let mut end: usize = pos;
    while end < text.len() && class.contains(text[end])
        invariant
            pos <= end <= text@.len(),
            run_end(text@, end as int, class) == run_end(text@, pos as int, class),
        decreases text@.len() - end,
    {
        end += 1;
    }
    end
}

} // verus!
