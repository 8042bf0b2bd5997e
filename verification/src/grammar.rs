//! The lexical grammar: which lexeme begins at a position of a text, and
//! the tokens and diagnostics that a whole text amounts to.

use crate::chars::{is_alpha, is_digit, is_whitespace, lemma_run_end, run_end, CharClass};
use crate::diagnostic::{DiagnosticKind, DiagnosticView};
use crate::token::{TokenType, TokenView};
use vstd::prelude::*;

verus! {

/// The one-based number of the line on which position `pos` of `text`
/// lies: one more than the number of newlines before `pos`.
pub open spec fn line_at(text: Seq<char>, pos: int) -> nat
    decreases pos,
{
    if pos <= 0 {
        1
    } else if pos <= text.len() && text[pos - 1] == '\n' {
        line_at(text, pos - 1) + 1
    } else {
        line_at(text, pos - 1)
    }
}

/// A position further on lies on the same line or on a later one.
pub proof fn lemma_line_at_monotonic(text: Seq<char>, from: int, to: int)
    requires
        from <= to,
    ensures
        line_at(text, from) <= line_at(text, to),
    decreases to - from,
{
    if from < to {
        lemma_line_at_monotonic(text, from, to - 1);
    }
}

/// What one lexeme amounts to: a token of some kind, an error, or nothing
/// (white space and comments).
#[derive(Debug, Clone, Copy, PartialEq, Eq, Structural)]
pub enum Outcome {
    Token(TokenType),
    Error(DiagnosticKind),
    Skip,
}

/// A classified stretch of text: what it amounts to and where it ends.
pub struct Lexeme {
    pub outcome: Outcome,
    pub end: int,
}

/// The kind of a token that is the single character `c`, whatever follows.
#[verifier::allow_in_spec]
pub fn punctuation(c: char) -> Option<TokenType>
    returns
        (if c == '(' {
            Some(TokenType::LEFTPAREN)
        } else if c == ')' {
            Some(TokenType::RIGHTPAREN)
        } else if c == '{' {
            Some(TokenType::LEFTBRACE)
        } else if c == '}' {
            Some(TokenType::RIGHTBRACE)
        } else if c == ',' {
            Some(TokenType::COMMA)
        } else if c == '.' {
            Some(TokenType::DOT)
        } else if c == '-' {
            Some(TokenType::MINUS)
        } else if c == '+' {
            Some(TokenType::PLUS)
        } else if c == ';' {
            Some(TokenType::SEMICOLON)
        } else if c == '*' {
            Some(TokenType::STAR)
        } else {
            None
        }),
{
    if c == '(' {
        Some(TokenType::LEFTPAREN)
    } else if c == ')' {
        Some(TokenType::RIGHTPAREN)
    } else if c == '{' {
        Some(TokenType::LEFTBRACE)
    } else if c == '}' {
        Some(TokenType::RIGHTBRACE)
    } else if c == ',' {
        Some(TokenType::COMMA)
    } else if c == '.' {
        Some(TokenType::DOT)
    } else if c == '-' {
        Some(TokenType::MINUS)
    } else if c == '+' {
        Some(TokenType::PLUS)
    } else if c == ';' {
        Some(TokenType::SEMICOLON)
    } else if c == '*' {
        Some(TokenType::STAR)
    } else {
        None
    }
}

/// For a character that is an operator alone and another one with `=`
/// behind it: the kind of the first, then the kind of the second.
#[verifier::allow_in_spec]
pub fn operator(c: char) -> Option<(TokenType, TokenType)>
    returns
        (if c == '!' {
            Some((TokenType::BANG, TokenType::BANGEQUAL))
        } else if c == '=' {
            Some((TokenType::EQUAL, TokenType::EQUALEQUAL))
        } else if c == '<' {
            Some((TokenType::LESS, TokenType::LESSEQUAL))
        } else if c == '>' {
            Some((TokenType::GREATER, TokenType::GREATEREQUAL))
        } else {
            None
        }),
{
    if c == '!' {
        Some((TokenType::BANG, TokenType::BANGEQUAL))
    } else if c == '=' {
        Some((TokenType::EQUAL, TokenType::EQUALEQUAL))
    } else if c == '<' {
        Some((TokenType::LESS, TokenType::LESSEQUAL))
    } else if c == '>' {
        Some((TokenType::GREATER, TokenType::GREATEREQUAL))
    } else {
        None
    }
}

/// The reserved words and their kinds.
pub open spec fn keyword(word: Seq<char>) -> Option<TokenType> {
    if word == "and"@ {
        Some(TokenType::AND)
    } else if word == "class"@ {
        Some(TokenType::CLASS)
    } else if word == "else"@ {
        Some(TokenType::ELSE)
    } else if word == "false"@ {
        Some(TokenType::FALSE)
    } else if word == "fun"@ {
        Some(TokenType::FUN)
    } else if word == "for"@ {
        Some(TokenType::FOR)
    } else if word == "if"@ {
        Some(TokenType::IF)
    } else if word == "nil"@ {
        Some(TokenType::NIL)
    } else if word == "or"@ {
        Some(TokenType::OR)
    } else if word == "print"@ {
        Some(TokenType::PRINT)
    } else if word == "return"@ {
        Some(TokenType::RETURN)
    } else if word == "super"@ {
        Some(TokenType::SUPER)
    } else if word == "this"@ {
        Some(TokenType::THIS)
    } else if word == "true"@ {
        Some(TokenType::TRUE)
    } else if word == "var"@ {
        Some(TokenType::VAR)
    } else if word == "while"@ {
        Some(TokenType::WHILE)
    } else {
        None
    }
}

/// The kind of a word: its keyword, or an identifier where it is not
/// reserved.
pub open spec fn word_kind(word: Seq<char>) -> TokenType {
    match keyword(word) {
        Some(token_type) => token_type,
        None => TokenType::IDENTIFIER,
    }
}

/// Whether `c` stands at position `pos` of `text`.
pub open spec fn has_at(text: Seq<char>, pos: int, c: char) -> bool {
    0 <= pos < text.len() && text[pos] == c
}

/// Where the number that begins at `pos` ends: after the longest run of
/// digits and, where a point and at least one more digit follow it, after
/// the longest run of digits behind that point.
pub open spec fn number_end(text: Seq<char>, pos: int) -> int {
    let whole = run_end(text, pos, CharClass::Digit);
    if has_at(text, whole, '.') && whole + 1 < text.len() && is_digit(text[whole + 1]) {
        run_end(text, whole + 1, CharClass::Digit)
    } else {
        whole
    }
}

/// The lexeme that begins at position `pos` of `text`, by its first
/// character:
///
/// - a punctuation character is a token by itself;
/// - `!`, `=`, `<` and `>` take the `=` behind them, where there is one, and
///   are then the longer operator;
/// - `//` begins a comment, which runs up to the next newline or to the end
///   of the text and yields nothing; any other `/` is a token;
/// - white space yields nothing;
/// - `"` begins a string literal, which runs to the next `"`, over any
///   newlines; where there is none, the rest of the text is an unterminated
///   string, an error;
/// - a digit begins a number;
/// - a letter or an underscore begins a word, which runs as far as
///   letters, digits and underscores go, and is a reserved word or an
///   identifier;
/// - any other character is an error by itself.
pub open spec fn lexeme_at(text: Seq<char>, pos: int) -> Lexeme
    recommends
        0 <= pos < text.len(),
{
    let c = text[pos];
    if let Some(token_type) = punctuation(c) {
        Lexeme { outcome: Outcome::Token(token_type), end: pos + 1 }
    } else if let Some((alone, with_equal)) = operator(c) {
        if has_at(text, pos + 1, '=') {
            Lexeme { outcome: Outcome::Token(with_equal), end: pos + 2 }
        } else {
            Lexeme { outcome: Outcome::Token(alone), end: pos + 1 }
        }
    } else if c == '/' {
        if has_at(text, pos + 1, '/') {
            Lexeme { outcome: Outcome::Skip, end: run_end(text, pos + 2, CharClass::LineRest) }
        } else {
            Lexeme { outcome: Outcome::Token(TokenType::SLASH), end: pos + 1 }
        }
    } else if is_whitespace(c) {
        Lexeme { outcome: Outcome::Skip, end: pos + 1 }
    } else if c == '"' {
        let close = run_end(text, pos + 1, CharClass::StringBody);
        if close < text.len() {
            Lexeme { outcome: Outcome::Token(TokenType::STRING), end: close + 1 }
        } else {
            Lexeme { outcome: Outcome::Error(DiagnosticKind::UnterminatedString), end: close }
        }
    } else if is_digit(c) {
        Lexeme { outcome: Outcome::Token(TokenType::NUMBER), end: number_end(text, pos) }
    } else if is_alpha(c) {
        let end = run_end(text, pos, CharClass::Word);
        Lexeme { outcome: Outcome::Token(word_kind(text.subrange(pos, end))), end }
    } else {
        Lexeme { outcome: Outcome::Error(DiagnosticKind::UnexpectedCharacter(c)), end: pos + 1 }
    }
}

/// Every lexeme holds at least one character and ends within the text.
pub proof fn lemma_lexeme_advances(text: Seq<char>, pos: int)
    requires
        0 <= pos < text.len(),
    ensures
        pos < lexeme_at(text, pos).end <= text.len(),
{
    let c = text[pos];
    if c == '/' && has_at(text, pos + 1, '/') {
        lemma_run_end(text, pos + 2, CharClass::LineRest);
    } else if c == '"' {
        lemma_run_end(text, pos + 1, CharClass::StringBody);
    } else if is_digit(c) {
        lemma_run_end(text, pos, CharClass::Digit);
        let whole = run_end(text, pos, CharClass::Digit);
        if whole + 1 < text.len() {
            lemma_run_end(text, whole + 1, CharClass::Digit);
        }
    } else if is_alpha(c) {
        lemma_run_end(text, pos, CharClass::Word);
    }
}

/// The token that the lexeme at `pos` yields, if it yields one: its text
/// is the lexeme, its line the one on which the lexeme begins.
pub open spec fn token_at(text: Seq<char>, pos: int) -> Option<TokenView> {
    let lexeme = lexeme_at(text, pos);
    match lexeme.outcome {
        Outcome::Token(token_type) => Some(
            TokenView::of(token_type, text.subrange(pos, lexeme.end), line_at(text, pos)),
        ),
        _ => None,
    }
}

/// The diagnostic that the lexeme at `pos` yields, if it yields one, on
/// the line on which the lexeme begins.
pub open spec fn diagnostic_at(text: Seq<char>, pos: int) -> Option<DiagnosticView> {
    match lexeme_at(text, pos).outcome {
        Outcome::Error(kind) => Some(DiagnosticView { line: line_at(text, pos), kind }),
        _ => None,
    }
}

/// The token that ends every scan of `text`: of kind `EOF`, without text,
/// on the line on which the text ends.
pub open spec fn end_token(text: Seq<char>) -> TokenView {
    TokenView::of(TokenType::EOF, Seq::empty(), line_at(text, text.len() as int))
}

/// The tokens of `text` from position `pos` on, the closing `EOF` token
/// included.
pub open spec fn tokens_from(text: Seq<char>, pos: int) -> Seq<TokenView>
    decreases text.len() - pos,
    via tokens_from_decreases
{
    if 0 <= pos < text.len() {
        match token_at(text, pos) {
            Some(token) => seq![token] + tokens_from(text, lexeme_at(text, pos).end),
            None => tokens_from(text, lexeme_at(text, pos).end),
        }
    } else {
        seq![end_token(text)]
    }
}

#[via_fn]
proof fn tokens_from_decreases(text: Seq<char>, pos: int) {
    if 0 <= pos < text.len() {
        lemma_lexeme_advances(text, pos);
    }
}

/// The diagnostics of `text` from position `pos` on.
pub open spec fn diagnostics_from(text: Seq<char>, pos: int) -> Seq<DiagnosticView>
    decreases text.len() - pos,
    via diagnostics_from_decreases
{
    if 0 <= pos < text.len() {
        match diagnostic_at(text, pos) {
            Some(diagnostic) => seq![diagnostic] + diagnostics_from(
                text,
                lexeme_at(text, pos).end,
            ),
            None => diagnostics_from(text, lexeme_at(text, pos).end),
        }
    } else {
        Seq::empty()
    }
}

#[via_fn]
proof fn diagnostics_from_decreases(text: Seq<char>, pos: int) {
    if 0 <= pos < text.len() {
        lemma_lexeme_advances(text, pos);
    }
}

/// The tokens that `text` amounts to.
pub open spec fn tokens_of(text: Seq<char>) -> Seq<TokenView> {
    tokens_from(text, 0)
}

/// The diagnostics that `text` gives rise to.
pub open spec fn diagnostics_of(text: Seq<char>) -> Seq<DiagnosticView> {
    diagnostics_from(text, 0)
}

} // verus!
