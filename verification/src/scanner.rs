//! The scanner: from source text to tokens and diagnostics.

use crate::chars::{is_alpha, is_digit, is_whitespace, skip_run, CharClass};
use crate::diagnostic::{diagnostic_views, Diagnostic, DiagnosticKind, DiagnosticView};
use crate::grammar::{
    diagnostic_at, diagnostics_from, diagnostics_of, has_at, keyword, lemma_lexeme_advances,
    lemma_line_at_monotonic, lexeme_at, line_at, number_end, operator, punctuation, token_at,
    tokens_from, tokens_of, Outcome,
};
use crate::laws::lemma_tokens_end_with_eof;
use crate::text::{collect_text, to_chars};
use crate::token::{token_views, Token, TokenType, TokenView};
use vstd::prelude::*;
use vstd::slice::slice_subrange;

verus! {

/// Whether `word` is spelled exactly like `spelling`.
pub fn spells(word: &[char], spelling: &str) -> (same: bool)
    ensures
        same == (word@ == spelling@),
{
    let mut i: usize = 0;
    for c in it: spelling.chars()
        invariant
            it.seq() == spelling@,
            i == it.index(),
            i <= word@.len(),
            forall|j: int| 0 <= j < i ==> word@[j] == spelling@[j],
    {
        if i >= word.len() || word[i] != c {
            return false;
        }
        i += 1;
    }
    proof {
        if i == word@.len() {
            assert(word@ =~= spelling@);
        }
    }
    i == word.len()
}

/// Looks `word` up among the reserved words.
pub fn lookup_keyword(word: &[char]) -> (found: Option<TokenType>)
    ensures
        found == keyword(word@),
{
    if spells(word, "and") {
        Some(TokenType::AND)
    } else if spells(word, "class") {
        Some(TokenType::CLASS)
    } else if spells(word, "else") {
        Some(TokenType::ELSE)
    } else if spells(word, "false") {
        Some(TokenType::FALSE)
    } else if spells(word, "fun") {
        Some(TokenType::FUN)
    } else if spells(word, "for") {
        Some(TokenType::FOR)
    } else if spells(word, "if") {
        Some(TokenType::IF)
    } else if spells(word, "nil") {
        Some(TokenType::NIL)
    } else if spells(word, "or") {
        Some(TokenType::OR)
    } else if spells(word, "print") {
        Some(TokenType::PRINT)
    } else if spells(word, "return") {
        Some(TokenType::RETURN)
    } else if spells(word, "super") {
        Some(TokenType::SUPER)
    } else if spells(word, "this") {
        Some(TokenType::THIS)
    } else if spells(word, "true") {
        Some(TokenType::TRUE)
    } else if spells(word, "var") {
        Some(TokenType::VAR)
    } else if spells(word, "while") {
        Some(TokenType::WHILE)
    } else {
        None
    }
}

/// The character at `pos`, without consuming it; `None` at the end of the
/// text.
pub fn peek(text: &[char], pos: usize) -> (next: Option<char>)
    ensures
        next == (if pos < text@.len() {
            Some(text@[pos as int])
        } else {
            None::<char>
        }),
{
    if pos < text.len() {
        Some(text[pos])
    } else {
        None
    }
}

/// Whether the character after `pos` is `expected`.
pub fn followed_by(text: &[char], pos: usize, expected: char) -> (follows: bool)
    ensures
        follows == has_at(text@, pos + 1, expected),
{
    if pos < text.len() {
        match peek(text, pos + 1) {
            Some(c) => c == expected,
            None => false,
        }
    } else {
        false
    }
}

/// Consumes the number that begins at `start`.
pub fn scan_number(text: &[char], start: usize) -> (end: usize)
    requires
        start <= text@.len(),
    ensures
        end == number_end(text@, start as int),
        start <= end <= text@.len(),
{
    let whole = skip_run(text, start, CharClass::Digit);
    if whole < text.len() && text[whole] == '.' && whole + 1 < text.len() && is_digit(
        text[whole + 1],
    ) {
        skip_run(text, whole + 1, CharClass::Digit)
    } else {
        whole
    }
}

/// Classifies the lexeme that begins at `start`: what it amounts to, and
/// where it ends.
pub fn scan_lexeme(text: &[char], start: usize) -> (lexeme: (Outcome, usize))
    requires
        start < text@.len(),
    ensures
        lexeme.0 == lexeme_at(text@, start as int).outcome,
        lexeme.1 == lexeme_at(text@, start as int).end,
        start < lexeme.1 <= text@.len(),
{
    proof {
        lemma_lexeme_advances(text@, start as int);
    }
    let c = text[start];
    if let Some(token_type) = punctuation(c) {
        (Outcome::Token(token_type), start + 1)
    } else if let Some((alone, with_equal)) = operator(c) {
        if followed_by(text, start, '=') {
            (Outcome::Token(with_equal), start + 2)
        } else {
            (Outcome::Token(alone), start + 1)
        }
    } else if c == '/' {
        if followed_by(text, start, '/') {
            (Outcome::Skip, skip_run(text, start + 2, CharClass::LineRest))
        } else {
            (Outcome::Token(TokenType::SLASH), start + 1)
        }
    } else if is_whitespace(c) {
        (Outcome::Skip, start + 1)
    } else if c == '"' {
        let close = skip_run(text, start + 1, CharClass::StringBody);
        if close < text.len() {
            (Outcome::Token(TokenType::STRING), close + 1)
        } else {
            (Outcome::Error(DiagnosticKind::UnterminatedString), close)
        }
    } else if is_digit(c) {
        (Outcome::Token(TokenType::NUMBER), scan_number(text, start))
    } else if is_alpha(c) {
        let end = skip_run(text, start, CharClass::Word);
        let token_type = match lookup_keyword(slice_subrange(text, start, end)) {
            Some(token_type) => token_type,
            None => TokenType::IDENTIFIER,
        };
        (Outcome::Token(token_type), end)
    } else {
        (Outcome::Error(DiagnosticKind::UnexpectedCharacter(c)), start + 1)
    }
}

/// The line on which position `to` lies, counted on from position `from`
/// and its line.
pub fn line_after(text: &[char], from: usize, to: usize, line: usize) -> (after: usize)
    requires
        from <= to <= text@.len(),
        line == line_at(text@, from as int),
        line_at(text@, to as int) <= usize::MAX,
    ensures
        after == line_at(text@, to as int),
{
    let mut after: usize = line;
    let mut i: usize = from;
    while i < to
        invariant
            from <= i <= to <= text@.len(),
            after == line_at(text@, i as int),
            line_at(text@, to as int) <= usize::MAX,
        decreases to - i,
    {
        proof {
            lemma_line_at_monotonic(text@, i + 1, to as int);
        }
        if text[i] == '\n' {
            after += 1;
        }
        i += 1;
    }
    after
}

/// What scanning one lexeme hands to the scan: a token, a diagnostic, or
/// nothing.
#[derive(Debug, Clone, PartialEq, Eq)]
pub enum Scanned {
    Token(Token),
    Diagnostic(Diagnostic),
    Nothing,
}

impl Scanned {
    /// The token, if this is one.
    pub open spec fn token(self) -> Option<TokenView> {
        match self {
            Scanned::Token(token) => Some(token@),
            _ => None,
        }
    }

    /// The diagnostic, if this is one.
    pub open spec fn diagnostic(self) -> Option<DiagnosticView> {
        match self {
            Scanned::Diagnostic(diagnostic) => Some(diagnostic@),
            _ => None,
        }
    }
}

/// The result of scanning one lexeme: what it yielded, and the cursor and
/// the line counter behind it.
#[derive(Debug, Clone, PartialEq, Eq)]
pub struct Step {
    pub scanned: Scanned,
    pub current: usize,
    pub line: usize,
}

/// Scans the lexeme that begins at `start`, which lies on line `line`:
/// what it yields, where the next lexeme begins, and on which line.
pub fn scan_token(text: &[char], start: usize, line: usize) -> (step: Step)
    requires
        start < text@.len(),
        line == line_at(text@, start as int),
        line_at(text@, text@.len() as int) <= usize::MAX,
    ensures
        step.current == lexeme_at(text@, start as int).end,
        start < step.current <= text@.len(),
        step.line == line_at(text@, step.current as int),
        step.scanned.token() == token_at(text@, start as int),
        step.scanned.diagnostic() == diagnostic_at(text@, start as int),
{
    let (outcome, current) = scan_lexeme(text, start);
    proof {
        lemma_line_at_monotonic(text@, current as int, text@.len() as int);
    }
    let scanned = match outcome {
        Outcome::Token(token_type) => {
            let lexeme = collect_text(slice_subrange(text, start, current));
            Scanned::Token(Token::new(token_type, lexeme, line))
        },
        Outcome::Error(kind) => Scanned::Diagnostic(Diagnostic { line, kind }),
        Outcome::Skip => Scanned::Nothing,
    };
    Step { scanned, current, line: line_after(text, start, current, line) }
}

/// Whether the last of `tokens`, and no other, is an `EOF` token, and that
/// one without text and without value.
pub open spec fn ends_with_eof(tokens: Seq<Token>) -> bool {
    &&& tokens.len() >= 1
    &&& tokens.last().token_type == TokenType::EOF
    &&& tokens.last().lexeme@ == Seq::<char>::empty()
    &&& tokens.last().literal is None
    &&& forall|i: int|
        0 <= i < tokens.len() - 1 ==> (#[trigger] tokens[i]).token_type != TokenType::EOF
}

proof fn lemma_views_end_with_eof(text: Seq<char>, tokens: Seq<Token>)
    requires
        token_views(tokens) == tokens_of(text),
    ensures
        ends_with_eof(tokens),
{
    lemma_tokens_end_with_eof(text, 0);
    assert(token_views(tokens).last() == tokens.last()@);
    assert forall|i: int| 0 <= i < tokens.len() - 1 implies (#[trigger] tokens[i]).token_type
        != TokenType::EOF by {
        assert(token_views(tokens)[i] == tokens[i]@);
    }
}

/// Scans a text given as its characters. The number of its last line has
/// to fit in a `usize`.
pub fn scan_chars(text: &[char]) -> (scanned: (Vec<Token>, Vec<Diagnostic>))
    requires
        line_at(text@, text@.len() as int) <= usize::MAX,
    ensures
        token_views(scanned.0@) == tokens_of(text@),
        diagnostic_views(scanned.1@) == diagnostics_of(text@),
        ends_with_eof(scanned.0@),
{
    let mut tokens: Vec<Token> = Vec::new();
    let mut diagnostics: Vec<Diagnostic> = Vec::new();
    let mut current: usize = 0;
    let mut line: usize = 1;
    while current < text.len()
        invariant
            current <= text@.len(),
            line == line_at(text@, current as int),
            line_at(text@, text@.len() as int) <= usize::MAX,
            token_views(tokens@) + tokens_from(text@, current as int) == tokens_of(text@),
            diagnostic_views(diagnostics@) + diagnostics_from(text@, current as int)
                == diagnostics_of(text@),
        decreases text@.len() - current,
    {
        let ghost tokens_before = tokens@;
        let ghost diagnostics_before = diagnostics@;
        let step = scan_token(text, current, line);
        match step.scanned {
            Scanned::Token(token) => {
                tokens.push(token);
                proof {
                    assert(token_views(tokens@) =~= token_views(tokens_before).push(token@));
                }
            },
            Scanned::Diagnostic(diagnostic) => {
                diagnostics.push(diagnostic);
                proof {
                    assert(diagnostic_views(diagnostics@) =~= diagnostic_views(
                        diagnostics_before,
                    ).push(diagnostic@));
                }
            },
            Scanned::Nothing => {},
        }
        current = step.current;
        line = step.line;
    }
    let ghost tokens_before = tokens@;
    tokens.push(Token::new(TokenType::EOF, String::new(), line));
    proof {
        assert(token_views(tokens@) =~= token_views(tokens_before) + tokens_from(
            text@,
            current as int,
        ));
        lemma_views_end_with_eof(text@, tokens@);
    }
    (tokens, diagnostics)
}

/// Scans `source`: its tokens in order, closed by one `EOF` token, and the
/// diagnostics of what could not be scanned.
///
/// The number of the last line has to fit in a `usize`, as it does for
/// every text of fewer than `usize::MAX` characters
/// ([`lemma_line_at_bound`](crate::laws::lemma_line_at_bound)).
pub fn scan(source: &str) -> (scanned: (Vec<Token>, Vec<Diagnostic>))
    requires
        line_at(source@, source@.len() as int) <= usize::MAX,
    ensures
        token_views(scanned.0@) == tokens_of(source@),
        diagnostic_views(scanned.1@) == diagnostics_of(source@),
        ends_with_eof(scanned.0@),
{
    let text = to_chars(source);
    scan_chars(text.as_slice())
}

/// A scanned source text: the text, its tokens and its diagnostics.
#[derive(Debug, Clone, PartialEq, Eq)]
pub struct Scanner {
    pub source: String,
    pub token_list: Vec<Token>,
    pub diagnostics: Vec<Diagnostic>,
}

impl Scanner {
    /// Scans `source` and keeps it with what the scan produced. The
    /// number of the last line has to fit in a `usize`.
    pub fn new(source: String) -> (scanner: Scanner)
        requires
            line_at(source@, source@.len() as int) <= usize::MAX,
        ensures
            scanner.source@ == source@,
            token_views(scanner.token_list@) == tokens_of(source@),
            diagnostic_views(scanner.diagnostics@) == diagnostics_of(source@),
            ends_with_eof(scanner.token_list@),
    {
        let (token_list, diagnostics) = scan(source.as_str());
        Scanner { source, token_list, diagnostics }
    }
}

} // verus!
