//! What holds of every scan.

use crate::chars::{
    is_alphanumeric, is_digit, is_whitespace, lemma_run_end, run_end, CharClass,
};
use crate::diagnostic::{diagnostic_views, Diagnostic, DiagnosticKind, DiagnosticView};
use crate::grammar::{
    diagnostic_at, diagnostics_from, diagnostics_of, end_token, lemma_lexeme_advances,
    lemma_line_at_monotonic, lexeme_at, line_at, operator, punctuation, token_at, tokens_from,
    tokens_of,
};
use crate::literal::{
    decimal_of, digits_of, digits_value, lemma_decimal_of_is_well_formed, lemma_digits_of,
    lemma_digits_of_concat, pow10, LiteralView,
};
use crate::token::{token_views, Token, TokenType, TokenView};
use vstd::prelude::*;

verus! {

/// The first line is line one, and the line number grows by one behind
/// every newline and behind nothing else, wherever the newline stands.
pub proof fn lemma_every_newline_counts_once(text: Seq<char>, pos: int)
    requires
        0 <= pos < text.len(),
    ensures
        line_at(text, 0) == 1,
        text[pos] == '\n' ==> line_at(text, pos + 1) == line_at(text, pos) + 1,
        text[pos] != '\n' ==> line_at(text, pos + 1) == line_at(text, pos),
{
}

/// The line of a position is one more than the number of characters before
/// it at most.
pub proof fn lemma_line_at_bound(text: Seq<char>, pos: int)
    ensures
        1 <= line_at(text, pos),
        pos >= 0 ==> line_at(text, pos) <= pos + 1,
        line_at(text, pos) <= text.len() + 1,
    decreases pos,
{
    if pos > 0 {
        lemma_line_at_bound(text, pos - 1);
    }
}

/// No lexeme of the text is an `EOF` token.
pub proof fn lemma_no_lexeme_is_eof(text: Seq<char>, pos: int)
    requires
        0 <= pos < text.len(),
    ensures
        token_at(text, pos) matches Some(token) ==> token.token_type != TokenType::EOF,
{
}

/// The tokens from any position on end with the `EOF` token, and it is
/// the only one of its kind among them.
pub proof fn lemma_tokens_end_with_eof(text: Seq<char>, pos: int)
    ensures
        tokens_from(text, pos).len() >= 1,
        tokens_from(text, pos).last() == end_token(text),
        forall|i: int|
            0 <= i < tokens_from(text, pos).len() - 1 ==> (#[trigger] tokens_from(
                text,
                pos,
            )[i]).token_type != TokenType::EOF,
    decreases text.len() - pos,
{
    if 0 <= pos < text.len() {
        lemma_lexeme_advances(text, pos);
        lemma_no_lexeme_is_eof(text, pos);
        lemma_tokens_end_with_eof(text, lexeme_at(text, pos).end);
    }
}

/// Where each token of `text` from `pos` on begins: the position of its
/// first character, and the end of the text for the `EOF` token.
pub open spec fn token_starts_from(text: Seq<char>, pos: int) -> Seq<int>
    decreases text.len() - pos,
    via token_starts_from_decreases
{
    if 0 <= pos < text.len() {
        if token_at(text, pos) is Some {
            seq![pos] + token_starts_from(text, lexeme_at(text, pos).end)
        } else {
            token_starts_from(text, lexeme_at(text, pos).end)
        }
    } else {
        seq![text.len() as int]
    }
}

#[via_fn]
proof fn token_starts_from_decreases(text: Seq<char>, pos: int) {
    if 0 <= pos < text.len() {
        lemma_lexeme_advances(text, pos);
    }
}

/// Where each token of `text` begins.
pub open spec fn token_starts(text: Seq<char>) -> Seq<int> {
    token_starts_from(text, 0)
}

/// Whether a token is the stretch of `text` that begins at `start`, and
/// reports the line on which that position lies.
pub open spec fn lies_at(text: Seq<char>, token: TokenView, start: int) -> bool {
    &&& 0 <= start
    &&& start + token.lexeme.len() <= text.len()
    &&& token.lexeme == text.subrange(start, start + token.lexeme.len())
    &&& token.line == line_at(text, start)
}

/// The tokens from `pos` on lie in the text behind `pos`, one after the
/// other, and none but the last is empty.
pub proof fn lemma_tokens_from_lie_in_order(text: Seq<char>, pos: int)
    requires
        0 <= pos <= text.len(),
    ensures
        token_starts_from(text, pos).len() == tokens_from(text, pos).len(),
        forall|i: int|
            0 <= i < tokens_from(text, pos).len() ==> pos <= #[trigger] token_starts_from(
                text,
                pos,
            )[i] && lies_at(text, tokens_from(text, pos)[i], token_starts_from(text, pos)[i]),
        forall|i: int|
            0 <= i < tokens_from(text, pos).len() - 1 ==> (#[trigger] token_starts_from(
                text,
                pos,
            )[i]) < token_starts_from(text, pos)[i] + tokens_from(text, pos)[i].lexeme.len()
                <= token_starts_from(text, pos)[i + 1],
    decreases text.len() - pos,
{
    if pos < text.len() {
        lemma_lexeme_advances(text, pos);
        let end = lexeme_at(text, pos).end;
        lemma_tokens_from_lie_in_order(text, end);
    } else {
        assert(Seq::<char>::empty() =~= text.subrange(text.len() as int, text.len() as int));
    }
}

/// Every token of a scan is a stretch of the text, and reports the line
/// on which its first character stands. The tokens come in the order of
/// their positions, each behind the end of the one before, so their lines
/// never go back.
pub proof fn lemma_tokens_lie_in_order(text: Seq<char>)
    ensures
        token_starts(text).len() == tokens_of(text).len(),
        forall|i: int|
            0 <= i < tokens_of(text).len() ==> lies_at(
                text,
                #[trigger] tokens_of(text)[i],
                token_starts(text)[i],
            ),
        forall|i: int, j: int|
            0 <= i < j < tokens_of(text).len() ==> (#[trigger] token_starts(text)[i])
                < token_starts(text)[i] + tokens_of(text)[i].lexeme.len()
                <= #[trigger] token_starts(text)[j],
        forall|i: int, j: int|
            0 <= i <= j < tokens_of(text).len() ==> (#[trigger] tokens_of(text)[i]).line
                <= (#[trigger] tokens_of(text)[j]).line,
{
    lemma_tokens_from_lie_in_order(text, 0);
    let tokens = tokens_of(text);
    let starts = token_starts(text);
    assert forall|i: int, j: int| 0 <= i < j < tokens.len() implies (#[trigger] starts[i])
        < starts[i] + tokens[i].lexeme.len() <= #[trigger] starts[j] by {
        lemma_starts_ascend(text, i, j);
    }
    assert forall|i: int, j: int| 0 <= i <= j < tokens.len() implies (#[trigger] tokens[i]).line
        <= (#[trigger] tokens[j]).line by {
        if i < j {
            lemma_starts_ascend(text, i, j);
        }
        lemma_line_at_monotonic(text, starts[i], starts[j]);
    }
}

proof fn lemma_starts_ascend(text: Seq<char>, i: int, j: int)
    requires
        0 <= i < j < tokens_of(text).len(),
    ensures
        token_starts(text)[i] < token_starts(text)[i] + tokens_of(text)[i].lexeme.len()
            <= token_starts(text)[j],
    decreases j - i,
{
    lemma_tokens_from_lie_in_order(text, 0);
    if i + 1 < j {
        lemma_starts_ascend(text, i, j - 1);
    }
}

/// Where the lexeme begins that gave rise to each diagnostic of `text`
/// from `pos` on.
pub open spec fn diagnostic_starts_from(text: Seq<char>, pos: int) -> Seq<int>
    decreases text.len() - pos,
    via diagnostic_starts_from_decreases
{
    if 0 <= pos < text.len() {
        if diagnostic_at(text, pos) is Some {
            seq![pos] + diagnostic_starts_from(text, lexeme_at(text, pos).end)
        } else {
            diagnostic_starts_from(text, lexeme_at(text, pos).end)
        }
    } else {
        Seq::empty()
    }
}

#[via_fn]
proof fn diagnostic_starts_from_decreases(text: Seq<char>, pos: int) {
    if 0 <= pos < text.len() {
        lemma_lexeme_advances(text, pos);
    }
}

/// Whether a diagnostic reports what begins at position `start` of `text`,
/// on the line of that position: a character with which no token begins,
/// or a quote that no later quote closes.
pub open spec fn reports(text: Seq<char>, diagnostic: DiagnosticView, start: int) -> bool {
    &&& 0 <= start < text.len()
    &&& diagnostic.line == line_at(text, start)
    &&& match diagnostic.kind {
        DiagnosticKind::UnexpectedCharacter(c) => text[start] == c && c != '"' && c != '/'
            && !is_whitespace(c) && !is_alphanumeric(c) && punctuation(c) is None && operator(c)
            is None,
        DiagnosticKind::UnterminatedString => text[start] == '"' && forall|i: int|
            start < i < text.len() ==> #[trigger] text[i] != '"',
    }
}

/// Every diagnostic from `pos` on reports what begins at a position of
/// its own behind `pos`, and the diagnostics come in the order of these
/// positions.
pub proof fn lemma_diagnostics_lie_in_order(text: Seq<char>, pos: int)
    requires
        0 <= pos <= text.len(),
    ensures
        diagnostic_starts_from(text, pos).len() == diagnostics_from(text, pos).len(),
        forall|i: int|
            0 <= i < diagnostics_from(text, pos).len() ==> pos
                <= #[trigger] diagnostic_starts_from(text, pos)[i] && reports(
                text,
                diagnostics_from(text, pos)[i],
                diagnostic_starts_from(text, pos)[i],
            ),
        forall|i: int|
            0 <= i < diagnostics_from(text, pos).len() - 1 ==> (#[trigger] diagnostic_starts_from(
                text,
                pos,
            )[i]) < diagnostic_starts_from(text, pos)[i + 1],
    decreases text.len() - pos,
{
    if pos < text.len() {
        lemma_lexeme_advances(text, pos);
        let end = lexeme_at(text, pos).end;
        lemma_diagnostics_lie_in_order(text, end);
        if text[pos] == '"' {
            lemma_run_end(text, pos + 1, CharClass::StringBody);
        }
    }
}

/// A lexeme that begins with a digit decodes to a number with a digit
/// before the point.
pub proof fn lemma_number_has_whole_part(lexeme: Seq<char>)
    requires
        lexeme.len() > 0,
        is_digit(lexeme[0]),
    ensures
        decimal_of(lexeme).scale < decimal_of(lexeme).digits.len(),
{
    let whole = run_end(lexeme, 0, CharClass::Digit);
    lemma_run_end(lexeme, 0, CharClass::Digit);
    let front = lexeme.subrange(0, whole);
    let back = lexeme.subrange(whole, lexeme.len() as int);
    assert(lexeme =~= front + back);
    lemma_digits_of_concat(front, back);
    lemma_digits_of(front);
}

/// Digits written behind other digits shift those to the left by as many
/// places as they are.
pub proof fn lemma_digits_value_concat(front: Seq<u8>, back: Seq<u8>)
    ensures
        digits_value(front + back) == digits_value(front) * pow10(back.len()) + digits_value(back),
    decreases back.len(),
{
    if back.len() == 0 {
        assert(front + back =~= front);
        assert(pow10(0) == 1);
    } else {
        lemma_digits_value_concat(front, back.drop_last());
        assert((front + back).drop_last() =~= front + back.drop_last());
        let shifted = digits_value(front);
        let power = pow10(back.drop_last().len());
        let rest = digits_value(back.drop_last());
        assert(10 * (shifted * power + rest) == shifted * (10 * power) + 10 * rest)
            by (nonlinear_arith);
    }
}

/// The number that a lexeme decodes to is the number written by its
/// leading digits plus the one written by its other digits, taken as a
/// fraction: with `denominator()` as the unit,
/// `mantissa() == whole * denominator() + fraction`.
pub proof fn lemma_number_value(lexeme: Seq<char>)
    ensures
        ({
            let point = run_end(lexeme, 0, CharClass::Digit);
            let whole = digits_value(digits_of(lexeme.subrange(0, point)));
            let fraction = digits_value(digits_of(lexeme.subrange(point, lexeme.len() as int)));
            decimal_of(lexeme).mantissa() == whole * decimal_of(lexeme).denominator() + fraction
        }),
{
    let point = run_end(lexeme, 0, CharClass::Digit);
    lemma_run_end(lexeme, 0, CharClass::Digit);
    let front = lexeme.subrange(0, point);
    let back = lexeme.subrange(point, lexeme.len() as int);
    assert(lexeme =~= front + back);
    lemma_digits_of_concat(front, back);
    lemma_digits_value_concat(digits_of(front), digits_of(back));
}

/// Whether a token is well formed and, where it is a number, has a digit
/// before the point.
pub open spec fn has_sound_value(token: TokenView) -> bool {
    &&& token.well_formed()
    &&& token.literal matches Some(LiteralView::Number(number)) ==> number.scale
        < number.digits.len()
}

/// Every token of a scan carries the value that belongs to its kind: a
/// text for a string, a well-formed number with a digit before the point
/// for a number, none otherwise.
pub proof fn lemma_tokens_are_well_formed(text: Seq<char>, pos: int)
    ensures
        forall|i: int|
            0 <= i < tokens_from(text, pos).len() ==> has_sound_value(
                #[trigger] tokens_from(text, pos)[i],
            ),
    decreases text.len() - pos,
{
    if 0 <= pos < text.len() {
        lemma_lexeme_advances(text, pos);
        let end = lexeme_at(text, pos).end;
        lemma_tokens_are_well_formed(text, end);
        lemma_decimal_of_is_well_formed(text.subrange(pos, end));
        if is_digit(text[pos]) {
            lemma_number_has_whole_part(text.subrange(pos, end));
        }
        let tokens = tokens_from(text, pos);
        let rest = tokens_from(text, end);
        assert forall|i: int| 0 <= i < tokens.len() implies has_sound_value(
            #[trigger] tokens[i],
        ) by {
            if token_at(text, pos) is Some && i > 0 {
                assert(tokens[i] == rest[i - 1]);
            }
        }
    }
}

/// Scanning is a function of the text alone: whatever two scans of the
/// same text return, token for token and diagnostic for diagnostic it is
/// the same.
pub proof fn lemma_scan_is_repeatable(
    source: Seq<char>,
    first: (Seq<Token>, Seq<Diagnostic>),
    second: (Seq<Token>, Seq<Diagnostic>),
)
    requires
        token_views(first.0) == tokens_of(source),
        diagnostic_views(first.1) == diagnostics_of(source),
        token_views(second.0) == tokens_of(source),
        diagnostic_views(second.1) == diagnostics_of(source),
    ensures
        first.0.len() == second.0.len(),
        forall|i: int| 0 <= i < first.0.len() ==> (#[trigger] first.0[i])@ == second.0[i]@,
        first.1.len() == second.1.len(),
        forall|i: int| 0 <= i < first.1.len() ==> #[trigger] first.1[i] == second.1[i],
{
    assert(token_views(first.0).len() == first.0.len());
    assert(token_views(second.0).len() == second.0.len());
    assert forall|i: int| 0 <= i < first.0.len() implies (#[trigger] first.0[i])@
        == second.0[i]@ by {
        assert(token_views(first.0)[i] == first.0[i]@);
        assert(token_views(second.0)[i] == second.0[i]@);
    }
    assert(diagnostic_views(first.1).len() == first.1.len());
    assert(diagnostic_views(second.1).len() == second.1.len());
    assert forall|i: int| 0 <= i < first.1.len() implies #[trigger] first.1[i] == second.1[i] by {
        assert(diagnostic_views(first.1)[i] == first.1[i]@);
        assert(diagnostic_views(second.1)[i] == second.1[i]@);
    }
}

} // verus!
