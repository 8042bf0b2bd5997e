//! What the text of a token looks like, kind by kind, and why no token
//! could be longer than it is.

use crate::chars::{
    is_alpha, is_alphanumeric, is_digit, lemma_run_end, lemma_run_reaches, run_end, CharClass,
};
use crate::grammar::{
    has_at, keyword, lemma_lexeme_advances, lexeme_at, operator, punctuation, tokens_from, Outcome,
};
use crate::token::TokenType;
use vstd::prelude::*;

verus! {

/// The text of a token whose kind admits one text only: punctuation,
/// operators, reserved words, and the empty text of `EOF`.
pub open spec fn spelling(token_type: TokenType) -> Option<Seq<char>> {
    match token_type {
        TokenType::LEFTPAREN => Some(seq!['(']),
        TokenType::RIGHTPAREN => Some(seq![')']),
        TokenType::LEFTBRACE => Some(seq!['{']),
        TokenType::RIGHTBRACE => Some(seq!['}']),
        TokenType::COMMA => Some(seq![',']),
        TokenType::DOT => Some(seq!['.']),
        TokenType::MINUS => Some(seq!['-']),
        TokenType::PLUS => Some(seq!['+']),
        TokenType::SEMICOLON => Some(seq![';']),
        TokenType::STAR => Some(seq!['*']),
        TokenType::BANG => Some(seq!['!']),
        TokenType::BANGEQUAL => Some(seq!['!', '=']),
        TokenType::EQUAL => Some(seq!['=']),
        TokenType::EQUALEQUAL => Some(seq!['=', '=']),
        TokenType::GREATER => Some(seq!['>']),
        TokenType::GREATEREQUAL => Some(seq!['>', '=']),
        TokenType::LESS => Some(seq!['<']),
        TokenType::LESSEQUAL => Some(seq!['<', '=']),
        TokenType::EOF => Some(Seq::empty()),
        TokenType::SLASH => Some(seq!['/']),
        TokenType::IDENTIFIER => None,
        TokenType::STRING => None,
        TokenType::NUMBER => None,
        TokenType::AND => Some("and"@),
        TokenType::CLASS => Some("class"@),
        TokenType::ELSE => Some("else"@),
        TokenType::FALSE => Some("false"@),
        TokenType::FUN => Some("fun"@),
        TokenType::FOR => Some("for"@),
        TokenType::IF => Some("if"@),
        TokenType::NIL => Some("nil"@),
        TokenType::OR => Some("or"@),
        TokenType::PRINT => Some("print"@),
        TokenType::RETURN => Some("return"@),
        TokenType::SUPER => Some("super"@),
        TokenType::THIS => Some("this"@),
        TokenType::TRUE => Some("true"@),
        TokenType::VAR => Some("var"@),
        TokenType::WHILE => Some("while"@),
    }
}

/// A word: a letter or an underscore, then letters, digits and
/// underscores.
pub open spec fn is_word(lexeme: Seq<char>) -> bool {
    &&& lexeme.len() >= 1
    &&& is_alpha(lexeme[0])
    &&& forall|i: int| 0 <= i < lexeme.len() ==> is_alphanumeric(#[trigger] lexeme[i])
}

/// A number with its point at `point`: digits only before it, and either
/// nothing more or a point and one digit or more.
pub open spec fn is_number_with_point_at(lexeme: Seq<char>, point: int) -> bool {
    &&& 1 <= point <= lexeme.len()
    &&& forall|i: int| 0 <= i < point ==> is_digit(#[trigger] lexeme[i])
    &&& point < lexeme.len() ==> {
        &&& lexeme[point] == '.'
        &&& point + 1 < lexeme.len()
        &&& forall|i: int| point < i < lexeme.len() ==> is_digit(#[trigger] lexeme[i])
    }
}

/// A number: one digit or more, and then perhaps a point and one digit or
/// more.
pub open spec fn is_number(lexeme: Seq<char>) -> bool {
    exists|point: int| is_number_with_point_at(lexeme, point)
}

/// A string literal: a quote, any characters but quotes, a quote.
pub open spec fn is_string(lexeme: Seq<char>) -> bool {
    &&& lexeme.len() >= 2
    &&& lexeme[0] == '"'
    &&& lexeme[lexeme.len() - 1] == '"'
    &&& forall|i: int| 0 < i < lexeme.len() - 1 ==> #[trigger] lexeme[i] != '"'
}

/// Whether `lexeme` is the text of a token of kind `token_type`.
pub open spec fn is_lexeme_of(token_type: TokenType, lexeme: Seq<char>) -> bool {
    match token_type {
        TokenType::STRING => is_string(lexeme),
        TokenType::NUMBER => is_number(lexeme),
        TokenType::IDENTIFIER => is_word(lexeme) && keyword(lexeme) is None,
        _ => spelling(token_type) == Some(lexeme),
    }
}

/// The reserved words are words, and each is the spelling of its kind.
pub proof fn lemma_keywords_are_words(word: Seq<char>)
    requires
        keyword(word) is Some,
    ensures
        is_word(word),
        spelling(keyword(word)->0) == Some(word),
{
    reveal_strlit("and");
    reveal_strlit("class");
    reveal_strlit("else");
    reveal_strlit("false");
    reveal_strlit("fun");
    reveal_strlit("for");
    reveal_strlit("if");
    reveal_strlit("nil");
    reveal_strlit("or");
    reveal_strlit("print");
    reveal_strlit("return");
    reveal_strlit("super");
    reveal_strlit("this");
    reveal_strlit("true");
    reveal_strlit("var");
    reveal_strlit("while");
}

/// The text of every token is a text of its kind.
pub proof fn lemma_lexeme_is_of_its_kind(text: Seq<char>, pos: int)
    requires
        0 <= pos < text.len(),
    ensures
        lexeme_at(text, pos).outcome matches Outcome::Token(token_type) ==> is_lexeme_of(
            token_type,
            text.subrange(pos, lexeme_at(text, pos).end),
        ),
{
    let c = text[pos];
    let end = lexeme_at(text, pos).end;
    let lexeme = text.subrange(pos, end);
    if let Some(token_type) = punctuation(c) {
        assert(lexeme =~= seq![c]);
    } else if let Some((alone, with_equal)) = operator(c) {
        if has_at(text, pos + 1, '=') {
            assert(lexeme =~= seq![c, '=']);
        } else {
            assert(lexeme =~= seq![c]);
        }
    } else if c == '/' {
        if !has_at(text, pos + 1, '/') {
            assert(lexeme =~= seq![c]);
        }
    } else if is_alpha(c) {
        lemma_run_end(text, pos, CharClass::Word);
        if keyword(lexeme) is Some {
            lemma_keywords_are_words(lexeme);
        }
    } else if c == '"' {
        lemma_run_end(text, pos + 1, CharClass::StringBody);
    } else if is_digit(c) {
        lemma_run_end(text, pos, CharClass::Digit);
        let whole = run_end(text, pos, CharClass::Digit);
        if whole + 1 < text.len() {
            lemma_run_end(text, whole + 1, CharClass::Digit);
        }
        assert(is_number_with_point_at(lexeme, whole - pos));
    }
}

/// The text of every token of a scan is a text of the token's kind.
pub proof fn lemma_tokens_are_of_their_kinds(text: Seq<char>, pos: int)
    ensures
        forall|i: int|
            0 <= i < tokens_from(text, pos).len() ==> is_lexeme_of(
                (#[trigger] tokens_from(text, pos)[i]).token_type,
                tokens_from(text, pos)[i].lexeme,
            ),
    decreases text.len() - pos,
{
    if 0 <= pos < text.len() {
        lemma_lexeme_advances(text, pos);
        lemma_lexeme_is_of_its_kind(text, pos);
        let end = lexeme_at(text, pos).end;
        lemma_tokens_are_of_their_kinds(text, end);
    }
}

/// Every token is as long as it can be: no longer stretch of the text
/// from its first character on is the text of a token, of whatever kind.
pub proof fn lemma_lexeme_is_longest(text: Seq<char>, pos: int, to: int, token_type: TokenType)
    requires
        0 <= pos < text.len(),
        lexeme_at(text, pos).outcome is Token,
        lexeme_at(text, pos).end < to <= text.len(),
    ensures
        !is_lexeme_of(token_type, text.subrange(pos, to)),
{
    let longer = text.subrange(pos, to);
    lemma_lexeme_advances(text, pos);
    assert(longer[0] == text[pos]);
    if is_lexeme_of(token_type, longer) {
        if token_type == TokenType::STRING {
            // The token is a string too, and its closing quote would stand
            // inside the longer one.
            lemma_run_end(text, pos + 1, CharClass::StringBody);
            let close = run_end(text, pos + 1, CharClass::StringBody);
            assert(longer[close - pos] == text[close]);
            assert(false);
        } else if token_type == TokenType::NUMBER {
            // The token is a number too. Both have the same digits before
            // the point, so the longer one has a fraction, and the token
            // would have taken all of it.
            let point = choose|point: int| is_number_with_point_at(longer, point);
            let whole = run_end(text, pos, CharClass::Digit);
            lemma_run_end(text, pos, CharClass::Digit);
            if whole + 1 < text.len() {
                lemma_run_end(text, whole + 1, CharClass::Digit);
            }
            assert forall|i: int| pos <= i < pos + point implies CharClass::Digit.contains(
                #[trigger] text[i],
            ) by {
                assert(is_digit(longer[i - pos]));
            }
            lemma_run_reaches(text, pos, CharClass::Digit, pos + point);
            if pos + point < whole {
                assert(longer[point] == text[pos + point]);
                assert(false);
            }
            assert(whole == pos + point);
            assert(longer[point] == text[whole]);
            assert(longer[point + 1] == text[whole + 1]);
            assert forall|i: int| whole + 1 <= i < to implies CharClass::Digit.contains(
                #[trigger] text[i],
            ) by {
                assert(is_digit(longer[i - pos]));
            }
            lemma_run_reaches(text, whole + 1, CharClass::Digit, to);
            assert(false);
        } else {
            if token_type != TokenType::IDENTIFIER && keyword(longer) is Some {
                lemma_keywords_are_words(longer);
            }
            if is_word(longer) {
                // The token is a word too, and would have taken all of the
                // longer one.
                assert forall|i: int| pos <= i < to implies CharClass::Word.contains(
                    #[trigger] text[i],
                ) by {
                    assert(is_alphanumeric(longer[i - pos]));
                }
                lemma_run_reaches(text, pos, CharClass::Word, to);
                assert(false);
            }
            // What is left is an operator of two characters, which the
            // token would then be.
            assert(longer.len() == 2);
            assert(longer[1] == text[pos + 1]);
            assert(false);
        }
    }
}

} // verus!
