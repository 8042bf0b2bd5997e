//! Literals: the values that string and number tokens decode to.

use crate::chars::{digit_value, is_digit, lemma_run_end, run_end, skip_run, CharClass};
use crate::text::collect_text;
use crate::token::TokenType;
use vstd::prelude::*;
use vstd::slice::slice_subrange;

verus! {

/// A number written in decimal notation, kept exactly: its digits, most
/// significant first and without the point, and how many of them stand
/// after the point.
#[derive(Debug, Clone, PartialEq, Eq)]
pub struct Decimal {
    pub digits: Vec<u8>,
    pub scale: usize,
}

/// The mathematical content of a [`Decimal`].
pub struct DecimalView {
    pub digits: Seq<u8>,
    pub scale: nat,
}

/// The natural number that a sequence of decimal digits writes.
pub open spec fn digits_value(digits: Seq<u8>) -> nat
    decreases digits.len(),
{
    if digits.len() == 0 {
        0
    } else {
        10 * digits_value(digits.drop_last()) + digits.last() as nat
    }
}

/// Ten to the power `n`.
pub open spec fn pow10(n: nat) -> nat
    decreases n,
{
    if n == 0 {
        1
    } else {
        10 * pow10((n - 1) as nat)
    }
}

impl DecimalView {
    /// Every digit is below ten, and no more digits stand after the point
    /// than there are.
    pub open spec fn well_formed(self) -> bool {
        &&& self.scale <= self.digits.len()
        &&& forall|i: int| 0 <= i < self.digits.len() ==> self.digits[i] < 10
    }

    /// The digits read as one natural number, the point ignored.
    pub open spec fn mantissa(self) -> nat {
        digits_value(self.digits)
    }

    /// The power of ten by which the mantissa is divided: the number
    /// written is `mantissa() / denominator()`.
    pub open spec fn denominator(self) -> nat {
        pow10(self.scale)
    }
}

impl View for Decimal {
    type V = DecimalView;

    open spec fn view(&self) -> DecimalView {
        DecimalView { digits: self.digits@, scale: self.scale as nat }
    }
}

/// The decoded value of a literal token.
#[derive(Debug, Clone, PartialEq, Eq)]
pub enum Literal {
    /// The characters between the quotes of a string literal.
    Text(String),
    /// The value of a number literal.
    Number(Decimal),
}

/// The mathematical content of a [`Literal`].
pub enum LiteralView {
    Text(Seq<char>),
    Number(DecimalView),
}

impl View for Literal {
    type V = LiteralView;

    open spec fn view(&self) -> LiteralView {
        match self {
            Literal::Text(text) => LiteralView::Text(text@),
            Literal::Number(number) => LiteralView::Number(number@),
        }
    }
}

/// The decimal digits among `text`, in order, each as its value.
pub open spec fn digits_of(text: Seq<char>) -> Seq<u8>
    decreases text.len(),
{
    if text.len() == 0 {
        Seq::empty()
    } else {
        match digit_value(text.last()) {
            Some(digit) => digits_of(text.drop_last()).push(digit),
            None => digits_of(text.drop_last()),
        }
    }
}

/// The number that `lexeme` writes: all its digits, of which those after
/// the leading run of digits stand behind the point.
pub open spec fn decimal_of(lexeme: Seq<char>) -> DecimalView {
    let whole = run_end(lexeme, 0, CharClass::Digit);
    DecimalView {
        digits: digits_of(lexeme),
        scale: digits_of(lexeme.subrange(whole, lexeme.len() as int)).len(),
    }
}

/// The digits decoded from a text are below ten and no more than the
/// text has characters; where the text is made of digits only, they are
/// as many.
pub proof fn lemma_digits_of(text: Seq<char>)
    ensures
        digits_of(text).len() <= text.len(),
        forall|i: int| 0 <= i < digits_of(text).len() ==> #[trigger] digits_of(text)[i] < 10,
        (forall|i: int| 0 <= i < text.len() ==> is_digit(#[trigger] text[i])) ==> digits_of(
            text,
        ).len() == text.len(),
    decreases text.len(),
{
    if text.len() > 0 {
        lemma_digits_of(text.drop_last());
        if forall|i: int| 0 <= i < text.len() ==> is_digit(#[trigger] text[i]) {
            assert forall|i: int| 0 <= i < text.drop_last().len() implies is_digit(
                #[trigger] text.drop_last()[i],
            ) by {
                assert(text.drop_last()[i] == text[i]);
            }
        }
    }
}

/// Decoding the digits of two texts in a row is decoding each and putting
/// the digits in a row.
pub proof fn lemma_digits_of_concat(front: Seq<char>, back: Seq<char>)
    ensures
        digits_of(front + back) == digits_of(front) + digits_of(back),
    decreases back.len(),
{
    if back.len() == 0 {
        assert(front + back =~= front);
    } else {
        lemma_digits_of_concat(front, back.drop_last());
        assert((front + back).drop_last() =~= front + back.drop_last());
    }
}

/// Whatever the lexeme, the number it decodes to is well formed.
pub proof fn lemma_decimal_of_is_well_formed(lexeme: Seq<char>)
    ensures
        decimal_of(lexeme).well_formed(),
{
    let whole = run_end(lexeme, 0, CharClass::Digit);
    lemma_run_end(lexeme, 0, CharClass::Digit);
    let front = lexeme.subrange(0, whole);
    let back = lexeme.subrange(whole, lexeme.len() as int);
    assert(lexeme =~= front + back);
    lemma_digits_of_concat(front, back);
    lemma_digits_of(lexeme);
}

/// `lexeme` without its first and its last character: what stands between
/// the quotes of a string literal.
pub open spec fn unquoted(lexeme: Seq<char>) -> Seq<char> {
    if lexeme.len() >= 2 {
        lexeme.subrange(1, lexeme.len() - 1)
    } else {
        Seq::empty()
    }
}

/// The value that a lexeme of the given kind decodes to: the text between
/// the quotes for a string, the decimal value for a number, none for any
/// other kind.
pub open spec fn literal_of(token_type: TokenType, lexeme: Seq<char>) -> Option<LiteralView> {
    match token_type {
        TokenType::STRING => Some(LiteralView::Text(unquoted(lexeme))),
        TokenType::NUMBER => Some(LiteralView::Number(decimal_of(lexeme))),
        _ => None,
    }
}

/// Appends to `digits` the values of the digits among the characters of
/// `text` from `from` up to `to`, and returns how many they are.
pub fn push_digits(text: &[char], from: usize, to: usize, digits: &mut Vec<u8>) -> (count: usize)
    requires
        from <= to <= text@.len(),
    ensures
        final(digits)@ == old(digits)@ + digits_of(text@.subrange(from as int, to as int)),
        count == digits_of(text@.subrange(from as int, to as int)).len(),
{
    let mut count: usize = 0;
    let mut i: usize = from;
    while i < to
        invariant
            from <= i <= to <= text@.len(),
            count <= i - from,
            digits@ == old(digits)@ + digits_of(text@.subrange(from as int, i as int)),
            count == digits_of(text@.subrange(from as int, i as int)).len(),
        decreases to - i,
    {
        proof {
            assert(text@.subrange(from as int, i + 1).drop_last() =~= text@.subrange(
                from as int,
                i as int,
            ));
        }
        match digit_value(text[i]) {
            Some(digit) => {
                digits.push(digit);
                count += 1;
            },
            None => {},
        }
        i += 1;
    }
    count
}

/// Decodes the lexeme of a number literal.
pub fn decode_number(lexeme: &[char]) -> (number: Decimal)
    ensures
        number@ == decimal_of(lexeme@),
        number@.well_formed(),
{
    let whole = skip_run(lexeme, 0, CharClass::Digit);
    let mut digits: Vec<u8> = Vec::new();
    push_digits(lexeme, 0, whole, &mut digits);
    let scale = push_digits(lexeme, whole, lexeme.len(), &mut digits);
    proof {
        let front = lexeme@.subrange(0, whole as int);
        let back = lexeme@.subrange(whole as int, lexeme@.len() as int);
        assert(lexeme@ =~= front + back);
        lemma_digits_of_concat(front, back);
        lemma_decimal_of_is_well_formed(lexeme@);
    }
    Decimal { digits, scale }
}

/// Decodes the lexeme of a string literal.
pub fn decode_string(lexeme: &[char]) -> (text: String)
    ensures
        text@ == unquoted(lexeme@),
{
    if lexeme.len() >= 2 {
        collect_text(slice_subrange(lexeme, 1, lexeme.len() - 1))
    } else {
        String::new()
    }
}

} // verus!
