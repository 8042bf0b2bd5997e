//! Tokens: what the scanner hands to a parser.

use crate::literal::{decode_number, decode_string, literal_of, Literal, LiteralView};
use crate::text::to_chars;
use vstd::prelude::*;
use vstd::string::StringExecFns;

verus! {

/// The closed set of token kinds.
#[derive(Debug, Clone, Copy, PartialEq, Eq, Hash, Structural)]
pub enum TokenType {
    LEFTPAREN,
    RIGHTPAREN,
    LEFTBRACE,
    RIGHTBRACE,
    COMMA,
    DOT,
    MINUS,
    PLUS,
    SEMICOLON,
    STAR,
    BANG,
    BANGEQUAL,
    EQUAL,
    EQUALEQUAL,
    GREATER,
    GREATEREQUAL,
    LESS,
    LESSEQUAL,
    EOF,
    SLASH,
    IDENTIFIER,
    STRING,
    NUMBER,
    AND,
    CLASS,
    ELSE,
    FALSE,
    FUN,
    FOR,
    IF,
    NIL,
    OR,
    PRINT,
    RETURN,
    SUPER,
    THIS,
    TRUE,
    VAR,
    WHILE,
}

impl TokenType {
    /// The kind's name as text: the variant's identifier, letter for letter.
    pub open spec fn spec_name(self) -> Seq<char> {
        match self {
            TokenType::LEFTPAREN => "LEFTPAREN"@,
            TokenType::RIGHTPAREN => "RIGHTPAREN"@,
            TokenType::LEFTBRACE => "LEFTBRACE"@,
            TokenType::RIGHTBRACE => "RIGHTBRACE"@,
            TokenType::COMMA => "COMMA"@,
            TokenType::DOT => "DOT"@,
            TokenType::MINUS => "MINUS"@,
            TokenType::PLUS => "PLUS"@,
            TokenType::SEMICOLON => "SEMICOLON"@,
            TokenType::STAR => "STAR"@,
            TokenType::BANG => "BANG"@,
            TokenType::BANGEQUAL => "BANGEQUAL"@,
            TokenType::EQUAL => "EQUAL"@,
            TokenType::EQUALEQUAL => "EQUALEQUAL"@,
            TokenType::GREATER => "GREATER"@,
            TokenType::GREATEREQUAL => "GREATEREQUAL"@,
            TokenType::LESS => "LESS"@,
            TokenType::LESSEQUAL => "LESSEQUAL"@,
            TokenType::EOF => "EOF"@,
            TokenType::SLASH => "SLASH"@,
            TokenType::IDENTIFIER => "IDENTIFIER"@,
            TokenType::STRING => "STRING"@,
            TokenType::NUMBER => "NUMBER"@,
            TokenType::AND => "AND"@,
            TokenType::CLASS => "CLASS"@,
            TokenType::ELSE => "ELSE"@,
            TokenType::FALSE => "FALSE"@,
            TokenType::FUN => "FUN"@,
            TokenType::FOR => "FOR"@,
            TokenType::IF => "IF"@,
            TokenType::NIL => "NIL"@,
            TokenType::OR => "OR"@,
            TokenType::PRINT => "PRINT"@,
            TokenType::RETURN => "RETURN"@,
            TokenType::SUPER => "SUPER"@,
            TokenType::THIS => "THIS"@,
            TokenType::TRUE => "TRUE"@,
            TokenType::VAR => "VAR"@,
            TokenType::WHILE => "WHILE"@,
        }
    }

    /// Whether tokens of this kind carry a decoded value.
    pub open spec fn bears_literal(self) -> bool {
        self == TokenType::STRING || self == TokenType::NUMBER
    }

    /// The kind's name, as it is shown when a token is printed.
    pub fn name(&self) -> (name: &'static str)
        ensures
            name@ == self.spec_name(),
    {
        match self {
            TokenType::LEFTPAREN => "LEFTPAREN",
            TokenType::RIGHTPAREN => "RIGHTPAREN",
            TokenType::LEFTBRACE => "LEFTBRACE",
            TokenType::RIGHTBRACE => "RIGHTBRACE",
            TokenType::COMMA => "COMMA",
            TokenType::DOT => "DOT",
            TokenType::MINUS => "MINUS",
            TokenType::PLUS => "PLUS",
            TokenType::SEMICOLON => "SEMICOLON",
            TokenType::STAR => "STAR",
            TokenType::BANG => "BANG",
            TokenType::BANGEQUAL => "BANGEQUAL",
            TokenType::EQUAL => "EQUAL",
            TokenType::EQUALEQUAL => "EQUALEQUAL",
            TokenType::GREATER => "GREATER",
            TokenType::GREATEREQUAL => "GREATEREQUAL",
            TokenType::LESS => "LESS",
            TokenType::LESSEQUAL => "LESSEQUAL",
            TokenType::EOF => "EOF",
            TokenType::SLASH => "SLASH",
            TokenType::IDENTIFIER => "IDENTIFIER",
            TokenType::STRING => "STRING",
            TokenType::NUMBER => "NUMBER",
            TokenType::AND => "AND",
            TokenType::CLASS => "CLASS",
            TokenType::ELSE => "ELSE",
            TokenType::FALSE => "FALSE",
            TokenType::FUN => "FUN",
            TokenType::FOR => "FOR",
            TokenType::IF => "IF",
            TokenType::NIL => "NIL",
            TokenType::OR => "OR",
            TokenType::PRINT => "PRINT",
            TokenType::RETURN => "RETURN",
            TokenType::SUPER => "SUPER",
            TokenType::THIS => "THIS",
            TokenType::TRUE => "TRUE",
            TokenType::VAR => "VAR",
            TokenType::WHILE => "WHILE",
        }
    }
}

/// One token: its kind, the text it was scanned from, its decoded value
/// where it has one, and the one-based line on which it begins.
#[derive(Debug, Clone, PartialEq, Eq)]
pub struct Token {
    pub token_type: TokenType,
    pub lexeme: String,
    pub literal: Option<Literal>,
    pub line: usize,
}

/// The mathematical content of a [`Token`].
pub struct TokenView {
    pub token_type: TokenType,
    pub lexeme: Seq<char>,
    pub literal: Option<LiteralView>,
    pub line: nat,
}

impl TokenView {
    /// The token of the given kind, text and line; its value is the one
    /// that the text decodes to.
    pub open spec fn of(token_type: TokenType, lexeme: Seq<char>, line: nat) -> TokenView {
        TokenView { token_type, lexeme, literal: literal_of(token_type, lexeme), line }
    }

    /// A token carries a text value exactly when it is a string, a number
    /// value exactly when it is a number, and no value otherwise.
    pub open spec fn well_formed(self) -> bool {
        match self.literal {
            Some(LiteralView::Text(_)) => self.token_type == TokenType::STRING,
            Some(LiteralView::Number(number)) => self.token_type == TokenType::NUMBER
                && number.well_formed(),
            None => !self.token_type.bears_literal(),
        }
    }

    /// The token as one line of text: the kind's name, a space, the lexeme,
    /// a space.
    pub open spec fn display(self) -> Seq<char> {
        self.token_type.spec_name() + seq![' '] + self.lexeme + seq![' ']
    }
}

impl View for Token {
    type V = TokenView;

    open spec fn view(&self) -> TokenView {
        TokenView {
            token_type: self.token_type,
            lexeme: self.lexeme@,
            literal: match self.literal {
                Some(literal) => Some(literal@),
                None => None,
            },
            line: self.line as nat,
        }
    }
}

/// The views of a sequence of tokens, in order.
pub open spec fn token_views(tokens: Seq<Token>) -> Seq<TokenView> {
    tokens.map_values(|token: Token| token@)
}

impl Token {
    /// The token of the given kind, text and line. A string or a number
    /// gets the value that its text decodes to, any other kind none.
    pub fn new(token_type: TokenType, lexeme: String, line: usize) -> (token: Token)
        ensures
            token@ == TokenView::of(token_type, lexeme@, line as nat),
            token@.well_formed(),
    {
        let literal = match token_type {
            TokenType::STRING => {
                let chars = to_chars(lexeme.as_str());
                Some(Literal::Text(decode_string(chars.as_slice())))
            },
            TokenType::NUMBER => {
                let chars = to_chars(lexeme.as_str());
                Some(Literal::Number(decode_number(chars.as_slice())))
            },
            _ => None,
        };
        Token { token_type, lexeme, literal, line }
    }

    /// The token as one line of text: the kind's name, a space, the lexeme,
    /// a space.
    pub fn to_string(&self) -> (text: String)
        ensures
            text@ == self@.display(),
    {
        let mut text = String::from_str(self.token_type.name());
        text.append(" ");
        text.append(self.lexeme.as_str());
        text.append(" ");
        proof {
            reveal_strlit(" ");
        }
        text
    }
}

} // verus!
