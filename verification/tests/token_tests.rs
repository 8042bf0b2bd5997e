use token_scanner::chars::{
    digit_value, is_alpha, is_alphanumeric, is_digit, is_whitespace, skip_run, CharClass,
};
use token_scanner::grammar::{operator, punctuation};
use token_scanner::scanner::{followed_by, line_after, lookup_keyword, peek, scan_number, spells};
use token_scanner::text::{collect_text, to_chars};
use token_scanner::literal::{decode_number, decode_string, push_digits, Decimal, Literal};
use token_scanner::token::{Token, TokenType};

fn chars(text: &str) -> Vec<char> {
    text.chars().collect()
}

#[test]
fn a_token_prints_its_kind_and_its_lexeme() {
    let token = Token::new(TokenType::LEFTPAREN, "(".to_string(), 1);
    assert_eq!(token.to_string(), "LEFTPAREN ( ");
    let token = Token::new(TokenType::IDENTIFIER, "count".to_string(), 12);
    assert_eq!(token.to_string(), "IDENTIFIER count ");
    let token = Token::new(TokenType::EOF, String::new(), 3);
    assert_eq!(token.to_string(), "EOF  ");
}

#[test]
fn a_new_token_keeps_what_it_was_given() {
    let token = Token::new(TokenType::BANGEQUAL, "!=".to_string(), 7);
    assert_eq!(token.token_type, TokenType::BANGEQUAL);
    assert_eq!(token.lexeme, "!=");
    assert_eq!(token.literal, None);
    assert_eq!(token.line, 7);
}

#[test]
fn a_new_literal_token_decodes_its_lexeme() {
    let token = Token::new(TokenType::STRING, "\"hi\"".to_string(), 1);
    assert_eq!(token.literal, Some(Literal::Text("hi".to_string())));
    assert_eq!(token.lexeme, "\"hi\"");
    let token = Token::new(TokenType::NUMBER, "10.25".to_string(), 1);
    assert_eq!(
        token.literal,
        Some(Literal::Number(Decimal { digits: vec![1, 0, 2, 5], scale: 2 }))
    );
    let token = Token::new(TokenType::IDENTIFIER, "\"hi\"".to_string(), 1);
    assert_eq!(token.literal, None);
}

#[test]
fn kind_names() {
    assert_eq!(TokenType::LEFTPAREN.name(), "LEFTPAREN");
    assert_eq!(TokenType::GREATEREQUAL.name(), "GREATEREQUAL");
    assert_eq!(TokenType::EOF.name(), "EOF");
    assert_eq!(TokenType::WHILE.name(), "WHILE");
    let all = [
        TokenType::LEFTPAREN,
        TokenType::RIGHTPAREN,
        TokenType::LEFTBRACE,
        TokenType::RIGHTBRACE,
        TokenType::COMMA,
        TokenType::DOT,
        TokenType::MINUS,
        TokenType::PLUS,
        TokenType::SEMICOLON,
        TokenType::STAR,
        TokenType::BANG,
        TokenType::BANGEQUAL,
        TokenType::EQUAL,
        TokenType::EQUALEQUAL,
        TokenType::GREATER,
        TokenType::GREATEREQUAL,
        TokenType::LESS,
        TokenType::LESSEQUAL,
        TokenType::EOF,
        TokenType::SLASH,
        TokenType::IDENTIFIER,
        TokenType::STRING,
        TokenType::NUMBER,
        TokenType::AND,
        TokenType::CLASS,
        TokenType::ELSE,
        TokenType::FALSE,
        TokenType::FUN,
        TokenType::FOR,
        TokenType::IF,
        TokenType::NIL,
        TokenType::OR,
        TokenType::PRINT,
        TokenType::RETURN,
        TokenType::SUPER,
        TokenType::THIS,
        TokenType::TRUE,
        TokenType::VAR,
        TokenType::WHILE,
    ];
    for kind in all {
        assert_eq!(kind.name(), format!("{:?}", kind));
    }
}

#[test]
fn decoding_a_number() {
    assert_eq!(decode_number(&chars("3.14")), Decimal { digits: vec![3, 1, 4], scale: 2 });
    assert_eq!(decode_number(&chars("0")), Decimal { digits: vec![0], scale: 0 });
    assert_eq!(decode_number(&chars("120")), Decimal { digits: vec![1, 2, 0], scale: 0 });
    assert_eq!(decode_number(&chars("0.001")), Decimal { digits: vec![0, 0, 0, 1], scale: 3 });
    assert_eq!(decode_number(&chars("")), Decimal { digits: vec![], scale: 0 });
}

#[test]
fn decoding_a_string() {
    assert_eq!(decode_string(&chars("\"abc\"")), "abc");
    assert_eq!(decode_string(&chars("\"\"")), "");
    assert_eq!(decode_string(&chars("\"")), "");
    assert_eq!(decode_string(&chars("")), "");
}

#[test]
fn character_classes() {
    assert!(is_digit('0') && is_digit('9') && !is_digit('a') && !is_digit('/') && !is_digit(':'));
    assert!(is_alpha('a') && is_alpha('z') && is_alpha('A') && is_alpha('Z') && is_alpha('_'));
    assert!(!is_alpha('0') && !is_alpha('[') && !is_alpha('`') && !is_alpha('{') && !is_alpha('é'));
    assert!(is_alphanumeric('q') && is_alphanumeric('7') && !is_alphanumeric('-'));
    assert!(is_whitespace(' ') && is_whitespace('\t') && is_whitespace('\r'));
    assert!(is_whitespace('\n') && !is_whitespace('x'));
    assert_eq!(digit_value('0'), Some(0));
    assert_eq!(digit_value('7'), Some(7));
    assert_eq!(digit_value('9'), Some(9));
    assert_eq!(digit_value('x'), None);
    assert!(CharClass::LineRest.contains('"') && !CharClass::LineRest.contains('\n'));
    assert!(CharClass::StringBody.contains('\n') && !CharClass::StringBody.contains('"'));
    assert!(CharClass::Word.contains('_') && !CharClass::Word.contains(' '));
    assert!(CharClass::Digit.contains('5') && !CharClass::Digit.contains('_'));
}

#[test]
fn a_run_is_as_long_as_it_can_be() {
    let text = chars("123abc 9");
    assert_eq!(skip_run(&text, 0, CharClass::Digit), 3);
    assert_eq!(skip_run(&text, 0, CharClass::Word), 6);
    assert_eq!(skip_run(&text, 3, CharClass::Digit), 3);
    assert_eq!(skip_run(&text, 7, CharClass::Digit), 8);
    assert_eq!(skip_run(&text, 8, CharClass::Digit), 8);
    assert_eq!(skip_run(&text, 0, CharClass::LineRest), 8);
}

#[test]
fn text_and_characters_convert_both_ways() {
    assert_eq!(to_chars("aé\n"), vec!['a', 'é', '\n']);
    assert_eq!(to_chars(""), Vec::<char>::new());
    assert_eq!(collect_text(&['a', 'é', '\n']), "aé\n");
    assert_eq!(collect_text(&[]), "");
}

#[test]
fn spelling_and_reserved_words() {
    assert!(spells(&chars("and"), "and"));
    assert!(!spells(&chars("an"), "and"));
    assert!(!spells(&chars("andy"), "and"));
    assert!(!spells(&chars("ant"), "and"));
    assert!(spells(&chars(""), ""));
    assert_eq!(lookup_keyword(&chars("while")), Some(TokenType::WHILE));
    assert_eq!(lookup_keyword(&chars("While")), None);
    assert_eq!(lookup_keyword(&chars("")), None);
    assert_eq!(peek(&chars("ab"), 1), Some('b'));
    assert_eq!(peek(&chars("ab"), 2), None);
}

#[test]
fn looking_one_character_ahead() {
    let text = chars("!=");
    assert!(followed_by(&text, 0, '='));
    assert!(!followed_by(&text, 0, '!'));
    assert!(!followed_by(&text, 1, '='));
    assert!(!followed_by(&text, 2, '='));
    assert!(!followed_by(&text, usize::MAX, '='));
}

#[test]
fn where_a_number_ends() {
    assert_eq!(scan_number(&chars("123"), 0), 3);
    assert_eq!(scan_number(&chars("1.5+2"), 0), 3);
    assert_eq!(scan_number(&chars("1.+2"), 0), 1);
    assert_eq!(scan_number(&chars("1."), 0), 1);
    assert_eq!(scan_number(&chars("1.5.7"), 0), 3);
    assert_eq!(scan_number(&chars("x = 42;"), 4), 6);
    assert_eq!(scan_number(&chars("7"), 1), 1);
}

#[test]
fn counting_lines_between_two_positions() {
    let text = chars("a\nb\n\nc");
    assert_eq!(line_after(&text, 0, 0, 1), 1);
    assert_eq!(line_after(&text, 0, 1, 1), 1);
    assert_eq!(line_after(&text, 0, 2, 1), 2);
    assert_eq!(line_after(&text, 2, 6, 2), 4);
    assert_eq!(line_after(&text, 0, 6, 1), 4);
}

#[test]
fn single_characters_and_operators() {
    assert_eq!(punctuation('('), Some(TokenType::LEFTPAREN));
    assert_eq!(punctuation(';'), Some(TokenType::SEMICOLON));
    assert_eq!(punctuation('/'), None);
    assert_eq!(punctuation('!'), None);
    assert_eq!(operator('!'), Some((TokenType::BANG, TokenType::BANGEQUAL)));
    assert_eq!(operator('='), Some((TokenType::EQUAL, TokenType::EQUALEQUAL)));
    assert_eq!(operator('<'), Some((TokenType::LESS, TokenType::LESSEQUAL)));
    assert_eq!(operator('>'), Some((TokenType::GREATER, TokenType::GREATEREQUAL)));
    assert_eq!(operator('+'), None);
}

#[test]
fn collecting_the_digits_of_a_stretch() {
    let text = chars("a1b22.5");
    let mut digits = vec![9];
    assert_eq!(push_digits(&text, 0, 5, &mut digits), 3);
    assert_eq!(digits, vec![9, 1, 2, 2]);
    assert_eq!(push_digits(&text, 5, 7, &mut digits), 1);
    assert_eq!(digits, vec![9, 1, 2, 2, 5]);
    assert_eq!(push_digits(&text, 3, 3, &mut digits), 0);
    assert_eq!(digits, vec![9, 1, 2, 2, 5]);
}
