//! Checks of the scanner on concrete sources: token classification,
//! lexemes, line counting and lexical errors.
use lisaa::numeral::usize_to_string;
use lisaa::scanner::Scanner;
use lisaa::token::{keyword_lookup, Token, TokenType};

fn scan(source: &str) -> Result<Vec<Token>, String> {
    let mut scanner = Scanner::new(&source.to_string());
    scanner.tokens()
}

fn types(tokens: &[Token]) -> Vec<TokenType> {
    tokens.iter().map(|t| *t.get_type()).collect()
}

#[test]
fn single_and_double_character_operators() {
    let tokens = scan("(){},.-+;*/ ! != = == < <= > >=").unwrap();
    assert_eq!(
        types(&tokens),
        vec![
            TokenType::LeftParen,
            TokenType::RightParen,
            TokenType::LeftBrace,
            TokenType::RightBrace,
            TokenType::COMMA,
            TokenType::DOT,
            TokenType::MINUS,
            TokenType::PLUS,
            TokenType::SEMICOLON,
            TokenType::STAR,
            TokenType::SLASH,
            TokenType::BANG,
            TokenType::BangEqual,
            TokenType::EQUAL,
            TokenType::EqualEqual,
            TokenType::LESS,
            TokenType::LessEqual,
            TokenType::GREATER,
            TokenType::GreaterEqual,
        ]
    );
}

#[test]
fn comments_and_whitespace_are_dropped() {
    let tokens = scan("a // the rest is ignored\nb").unwrap();
    assert_eq!(types(&tokens), vec![TokenType::IDENTIFIER, TokenType::IDENTIFIER]);
    assert_eq!(tokens[0].get_lexeme(), "a");
    assert_eq!(tokens[0].get_line(), 1);
    assert_eq!(tokens[1].get_lexeme(), "b");
    assert_eq!(tokens[1].get_line(), 2);
}

#[test]
fn numbers_keep_their_spelling() {
    let tokens = scan("12 3.5 0.25").unwrap();
    assert_eq!(
        types(&tokens),
        vec![TokenType::NUMBER, TokenType::NUMBER, TokenType::NUMBER]
    );
    assert_eq!(tokens[0].get_lexeme(), "12");
    assert_eq!(tokens[1].get_lexeme(), "3.5");
    assert_eq!(tokens[2].get_lexeme(), "0.25");
}

#[test]
fn trailing_dot_is_a_separate_token() {
    // The fractional part is consumed only when a digit follows the
    // dot immediately.
    let tokens = scan("1.").unwrap();
    assert_eq!(types(&tokens), vec![TokenType::NUMBER, TokenType::DOT]);
    assert_eq!(tokens[0].get_lexeme(), "1");
}

#[test]
fn string_contents_are_verbatim() {
    let tokens = scan("\"hi there\"").unwrap();
    assert_eq!(types(&tokens), vec![TokenType::STRING]);
    assert_eq!(tokens[0].get_lexeme(), "hi there");
}

#[test]
fn multiline_string_counts_lines() {
    let tokens = scan("\"a\nb\" x").unwrap();
    assert_eq!(types(&tokens), vec![TokenType::STRING, TokenType::IDENTIFIER]);
    assert_eq!(tokens[0].get_lexeme(), "a\nb");
    assert_eq!(tokens[0].get_line(), 2);
    assert_eq!(tokens[1].get_line(), 2);
}

#[test]
fn keywords_are_classified() {
    let tokens = scan("fun if else break true false nil").unwrap();
    assert_eq!(
        types(&tokens),
        vec![
            TokenType::FUN,
            TokenType::IF,
            TokenType::ELSE,
            TokenType::BREAK,
            TokenType::TRUE,
            TokenType::FALSE,
            TokenType::NIL,
        ]
    );
}

#[test]
fn keyword_prefix_is_still_an_identifier() {
    let tokens = scan("breaker").unwrap();
    assert_eq!(types(&tokens), vec![TokenType::IDENTIFIER]);
    assert_eq!(tokens[0].get_lexeme(), "breaker");
    assert_eq!(keyword_lookup(&"breaker".to_string()), None);
    assert_eq!(keyword_lookup(&"break".to_string()), Some(TokenType::BREAK));
}

#[test]
fn unexpected_character_is_a_lexical_error() {
    let r = scan("a @ b");
    assert_eq!(r.unwrap_err(), "unexpected token : @");
}

#[test]
fn error_reports_the_current_line() {
    let scanner = Scanner::new(&"x".to_string());
    let r = scanner.error("boom".to_string());
    assert_eq!(r.unwrap_err(), "[line : 1] Error : boom");
}

#[test]
fn decimal_rendering() {
    assert_eq!(usize_to_string(0), "0");
    assert_eq!(usize_to_string(7), "7");
    assert_eq!(usize_to_string(12345), "12345");
    assert_eq!(usize_to_string(1000), "1000");
}
