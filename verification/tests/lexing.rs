use alloy::lexer::Lexer;
use alloy::module::Module;
use alloy::span::Span;
use alloy::token::{Token, TokenKind};

fn lex(src: &str) -> Vec<Token> {
    let lexer = Lexer::new(Module::new(String::from(src)));
    lexer.get_peeker().all().clone()
}

fn kinds(src: &str) -> Vec<TokenKind> {
    lex(src).iter().map(|t| t.kind).collect()
}

#[test]
fn single_character_operators_lex() {
    assert_eq!(
        kinds("+ - * / ^"),
        vec![
            TokenKind::Plus,
            TokenKind::Minus,
            TokenKind::Asterisk,
            TokenKind::Slash,
            TokenKind::Caret,
        ]
    );
}

#[test]
fn two_character_operators_lex() {
    assert_eq!(
        kinds("== != <= >= < > ="),
        vec![
            TokenKind::DoubleEquals,
            TokenKind::NotEquals,
            TokenKind::LessThanOrEqual,
            TokenKind::GreaterThanOrEqual,
            TokenKind::LessThan,
            TokenKind::GreaterThan,
            TokenKind::Equals,
        ]
    );
}

#[test]
fn punctuation_lexes() {
    assert_eq!(
        kinds("{ } ( ) : , !"),
        vec![
            TokenKind::LBrace,
            TokenKind::RBrace,
            TokenKind::LParen,
            TokenKind::RParen,
            TokenKind::Colon,
            TokenKind::Comma,
            TokenKind::Exclamation,
        ]
    );
}

#[test]
fn keywords_and_identifiers_lex() {
    assert_eq!(
        kinds("true false type truth x_1"),
        vec![
            TokenKind::Boolean,
            TokenKind::Boolean,
            TokenKind::Type,
            TokenKind::Ident,
            TokenKind::Ident,
        ]
    );
}

#[test]
fn numbers_lex_with_separators_and_dot() {
    assert_eq!(kinds("1 1_000 2.5 .5"), vec![
        TokenKind::Number,
        TokenKind::Number,
        TokenKind::Number,
        TokenKind::Number,
    ]);
}

#[test]
fn dot_without_digit_is_a_dot_token() {
    assert_eq!(kinds("1.x"), vec![TokenKind::Number, TokenKind::Dot, TokenKind::Ident]);
}

#[test]
fn number_stops_at_second_lone_dot() {
    // `1.2.x`: the literal takes `1.2`; the second dot stands alone.
    assert_eq!(kinds("1.2.x"), vec![TokenKind::Number, TokenKind::Dot, TokenKind::Ident]);
}

#[test]
fn spans_are_character_offsets() {
    let tokens = lex("ab + 12");
    assert_eq!(tokens[0].span, Span(0, 2));
    assert_eq!(tokens[1].span, Span(3, 4));
    assert_eq!(tokens[2].span, Span(5, 7));
}

#[test]
fn comment_runs_to_line_end() {
    let tokens = lex("# hi\n42");
    assert_eq!(tokens[0].kind, TokenKind::Comment);
    assert_eq!(tokens[0].span, Span(0, 5));
    assert_eq!(tokens[1].kind, TokenKind::Number);
    assert_eq!(tokens[1].span, Span(5, 7));
}

#[test]
fn comment_at_end_of_text_lexes() {
    let tokens = lex("1 # trailing");
    assert_eq!(tokens.len(), 2);
    assert_eq!(tokens[1].kind, TokenKind::Comment);
}

#[test]
fn unknown_character_is_illegal() {
    assert_eq!(kinds("@"), vec![TokenKind::Illegal]);
}

#[test]
fn whitespace_only_text_lexes_to_nothing() {
    assert!(lex("  \t\n  ").is_empty());
}

#[test]
fn token_new_builds_span_from_length() {
    let t = Token::new(TokenKind::Ident, 4, 3);
    assert_eq!(t.kind, TokenKind::Ident);
    assert_eq!(t.span, Span(4, 7));
}
