use alloy::ast::{Ast, AstError};
use alloy::expression::{ExpressionKind, InfixOp, PrefixOp};
use alloy::lexer::Lexer;
use alloy::module::Module;
use alloy::parser::Parser;
use alloy::span::Span;
use alloy::token::TokenKind;

fn parse_src(src: &str) -> Result<Ast, AstError> {
    let module = Module::new(String::from(src));
    let lexer = Lexer::new(module);
    let mut parser = Parser::new(lexer);
    parser.parse()
}

fn parse_one(src: &str) -> alloy::expression::Expression {
    let mut ast = parse_src(src).expect("source should parse");
    assert_eq!(ast.0.len(), 1);
    ast.0.remove(0)
}

#[test]
fn addition_parses_to_infix_add_of_two_int_literals() {
    let e = parse_one("1 + 2");
    match e.kind {
        ExpressionKind::Infix { op, lh, rh } => {
            assert!(matches!(op, InfixOp::Add));
            assert!(matches!(lh.kind, ExpressionKind::LiteralInt(1)));
            assert!(matches!(rh.kind, ExpressionKind::LiteralInt(2)));
        }
        other => panic!("expected an infix node, got {:?}", other),
    }
    assert_eq!(e.span, Span(0, 5));
}

#[test]
fn product_binds_tighter_than_sum() {
    let e = parse_one("1 + 2 * 3");
    match e.kind {
        ExpressionKind::Infix { op: InfixOp::Add, rh, .. } => match rh.kind {
            ExpressionKind::Infix { op: InfixOp::Multiply, .. } => {}
            other => panic!("expected a product on the right, got {:?}", other),
        },
        other => panic!("expected a sum at the top, got {:?}", other),
    }
}

#[test]
fn sum_is_left_associative() {
    let e = parse_one("1 - 2 - 3");
    match e.kind {
        ExpressionKind::Infix { op: InfixOp::Subtract, lh, rh } => {
            assert!(matches!(lh.kind, ExpressionKind::Infix { op: InfixOp::Subtract, .. }));
            assert!(matches!(rh.kind, ExpressionKind::LiteralInt(3)));
        }
        other => panic!("expected a difference at the top, got {:?}", other),
    }
}

#[test]
fn comparison_binds_looser_than_sum() {
    let e = parse_one("1 + 2 < 4");
    assert!(matches!(e.kind, ExpressionKind::Infix { op: InfixOp::LessThan, .. }));
}

#[test]
fn float_literal_keeps_its_text() {
    let e = parse_one("2.5");
    match e.kind {
        ExpressionKind::LiteralFloat(text) => assert_eq!(text, "2.5"),
        other => panic!("expected a float literal, got {:?}", other),
    }
}

#[test]
fn underscores_are_grouping_separators() {
    let e = parse_one("1_234_567");
    assert!(matches!(e.kind, ExpressionKind::LiteralInt(1234567)));
}

#[test]
fn prefix_not_parses() {
    let e = parse_one("!false");
    match e.kind {
        ExpressionKind::Prefix { op, rh } => {
            assert!(matches!(op, PrefixOp::Not));
            assert!(matches!(rh.kind, ExpressionKind::LiteralBool(false)));
        }
        other => panic!("expected a prefix node, got {:?}", other),
    }
}

#[test]
fn block_parses_with_span_of_braces() {
    let e = parse_one("{ 1 2 }");
    match e.kind {
        ExpressionKind::Block(items) => assert_eq!(items.len(), 2),
        other => panic!("expected a block, got {:?}", other),
    }
    assert_eq!(e.span, Span(0, 7));
}

#[test]
fn empty_block_parses() {
    let e = parse_one("{}");
    match e.kind {
        ExpressionKind::Block(items) => assert!(items.is_empty()),
        other => panic!("expected a block, got {:?}", other),
    }
}

#[test]
fn immutable_declaration_parses() {
    let e = parse_one("x: 1");
    match e.kind {
        ExpressionKind::VariableDecl { name, value, mutable, ty } => {
            assert_eq!(name, "x");
            assert!(!mutable);
            assert!(ty.is_none());
            assert!(matches!(value.kind, ExpressionKind::LiteralInt(1)));
        }
        other => panic!("expected a declaration, got {:?}", other),
    }
}

#[test]
fn typed_mutable_declaration_parses() {
    let e = parse_one("x Int = 1");
    match e.kind {
        ExpressionKind::VariableDecl { name, mutable, ty, .. } => {
            assert_eq!(name, "x");
            assert!(mutable);
            assert_eq!(ty.expect("a type name").0, "Int");
        }
        other => panic!("expected a declaration, got {:?}", other),
    }
}

#[test]
fn typed_immutable_declaration_parses() {
    let e = parse_one("x Float : 2.0");
    match e.kind {
        ExpressionKind::VariableDecl { mutable, ty, .. } => {
            assert!(!mutable);
            assert_eq!(ty.expect("a type name").0, "Float");
        }
        other => panic!("expected a declaration, got {:?}", other),
    }
}

#[test]
fn assignment_parses() {
    let e = parse_one("x = 2");
    match e.kind {
        ExpressionKind::VariableAssignment { name, value } => {
            assert_eq!(name, "x");
            assert!(matches!(value.kind, ExpressionKind::LiteralInt(2)));
        }
        other => panic!("expected an assignment, got {:?}", other),
    }
}

#[test]
fn bare_identifier_parses_to_reference() {
    let e = parse_one("abc");
    match e.kind {
        ExpressionKind::Ident(name) => assert_eq!(name, "abc"),
        other => panic!("expected a reference, got {:?}", other),
    }
}

#[test]
fn method_call_parses_with_receiver() {
    let e = parse_one("1.to_unit(2, true)");
    match e.kind {
        ExpressionKind::MethodCall { caller, name, args } => {
            assert!(matches!(caller.kind, ExpressionKind::LiteralInt(1)));
            assert_eq!(name, "to_unit");
            assert_eq!(args.len(), 2);
        }
        other => panic!("expected a method call, got {:?}", other),
    }
}

#[test]
fn method_call_allows_no_arguments() {
    let e = parse_one("true.to_unit()");
    match e.kind {
        ExpressionKind::MethodCall { args, .. } => assert!(args.is_empty()),
        other => panic!("expected a method call, got {:?}", other),
    }
}

#[test]
fn comments_are_skipped_before_primaries() {
    let ast = parse_src("# note\n1").expect("source should parse");
    assert_eq!(ast.0.len(), 1);
    assert!(matches!(ast.0[0].kind, ExpressionKind::LiteralInt(1)));
}

#[test]
fn empty_source_parses_to_empty_tree() {
    let ast = parse_src("").expect("source should parse");
    assert!(ast.0.is_empty());
}

#[test]
fn operator_without_left_operand_is_no_prefix_parse() {
    match parse_src("+ 1") {
        Err(AstError::NoPrefixParse(token)) => assert_eq!(token.kind, TokenKind::Plus),
        other => panic!("expected a no-prefix-parse error, got {:?}", other),
    }
}

#[test]
fn missing_right_operand_is_unexpected_eof() {
    match parse_src("1 +") {
        Err(AstError::UnexpectedEof) => {}
        other => panic!("expected an end-of-stream error, got {:?}", other),
    }
}

#[test]
fn declaration_without_marker_is_expected_error() {
    match parse_src("x Int 5") {
        Err(AstError::Expected(token, kinds)) => {
            assert_eq!(token.kind, TokenKind::Ident);
            assert_eq!(kinds, vec![TokenKind::Colon, TokenKind::Equals]);
        }
        other => panic!("expected an expected-kinds error, got {:?}", other),
    }
}

#[test]
fn oversized_integer_literal_is_syntax_error() {
    match parse_src("99999999999999999999999999") {
        Err(AstError::Syntax(token, msg)) => {
            assert_eq!(token.kind, TokenKind::Number);
            assert_eq!(msg, "syntax error: invalid int");
        }
        other => panic!("expected a syntax error, got {:?}", other),
    }
}

#[test]
fn two_dots_in_number_is_syntax_error() {
    match parse_src(".1.2") {
        Err(AstError::Syntax(token, msg)) => {
            assert_eq!(token.kind, TokenKind::Number);
            assert_eq!(msg, "syntax error: invalid float");
        }
        other => panic!("expected a syntax error, got {:?}", other),
    }
}

#[test]
fn block_as_continuation_is_illegal_token() {
    match parse_src("1 {2}") {
        Err(AstError::Syntax(token, msg)) => {
            assert_eq!(token.kind, TokenKind::LBrace);
            assert_eq!(msg, "syntax error: illegal token found");
        }
        other => panic!("expected a syntax error, got {:?}", other),
    }
}

#[test]
fn unterminated_block_is_unexpected_eof() {
    match parse_src("{ 1") {
        Err(AstError::UnexpectedEof) => {}
        other => panic!("expected an end-of-stream error, got {:?}", other),
    }
}

#[test]
fn power_is_left_associative() {
    let e = parse_one("2 ^ 3 ^ 4");
    match e.kind {
        ExpressionKind::Infix { op: InfixOp::Power, lh, rh } => {
            assert!(matches!(lh.kind, ExpressionKind::Infix { op: InfixOp::Power, .. }));
            assert!(matches!(rh.kind, ExpressionKind::LiteralInt(4)));
        }
        other => panic!("expected a power at the top, got {:?}", other),
    }
}

#[test]
fn comment_before_right_operand_is_skipped() {
    let e = parse_one("1 + # note\n 2");
    match e.kind {
        ExpressionKind::Infix { op: InfixOp::Add, rh, .. } => {
            assert!(matches!(rh.kind, ExpressionKind::LiteralInt(2)));
        }
        other => panic!("expected a sum, got {:?}", other),
    }
}

#[test]
fn method_call_span_starts_at_receiver() {
    let e = parse_one("1.to_unit()");
    assert_eq!(e.span, Span(0, 11));
}
