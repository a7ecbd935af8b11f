use alloy::ast::Ast;
use alloy::checker::Checker;
use alloy::errors::CheckErrorKind;
use alloy::expression::{Expression, ExpressionKind, ExpressionState};
use alloy::lexer::Lexer;
use alloy::module::Module;
use alloy::parser::Parser;
use alloy::span::Span;

fn check_src(src: &str) -> Ast {
    let module = Module::new(String::from(src));
    let lexer = Lexer::new(module);
    let mut parser = Parser::new(lexer);
    let ast = parser.parse().expect("source should parse");
    let mut checker = Checker::new();
    checker.check(ast).expect("source should check")
}

fn check_src_errors(src: &str) -> Vec<alloy::errors::CheckError> {
    let module = Module::new(String::from(src));
    let lexer = Lexer::new(module);
    let mut parser = Parser::new(lexer);
    let ast = parser.parse().expect("source should parse");
    let mut checker = Checker::new();
    match checker.check(ast) {
        Ok(_) => panic!("source should not check"),
        Err(errors) => errors,
    }
}

fn last_type(ast: &Ast) -> (String, usize) {
    let e = &ast.0[ast.0.len() - 1];
    let (name, id) = e.ty();
    (String::from(name), id)
}

#[test]
fn integer_literal_checks_to_int() {
    let ast = check_src("7");
    assert_eq!(last_type(&ast), (String::from("Int"), 2));
}

#[test]
fn underscored_integer_literal_checks_to_int() {
    let ast = check_src("1_000");
    assert_eq!(last_type(&ast), (String::from("Int"), 2));
    match &ast.0[0].kind {
        ExpressionKind::LiteralInt(v) => assert_eq!(*v, 1000),
        other => panic!("expected an integer literal, got {:?}", other),
    }
}

#[test]
fn float_literal_checks_to_float() {
    let ast = check_src("3.25");
    assert_eq!(last_type(&ast), (String::from("Float"), 3));
}

#[test]
fn leading_dot_float_checks_to_float() {
    let ast = check_src(".5");
    assert_eq!(last_type(&ast), (String::from("Float"), 3));
}

#[test]
fn bool_literal_checks_to_bool() {
    let ast = check_src("true");
    assert_eq!(last_type(&ast), (String::from("Bool"), 4));
}

#[test]
fn addition_of_ints_checks_to_int() {
    let ast = check_src("1 + 2");
    assert_eq!(last_type(&ast), (String::from("Int"), 2));
}

#[test]
fn division_always_checks_to_float() {
    let ast = check_src("1 / 2");
    assert_eq!(last_type(&ast), (String::from("Float"), 3));
    let ast2 = check_src("1.0 / 2.5");
    assert_eq!(last_type(&ast2), (String::from("Float"), 3));
}

#[test]
fn mismatched_numeric_operands_promote_to_float() {
    let ast = check_src("1 + 1.0");
    assert_eq!(last_type(&ast), (String::from("Float"), 3));
}

#[test]
fn matching_float_operands_stay_float() {
    let ast = check_src("2.0 * 4.0");
    assert_eq!(last_type(&ast), (String::from("Float"), 3));
}

#[test]
fn comparison_checks_to_bool() {
    let ast = check_src("1 < 2");
    assert_eq!(last_type(&ast), (String::from("Bool"), 4));
}

#[test]
fn equality_of_same_types_checks_to_bool() {
    let ast = check_src("1 == 2");
    assert_eq!(last_type(&ast), (String::from("Bool"), 4));
}

#[test]
fn equality_of_bool_and_int_fails_at_expression_span() {
    let errors = check_src_errors("true == 1");
    assert_eq!(errors.len(), 1);
    match &errors[0].kind {
        CheckErrorKind::TypeMismatch(expected, got) => {
            assert_eq!(expected.as_slice(), &[4]);
            assert_eq!(*got, 2);
        }
        other => panic!("expected a type mismatch, got {:?}", other),
    }
    assert_eq!(errors[0].span, Span(0, 9));
}

#[test]
fn immutable_declaration_and_reference_check_to_int() {
    let ast = check_src("{ x: 1 x }");
    assert_eq!(last_type(&ast), (String::from("Int"), 2));
}

#[test]
fn assignment_to_immutable_variable_fails() {
    let errors = check_src_errors("x: 1 x = 2");
    assert_eq!(errors.len(), 1);
    match &errors[0].kind {
        CheckErrorKind::AssignToConstVariable(name) => assert_eq!(name, "x"),
        other => panic!("expected assign-to-const, got {:?}", other),
    }
}

#[test]
fn mutable_declaration_with_type_allows_assignment() {
    let ast = check_src("x Int = 1 x = 2 x");
    assert_eq!(last_type(&ast), (String::from("Int"), 2));
}

#[test]
fn inner_scope_shadows_outer_binding() {
    let ast = check_src("{ x: 1 y: { x Float = 2.0 x } y }");
    assert_eq!(last_type(&ast), (String::from("Float"), 3));
}

#[test]
fn outer_binding_unaffected_after_block_exit() {
    let ast = check_src("{ x: 1 y: { x Float = 2.0 x } x }");
    assert_eq!(last_type(&ast), (String::from("Int"), 2));
}

#[test]
fn unknown_explicit_type_name_fails() {
    let errors = check_src_errors("x SomeType = 1");
    assert_eq!(errors.len(), 1);
    match &errors[0].kind {
        CheckErrorKind::TypeNameNotFound(name) => assert_eq!(name, "SomeType"),
        other => panic!("expected type-name-not-found, got {:?}", other),
    }
}

#[test]
fn undeclared_identifier_fails_at_its_span() {
    let errors = check_src_errors("y");
    assert_eq!(errors.len(), 1);
    match &errors[0].kind {
        CheckErrorKind::VariableNotFound(name) => assert_eq!(name, "y"),
        other => panic!("expected variable-not-found, got {:?}", other),
    }
    assert_eq!(errors[0].span, Span(0, 1));
}

#[test]
fn not_on_bool_checks_to_bool() {
    let ast = check_src("!true");
    assert_eq!(last_type(&ast), (String::from("Bool"), 4));
}

#[test]
fn not_on_int_fails() {
    let errors = check_src_errors("!1");
    assert_eq!(errors.len(), 1);
    match &errors[0].kind {
        CheckErrorKind::TypeMismatch(expected, got) => {
            assert_eq!(expected.as_slice(), &[4]);
            assert_eq!(*got, 2);
        }
        other => panic!("expected a type mismatch, got {:?}", other),
    }
}

#[test]
fn declared_initializer_must_match_type() {
    let errors = check_src_errors("x Int : 2.5");
    assert_eq!(errors.len(), 1);
    match &errors[0].kind {
        CheckErrorKind::TypeMismatch(expected, got) => {
            assert_eq!(expected.as_slice(), &[2]);
            assert_eq!(*got, 3);
        }
        other => panic!("expected a type mismatch, got {:?}", other),
    }
}

#[test]
fn declaration_itself_has_type_unit() {
    let ast = check_src("x: 1");
    assert_eq!(last_type(&ast), (String::from("Unit"), 1));
}

#[test]
fn empty_block_checks_to_unit() {
    let ast = check_src("{}");
    assert_eq!(last_type(&ast), (String::from("Unit"), 1));
}

#[test]
fn errors_accumulate_across_top_level_expressions() {
    let errors = check_src_errors("y 1 z");
    assert_eq!(errors.len(), 2);
    match &errors[0].kind {
        CheckErrorKind::VariableNotFound(name) => assert_eq!(name, "y"),
        other => panic!("expected variable-not-found, got {:?}", other),
    }
    match &errors[1].kind {
        CheckErrorKind::VariableNotFound(name) => assert_eq!(name, "z"),
        other => panic!("expected variable-not-found, got {:?}", other),
    }
}

#[test]
fn method_call_to_unit_checks_to_unit() {
    let ast = check_src("1.to_unit(2, true)");
    assert_eq!(last_type(&ast), (String::from("Unit"), 1));
}

#[test]
fn unknown_method_fails() {
    let errors = check_src_errors("1.frobnicate()");
    assert_eq!(errors.len(), 1);
    match &errors[0].kind {
        CheckErrorKind::MethodNotFound(name) => assert_eq!(name, "frobnicate"),
        other => panic!("expected method-not-found, got {:?}", other),
    }
}

#[test]
fn known_function_call_checks_to_unit() {
    let call = Expression::new(
        ExpressionKind::FunctionCall {
            name: String::from("to_unit"),
            args: vec![Expression::new(ExpressionKind::LiteralInt(1), Span(0, 1))],
        },
        Span(0, 10),
    );
    let mut checker = Checker::new();
    let checked = checker.check(Ast(vec![call])).expect("call should check");
    assert_eq!(last_type(&checked), (String::from("Unit"), 1));
}

#[test]
fn unknown_function_call_fails() {
    let call = Expression::new(
        ExpressionKind::FunctionCall { name: String::from("frob"), args: vec![] },
        Span(0, 6),
    );
    let mut checker = Checker::new();
    let errors = match checker.check(Ast(vec![call])) {
        Ok(_) => panic!("call should not check"),
        Err(errors) => errors,
    };
    match &errors[0].kind {
        CheckErrorKind::FunctionNotFound(name) => assert_eq!(name, "frob"),
        other => panic!("expected function-not-found, got {:?}", other),
    }
}

#[test]
fn rechecking_annotated_tree_keeps_annotations() {
    let first = check_src("{ x: 1 x + 2 } == 3");
    let mut again = Checker::new();
    let second = again.check(first).expect("annotated tree should check again");
    assert_eq!(last_type(&second), (String::from("Bool"), 4));
    // Every node carries its type, the equality operands included.
    match &second.0[0].kind {
        ExpressionKind::Infix { lh, rh, .. } => {
            assert!(matches!(lh.state, ExpressionState::Checked(_, 2)));
            assert!(matches!(rh.state, ExpressionState::Checked(_, 2)));
        }
        other => panic!("expected an infix node, got {:?}", other),
    }
}

#[test]
fn rechecking_arithmetic_gives_same_types() {
    let first = check_src("1 + 2 * 3");
    let (name1, id1) = {
        let (n, i) = first.0[0].ty();
        (String::from(n), i)
    };
    let mut again = Checker::new();
    let second = again.check(first).expect("annotated tree should check again");
    let (name2, id2) = second.0[0].ty();
    assert_eq!((name1, id1), (String::from(name2), id2));
}

#[test]
fn hint_reaches_only_last_block_expression() {
    // The block's hint (from the declared type) reaches only the final
    // sub-expression; earlier ones are checked unconstrained.
    let ast = check_src("x Float : { 1 2.0 }");
    assert_eq!(last_type(&ast), (String::from("Unit"), 1));
}

#[test]
fn power_of_ints_checks_to_int() {
    let ast = check_src("2 ^ 3");
    assert_eq!(last_type(&ast), (String::from("Int"), 2));
}

#[test]
fn division_nested_in_sum_promotes_the_sum() {
    // The quotient is Float, so the sum has one Int and one Float
    // operand and promotes to Float.
    let ast = check_src("1 + 2 / 3");
    assert_eq!(last_type(&ast), (String::from("Float"), 3));
}

#[test]
fn declaration_initializer_may_use_earlier_bindings() {
    let ast = check_src("a: 1 b: a + 2 b");
    assert_eq!(last_type(&ast), (String::from("Int"), 2));
}

#[test]
fn equality_node_is_annotated_with_checked_operands() {
    let ast = check_src("1 == 2");
    match &ast.0[0].kind {
        ExpressionKind::Infix { lh, rh, .. } => {
            let (lname, lid) = lh.ty();
            let (rname, rid) = rh.ty();
            assert_eq!((lname, lid), ("Int", 2));
            assert_eq!((rname, rid), ("Int", 2));
        }
        other => panic!("expected an infix node, got {:?}", other),
    }
}

#[test]
fn numeric_mismatch_reports_the_found_type() {
    let errors = check_src_errors("true + 1");
    assert_eq!(errors.len(), 1);
    match &errors[0].kind {
        CheckErrorKind::TypeMismatch(expected, got) => {
            assert_eq!(expected.as_slice(), &[2, 3]);
            assert_eq!(*got, 4);
        }
        other => panic!("expected a type mismatch, got {:?}", other),
    }
}

#[test]
fn numeric_operand_with_its_own_error_reports_that_error() {
    let errors = check_src_errors("y + 1");
    assert_eq!(errors.len(), 1);
    match &errors[0].kind {
        CheckErrorKind::VariableNotFound(name) => assert_eq!(name, "y"),
        other => panic!("expected variable-not-found, got {:?}", other),
    }
}

#[test]
fn failing_block_still_restores_the_enclosing_scope() {
    // The block declares `z` and then fails on `y`; its scope dies with
    // it, so the later top-level `z` is undeclared too.
    let errors = check_src_errors("{ z: 1 y } z");
    assert_eq!(errors.len(), 2);
    match &errors[0].kind {
        CheckErrorKind::VariableNotFound(name) => assert_eq!(name, "y"),
        other => panic!("expected variable-not-found, got {:?}", other),
    }
    match &errors[1].kind {
        CheckErrorKind::VariableNotFound(name) => assert_eq!(name, "z"),
        other => panic!("expected variable-not-found, got {:?}", other),
    }
}
