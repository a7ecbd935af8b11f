use alloy::module::Module;
use alloy::peeker::Peeker;
use alloy::precedence::Precedence;
use alloy::scope::{Scope, ScopeManager, BOOL_TYPE_ID, FLOAT_TYPE_ID, INT_TYPE_ID, UNIT_TYPE_ID};
use alloy::span::Span;
use alloy::text::{check_float_text, has_dot, parse_int_text, str_eq};
use alloy::token::TokenKind;

#[test]
fn span_from_range_and_union() {
    let a = Span::from_range(1, 4);
    let b = Span::from_range(6, 9);
    assert_eq!(a.to(&b), Span(1, 9));
}

#[test]
fn peeker_walks_items_in_order() {
    let mut p = Peeker::new(vec![10, 20, 30]);
    assert_eq!(p.peek(), Some((10, 0)));
    assert_eq!(p.next(), Some((10, 0)));
    assert_eq!(p.peek_ahead(1), Some((30, 2)));
    assert_eq!(p.next(), Some((20, 1)));
    assert_eq!(p.next(), Some((30, 2)));
    assert_eq!(p.next(), None);
    assert_eq!(p.peek(), None);
    assert_eq!(p.all().len(), 3);
}

#[test]
fn precedence_levels_are_ordered() {
    let levels = [
        Precedence::Lowest,
        Precedence::Equality,
        Precedence::Comparison,
        Precedence::Sum,
        Precedence::Product,
        Precedence::Order,
        Precedence::Group,
        Precedence::Prefix,
    ];
    for w in levels.windows(2) {
        assert!(w[0].level() < w[1].level());
    }
}

#[test]
fn precedence_of_maps_operators() {
    assert_eq!(Precedence::of(&TokenKind::Plus).level(), Precedence::Sum.level());
    assert_eq!(Precedence::of(&TokenKind::Slash).level(), Precedence::Product.level());
    assert_eq!(Precedence::of(&TokenKind::Caret).level(), Precedence::Order.level());
    assert_eq!(Precedence::of(&TokenKind::DoubleEquals).level(), Precedence::Equality.level());
    assert_eq!(Precedence::of(&TokenKind::LessThan).level(), Precedence::Comparison.level());
    assert_eq!(Precedence::of(&TokenKind::Ident).level(), Precedence::Lowest.level());
}

#[test]
fn module_slices_by_character_offsets() {
    let m = Module::new(String::from("hello world"));
    assert_eq!(m.ln(), 11);
    assert_eq!(m.slice(0, 5), "hello");
    assert_eq!(m.span_slice(&Span(6, 11)), "world");
}

#[test]
fn scope_manager_seeds_builtin_types() {
    let sm = ScopeManager::new();
    let unit = sm.get_type(UNIT_TYPE_ID, sm.cur).expect("Unit exists");
    let int = sm.get_type(INT_TYPE_ID, sm.cur).expect("Int exists");
    let float = sm.get_type(FLOAT_TYPE_ID, sm.cur).expect("Float exists");
    let boolean = sm.get_type(BOOL_TYPE_ID, sm.cur).expect("Bool exists");
    assert_eq!(unit.name, "Unit");
    assert_eq!(int.name, "Int");
    assert_eq!(float.name, "Float");
    assert_eq!(boolean.name, "Bool");
    assert_eq!(sm.lookup_type("Int", sm.cur).expect("Int by name").id, INT_TYPE_ID);
    assert!(sm.lookup_type("Missing", sm.cur).is_none());
}

#[test]
fn scope_chain_finds_outer_variables() {
    let mut sm = ScopeManager::new();
    sm.add_var("x", INT_TYPE_ID, false);
    let outer = sm.cur;
    let inner = sm.create_scope(outer);
    sm.cur = inner;
    assert_eq!(sm.lookup_var("x", inner).expect("x visible from inner").type_id, INT_TYPE_ID);
    sm.add_var("x", FLOAT_TYPE_ID, true);
    let shadowed = sm.lookup_var("x", inner).expect("inner x wins");
    assert_eq!(shadowed.type_id, FLOAT_TYPE_ID);
    assert!(shadowed.mutable);
    let outer_x = sm.lookup_var("x", outer).expect("outer x unchanged");
    assert_eq!(outer_x.type_id, INT_TYPE_ID);
    assert!(!outer_x.mutable);
    assert!(sm.lookup_var("y", inner).is_none());
}

#[test]
fn nominal_subtyping_follows_parent_links() {
    let mut sm = ScopeManager::new();
    sm.add_type("Meters", INT_TYPE_ID);
    let meters = sm.lookup_type("Meters", sm.cur).expect("Meters exists").id;
    sm.add_type("Centimeters", meters);
    let centimeters = sm.lookup_type("Centimeters", sm.cur).expect("Centimeters exists").id;
    assert!(sm.is_child_type(centimeters, centimeters));
    assert!(sm.is_child_type(centimeters, meters));
    assert!(sm.is_child_type(centimeters, INT_TYPE_ID));
    assert!(sm.is_child_type(meters, INT_TYPE_ID));
    assert!(!sm.is_child_type(INT_TYPE_ID, meters));
    assert!(!sm.is_child_type(centimeters, FLOAT_TYPE_ID));
}

#[test]
fn scope_child_points_at_parent() {
    let s = Scope::child(3, 1);
    assert_eq!(s.id, 3);
    assert_eq!(s.parent, Some(1));
}

#[test]
fn created_scopes_get_fresh_ids() {
    let mut sm = ScopeManager::new();
    let a = sm.create_scope(sm.cur);
    let b = sm.create_scope(a);
    assert_eq!(a, 2);
    assert_eq!(b, 3);
}

#[test]
fn str_eq_compares_characters() {
    assert!(str_eq("abc", "abc"));
    assert!(!str_eq("abc", "abd"));
    assert!(!str_eq("abc", "ab"));
    assert!(str_eq("", ""));
}

#[test]
fn parse_int_text_reads_digits_and_separators() {
    assert_eq!(parse_int_text("0"), Some(0));
    assert_eq!(parse_int_text("1_234"), Some(1234));
    assert_eq!(parse_int_text("9223372036854775807"), Some(isize::MAX));
    assert_eq!(parse_int_text("9223372036854775808"), None);
    assert_eq!(parse_int_text(""), None);
    assert_eq!(parse_int_text("_"), None);
    assert_eq!(parse_int_text("12a"), None);
}

#[test]
fn float_text_classification() {
    assert!(has_dot("1.5"));
    assert!(!has_dot("15"));
    assert!(check_float_text("1.5"));
    assert!(check_float_text("1_000.25"));
    assert!(check_float_text(".5"));
    assert!(check_float_text("5."));
    assert!(!check_float_text("1.2.3"));
    assert!(!check_float_text("."));
    assert!(!check_float_text("1"));
}
