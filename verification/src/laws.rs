use vstd::prelude::*;

use crate::checker::{
    annot, spec_check, spec_check_seq, spec_check_top, spec_try_types, CheckOutcome, SeqOutcome,
    TopOutcome, TryOutcome,
};
use crate::errors::{CheckErrorKindView, CheckErrorView};
use crate::expression::{ExprKindView, ExprView, StateView};
use crate::parser::{spec_parse_number, token_text, ParseOutcome};
use crate::scope::{SmView, FLOAT_TYPE_ID, INT_TYPE_ID, BOOL_TYPE_ID};
use crate::text::dot_count;
use crate::token::Token;

verus! {

/// A type found by id on a scope chain is always the record the id
/// indexes: the walk only decides whether it is visible, never which
/// record it is.
pub proof fn lemma_get_type_indexed(sm: SmView, ty_id: int, scope_id: int)
    ensures
        sm.get_type_spec(ty_id, scope_id) matches Some(t) ==> {
            &&& 1 <= ty_id <= sm.types.len()
            &&& t == sm.types[ty_id - 1]
        },
    decreases scope_id,
{
    if 0 <= scope_id < sm.scopes.len() {
        if !(1 <= ty_id <= sm.types.len() && sm.types[ty_id - 1].scope_id == scope_id) {
            match sm.scopes[scope_id].parent {
                Some(p) => {
                    if 0 <= p < scope_id {
                        lemma_get_type_indexed(sm, ty_id, p);
                    }
                },
                None => {},
            }
        }
    }
}

/// A type owned by the global scope is found from every existing scope:
/// every parent chain of a well-formed scope manager reaches the root.
pub proof fn lemma_builtin_type_found(sm: SmView, ty_id: int, scope_id: int)
    requires
        sm.wf(),
        1 <= ty_id <= sm.types.len(),
        sm.types[ty_id - 1].scope_id == 0,
        0 <= scope_id < sm.scopes.len(),
    ensures
        sm.get_type_spec(ty_id, scope_id) == Some(sm.types[ty_id - 1]),
    decreases scope_id,
{
    if scope_id != 0 {
        match sm.scopes[scope_id].parent {
            Some(p) => {
                lemma_builtin_type_found(sm, ty_id, p);
            },
            None => {},
        }
    }
}

/// The session `s2` extends the session `sm`: both tables only grew,
/// what existed is unchanged, and every variable registered since was
/// registered under `sm.cur` or under a scope opened since.
pub open spec fn session_extends(sm: SmView, s2: SmView) -> bool {
    &&& s2.scopes.len() >= sm.scopes.len()
    &&& forall|i: int| 0 <= i < sm.scopes.len() ==> #[trigger] s2.scopes[i] == sm.scopes[i]
    &&& s2.vars.len() >= sm.vars.len()
    &&& forall|i: int| 0 <= i < sm.vars.len() ==> #[trigger] s2.vars[i] == sm.vars[i]
    &&& forall|i: int|
        sm.vars.len() <= i < s2.vars.len() ==> (#[trigger] s2.vars[i]).scope_id >= sm.cur
}

/// Extension is transitive across two phases of one rule, which share
/// the cursor.
pub proof fn lemma_session_extends_trans(a: SmView, b: SmView, c: SmView)
    requires
        session_extends(a, b),
        session_extends(b, c),
        b.cur == a.cur,
    ensures
        session_extends(a, c),
{
    assert forall|i: int|
        a.vars.len() <= i < c.vars.len() implies (#[trigger] c.vars[i]).scope_id >= a.cur by {
        if i < b.vars.len() {
            assert(c.vars[i] == b.vars[i]);
        }
    }
}

/// Registering a variable under the current scope keeps the session
/// well-formed.
pub proof fn lemma_add_var_keeps_wf(sm: SmView, name: Seq<char>, ty_id: int, mutable: bool)
    requires
        sm.wf(),
    ensures
        sm.add_var_spec(name, ty_id, mutable).wf(),
{
}

/// Opening a child scope of the current one and moving the cursor into
/// it keeps the session well-formed.
pub proof fn lemma_enter_block_scope_keeps_wf(sm: SmView)
    requires
        sm.wf(),
    ensures
        sm.create_scope_spec(sm.cur).with_cur(sm.scopes.len() as int).wf(),
{
}

/// Checking never touches the type table, never removes a scope, and
/// always leaves the cursor where it found it: an attempt may open
/// scopes and register variables under them, but the types that names
/// resolve to stay fixed, the session stays well-formed, what existed
/// before is unchanged, and the block rule restores the enclosing scope
/// whether it succeeds or fails.
pub proof fn lemma_check_keeps_types(sm: SmView, e: ExprView, hint: Option<int>)
    requires
        sm.wf(),
    ensures
        match spec_check(sm, e, hint) {
            CheckOutcome::Done(_, s2) => s2.types == sm.types && s2.cur == sm.cur && s2.wf()
                && session_extends(sm, s2),
            CheckOutcome::Fail(_, s2) => s2.types == sm.types && s2.cur == sm.cur && s2.wf()
                && session_extends(sm, s2),
        },
    decreases e, 0int, 0int,
{
    match e.kind {
        ExprKindView::Prefix { op, rh } => {
            lemma_check_keeps_types(sm, *rh, Some(BOOL_TYPE_ID as int));
        },
        ExprKindView::Infix { op, lh, rh } => {
            let hints = seq![INT_TYPE_ID as int, FLOAT_TYPE_ID as int];
            match op {
                crate::expression::InfixOp::Equals | crate::expression::InfixOp::NotEquals => {
                    lemma_check_keeps_types(sm, *lh, None);
                    match spec_check(sm, *lh, None) {
                        CheckOutcome::Done(_, sm1) => {
                            lemma_check_keeps_types(sm1, *rh, None);
                            match spec_check(sm1, *rh, None) {
                                CheckOutcome::Done(_, sm2) => {
                                    lemma_session_extends_trans(sm, sm1, sm2);
                                },
                                CheckOutcome::Fail(_, sm2) => {
                                    lemma_session_extends_trans(sm, sm1, sm2);
                                },
                            }
                        },
                        CheckOutcome::Fail(_, _) => {},
                    }
                },
                _ => {
                    lemma_try_keeps_types(sm, *lh, hints, 0);
                    match spec_try_types(sm, *lh, hints, 0) {
                        TryOutcome::Accept(_, _, sm1) => {
                            lemma_try_keeps_types(sm1, *rh, hints, 0);
                            match spec_try_types(sm1, *rh, hints, 0) {
                                TryOutcome::Accept(_, _, sm2) => {
                                    lemma_session_extends_trans(sm, sm1, sm2);
                                },
                                TryOutcome::Reject(_, sm2) => {
                                    lemma_session_extends_trans(sm, sm1, sm2);
                                },
                            }
                        },
                        TryOutcome::Reject(_, _) => {},
                    }
                },
            }
        },
        ExprKindView::Block(exprs) => {
            let sm1 = sm.create_scope_spec(sm.cur).with_cur(sm.scopes.len() as int);
            lemma_enter_block_scope_keeps_wf(sm);
            lemma_check_seq_keeps_types(sm1, exprs, hint);
            let s2b = match spec_check_seq(sm1, exprs, hint) {
                SeqOutcome::Done(_, s2b) => s2b,
                SeqOutcome::Fail(_, s2b) => s2b,
            };
            let sfin = s2b.with_cur(sm.cur);
            assert(sfin.wf());
            assert(session_extends(sm, sfin)) by {
                assert(forall|i: int|
                    0 <= i < sm.scopes.len() ==> #[trigger] sm1.scopes[i] == sm.scopes[i]);
                assert(forall|i: int|
                    0 <= i < sm.vars.len() ==> #[trigger] sfin.vars[i] == sm.vars[i]);
                assert forall|i: int|
                    sm.vars.len() <= i < sfin.vars.len() implies (#[trigger] sfin.vars[i]).scope_id
                    >= sm.cur by {
                    assert(sfin.vars[i].scope_id >= sm1.cur);
                };
            }
        },
        ExprKindView::VariableDecl { name, value, mutable, ty } => {
            let vres = match ty {
                Some(ty_name) => match sm.lookup_type_spec(ty_name, sm.cur) {
                    Some(t) => {
                        lemma_check_keeps_types(sm, *value, Some(t.id));
                        Some(spec_check(sm, *value, Some(t.id)))
                    },
                    None => None,
                },
                None => {
                    lemma_check_keeps_types(sm, *value, None);
                    Some(spec_check(sm, *value, None))
                },
            };
            match vres {
                Some(CheckOutcome::Done(v2, sm2)) => {
                    lemma_add_var_keeps_wf(sm2, name, crate::checker::ty_of(v2), mutable);
                    let sm3 = sm2.add_var_spec(name, crate::checker::ty_of(v2), mutable);
                    assert(session_extends(sm2, sm3));
                    lemma_session_extends_trans(sm, sm2, sm3);
                },
                _ => {},
            }
        },
        ExprKindView::VariableAssignment { name, value } => {
            match sm.lookup_var_spec(name, sm.cur) {
                Some(var) => {
                    if var.mutable {
                        lemma_check_keeps_types(sm, *value, Some(var.type_id));
                    }
                },
                None => {},
            }
        },
        ExprKindView::FunctionCall { name, args } => {
            if name == "to_unit"@ {
                lemma_check_seq_keeps_types(sm, args, None);
            }
        },
        ExprKindView::MethodCall { caller, name, args } => {
            if name == "to_unit"@ {
                lemma_check_keeps_types(sm, *caller, None);
                match spec_check(sm, *caller, None) {
                    CheckOutcome::Done(_, sm1) => {
                        lemma_check_seq_keeps_types(sm1, args, None);
                        match spec_check_seq(sm1, args, None) {
                            SeqOutcome::Done(_, sm2) => {
                                lemma_session_extends_trans(sm, sm1, sm2);
                            },
                            SeqOutcome::Fail(_, sm2) => {
                                lemma_session_extends_trans(sm, sm1, sm2);
                            },
                        }
                    },
                    CheckOutcome::Fail(_, _) => {},
                }
            }
        },
        _ => {},
    }
}

/// As `lemma_check_keeps_types`, for the candidate-hint search.
pub proof fn lemma_try_keeps_types(sm: SmView, e: ExprView, hints: Seq<int>, i: int)
    requires
        sm.wf(),
    ensures
        match spec_try_types(sm, e, hints, i) {
            TryOutcome::Accept(_, _, s2) => s2.types == sm.types && s2.cur == sm.cur && s2.wf()
                && session_extends(sm, s2),
            TryOutcome::Reject(_, s2) => s2.types == sm.types && s2.cur == sm.cur && s2.wf()
                && session_extends(sm, s2),
        },
    decreases e, 1int, hints.len() - i,
{
    if 0 <= i < hints.len() {
        lemma_check_keeps_types(sm, e, Some(hints[i]));
        match spec_check(sm, e, Some(hints[i])) {
            CheckOutcome::Done(_, _) => {},
            CheckOutcome::Fail(_, sm1) => {
                lemma_try_keeps_types(sm1, e, hints, i + 1);
                match spec_try_types(sm1, e, hints, i + 1) {
                    TryOutcome::Accept(_, _, sm2) => {
                        lemma_session_extends_trans(sm, sm1, sm2);
                    },
                    TryOutcome::Reject(_, sm2) => {
                        lemma_session_extends_trans(sm, sm1, sm2);
                    },
                }
            },
        }
    } else {
        lemma_check_keeps_types(sm, e, None);
    }
}

/// As `lemma_check_keeps_types`, for a sequence of expressions.
pub proof fn lemma_check_seq_keeps_types(sm: SmView, s: Seq<ExprView>, hint: Option<int>)
    requires
        sm.wf(),
    ensures
        match spec_check_seq(sm, s, hint) {
            SeqOutcome::Done(_, s2) => s2.types == sm.types && s2.cur == sm.cur && s2.wf()
                && session_extends(sm, s2),
            SeqOutcome::Fail(_, s2) => s2.types == sm.types && s2.cur == sm.cur && s2.wf()
                && session_extends(sm, s2),
        },
    decreases s, 0int, 0int,
{
    if s.len() > 0 {
        let h0: Option<int> = if s.len() == 1 {
            hint
        } else {
            None
        };
        lemma_check_keeps_types(sm, s[0], h0);
        match spec_check(sm, s[0], h0) {
            CheckOutcome::Done(_, sm1) => {
                lemma_check_seq_keeps_types(sm1, s.subrange(1, s.len() as int), hint);
                match spec_check_seq(sm1, s.subrange(1, s.len() as int), hint) {
                    SeqOutcome::Done(_, sm2) => {
                        lemma_session_extends_trans(sm, sm1, sm2);
                    },
                    SeqOutcome::Fail(_, sm2) => {
                        lemma_session_extends_trans(sm, sm1, sm2);
                    },
                }
            },
            CheckOutcome::Fail(_, _) => {},
        }
    }
}

/// Division always promotes: whenever a `/` expression checks, its
/// assigned type is `Float`, whatever its operands resolved to.
pub proof fn lemma_division_promotes(sm: SmView, e: ExprView, hint: Option<int>)
    requires
        sm.wf(),
        e.kind matches ExprKindView::Infix { op: crate::expression::InfixOp::Divide, .. },
    ensures
        spec_check(sm, e, hint) matches CheckOutcome::Done(e2, sm2) ==> e2.state
            == StateView::Checked(sm.types[FLOAT_TYPE_ID - 1].name, FLOAT_TYPE_ID as int),
    decreases e,
{
    if let ExprKindView::Infix { op, lh, rh } = e.kind {
        let hints = seq![INT_TYPE_ID as int, FLOAT_TYPE_ID as int];
        lemma_try_keeps_types(sm, *lh, hints, 0);
        if let TryOutcome::Accept(lh2, lt, sm1) = spec_try_types(sm, *lh, hints, 0) {
            lemma_try_keeps_types(sm1, *rh, hints, 0);
            if let TryOutcome::Accept(rh2, rt, sm2) = spec_try_types(sm1, *rh, hints, 0) {
                lemma_get_type_indexed(sm2, FLOAT_TYPE_ID as int, sm2.cur);
            }
        }
    }
}

/// Mismatched numeric operands promote to `Float`: whenever the two
/// operands of an arithmetic expression resolve to different numeric
/// types and the expression checks, its assigned type is `Float`.
pub proof fn lemma_mismatched_operands_promote(sm: SmView, e: ExprView, hint: Option<int>)
    requires
        sm.wf(),
        e.kind matches ExprKindView::Infix { op, .. } && (op == crate::expression::InfixOp::Add
            || op == crate::expression::InfixOp::Subtract || op
            == crate::expression::InfixOp::Multiply || op == crate::expression::InfixOp::Power),
        ({
            let hints = seq![INT_TYPE_ID as int, FLOAT_TYPE_ID as int];
            match e.kind {
                ExprKindView::Infix { op, lh, rh } => match spec_try_types(sm, *lh, hints, 0) {
                    TryOutcome::Accept(_, lt, sm1) => match spec_try_types(sm1, *rh, hints, 0) {
                        TryOutcome::Accept(_, rt, _) => lt != rt,
                        TryOutcome::Reject(_, _) => true,
                    },
                    TryOutcome::Reject(_, _) => true,
                },
                _ => true,
            }
        }),
    ensures
        spec_check(sm, e, hint) matches CheckOutcome::Done(e2, sm2) ==> e2.state
            == StateView::Checked(sm.types[FLOAT_TYPE_ID - 1].name, FLOAT_TYPE_ID as int),
    decreases e,
{
    if let ExprKindView::Infix { op, lh, rh } = e.kind {
        let hints = seq![INT_TYPE_ID as int, FLOAT_TYPE_ID as int];
        lemma_try_keeps_types(sm, *lh, hints, 0);
        if let TryOutcome::Accept(lh2, lt, sm1) = spec_try_types(sm, *lh, hints, 0) {
            lemma_try_keeps_types(sm1, *rh, hints, 0);
            if let TryOutcome::Accept(rh2, rt, sm2) = spec_try_types(sm1, *rh, hints, 0) {
                lemma_get_type_indexed(sm2, FLOAT_TYPE_ID as int, sm2.cur);
            }
        }
    }
}

/// Logical not always yields `Bool`: whenever a `!` expression checks,
/// its assigned type is `Bool`; its operand was checked against `Bool`
/// by the rule itself.
pub proof fn lemma_prefix_not_yields_bool(sm: SmView, e: ExprView, hint: Option<int>)
    requires
        sm.wf(),
        e.kind is Prefix,
    ensures
        spec_check(sm, e, hint) matches CheckOutcome::Done(e2, sm2) ==> e2.state
            == StateView::Checked(sm.types[BOOL_TYPE_ID - 1].name, BOOL_TYPE_ID as int),
    decreases e,
{
    if let ExprKindView::Prefix { op, rh } = e.kind {
        lemma_check_keeps_types(sm, *rh, Some(BOOL_TYPE_ID as int));
        if let CheckOutcome::Done(rh2, sm1) = spec_check(sm, *rh, Some(BOOL_TYPE_ID as int)) {
            lemma_get_type_indexed(sm1, BOOL_TYPE_ID as int, sm1.cur);
        }
    }
}

/// Parsing a number literal and then checking it yields `Int` for a
/// literal without a decimal point and `Float` for one with a decimal
/// point, in any session whose type table is the built-in one.
pub proof fn lemma_number_literal_type(
    src: Seq<char>,
    toks: Seq<Token>,
    i: int,
    sm: SmView,
    e: ExprView,
    j: int,
)
    requires
        sm.wf(),
        sm.types == SmView::initial().types,
        spec_parse_number(src, toks, i) == ParseOutcome::Parsed(e, j),
    ensures
        dot_count(token_text(src, toks[i])) == 0 ==> spec_check(sm, e, None)
            == CheckOutcome::Done(annot(e, "Int"@, INT_TYPE_ID as int), sm),
        dot_count(token_text(src, toks[i])) > 0 ==> spec_check(sm, e, None)
            == CheckOutcome::Done(annot(e, "Float"@, FLOAT_TYPE_ID as int), sm),
{
    lemma_builtin_type_found(sm, INT_TYPE_ID as int, sm.cur);
    lemma_builtin_type_found(sm, FLOAT_TYPE_ID as int, sm.cur);
}

/// `e2` is the tree `e` as the checker may hand it back: the same shape,
/// with annotations overwritten node by node.
pub open spec fn checked_of(e2: ExprView, e: ExprView) -> bool
    decreases e,
{
    &&& e2.span == e.span
    &&& match (e2.kind, e.kind) {
        (ExprKindView::LiteralInt(a), ExprKindView::LiteralInt(b)) => a == b,
        (ExprKindView::LiteralFloat(a), ExprKindView::LiteralFloat(b)) => a == b,
        (ExprKindView::LiteralBool(a), ExprKindView::LiteralBool(b)) => a == b,
        (ExprKindView::Ident(a), ExprKindView::Ident(b)) => a == b,
        (
            ExprKindView::Prefix { op: o2, rh: r2 },
            ExprKindView::Prefix { op: o1, rh: r1 },
        ) => o2 == o1 && checked_of(*r2, *r1),
        (
            ExprKindView::Infix { op: o2, lh: l2, rh: r2 },
            ExprKindView::Infix { op: o1, lh: l1, rh: r1 },
        ) => o2 == o1 && checked_of(*l2, *l1) && checked_of(*r2, *r1),
        (ExprKindView::Block(s2), ExprKindView::Block(s1)) => checked_of_seq(s2, s1),
        (
            ExprKindView::VariableDecl { name: n2, value: v2, mutable: m2, ty: t2 },
            ExprKindView::VariableDecl { name: n1, value: v1, mutable: m1, ty: t1 },
        ) => n2 == n1 && m2 == m1 && t2 == t1 && checked_of(*v2, *v1),
        (
            ExprKindView::VariableAssignment { name: n2, value: v2 },
            ExprKindView::VariableAssignment { name: n1, value: v1 },
        ) => n2 == n1 && checked_of(*v2, *v1),
        (
            ExprKindView::FunctionCall { name: n2, args: a2 },
            ExprKindView::FunctionCall { name: n1, args: a1 },
        ) => n2 == n1 && checked_of_seq(a2, a1),
        (
            ExprKindView::MethodCall { caller: c2, name: n2, args: a2 },
            ExprKindView::MethodCall { caller: c1, name: n1, args: a1 },
        ) => n2 == n1 && checked_of(*c2, *c1) && checked_of_seq(a2, a1),
        _ => false,
    }
}

/// `checked_of`, pointwise over two runs of expressions.
pub open spec fn checked_of_seq(s2: Seq<ExprView>, s1: Seq<ExprView>) -> bool
    decreases s1,
{
    if s1.len() != s2.len() {
        false
    } else if s1.len() == 0 {
        true
    } else {
        checked_of(s2[0], s1[0]) && checked_of_seq(
            s2.subrange(1, s2.len() as int),
            s1.subrange(1, s1.len() as int),
        )
    }
}

/// What the checker hands back is always a checked version of what it
/// was handed.
pub proof fn lemma_check_output_checked(sm: SmView, e: ExprView, hint: Option<int>)
    ensures
        spec_check(sm, e, hint) matches CheckOutcome::Done(e2, _) ==> checked_of(e2, e),
    decreases e, 0int, 0int,
{
    match e.kind {
        ExprKindView::Prefix { op, rh } => {
            lemma_check_output_checked(sm, *rh, Some(BOOL_TYPE_ID as int));
        },
        ExprKindView::Infix { op, lh, rh } => {
            let hints = seq![INT_TYPE_ID as int, FLOAT_TYPE_ID as int];
            match op {
                crate::expression::InfixOp::Equals | crate::expression::InfixOp::NotEquals => {
                    lemma_check_output_checked(sm, *lh, None);
                    match spec_check(sm, *lh, None) {
                        CheckOutcome::Done(_, sm1) => {
                            lemma_check_output_checked(sm1, *rh, None);
                        },
                        CheckOutcome::Fail(_, _) => {},
                    }
                },
                _ => {
                    lemma_try_output_checked(sm, *lh, hints, 0);
                    match spec_try_types(sm, *lh, hints, 0) {
                        TryOutcome::Accept(_, _, sm1) => {
                            lemma_try_output_checked(sm1, *rh, hints, 0);
                        },
                        TryOutcome::Reject(_, _) => {},
                    }
                },
            }
        },
        ExprKindView::Block(exprs) => {
            let sm1 = sm.create_scope_spec(sm.cur).with_cur(sm.scopes.len() as int);
            lemma_check_seq_output_checked(sm1, exprs, hint);
        },
        ExprKindView::VariableDecl { name, value, mutable, ty } => {
            match ty {
                Some(ty_name) => {
                    match sm.lookup_type_spec(ty_name, sm.cur) {
                        Some(t) => {
                            lemma_check_output_checked(sm, *value, Some(t.id));
                        },
                        None => {},
                    }
                },
                None => {
                    lemma_check_output_checked(sm, *value, None);
                },
            }
        },
        ExprKindView::VariableAssignment { name, value } => {
            match sm.lookup_var_spec(name, sm.cur) {
                Some(var) => {
                    if var.mutable {
                        lemma_check_output_checked(sm, *value, Some(var.type_id));
                    }
                },
                None => {},
            }
        },
        ExprKindView::FunctionCall { name, args } => {
            if name == "to_unit"@ {
                lemma_check_seq_output_checked(sm, args, None);
            }
        },
        ExprKindView::MethodCall { caller, name, args } => {
            if name == "to_unit"@ {
                lemma_check_output_checked(sm, *caller, None);
                match spec_check(sm, *caller, None) {
                    CheckOutcome::Done(_, sm1) => {
                        lemma_check_seq_output_checked(sm1, args, None);
                    },
                    CheckOutcome::Fail(_, _) => {},
                }
            }
        },
        _ => {},
    }
}

/// As `lemma_check_output_checked`, for the candidate-hint search.
pub proof fn lemma_try_output_checked(sm: SmView, e: ExprView, hints: Seq<int>, i: int)
    ensures
        spec_try_types(sm, e, hints, i) matches TryOutcome::Accept(e2, _, _) ==> checked_of(
            e2,
            e,
        ),
    decreases e, 1int, hints.len() - i,
{
    if 0 <= i < hints.len() {
        lemma_check_output_checked(sm, e, Some(hints[i]));
        match spec_check(sm, e, Some(hints[i])) {
            CheckOutcome::Done(_, _) => {},
            CheckOutcome::Fail(_, sm1) => {
                lemma_try_output_checked(sm1, e, hints, i + 1);
            },
        }
    }
}

/// As `lemma_check_output_checked`, for a sequence of expressions.
pub proof fn lemma_check_seq_output_checked(sm: SmView, s: Seq<ExprView>, hint: Option<int>)
    ensures
        spec_check_seq(sm, s, hint) matches SeqOutcome::Done(outs, _) ==> checked_of_seq(outs, s),
    decreases s, 0int, 0int,
{
    if s.len() > 0 {
        let h0: Option<int> = if s.len() == 1 {
            hint
        } else {
            None
        };
        lemma_check_output_checked(sm, s[0], h0);
        match spec_check(sm, s[0], h0) {
            CheckOutcome::Done(e2, sm1) => {
                let rest = s.subrange(1, s.len() as int);
                lemma_check_seq_output_checked(sm1, rest, hint);
                match spec_check_seq(sm1, rest, hint) {
                    SeqOutcome::Done(outs, _) => {
                        assert((seq![e2] + outs).subrange(1, (seq![e2] + outs).len() as int)
                            =~= outs);
                    },
                    SeqOutcome::Fail(_, _) => {},
                }
            },
            CheckOutcome::Fail(_, _) => {},
        }
    }
}

/// A checked version checks exactly as the original does: the rules read
/// an expression's shape, never its annotations, so the run visits the
/// same scopes, succeeds or fails alike, and on success returns the very
/// same annotated tree and scope state. A failing run may word its error
/// differently (the reported "found" type of an annotated operand is its
/// annotation), but leaves the same state.
pub proof fn lemma_checked_same_run(sm: SmView, e: ExprView, e2: ExprView, hint: Option<int>)
    requires
        checked_of(e2, e),
    ensures
        match spec_check(sm, e, hint) {
            CheckOutcome::Done(d, s) => spec_check(sm, e2, hint) == CheckOutcome::Done(d, s),
            CheckOutcome::Fail(_, s) => spec_check(sm, e2, hint) matches CheckOutcome::Fail(_, s2)
                && s2 == s,
        },
    decreases e, 0int, 0int,
{
    match (e2.kind, e.kind) {
        (ExprKindView::Prefix { op: o2, rh: r2 }, ExprKindView::Prefix { op: o1, rh: r1 }) => {
            lemma_checked_same_run(sm, *r1, *r2, Some(BOOL_TYPE_ID as int));
        },
        (
            ExprKindView::Infix { op: o2, lh: l2, rh: r2 },
            ExprKindView::Infix { op: o1, lh: l1, rh: r1 },
        ) => {
            let hints = seq![INT_TYPE_ID as int, FLOAT_TYPE_ID as int];
            match o1 {
                crate::expression::InfixOp::Equals | crate::expression::InfixOp::NotEquals => {
                    lemma_checked_same_run(sm, *l1, *l2, None);
                    match spec_check(sm, *l1, None) {
                        CheckOutcome::Done(_, sm1) => {
                            lemma_checked_same_run(sm1, *r1, *r2, None);
                        },
                        CheckOutcome::Fail(_, _) => {},
                    }
                },
                _ => {
                    lemma_try_same_run(sm, *l1, *l2, hints, 0);
                    match spec_try_types(sm, *l1, hints, 0) {
                        TryOutcome::Accept(_, _, sm1) => {
                            lemma_try_same_run(sm1, *r1, *r2, hints, 0);
                        },
                        TryOutcome::Reject(_, _) => {},
                    }
                },
            }
        },
        (ExprKindView::Block(s2), ExprKindView::Block(s1)) => {
            let sm1 = sm.create_scope_spec(sm.cur).with_cur(sm.scopes.len() as int);
            lemma_check_seq_same_run(sm1, s1, s2, hint);
        },
        (
            ExprKindView::VariableDecl { name: n2, value: v2, mutable: m2, ty: t2 },
            ExprKindView::VariableDecl { name: n1, value: v1, mutable: m1, ty: t1 },
        ) => {
            match t1 {
                Some(ty_name) => {
                    match sm.lookup_type_spec(ty_name, sm.cur) {
                        Some(t) => {
                            lemma_checked_same_run(sm, *v1, *v2, Some(t.id));
                        },
                        None => {},
                    }
                },
                None => {
                    lemma_checked_same_run(sm, *v1, *v2, None);
                },
            }
        },
        (
            ExprKindView::VariableAssignment { name: n2, value: v2 },
            ExprKindView::VariableAssignment { name: n1, value: v1 },
        ) => {
            match sm.lookup_var_spec(n1, sm.cur) {
                Some(var) => {
                    if var.mutable {
                        lemma_checked_same_run(sm, *v1, *v2, Some(var.type_id));
                    }
                },
                None => {},
            }
        },
        (
            ExprKindView::FunctionCall { name: n2, args: a2 },
            ExprKindView::FunctionCall { name: n1, args: a1 },
        ) => {
            if n1 == "to_unit"@ {
                lemma_check_seq_same_run(sm, a1, a2, None);
            }
        },
        (
            ExprKindView::MethodCall { caller: c2, name: n2, args: a2 },
            ExprKindView::MethodCall { caller: c1, name: n1, args: a1 },
        ) => {
            if n1 == "to_unit"@ {
                lemma_checked_same_run(sm, *c1, *c2, None);
                match spec_check(sm, *c1, None) {
                    CheckOutcome::Done(_, sm1) => {
                        lemma_check_seq_same_run(sm1, a1, a2, None);
                    },
                    CheckOutcome::Fail(_, _) => {},
                }
            }
        },
        _ => {},
    }
}

/// As `lemma_checked_same_run`, for the candidate-hint search: the same
/// hint is chosen, the same state results, and on success the same
/// annotated expression.
pub proof fn lemma_try_same_run(sm: SmView, e: ExprView, e2: ExprView, hints: Seq<int>, i: int)
    requires
        checked_of(e2, e),
    ensures
        match spec_try_types(sm, e, hints, i) {
            TryOutcome::Accept(d, lt, s) => spec_try_types(sm, e2, hints, i)
                == TryOutcome::Accept(d, lt, s),
            TryOutcome::Reject(_, s) => spec_try_types(sm, e2, hints, i) matches
                TryOutcome::Reject(_, s2) && s2 == s,
        },
    decreases e, 1int, hints.len() - i,
{
    if 0 <= i < hints.len() {
        lemma_checked_same_run(sm, e, e2, Some(hints[i]));
        match spec_check(sm, e, Some(hints[i])) {
            CheckOutcome::Done(_, _) => {},
            CheckOutcome::Fail(_, sm1) => {
                lemma_try_same_run(sm1, e, e2, hints, i + 1);
            },
        }
    } else {
        lemma_checked_same_run(sm, e, e2, None);
    }
}

/// As `lemma_checked_same_run`, for a sequence of expressions.
pub proof fn lemma_check_seq_same_run(
    sm: SmView,
    s1: Seq<ExprView>,
    s2: Seq<ExprView>,
    hint: Option<int>,
)
    requires
        checked_of_seq(s2, s1),
    ensures
        match spec_check_seq(sm, s1, hint) {
            SeqOutcome::Done(outs, s) => spec_check_seq(sm, s2, hint) == SeqOutcome::Done(outs, s),
            SeqOutcome::Fail(_, s) => spec_check_seq(sm, s2, hint) matches SeqOutcome::Fail(_, sx)
                && sx == s,
        },
    decreases s1, 0int, 0int,
{
    if s1.len() > 0 {
        let h0: Option<int> = if s1.len() == 1 {
            hint
        } else {
            None
        };
        lemma_checked_same_run(sm, s1[0], s2[0], h0);
        match spec_check(sm, s1[0], h0) {
            CheckOutcome::Done(_, sm1) => {
                lemma_check_seq_same_run(
                    sm1,
                    s1.subrange(1, s1.len() as int),
                    s2.subrange(1, s2.len() as int),
                    hint,
                );
            },
            CheckOutcome::Fail(_, _) => {},
        }
    }
}

/// Re-checking an already type-annotated tree with the same hint yields
/// the same annotated tree and the same scope state: checking is a pure
/// function of the tree's shape, the scope state and the hint.
pub proof fn lemma_recheck_idempotent(sm: SmView, e: ExprView, hint: Option<int>)
    ensures
        spec_check(sm, e, hint) matches CheckOutcome::Done(e2, sm2) ==> spec_check(sm, e2, hint)
            == CheckOutcome::Done(e2, sm2),
{
    if let CheckOutcome::Done(e2, sm2) = spec_check(sm, e, hint) {
        lemma_check_output_checked(sm, e, hint);
        lemma_checked_same_run(sm, e, e2, hint);
    }
}

/// Re-checking a whole tree that checked without errors, in a fresh
/// session with the same scope state, yields the same annotated tree
/// and the same final scope state.
pub proof fn lemma_recheck_top_idempotent(sm: SmView, s: Seq<ExprView>)
    requires
        spec_check_top(sm, s).errors.len() == 0,
    ensures
        spec_check_top(sm, spec_check_top(sm, s).checked) == (TopOutcome {
            checked: spec_check_top(sm, s).checked,
            errors: Seq::empty(),
            sm: spec_check_top(sm, s).sm,
        }),
    decreases s.len(),
{
    let out = spec_check_top(sm, s);
    if s.len() == 0 {
        assert(out.checked =~= Seq::<ExprView>::empty());
        assert(out.errors =~= Seq::<CheckErrorView>::empty());
    } else {
        match spec_check(sm, s[0], None) {
            CheckOutcome::Done(e2, sm1) => {
                let tail = s.subrange(1, s.len() as int);
                let rest = spec_check_top(sm1, tail);
                lemma_recheck_idempotent(sm, s[0], None);
                lemma_recheck_top_idempotent(sm1, tail);
                assert(out.checked =~= seq![e2] + rest.checked);
                assert((seq![e2] + rest.checked)[0] == e2);
                assert((seq![e2] + rest.checked).subrange(
                    1,
                    (seq![e2] + rest.checked).len() as int,
                ) =~= rest.checked);
                assert(spec_check_top(sm, out.checked).checked =~= out.checked);
                assert(spec_check_top(sm, out.checked).errors =~= Seq::<CheckErrorView>::empty());
            },
            CheckOutcome::Fail(err, sm1) => {
                let tail = s.subrange(1, s.len() as int);
                let rest = spec_check_top(sm1, tail);
                assert(out.errors == seq![err] + rest.errors);
                assert(out.errors.len() > 0);
            },
        }
    }
}

/// Assigning to a binding not declared mutable is rejected at the
/// assignment's own span, without checking the new value and without
/// touching the session's state.
pub proof fn lemma_assign_to_immutable_rejected(
    sm: SmView,
    e: ExprView,
    name: Seq<char>,
    value: Box<ExprView>,
    hint: Option<int>,
)
    requires
        e.kind == (ExprKindView::VariableAssignment { name, value }),
        sm.lookup_var_spec(name, sm.cur) matches Some(v) && !v.mutable,
    ensures
        spec_check(sm, e, hint) == CheckOutcome::Fail(
            CheckErrorView {
                span: e.span,
                kind: CheckErrorKindView::AssignToConstVariable(name),
            },
            sm,
        ),
{
}

/// A variable scan over an extended table agrees with the scan over the
/// old one when the scope scanned for existed before the extension:
/// every added variable is owned by a newer scope.
proof fn lemma_find_var_stable(sm: SmView, s2: SmView, name: Seq<char>, scope_id: int, i: int)
    requires
        s2.vars.len() >= sm.vars.len(),
        forall|k: int| 0 <= k < sm.vars.len() ==> #[trigger] s2.vars[k] == sm.vars[k],
        forall|k: int|
            sm.vars.len() <= k < s2.vars.len() ==> (#[trigger] s2.vars[k]).scope_id
                >= sm.scopes.len(),
        0 <= scope_id < sm.scopes.len(),
        i >= 0,
    ensures
        s2.find_var_named_from(name, scope_id, i) == sm.find_var_named_from(name, scope_id, i),
    decreases s2.vars.len() - i,
{
    if i < s2.vars.len() {
        if i >= sm.vars.len() {
            assert(s2.vars[i].scope_id != scope_id);
        }
        lemma_find_var_stable(sm, s2, name, scope_id, i + 1);
    }
}

/// A variable lookup from a scope that existed before an extension sees
/// none of the extension's additions: the chain walk visits only old
/// scopes, and every added variable is owned by a newer one.
pub proof fn lemma_lookup_var_stable(sm: SmView, s2: SmView, name: Seq<char>, scope_id: int)
    requires
        sm.wf(),
        s2.scopes.len() >= sm.scopes.len(),
        forall|k: int| 0 <= k < sm.scopes.len() ==> #[trigger] s2.scopes[k] == sm.scopes[k],
        s2.vars.len() >= sm.vars.len(),
        forall|k: int| 0 <= k < sm.vars.len() ==> #[trigger] s2.vars[k] == sm.vars[k],
        forall|k: int|
            sm.vars.len() <= k < s2.vars.len() ==> (#[trigger] s2.vars[k]).scope_id
                >= sm.scopes.len(),
        0 <= scope_id < sm.scopes.len(),
    ensures
        s2.lookup_var_spec(name, scope_id) == sm.lookup_var_spec(name, scope_id),
    decreases scope_id,
{
    lemma_find_var_stable(sm, s2, name, scope_id, 0);
    match sm.scopes[scope_id].parent {
        Some(p) => {
            if 0 <= p < scope_id {
                lemma_lookup_var_stable(sm, s2, name, p);
            }
        },
        None => {},
    }
}

/// A block leaves the enclosing code's world as it found it, whether it
/// checks or fails: the cursor is back on the enclosing scope, and every
/// name resolves from there to the binding it resolved to before the
/// block — the block's declarations are owned by scopes it opened,
/// invisible from outside.
pub proof fn lemma_block_keeps_enclosing_bindings(
    sm: SmView,
    e: ExprView,
    hint: Option<int>,
    name: Seq<char>,
)
    requires
        sm.wf(),
        e.kind is Block,
    ensures
        match spec_check(sm, e, hint) {
            CheckOutcome::Done(_, s2) => s2.cur == sm.cur && s2.lookup_var_spec(name, sm.cur)
                == sm.lookup_var_spec(name, sm.cur),
            CheckOutcome::Fail(_, s2) => s2.cur == sm.cur && s2.lookup_var_spec(name, sm.cur)
                == sm.lookup_var_spec(name, sm.cur),
        },
{
    if let ExprKindView::Block(exprs) = e.kind {
        let sm1 = sm.create_scope_spec(sm.cur).with_cur(sm.scopes.len() as int);
        lemma_enter_block_scope_keeps_wf(sm);
        lemma_check_seq_keeps_types(sm1, exprs, hint);
        let s2b = match spec_check_seq(sm1, exprs, hint) {
            SeqOutcome::Done(_, x) => x,
            SeqOutcome::Fail(_, x) => x,
        };
        let sfin = s2b.with_cur(sm.cur);
        assert(forall|k: int| 0 <= k < sm.scopes.len() ==> #[trigger] sfin.scopes[k]
            == sm.scopes[k]);
        assert(forall|k: int| 0 <= k < sm.vars.len() ==> #[trigger] sfin.vars[k] == sm.vars[k]);
        assert forall|k: int|
            sm.vars.len() <= k < sfin.vars.len() implies (#[trigger] sfin.vars[k]).scope_id
            >= sm.scopes.len() by {
            assert(sfin.vars[k].scope_id >= sm1.cur);
        };
        lemma_lookup_var_stable(sm, sfin, name, sm.cur);
    }
}

} // verus!
