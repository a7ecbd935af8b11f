use vstd::prelude::*;
use vstd::string::*;

use crate::ast::Ast;
use crate::errors::{CheckError, CheckErrorKindView, CheckErrorView};
use crate::expression::{
    lemma_views_of, views_of, ExprKindView, ExprView, Expression, ExpressionKind, InfixOp,
    PrefixOp, StateView, TypeIdent,
};
use crate::scope::{
    ScopeManager, ScopeTypeId, SmView, BOOL_TYPE_ID, FLOAT_TYPE_ID, INT_TYPE_ID, UNIT_TYPE_ID,
};
use crate::text::str_eq;

verus! {

/// The outcome of checking one expression: the annotated expression, or
/// the first error found in it; either way, the scope manager as the
/// attempt left it.
pub ghost enum CheckOutcome {
    Done(ExprView, SmView),
    Fail(CheckErrorView, SmView),
}

/// The outcome of checking one expression against a list of candidate
/// type hints in order.
pub ghost enum TryOutcome {
    Accept(ExprView, int, SmView),
    Reject(CheckErrorView, SmView),
}

/// The outcome of checking a sequence of expressions in order,
/// fail-fast.
pub ghost enum SeqOutcome {
    Done(Seq<ExprView>, SmView),
    Fail(CheckErrorView, SmView),
}

/// The outcome of checking the top-level expressions of a tree: the
/// expressions that checked, the errors of those that did not, and the
/// final scope manager.
pub ghost struct TopOutcome {
    pub checked: Seq<ExprView>,
    pub errors: Seq<CheckErrorView>,
    pub sm: SmView,
}

/// The type id an expression reports: its assigned id once checked, and
/// the sentinel 0 before.
pub open spec fn ty_of(e: ExprView) -> int {
    match e.state {
        StateView::Checked(_, id) => id,
        StateView::Unchecked => 0,
    }
}

/// The expression annotated with a type name and id.
pub open spec fn annot(e: ExprView, name: Seq<char>, id: int) -> ExprView {
    ExprView { kind: e.kind, span: e.span, state: StateView::Checked(name, id) }
}

/// The expression with another kind, keeping span and state.
pub open spec fn with_kind_v(e: ExprView, k: ExprKindView) -> ExprView {
    ExprView { kind: k, span: e.span, state: e.state }
}

/// A hint as a mathematical value.
pub open spec fn hint_view(h: Option<ScopeTypeId>) -> Option<int> {
    match h {
        Some(x) => Some(x as int),
        None => None,
    }
}

/// A list of type ids as mathematical values.
pub open spec fn ids_view(s: Seq<ScopeTypeId>) -> Seq<int> {
    Seq::new(s.len(), |i: int| s[i] as int)
}

/// A list of check errors as mathematical values.
pub open spec fn error_views(s: Seq<CheckError>) -> Seq<CheckErrorView> {
    Seq::new(s.len(), |i: int| s[i]@)
}

/// The shared terminal step of every checking rule: resolve the expected
/// type on the current scope chain, reject a hint that differs from it,
/// and otherwise annotate the expression with it.
pub open spec fn spec_expect(sm: SmView, e: ExprView, exp_type: int, hint: Option<int>) -> CheckOutcome {
    match sm.get_type_spec(exp_type, sm.cur) {
        None => CheckOutcome::Fail(
            CheckErrorView { span: e.span, kind: CheckErrorKindView::TypeNotFound(exp_type) },
            sm,
        ),
        Some(t) => match hint {
            Some(h) => if h == exp_type {
                CheckOutcome::Done(annot(e, t.name, t.id), sm)
            } else {
                CheckOutcome::Fail(
                    CheckErrorView {
                        span: e.span,
                        kind: CheckErrorKindView::TypeMismatch(seq![h], exp_type),
                    },
                    sm,
                )
            },
            None => CheckOutcome::Done(annot(e, t.name, t.id), sm),
        },
    }
}

/// The last step of checking a declaration: register the variable under
/// the current scope with the initializer's type, and give the
/// declaration itself type `Unit`.
pub open spec fn spec_decl_finish(
    e: ExprView,
    name: Seq<char>,
    mutable: bool,
    ty: Option<Seq<char>>,
    vres: CheckOutcome,
    hint: Option<int>,
) -> CheckOutcome {
    match vres {
        CheckOutcome::Done(v2, sm2) => {
            let sm3 = sm2.add_var_spec(name, ty_of(v2), mutable);
            spec_expect(
                sm3,
                with_kind_v(
                    e,
                    ExprKindView::VariableDecl { name, value: Box::new(v2), mutable, ty },
                ),
                UNIT_TYPE_ID as int,
                hint,
            )
        },
        CheckOutcome::Fail(err, sm2) => CheckOutcome::Fail(err, sm2),
    }
}

/// The checking rules, one per expression kind, exactly as the checker
/// applies them. The scope manager is threaded through every step, also
/// on failure: a failed attempt keeps the scopes it created, but the
/// cursor always comes back to the enclosing scope.
pub open spec fn spec_check(sm: SmView, e: ExprView, hint: Option<int>) -> CheckOutcome
    decreases e, 0int, 0int,
{
    match e.kind {
        ExprKindView::LiteralBool(_) => spec_expect(sm, e, BOOL_TYPE_ID as int, hint),
        ExprKindView::LiteralInt(_) => spec_expect(sm, e, INT_TYPE_ID as int, hint),
        ExprKindView::LiteralFloat(_) => spec_expect(sm, e, FLOAT_TYPE_ID as int, hint),
        ExprKindView::Ident(name) => match sm.lookup_var_spec(name, sm.cur) {
            Some(v) => spec_expect(sm, e, v.type_id, hint),
            None => CheckOutcome::Fail(
                CheckErrorView { span: e.span, kind: CheckErrorKindView::VariableNotFound(name) },
                sm,
            ),
        },
        ExprKindView::Prefix { op, rh } => match spec_check(sm, *rh, Some(BOOL_TYPE_ID as int)) {
            CheckOutcome::Done(rh2, sm1) => spec_expect(
                sm1,
                with_kind_v(e, ExprKindView::Prefix { op, rh: Box::new(rh2) }),
                BOOL_TYPE_ID as int,
                hint,
            ),
            CheckOutcome::Fail(err, sm1) => CheckOutcome::Fail(err, sm1),
        },
        ExprKindView::Infix { op, lh, rh } => match op {
            InfixOp::Add
            | InfixOp::Subtract
            | InfixOp::Multiply
            | InfixOp::Divide
            | InfixOp::Power => match spec_try_types(sm, *lh, seq![INT_TYPE_ID as int, FLOAT_TYPE_ID as int], 0) {
                TryOutcome::Accept(lh2, lt, sm1) => match spec_try_types(
                    sm1,
                    *rh,
                    seq![INT_TYPE_ID as int, FLOAT_TYPE_ID as int],
                    0,
                ) {
                    TryOutcome::Accept(rh2, rt, sm2) => {
                        let res_type: int = if op == InfixOp::Divide {
                            FLOAT_TYPE_ID as int
                        } else if lt == rt {
                            lt
                        } else {
                            FLOAT_TYPE_ID as int
                        };
                        spec_expect(
                            sm2,
                            with_kind_v(
                                e,
                                ExprKindView::Infix {
                                    op,
                                    lh: Box::new(lh2),
                                    rh: Box::new(rh2),
                                },
                            ),
                            res_type,
                            hint,
                        )
                    },
                    TryOutcome::Reject(err, sm2) => CheckOutcome::Fail(err, sm2),
                },
                TryOutcome::Reject(err, sm1) => CheckOutcome::Fail(err, sm1),
            },
            InfixOp::LessThan
            | InfixOp::LessThanOrEqual
            | InfixOp::GreaterThan
            | InfixOp::GreaterThanOrEqual => match spec_try_types(
                sm,
                *lh,
                seq![INT_TYPE_ID as int, FLOAT_TYPE_ID as int],
                0,
            ) {
                TryOutcome::Accept(lh2, _, sm1) => match spec_try_types(
                    sm1,
                    *rh,
                    seq![INT_TYPE_ID as int, FLOAT_TYPE_ID as int],
                    0,
                ) {
                    TryOutcome::Accept(rh2, _, sm2) => spec_expect(
                        sm2,
                        with_kind_v(
                            e,
                            ExprKindView::Infix { op, lh: Box::new(lh2), rh: Box::new(rh2) },
                        ),
                        BOOL_TYPE_ID as int,
                        hint,
                    ),
                    TryOutcome::Reject(err, sm2) => CheckOutcome::Fail(err, sm2),
                },
                TryOutcome::Reject(err, sm1) => CheckOutcome::Fail(err, sm1),
            },
            InfixOp::Equals | InfixOp::NotEquals => match spec_check(sm, *lh, None) {
                CheckOutcome::Done(lh2, sm1) => match spec_check(sm1, *rh, None) {
                    CheckOutcome::Done(rh2, sm2) => if ty_of(lh2) != ty_of(rh2) {
                        CheckOutcome::Fail(
                            CheckErrorView {
                                span: e.span,
                                kind: CheckErrorKindView::TypeMismatch(
                                    seq![ty_of(lh2)],
                                    ty_of(rh2),
                                ),
                            },
                            sm2,
                        )
                    } else {
                        spec_expect(
                            sm2,
                            with_kind_v(
                                e,
                                ExprKindView::Infix { op, lh: Box::new(lh2), rh: Box::new(rh2) },
                            ),
                            BOOL_TYPE_ID as int,
                            hint,
                        )
                    },
                    CheckOutcome::Fail(err, sm2) => CheckOutcome::Fail(err, sm2),
                },
                CheckOutcome::Fail(err, sm1) => CheckOutcome::Fail(err, sm1),
            },
        },
        ExprKindView::Block(exprs) => {
            let original = sm.cur;
            let new_scope = sm.scopes.len() as int;
            let sm1 = sm.create_scope_spec(original).with_cur(new_scope);
            match spec_check_seq(sm1, exprs, hint) {
                SeqOutcome::Done(checked, sm2) => {
                    let block_type: int = if checked.len() > 0 {
                        ty_of(checked.last())
                    } else {
                        UNIT_TYPE_ID as int
                    };
                    spec_expect(
                        sm2.with_cur(original),
                        with_kind_v(e, ExprKindView::Block(checked)),
                        block_type,
                        hint,
                    )
                },
                SeqOutcome::Fail(err, sm2) => CheckOutcome::Fail(err, sm2.with_cur(original)),
            }
        },
        ExprKindView::VariableDecl { name, value, mutable, ty } => match ty {
            Some(ty_name) => match sm.lookup_type_spec(ty_name, sm.cur) {
                None => CheckOutcome::Fail(
                    CheckErrorView {
                        span: e.span,
                        kind: CheckErrorKindView::TypeNameNotFound(ty_name),
                    },
                    sm,
                ),
                Some(t) => spec_decl_finish(
                    e,
                    name,
                    mutable,
                    ty,
                    spec_check(sm, *value, Some(t.id)),
                    hint,
                ),
            },
            None => spec_decl_finish(e, name, mutable, ty, spec_check(sm, *value, None), hint),
        },
        ExprKindView::VariableAssignment { name, value } => match sm.lookup_var_spec(
            name,
            sm.cur,
        ) {
            None => CheckOutcome::Fail(
                CheckErrorView { span: e.span, kind: CheckErrorKindView::VariableNotFound(name) },
                sm,
            ),
            Some(var) => if !var.mutable {
                CheckOutcome::Fail(
                    CheckErrorView {
                        span: e.span,
                        kind: CheckErrorKindView::AssignToConstVariable(name),
                    },
                    sm,
                )
            } else {
                match spec_check(sm, *value, Some(var.type_id)) {
                    CheckOutcome::Done(v2, sm2) => spec_expect(
                        sm2,
                        with_kind_v(
                            e,
                            ExprKindView::VariableAssignment { name, value: Box::new(v2) },
                        ),
                        UNIT_TYPE_ID as int,
                        hint,
                    ),
                    CheckOutcome::Fail(err, sm2) => CheckOutcome::Fail(err, sm2),
                }
            },
        },
        ExprKindView::FunctionCall { name, args } => if name != "to_unit"@ {
            CheckOutcome::Fail(
                CheckErrorView { span: e.span, kind: CheckErrorKindView::FunctionNotFound(name) },
                sm,
            )
        } else {
            match spec_check_seq(sm, args, None) {
                SeqOutcome::Done(args2, sm2) => spec_expect(
                    sm2,
                    with_kind_v(e, ExprKindView::FunctionCall { name, args: args2 }),
                    UNIT_TYPE_ID as int,
                    hint,
                ),
                SeqOutcome::Fail(err, sm2) => CheckOutcome::Fail(err, sm2),
            }
        },
        ExprKindView::MethodCall { caller, name, args } => if name != "to_unit"@ {
            CheckOutcome::Fail(
                CheckErrorView { span: e.span, kind: CheckErrorKindView::MethodNotFound(name) },
                sm,
            )
        } else {
            match spec_check(sm, *caller, None) {
                CheckOutcome::Done(c2, sm1) => match spec_check_seq(sm1, args, None) {
                    SeqOutcome::Done(args2, sm2) => spec_expect(
                        sm2,
                        with_kind_v(
                            e,
                            ExprKindView::MethodCall { caller: Box::new(c2), name, args: args2 },
                        ),
                        UNIT_TYPE_ID as int,
                        hint,
                    ),
                    SeqOutcome::Fail(err, sm2) => CheckOutcome::Fail(err, sm2),
                },
                CheckOutcome::Fail(err, sm1) => CheckOutcome::Fail(err, sm1),
            }
        },
    }
}

/// Checking an expression against candidate hints, in order: the first
/// hint under which it checks wins. When none does, the expression is
/// checked once more without a hint: the error then reports all the
/// candidates and the type the expression actually resolves to, and an
/// expression that does not check at all reports its own error instead.
pub open spec fn spec_try_types(sm: SmView, e: ExprView, hints: Seq<int>, i: int) -> TryOutcome
    decreases e, 1int, hints.len() - i,
{
    if i < 0 || i >= hints.len() {
        match spec_check(sm, e, None) {
            CheckOutcome::Done(e3, sm3) => TryOutcome::Reject(
                CheckErrorView {
                    span: e.span,
                    kind: CheckErrorKindView::TypeMismatch(hints, ty_of(e3)),
                },
                sm3,
            ),
            CheckOutcome::Fail(err, sm3) => TryOutcome::Reject(err, sm3),
        }
    } else {
        match spec_check(sm, e, Some(hints[i])) {
            CheckOutcome::Done(e2, sm1) => TryOutcome::Accept(e2, hints[i], sm1),
            CheckOutcome::Fail(_, sm1) => spec_try_types(sm1, e, hints, i + 1),
        }
    }
}

/// Checking a sequence of expressions in order, fail-fast; the ambient
/// hint reaches only the last one.
pub open spec fn spec_check_seq(sm: SmView, s: Seq<ExprView>, hint: Option<int>) -> SeqOutcome
    decreases s, 0int, 0int,
{
    if s.len() == 0 {
        SeqOutcome::Done(Seq::empty(), sm)
    } else {
        let h0: Option<int> = if s.len() == 1 {
            hint
        } else {
            None
        };
        match spec_check(sm, s[0], h0) {
            CheckOutcome::Done(e2, sm1) => match spec_check_seq(sm1, s.subrange(1, s.len() as int), hint) {
                SeqOutcome::Done(rest, sm2) => SeqOutcome::Done(seq![e2] + rest, sm2),
                SeqOutcome::Fail(err, sm2) => SeqOutcome::Fail(err, sm2),
            },
            CheckOutcome::Fail(err, sm1) => SeqOutcome::Fail(err, sm1),
        }
    }
}

/// Checking every top-level expression of a tree: errors accumulate
/// across top-level expressions instead of stopping the walk.
pub open spec fn spec_check_top(sm: SmView, s: Seq<ExprView>) -> TopOutcome
    decreases s, 2int, 0int,
{
    if s.len() == 0 {
        TopOutcome { checked: Seq::empty(), errors: Seq::empty(), sm }
    } else {
        match spec_check(sm, s[0], None) {
            CheckOutcome::Done(e2, sm1) => {
                let rest = spec_check_top(sm1, s.subrange(1, s.len() as int));
                TopOutcome {
                    checked: seq![e2] + rest.checked,
                    errors: rest.errors,
                    sm: rest.sm,
                }
            },
            CheckOutcome::Fail(err, sm1) => {
                let rest = spec_check_top(sm1, s.subrange(1, s.len() as int));
                TopOutcome {
                    checked: rest.checked,
                    errors: seq![err] + rest.errors,
                    sm: rest.sm,
                }
            },
        }
    }
}

/// The scope-chained bidirectional type checker. It owns the scope
/// manager of one checking session; `check` walks a tree against it.
pub struct Checker {
    scope_manager: ScopeManager,
}

impl Checker {
    /// The mathematical value of the checker: its scope manager.
    pub closed spec fn view(&self) -> SmView {
        self.scope_manager@
    }

    /// A fresh checker over a fresh scope manager.
    pub fn new() -> (c: Checker)
        ensures
            c@ == SmView::initial(),
            c@.wf(),
    {
        Checker { scope_manager: ScopeManager::new() }
    }

    /// The shared numeric-promotion step: the type both operands
    /// resolved to when they agree, and `or_else` when they do not.
    pub fn choose_btw_types(type1: ScopeTypeId, type2: ScopeTypeId, or_else: ScopeTypeId) -> (r:
        ScopeTypeId)
        ensures
            r == if type1 == type2 {
                type1
            } else {
                or_else
            },
    {
        if type1 == type2 {
            type1
        } else {
            or_else
        }
    }

    /// Check every top-level expression of `ast`, accumulating one error
    /// per failing top-level expression; the annotated tree when all of
    /// them check, and the ordered errors otherwise.
    pub fn check(&mut self, ast: Ast) -> (r: Result<Ast, Vec<CheckError>>)
        requires
            old(self)@.wf(),
        ensures
            final(self)@.wf(),
            ({
                let out = spec_check_top(old(self)@, ast@);
                &&& final(self)@ == out.sm
                &&& match r {
                    Ok(checked) => out.errors.len() == 0 && checked@ == out.checked,
                    Err(errs) => out.errors.len() > 0 && error_views(errs@) == out.errors,
                }
            }),
    {
        let exprs = ast.0;
        let n = exprs.len();
        let mut checked_exprs: Vec<Expression> = Vec::new();
        let mut errors: Vec<CheckError> = Vec::new();
        let mut i: usize = 0;
        proof {
            lemma_views_of(exprs@);
            let s = views_of(exprs@);
            assert(s.subrange(0, n as int) =~= s);
            let rest = spec_check_top(self@, s);
            assert(views_of(checked_exprs@) + rest.checked =~= rest.checked);
            assert(error_views(errors@) + rest.errors =~= rest.errors);
        }
        while i < n
            invariant
                n == exprs@.len(),
                i <= n,
                self@.wf(),
                forall|j: int| 0 <= j < exprs@.len() ==> #[trigger] views_of(exprs@)[j]
                    == exprs@[j]@,
                views_of(exprs@).len() == exprs@.len(),
                ({
                    let full = spec_check_top(old(self)@, views_of(exprs@));
                    let rest = spec_check_top(
                        self@,
                        views_of(exprs@).subrange(i as int, n as int),
                    );
                    &&& full.checked == views_of(checked_exprs@) + rest.checked
                    &&& full.errors == error_views(errors@) + rest.errors
                    &&& full.sm == rest.sm
                }),
            decreases n - i,
        {
            let ghost pre = self@;
            let ghost s = views_of(exprs@);
            let ghost tail = s.subrange(i as int, n as int);
            match self.check_expression(&exprs[i], None) {
                Ok(checked_expr) => {
                    proof {
                        lemma_views_of(checked_exprs@.push(checked_expr));
                        lemma_views_of(checked_exprs@);
                        assert(tail.subrange(1, tail.len() as int) =~= s.subrange(
                            i + 1 as int,
                            n as int,
                        ));
                        assert(tail[0] == exprs@[i as int]@);
                        let rest2 = spec_check_top(self@, s.subrange(i + 1 as int, n as int));
                        assert(views_of(checked_exprs@.push(checked_expr)) =~= views_of(
                            checked_exprs@,
                        ).push(checked_expr@));
                        assert(views_of(checked_exprs@) + (seq![checked_expr@] + rest2.checked)
                            =~= views_of(checked_exprs@.push(checked_expr)) + rest2.checked);
                    }
                    checked_exprs.push(checked_expr);
                },
                Err(err) => {
                    proof {
                        assert(tail.subrange(1, tail.len() as int) =~= s.subrange(
                            i + 1 as int,
                            n as int,
                        ));
                        assert(tail[0] == exprs@[i as int]@);
                        let rest2 = spec_check_top(self@, s.subrange(i + 1 as int, n as int));
                        assert(error_views(errors@.push(err)) =~= error_views(errors@).push(err@));
                        assert(error_views(errors@) + (seq![err@] + rest2.errors) =~= error_views(
                            errors@.push(err),
                        ) + rest2.errors);
                    }
                    errors.push(err);
                },
            }
            i = i + 1;
        }
        proof {
            let s = views_of(exprs@);
            assert(s.subrange(n as int, n as int) =~= Seq::<ExprView>::empty());
            let full = spec_check_top(old(self)@, s);
            assert(full.checked =~= views_of(checked_exprs@));
            assert(full.errors =~= error_views(errors@));
        }
        if errors.len() > 0 {
            Err(errors)
        } else {
            Ok(Ast(checked_exprs))
        }
    }

    /// Check one expression against an optional expected type,
    /// dispatching on its kind; the heart of the checker.
    fn check_expression(&mut self, expr: &Expression, type_hint: Option<ScopeTypeId>) -> (r:
        Result<Expression, CheckError>)
        requires
            old(self)@.wf(),
        ensures
            final(self)@.wf(),
            old(self)@.scopes.len() <= final(self)@.scopes.len(),
            match r {
                Ok(e2) => spec_check(old(self)@, expr@, hint_view(type_hint))
                    == CheckOutcome::Done(e2@, final(self)@),
                Err(err) => spec_check(old(self)@, expr@, hint_view(type_hint))
                    == CheckOutcome::Fail(err@, final(self)@),
            },
        decreases expr, 1int,
    {
        match &expr.kind {
            ExpressionKind::LiteralBool(_) => self.expect(expr.duplicate(), BOOL_TYPE_ID, type_hint),
            ExpressionKind::LiteralInt(_) => self.expect(expr.duplicate(), INT_TYPE_ID, type_hint),
            ExpressionKind::LiteralFloat(_) => self.expect(
                expr.duplicate(),
                FLOAT_TYPE_ID,
                type_hint,
            ),
            ExpressionKind::Ident(_) => self.check_ident(expr, type_hint),
            ExpressionKind::Prefix { .. } => self.check_prefix(expr, type_hint),
            ExpressionKind::Infix { op, .. } => match op {
                InfixOp::Add
                | InfixOp::Subtract
                | InfixOp::Multiply
                | InfixOp::Divide
                | InfixOp::Power => self.check_arithmetic(expr, type_hint),
                InfixOp::LessThan
                | InfixOp::LessThanOrEqual
                | InfixOp::GreaterThan
                | InfixOp::GreaterThanOrEqual => self.check_comparison(expr, type_hint),
                InfixOp::Equals | InfixOp::NotEquals => self.check_equality(expr, type_hint),
            },
            ExpressionKind::Block(..) => self.check_block(expr, type_hint),
            ExpressionKind::VariableDecl { .. } => self.check_decl(expr, type_hint),
            ExpressionKind::VariableAssignment { .. } => self.check_assignment(expr, type_hint),
            ExpressionKind::FunctionCall { .. } => self.check_function_call(expr, type_hint),
            ExpressionKind::MethodCall { .. } => self.check_method_call(expr, type_hint),
        }
    }

    /// The checking rule for a variable reference: its recorded type,
    /// found on the scope chain, against the hint.
    fn check_ident(&mut self, expr: &Expression, type_hint: Option<ScopeTypeId>) -> (r: Result<
        Expression,
        CheckError,
    >)
        requires
            old(self)@.wf(),
            expr@.kind is Ident,
        ensures
            final(self)@.wf(),
            old(self)@.scopes.len() <= final(self)@.scopes.len(),
            match r {
                Ok(e2) => spec_check(old(self)@, expr@, hint_view(type_hint))
                    == CheckOutcome::Done(e2@, final(self)@),
                Err(err) => spec_check(old(self)@, expr@, hint_view(type_hint))
                    == CheckOutcome::Fail(err@, final(self)@),
            },
        decreases expr, 0int,
    {
        match &expr.kind {
            ExpressionKind::Ident(name) => {
                let cur = self.scope_manager.cur;
                let tid_opt = match self.scope_manager.lookup_var(name.as_str(), cur) {
                    Some(v) => Some(v.type_id),
                    None => None,
                };
                match tid_opt {
                    Some(tid) => self.expect(expr.duplicate(), tid, type_hint),
                    None => Err(CheckError::variable_not_found(name.as_str(), &expr.span)),
                }
            },
            // dead arm: the dispatcher sends only this kind here
            _ => {
                proof {
                    assert(false);
                }
                Err(CheckError::variable_not_found("", &expr.span))
            },
        }
    }

    /// The checking rule for logical not: the operand must check as
    /// `Bool`, and the result is `Bool`.
    fn check_prefix(&mut self, expr: &Expression, type_hint: Option<ScopeTypeId>) -> (r: Result<
        Expression,
        CheckError,
    >)
        requires
            old(self)@.wf(),
            expr@.kind is Prefix,
        ensures
            final(self)@.wf(),
            old(self)@.scopes.len() <= final(self)@.scopes.len(),
            match r {
                Ok(e2) => spec_check(old(self)@, expr@, hint_view(type_hint))
                    == CheckOutcome::Done(e2@, final(self)@),
                Err(err) => spec_check(old(self)@, expr@, hint_view(type_hint))
                    == CheckOutcome::Fail(err@, final(self)@),
            },
        decreases expr, 0int,
    {
        match &expr.kind {
            ExpressionKind::Prefix { op, rh } => match self.check_expression(
                rh,
                Some(BOOL_TYPE_ID),
            ) {
                Ok(rh2) => {
                    let new_kind = ExpressionKind::Prefix { op: *op, rh: Box::new(rh2) };
                    self.expect(expr.with_kind(new_kind), BOOL_TYPE_ID, type_hint)
                },
                Err(err) => Err(err),
            },
            // dead arm: the dispatcher sends only this kind here
            _ => {
                proof {
                    assert(false);
                }
                Err(CheckError::variable_not_found("", &expr.span))
            },
        }
    }

    /// The checking rule for an arithmetic operator: each operand checks
    /// as `Int` or else as `Float`; division always yields `Float`, the
    /// others keep the operands' shared type and promote mismatched
    /// operands to `Float`.
    fn check_arithmetic(&mut self, expr: &Expression, type_hint: Option<ScopeTypeId>) -> (r:
        Result<Expression, CheckError>)
        requires
            old(self)@.wf(),
            expr@.kind is Infix,
            expr@.kind matches ExprKindView::Infix { op, .. } && (op == InfixOp::Add || op
                == InfixOp::Subtract || op == InfixOp::Multiply || op == InfixOp::Divide || op
                == InfixOp::Power),
        ensures
            final(self)@.wf(),
            old(self)@.scopes.len() <= final(self)@.scopes.len(),
            match r {
                Ok(e2) => spec_check(old(self)@, expr@, hint_view(type_hint))
                    == CheckOutcome::Done(e2@, final(self)@),
                Err(err) => spec_check(old(self)@, expr@, hint_view(type_hint))
                    == CheckOutcome::Fail(err@, final(self)@),
            },
        decreases expr, 0int,
    {
        match &expr.kind {
            ExpressionKind::Infix { op, lh, rh } => {
                let hints1 = vec![INT_TYPE_ID, FLOAT_TYPE_ID];
                let hints2 = vec![INT_TYPE_ID, FLOAT_TYPE_ID];
                proof {
                    assert(ids_view(hints1@) =~= seq![INT_TYPE_ID as int, FLOAT_TYPE_ID as int]);
                    assert(ids_view(hints2@) =~= seq![INT_TYPE_ID as int, FLOAT_TYPE_ID as int]);
                }
                match self.expect_with_types(lh, hints1) {
                    Ok((lh2, lh_type)) => match self.expect_with_types(rh, hints2) {
                        Ok((rh2, rh_type)) => {
                            let res_type = match op {
                                InfixOp::Divide => FLOAT_TYPE_ID,
                                _ => Checker::choose_btw_types(lh_type, rh_type, FLOAT_TYPE_ID),
                            };
                            let new_kind = ExpressionKind::Infix {
                                op: *op,
                                lh: Box::new(lh2),
                                rh: Box::new(rh2),
                            };
                            self.expect(expr.with_kind(new_kind), res_type, type_hint)
                        },
                        Err(err) => Err(err),
                    },
                    Err(err) => Err(err),
                }
            },
            // dead arm: the dispatcher sends only this kind here
            _ => {
                proof {
                    assert(false);
                }
                Err(CheckError::variable_not_found("", &expr.span))
            },
        }
    }

    /// The checking rule for a comparison operator: operands as in
    /// arithmetic, result always `Bool`.
    fn check_comparison(&mut self, expr: &Expression, type_hint: Option<ScopeTypeId>) -> (r:
        Result<Expression, CheckError>)
        requires
            old(self)@.wf(),
            expr@.kind matches ExprKindView::Infix { op, .. } && (op == InfixOp::LessThan || op
                == InfixOp::LessThanOrEqual || op == InfixOp::GreaterThan || op
                == InfixOp::GreaterThanOrEqual),
        ensures
            final(self)@.wf(),
            old(self)@.scopes.len() <= final(self)@.scopes.len(),
            match r {
                Ok(e2) => spec_check(old(self)@, expr@, hint_view(type_hint))
                    == CheckOutcome::Done(e2@, final(self)@),
                Err(err) => spec_check(old(self)@, expr@, hint_view(type_hint))
                    == CheckOutcome::Fail(err@, final(self)@),
            },
        decreases expr, 0int,
    {
        match &expr.kind {
            ExpressionKind::Infix { op, lh, rh } => {
                let hints1 = vec![INT_TYPE_ID, FLOAT_TYPE_ID];
                let hints2 = vec![INT_TYPE_ID, FLOAT_TYPE_ID];
                proof {
                    assert(ids_view(hints1@) =~= seq![INT_TYPE_ID as int, FLOAT_TYPE_ID as int]);
                    assert(ids_view(hints2@) =~= seq![INT_TYPE_ID as int, FLOAT_TYPE_ID as int]);
                }
                match self.expect_with_types(lh, hints1) {
                    Ok((lh2, _)) => match self.expect_with_types(rh, hints2) {
                        Ok((rh2, _)) => {
                            let new_kind = ExpressionKind::Infix {
                                op: *op,
                                lh: Box::new(lh2),
                                rh: Box::new(rh2),
                            };
                            self.expect(expr.with_kind(new_kind), BOOL_TYPE_ID, type_hint)
                        },
                        Err(err) => Err(err),
                    },
                    Err(err) => Err(err),
                }
            },
            // dead arm: the dispatcher sends only this kind here
            _ => {
                proof {
                    assert(false);
                }
                Err(CheckError::variable_not_found("", &expr.span))
            },
        }
    }

    /// The checking rule for equality: both operands check with no hint
    /// and must resolve to the same type; the node is rebuilt from its
    /// checked operands and the result is `Bool`.
    fn check_equality(&mut self, expr: &Expression, type_hint: Option<ScopeTypeId>) -> (r: Result<
        Expression,
        CheckError,
    >)
        requires
            old(self)@.wf(),
            expr@.kind matches ExprKindView::Infix { op, .. } && (op == InfixOp::Equals || op
                == InfixOp::NotEquals),
        ensures
            final(self)@.wf(),
            old(self)@.scopes.len() <= final(self)@.scopes.len(),
            match r {
                Ok(e2) => spec_check(old(self)@, expr@, hint_view(type_hint))
                    == CheckOutcome::Done(e2@, final(self)@),
                Err(err) => spec_check(old(self)@, expr@, hint_view(type_hint))
                    == CheckOutcome::Fail(err@, final(self)@),
            },
        decreases expr, 0int,
    {
        match &expr.kind {
            ExpressionKind::Infix { op, lh, rh } => match self.check_expression(lh, None) {
                Ok(lh2) => match self.check_expression(rh, None) {
                    Ok(rh2) => {
                        let lt = lh2.ty().1;
                        let rt = rh2.ty().1;
                        if lt != rt {
                            let expected = vec![lt];
                            proof {
                                assert(ids_view(expected@) =~= seq![lt as int]);
                            }
                            Err(CheckError::type_mismatch(expected, rt, &expr.span))
                        } else {
                            let new_kind = ExpressionKind::Infix {
                                op: *op,
                                lh: Box::new(lh2),
                                rh: Box::new(rh2),
                            };
                            self.expect(expr.with_kind(new_kind), BOOL_TYPE_ID, type_hint)
                        }
                    },
                    Err(err) => Err(err),
                },
                Err(err) => Err(err),
            },
            // dead arm: the dispatcher sends only this kind here
            _ => {
                proof {
                    assert(false);
                }
                Err(CheckError::variable_not_found("", &expr.span))
            },
        }
    }

    /// The checking rule for a block: enter a fresh child scope, check
    /// the sub-expressions in order with the hint reaching only the last,
    /// take the last one's type (or `Unit` when empty), and restore the
    /// enclosing scope before returning, whether checking succeeded or
    /// failed.
    fn check_block(&mut self, expr: &Expression, type_hint: Option<ScopeTypeId>) -> (r: Result<
        Expression,
        CheckError,
    >)
        requires
            old(self)@.wf(),
            expr@.kind is Block,
        ensures
            final(self)@.wf(),
            old(self)@.scopes.len() <= final(self)@.scopes.len(),
            match r {
                Ok(e2) => spec_check(old(self)@, expr@, hint_view(type_hint))
                    == CheckOutcome::Done(e2@, final(self)@),
                Err(err) => spec_check(old(self)@, expr@, hint_view(type_hint))
                    == CheckOutcome::Fail(err@, final(self)@),
            },
        decreases expr, 0int,
    {
        match &expr.kind {
            ExpressionKind::Block(exprs) => {
                let original_scope = self.scope_manager.cur;
                let new_scope = self.scope_manager.create_scope(original_scope);
                self.scope_manager.set_cur(new_scope);
                match self.check_all(exprs, type_hint) {
                    Ok(checked_exprs) => {
                        proof {
                            lemma_views_of(checked_exprs@);
                        }
                        let block_type = if checked_exprs.len() > 0 {
                            checked_exprs[checked_exprs.len() - 1].ty().1
                        } else {
                            UNIT_TYPE_ID
                        };
                        self.scope_manager.set_cur(original_scope);
                        let new_kind = ExpressionKind::Block(checked_exprs);
                        self.expect(expr.with_kind(new_kind), block_type, type_hint)
                    },
                    Err(err) => {
                        self.scope_manager.set_cur(original_scope);
                        Err(err)
                    },
                }
            },
            // dead arm: the dispatcher sends only this kind here
            _ => {
                proof {
                    assert(false);
                }
                Err(CheckError::variable_not_found("", &expr.span))
            },
        }
    }

    /// The checking rule for a declaration: resolve the explicit type
    /// name when one is given and check the initializer against it, else
    /// infer; register the variable under the current scope; the
    /// declaration itself has type `Unit`.
    fn check_decl(&mut self, expr: &Expression, type_hint: Option<ScopeTypeId>) -> (r: Result<
        Expression,
        CheckError,
    >)
        requires
            old(self)@.wf(),
            expr@.kind is VariableDecl,
        ensures
            final(self)@.wf(),
            old(self)@.scopes.len() <= final(self)@.scopes.len(),
            match r {
                Ok(e2) => spec_check(old(self)@, expr@, hint_view(type_hint))
                    == CheckOutcome::Done(e2@, final(self)@),
                Err(err) => spec_check(old(self)@, expr@, hint_view(type_hint))
                    == CheckOutcome::Fail(err@, final(self)@),
            },
        decreases expr, 0int,
    {
        match &expr.kind {
            ExpressionKind::VariableDecl { name, value, mutable, ty } => {
                let cur = self.scope_manager.cur;
                let checked_value = match ty {
                    Some(t) => {
                        let tid_opt = match self.scope_manager.lookup_type(t.0.as_str(), cur) {
                            Some(st) => Some(st.id),
                            None => None,
                        };
                        match tid_opt {
                            None => {
                                return Err(
                                    CheckError::type_name_not_found(t.0.as_str(), &expr.span),
                                );
                            },
                            Some(tid) => self.check_expression(value, Some(tid)),
                        }
                    },
                    None => self.check_expression(value, None),
                };
                match checked_value {
                    Ok(value2) => {
                        let vt = value2.ty().1;
                        self.scope_manager.add_var(name.as_str(), vt, *mutable);
                        let ty2 = match ty {
                            Some(t) => Some(TypeIdent(t.0.clone())),
                            None => None,
                        };
                        let new_kind = ExpressionKind::VariableDecl {
                            name: name.clone(),
                            value: Box::new(value2),
                            mutable: *mutable,
                            ty: ty2,
                        };
                        self.expect(expr.with_kind(new_kind), UNIT_TYPE_ID, type_hint)
                    },
                    Err(err) => Err(err),
                }
            },
            // dead arm: the dispatcher sends only this kind here
            _ => {
                proof {
                    assert(false);
                }
                Err(CheckError::variable_not_found("", &expr.span))
            },
        }
    }

    /// The checking rule for an assignment: the target must be declared
    /// and mutable, the new value checks against its recorded type, and
    /// the assignment itself has type `Unit`.
    fn check_assignment(&mut self, expr: &Expression, type_hint: Option<ScopeTypeId>) -> (r:
        Result<Expression, CheckError>)
        requires
            old(self)@.wf(),
            expr@.kind is VariableAssignment,
        ensures
            final(self)@.wf(),
            old(self)@.scopes.len() <= final(self)@.scopes.len(),
            match r {
                Ok(e2) => spec_check(old(self)@, expr@, hint_view(type_hint))
                    == CheckOutcome::Done(e2@, final(self)@),
                Err(err) => spec_check(old(self)@, expr@, hint_view(type_hint))
                    == CheckOutcome::Fail(err@, final(self)@),
            },
        decreases expr, 0int,
    {
        match &expr.kind {
            ExpressionKind::VariableAssignment { name, value } => {
                let cur = self.scope_manager.cur;
                let found = match self.scope_manager.lookup_var(name.as_str(), cur) {
                    Some(v) => Some((v.mutable, v.type_id)),
                    None => None,
                };
                match found {
                    None => Err(CheckError::variable_not_found(name.as_str(), &expr.span)),
                    Some((is_mutable, tid)) => {
                        if !is_mutable {
                            return Err(
                                CheckError::assign_to_const_variable(name.as_str(), &expr.span),
                            );
                        }
                        match self.check_expression(value, Some(tid)) {
                            Ok(value2) => {
                                let new_kind = ExpressionKind::VariableAssignment {
                                    name: name.clone(),
                                    value: Box::new(value2),
                                };
                                self.expect(expr.with_kind(new_kind), UNIT_TYPE_ID, type_hint)
                            },
                            Err(err) => Err(err),
                        }
                    },
                }
            },
            // dead arm: the dispatcher sends only this kind here
            _ => {
                proof {
                    assert(false);
                }
                Err(CheckError::variable_not_found("", &expr.span))
            },
        }
    }

    /// The checking rule for a call: only the one recognized built-in
    /// name is known; arguments check with no hint; the call has type
    /// `Unit`.
    fn check_function_call(&mut self, expr: &Expression, type_hint: Option<ScopeTypeId>) -> (r:
        Result<Expression, CheckError>)
        requires
            old(self)@.wf(),
            expr@.kind is FunctionCall,
        ensures
            final(self)@.wf(),
            old(self)@.scopes.len() <= final(self)@.scopes.len(),
            match r {
                Ok(e2) => spec_check(old(self)@, expr@, hint_view(type_hint))
                    == CheckOutcome::Done(e2@, final(self)@),
                Err(err) => spec_check(old(self)@, expr@, hint_view(type_hint))
                    == CheckOutcome::Fail(err@, final(self)@),
            },
        decreases expr, 0int,
    {
        match &expr.kind {
            ExpressionKind::FunctionCall { name, args } => {
                if !str_eq(name.as_str(), "to_unit") {
                    return Err(CheckError::function_not_found(name.as_str(), &expr.span));
                }
                match self.check_all(args, None) {
                    Ok(args2) => {
                        let new_kind = ExpressionKind::FunctionCall {
                            name: name.clone(),
                            args: args2,
                        };
                        self.expect(expr.with_kind(new_kind), UNIT_TYPE_ID, type_hint)
                    },
                    Err(err) => Err(err),
                }
            },
            // dead arm: the dispatcher sends only this kind here
            _ => {
                proof {
                    assert(false);
                }
                Err(CheckError::variable_not_found("", &expr.span))
            },
        }
    }

    /// The checking rule for a method call: as for a call, with the
    /// receiver checked first, with no hint.
    fn check_method_call(&mut self, expr: &Expression, type_hint: Option<ScopeTypeId>) -> (r:
        Result<Expression, CheckError>)
        requires
            old(self)@.wf(),
            expr@.kind is MethodCall,
        ensures
            final(self)@.wf(),
            old(self)@.scopes.len() <= final(self)@.scopes.len(),
            match r {
                Ok(e2) => spec_check(old(self)@, expr@, hint_view(type_hint))
                    == CheckOutcome::Done(e2@, final(self)@),
                Err(err) => spec_check(old(self)@, expr@, hint_view(type_hint))
                    == CheckOutcome::Fail(err@, final(self)@),
            },
        decreases expr, 0int,
    {
        match &expr.kind {
            ExpressionKind::MethodCall { caller, name, args } => {
                if !str_eq(name.as_str(), "to_unit") {
                    return Err(CheckError::method_not_found(name.as_str(), &expr.span));
                }
                match self.check_expression(caller, None) {
                    Ok(caller2) => match self.check_all(args, None) {
                        Ok(args2) => {
                            let new_kind = ExpressionKind::MethodCall {
                                caller: Box::new(caller2),
                                name: name.clone(),
                                args: args2,
                            };
                            self.expect(expr.with_kind(new_kind), UNIT_TYPE_ID, type_hint)
                        },
                        Err(err) => Err(err),
                    },
                    Err(err) => Err(err),
                }
            },
            // dead arm: the dispatcher sends only this kind here
            _ => {
                proof {
                    assert(false);
                }
                Err(CheckError::variable_not_found("", &expr.span))
            },
        }
    }

    /// Check a list of expressions in order, fail-fast, handing the
    /// ambient hint only to the last one.
    fn check_all(&mut self, exprs: &Vec<Expression>, type_hint: Option<ScopeTypeId>) -> (r: Result<
        Vec<Expression>,
        CheckError,
    >)
        requires
            old(self)@.wf(),
        ensures
            final(self)@.wf(),
            old(self)@.scopes.len() <= final(self)@.scopes.len(),
            match r {
                Ok(out) => spec_check_seq(old(self)@, views_of(exprs@), hint_view(type_hint))
                    == SeqOutcome::Done(views_of(out@), final(self)@),
                Err(err) => spec_check_seq(old(self)@, views_of(exprs@), hint_view(type_hint))
                    == SeqOutcome::Fail(err@, final(self)@),
            },
        decreases exprs@, 1int,
    {
        let n = exprs.len();
        let mut out: Vec<Expression> = Vec::new();
        let mut i: usize = 0;
        proof {
            lemma_views_of(exprs@);
            let s = views_of(exprs@);
            let hv = hint_view(type_hint);
            assert(s.subrange(0, n as int) =~= s);
            if let SeqOutcome::Done(rest, smf) = spec_check_seq(self@, s, hv) {
                assert(views_of(out@) + rest =~= rest);
            }
        }
        while i < n
            invariant
                old(self)@.wf(),
                n == exprs@.len(),
                i <= n,
                self@.wf(),
                old(self)@.scopes.len() <= self@.scopes.len(),
                forall|j: int| 0 <= j < exprs@.len() ==> #[trigger] views_of(exprs@)[j]
                    == exprs@[j]@,
                views_of(exprs@).len() == exprs@.len(),
                ({
                    let s = views_of(exprs@);
                    let hv = hint_view(type_hint);
                    match spec_check_seq(self@, s.subrange(i as int, n as int), hv) {
                        SeqOutcome::Done(rest, smf) => spec_check_seq(old(self)@, s, hv)
                            == SeqOutcome::Done(views_of(out@) + rest, smf),
                        SeqOutcome::Fail(err, smf) => spec_check_seq(old(self)@, s, hv)
                            == SeqOutcome::Fail(err, smf),
                    }
                }),
            decreases n - i,
        {
            let ghost s = views_of(exprs@);
            let ghost tail = s.subrange(i as int, n as int);
            let hint_i: Option<ScopeTypeId> = if i == n - 1 {
                type_hint
            } else {
                None
            };
            proof {
                assert(tail.subrange(1, tail.len() as int) =~= s.subrange(
                    i + 1 as int,
                    n as int,
                ));
                assert(tail[0] == exprs@[i as int]@);
            }
            match self.check_expression(&exprs[i], hint_i) {
                Ok(e2) => {
                    proof {
                        lemma_views_of(out@.push(e2));
                        lemma_views_of(out@);
                        let rest2 = spec_check_seq(
                            self@,
                            s.subrange(i + 1 as int, n as int),
                            hint_view(type_hint),
                        );
                        assert(views_of(out@.push(e2)) =~= views_of(out@).push(e2@));
                        if let SeqOutcome::Done(rest, smf) = rest2 {
                            assert(views_of(out@) + (seq![e2@] + rest) =~= views_of(out@.push(e2))
                                + rest);
                        }
                    }
                    out.push(e2);
                    i = i + 1;
                },
                Err(err) => {
                    return Err(err);
                },
            }
        }
        proof {
            let s = views_of(exprs@);
            assert(s.subrange(n as int, n as int) =~= Seq::<ExprView>::empty());
            assert(views_of(out@) + Seq::<ExprView>::empty() =~= views_of(out@));
        }
        Ok(out)
    }

    /// Try the candidate hints in order and keep the first that lets the
    /// expression check, together with the hint that won. When every hint
    /// fails, the expression is checked once more without a hint, so the
    /// mismatch error can name the type it actually resolves to; an
    /// expression that does not check at all reports its own error.
    fn expect_with_types(&mut self, expr: &Expression, type_hints: Vec<ScopeTypeId>) -> (r: Result<
        (Expression, ScopeTypeId),
        CheckError,
    >)
        requires
            old(self)@.wf(),
        ensures
            final(self)@.wf(),
            old(self)@.scopes.len() <= final(self)@.scopes.len(),
            match r {
                Ok((e2, chosen)) => spec_try_types(old(self)@, expr@, ids_view(type_hints@), 0)
                    == TryOutcome::Accept(e2@, chosen as int, final(self)@),
                Err(err) => spec_try_types(old(self)@, expr@, ids_view(type_hints@), 0)
                    == TryOutcome::Reject(err@, final(self)@),
            },
        decreases expr, 2int,
    {
        let n = type_hints.len();
        let mut i: usize = 0;
        while i < n
            invariant
                old(self)@.wf(),
                n == type_hints@.len(),
                i <= n,
                self@.wf(),
                old(self)@.scopes.len() <= self@.scopes.len(),
                spec_try_types(old(self)@, expr@, ids_view(type_hints@), 0) == spec_try_types(
                    self@,
                    expr@,
                    ids_view(type_hints@),
                    i as int,
                ),
            decreases n - i,
        {
            let h = type_hints[i];
            match self.check_expression(expr, Some(h)) {
                Ok(e2) => {
                    proof {
                        assert(ids_view(type_hints@)[i as int] == h as int);
                    }
                    return Ok((e2, h));
                },
                Err(_) => {
                    proof {
                        assert(ids_view(type_hints@)[i as int] == h as int);
                    }
                    i = i + 1;
                },
            }
        }
        match self.check_expression(expr, None) {
            Ok(resolved) => {
                let found = resolved.ty().1;
                Err(CheckError::type_mismatch(type_hints, found, &expr.span))
            },
            Err(err) => Err(err),
        }
    }

    /// The shared terminal step: resolve the expected type on the
    /// current scope chain, reject a hint that differs from it, and
    /// otherwise annotate the expression with it.
    fn expect(&self, expr: Expression, exp_type: ScopeTypeId, type_hint: Option<ScopeTypeId>) -> (r:
        Result<Expression, CheckError>)
        requires
            self@.wf(),
        ensures
            match r {
                Ok(e2) => spec_expect(self@, expr@, exp_type as int, hint_view(type_hint))
                    == CheckOutcome::Done(e2@, self@),
                Err(err) => spec_expect(self@, expr@, exp_type as int, hint_view(type_hint))
                    == CheckOutcome::Fail(err@, self@),
            },
    {
        let cur = self.scope_manager.cur;
        match self.scope_manager.get_type(exp_type, cur) {
            None => Err(CheckError::type_not_found(exp_type, &expr.span)),
            Some(scope_type) => match type_hint {
                Some(h) => if h == exp_type {
                    Ok(expr.mark_checked((scope_type.name.as_str(), scope_type.id)))
                } else {
                    let hints = vec![h];
                    proof {
                        assert(ids_view(hints@) =~= seq![h as int]);
                    }
                    Err(CheckError::type_mismatch(hints, exp_type, &expr.span))
                },
                None => Ok(expr.mark_checked((scope_type.name.as_str(), scope_type.id))),
            },
        }
    }
}

} // verus!
