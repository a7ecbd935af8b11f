use vstd::prelude::*;
use vstd::string::*;

use crate::span::Span;

verus! {

/// A prefix operator.
#[derive(Clone, Copy, Debug, PartialEq, Eq, Structural)]
pub enum PrefixOp {
    Not,
}

/// An infix operator.
#[derive(Clone, Copy, Debug, PartialEq, Eq, Structural)]
pub enum InfixOp {
    Add,
    Subtract,
    Multiply,
    Divide,
    Power,
    LessThan,
    LessThanOrEqual,
    GreaterThan,
    GreaterThanOrEqual,
    Equals,
    NotEquals,
}

/// The name of a type as written in the source, before resolution.
#[derive(Clone, Debug)]
pub struct TypeIdent(pub String);

/// What an expression is. A float literal keeps its source text: the
/// checker only needs its kind, and the text never loses information.
#[derive(Debug)]
pub enum ExpressionKind {
    LiteralInt(isize),
    LiteralFloat(String),
    LiteralBool(bool),
    Ident(String),
    Prefix { op: PrefixOp, rh: Box<Expression> },
    Infix { op: InfixOp, lh: Box<Expression>, rh: Box<Expression> },
    Block(Vec<Expression>),
    VariableDecl { name: String, value: Box<Expression>, mutable: bool, ty: Option<TypeIdent> },
    VariableAssignment { name: String, value: Box<Expression> },
    FunctionCall { name: String, args: Vec<Expression> },
    MethodCall { caller: Box<Expression>, name: String, args: Vec<Expression> },
}

/// Whether an expression has been through the checker. A checked
/// expression carries the name and id of its assigned type; an unchecked
/// one carries nothing, and nothing downstream treats it as typed.
#[derive(Debug)]
pub enum ExpressionState {
    Checked(String, usize),
    Unchecked,
}

/// One node of the abstract syntax tree: what it is, where it stands in
/// the source, and whether the checker has assigned it a type.
#[derive(Debug)]
pub struct Expression {
    pub kind: ExpressionKind,
    pub span: Span,
    pub state: ExpressionState,
}

/// The mathematical value of an `ExpressionKind`: names and literal texts
/// as character sequences, children as views.
pub ghost enum ExprKindView {
    LiteralInt(int),
    LiteralFloat(Seq<char>),
    LiteralBool(bool),
    Ident(Seq<char>),
    Prefix { op: PrefixOp, rh: Box<ExprView> },
    Infix { op: InfixOp, lh: Box<ExprView>, rh: Box<ExprView> },
    Block(Seq<ExprView>),
    VariableDecl { name: Seq<char>, value: Box<ExprView>, mutable: bool, ty: Option<Seq<char>> },
    VariableAssignment { name: Seq<char>, value: Box<ExprView> },
    FunctionCall { name: Seq<char>, args: Seq<ExprView> },
    MethodCall { caller: Box<ExprView>, name: Seq<char>, args: Seq<ExprView> },
}

/// The mathematical value of an `ExpressionState`.
pub ghost enum StateView {
    Checked(Seq<char>, int),
    Unchecked,
}

/// The mathematical value of an `Expression`.
pub ghost struct ExprView {
    pub kind: ExprKindView,
    pub span: Span,
    pub state: StateView,
}

impl Expression {
    /// The mathematical value of this expression.
    pub open spec fn view(&self) -> ExprView
        decreases self,
    {
        ExprView { kind: self.kind.view(), span: self.span, state: self.state.view() }
    }
}

/// The views of a sequence of expressions, in order.
pub open spec fn views_of(s: Seq<Expression>) -> Seq<ExprView>
    decreases s,
{
    if s.len() == 0 {
        Seq::empty()
    } else {
        views_of(s.subrange(0, s.len() - 1)).push(s[s.len() - 1]@)
    }
}

/// `views_of` maps the view over the sequence, element by element.
pub proof fn lemma_views_of(s: Seq<Expression>)
    ensures
        views_of(s).len() == s.len(),
        forall|i: int| 0 <= i < s.len() ==> #[trigger] views_of(s)[i] == s[i]@,
    decreases s.len(),
{
    if s.len() > 0 {
        lemma_views_of(s.subrange(0, s.len() - 1));
        assert(forall|i: int|
            0 <= i < s.len() - 1 ==> s.subrange(0, s.len() - 1)[i] == #[trigger] s[i]);
    }
}

impl ExpressionState {
    /// The mathematical value of this state.
    pub open spec fn view(&self) -> StateView {
        match self {
            ExpressionState::Checked(name, id) => StateView::Checked(name@, *id as int),
            ExpressionState::Unchecked => StateView::Unchecked,
        }
    }
}

impl ExpressionKind {
    /// The mathematical value of this kind.
    pub open spec fn view(&self) -> ExprKindView
        decreases self,
    {
        match self {
            ExpressionKind::LiteralInt(v) => ExprKindView::LiteralInt(*v as int),
            ExpressionKind::LiteralFloat(text) => ExprKindView::LiteralFloat(text@),
            ExpressionKind::LiteralBool(b) => ExprKindView::LiteralBool(*b),
            ExpressionKind::Ident(name) => ExprKindView::Ident(name@),
            ExpressionKind::Prefix { op, rh } => ExprKindView::Prefix {
                op: *op,
                rh: Box::new(rh.view()),
            },
            ExpressionKind::Infix { op, lh, rh } => ExprKindView::Infix {
                op: *op,
                lh: Box::new(lh.view()),
                rh: Box::new(rh.view()),
            },
            ExpressionKind::Block(exprs) => ExprKindView::Block(views_of(exprs@)),
            ExpressionKind::VariableDecl { name, value, mutable, ty } => {
                ExprKindView::VariableDecl {
                    name: name@,
                    value: Box::new(value.view()),
                    mutable: *mutable,
                    ty: match ty {
                        Some(t) => Some(t.0@),
                        None => None,
                    },
                }
            },
            ExpressionKind::VariableAssignment { name, value } => {
                ExprKindView::VariableAssignment { name: name@, value: Box::new(value.view()) }
            },
            ExpressionKind::FunctionCall { name, args } => ExprKindView::FunctionCall {
                name: name@,
                args: views_of(args@),
            },
            ExpressionKind::MethodCall { caller, name, args } => ExprKindView::MethodCall {
                caller: Box::new(caller.view()),
                name: name@,
                args: views_of(args@),
            },
        }
    }
}

impl Expression {
    /// A fresh, unchecked expression.
    pub fn new(kind: ExpressionKind, span: Span) -> (e: Expression)
        ensures
            e@ == (ExprView { kind: kind@, span, state: StateView::Unchecked }),
    {
        Expression { kind, span, state: ExpressionState::Unchecked }
    }

    /// The same expression, annotated with the type the checker assigned,
    /// given as a name and an id.
    pub fn mark_checked(self, ty: (&str, usize)) -> (e: Expression)
        ensures
            e@ == (ExprView {
                kind: self.kind@,
                span: self.span,
                state: StateView::Checked(ty.0@, ty.1 as int),
            }),
    {
        Expression {
            kind: self.kind,
            span: self.span,
            state: ExpressionState::Checked(ty.0.to_owned(), ty.1),
        }
    }

    /// The assigned type of a checked expression, as a name and an id; an
    /// unchecked expression reports the sentinel pair `("Unknown", 0)`,
    /// which no table ever maps a real type to.
    pub fn ty(&self) -> (r: (&str, usize))
        ensures
            match self.state@ {
                StateView::Checked(name, id) => r.0@ == name && r.1 as int == id,
                StateView::Unchecked => r.0@ == "Unknown"@ && r.1 == 0,
            },
    {
        match &self.state {
            ExpressionState::Checked(ty_name, ty_id) => (ty_name.as_str(), *ty_id),
            ExpressionState::Unchecked => ("Unknown", 0),
        }
    }

    /// The same expression with another kind, keeping span and state.
    pub fn with_kind(&self, kind: ExpressionKind) -> (e: Expression)
        ensures
            e@ == (ExprView { kind: kind@, span: self.span, state: self.state@ }),
    {
        Expression { kind, span: self.span, state: self.state.duplicate() }
    }
}


impl ExpressionState {
    /// A copy of this state, equal in value.
    pub fn duplicate(&self) -> (s: ExpressionState)
        ensures
            s@ == self@,
    {
        match self {
            ExpressionState::Checked(name, id) => ExpressionState::Checked(name.clone(), *id),
            ExpressionState::Unchecked => ExpressionState::Unchecked,
        }
    }
}

/// A deep copy of a sequence of expressions, equal in view.
pub fn duplicate_exprs(exprs: &Vec<Expression>) -> (out: Vec<Expression>)
    ensures
        views_of(out@) == views_of(exprs@),
    decreases exprs@,
{
    let mut out: Vec<Expression> = Vec::new();
    let mut i: usize = 0;
    while i < exprs.len()
        invariant
            i <= exprs@.len(),
            out@.len() == i,
            forall|j: int| 0 <= j < i ==> (#[trigger] out@[j])@ == exprs@[j]@,
        decreases exprs@.len() - i,
    {
        let e = exprs[i].duplicate();
        out.push(e);
        i = i + 1;
    }
    proof {
        lemma_views_of(out@);
        lemma_views_of(exprs@);
        assert(views_of(out@) =~= views_of(exprs@));
    }
    out
}

impl ExpressionKind {
    /// A deep copy of this kind, equal in view.
    pub fn duplicate(&self) -> (k: ExpressionKind)
        ensures
            k@ == self@,
        decreases self,
    {
        match self {
            ExpressionKind::LiteralInt(v) => ExpressionKind::LiteralInt(*v),
            ExpressionKind::LiteralFloat(text) => ExpressionKind::LiteralFloat(text.clone()),
            ExpressionKind::LiteralBool(b) => ExpressionKind::LiteralBool(*b),
            ExpressionKind::Ident(name) => ExpressionKind::Ident(name.clone()),
            ExpressionKind::Prefix { op, rh } => ExpressionKind::Prefix {
                op: *op,
                rh: Box::new(rh.duplicate()),
            },
            ExpressionKind::Infix { op, lh, rh } => ExpressionKind::Infix {
                op: *op,
                lh: Box::new(lh.duplicate()),
                rh: Box::new(rh.duplicate()),
            },
            ExpressionKind::Block(exprs) => ExpressionKind::Block(duplicate_exprs(exprs)),
            ExpressionKind::VariableDecl { name, value, mutable, ty } => {
                ExpressionKind::VariableDecl {
                    name: name.clone(),
                    value: Box::new(value.duplicate()),
                    mutable: *mutable,
                    ty: match ty {
                        Some(t) => Some(TypeIdent(t.0.clone())),
                        None => None,
                    },
                }
            },
            ExpressionKind::VariableAssignment { name, value } => {
                ExpressionKind::VariableAssignment {
                    name: name.clone(),
                    value: Box::new(value.duplicate()),
                }
            },
            ExpressionKind::FunctionCall { name, args } => ExpressionKind::FunctionCall {
                name: name.clone(),
                args: duplicate_exprs(args),
            },
            ExpressionKind::MethodCall { caller, name, args } => ExpressionKind::MethodCall {
                caller: Box::new(caller.duplicate()),
                name: name.clone(),
                args: duplicate_exprs(args),
            },
        }
    }
}

impl Expression {
    /// A deep copy of this expression, equal in view.
    pub fn duplicate(&self) -> (e: Expression)
        ensures
            e@ == self@,
        decreases self,
    {
        Expression { kind: self.kind.duplicate(), span: self.span, state: self.state.duplicate() }
    }
}

} // verus!

