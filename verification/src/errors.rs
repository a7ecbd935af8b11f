use vstd::prelude::*;
use vstd::string::*;

use crate::scope::ScopeTypeId;
use crate::span::Span;

verus! {

/// A semantic error: where it was found and what went wrong.
#[derive(Debug)]
pub struct CheckError {
    pub span: Span,
    pub kind: CheckErrorKind,
}

/// What went wrong while checking, with the data needed to render a
/// message without re-parsing.
#[derive(Debug)]
pub enum CheckErrorKind {
    TypeMismatch(Vec<ScopeTypeId>, ScopeTypeId),
    VariableNotFound(String),
    AssignToConstVariable(String),
    TypeNameNotFound(String),
    TypeNotFound(ScopeTypeId),
    FunctionNotFound(String),
    MethodNotFound(String),
}

/// The mathematical value of a `CheckErrorKind`.
pub ghost enum CheckErrorKindView {
    TypeMismatch(Seq<int>, int),
    VariableNotFound(Seq<char>),
    AssignToConstVariable(Seq<char>),
    TypeNameNotFound(Seq<char>),
    TypeNotFound(int),
    FunctionNotFound(Seq<char>),
    MethodNotFound(Seq<char>),
}

/// The mathematical value of a `CheckError`.
pub ghost struct CheckErrorView {
    pub span: Span,
    pub kind: CheckErrorKindView,
}

impl CheckErrorKind {
    /// The mathematical value of this kind.
    pub open spec fn view(&self) -> CheckErrorKindView {
        match self {
            CheckErrorKind::TypeMismatch(expected, got) => CheckErrorKindView::TypeMismatch(
                Seq::new(expected@.len(), |i: int| expected@[i] as int),
                *got as int,
            ),
            CheckErrorKind::VariableNotFound(name) => CheckErrorKindView::VariableNotFound(name@),
            CheckErrorKind::AssignToConstVariable(name) => {
                CheckErrorKindView::AssignToConstVariable(name@)
            },
            CheckErrorKind::TypeNameNotFound(name) => CheckErrorKindView::TypeNameNotFound(name@),
            CheckErrorKind::TypeNotFound(ty) => CheckErrorKindView::TypeNotFound(*ty as int),
            CheckErrorKind::FunctionNotFound(name) => CheckErrorKindView::FunctionNotFound(name@),
            CheckErrorKind::MethodNotFound(name) => CheckErrorKindView::MethodNotFound(name@),
        }
    }
}

impl CheckError {
    /// The mathematical value of this error.
    pub open spec fn view(&self) -> CheckErrorView {
        CheckErrorView { span: self.span, kind: self.kind@ }
    }

    /// An expression resolved to `got` where one of `expected` was
    /// required.
    pub fn type_mismatch(expected: Vec<ScopeTypeId>, got: ScopeTypeId, span: &Span) -> (e:
        CheckError)
        ensures
            e@ == (CheckErrorView {
                span: *span,
                kind: CheckErrorKindView::TypeMismatch(
                    Seq::new(expected@.len(), |i: int| expected@[i] as int),
                    got as int,
                ),
            }),
    {
        CheckError { span: *span, kind: CheckErrorKind::TypeMismatch(expected, got) }
    }

    /// A name was referenced that no visible variable carries.
    pub fn variable_not_found(name: &str, span: &Span) -> (e: CheckError)
        ensures
            e@ == (CheckErrorView {
                span: *span,
                kind: CheckErrorKindView::VariableNotFound(name@),
            }),
    {
        CheckError { span: *span, kind: CheckErrorKind::VariableNotFound(name.to_owned()) }
    }

    /// A value was assigned to a variable not declared mutable.
    pub fn assign_to_const_variable(name: &str, span: &Span) -> (e: CheckError)
        ensures
            e@ == (CheckErrorView {
                span: *span,
                kind: CheckErrorKindView::AssignToConstVariable(name@),
            }),
    {
        CheckError { span: *span, kind: CheckErrorKind::AssignToConstVariable(name.to_owned()) }
    }

    /// An explicit type name resolved to no visible type.
    pub fn type_name_not_found(name: &str, span: &Span) -> (e: CheckError)
        ensures
            e@ == (CheckErrorView {
                span: *span,
                kind: CheckErrorKindView::TypeNameNotFound(name@),
            }),
    {
        CheckError { span: *span, kind: CheckErrorKind::TypeNameNotFound(name.to_owned()) }
    }

    /// A type id resolved to no record on the current scope chain.
    pub fn type_not_found(ty: ScopeTypeId, span: &Span) -> (e: CheckError)
        ensures
            e@ == (CheckErrorView { span: *span, kind: CheckErrorKindView::TypeNotFound(ty as int) }),
    {
        CheckError { span: *span, kind: CheckErrorKind::TypeNotFound(ty) }
    }

    /// A call named a function the language does not know.
    pub fn function_not_found(name: &str, span: &Span) -> (e: CheckError)
        ensures
            e@ == (CheckErrorView {
                span: *span,
                kind: CheckErrorKindView::FunctionNotFound(name@),
            }),
    {
        CheckError { span: *span, kind: CheckErrorKind::FunctionNotFound(name.to_owned()) }
    }

    /// A method call named a method the language does not know.
    pub fn method_not_found(name: &str, span: &Span) -> (e: CheckError)
        ensures
            e@ == (CheckErrorView {
                span: *span,
                kind: CheckErrorKindView::MethodNotFound(name@),
            }),
    {
        CheckError { span: *span, kind: CheckErrorKind::MethodNotFound(name.to_owned()) }
    }
}

} // verus!
