use vstd::prelude::*;
use vstd::string::*;

use crate::ast::{Ast, AstError, AstErrorView};
use crate::expression::{
    lemma_views_of, views_of, ExprKindView, ExprView, Expression, ExpressionKind, InfixOp,
    PrefixOp, StateView, TypeIdent,
};
use crate::lexer::Lexer;
use crate::peeker::Peeker;
use crate::precedence::Precedence;
use crate::span::Span;
use crate::text::{dot_count, int_val, is_float_text, is_int_text, parse_int_text};
use crate::token::{Token, TokenKind};

verus! {

/// The outcome of parsing one expression: its view and the position
/// after it, or the error that stopped the parser.
pub ghost enum ParseOutcome {
    Parsed(ExprView, int),
    Failed(AstErrorView),
}

/// The outcome of parsing a run of expressions.
pub ghost enum ItemsOutcome {
    Parsed(Seq<ExprView>, int),
    Failed(AstErrorView),
}

/// The kind of the token at `i`; `Eof` past the end.
pub open spec fn kind_at(toks: Seq<Token>, i: int) -> TokenKind {
    if 0 <= i < toks.len() {
        toks[i].kind
    } else {
        TokenKind::Eof
    }
}

/// The source text a token covers.
pub open spec fn token_text(src: Seq<char>, t: Token) -> Seq<char> {
    src.subrange(t.span.0 as int, t.span.1 as int)
}

/// An unchecked expression node.
pub open spec fn node(kind: ExprKindView, span: Span) -> ExprView {
    ExprView { kind, span, state: StateView::Unchecked }
}

/// Consuming one token of kind `kind`: the token and the position after
/// it, or what went wrong (`UnexpectedEof` at the end of the stream, and
/// otherwise the offending token with the expected kind).
pub open spec fn spec_expect_tok(toks: Seq<Token>, i: int, kind: TokenKind) -> Result<
    (Token, int),
    AstErrorView,
> {
    if !(0 <= i < toks.len()) {
        Err(AstErrorView::UnexpectedEof)
    } else if toks[i].kind == kind {
        Ok((toks[i], i + 1))
    } else {
        Err(AstErrorView::Expected(toks[i], seq![kind]))
    }
}

/// Parsing a number literal: classified as a float when the text holds
/// a decimal point, and as an integer otherwise; a text invalid under
/// its classification is a syntax error.
pub open spec fn spec_parse_number(src: Seq<char>, toks: Seq<Token>, i: int) -> ParseOutcome {
    match spec_expect_tok(toks, i, TokenKind::Number) {
        Err(err) => ParseOutcome::Failed(err),
        Ok((t, j)) => {
            let text = token_text(src, t);
            if dot_count(text) > 0 {
                if is_float_text(text) {
                    ParseOutcome::Parsed(node(ExprKindView::LiteralFloat(text), t.span), j)
                } else {
                    ParseOutcome::Failed(
                        AstErrorView::Syntax(t, AstError::syntax_msg("invalid float"@)),
                    )
                }
            } else {
                if is_int_text(text) && int_val(text) <= isize::MAX {
                    ParseOutcome::Parsed(node(ExprKindView::LiteralInt(int_val(text)), t.span), j)
                } else {
                    ParseOutcome::Failed(
                        AstErrorView::Syntax(t, AstError::syntax_msg("invalid int"@)),
                    )
                }
            }
        },
    }
}

/// Parsing a boolean literal: its text must read exactly `true` or
/// `false`.
pub open spec fn spec_parse_boolean(src: Seq<char>, toks: Seq<Token>, i: int) -> ParseOutcome {
    match spec_expect_tok(toks, i, TokenKind::Boolean) {
        Err(err) => ParseOutcome::Failed(err),
        Ok((t, j)) => {
            let text = token_text(src, t);
            if text == "true"@ {
                ParseOutcome::Parsed(node(ExprKindView::LiteralBool(true), t.span), j)
            } else if text == "false"@ {
                ParseOutcome::Parsed(node(ExprKindView::LiteralBool(false), t.span), j)
            } else {
                ParseOutcome::Failed(
                    AstErrorView::Syntax(t, AstError::syntax_msg("invalid bool"@)),
                )
            }
        },
    }
}

/// Parsing an explicit type name: one identifier token.
pub open spec fn spec_parse_type(src: Seq<char>, toks: Seq<Token>, i: int) -> Result<
    (Seq<char>, int),
    AstErrorView,
> {
    match spec_expect_tok(toks, i, TokenKind::Ident) {
        Err(err) => Err(err),
        Ok((t, j)) => Ok((token_text(src, t), j)),
    }
}

/// The parsing rules, mirroring the parser function by function. Every
/// recursive step stands behind a progress guard `i < j`; the parser
/// always advances, so the guarded arm is the one its runs take.
///
/// Parsing one expression at precedence floor `floor`: a primary
/// expression, then infix continuations while the next token binds
/// tighter than the floor.
pub open spec fn spec_parse_expression(
    src: Seq<char>,
    toks: Seq<Token>,
    i: int,
    floor: Precedence,
) -> ParseOutcome
    decreases toks.len() - i, 6int,
{
    match spec_get_first(src, toks, i) {
        ParseOutcome::Parsed(first, j) => if i < j <= toks.len() {
            spec_parse_loop(src, toks, j, floor, first)
        } else {
            ParseOutcome::Failed(AstErrorView::UnexpectedEof)
        },
        ParseOutcome::Failed(err) => ParseOutcome::Failed(err),
    }
}

/// The continuation loop of `spec_parse_expression`: while the next
/// token binds tighter than the floor, extend `left` with an infix or
/// method-call continuation; comments are skipped transparently.
/// The infix operator a token stands for, if any.
pub open spec fn spec_infix_op(k: TokenKind) -> Option<InfixOp> {
    match k {
        TokenKind::Plus => Some(InfixOp::Add),
        TokenKind::Minus => Some(InfixOp::Subtract),
        TokenKind::Asterisk => Some(InfixOp::Multiply),
        TokenKind::Slash => Some(InfixOp::Divide),
        TokenKind::Caret => Some(InfixOp::Power),
        TokenKind::LessThan => Some(InfixOp::LessThan),
        TokenKind::LessThanOrEqual => Some(InfixOp::LessThanOrEqual),
        TokenKind::GreaterThan => Some(InfixOp::GreaterThan),
        TokenKind::GreaterThanOrEqual => Some(InfixOp::GreaterThanOrEqual),
        TokenKind::DoubleEquals => Some(InfixOp::Equals),
        TokenKind::NotEquals => Some(InfixOp::NotEquals),
        _ => None,
    }
}

pub open spec fn spec_parse_loop(
    src: Seq<char>,
    toks: Seq<Token>,
    i: int,
    floor: Precedence,
    left: ExprView,
) -> ParseOutcome
    decreases toks.len() - i, 7int,
{
    let k = kind_at(toks, i);
    if !(Precedence::spec_of(k).spec_level() > floor.spec_level()) {
        ParseOutcome::Parsed(left, i)
    } else {
        match spec_infix_op(k) {
            Some(op) => spec_loop_infix(src, toks, i, floor, left, op),
            None => if k == TokenKind::Comment {
                spec_parse_loop(src, toks, i + 1, floor, left)
            } else if k == TokenKind::Dot {
                match spec_parse_function_call(src, toks, i + 1, left.span) {
                    ParseOutcome::Parsed(fc, j) => if i < j <= toks.len() {
                        match fc.kind {
                            ExprKindView::FunctionCall { name, args } => spec_parse_loop(
                                src,
                                toks,
                                j,
                                floor,
                                node(
                                    ExprKindView::MethodCall {
                                        caller: Box::new(left),
                                        name,
                                        args,
                                    },
                                    Span(left.span.0, fc.span.1),
                                ),
                            ),
                            _ => ParseOutcome::Failed(AstErrorView::UnexpectedEof),
                        }
                    } else {
                        ParseOutcome::Failed(AstErrorView::UnexpectedEof)
                    },
                    ParseOutcome::Failed(err) => ParseOutcome::Failed(err),
                }
            } else {
                ParseOutcome::Failed(
                    AstErrorView::Syntax(toks[i], AstError::syntax_msg("illegal token found"@)),
                )
            },
        }
    }
}

/// One infix continuation inside the loop: parse the operator's
/// right-hand side at its own binding power, wrap, and continue.
pub open spec fn spec_loop_infix(
    src: Seq<char>,
    toks: Seq<Token>,
    i: int,
    floor: Precedence,
    left: ExprView,
    op: InfixOp,
) -> ParseOutcome
    decreases toks.len() - i, 5int,
{
    match spec_parse_infix(src, toks, i, left, op) {
        ParseOutcome::Parsed(e2, j) => if i < j <= toks.len() {
            spec_parse_loop(src, toks, j, floor, e2)
        } else {
            ParseOutcome::Failed(AstErrorView::UnexpectedEof)
        },
        ParseOutcome::Failed(err) => ParseOutcome::Failed(err),
    }
}

/// Parsing the right-hand side of an infix operator standing at `i`,
/// and wrapping both sides; left-associative, as the right-hand side is
/// parsed at the operator's own binding power.
pub open spec fn spec_parse_infix(
    src: Seq<char>,
    toks: Seq<Token>,
    i: int,
    left: ExprView,
    op: InfixOp,
) -> ParseOutcome
    decreases toks.len() - i, 4int,
{
    if !(0 <= i < toks.len()) {
        ParseOutcome::Failed(AstErrorView::UnexpectedEof)
    } else {
        let opt = toks[i];
        match spec_parse_expression(src, toks, i + 1, Precedence::spec_of(opt.kind)) {
            ParseOutcome::Parsed(rhs, j) => ParseOutcome::Parsed(
                node(
                    ExprKindView::Infix { op, lh: Box::new(left), rh: Box::new(rhs) },
                    Span(left.span.0, rhs.span.1),
                ),
                j,
            ),
            ParseOutcome::Failed(err) => ParseOutcome::Failed(err),
        }
    }
}

/// Parsing a primary expression, dispatched on the kind of the next
/// token; comments are skipped. An identifier is a declaration when a
/// `:`-marker or an explicit type name follows, an assignment when `=`
/// follows, and a plain reference otherwise.
pub open spec fn spec_get_first(src: Seq<char>, toks: Seq<Token>, i: int) -> ParseOutcome
    decreases toks.len() - i, 5int,
{
    if !(0 <= i < toks.len()) {
        ParseOutcome::Failed(AstErrorView::UnexpectedEof)
    } else {
        let t = toks[i];
        match t.kind {
            TokenKind::Comment => spec_get_first(src, toks, i + 1),
            TokenKind::Boolean => spec_parse_boolean(src, toks, i),
            TokenKind::Number => spec_parse_number(src, toks, i),
            TokenKind::Exclamation => spec_parse_prefix(src, toks, i, PrefixOp::Not),
            TokenKind::LBrace => spec_parse_block(src, toks, i),
            TokenKind::Ident => match kind_at(toks, i + 1) {
                TokenKind::Colon => spec_parse_declaration(src, toks, i + 1, t),
                TokenKind::Ident => spec_parse_declaration(src, toks, i + 1, t),
                TokenKind::Equals => spec_parse_assignment(src, toks, i + 1, t),
                _ => ParseOutcome::Parsed(
                    node(ExprKindView::Ident(token_text(src, t)), t.span),
                    i + 1,
                ),
            },
            _ => ParseOutcome::Failed(AstErrorView::NoPrefixParse(t)),
        }
    }
}

/// Parsing a prefix operation: the operator, then one operand at prefix
/// binding power.
pub open spec fn spec_parse_prefix(
    src: Seq<char>,
    toks: Seq<Token>,
    i: int,
    op: PrefixOp,
) -> ParseOutcome
    decreases toks.len() - i, 4int,
{
    match spec_expect_tok(toks, i, TokenKind::Exclamation) {
        Err(err) => ParseOutcome::Failed(err),
        Ok((start, j)) => match spec_parse_expression(src, toks, j, Precedence::Prefix) {
            ParseOutcome::Parsed(rh, k) => ParseOutcome::Parsed(
                node(
                    ExprKindView::Prefix { op, rh: Box::new(rh) },
                    Span(start.span.0, rh.span.1),
                ),
                k,
            ),
            ParseOutcome::Failed(err) => ParseOutcome::Failed(err),
        },
    }
}

/// Parsing a block: `{`, expressions until the matching `}`, and the
/// `}` itself; an empty block is legal.
pub open spec fn spec_parse_block(src: Seq<char>, toks: Seq<Token>, i: int) -> ParseOutcome
    decreases toks.len() - i, 4int,
{
    match spec_expect_tok(toks, i, TokenKind::LBrace) {
        Err(err) => ParseOutcome::Failed(err),
        Ok((start, j)) => match spec_parse_block_items(src, toks, j) {
            ItemsOutcome::Parsed(items, k) => match spec_expect_tok(toks, k, TokenKind::RBrace) {
                Err(err) => ParseOutcome::Failed(err),
                Ok((end, m)) => ParseOutcome::Parsed(
                    node(ExprKindView::Block(items), Span(start.span.0, end.span.1)),
                    m,
                ),
            },
            ItemsOutcome::Failed(err) => ParseOutcome::Failed(err),
        },
    }
}

/// The expressions of a block, parsed in order until a `}` stands next.
pub open spec fn spec_parse_block_items(src: Seq<char>, toks: Seq<Token>, i: int) -> ItemsOutcome
    decreases toks.len() - i, 7int,
{
    if kind_at(toks, i) == TokenKind::RBrace {
        ItemsOutcome::Parsed(Seq::empty(), i)
    } else {
        match spec_parse_expression(src, toks, i, Precedence::Lowest) {
            ParseOutcome::Parsed(e, j) => if i < j <= toks.len() {
                match spec_parse_block_items(src, toks, j) {
                    ItemsOutcome::Parsed(rest, k) => ItemsOutcome::Parsed(seq![e] + rest, k),
                    ItemsOutcome::Failed(err) => ItemsOutcome::Failed(err),
                }
            } else {
                ItemsOutcome::Failed(AstErrorView::UnexpectedEof)
            },
            ParseOutcome::Failed(err) => ItemsOutcome::Failed(err),
        }
    }
}

/// Parsing a declaration after its name: an optional explicit type
/// name, then `:` for an immutable or `=` for a mutable binding, then
/// the initializer; `start` is the already-consumed name token.
pub open spec fn spec_parse_declaration(
    src: Seq<char>,
    toks: Seq<Token>,
    i: int,
    start: Token,
) -> ParseOutcome
    decreases toks.len() - i, 4int,
{
    let name = token_text(src, start);
    let with_ty: (Option<Seq<char>>, int) = if kind_at(toks, i) == TokenKind::Ident {
        (Some(token_text(src, toks[i])), i + 1)
    } else {
        (None, i)
    };
    let ty = with_ty.0;
    let i1 = with_ty.1;
    let marker = kind_at(toks, i1);
    if marker == TokenKind::Colon || marker == TokenKind::Equals {
        let mutable = marker == TokenKind::Equals;
        if i <= i1 {
            match spec_parse_expression(src, toks, i1 + 1, Precedence::Lowest) {
                ParseOutcome::Parsed(value, j) => ParseOutcome::Parsed(
                    node(
                        ExprKindView::VariableDecl {
                            name,
                            value: Box::new(value),
                            mutable,
                            ty,
                        },
                        Span(start.span.0, value.span.1),
                    ),
                    j,
                ),
                ParseOutcome::Failed(err) => ParseOutcome::Failed(err),
            }
        } else {
            ParseOutcome::Failed(AstErrorView::UnexpectedEof)
        }
    } else {
        ParseOutcome::Failed(
            AstErrorView::Expected(start, seq![TokenKind::Colon, TokenKind::Equals]),
        )
    }
}

/// Parsing an assignment after its name: the `=`, then the new value;
/// `start` is the already-consumed name token.
pub open spec fn spec_parse_assignment(
    src: Seq<char>,
    toks: Seq<Token>,
    i: int,
    start: Token,
) -> ParseOutcome
    decreases toks.len() - i, 4int,
{
    if !(0 <= i < toks.len()) {
        ParseOutcome::Failed(AstErrorView::UnexpectedEof)
    } else {
        match spec_parse_expression(src, toks, i + 1, Precedence::Lowest) {
            ParseOutcome::Parsed(value, j) => ParseOutcome::Parsed(
                node(
                    ExprKindView::VariableAssignment {
                        name: token_text(src, start),
                        value: Box::new(value),
                    },
                    Span(start.span.0, value.span.1),
                ),
                j,
            ),
            ParseOutcome::Failed(err) => ParseOutcome::Failed(err),
        }
    }
}

/// Parsing a call after its `.`: the name, `(`, comma-separated
/// arguments, `)`. The node's span starts at `start_span`, the span of
/// the receiver.
pub open spec fn spec_parse_function_call(
    src: Seq<char>,
    toks: Seq<Token>,
    i: int,
    start_span: Span,
) -> ParseOutcome
    decreases toks.len() - i, 4int,
{
    match spec_expect_tok(toks, i, TokenKind::Ident) {
        Err(err) => ParseOutcome::Failed(err),
        Ok((name_tok, i1)) => match spec_expect_tok(toks, i1, TokenKind::LParen) {
            Err(err) => ParseOutcome::Failed(err),
            Ok((_, i2)) => if i < i2 {
                match spec_parse_args(src, toks, i2) {
                    ItemsOutcome::Parsed(args, k) => match spec_expect_tok(
                        toks,
                        k,
                        TokenKind::RParen,
                    ) {
                        Err(err) => ParseOutcome::Failed(err),
                        Ok((end, m)) => ParseOutcome::Parsed(
                            node(
                                ExprKindView::FunctionCall {
                                    name: token_text(src, name_tok),
                                    args,
                                },
                                Span(start_span.0, end.span.1),
                            ),
                            m,
                        ),
                    },
                    ItemsOutcome::Failed(err) => ParseOutcome::Failed(err),
                }
            } else {
                ParseOutcome::Failed(AstErrorView::UnexpectedEof)
            },
        },
    }
}

/// The arguments of a call, parsed in order until a `)` stands next; a
/// comma after an argument is consumed, and a trailing comma is legal.
pub open spec fn spec_parse_args(src: Seq<char>, toks: Seq<Token>, i: int) -> ItemsOutcome
    decreases toks.len() - i, 7int,
{
    if kind_at(toks, i) == TokenKind::RParen {
        ItemsOutcome::Parsed(Seq::empty(), i)
    } else {
        match spec_parse_expression(src, toks, i, Precedence::Lowest) {
            ParseOutcome::Parsed(e, j) => {
                let j2: int = if kind_at(toks, j) == TokenKind::Comma {
                    j + 1
                } else {
                    j
                };
                if i < j2 <= toks.len() {
                    match spec_parse_args(src, toks, j2) {
                        ItemsOutcome::Parsed(rest, k) => ItemsOutcome::Parsed(seq![e] + rest, k),
                        ItemsOutcome::Failed(err) => ItemsOutcome::Failed(err),
                    }
                } else {
                    ItemsOutcome::Failed(AstErrorView::UnexpectedEof)
                }
            },
            ParseOutcome::Failed(err) => ItemsOutcome::Failed(err),
        }
    }
}

/// The top level of a module: expressions until the stream is
/// exhausted, each at the lowest precedence floor.
pub open spec fn spec_parse_top(src: Seq<char>, toks: Seq<Token>, i: int) -> ItemsOutcome
    decreases toks.len() - i, 8int,
{
    if i >= toks.len() {
        ItemsOutcome::Parsed(Seq::empty(), i)
    } else {
        match spec_parse_expression(src, toks, i, Precedence::Lowest) {
            ParseOutcome::Parsed(e, j) => if i < j <= toks.len() {
                match spec_parse_top(src, toks, j) {
                    ItemsOutcome::Parsed(rest, k) => ItemsOutcome::Parsed(seq![e] + rest, k),
                    ItemsOutcome::Failed(err) => ItemsOutcome::Failed(err),
                }
            } else {
                ItemsOutcome::Failed(AstErrorView::UnexpectedEof)
            },
            ParseOutcome::Failed(err) => ItemsOutcome::Failed(err),
        }
    }
}

/// The precedence-climbing parser: it owns the lexer whose module it
/// reads text from, and a cursor over the lexed tokens.
#[derive(Debug)]
pub struct Parser {
    pub lexer: Lexer,
    pub tokens: Peeker<Token>,
}

impl Parser {
    /// The module's text.
    pub open spec fn src(&self) -> Seq<char> {
        self.lexer.module.text()
    }

    /// The token sequence under the cursor.
    pub open spec fn toks(&self) -> Seq<Token> {
        self.tokens.items_spec()
    }

    /// The cursor position.
    pub open spec fn pos(&self) -> int {
        self.tokens.pos_spec()
    }

    /// The cursor is well-formed and every token's span lies within the
    /// module's text, so a token's text can always be sliced.
    pub open spec fn wf(&self) -> bool {
        &&& self.tokens.wf()
        &&& forall|k: int|
            0 <= k < self.toks().len() ==> (#[trigger] self.toks()[k]).span.0
                <= self.toks()[k].span.1 <= self.src().len()
    }

    /// A parser over the lexer's token stream, standing at its start.
    pub fn new(lexer: Lexer) -> (p: Parser)
        ensures
            p.wf(),
            p.pos() == 0,
            p.src() == lexer.module.text(),
            p.toks() == crate::lexer::spec_tokens(lexer.module.text(), 0),
    {
        let tokens = lexer.get_peeker();
        Parser { lexer, tokens }
    }

    /// The kind of the token under the cursor; `Eof` at the end.
    fn peek_kind(&self) -> (k: TokenKind)
        ensures
            k == kind_at(self.toks(), self.pos()),
    {
        match self.tokens.peek() {
            Some((t, _)) => t.kind,
            None => TokenKind::Eof,
        }
    }

    /// Take the token under the cursor; an error at the end.
    fn consume(&mut self) -> (r: Result<Token, AstError>)
        requires
            old(self).wf(),
        ensures
            final(self).wf(),
            final(self).src() == old(self).src(),
            final(self).toks() == old(self).toks(),
            match r {
                Ok(t) => {
                    &&& 0 <= old(self).pos() < old(self).toks().len()
                    &&& t == old(self).toks()[old(self).pos()]
                    &&& final(self).pos() == old(self).pos() + 1
                },
                Err(err) => {
                    &&& old(self).pos() >= old(self).toks().len()
                    &&& err@ == AstErrorView::UnexpectedEof
                    &&& final(self).pos() == old(self).pos()
                },
            },
    {
        match self.tokens.next() {
            Some((t, _)) => Ok(t),
            None => Err(AstError::eof()),
        }
    }

    /// Take the token under the cursor when it has kind `exp`;
    /// otherwise the error `spec_expect_tok` gives.
    fn expect(&mut self, exp: TokenKind) -> (r: Result<Token, AstError>)
        requires
            old(self).wf(),
        ensures
            final(self).wf(),
            final(self).src() == old(self).src(),
            final(self).toks() == old(self).toks(),
            match r {
                Ok(t) => {
                    &&& spec_expect_tok(old(self).toks(), old(self).pos(), exp) == Ok::<
                        _,
                        AstErrorView,
                    >((t, final(self).pos()))
                    &&& final(self).pos() == old(self).pos() + 1
                    &&& 0 <= old(self).pos() < old(self).toks().len()
                },
                Err(err) => spec_expect_tok(old(self).toks(), old(self).pos(), exp) == Err::<
                    (Token, int),
                    _,
                >(err@),
            },
    {
        match self.consume() {
            Err(err) => Err(err),
            Ok(token) => {
                if token.kind == exp {
                    Ok(token)
                } else {
                    let kinds = vec![exp];
                    proof {
                        assert(kinds@ =~= seq![exp]);
                    }
                    Err(AstError::expected(&token, kinds))
                }
            },
        }
    }

    /// Parse the whole token stream: zero or more top-level
    /// expressions, stopping at the first error.
    pub fn parse(&mut self) -> (r: Result<Ast, AstError>)
        requires
            old(self).wf(),
        ensures
            final(self).wf(),
            final(self).src() == old(self).src(),
            final(self).toks() == old(self).toks(),
            match r {
                Ok(ast) => spec_parse_top(old(self).src(), old(self).toks(), old(self).pos())
                    == ItemsOutcome::Parsed(ast@, final(self).pos()),
                Err(err) => spec_parse_top(old(self).src(), old(self).toks(), old(self).pos())
                    == ItemsOutcome::Failed(err@),
            },
    {
        let ghost src = self.src();
        let ghost toks = self.toks();
        let mut exprs: Vec<Expression> = Vec::new();
        proof {
            lemma_views_of(exprs@);
        }
        loop
            invariant
                self.wf(),
                src == old(self).src(),
                toks == old(self).toks(),
                self.src() == src,
                self.toks() == toks,
                0 <= self.pos() <= toks.len(),
                views_of(exprs@).len() == exprs@.len(),
                ({
                    match spec_parse_top(src, toks, self.pos()) {
                        ItemsOutcome::Parsed(rest, k) => spec_parse_top(
                            src,
                            toks,
                            old(self).pos(),
                        ) == ItemsOutcome::Parsed(views_of(exprs@) + rest, k),
                        ItemsOutcome::Failed(err) => spec_parse_top(src, toks, old(self).pos())
                            == ItemsOutcome::Failed(err),
                    }
                }),
            decreases toks.len() - self.pos(),
        {
            let more = match self.tokens.peek() {
                Some(_) => true,
                None => false,
            };
            if !more {
                proof {
                    assert(views_of(exprs@) + Seq::<ExprView>::empty() =~= views_of(exprs@));
                }
                return Ok(Ast(exprs));
            }
            match self.parse_expression(Precedence::Lowest) {
                Ok(e) => {
                    proof {
                        lemma_views_of(exprs@.push(e));
                        lemma_views_of(exprs@);
                        assert(views_of(exprs@.push(e)) =~= views_of(exprs@).push(e@));
                        if let ItemsOutcome::Parsed(rest2, k2) = spec_parse_top(
                            src,
                            toks,
                            self.pos(),
                        ) {
                            assert(views_of(exprs@) + (seq![e@] + rest2) =~= views_of(
                                exprs@.push(e),
                            ) + rest2);
                        }
                    }
                    exprs.push(e);
                },
                Err(err) => {
                    return Err(err);
                },
            }
        }
    }

    /// Parse one expression at precedence floor `precedence`.
    fn parse_expression(&mut self, precedence: Precedence) -> (r: Result<Expression, AstError>)
        requires
            old(self).wf(),
        ensures
            final(self).wf(),
            final(self).src() == old(self).src(),
            final(self).toks() == old(self).toks(),
            match r {
                Ok(e) => {
                    &&& spec_parse_expression(
                        old(self).src(),
                        old(self).toks(),
                        old(self).pos(),
                        precedence,
                    ) == ParseOutcome::Parsed(e@, final(self).pos())
                    &&& old(self).pos() < final(self).pos() <= old(self).toks().len()
                },
                Err(err) => spec_parse_expression(
                    old(self).src(),
                    old(self).toks(),
                    old(self).pos(),
                    precedence,
                ) == ParseOutcome::Failed(err@),
            },
        decreases old(self).toks().len() - old(self).pos(), 6int,
    {
        let ghost src = self.src();
        let ghost toks = self.toks();
        let mut expr = match self.get_first_expression() {
            Ok(e) => e,
            Err(err) => {
                return Err(err);
            },
        };
        loop
            invariant
                self.wf(),
                src == old(self).src(),
                toks == old(self).toks(),
                self.src() == src,
                self.toks() == toks,
                old(self).pos() < self.pos() <= toks.len(),
                ({
                    match spec_parse_loop(src, toks, self.pos(), precedence, expr@) {
                        ParseOutcome::Parsed(e2, k) => spec_parse_expression(
                            src,
                            toks,
                            old(self).pos(),
                            precedence,
                        ) == ParseOutcome::Parsed(e2, k),
                        ParseOutcome::Failed(err) => spec_parse_expression(
                            src,
                            toks,
                            old(self).pos(),
                            precedence,
                        ) == ParseOutcome::Failed(err),
                    }
                }),
            decreases toks.len() - self.pos(),
        {
            let ghost cur = self.pos();
            let ghost left_v = expr@;
            let k = self.peek_kind();
            let p = Precedence::of(&k);
            if !(p.level() > precedence.level()) {
                return Ok(expr);
            }
            match Parser::infix_op_of(k) {
                Some(op) => {
                    expr =
                    match self.parse_infix_expression(expr, op) {
                        Ok(e2) => e2,
                        Err(err) => {
                            return Err(err);
                        },
                    };
                    proof {
                        assert(spec_parse_loop(src, toks, cur, precedence, left_v)
                            == spec_loop_infix(src, toks, cur, precedence, left_v, op));
                        assert(spec_loop_infix(src, toks, cur, precedence, left_v, op)
                            == spec_parse_loop(src, toks, self.pos(), precedence, expr@));
                    }
                },
                None => {
                    if k == TokenKind::Comment {
                        match self.consume() {
                            Ok(_) => {},
                            Err(err) => {
                                return Err(err);
                            },
                        };
                    } else if k == TokenKind::Dot {
                        match self.consume() {
                            Ok(_) => {},
                            Err(err) => {
                                return Err(err);
                            },
                        };
                        let receiver_span = expr.span;
                        let fn_call = match self.parse_function_call(&receiver_span) {
                            Ok(fc) => fc,
                            Err(err) => {
                                return Err(err);
                            },
                        };
                        let total_span = receiver_span.to(&fn_call.span);
                        let ghost fcv = fn_call@;
                        match fn_call.kind {
                            ExpressionKind::FunctionCall { name, args } => {
                                proof {
                                    assert(fcv.kind == (ExprKindView::FunctionCall {
                                        name: name@,
                                        args: views_of(args@),
                                    }));
                                }
                                expr =
                                Expression::new(
                                    ExpressionKind::MethodCall {
                                        caller: Box::new(expr),
                                        name,
                                        args,
                                    },
                                    total_span,
                                );
                                proof {
                                    assert(spec_parse_loop(src, toks, cur, precedence, left_v)
                                        == spec_parse_loop(
                                        src,
                                        toks,
                                        self.pos(),
                                        precedence,
                                        expr@,
                                    ));
                                }
                            },
                            // dead arm: a parsed call is always a call node
                            _ => {
                                proof {
                                    assert(false);
                                }
                                return Err(AstError::eof());
                            },
                        }
                    } else {
                        let token = match self.consume() {
                            Ok(t) => t,
                            Err(err) => {
                                return Err(err);
                            },
                        };
                        return Err(AstError::syntax(&token, "illegal token found"));
                    }
                },
            }
        }
    }

    /// The infix operator a token stands for, if any.
    fn infix_op_of(k: TokenKind) -> (r: Option<InfixOp>)
        ensures
            r == spec_infix_op(k),
    {
        match k {
            TokenKind::Plus => Some(InfixOp::Add),
            TokenKind::Minus => Some(InfixOp::Subtract),
            TokenKind::Asterisk => Some(InfixOp::Multiply),
            TokenKind::Slash => Some(InfixOp::Divide),
            TokenKind::Caret => Some(InfixOp::Power),
            TokenKind::LessThan => Some(InfixOp::LessThan),
            TokenKind::LessThanOrEqual => Some(InfixOp::LessThanOrEqual),
            TokenKind::GreaterThan => Some(InfixOp::GreaterThan),
            TokenKind::GreaterThanOrEqual => Some(InfixOp::GreaterThanOrEqual),
            TokenKind::DoubleEquals => Some(InfixOp::Equals),
            TokenKind::NotEquals => Some(InfixOp::NotEquals),
            _ => None,
        }
    }

    /// Parse the right-hand side of the infix operator under the cursor
    /// and wrap both sides into one node.
    fn parse_infix_expression(&mut self, lhs: Expression, op: InfixOp) -> (r: Result<
        Expression,
        AstError,
    >)
        requires
            old(self).wf(),
        ensures
            final(self).wf(),
            final(self).src() == old(self).src(),
            final(self).toks() == old(self).toks(),
            match r {
                Ok(e) => {
                    &&& spec_parse_infix(
                        old(self).src(),
                        old(self).toks(),
                        old(self).pos(),
                        lhs@,
                        op,
                    ) == ParseOutcome::Parsed(e@, final(self).pos())
                    &&& old(self).pos() < final(self).pos() <= old(self).toks().len()
                },
                Err(err) => spec_parse_infix(
                    old(self).src(),
                    old(self).toks(),
                    old(self).pos(),
                    lhs@,
                    op,
                ) == ParseOutcome::Failed(err@),
            },
        decreases old(self).toks().len() - old(self).pos(), 4int,
    {
        let token = match self.consume() {
            Ok(t) => t,
            Err(err) => {
                return Err(err);
            },
        };
        let precedence = Precedence::of(&token.kind);
        let rhs = match self.parse_expression(precedence) {
            Ok(e) => e,
            Err(err) => {
                return Err(err);
            },
        };
        let span = lhs.span.to(&rhs.span);
        Ok(Expression::new(ExpressionKind::Infix { op, lh: Box::new(lhs), rh: Box::new(rhs) }, span))
    }

    /// Parse a primary expression, dispatched on the next token.
    fn get_first_expression(&mut self) -> (r: Result<Expression, AstError>)
        requires
            old(self).wf(),
        ensures
            final(self).wf(),
            final(self).src() == old(self).src(),
            final(self).toks() == old(self).toks(),
            match r {
                Ok(e) => {
                    &&& spec_get_first(old(self).src(), old(self).toks(), old(self).pos())
                        == ParseOutcome::Parsed(e@, final(self).pos())
                    &&& old(self).pos() < final(self).pos() <= old(self).toks().len()
                },
                Err(err) => spec_get_first(old(self).src(), old(self).toks(), old(self).pos())
                    == ParseOutcome::Failed(err@),
            },
        decreases old(self).toks().len() - old(self).pos(), 5int,
    {
        match self.peek_kind() {
            TokenKind::Comment => {
                match self.consume() {
                    Ok(_) => {},
                    Err(err) => {
                        return Err(err);
                    },
                };
                self.get_first_expression()
            },
            TokenKind::Boolean => self.parse_boolean(),
            TokenKind::Number => self.parse_number(),
            TokenKind::Exclamation => self.parse_prefix_expression(PrefixOp::Not),
            TokenKind::LBrace => self.parse_block_expression(),
            TokenKind::Ident => {
                let token = match self.consume() {
                    Ok(t) => t,
                    Err(err) => {
                        return Err(err);
                    },
                };
                match self.peek_kind() {
                    TokenKind::Colon => self.parse_variable_declaration(token),
                    TokenKind::Ident => self.parse_variable_declaration(token),
                    TokenKind::Equals => self.parse_variable_assignment(token),
                    _ => self.parse_variable_usage(token),
                }
            },
            _ => {
                let token = match self.consume() {
                    Ok(t) => t,
                    Err(err) => {
                        return Err(err);
                    },
                };
                Err(AstError::no_prefix_parse(&token))
            },
        }
    }

    /// Parse a block expression.
    fn parse_block_expression(&mut self) -> (r: Result<Expression, AstError>)
        requires
            old(self).wf(),
        ensures
            final(self).wf(),
            final(self).src() == old(self).src(),
            final(self).toks() == old(self).toks(),
            match r {
                Ok(e) => {
                    &&& spec_parse_block(old(self).src(), old(self).toks(), old(self).pos())
                        == ParseOutcome::Parsed(e@, final(self).pos())
                    &&& old(self).pos() < final(self).pos() <= old(self).toks().len()
                },
                Err(err) => spec_parse_block(old(self).src(), old(self).toks(), old(self).pos())
                    == ParseOutcome::Failed(err@),
            },
        decreases old(self).toks().len() - old(self).pos(), 4int,
    {
        let ghost src = self.src();
        let ghost toks = self.toks();
        let start = match self.expect(TokenKind::LBrace) {
            Ok(t) => t,
            Err(err) => {
                return Err(err);
            },
        };
        let mut exprs: Vec<Expression> = Vec::new();
        proof {
            lemma_views_of(exprs@);
        }
        loop
            invariant
                self.wf(),
                src == old(self).src(),
                toks == old(self).toks(),
                self.src() == src,
                self.toks() == toks,
                old(self).pos() < self.pos() <= toks.len(),
                views_of(exprs@).len() == exprs@.len(),
                spec_expect_tok(toks, old(self).pos(), TokenKind::LBrace) == Ok::<
                    _,
                    AstErrorView,
                >((start, old(self).pos() + 1)),
                ({
                    match spec_parse_block_items(src, toks, self.pos()) {
                        ItemsOutcome::Parsed(rest, k) => spec_parse_block_items(
                            src,
                            toks,
                            old(self).pos() + 1,
                        ) == ItemsOutcome::Parsed(views_of(exprs@) + rest, k),
                        ItemsOutcome::Failed(err) => spec_parse_block_items(
                            src,
                            toks,
                            old(self).pos() + 1,
                        ) == ItemsOutcome::Failed(err),
                    }
                }),
            ensures
                self.wf(),
                src == old(self).src(),
                toks == old(self).toks(),
                self.src() == src,
                self.toks() == toks,
                old(self).pos() < self.pos() <= toks.len(),
                kind_at(toks, self.pos()) == TokenKind::RBrace,
                spec_parse_block_items(src, toks, old(self).pos() + 1) == ItemsOutcome::Parsed(
                    views_of(exprs@),
                    self.pos(),
                ),
            decreases toks.len() - self.pos(),
        {
            let k = self.peek_kind();
            if k == TokenKind::RBrace {
                proof {
                    assert(views_of(exprs@) + Seq::<ExprView>::empty() =~= views_of(exprs@));
                }
                break;
            }
            match self.parse_expression(Precedence::Lowest) {
                Ok(e) => {
                    proof {
                        lemma_views_of(exprs@.push(e));
                        lemma_views_of(exprs@);
                        assert(views_of(exprs@.push(e)) =~= views_of(exprs@).push(e@));
                        if let ItemsOutcome::Parsed(rest2, k2) = spec_parse_block_items(
                            src,
                            toks,
                            self.pos(),
                        ) {
                            assert(views_of(exprs@) + (seq![e@] + rest2) =~= views_of(
                                exprs@.push(e),
                            ) + rest2);
                        }
                    }
                    exprs.push(e);
                },
                Err(err) => {
                    return Err(err);
                },
            }
        }
        let ghost items_end = self.pos();
        let end = match self.expect(TokenKind::RBrace) {
            Ok(t) => t,
            Err(err) => {
                return Err(err);
            },
        };
        proof {
            assert(spec_parse_block_items(src, toks, old(self).pos() + 1) == ItemsOutcome::Parsed(
                views_of(exprs@),
                items_end,
            ));
            assert(spec_expect_tok(toks, old(self).pos(), TokenKind::LBrace) == Ok::<
                _,
                AstErrorView,
            >((start, old(self).pos() + 1)));
            assert(spec_expect_tok(toks, items_end, TokenKind::RBrace) == Ok::<_, AstErrorView>(
                (end, items_end + 1),
            ));
            assert(spec_parse_block(src, toks, old(self).pos()) == ParseOutcome::Parsed(
                node(ExprKindView::Block(views_of(exprs@)), Span(start.span.0, end.span.1)),
                items_end + 1,
            ));
        }
        Ok(Expression::new(ExpressionKind::Block(exprs), start.span.to(&end.span)))
    }

    /// Parse a prefix operation.
    fn parse_prefix_expression(&mut self, op: PrefixOp) -> (r: Result<Expression, AstError>)
        requires
            old(self).wf(),
        ensures
            final(self).wf(),
            final(self).src() == old(self).src(),
            final(self).toks() == old(self).toks(),
            match r {
                Ok(e) => {
                    &&& spec_parse_prefix(old(self).src(), old(self).toks(), old(self).pos(), op)
                        == ParseOutcome::Parsed(e@, final(self).pos())
                    &&& old(self).pos() < final(self).pos() <= old(self).toks().len()
                },
                Err(err) => spec_parse_prefix(
                    old(self).src(),
                    old(self).toks(),
                    old(self).pos(),
                    op,
                ) == ParseOutcome::Failed(err@),
            },
        decreases old(self).toks().len() - old(self).pos(), 4int,
    {
        let start = match self.expect(TokenKind::Exclamation) {
            Ok(t) => t,
            Err(err) => {
                return Err(err);
            },
        };
        let expr = match self.parse_expression(Precedence::Prefix) {
            Ok(e) => e,
            Err(err) => {
                return Err(err);
            },
        };
        let new_span = start.span.to(&expr.span);
        Ok(Expression::new(ExpressionKind::Prefix { op, rh: Box::new(expr) }, new_span))
    }

    /// Parse a number literal.
    fn parse_number(&mut self) -> (r: Result<Expression, AstError>)
        requires
            old(self).wf(),
        ensures
            final(self).wf(),
            final(self).src() == old(self).src(),
            final(self).toks() == old(self).toks(),
            match r {
                Ok(e) => {
                    &&& spec_parse_number(old(self).src(), old(self).toks(), old(self).pos())
                        == ParseOutcome::Parsed(e@, final(self).pos())
                    &&& old(self).pos() < final(self).pos() <= old(self).toks().len()
                },
                Err(err) => spec_parse_number(old(self).src(), old(self).toks(), old(self).pos())
                    == ParseOutcome::Failed(err@),
            },
    {
        let token = match self.expect(TokenKind::Number) {
            Ok(t) => t,
            Err(err) => {
                return Err(err);
            },
        };
        let raw = self.lexer.module.span_slice(&token.span);
        if crate::text::has_dot(raw) {
            if crate::text::check_float_text(raw) {
                Ok(Expression::new(ExpressionKind::LiteralFloat(raw.to_owned()), token.span))
            } else {
                Err(AstError::syntax(&token, "invalid float"))
            }
        } else {
            match parse_int_text(raw) {
                Some(num) => Ok(Expression::new(ExpressionKind::LiteralInt(num), token.span)),
                None => Err(AstError::syntax(&token, "invalid int")),
            }
        }
    }

    /// Parse a boolean literal.
    fn parse_boolean(&mut self) -> (r: Result<Expression, AstError>)
        requires
            old(self).wf(),
        ensures
            final(self).wf(),
            final(self).src() == old(self).src(),
            final(self).toks() == old(self).toks(),
            match r {
                Ok(e) => {
                    &&& spec_parse_boolean(old(self).src(), old(self).toks(), old(self).pos())
                        == ParseOutcome::Parsed(e@, final(self).pos())
                    &&& old(self).pos() < final(self).pos() <= old(self).toks().len()
                },
                Err(err) => spec_parse_boolean(old(self).src(), old(self).toks(), old(self).pos())
                    == ParseOutcome::Failed(err@),
            },
    {
        let token = match self.expect(TokenKind::Boolean) {
            Ok(t) => t,
            Err(err) => {
                return Err(err);
            },
        };
        let text = self.lexer.module.token(&token);
        if crate::text::str_eq(text, "true") {
            Ok(Expression::new(ExpressionKind::LiteralBool(true), token.span))
        } else if crate::text::str_eq(text, "false") {
            Ok(Expression::new(ExpressionKind::LiteralBool(false), token.span))
        } else {
            Err(AstError::syntax(&token, "invalid bool"))
        }
    }

    /// Parse an explicit type name.
    fn parse_type(&mut self) -> (r: Result<TypeIdent, AstError>)
        requires
            old(self).wf(),
        ensures
            final(self).wf(),
            final(self).src() == old(self).src(),
            final(self).toks() == old(self).toks(),
            match r {
                Ok(ty) => {
                    &&& spec_parse_type(old(self).src(), old(self).toks(), old(self).pos())
                        == Ok::<_, AstErrorView>((ty.0@, final(self).pos()))
                    &&& old(self).pos() < final(self).pos() <= old(self).toks().len()
                },
                Err(err) => spec_parse_type(old(self).src(), old(self).toks(), old(self).pos())
                    == Err::<(Seq<char>, int), _>(err@),
            },
    {
        let token = match self.expect(TokenKind::Ident) {
            Ok(t) => t,
            Err(err) => {
                return Err(err);
            },
        };
        let text = self.lexer.module.token(&token);
        Ok(TypeIdent(text.to_owned()))
    }

    /// Parse a declaration whose name token was just consumed.
    fn parse_variable_declaration(&mut self, start: Token) -> (r: Result<Expression, AstError>)
        requires
            old(self).wf(),
            start.span.0 <= start.span.1 <= old(self).src().len(),
        ensures
            final(self).wf(),
            final(self).src() == old(self).src(),
            final(self).toks() == old(self).toks(),
            match r {
                Ok(e) => {
                    &&& spec_parse_declaration(
                        old(self).src(),
                        old(self).toks(),
                        old(self).pos(),
                        start,
                    ) == ParseOutcome::Parsed(e@, final(self).pos())
                    &&& old(self).pos() < final(self).pos() <= old(self).toks().len()
                },
                Err(err) => spec_parse_declaration(
                    old(self).src(),
                    old(self).toks(),
                    old(self).pos(),
                    start,
                ) == ParseOutcome::Failed(err@),
            },
        decreases old(self).toks().len() - old(self).pos(), 4int,
    {
        let name = self.lexer.module.token(&start).to_owned();
        let has_ty = self.peek_kind() == TokenKind::Ident;
        let ty: Option<TypeIdent> = if has_ty {
            match self.parse_type() {
                Ok(t) => Some(t),
                Err(err) => {
                    return Err(err);
                },
            }
        } else {
            None
        };
        let marker = self.peek_kind();
        let mutable = match marker {
            TokenKind::Colon => false,
            TokenKind::Equals => true,
            _ => {
                let kinds = vec![TokenKind::Colon, TokenKind::Equals];
                proof {
                    assert(kinds@ =~= seq![TokenKind::Colon, TokenKind::Equals]);
                }
                return Err(AstError::expected(&start, kinds));
            },
        };
        // the marker token is present: its kind was just inspected
        match self.consume() {
            Ok(_) => {},
            Err(err) => {
                proof {
                    assert(false);
                }
                return Err(err);
            },
        };
        let value = match self.parse_expression(Precedence::Lowest) {
            Ok(e) => e,
            Err(err) => {
                return Err(err);
            },
        };
        let span = start.span.to(&value.span);
        Ok(Expression::new(
            ExpressionKind::VariableDecl { name, value: Box::new(value), mutable, ty },
            span,
        ))
    }

    /// Parse an assignment whose name token was just consumed.
    fn parse_variable_assignment(&mut self, start: Token) -> (r: Result<Expression, AstError>)
        requires
            old(self).wf(),
            start.span.0 <= start.span.1 <= old(self).src().len(),
        ensures
            final(self).wf(),
            final(self).src() == old(self).src(),
            final(self).toks() == old(self).toks(),
            match r {
                Ok(e) => {
                    &&& spec_parse_assignment(
                        old(self).src(),
                        old(self).toks(),
                        old(self).pos(),
                        start,
                    ) == ParseOutcome::Parsed(e@, final(self).pos())
                    &&& old(self).pos() < final(self).pos() <= old(self).toks().len()
                },
                Err(err) => spec_parse_assignment(
                    old(self).src(),
                    old(self).toks(),
                    old(self).pos(),
                    start,
                ) == ParseOutcome::Failed(err@),
            },
        decreases old(self).toks().len() - old(self).pos(), 4int,
    {
        let name = self.lexer.module.token(&start).to_owned();
        match self.consume() {
            Ok(_) => {},
            Err(err) => {
                return Err(err);
            },
        };
        let value = match self.parse_expression(Precedence::Lowest) {
            Ok(e) => e,
            Err(err) => {
                return Err(err);
            },
        };
        let span = start.span.to(&value.span);
        Ok(Expression::new(
            ExpressionKind::VariableAssignment { name, value: Box::new(value) },
            span,
        ))
    }

    /// Parse a plain variable reference whose name token was just
    /// consumed. The cursor does not move.
    fn parse_variable_usage(&mut self, start: Token) -> (r: Result<Expression, AstError>)
        requires
            old(self).wf(),
            start.span.0 <= start.span.1 <= old(self).src().len(),
        ensures
            final(self).wf(),
            final(self).src() == old(self).src(),
            final(self).toks() == old(self).toks(),
            final(self).pos() == old(self).pos(),
            match r {
                Ok(e) => e@ == node(
                    ExprKindView::Ident(token_text(old(self).src(), start)),
                    start.span,
                ),
                Err(_) => false,
            },
    {
        let name = self.lexer.module.token(&start).to_owned();
        Ok(Expression::new(ExpressionKind::Ident(name), start.span))
    }

    /// Parse a call after its `.`: name, `(`, arguments, `)`. The
    /// node's span starts at `start`, the receiver's span.
    fn parse_function_call(&mut self, start: &Span) -> (r: Result<Expression, AstError>)
        requires
            old(self).wf(),
        ensures
            final(self).wf(),
            final(self).src() == old(self).src(),
            final(self).toks() == old(self).toks(),
            match r {
                Ok(e) => {
                    &&& spec_parse_function_call(
                        old(self).src(),
                        old(self).toks(),
                        old(self).pos(),
                        *start,
                    ) == ParseOutcome::Parsed(e@, final(self).pos())
                    &&& old(self).pos() < final(self).pos() <= old(self).toks().len()
                    &&& e@.kind is FunctionCall
                },
                Err(err) => spec_parse_function_call(
                    old(self).src(),
                    old(self).toks(),
                    old(self).pos(),
                    *start,
                ) == ParseOutcome::Failed(err@),
            },
        decreases old(self).toks().len() - old(self).pos(), 4int,
    {
        let ghost src = self.src();
        let ghost toks = self.toks();
        let ident = match self.expect(TokenKind::Ident) {
            Ok(t) => t,
            Err(err) => {
                return Err(err);
            },
        };
        let lparen = match self.expect(TokenKind::LParen) {
            Ok(t) => t,
            Err(err) => {
                return Err(err);
            },
        };
        let mut args: Vec<Expression> = Vec::new();
        proof {
            lemma_views_of(args@);
        }
        loop
            invariant
                self.wf(),
                src == old(self).src(),
                toks == old(self).toks(),
                self.src() == src,
                self.toks() == toks,
                old(self).pos() + 1 < self.pos() <= toks.len(),
                views_of(args@).len() == args@.len(),
                spec_expect_tok(toks, old(self).pos(), TokenKind::Ident) == Ok::<
                    _,
                    AstErrorView,
                >((ident, old(self).pos() + 1)),
                spec_expect_tok(toks, old(self).pos() + 1, TokenKind::LParen) == Ok::<
                    _,
                    AstErrorView,
                >((lparen, old(self).pos() + 2)),
                ({
                    match spec_parse_args(src, toks, self.pos()) {
                        ItemsOutcome::Parsed(rest, k) => spec_parse_args(
                            src,
                            toks,
                            old(self).pos() + 2,
                        ) == ItemsOutcome::Parsed(views_of(args@) + rest, k),
                        ItemsOutcome::Failed(err) => spec_parse_args(
                            src,
                            toks,
                            old(self).pos() + 2,
                        ) == ItemsOutcome::Failed(err),
                    }
                }),
            ensures
                self.wf(),
                src == old(self).src(),
                toks == old(self).toks(),
                self.src() == src,
                self.toks() == toks,
                old(self).pos() + 1 < self.pos() <= toks.len(),
                kind_at(toks, self.pos()) == TokenKind::RParen,
                spec_parse_args(src, toks, old(self).pos() + 2) == ItemsOutcome::Parsed(
                    views_of(args@),
                    self.pos(),
                ),
            decreases toks.len() - self.pos(),
        {
            let k = self.peek_kind();
            if k == TokenKind::RParen {
                proof {
                    assert(views_of(args@) + Seq::<ExprView>::empty() =~= views_of(args@));
                }
                break;
            }
            match self.parse_expression(Precedence::Lowest) {
                Ok(e) => {
                    let ghost pos_after_expr = self.pos();
                    let comma = self.peek_kind() == TokenKind::Comma;
                    if comma {
                        match self.consume() {
                            Ok(_) => {},
                            Err(err) => {
                                proof {
                                    assert(false);
                                }
                                return Err(err);
                            },
                        };
                    }
                    proof {
                        lemma_views_of(args@.push(e));
                        lemma_views_of(args@);
                        assert(views_of(args@.push(e)) =~= views_of(args@).push(e@));
                        if let ItemsOutcome::Parsed(rest2, k2) = spec_parse_args(
                            src,
                            toks,
                            self.pos(),
                        ) {
                            assert(views_of(args@) + (seq![e@] + rest2) =~= views_of(args@.push(e))
                                + rest2);
                        }
                    }
                    args.push(e);
                },
                Err(err) => {
                    return Err(err);
                },
            }
        }
        proof {
            assert(views_of(args@) + Seq::<ExprView>::empty() =~= views_of(args@));
        }
        let end = match self.expect(TokenKind::RParen) {
            Ok(t) => t,
            Err(err) => {
                return Err(err);
            },
        };
        let name = self.lexer.module.token(&ident).to_owned();
        let span = start.to(&end.span);
        Ok(Expression::new(ExpressionKind::FunctionCall { name, args }, span))
    }
}

} // verus!
