//! Syntax of the language: tokens produced by the lexer, and the
//! expression tree produced by the parser.
//!
//! Each executable type has a ghost counterpart (`TokenView`, `ExprView`,
//! ...) in which every `String` is a `Seq<char>` and every `Vec` is a
//! `Seq`; contracts throughout the crate are stated over these views.

use vstd::prelude::*;

verus! {

/// One lexical unit. The lexer emits parentheses and atoms only; the
/// remaining variants are reserved keyword tokens kept for compatibility
/// with older token streams, and the parser rejects them.
#[derive(Debug)]
pub enum Token {
    OpenParen,
    CloseParen,
    Atom(Atom),
    Defun,
    Lambda,
    Backtick,
    Comma,
    If,
}

/// An indivisible atom: a literal constant or a name.
#[derive(Debug)]
pub enum Atom {
    Literal(Literal),
    Name(String),
}

/// A constant value. Numbers are 64-bit signed integers.
#[derive(Debug)]
pub enum Literal {
    String(String),
    Number(i64),
    True,
    Nil,
}

/// A node of the expression tree.
///
/// `Invoke` holds a syntactically balanced but uninterpreted token span;
/// the parser resolves every such span into `Call` or `Operator` before
/// handing the tree out, so the evaluator treats a surviving `Invoke` as
/// an undefined shape.
#[derive(Debug)]
pub enum Expression {
    Literal(Literal),
    Name(String),
    Invoke(String, Vec<Token>),
    Call(String, Vec<Expression>),
    Operator(Box<Operator>),
}

/// A special form: a call-shaped construct with its own evaluation order.
#[derive(Debug)]
pub enum Operator {
    SetQ(String, Expression),
    ProgN(Vec<Expression>),
    If(Box<Expression>, Box<Expression>, Option<Box<Expression>>),
    Function(String, Vec<String>, Box<Expression>),
    Lambda(Vec<String>, Box<Expression>),
}

/// Ghost counterpart of `Literal`.
pub enum LiteralView {
    String(Seq<char>),
    Number(i64),
    True,
    Nil,
}

/// Ghost counterpart of `Token`.
pub enum TokenView {
    OpenParen,
    CloseParen,
    Literal(LiteralView),
    Name(Seq<char>),
    Defun,
    Lambda,
    Backtick,
    Comma,
    If,
}

/// Ghost counterpart of `Expression`.
pub enum ExprView {
    Literal(LiteralView),
    Name(Seq<char>),
    Invoke(Seq<char>, Seq<TokenView>),
    Call(Seq<char>, Seq<ExprView>),
    Operator(Box<OperatorView>),
}

/// Ghost counterpart of `Operator`.
pub enum OperatorView {
    SetQ(Seq<char>, Box<ExprView>),
    ProgN(Seq<ExprView>),
    If(Box<ExprView>, Box<ExprView>, Option<Box<ExprView>>),
    Function(Seq<char>, Seq<Seq<char>>, Box<ExprView>),
    Lambda(Seq<Seq<char>>, Box<ExprView>),
}

impl View for Literal {
    type V = LiteralView;

    open spec fn view(&self) -> LiteralView {
        match self {
            Literal::String(s) => LiteralView::String(s@),
            Literal::Number(n) => LiteralView::Number(*n),
            Literal::True => LiteralView::True,
            Literal::Nil => LiteralView::Nil,
        }
    }
}

impl View for Token {
    type V = TokenView;

    open spec fn view(&self) -> TokenView {
        match self {
            Token::OpenParen => TokenView::OpenParen,
            Token::CloseParen => TokenView::CloseParen,
            Token::Atom(Atom::Literal(l)) => TokenView::Literal(l@),
            Token::Atom(Atom::Name(n)) => TokenView::Name(n@),
            Token::Defun => TokenView::Defun,
            Token::Lambda => TokenView::Lambda,
            Token::Backtick => TokenView::Backtick,
            Token::Comma => TokenView::Comma,
            Token::If => TokenView::If,
        }
    }
}

/// The views of the tokens in `s`, in order.
pub open spec fn tokens_view(s: Seq<Token>) -> Seq<TokenView> {
    s.map_values(|t: Token| t@)
}

/// The view of an expression, its children taken from index `i` on for a
/// `Call` node; the indexed form lets the recursion descend into a `Vec`.
pub open spec fn expr_view(e: Expression) -> ExprView
    decreases e, 0int,
{
    match e {
        Expression::Literal(l) => ExprView::Literal(l@),
        Expression::Name(n) => ExprView::Name(n@),
        Expression::Invoke(n, toks) => ExprView::Invoke(n@, tokens_view(toks@)),
        Expression::Call(n, args) => ExprView::Call(n@, exprs_view(args, 0)),
        Expression::Operator(op) => ExprView::Operator(Box::new(oper_view(*op))),
    }
}

/// Views of the expressions of `v` from index `i` on.
pub open spec fn exprs_view(v: Vec<Expression>, i: int) -> Seq<ExprView>
    decreases v, v@.len() - i, 0int,
{
    if i < 0 || i >= v@.len() {
        Seq::empty()
    } else {
        seq![expr_view(v@[i])] + exprs_view(v, i + 1)
    }
}

/// The view of a special-form node.
pub open spec fn oper_view(op: Operator) -> OperatorView
    decreases op, 0int,
{
    match op {
        Operator::SetQ(n, e) => OperatorView::SetQ(n@, Box::new(expr_view(e))),
        Operator::ProgN(es) => OperatorView::ProgN(exprs_view(es, 0)),
        Operator::If(c, t, e) => OperatorView::If(
            Box::new(expr_view(*c)),
            Box::new(expr_view(*t)),
            match e {
                Some(x) => Some(Box::new(expr_view(*x))),
                None => None,
            },
        ),
        Operator::Function(n, ps, body) => OperatorView::Function(
            n@,
            ps@.map_values(|p: String| p@),
            Box::new(expr_view(*body)),
        ),
        Operator::Lambda(ps, body) => OperatorView::Lambda(
            ps@.map_values(|p: String| p@),
            Box::new(expr_view(*body)),
        ),
    }
}

impl View for Expression {
    type V = ExprView;

    open spec fn view(&self) -> ExprView {
        expr_view(*self)
    }
}

impl View for Operator {
    type V = OperatorView;

    open spec fn view(&self) -> OperatorView {
        oper_view(*self)
    }
}

/// `exprs_view` agrees pointwise with `expr_view` of the elements.
pub proof fn lemma_exprs_view(v: Vec<Expression>, i: int)
    requires
        0 <= i <= v@.len(),
    ensures
        exprs_view(v, i).len() == v@.len() - i,
        forall|j: int| i <= j < v@.len() ==> exprs_view(v, i)[j - i] == expr_view(v@[j]),
    decreases v@.len() - i,
{
    if i < v@.len() {
        lemma_exprs_view(v, i + 1);
    }
}

/// `exprs_view` from the start of the list, characterized pointwise.
pub proof fn lemma_exprs_view_full(v: Vec<Expression>)
    ensures
        exprs_view(v, 0).len() == v@.len(),
        forall|j: int| 0 <= j < v@.len() ==> exprs_view(v, 0)[j] == expr_view(v@[j]),
{
    lemma_exprs_view(v, 0);
    assert forall|j: int| 0 <= j < v@.len() implies exprs_view(v, 0)[j] == expr_view(v@[j]) by {
        assert(exprs_view(v, 0)[j - 0] == expr_view(v@[j]));
    }
}

impl Clone for Literal {
    fn clone(&self) -> (r: Self)
        ensures
            r@ == self@,
    {
        match self {
            Literal::String(s) => Literal::String(s.clone()),
            Literal::Number(n) => Literal::Number(*n),
            Literal::True => Literal::True,
            Literal::Nil => Literal::Nil,
        }
    }
}

impl Clone for Token {
    fn clone(&self) -> (r: Self)
        ensures
            r@ == self@,
    {
        match self {
            Token::OpenParen => Token::OpenParen,
            Token::CloseParen => Token::CloseParen,
            Token::Atom(Atom::Literal(l)) => Token::Atom(Atom::Literal(l.clone())),
            Token::Atom(Atom::Name(n)) => Token::Atom(Atom::Name(n.clone())),
            Token::Defun => Token::Defun,
            Token::Lambda => Token::Lambda,
            Token::Backtick => Token::Backtick,
            Token::Comma => Token::Comma,
            Token::If => Token::If,
        }
    }
}

} // verus!
