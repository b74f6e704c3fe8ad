//! Runtime values: literals, and function values (builtins and
//! user-defined closures) unified behind one dispatch type.

use vstd::prelude::*;
use crate::ast::{
    Expression, ExprView, expr_view, exprs_view, lemma_exprs_view_full, Literal, oper_view,
    Operator, Token,
};
use crate::display::lit_display;

verus! {

/// One of the built-in functions.
#[derive(Clone, Copy)]
pub enum BuiltinKind {
    Add,
    Sub,
    Mul,
    Div,
    Eq,
    Greater,
    Less,
    GreaterEq,
    LessEq,
    And,
    Or,
    Not,
    Concatenate,
    Write,
    Read,
}

/// A user-defined function or lambda: its parameter names and its
/// unevaluated body. Invoking it binds the parameters in a fresh frame
/// on top of the caller's live frame stack (dynamic scoping).
pub struct CustomFunction {
    pub parameter_names: Vec<String>,
    pub code: Box<Expression>,
}

/// A callable value: a builtin, or a user-defined closure.
pub enum Function {
    Builtin(BuiltinKind),
    Custom(CustomFunction),
}

/// A runtime value: a literal constant, or a function.
pub enum Value {
    Literal(Literal),
    Symbol(Function),
}

/// Ghost counterpart of `Function`.
pub enum FnView {
    Builtin(BuiltinKind),
    Custom(Seq<Seq<char>>, Box<ExprView>),
}

/// Ghost counterpart of `Value`.
pub enum ValueView {
    Literal(crate::ast::LiteralView),
    Symbol(FnView),
}

impl View for Function {
    type V = FnView;

    open spec fn view(&self) -> FnView {
        match self {
            Function::Builtin(k) => FnView::Builtin(*k),
            Function::Custom(c) => FnView::Custom(
                c.parameter_names@.map_values(|p: String| p@),
                Box::new(expr_view(*c.code)),
            ),
        }
    }
}

impl View for Value {
    type V = ValueView;

    open spec fn view(&self) -> ValueView {
        match self {
            Value::Literal(l) => ValueView::Literal(l@),
            Value::Symbol(f) => ValueView::Symbol(f@),
        }
    }
}

impl CustomFunction {
    /// Packages parameter names and an unevaluated body as a function.
    pub fn new(parameters: Vec<String>, code: Expression) -> (r: Self)
        ensures
            r.parameter_names == parameters,
            r.code == code,
    {
        CustomFunction { parameter_names: parameters, code: Box::new(code) }
    }
}

/// Equality as the `=` builtin sees it: literals compare structurally,
/// a function value equals nothing.
pub open spec fn val_eq(a: ValueView, b: ValueView) -> bool {
    match (a, b) {
        (ValueView::Literal(l1), ValueView::Literal(l2)) => l1 == l2,
        _ => false,
    }
}

/// Printed form of a value; function values all print alike.
pub open spec fn val_display(v: ValueView) -> Seq<char> {
    match v {
        ValueView::Literal(l) => lit_display(l),
        ValueView::Symbol(_) => "symbol"@,
    }
}

/// Decides `val_eq` on executable values.
pub fn value_eq(a: &Value, b: &Value) -> (r: bool)
    ensures
        r == val_eq(a@, b@),
{
    match (a, b) {
        (Value::Literal(Literal::String(s1)), Value::Literal(Literal::String(s2))) => s1.eq(s2),
        (Value::Literal(Literal::Number(n1)), Value::Literal(Literal::Number(n2))) => n1 == n2,
        (Value::Literal(Literal::True), Value::Literal(Literal::True)) => true,
        (Value::Literal(Literal::Nil), Value::Literal(Literal::Nil)) => true,
        _ => false,
    }
}

impl PartialEq for Value {
    /// Structural equality on literals; a function value equals nothing,
    /// itself included.
    fn eq(&self, other: &Self) -> (r: bool) {
        value_eq(self, other)
    }
}

impl vstd::std_specs::cmp::PartialEqSpecImpl for Value {
    open spec fn obeys_eq_spec() -> bool {
        true
    }

    open spec fn eq_spec(&self, other: &Value) -> bool {
        val_eq(self@, other@)
    }
}

/// Renders a value in its printed form.
pub fn value_to_string(v: &Value) -> (r: String)
    ensures
        r@ == val_display(v@),
{
    match v {
        Value::Literal(l) => crate::display::literal_to_string(l),
        Value::Symbol(_) => String::from_str("symbol"),
    }
}

impl Clone for Expression {
    /// A structural copy; the copy has the same view.
    fn clone(&self) -> (r: Self)
        ensures
            r@ == self@,
        decreases *self, 1int,
    {
        match self {
            Expression::Literal(l) => Expression::Literal(l.clone()),
            Expression::Name(n) => Expression::Name(n.clone()),
            Expression::Invoke(n, toks) => {
                let mut copy: Vec<Token> = Vec::new();
                let mut i: usize = 0;
                #[verifier::loop_isolation(false)]
                while i < toks.len()
                    invariant
                        i as int <= toks@.len(),
                        copy@.len() == i as int,
                        forall|j: int| 0 <= j < i as int ==> copy@[j]@ == toks@[j]@,
                    decreases toks@.len() - i,
                {
                    copy.push(toks[i].clone());
                    i = i + 1;
                }
                proof {
                    assert(crate::ast::tokens_view(copy@) =~= crate::ast::tokens_view(toks@));
                }
                Expression::Invoke(n.clone(), copy)
            }
            Expression::Call(n, args) => {
                let mut copy: Vec<Expression> = Vec::new();
                let mut i: usize = 0;
                #[verifier::loop_isolation(false)]
                while i < args.len()
                    invariant
                        i as int <= args@.len(),
                        copy@.len() == i as int,
                        forall|j: int| 0 <= j < i as int ==> expr_view(copy@[j]) == expr_view(
                            args@[j],
                        ),
                    decreases args@.len() - i,
                {
                    proof {
                        assert(*self == Expression::Call(*n, *args));
                        assert(decreases_to!(Expression::Call(*n, *args) => *args));
                        assert(decreases_to!(*args => args@[i as int]));
                    }
                    copy.push(args[i].clone());
                    i = i + 1;
                }
                proof {
                    lemma_exprs_view_full(copy);
                    lemma_exprs_view_full(*args);
                    assert(exprs_view(copy, 0) =~= exprs_view(*args, 0));
                }
                Expression::Call(n.clone(), copy)
            }
            Expression::Operator(op) => Expression::Operator(Box::new((**op).clone())),
        }
    }
}

impl Clone for Operator {
    /// A structural copy; the copy has the same view.
    fn clone(&self) -> (r: Self)
        ensures
            r@ == self@,
        decreases *self, 1int,
    {
        match self {
            Operator::SetQ(n, e) => Operator::SetQ(n.clone(), e.clone()),
            Operator::ProgN(es) => {
                let mut copy: Vec<Expression> = Vec::new();
                let mut i: usize = 0;
                #[verifier::loop_isolation(false)]
                while i < es.len()
                    invariant
                        i as int <= es@.len(),
                        copy@.len() == i as int,
                        forall|j: int| 0 <= j < i as int ==> expr_view(copy@[j]) == expr_view(
                            es@[j],
                        ),
                    decreases es@.len() - i,
                {
                    proof {
                        assert(*self == Operator::ProgN(*es));
                        assert(decreases_to!(Operator::ProgN(*es) => *es));
                        assert(decreases_to!(*es => es@[i as int]));
                    }
                    copy.push(es[i].clone());
                    i = i + 1;
                }
                proof {
                    lemma_exprs_view_full(copy);
                    lemma_exprs_view_full(*es);
                    assert(exprs_view(copy, 0) =~= exprs_view(*es, 0));
                }
                Operator::ProgN(copy)
            }
            Operator::If(c, t, e) => Operator::If(
                Box::new((**c).clone()),
                Box::new((**t).clone()),
                match e {
                    Some(x) => Some(Box::new((**x).clone())),
                    None => None,
                },
            ),
            Operator::Function(n, ps, body) => {
                let r = Operator::Function(n.clone(), clone_names(ps), Box::new((**body).clone()));
                proof {
                    assert(oper_view(r) =~= oper_view(*self));
                }
                r
            }
            Operator::Lambda(ps, body) => {
                let r = Operator::Lambda(clone_names(ps), Box::new((**body).clone()));
                proof {
                    assert(oper_view(r) =~= oper_view(*self));
                }
                r
            }
        }
    }
}

/// Copies a list of names; the copy has the same views.
pub fn clone_names(ps: &Vec<String>) -> (r: Vec<String>)
    ensures
        r@.map_values(|p: String| p@) == ps@.map_values(|p: String| p@),
{
    let mut copy: Vec<String> = Vec::new();
    let mut i: usize = 0;
    #[verifier::loop_isolation(false)]
    while i < ps.len()
        invariant
            i as int <= ps@.len(),
            copy@.len() == i as int,
            forall|j: int| 0 <= j < i as int ==> copy@[j]@ == ps@[j]@,
        decreases ps@.len() - i,
    {
        copy.push(ps[i].clone());
        i = i + 1;
    }
    proof {
        assert(copy@.map_values(|p: String| p@) =~= ps@.map_values(|p: String| p@));
    }
    copy
}

impl Clone for Function {
    /// A structural copy; the copy has the same view.
    fn clone(&self) -> (r: Self)
        ensures
            r@ == self@,
    {
        match self {
            Function::Builtin(k) => Function::Builtin(*k),
            Function::Custom(c) => {
                let r = Function::Custom(
                    CustomFunction {
                        parameter_names: clone_names(&c.parameter_names),
                        code: Box::new((*c.code).clone()),
                    },
                );
                proof {
                    assert(r@ =~= self@);
                }
                r
            }
        }
    }
}

impl Clone for Value {
    /// A structural copy; the copy has the same view.
    fn clone(&self) -> (r: Self)
        ensures
            r@ == self@,
    {
        match self {
            Value::Literal(l) => Value::Literal(l.clone()),
            Value::Symbol(f) => Value::Symbol(f.clone()),
        }
    }
}

} // verus!
