//! Evaluation outcomes: the error taxonomy and the arity contract a
//! function declares for its arguments.

use vstd::prelude::*;

verus! {

/// An evaluation failure.
///
/// `StackOverflow` reports that the evaluator's explicit recursion
/// budget ran out; the budget makes deep user recursion a reported
/// failure rather than an unbounded descent.
#[derive(Debug)]
pub enum EvalError {
    BadArguments,
    UndefinedBehaviour,
    NameNotFound(String),
    NotCallable(String),
    StackOverflow,
}

/// Ghost counterpart of `EvalError`.
pub enum ErrorView {
    BadArguments,
    UndefinedBehaviour,
    NameNotFound(Seq<char>),
    NotCallable(Seq<char>),
    StackOverflow,
}

impl View for EvalError {
    type V = ErrorView;

    open spec fn view(&self) -> ErrorView {
        match self {
            EvalError::BadArguments => ErrorView::BadArguments,
            EvalError::UndefinedBehaviour => ErrorView::UndefinedBehaviour,
            EvalError::NameNotFound(n) => ErrorView::NameNotFound(n@),
            EvalError::NotCallable(n) => ErrorView::NotCallable(n@),
            EvalError::StackOverflow => ErrorView::StackOverflow,
        }
    }
}

/// How many arguments a function accepts: an exact count, or any count
/// from a minimum up.
pub enum ArgumentsSize {
    Exact(usize),
    AtLeast(usize),
}

/// Whether an argument count satisfies the arity contract.
pub open spec fn size_contains(size: ArgumentsSize, value: nat) -> bool {
    match size {
        ArgumentsSize::Exact(n) => value == n,
        ArgumentsSize::AtLeast(n) => value >= n,
    }
}

impl ArgumentsSize {
    /// Whether `value` arguments satisfy this arity contract.
    pub fn contains(&self, value: usize) -> (r: bool)
        ensures
            r == size_contains(*self, value as nat),
    {
        match self {
            ArgumentsSize::Exact(n) => value == *n,
            ArgumentsSize::AtLeast(n) => value >= *n,
        }
    }
}

impl Clone for EvalError {
    fn clone(&self) -> (r: Self)
        ensures
            r@ == self@,
    {
        match self {
            EvalError::BadArguments => EvalError::BadArguments,
            EvalError::UndefinedBehaviour => EvalError::UndefinedBehaviour,
            EvalError::NameNotFound(n) => EvalError::NameNotFound(n.clone()),
            EvalError::NotCallable(n) => EvalError::NotCallable(n.clone()),
            EvalError::StackOverflow => EvalError::StackOverflow,
        }
    }
}

} // verus!
