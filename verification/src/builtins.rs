//! The built-in functions: arithmetic, comparison, logic, string
//! joining, and the two I/O builtins. Each builtin is a unit struct
//! with an arity contract and an `eval` whose result is pinned down
//! exactly by a spec function of the argument views.

use vstd::prelude::*;
use crate::ast::LiteralView;
use crate::base::{ArgumentsSize, ErrorView, EvalError};
use crate::frame::{CtxView, EvalContext};
use crate::value::{BuiltinKind, val_display, val_eq, Value, ValueView};

verus! {

/// Views of a list of values.
pub open spec fn vals_view(args: Seq<Value>) -> Seq<ValueView> {
    args.map_values(|v: Value| v@)
}

/// The number a value holds, if it is a numeric literal.
pub open spec fn as_number(v: ValueView) -> Option<i64> {
    match v {
        ValueView::Literal(LiteralView::Number(n)) => Some(n),
        _ => None,
    }
}

/// `T` for true, `NIL` for false.
pub open spec fn bool_lit(b: bool) -> ValueView {
    if b {
        ValueView::Literal(LiteralView::True)
    } else {
        ValueView::Literal(LiteralView::Nil)
    }
}

/// The arity contract of each builtin.
pub open spec fn builtin_size(k: BuiltinKind) -> ArgumentsSize {
    match k {
        BuiltinKind::Add => ArgumentsSize::AtLeast(2),
        BuiltinKind::Sub => ArgumentsSize::AtLeast(2),
        BuiltinKind::Mul => ArgumentsSize::AtLeast(2),
        BuiltinKind::Div => ArgumentsSize::AtLeast(2),
        BuiltinKind::Eq => ArgumentsSize::AtLeast(2),
        BuiltinKind::Greater => ArgumentsSize::Exact(2),
        BuiltinKind::Less => ArgumentsSize::Exact(2),
        BuiltinKind::GreaterEq => ArgumentsSize::Exact(2),
        BuiltinKind::LessEq => ArgumentsSize::Exact(2),
        BuiltinKind::And => ArgumentsSize::AtLeast(2),
        BuiltinKind::Or => ArgumentsSize::AtLeast(2),
        BuiltinKind::Not => ArgumentsSize::Exact(1),
        BuiltinKind::Concatenate => ArgumentsSize::AtLeast(1),
        BuiltinKind::Write => ArgumentsSize::Exact(1),
        BuiltinKind::Read => ArgumentsSize::Exact(0),
    }
}

/// One step of a numeric left fold. Overflow and division by a zero
/// operand have no result; the caller reports them as undefined.
pub open spec fn math_step(k: BuiltinKind, acc: i64, x: i64) -> Option<i64> {
    match k {
        BuiltinKind::Add => acc.checked_add(x),
        BuiltinKind::Sub => acc.checked_sub(x),
        BuiltinKind::Mul => acc.checked_mul(x),
        BuiltinKind::Div => if x == 0 {
            None
        } else {
            acc.checked_div(x)
        },
        _ => None,
    }
}

/// Folds the remaining operands into `acc`, left to right; a
/// non-numeric operand or a step without a result is undefined.
pub open spec fn math_rest(k: BuiltinKind, acc: i64, rest: Seq<ValueView>) -> Result<
    i64,
    ErrorView,
>
    decreases rest.len(),
{
    if rest.len() == 0 {
        Ok(acc)
    } else {
        match as_number(rest.first()) {
            Option::None => Err(ErrorView::UndefinedBehaviour),
            Option::Some(x) => match math_step(k, acc, x) {
                Option::None => Err(ErrorView::UndefinedBehaviour),
                Option::Some(a2) => math_rest(k, a2, rest.drop_first()),
            },
        }
    }
}

/// What an arithmetic builtin returns: the left fold starting from the
/// first operand; `+` and `*` are order-independent folds, `-` and `/`
/// subtract and divide the remaining operands in turn.
pub open spec fn math_apply(k: BuiltinKind, args: Seq<ValueView>) -> Result<
    ValueView,
    ErrorView,
> {
    if args.len() == 0 {
        Err(ErrorView::UndefinedBehaviour)
    } else {
        match as_number(args.first()) {
            Option::None => Err(ErrorView::UndefinedBehaviour),
            Option::Some(first) => match math_rest(k, first, args.drop_first()) {
                Ok(n) => Ok(ValueView::Literal(LiteralView::Number(n))),
                Err(e) => Err(e),
            },
        }
    }
}

/// What a two-operand comparison returns; operands of any other shape
/// are a type mismatch.
pub open spec fn compare_apply(k: BuiltinKind, args: Seq<ValueView>) -> Result<
    ValueView,
    ErrorView,
> {
    if args.len() == 2 && as_number(args[0]) is Some && as_number(args[1]) is Some {
        let a = as_number(args[0]).unwrap();
        let b = as_number(args[1]).unwrap();
        Ok(
            bool_lit(
                match k {
                    BuiltinKind::Greater => a > b,
                    BuiltinKind::Less => a < b,
                    BuiltinKind::GreaterEq => a >= b,
                    _ => a <= b,
                },
            ),
        )
    } else {
        Err(ErrorView::BadArguments)
    }
}

/// What `=` returns: `T` when every argument structurally equals the
/// first (function values equal nothing), `NIL` otherwise.
pub open spec fn eq_apply(args: Seq<ValueView>) -> Result<ValueView, ErrorView> {
    if args.len() == 0 {
        Err(ErrorView::UndefinedBehaviour)
    } else {
        Ok(bool_lit(forall|i: int| 1 <= i < args.len() ==> val_eq(#[trigger] args[i], args[0])))
    }
}

/// What `and` returns: `NIL` when any argument is `NIL`, else `T`.
pub open spec fn and_apply(args: Seq<ValueView>) -> Result<ValueView, ErrorView> {
    Ok(bool_lit(!exists|i: int| 0 <= i < args.len() && #[trigger] args[i] == ValueView::Literal(LiteralView::Nil)))
}

/// What `or` returns: `T` when any argument is `T` itself — not merely
/// truthy — else `NIL`.
pub open spec fn or_apply(args: Seq<ValueView>) -> Result<ValueView, ErrorView> {
    Ok(bool_lit(exists|i: int| 0 <= i < args.len() && #[trigger] args[i] == ValueView::Literal(LiteralView::True)))
}

/// What `not` returns: `T` for `NIL`, `NIL` for everything else.
pub open spec fn not_apply(args: Seq<ValueView>) -> Result<ValueView, ErrorView> {
    if args.len() == 1 {
        Ok(bool_lit(args[0] == ValueView::Literal(LiteralView::Nil)))
    } else {
        Err(ErrorView::UndefinedBehaviour)
    }
}

/// The printed forms of the arguments, joined with no separator.
pub open spec fn displays_join(args: Seq<ValueView>) -> Seq<char>
    decreases args.len(),
{
    if args.len() == 0 {
        Seq::empty()
    } else {
        val_display(args.first()) + displays_join(args.drop_first())
    }
}

/// What `concatenate` returns: one string literal joining the printed
/// forms of all arguments, quotes kept on string operands.
pub open spec fn concatenate_apply(args: Seq<ValueView>) -> Result<ValueView, ErrorView> {
    if args.len() == 0 {
        Err(ErrorView::UndefinedBehaviour)
    } else {
        Ok(ValueView::Literal(LiteralView::String(displays_join(args))))
    }
}

/// What `write` does: appends the printed form of its argument to the
/// output and returns the argument unchanged.
pub open spec fn write_apply(args: Seq<ValueView>, ctx: CtxView) -> (Result<
    ValueView,
    ErrorView,
>, CtxView) {
    if args.len() == 1 {
        (
            Ok(args[0]),
            CtxView { output: ctx.output.push(val_display(args[0])), ..ctx },
        )
    } else {
        (Err(ErrorView::UndefinedBehaviour), ctx)
    }
}

/// What `read` does: takes the next pending input line as a string
/// literal; exhausted input is an undefined-behaviour failure.
pub open spec fn read_apply(ctx: CtxView) -> (Result<ValueView, ErrorView>, CtxView) {
    if ctx.input.len() == 0 {
        (Err(ErrorView::UndefinedBehaviour), ctx)
    } else {
        (
            Ok(ValueView::Literal(LiteralView::String(ctx.input[0]))),
            CtxView { input: ctx.input.drop_first(), ..ctx },
        )
    }
}

/// What a builtin call returns, and the context it leaves: only `write`
/// and `read` touch the context, and no builtin touches the frames.
pub open spec fn apply_builtin_spec(k: BuiltinKind, args: Seq<ValueView>, ctx: CtxView) -> (Result<
    ValueView,
    ErrorView,
>, CtxView) {
    match k {
        BuiltinKind::Add => (math_apply(k, args), ctx),
        BuiltinKind::Sub => (math_apply(k, args), ctx),
        BuiltinKind::Mul => (math_apply(k, args), ctx),
        BuiltinKind::Div => (math_apply(k, args), ctx),
        BuiltinKind::Eq => (eq_apply(args), ctx),
        BuiltinKind::Greater => (compare_apply(k, args), ctx),
        BuiltinKind::Less => (compare_apply(k, args), ctx),
        BuiltinKind::GreaterEq => (compare_apply(k, args), ctx),
        BuiltinKind::LessEq => (compare_apply(k, args), ctx),
        BuiltinKind::And => (and_apply(args), ctx),
        BuiltinKind::Or => (or_apply(args), ctx),
        BuiltinKind::Not => (not_apply(args), ctx),
        BuiltinKind::Concatenate => (concatenate_apply(args), ctx),
        BuiltinKind::Write => write_apply(args, ctx),
        BuiltinKind::Read => read_apply(ctx),
    }
}

/// Whether `k` is one of the four arithmetic builtins.
pub open spec fn is_math_kind(k: BuiltinKind) -> bool {
    k is Add || k is Sub || k is Mul || k is Div
}

/// Folds the arguments from index `i` on into `acc`.
fn math_fold(k: BuiltinKind, acc: i64, args: &Vec<Value>, i: usize) -> (r: Result<i64, EvalError>)
    requires
        is_math_kind(k),
        i <= args@.len(),
    ensures
        match r {
            Ok(n) => math_rest(k, acc, vals_view(args@).skip(i as int)) == Ok::<i64, ErrorView>(n),
            Err(e) => math_rest(k, acc, vals_view(args@).skip(i as int)) == Err::<i64, ErrorView>(
                e@,
            ),
        },
    decreases args@.len() - i,
{
    proof {
        assert(vals_view(args@).skip(i as int).len() == args@.len() - i);
    }
    if i == args.len() {
        Ok(acc)
    } else {
        proof {
            assert(vals_view(args@).skip(i as int).first() == args@[i as int]@);
            assert(vals_view(args@).skip(i as int).drop_first() =~= vals_view(args@).skip(
                i as int + 1,
            ));
        }
        let x: i64 = match &args[i] {
            Value::Literal(crate::ast::Literal::Number(n)) => *n,
            _ => {
                return Err(EvalError::UndefinedBehaviour);
            }
        };
        let step = match k {
            BuiltinKind::Add => acc.checked_add(x),
            BuiltinKind::Sub => acc.checked_sub(x),
            BuiltinKind::Mul => acc.checked_mul(x),
            _ => if x == 0 {
                None
            } else {
                acc.checked_div(x)
            },
        };
        match step {
            Some(a2) => math_fold(k, a2, args, i + 1),
            None => Err(EvalError::UndefinedBehaviour),
        }
    }
}

/// Shared body of the four arithmetic builtins.
fn math_eval(k: BuiltinKind, args: &Vec<Value>) -> (r: Result<Value, EvalError>)
    requires
        is_math_kind(k),
    ensures
        match r {
            Ok(v) => math_apply(k, vals_view(args@)) == Ok::<ValueView, ErrorView>(v@),
            Err(e) => math_apply(k, vals_view(args@)) == Err::<ValueView, ErrorView>(e@),
        },
{
    proof {
        assert(vals_view(args@).len() == args@.len());
    }
    if args.len() == 0 {
        return Err(EvalError::UndefinedBehaviour);
    }
    proof {
        assert(vals_view(args@).first() == args@[0]@);
        assert(vals_view(args@).drop_first() =~= vals_view(args@).skip(1));
    }
    let first: i64 = match &args[0] {
        Value::Literal(crate::ast::Literal::Number(n)) => *n,
        _ => {
            return Err(EvalError::UndefinedBehaviour);
        }
    };
    match math_fold(k, first, args, 1) {
        Ok(n) => Ok(Value::Literal(crate::ast::Literal::Number(n))),
        Err(e) => Err(e),
    }
}

pub struct AddFunction {}

pub struct SubFunction {}

pub struct MulFunction {}

pub struct DivFunction {}

pub struct EqFunction {}

pub struct GreaterFunction {}

pub struct LessFunction {}

pub struct GreaterEqFunction {}

pub struct LessEqFunction {}

pub struct AndFunction {}

pub struct OrFunction {}

pub struct NotFunction {}

pub struct ConcatenateFunction {}

pub struct WriteFunction {}

pub struct ReadFunction {}

impl AddFunction {
    pub fn get_arguments_size(&self) -> (r: ArgumentsSize)
        ensures
            r == builtin_size(BuiltinKind::Add),
    {
        ArgumentsSize::AtLeast(2)
    }

    /// Sums all operands; any non-number, or overflow, is undefined.
    pub fn eval(&self, arguments: &Vec<Value>) -> (r: Result<Value, EvalError>)
        ensures
            match r {
                Ok(v) => math_apply(BuiltinKind::Add, vals_view(arguments@)) == Ok::<
                    ValueView,
                    ErrorView,
                >(v@),
                Err(e) => math_apply(BuiltinKind::Add, vals_view(arguments@)) == Err::<
                    ValueView,
                    ErrorView,
                >(e@),
            },
    {
        math_eval(BuiltinKind::Add, arguments)
    }
}

impl SubFunction {
    pub fn get_arguments_size(&self) -> (r: ArgumentsSize)
        ensures
            r == builtin_size(BuiltinKind::Sub),
    {
        ArgumentsSize::AtLeast(2)
    }

    /// Subtracts the remaining operands from the first, left to right.
    pub fn eval(&self, arguments: &Vec<Value>) -> (r: Result<Value, EvalError>)
        ensures
            match r {
                Ok(v) => math_apply(BuiltinKind::Sub, vals_view(arguments@)) == Ok::<
                    ValueView,
                    ErrorView,
                >(v@),
                Err(e) => math_apply(BuiltinKind::Sub, vals_view(arguments@)) == Err::<
                    ValueView,
                    ErrorView,
                >(e@),
            },
    {
        math_eval(BuiltinKind::Sub, arguments)
    }
}

impl MulFunction {
    pub fn get_arguments_size(&self) -> (r: ArgumentsSize)
        ensures
            r == builtin_size(BuiltinKind::Mul),
    {
        ArgumentsSize::AtLeast(2)
    }

    /// Multiplies all operands; any non-number, or overflow, is undefined.
    pub fn eval(&self, arguments: &Vec<Value>) -> (r: Result<Value, EvalError>)
        ensures
            match r {
                Ok(v) => math_apply(BuiltinKind::Mul, vals_view(arguments@)) == Ok::<
                    ValueView,
                    ErrorView,
                >(v@),
                Err(e) => math_apply(BuiltinKind::Mul, vals_view(arguments@)) == Err::<
                    ValueView,
                    ErrorView,
                >(e@),
            },
    {
        math_eval(BuiltinKind::Mul, arguments)
    }
}

impl DivFunction {
    pub fn get_arguments_size(&self) -> (r: ArgumentsSize)
        ensures
            r == builtin_size(BuiltinKind::Div),
    {
        ArgumentsSize::AtLeast(2)
    }

    /// Divides the first operand by each of the rest, left to right; a
    /// zero divisor is undefined.
    pub fn eval(&self, arguments: &Vec<Value>) -> (r: Result<Value, EvalError>)
        ensures
            match r {
                Ok(v) => math_apply(BuiltinKind::Div, vals_view(arguments@)) == Ok::<
                    ValueView,
                    ErrorView,
                >(v@),
                Err(e) => math_apply(BuiltinKind::Div, vals_view(arguments@)) == Err::<
                    ValueView,
                    ErrorView,
                >(e@),
            },
    {
        math_eval(BuiltinKind::Div, arguments)
    }
}

impl EqFunction {
    pub fn get_arguments_size(&self) -> (r: ArgumentsSize)
        ensures
            r == builtin_size(BuiltinKind::Eq),
    {
        ArgumentsSize::AtLeast(2)
    }

    /// `T` when every argument structurally equals the first.
    pub fn eval(&self, arguments: &Vec<Value>) -> (r: Result<Value, EvalError>)
        requires
            arguments@.len() >= 1,
        ensures
            match r {
                Ok(v) => eq_apply(vals_view(arguments@)) == Ok::<ValueView, ErrorView>(v@),
                Err(e) => eq_apply(vals_view(arguments@)) == Err::<ValueView, ErrorView>(e@),
            },
    {
        let ghost argv = vals_view(arguments@);
        let first = &arguments[0];
        let mut all_equal = true;
        let mut i: usize = 1;
        #[verifier::loop_isolation(false)]
        while i < arguments.len()
            invariant
                1 <= i as int <= arguments@.len(),
                all_equal == forall|j: int| 1 <= j < i as int ==> val_eq(#[trigger] argv[j], argv[0]),
            decreases arguments@.len() - i,
        {
            proof {
                assert(argv[i as int] == arguments@[i as int]@);
                assert(argv[0] == arguments@[0]@);
            }
            if !crate::value::value_eq(&arguments[i], first) {
                all_equal = false;
            }
            i = i + 1;
        }
        Ok(
            if all_equal {
                Value::Literal(crate::ast::Literal::True)
            } else {
                Value::Literal(crate::ast::Literal::Nil)
            },
        )
    }
}

/// Shared body of the four comparisons.
fn compare_eval(k: BuiltinKind, args: &Vec<Value>) -> (r: Result<Value, EvalError>)
    requires
        k is Greater || k is Less || k is GreaterEq || k is LessEq,
    ensures
        match r {
            Ok(v) => compare_apply(k, vals_view(args@)) == Ok::<ValueView, ErrorView>(v@),
            Err(e) => compare_apply(k, vals_view(args@)) == Err::<ValueView, ErrorView>(e@),
        },
{
    proof {
        assert(vals_view(args@).len() == args@.len());
    }
    if args.len() != 2 {
        return Err(EvalError::BadArguments);
    }
    let a: i64 = match &args[0] {
        Value::Literal(crate::ast::Literal::Number(n)) => *n,
        _ => {
            return Err(EvalError::BadArguments);
        }
    };
    let b: i64 = match &args[1] {
        Value::Literal(crate::ast::Literal::Number(n)) => *n,
        _ => {
            return Err(EvalError::BadArguments);
        }
    };
    let res = match k {
        BuiltinKind::Greater => a > b,
        BuiltinKind::Less => a < b,
        BuiltinKind::GreaterEq => a >= b,
        _ => a <= b,
    };
    Ok(
        if res {
            Value::Literal(crate::ast::Literal::True)
        } else {
            Value::Literal(crate::ast::Literal::Nil)
        },
    )
}

impl GreaterFunction {
    pub fn get_arguments_size(&self) -> (r: ArgumentsSize)
        ensures
            r == builtin_size(BuiltinKind::Greater),
    {
        ArgumentsSize::Exact(2)
    }

    /// `T` when the first number exceeds the second; non-numbers are a
    /// type mismatch.
    pub fn eval(&self, arguments: &Vec<Value>) -> (r: Result<Value, EvalError>)
        ensures
            match r {
                Ok(v) => compare_apply(BuiltinKind::Greater, vals_view(arguments@)) == Ok::<
                    ValueView,
                    ErrorView,
                >(v@),
                Err(e) => compare_apply(BuiltinKind::Greater, vals_view(arguments@)) == Err::<
                    ValueView,
                    ErrorView,
                >(e@),
            },
    {
        compare_eval(BuiltinKind::Greater, arguments)
    }
}

impl LessFunction {
    pub fn get_arguments_size(&self) -> (r: ArgumentsSize)
        ensures
            r == builtin_size(BuiltinKind::Less),
    {
        ArgumentsSize::Exact(2)
    }

    /// `T` when the first number is below the second.
    pub fn eval(&self, arguments: &Vec<Value>) -> (r: Result<Value, EvalError>)
        ensures
            match r {
                Ok(v) => compare_apply(BuiltinKind::Less, vals_view(arguments@)) == Ok::<
                    ValueView,
                    ErrorView,
                >(v@),
                Err(e) => compare_apply(BuiltinKind::Less, vals_view(arguments@)) == Err::<
                    ValueView,
                    ErrorView,
                >(e@),
            },
    {
        compare_eval(BuiltinKind::Less, arguments)
    }
}

impl GreaterEqFunction {
    pub fn get_arguments_size(&self) -> (r: ArgumentsSize)
        ensures
            r == builtin_size(BuiltinKind::GreaterEq),
    {
        ArgumentsSize::Exact(2)
    }

    /// `T` when the first number is at least the second.
    pub fn eval(&self, arguments: &Vec<Value>) -> (r: Result<Value, EvalError>)
        ensures
            match r {
                Ok(v) => compare_apply(BuiltinKind::GreaterEq, vals_view(arguments@)) == Ok::<
                    ValueView,
                    ErrorView,
                >(v@),
                Err(e) => compare_apply(BuiltinKind::GreaterEq, vals_view(arguments@)) == Err::<
                    ValueView,
                    ErrorView,
                >(e@),
            },
    {
        compare_eval(BuiltinKind::GreaterEq, arguments)
    }
}

impl LessEqFunction {
    pub fn get_arguments_size(&self) -> (r: ArgumentsSize)
        ensures
            r == builtin_size(BuiltinKind::LessEq),
    {
        ArgumentsSize::Exact(2)
    }

    /// `T` when the first number is at most the second.
    pub fn eval(&self, arguments: &Vec<Value>) -> (r: Result<Value, EvalError>)
        ensures
            match r {
                Ok(v) => compare_apply(BuiltinKind::LessEq, vals_view(arguments@)) == Ok::<
                    ValueView,
                    ErrorView,
                >(v@),
                Err(e) => compare_apply(BuiltinKind::LessEq, vals_view(arguments@)) == Err::<
                    ValueView,
                    ErrorView,
                >(e@),
            },
    {
        compare_eval(BuiltinKind::LessEq, arguments)
    }
}

impl AndFunction {
    pub fn get_arguments_size(&self) -> (r: ArgumentsSize)
        ensures
            r == builtin_size(BuiltinKind::And),
    {
        ArgumentsSize::AtLeast(2)
    }

    /// `NIL` when any argument is `NIL`; everything else counts as true.
    pub fn eval(&self, arguments: &Vec<Value>) -> (r: Result<Value, EvalError>)
        ensures
            match r {
                Ok(v) => and_apply(vals_view(arguments@)) == Ok::<ValueView, ErrorView>(v@),
                Err(e) => and_apply(vals_view(arguments@)) == Err::<ValueView, ErrorView>(e@),
            },
    {
        let ghost argv = vals_view(arguments@);
        let mut any_nil = false;
        let mut i: usize = 0;
        #[verifier::loop_isolation(false)]
        while i < arguments.len()
            invariant
                0 <= i as int <= arguments@.len(),
                any_nil == exists|j: int|
                    0 <= j < i as int && #[trigger] argv[j] == ValueView::Literal(LiteralView::Nil),
            decreases arguments@.len() - i,
        {
            proof {
                assert(argv[i as int] == arguments@[i as int]@);
            }
            let is_nil = match &arguments[i] {
                Value::Literal(crate::ast::Literal::Nil) => true,
                _ => false,
            };
            proof {
                assert(is_nil == (argv[i as int] == ValueView::Literal(LiteralView::Nil)));
            }
            if is_nil {
                any_nil = true;
            }
            i = i + 1;
        }
        Ok(
            if any_nil {
                Value::Literal(crate::ast::Literal::Nil)
            } else {
                Value::Literal(crate::ast::Literal::True)
            },
        )
    }
}

impl OrFunction {
    pub fn get_arguments_size(&self) -> (r: ArgumentsSize)
        ensures
            r == builtin_size(BuiltinKind::Or),
    {
        ArgumentsSize::AtLeast(2)
    }

    /// `T` when any argument is `T` itself; `or` does not accept merely
    /// truthy values.
    pub fn eval(&self, arguments: &Vec<Value>) -> (r: Result<Value, EvalError>)
        ensures
            match r {
                Ok(v) => or_apply(vals_view(arguments@)) == Ok::<ValueView, ErrorView>(v@),
                Err(e) => or_apply(vals_view(arguments@)) == Err::<ValueView, ErrorView>(e@),
            },
    {
        let ghost argv = vals_view(arguments@);
        let mut any_true = false;
        let mut i: usize = 0;
        #[verifier::loop_isolation(false)]
        while i < arguments.len()
            invariant
                0 <= i as int <= arguments@.len(),
                any_true == exists|j: int|
                    0 <= j < i as int && #[trigger] argv[j] == ValueView::Literal(
                        LiteralView::True,
                    ),
            decreases arguments@.len() - i,
        {
            proof {
                assert(argv[i as int] == arguments@[i as int]@);
            }
            let is_true = match &arguments[i] {
                Value::Literal(crate::ast::Literal::True) => true,
                _ => false,
            };
            proof {
                assert(is_true == (argv[i as int] == ValueView::Literal(LiteralView::True)));
            }
            if is_true {
                any_true = true;
            }
            i = i + 1;
        }
        Ok(
            if any_true {
                Value::Literal(crate::ast::Literal::True)
            } else {
                Value::Literal(crate::ast::Literal::Nil)
            },
        )
    }
}

impl NotFunction {
    pub fn get_arguments_size(&self) -> (r: ArgumentsSize)
        ensures
            r == builtin_size(BuiltinKind::Not),
    {
        ArgumentsSize::Exact(1)
    }

    /// `T` for `NIL`, `NIL` for anything else.
    pub fn eval(&self, arguments: &Vec<Value>) -> (r: Result<Value, EvalError>)
        ensures
            match r {
                Ok(v) => not_apply(vals_view(arguments@)) == Ok::<ValueView, ErrorView>(v@),
                Err(e) => not_apply(vals_view(arguments@)) == Err::<ValueView, ErrorView>(e@),
            },
    {
        if arguments.len() != 1 {
            return Err(EvalError::UndefinedBehaviour);
        }
        Ok(
            if matches!(&arguments[0], Value::Literal(crate::ast::Literal::Nil)) {
                Value::Literal(crate::ast::Literal::True)
            } else {
                Value::Literal(crate::ast::Literal::Nil)
            },
        )
    }
}

impl ConcatenateFunction {
    pub fn get_arguments_size(&self) -> (r: ArgumentsSize)
        ensures
            r == builtin_size(BuiltinKind::Concatenate),
    {
        ArgumentsSize::AtLeast(1)
    }

    /// Joins the printed forms of all arguments into one string.
    pub fn eval(&self, arguments: &Vec<Value>) -> (r: Result<Value, EvalError>)
        ensures
            match r {
                Ok(v) => concatenate_apply(vals_view(arguments@)) == Ok::<ValueView, ErrorView>(
                    v@,
                ),
                Err(e) => concatenate_apply(vals_view(arguments@)) == Err::<ValueView, ErrorView>(
                    e@,
                ),
            },
    {
        let ghost argv = vals_view(arguments@);
        if arguments.len() == 0 {
            return Err(EvalError::UndefinedBehaviour);
        }
        let mut joined = String::new();
        let mut i: usize = 0;
        proof {
            assert(argv.skip(0) =~= argv);
            assert(joined@ + displays_join(argv) =~= displays_join(argv));
        }
        #[verifier::loop_isolation(false)]
        while i < arguments.len()
            invariant
                0 <= i as int <= arguments@.len(),
                joined@ + displays_join(argv.skip(i as int)) == displays_join(argv),
            decreases arguments@.len() - i,
    {
            proof {
                assert(argv.skip(i as int).first() == argv[i as int]);
                assert(argv.skip(i as int).drop_first() =~= argv.skip(i as int + 1));
            }
            let piece = crate::value::value_to_string(&arguments[i]);
            joined.append(piece.as_str());
            proof {
                assert(joined@ + displays_join(argv.skip(i as int + 1)) =~= displays_join(argv));
            }
            i = i + 1;
        }
        proof {
            assert(displays_join(argv.skip(arguments@.len() as int)) =~= Seq::<char>::empty());
            assert(joined@ =~= displays_join(argv));
        }
        Ok(Value::Literal(crate::ast::Literal::String(joined)))
    }
}

impl WriteFunction {
    pub fn get_arguments_size(&self) -> (r: ArgumentsSize)
        ensures
            r == builtin_size(BuiltinKind::Write),
    {
        ArgumentsSize::Exact(1)
    }

    /// Appends the printed form of the argument to the output log and
    /// returns the argument unchanged.
    pub fn eval(&self, arguments: &Vec<Value>, context: &mut EvalContext) -> (r: Result<
        Value,
        EvalError,
    >)
        ensures
            ({
                let (sr, sctx) = write_apply(vals_view(arguments@), old(context)@);
                &&& final(context)@ == sctx
                &&& match r {
                    Ok(v) => sr == Ok::<ValueView, ErrorView>(v@),
                    Err(e) => sr == Err::<ValueView, ErrorView>(e@),
                }
            }),
    {
        if arguments.len() != 1 {
            proof {
                assert(old(context)@ =~= context@);
            }
            return Err(EvalError::UndefinedBehaviour);
        }
        let line = crate::value::value_to_string(&arguments[0]);
        context.push_output(line);
        proof {
            let (sr, sctx) = write_apply(vals_view(arguments@), old(context)@);
            assert(context@.output =~= sctx.output);
            assert(context@ =~= sctx);
        }
        Ok(arguments[0].clone())
    }
}

impl ReadFunction {
    pub fn get_arguments_size(&self) -> (r: ArgumentsSize)
        ensures
            r == builtin_size(BuiltinKind::Read),
    {
        ArgumentsSize::Exact(0)
    }

    /// Takes the next pending input line as a string literal; with no
    /// line pending the call is an undefined-behaviour failure.
    pub fn eval(&self, context: &mut EvalContext) -> (r: Result<Value, EvalError>)
        ensures
            ({
                let (sr, sctx) = read_apply(old(context)@);
                &&& final(context)@ == sctx
                &&& match r {
                    Ok(v) => sr == Ok::<ValueView, ErrorView>(v@),
                    Err(e) => sr == Err::<ValueView, ErrorView>(e@),
                }
            }),
    {
        match context.pop_input() {
            Some(line) => {
                proof {
                    let (sr, sctx) = read_apply(old(context)@);
                    assert(context@ =~= sctx);
                }
                Ok(Value::Literal(crate::ast::Literal::String(line)))
            }
            None => {
                proof {
                    assert(context@ =~= old(context)@);
                }
                Err(EvalError::UndefinedBehaviour)
            }
        }
    }
}

/// Arity contract of a builtin, by kind.
pub fn builtin_arguments_size(k: BuiltinKind) -> (r: ArgumentsSize)
    ensures
        r == builtin_size(k),
{
    match k {
        BuiltinKind::Add => AddFunction {}.get_arguments_size(),
        BuiltinKind::Sub => SubFunction {}.get_arguments_size(),
        BuiltinKind::Mul => MulFunction {}.get_arguments_size(),
        BuiltinKind::Div => DivFunction {}.get_arguments_size(),
        BuiltinKind::Eq => EqFunction {}.get_arguments_size(),
        BuiltinKind::Greater => GreaterFunction {}.get_arguments_size(),
        BuiltinKind::Less => LessFunction {}.get_arguments_size(),
        BuiltinKind::GreaterEq => GreaterEqFunction {}.get_arguments_size(),
        BuiltinKind::LessEq => LessEqFunction {}.get_arguments_size(),
        BuiltinKind::And => AndFunction {}.get_arguments_size(),
        BuiltinKind::Or => OrFunction {}.get_arguments_size(),
        BuiltinKind::Not => NotFunction {}.get_arguments_size(),
        BuiltinKind::Concatenate => ConcatenateFunction {}.get_arguments_size(),
        BuiltinKind::Write => WriteFunction {}.get_arguments_size(),
        BuiltinKind::Read => ReadFunction {}.get_arguments_size(),
    }
}

/// Runs one builtin on evaluated arguments; only `write` and `read`
/// touch the context.
pub fn apply_builtin(k: BuiltinKind, arguments: &Vec<Value>, context: &mut EvalContext) -> (r:
    Result<Value, EvalError>)
    requires
        k is Eq ==> arguments@.len() >= 1,
    ensures
        ({
            let (sr, sctx) = apply_builtin_spec(k, vals_view(arguments@), old(context)@);
            &&& final(context)@ == sctx
            &&& match r {
                Ok(v) => sr == Ok::<ValueView, ErrorView>(v@),
                Err(e) => sr == Err::<ValueView, ErrorView>(e@),
            }
        }),
{
    let r = match k {
        BuiltinKind::Add => AddFunction {}.eval(arguments),
        BuiltinKind::Sub => SubFunction {}.eval(arguments),
        BuiltinKind::Mul => MulFunction {}.eval(arguments),
        BuiltinKind::Div => DivFunction {}.eval(arguments),
        BuiltinKind::Eq => EqFunction {}.eval(arguments),
        BuiltinKind::Greater => GreaterFunction {}.eval(arguments),
        BuiltinKind::Less => LessFunction {}.eval(arguments),
        BuiltinKind::GreaterEq => GreaterEqFunction {}.eval(arguments),
        BuiltinKind::LessEq => LessEqFunction {}.eval(arguments),
        BuiltinKind::And => AndFunction {}.eval(arguments),
        BuiltinKind::Or => OrFunction {}.eval(arguments),
        BuiltinKind::Not => NotFunction {}.eval(arguments),
        BuiltinKind::Concatenate => ConcatenateFunction {}.eval(arguments),
        BuiltinKind::Write => WriteFunction {}.eval(arguments, context),
        BuiltinKind::Read => ReadFunction {}.eval(context),
    };
    proof {
        if !(k is Write || k is Read) {
            assert(context@ =~= old(context)@);
        }
    }
    r
}

} // verus!
