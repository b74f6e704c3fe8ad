//! The tree-walking evaluator. Every function's contract says that it
//! returns, and leaves the context, exactly as the spec-level
//! interpreter in `semantics` prescribes.

use vstd::prelude::*;
use crate::ast::{
    Expression, expr_view, exprs_view, lemma_exprs_view_full, Literal, LiteralView, Operator,
};
use crate::base::{ArgumentsSize, ErrorView, EvalError};
use crate::builtins::{apply_builtin, builtin_arguments_size, vals_view};
use crate::frame::{assoc_view, EvalContext, EvalFrame};
use crate::semantics::{
    bind_params, eval_list_spec, eval_oper_spec, eval_spec, fn_arity_ok, invoke_spec,
    lemma_eval_frames, progn_spec,
};
use crate::value::{clone_names, CustomFunction, Function, Value, ValueView};

verus! {

/// The result type of evaluation.
pub type EvalResult = Result<Value, EvalError>;

/// Reduces one expression against the context. `fuel` bounds the depth
/// of user-defined function applications; when it runs out the result
/// is a `StackOverflow` failure rather than unbounded recursion.
pub fn eval(expr: &Expression, context: &mut EvalContext, fuel: u64) -> (r: EvalResult)
    requires
        old(context).wf(),
    ensures
        final(context).wf(),
        ({
            let (sr, sctx) = eval_spec(expr@, old(context)@, fuel as nat);
            &&& final(context)@ == sctx
            &&& match r {
                Ok(v) => sr == Ok::<ValueView, ErrorView>(v@),
                Err(e) => sr == Err::<ValueView, ErrorView>(e@),
            }
        }),
    decreases fuel, *expr, 0int, 0int,
{
    match expr {
        Expression::Literal(l) => Ok(Value::Literal(l.clone())),
        Expression::Name(name) => match context.lookup_local(name) {
            Some(v) => Ok(v),
            None => Err(EvalError::NameNotFound(name.clone())),
        },
        Expression::Invoke(_, _) => Err(EvalError::UndefinedBehaviour),
        Expression::Call(name, args) => match context.lookup_local(name) {
            None => Err(EvalError::NameNotFound(name.clone())),
            Some(Value::Literal(_)) => Err(EvalError::NotCallable(name.clone())),
            Some(Value::Symbol(f)) => {
                proof {
                    assert(*expr == Expression::Call(*name, *args));
                    assert(decreases_to!(Expression::Call(*name, *args) => *args));
                }
                invoke_function(&f, args, context, fuel)
            }
        },
        Expression::Operator(op) => {
            proof {
                assert(*expr == Expression::Operator(*op));
                assert(decreases_to!(Expression::Operator(*op) => *op));
            }
            eval_operator(&**op, context, fuel)
        }
    }
}

/// Applies a resolved function value to unevaluated argument
/// expressions: the arity is checked before any argument is evaluated,
/// the arguments are then evaluated left to right in the caller's
/// context, and the function runs — a closure in a fresh frame that is
/// pushed for the body and popped on success and failure alike.
pub fn invoke_function(
    function: &Function,
    arguments: &Vec<Expression>,
    context: &mut EvalContext,
    fuel: u64,
) -> (r: EvalResult)
    requires
        old(context).wf(),
    ensures
        final(context).wf(),
        ({
            let (sr, sctx) = invoke_spec(
                function@,
                exprs_view(*arguments, 0),
                old(context)@,
                fuel as nat,
            );
            &&& final(context)@ == sctx
            &&& match r {
                Ok(v) => sr == Ok::<ValueView, ErrorView>(v@),
                Err(e) => sr == Err::<ValueView, ErrorView>(e@),
            }
        }),
    decreases fuel, *arguments, 2int, 0int,
{
    proof {
        lemma_exprs_view_full(*arguments);
    }
    let size = match function {
        Function::Builtin(k) => builtin_arguments_size(*k),
        Function::Custom(c) => ArgumentsSize::Exact(c.parameter_names.len()),
    };
    proof {
        assert(crate::base::size_contains(size, arguments@.len() as nat) == fn_arity_ok(
            function@,
            exprs_view(*arguments, 0).len(),
        ));
    }
    if !size.contains(arguments.len()) {
        return Err(EvalError::BadArguments);
    }
    let argv = match eval_args(arguments, 0, context, fuel) {
        Ok(vs) => vs,
        Err(e) => {
            return Err(e);
        }
    };
    match function {
        Function::Builtin(k) => apply_builtin(*k, &argv, context),
        Function::Custom(c) => {
            if fuel == 0 {
                return Err(EvalError::StackOverflow);
            }
            let ghost psv = c.parameter_names@.map_values(|p: String| p@);
            let ghost argvv = vals_view(argv@);
            let mut locals: Vec<(String, Value)> = Vec::new();
            let mut i: usize = 0;
            proof {
                assert(psv.take(0) =~= Seq::<Seq<char>>::empty());
                assert(argvv.take(0) =~= Seq::<ValueView>::empty());
            }
            #[verifier::loop_isolation(false)]
            while i < c.parameter_names.len()
                invariant
                    i as int <= c.parameter_names@.len(),
                    argv@.len() == c.parameter_names@.len(),
                    assoc_view(locals@) == bind_params(
                        psv.take(i as int),
                        argvv.take(i as int),
                    ),
                decreases c.parameter_names@.len() - i,
            {
                let ghost pre = locals@;
                locals.push((c.parameter_names[i].clone(), argv[i].clone()));
                proof {
                    assert(locals@.drop_last() =~= pre);
                    assert(psv.take(i + 1).drop_last() =~= psv.take(i as int));
                    assert(argvv.take(i + 1).drop_last() =~= argvv.take(i as int));
                    assert(psv.take(i + 1).last() == psv[i as int]);
                    assert(argvv.take(i + 1).last() == argvv[i as int]);
                    assert(psv[i as int] == c.parameter_names@[i as int]@);
                    assert(argvv[i as int] == argv@[i as int]@);
                }
                i = i + 1;
            }
            proof {
                assert(psv.take(psv.len() as int) =~= psv);
                assert(argvv.take(argvv.len() as int) =~= argvv);
            }
            let ghost before = context@;
            context.add_frame(EvalFrame::new(locals));
            let ghost entered = context@;
            proof {
                assert(entered =~= crate::frame::CtxView {
                    frames: before.frames.push(bind_params(psv, argvv)),
                    ..before
                });
            }
            let result = eval(&*c.code, context, fuel - 1);
            proof {
                lemma_eval_frames(expr_view(*c.code), entered, (fuel - 1) as nat);
                assert(context@.frames.len() == entered.frames.len());
            }
            context.pop_frame();
            proof {
                let (sr, sctx) = invoke_spec(
                    function@,
                    exprs_view(*arguments, 0),
                    old(context)@,
                    fuel as nat,
                );
                assert(context@ =~= sctx);
            }
            result
        }
    }
}

/// Evaluates the argument expressions from index `i` on, left to right,
/// in the caller's current context.
pub fn eval_args(
    arguments: &Vec<Expression>,
    i: usize,
    context: &mut EvalContext,
    fuel: u64,
) -> (r: Result<Vec<Value>, EvalError>)
    requires
        old(context).wf(),
        i as int <= arguments@.len(),
    ensures
        final(context).wf(),
        ({
            let (sr, sctx) = eval_list_spec(
                exprs_view(*arguments, i as int),
                old(context)@,
                fuel as nat,
            );
            &&& final(context)@ == sctx
            &&& match r {
                Ok(vs) => sr == Ok::<Seq<ValueView>, ErrorView>(vals_view(vs@)) && vs@.len()
                    == arguments@.len() - i,
                Err(e) => sr == Err::<Seq<ValueView>, ErrorView>(e@),
            }
        }),
    decreases fuel, *arguments, 1int, arguments@.len() - i,
{
    proof {
        crate::ast::lemma_exprs_view(*arguments, i as int);
    }
    if i == arguments.len() {
        let empty: Vec<Value> = Vec::new();
        proof {
            assert(vals_view(empty@) =~= Seq::<ValueView>::empty());
        }
        return Ok(empty);
    }
    proof {
        assert(decreases_to!(*arguments => arguments@[i as int]));
        assert(exprs_view(*arguments, i as int) =~= seq![expr_view(arguments@[i as int])]
            + exprs_view(*arguments, i as int + 1));
        assert(exprs_view(*arguments, i as int).first() == expr_view(arguments@[i as int]));
        assert(exprs_view(*arguments, i as int).drop_first() =~= exprs_view(
            *arguments,
            i as int + 1,
        ));
    }
    let v0 = match eval(&arguments[i], context, fuel) {
        Ok(v) => v,
        Err(e) => {
            return Err(e);
        }
    };
    let rest = match eval_args(arguments, i + 1, context, fuel) {
        Ok(vs) => vs,
        Err(e) => {
            return Err(e);
        }
    };
    let mut out = rest;
    let ghost restv = out@;
    out.insert(0, v0);
    proof {
        assert(out@ =~= seq![v0] + restv);
        assert(vals_view(out@) =~= seq![v0@] + vals_view(restv));
    }
    Ok(out)
}

/// Reduces one special form, dispatching statically and bypassing the
/// generic call machinery: each form fixes its own evaluation order.
pub fn eval_operator(operator: &Operator, context: &mut EvalContext, fuel: u64) -> (r: EvalResult)
    requires
        old(context).wf(),
    ensures
        final(context).wf(),
        ({
            let (sr, sctx) = eval_oper_spec(operator@, old(context)@, fuel as nat);
            &&& final(context)@ == sctx
            &&& match r {
                Ok(v) => sr == Ok::<ValueView, ErrorView>(v@),
                Err(e) => sr == Err::<ValueView, ErrorView>(e@),
            }
        }),
    decreases fuel, *operator, 0int, 0int,
{
    match operator {
        Operator::SetQ(name, e) => {
            proof {
                assert(*operator == Operator::SetQ(*name, *e));
                assert(decreases_to!(Operator::SetQ(*name, *e) => *e));
            }
            let v = match eval(e, context, fuel) {
                Ok(v) => v,
                Err(er) => {
                    return Err(er);
                }
            };
            context.set_local(name, &v);
            proof {
                let (sr, sctx) = eval_oper_spec(operator@, old(context)@, fuel as nat);
                assert(context@ =~= sctx);
            }
            Ok(v)
        }
        Operator::ProgN(es) => {
            proof {
                assert(*operator == Operator::ProgN(*es));
                assert(decreases_to!(Operator::ProgN(*es) => *es));
                lemma_exprs_view_full(*es);
            }
            if es.len() == 0 {
                return Err(EvalError::UndefinedBehaviour);
            }
            progn_eval(es, 0, context, fuel)
        }
        Operator::If(c, t, e) => {
            let cv = match eval(&**c, context, fuel) {
                Ok(v) => v,
                Err(er) => {
                    return Err(er);
                }
            };
            let took_then = match &cv {
                Value::Literal(Literal::True) => true,
                _ => false,
            };
            proof {
                assert(took_then == (cv@ == ValueView::Literal(LiteralView::True)));
            }
            if took_then {
                eval(&**t, context, fuel)
            } else {
                match e {
                    Some(x) => eval(&**x, context, fuel),
                    None => Ok(Value::Literal(Literal::Nil)),
                }
            }
        }
        Operator::Function(name, ps, body) => {
            let f = CustomFunction::new(clone_names(ps), (**body).clone());
            let v = Value::Symbol(Function::Custom(f));
            context.add_function(name, &v);
            proof {
                let (sr, sctx) = eval_oper_spec(operator@, old(context)@, fuel as nat);
                assert(context@ =~= sctx);
            }
            Ok(v)
        }
        Operator::Lambda(ps, body) => {
            let f = CustomFunction::new(clone_names(ps), (**body).clone());
            Ok(Value::Symbol(Function::Custom(f)))
        }
    }
}

/// Evaluates a non-empty expression list from index `i` on, in order,
/// returning the value of the last.
fn progn_eval(es: &Vec<Expression>, i: usize, context: &mut EvalContext, fuel: u64) -> (r:
    EvalResult)
    requires
        old(context).wf(),
        (i as int) < es@.len(),
    ensures
        final(context).wf(),
        ({
            let (sr, sctx) = progn_spec(exprs_view(*es, i as int), old(context)@, fuel as nat);
            &&& final(context)@ == sctx
            &&& match r {
                Ok(v) => sr == Ok::<ValueView, ErrorView>(v@),
                Err(e) => sr == Err::<ValueView, ErrorView>(e@),
            }
        }),
    decreases fuel, *es, 1int, es@.len() - i,
{
    proof {
        crate::ast::lemma_exprs_view(*es, i as int);
        assert(decreases_to!(*es => es@[i as int]));
        assert(exprs_view(*es, i as int) =~= seq![expr_view(es@[i as int])] + exprs_view(
            *es,
            i as int + 1,
        ));
        assert(exprs_view(*es, i as int).first() == expr_view(es@[i as int]));
        assert(exprs_view(*es, i as int).drop_first() =~= exprs_view(*es, i as int + 1));
    }
    let v = match eval(&es[i], context, fuel) {
        Ok(v) => v,
        Err(e) => {
            return Err(e);
        }
    };
    let n = es.len();
    if i == n - 1 {
        Ok(v)
    } else {
        progn_eval(es, i + 1, context, fuel)
    }
}

} // verus!
