//! The meaning of evaluation: a total spec-level interpreter over the
//! ghost views, structured exactly as the contract of `eval` demands.
//!
//! Every function takes the expression (view), the context (view) and a
//! recursion budget (`fuel`), and returns the outcome together with the
//! context it leaves. The budget is spent once per user-defined function
//! application; builtins and special forms recurse structurally and cost
//! nothing.

use vstd::prelude::*;
use crate::ast::{ExprView, LiteralView, OperatorView};
use crate::base::ErrorView;
use crate::builtins::apply_builtin_spec;
use crate::frame::{ctx_lookup, CtxView, FrameView};
use crate::value::{FnView, ValueView};

verus! {

/// Whether `n` arguments satisfy a function's arity contract: builtins
/// have their declared sizes, a closure takes exactly one argument per
/// parameter.
pub open spec fn fn_arity_ok(f: FnView, n: nat) -> bool {
    match f {
        FnView::Builtin(k) => crate::base::size_contains(crate::builtins::builtin_size(k), n),
        FnView::Custom(ps, _) => n == ps.len(),
    }
}

/// The frame a closure call starts from: each parameter bound to its
/// evaluated argument, a later duplicate overriding an earlier one.
pub open spec fn bind_params(ps: Seq<Seq<char>>, argv: Seq<ValueView>) -> FrameView
    decreases ps.len(),
{
    if ps.len() == 0 {
        Map::empty()
    } else {
        bind_params(ps.drop_last(), argv.drop_last()).insert(ps.last(), argv.last())
    }
}

/// The context after `setq`: the innermost frame gains the binding.
pub open spec fn ctx_set_local(ctx: CtxView, name: Seq<char>, v: ValueView) -> CtxView {
    CtxView {
        frames: ctx.frames.update(ctx.frames.len() - 1, ctx.frames.last().insert(name, v)),
        ..ctx
    }
}

/// The context after `defun`: the root frame gains the binding, at any
/// call depth.
pub open spec fn ctx_add_function(ctx: CtxView, name: Seq<char>, v: ValueView) -> CtxView {
    CtxView { frames: ctx.frames.update(0, ctx.frames[0].insert(name, v)), ..ctx }
}

/// Reduces one expression.
pub open spec fn eval_spec(e: ExprView, ctx: CtxView, fuel: nat) -> (Result<
    ValueView,
    ErrorView,
>, CtxView)
    decreases fuel, e, 0int,
{
    match e {
        ExprView::Literal(l) => (Ok(ValueView::Literal(l)), ctx),
        ExprView::Name(n) => match ctx_lookup(ctx, n) {
            Option::Some(v) => (Ok(v), ctx),
            Option::None => (Err(ErrorView::NameNotFound(n)), ctx),
        },
        ExprView::Invoke(_, _) => (Err(ErrorView::UndefinedBehaviour), ctx),
        ExprView::Call(name, args) => match ctx_lookup(ctx, name) {
            Option::None => (Err(ErrorView::NameNotFound(name)), ctx),
            Option::Some(ValueView::Literal(_)) => (Err(ErrorView::NotCallable(name)), ctx),
            Option::Some(ValueView::Symbol(f)) => invoke_spec(f, args, ctx, fuel),
        },
        ExprView::Operator(op) => eval_oper_spec(*op, ctx, fuel),
    }
}

/// Applies a resolved function to unevaluated arguments: the arity is
/// checked before any argument is evaluated, then the arguments are
/// evaluated left to right in the caller's context, then the function
/// runs — a builtin directly, a closure in a fresh frame pushed for the
/// body and popped on every exit path.
pub open spec fn invoke_spec(f: FnView, args: Seq<ExprView>, ctx: CtxView, fuel: nat) -> (Result<
    ValueView,
    ErrorView,
>, CtxView)
    decreases fuel, args, 2int,
{
    if !fn_arity_ok(f, args.len()) {
        (Err(ErrorView::BadArguments), ctx)
    } else {
        let (ar, ctx1) = eval_list_spec(args, ctx, fuel);
        match ar {
            Err(e) => (Err(e), ctx1),
            Ok(argv) => match f {
                FnView::Builtin(k) => apply_builtin_spec(k, argv, ctx1),
                FnView::Custom(ps, body) => if fuel == 0 {
                    (Err(ErrorView::StackOverflow), ctx1)
                } else {
                    let entered = CtxView {
                        frames: ctx1.frames.push(bind_params(ps, argv)),
                        ..ctx1
                    };
                    let (br, ctx2) = eval_spec(*body, entered, (fuel - 1) as nat);
                    (br, CtxView { frames: ctx2.frames.drop_last(), ..ctx2 })
                },
            },
        }
    }
}

/// Evaluates a list of expressions left to right, threading the context
/// and stopping at the first failure.
pub open spec fn eval_list_spec(args: Seq<ExprView>, ctx: CtxView, fuel: nat) -> (Result<
    Seq<ValueView>,
    ErrorView,
>, CtxView)
    decreases fuel, args, 1int,
{
    if args.len() == 0 {
        (Ok(Seq::empty()), ctx)
    } else {
        let (r0, ctx1) = eval_spec(args.first(), ctx, fuel);
        match r0 {
            Err(e) => (Err(e), ctx1),
            Ok(v) => {
                let (rr, ctx2) = eval_list_spec(args.drop_first(), ctx1, fuel);
                match rr {
                    Err(e) => (Err(e), ctx2),
                    Ok(vs) => (Ok(seq![v] + vs), ctx2),
                }
            }
        }
    }
}

/// Reduces one special form; each form fixes its own evaluation order.
pub open spec fn eval_oper_spec(op: OperatorView, ctx: CtxView, fuel: nat) -> (Result<
    ValueView,
    ErrorView,
>, CtxView)
    decreases fuel, op, 0int,
{
    match op {
        OperatorView::SetQ(name, e) => {
            let (r, ctx1) = eval_spec(*e, ctx, fuel);
            match r {
                Err(er) => (Err(er), ctx1),
                Ok(v) => (Ok(v), ctx_set_local(ctx1, name, v)),
            }
        }
        OperatorView::ProgN(es) => if es.len() == 0 {
            (Err(ErrorView::UndefinedBehaviour), ctx)
        } else {
            progn_spec(es, ctx, fuel)
        },
        OperatorView::If(c, t, e) => {
            let (cr, ctx1) = eval_spec(*c, ctx, fuel);
            match cr {
                Err(er) => (Err(er), ctx1),
                Ok(v) => if v == ValueView::Literal(LiteralView::True) {
                    eval_spec(*t, ctx1, fuel)
                } else {
                    match e {
                        Option::Some(x) => eval_spec(*x, ctx1, fuel),
                        Option::None => (Ok(ValueView::Literal(LiteralView::Nil)), ctx1),
                    }
                },
            }
        }
        OperatorView::Function(name, ps, body) => {
            let v = ValueView::Symbol(FnView::Custom(ps, body));
            (Ok(v), ctx_add_function(ctx, name, v))
        }
        OperatorView::Lambda(ps, body) => (Ok(ValueView::Symbol(FnView::Custom(ps, body))), ctx),
    }
}

/// Evaluates a non-empty sequence of expressions in order for effect,
/// returning the value of the last.
pub open spec fn progn_spec(es: Seq<ExprView>, ctx: CtxView, fuel: nat) -> (Result<
    ValueView,
    ErrorView,
>, CtxView)
    decreases fuel, es, 1int,
{
    if es.len() == 0 {
        (Err(ErrorView::UndefinedBehaviour), ctx)
    } else {
        let (r0, ctx1) = eval_spec(es.first(), ctx, fuel);
        match r0 {
            Err(e) => (Err(e), ctx1),
            Ok(v) => if es.len() == 1 {
                (Ok(v), ctx1)
            } else {
                progn_spec(es.drop_first(), ctx1, fuel)
            },
        }
    }
}


/// Evaluation never changes the depth of the frame stack, and never
/// touches a frame strictly between the root and the innermost frame:
/// `setq` reaches only the innermost frame and `defun` only the root.
pub proof fn lemma_eval_frames(e: ExprView, ctx: CtxView, fuel: nat)
    requires
        ctx.frames.len() >= 1,
    ensures
        eval_spec(e, ctx, fuel).1.frames.len() == ctx.frames.len(),
        forall|i: int|
            1 <= i < ctx.frames.len() - 1 ==> eval_spec(e, ctx, fuel).1.frames[i]
                == ctx.frames[i],
    decreases fuel, e, 0int,
{
    match e {
        ExprView::Call(name, args) => {
            match ctx_lookup(ctx, name) {
                Option::Some(ValueView::Symbol(f)) => {
                    lemma_invoke_frames(f, args, ctx, fuel);
                }
                _ => {}
            }
        }
        ExprView::Operator(op) => {
            lemma_oper_frames(*op, ctx, fuel);
        }
        _ => {}
    }
}

/// Frame discipline of `invoke_spec` (see `lemma_eval_frames`).
pub proof fn lemma_invoke_frames(f: FnView, args: Seq<ExprView>, ctx: CtxView, fuel: nat)
    requires
        ctx.frames.len() >= 1,
    ensures
        invoke_spec(f, args, ctx, fuel).1.frames.len() == ctx.frames.len(),
        forall|i: int|
            1 <= i < ctx.frames.len() - 1 ==> invoke_spec(f, args, ctx, fuel).1.frames[i]
                == ctx.frames[i],
    decreases fuel, args, 2int,
{
    if fn_arity_ok(f, args.len()) {
        lemma_eval_list_frames(args, ctx, fuel);
        let (ar, ctx1) = eval_list_spec(args, ctx, fuel);
        match ar {
            Ok(argv) => {
                match f {
                    FnView::Builtin(_) => {}
                    FnView::Custom(ps, body) => {
                        if fuel > 0 {
                            let entered = CtxView {
                                frames: ctx1.frames.push(bind_params(ps, argv)),
                                ..ctx1
                            };
                            lemma_eval_frames(*body, entered, (fuel - 1) as nat);
                            let ctx2 = eval_spec(*body, entered, (fuel - 1) as nat).1;
                            let res = invoke_spec(f, args, ctx, fuel);
                            assert(res.1.frames == ctx2.frames.drop_last());
                            assert forall|i: int|
                                1 <= i < ctx.frames.len() - 1 implies res.1.frames[i]
                                == ctx.frames[i] by {
                                assert(entered.frames[i] == ctx1.frames[i]);
                                assert(ctx2.frames[i] == entered.frames[i]);
                                assert(res.1.frames[i] == ctx2.frames[i]);
                            }
                        }
                    }
                }
            }
            Err(_) => {}
        }
    }
}

/// Frame discipline of `eval_list_spec` (see `lemma_eval_frames`).
pub proof fn lemma_eval_list_frames(args: Seq<ExprView>, ctx: CtxView, fuel: nat)
    requires
        ctx.frames.len() >= 1,
    ensures
        eval_list_spec(args, ctx, fuel).1.frames.len() == ctx.frames.len(),
        forall|i: int|
            1 <= i < ctx.frames.len() - 1 ==> eval_list_spec(args, ctx, fuel).1.frames[i]
                == ctx.frames[i],
    decreases fuel, args, 1int,
{
    if args.len() > 0 {
        lemma_eval_frames(args.first(), ctx, fuel);
        let (r0, ctx1) = eval_spec(args.first(), ctx, fuel);
        match r0 {
            Ok(_) => {
                lemma_eval_list_frames(args.drop_first(), ctx1, fuel);
            }
            Err(_) => {}
        }
    }
}

/// Frame discipline of `eval_oper_spec` (see `lemma_eval_frames`).
pub proof fn lemma_oper_frames(op: OperatorView, ctx: CtxView, fuel: nat)
    requires
        ctx.frames.len() >= 1,
    ensures
        eval_oper_spec(op, ctx, fuel).1.frames.len() == ctx.frames.len(),
        forall|i: int|
            1 <= i < ctx.frames.len() - 1 ==> eval_oper_spec(op, ctx, fuel).1.frames[i]
                == ctx.frames[i],
    decreases fuel, op, 0int,
{
    match op {
        OperatorView::SetQ(_, e) => {
            lemma_eval_frames(*e, ctx, fuel);
        }
        OperatorView::ProgN(es) => {
            if es.len() > 0 {
                lemma_progn_frames(es, ctx, fuel);
            }
        }
        OperatorView::If(c, t, e) => {
            lemma_eval_frames(*c, ctx, fuel);
            let (cr, ctx1) = eval_spec(*c, ctx, fuel);
            match cr {
                Ok(v) => {
                    if v == ValueView::Literal(LiteralView::True) {
                        lemma_eval_frames(*t, ctx1, fuel);
                    } else {
                        match e {
                            Option::Some(x) => {
                                lemma_eval_frames(*x, ctx1, fuel);
                            }
                            Option::None => {}
                        }
                    }
                }
                Err(_) => {}
            }
        }
        _ => {}
    }
}

/// Frame discipline of `progn_spec` (see `lemma_eval_frames`).
pub proof fn lemma_progn_frames(es: Seq<ExprView>, ctx: CtxView, fuel: nat)
    requires
        ctx.frames.len() >= 1,
    ensures
        progn_spec(es, ctx, fuel).1.frames.len() == ctx.frames.len(),
        forall|i: int|
            1 <= i < ctx.frames.len() - 1 ==> progn_spec(es, ctx, fuel).1.frames[i]
                == ctx.frames[i],
    decreases fuel, es, 1int,
{
    if es.len() > 0 {
        lemma_eval_frames(es.first(), ctx, fuel);
        let (r0, ctx1) = eval_spec(es.first(), ctx, fuel);
        match r0 {
            Ok(_) => {
                if es.len() > 1 {
                    lemma_progn_frames(es.drop_first(), ctx1, fuel);
                }
            }
            Err(_) => {}
        }
    }
}

/// How evaluation may touch the world: lines already written stay, new
/// output is only appended, and pending input is only consumed from the
/// front.
pub open spec fn io_evolves(pre: CtxView, post: CtxView) -> bool {
    pre.output.is_prefix_of(post.output) && post.input.is_suffix_of(pre.input)
}

/// `io_evolves` is reflexive.
proof fn lemma_io_refl(a: CtxView)
    ensures
        io_evolves(a, a),
{
    assert(a.output =~= a.output.subrange(0, a.output.len() as int));
    assert(a.input =~= a.input.subrange(
        a.input.len() - a.input.len(),
        a.input.len() as int,
    ));
}

/// `io_evolves` composes across sequential evaluation.
proof fn lemma_io_trans(a: CtxView, b: CtxView, c: CtxView)
    requires
        io_evolves(a, b),
        io_evolves(b, c),
    ensures
        io_evolves(a, c),
{
    assert(a.output =~= c.output.subrange(0, a.output.len() as int));
    assert(c.input =~= a.input.subrange(a.input.len() - c.input.len(), a.input.len() as int));
}

/// Contexts with the same input and output evolve to each other's
/// evolutions: the frames play no part in `io_evolves`.
proof fn lemma_io_same(a: CtxView, b: CtxView)
    requires
        a.input == b.input,
        a.output == b.output,
    ensures
        io_evolves(a, b),
        io_evolves(b, a),
{
    lemma_io_refl(a);
}

/// I/O discipline of one builtin application.
proof fn lemma_builtin_io(k: crate::value::BuiltinKind, argv: Seq<ValueView>, ctx: CtxView)
    ensures
        io_evolves(ctx, apply_builtin_spec(k, argv, ctx).1),
{
    let post = apply_builtin_spec(k, argv, ctx).1;
    if k is Write {
        if argv.len() == 1 {
            assert(ctx.output =~= post.output.subrange(0, ctx.output.len() as int));
            assert(post.input =~= ctx.input.subrange(
                ctx.input.len() - post.input.len(),
                ctx.input.len() as int,
            ));
        } else {
            lemma_io_refl(ctx);
        }
    } else if k is Read {
        if ctx.input.len() > 0 {
            assert(post.output =~= ctx.output);
            assert(ctx.output =~= post.output.subrange(0, ctx.output.len() as int));
            assert(post.input =~= ctx.input.subrange(
                ctx.input.len() - post.input.len(),
                ctx.input.len() as int,
            ));
        } else {
            lemma_io_refl(ctx);
        }
    } else {
        lemma_io_refl(ctx);
    }
}

/// Evaluation respects the I/O discipline: whatever the expression
/// does, it only appends output and only consumes input from the front.
pub proof fn lemma_eval_io(e: ExprView, ctx: CtxView, fuel: nat)
    ensures
        io_evolves(ctx, eval_spec(e, ctx, fuel).1),
    decreases fuel, e, 0int,
{
    match e {
        ExprView::Call(name, args) => {
            match ctx_lookup(ctx, name) {
                Option::Some(ValueView::Symbol(f)) => {
                    lemma_invoke_io(f, args, ctx, fuel);
                }
                _ => {
                    lemma_io_refl(ctx);
                }
            }
        }
        ExprView::Operator(op) => {
            lemma_oper_io(*op, ctx, fuel);
        }
        _ => {
            lemma_io_refl(ctx);
        }
    }
}

/// I/O discipline of `invoke_spec` (see `lemma_eval_io`).
proof fn lemma_invoke_io(f: FnView, args: Seq<ExprView>, ctx: CtxView, fuel: nat)
    ensures
        io_evolves(ctx, invoke_spec(f, args, ctx, fuel).1),
    decreases fuel, args, 2int,
{
    if !fn_arity_ok(f, args.len()) {
        lemma_io_refl(ctx);
    } else {
        lemma_eval_list_io(args, ctx, fuel);
        let (ar, ctx1) = eval_list_spec(args, ctx, fuel);
        match ar {
            Err(_) => {}
            Ok(argv) => {
                match f {
                    FnView::Builtin(k) => {
                        lemma_builtin_io(k, argv, ctx1);
                        lemma_io_trans(ctx, ctx1, apply_builtin_spec(k, argv, ctx1).1);
                    }
                    FnView::Custom(ps, body) => {
                        if fuel == 0 {
                        } else {
                            let entered = CtxView {
                                frames: ctx1.frames.push(bind_params(ps, argv)),
                                ..ctx1
                            };
                            lemma_io_same(ctx1, entered);
                            lemma_eval_io(*body, entered, (fuel - 1) as nat);
                            let ctx2 = eval_spec(*body, entered, (fuel - 1) as nat).1;
                            let left = CtxView { frames: ctx2.frames.drop_last(), ..ctx2 };
                            lemma_io_trans(ctx, ctx1, entered);
                            lemma_io_trans(ctx, entered, ctx2);
                            lemma_io_same(ctx2, left);
                            lemma_io_trans(ctx, ctx2, left);
                        }
                    }
                }
            }
        }
    }
}

/// I/O discipline of `eval_list_spec` (see `lemma_eval_io`).
proof fn lemma_eval_list_io(args: Seq<ExprView>, ctx: CtxView, fuel: nat)
    ensures
        io_evolves(ctx, eval_list_spec(args, ctx, fuel).1),
    decreases fuel, args, 1int,
{
    if args.len() == 0 {
        lemma_io_refl(ctx);
    } else {
        lemma_eval_io(args.first(), ctx, fuel);
        let (r0, ctx1) = eval_spec(args.first(), ctx, fuel);
        match r0 {
            Err(_) => {}
            Ok(_) => {
                lemma_eval_list_io(args.drop_first(), ctx1, fuel);
                lemma_io_trans(ctx, ctx1, eval_list_spec(args.drop_first(), ctx1, fuel).1);
            }
        }
    }
}

/// I/O discipline of `eval_oper_spec` (see `lemma_eval_io`).
proof fn lemma_oper_io(op: OperatorView, ctx: CtxView, fuel: nat)
    ensures
        io_evolves(ctx, eval_oper_spec(op, ctx, fuel).1),
    decreases fuel, op, 0int,
{
    match op {
        OperatorView::SetQ(name, e) => {
            lemma_eval_io(*e, ctx, fuel);
            let (r, ctx1) = eval_spec(*e, ctx, fuel);
            match r {
                Err(_) => {}
                Ok(v) => {
                    lemma_io_same(ctx1, ctx_set_local(ctx1, name, v));
                    lemma_io_trans(ctx, ctx1, ctx_set_local(ctx1, name, v));
                }
            }
        }
        OperatorView::ProgN(es) => {
            if es.len() == 0 {
                lemma_io_refl(ctx);
            } else {
                lemma_progn_io(es, ctx, fuel);
            }
        }
        OperatorView::If(c, t, e) => {
            lemma_eval_io(*c, ctx, fuel);
            let (cr, ctx1) = eval_spec(*c, ctx, fuel);
            match cr {
                Err(_) => {}
                Ok(v) => {
                    if v == ValueView::Literal(LiteralView::True) {
                        lemma_eval_io(*t, ctx1, fuel);
                        lemma_io_trans(ctx, ctx1, eval_spec(*t, ctx1, fuel).1);
                    } else {
                        match e {
                            Option::Some(x) => {
                                lemma_eval_io(*x, ctx1, fuel);
                                lemma_io_trans(ctx, ctx1, eval_spec(*x, ctx1, fuel).1);
                            }
                            Option::None => {}
                        }
                    }
                }
            }
        }
        OperatorView::Function(name, ps, body) => {
            let v = ValueView::Symbol(FnView::Custom(ps, body));
            lemma_io_same(ctx, ctx_add_function(ctx, name, v));
        }
        OperatorView::Lambda(_, _) => {
            lemma_io_refl(ctx);
        }
    }
}

/// I/O discipline of `progn_spec` (see `lemma_eval_io`).
proof fn lemma_progn_io(es: Seq<ExprView>, ctx: CtxView, fuel: nat)
    ensures
        io_evolves(ctx, progn_spec(es, ctx, fuel).1),
    decreases fuel, es, 1int,
{
    if es.len() == 0 {
        lemma_io_refl(ctx);
    } else {
        lemma_eval_io(es.first(), ctx, fuel);
        let (r0, ctx1) = eval_spec(es.first(), ctx, fuel);
        match r0 {
            Err(_) => {}
            Ok(_) => {
                if es.len() > 1 {
                    lemma_progn_io(es.drop_first(), ctx1, fuel);
                    lemma_io_trans(ctx, ctx1, progn_spec(es.drop_first(), ctx1, fuel).1);
                }
            }
        }
    }
}

} // verus!
