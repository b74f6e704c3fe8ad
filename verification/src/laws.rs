//! Laws of the language, stated over the spec-level semantics and
//! proved once and for all: the arithmetic fold identities, the
//! one-branch guarantee of `if`, the scoping of `setq` against the
//! global reach of `defun`, the strictness of the comparisons, and the
//! lex-parse-display round trip for numerals.

use vstd::prelude::*;
use vstd::pervasive::unreached;
use crate::ast::{Expression, ExprView, Literal, LiteralView, OperatorView, TokenView};
use crate::base::ErrorView;
use crate::builtins::{as_number, compare_apply, math_apply, math_rest, math_step};
use crate::display::{
    all_digits, dec_val, int_display, is_digit, literal_to_string, number_to_chars,
};
use crate::frame::CtxView;
use crate::lex::{
    is_alphabetic_char, is_name_start_spec, is_numeric_char, is_space_spec, is_whitespace_char,
    lex, lex_one_spec, lex_spec, number_end, space_end,
};
use crate::parse::parse_single_expression;
use crate::semantics::{ctx_add_function, eval_list_spec, eval_oper_spec, eval_spec, invoke_spec};
use crate::value::{BuiltinKind, FnView, ValueView};

verus! {

/// Shorthand for a numeric value.
pub open spec fn num(n: i64) -> ValueView {
    ValueView::Literal(LiteralView::Number(n))
}

/// The mathematical sum of a list of numeric values.
pub open spec fn views_sum(args: Seq<ValueView>) -> int
    decreases args.len(),
{
    if args.len() == 0 {
        0
    } else {
        (match as_number(args.first()) {
            Some(x) => x as int,
            None => 0,
        }) + views_sum(args.drop_first())
    }
}

/// Whatever order the operands come in, a successful `+` returns their
/// mathematical sum: the fold is order-independent wherever it is
/// defined.
pub proof fn lemma_add_is_sum(args: Seq<ValueView>)
    ensures
        math_apply(BuiltinKind::Add, args) matches Ok(v) ==> v == num(views_sum(args) as i64)
            && i64::MIN <= views_sum(args) <= i64::MAX,
{
    if args.len() > 0 {
        match as_number(args.first()) {
            Some(first) => {
                lemma_add_rest(first, args.drop_first());
            }
            None => {}
        }
    }
}

/// A successful `+` fold from `acc` adds exactly the sum of the rest.
proof fn lemma_add_rest(acc: i64, rest: Seq<ValueView>)
    ensures
        math_rest(BuiltinKind::Add, acc, rest) matches Ok(n) ==> n as int == acc + views_sum(rest),
    decreases rest.len(),
{
    if rest.len() > 0 {
        match as_number(rest.first()) {
            Some(x) => {
                match math_step(BuiltinKind::Add, acc, x) {
                    Some(a2) => {
                        lemma_add_rest(a2, rest.drop_first());
                    }
                    None => {}
                }
            }
            None => {}
        }
    }
}

/// Removing one element takes exactly its contribution out of the sum.
proof fn lemma_sum_remove(s: Seq<ValueView>, j: int)
    requires
        0 <= j < s.len(),
    ensures
        views_sum(s.remove(j)) == views_sum(s) - (match as_number(s[j]) {
            Some(x) => x as int,
            None => 0,
        }),
    decreases s.len(),
{
    if j == 0 {
        assert(s.remove(0) =~= s.drop_first());
    } else {
        assert(s.remove(j).first() == s.first());
        assert(s.remove(j).drop_first() =~= s.drop_first().remove(j - 1));
        lemma_sum_remove(s.drop_first(), j - 1);
        assert(s.drop_first()[j - 1] == s[j]);
    }
}

/// The sum of a list of values depends only on the multiset of its
/// elements, not on their order.
pub proof fn lemma_views_sum_permutation(a: Seq<ValueView>, b: Seq<ValueView>)
    requires
        a.to_multiset() == b.to_multiset(),
    ensures
        views_sum(a) == views_sum(b),
    decreases a.len(),
{
    broadcast use vstd::seq_lib::group_to_multiset_ensures;

    if a.len() > 0 {
        let x = a.first();
        assert(a[0] == x);
        assert(a.contains(x));
        assert(b.to_multiset().count(x) > 0);
        assert(b.contains(x));
        let j = choose|j: int| 0 <= j < b.len() && b[j] == x;
        lemma_sum_remove(b, j);
        assert(a.drop_first() =~= a.remove(0));
        assert(a.remove(0).to_multiset() == a.to_multiset().remove(x));
        assert(b.remove(j).to_multiset() == b.to_multiset().remove(x));
        lemma_views_sum_permutation(a.drop_first(), b.remove(j));
    } else {
        assert(a.to_multiset().len() == a.len());
        assert(b.to_multiset().len() == b.len());
        assert(b.len() == 0);
    }
}

/// `+` is commutative as a fold: reordering the operands in any way
/// never changes a successful result.
pub proof fn lemma_add_commutative(a: Seq<ValueView>, b: Seq<ValueView>)
    requires
        a.to_multiset() == b.to_multiset(),
    ensures
        ({
            let r1 = math_apply(BuiltinKind::Add, a);
            let r2 = math_apply(BuiltinKind::Add, b);
            r1 matches Ok(v1) ==> (r2 matches Ok(v2) ==> v1 == v2)
        }),
{
    lemma_add_is_sum(a);
    lemma_add_is_sum(b);
    lemma_views_sum_permutation(a, b);
}

/// `(- a b c)` is the left fold `((a - b) - c)`, step by step, and a
/// failing step is undefined behaviour.
pub proof fn lemma_sub_left_fold(a: i64, b: i64, c: i64)
    ensures
        ({
            let three = math_apply(BuiltinKind::Sub, seq![num(a), num(b), num(c)]);
            match math_step(BuiltinKind::Sub, a, b) {
                Some(ab) => three == math_apply(BuiltinKind::Sub, seq![num(ab), num(c)]),
                None => three == Err::<ValueView, ErrorView>(ErrorView::UndefinedBehaviour),
            }
        }),
{
    let s3 = seq![num(a), num(b), num(c)];
    assert(s3.drop_first() =~= seq![num(b), num(c)]);
    assert(seq![num(b), num(c)].drop_first() =~= seq![num(c)]);
    assert(seq![num(c)].drop_first() =~= Seq::<ValueView>::empty());
    match math_step(BuiltinKind::Sub, a, b) {
        Some(ab) => {
            let s2 = seq![num(ab), num(c)];
            assert(s2.drop_first() =~= seq![num(c)]);
        }
        None => {}
    }
}

/// `(/ a b c)` is the left fold `((a / b) / c)`, step by step, and a
/// failing step — a zero divisor included — is undefined behaviour.
pub proof fn lemma_div_left_fold(a: i64, b: i64, c: i64)
    ensures
        ({
            let three = math_apply(BuiltinKind::Div, seq![num(a), num(b), num(c)]);
            match math_step(BuiltinKind::Div, a, b) {
                Some(ab) => three == math_apply(BuiltinKind::Div, seq![num(ab), num(c)]),
                None => three == Err::<ValueView, ErrorView>(ErrorView::UndefinedBehaviour),
            }
        }),
{
    let s3 = seq![num(a), num(b), num(c)];
    assert(s3.drop_first() =~= seq![num(b), num(c)]);
    assert(seq![num(b), num(c)].drop_first() =~= seq![num(c)]);
    assert(seq![num(c)].drop_first() =~= Seq::<ValueView>::empty());
    match math_step(BuiltinKind::Div, a, b) {
        Some(ab) => {
            let s2 = seq![num(ab), num(c)];
            assert(s2.drop_first() =~= seq![num(c)]);
        }
        None => {}
    }
}

/// With a condition that is the literal `T`, an `if` with both branches
/// behaves exactly as its then-branch alone: the else-branch contributes
/// nothing — no value, no context change, no output.
pub proof fn lemma_if_true_never_evaluates_else(
    t: ExprView,
    e: ExprView,
    ctx: CtxView,
    fuel: nat,
)
    ensures
        eval_oper_spec(
            OperatorView::If(
                Box::new(ExprView::Literal(LiteralView::True)),
                Box::new(t),
                Some(Box::new(e)),
            ),
            ctx,
            fuel,
        ) == eval_spec(t, ctx, fuel),
{
}

/// With any condition value other than the literal `T`, the then-branch
/// contributes nothing and the else-branch alone decides the outcome.
pub proof fn lemma_if_not_true_takes_else(
    c: LiteralView,
    t: ExprView,
    e: ExprView,
    ctx: CtxView,
    fuel: nat,
)
    requires
        c != LiteralView::True,
    ensures
        eval_oper_spec(
            OperatorView::If(
                Box::new(ExprView::Literal(c)),
                Box::new(t),
                Some(Box::new(e)),
            ),
            ctx,
            fuel,
        ) == eval_spec(e, ctx, fuel),
{
}

/// A `setq` executed inside an invoked function's body binds in the
/// frame pushed for that call, and the frame is popped on return: the
/// caller's whole environment, root frame included, is left exactly as
/// it was.
pub proof fn lemma_setq_in_call_invisible(
    x: Seq<char>,
    l: LiteralView,
    ctx: CtxView,
    fuel: nat,
)
    requires
        ctx.frames.len() >= 1,
        fuel >= 1,
    ensures
        ({
            let body = ExprView::Operator(
                Box::new(OperatorView::SetQ(x, Box::new(ExprView::Literal(l)))),
            );
            let f = FnView::Custom(Seq::empty(), Box::new(body));
            invoke_spec(f, Seq::empty(), ctx, fuel) == (
                Ok::<ValueView, ErrorView>(ValueView::Literal(l)),
                ctx,
            )
        }),
{
    let body = ExprView::Operator(
        Box::new(OperatorView::SetQ(x, Box::new(ExprView::Literal(l)))),
    );
    let f = FnView::Custom(Seq::empty(), Box::new(body));
    let empty_args = Seq::<ExprView>::empty();
    reveal_with_fuel(eval_spec, 3);
    reveal_with_fuel(eval_oper_spec, 2);
    assert(eval_list_spec(empty_args, ctx, fuel) == (
        Ok::<Seq<ValueView>, ErrorView>(Seq::empty()),
        ctx,
    ));
    let entered = CtxView {
        frames: ctx.frames.push(crate::semantics::bind_params(Seq::empty(), Seq::empty())),
        ..ctx
    };
    let (br, ctx2) = eval_spec(body, entered, (fuel - 1) as nat);
    assert(ctx2.frames =~= entered.frames.update(
        entered.frames.len() - 1,
        entered.frames.last().insert(x, ValueView::Literal(l)),
    ));
    assert(ctx2.frames.drop_last() =~= ctx.frames);
    let res = invoke_spec(f, empty_args, ctx, fuel);
    assert(res.1 =~= ctx);
}

/// A `defun` executed inside an invoked function's body writes the root
/// frame, so the definition is visible to the caller after the call
/// returns, at any depth.
pub proof fn lemma_defun_in_call_is_global(
    g: Seq<char>,
    ps: Seq<Seq<char>>,
    gbody: ExprView,
    ctx: CtxView,
    fuel: nat,
)
    requires
        ctx.frames.len() >= 1,
        fuel >= 1,
    ensures
        ({
            let body = ExprView::Operator(
                Box::new(OperatorView::Function(g, ps, Box::new(gbody))),
            );
            let f = FnView::Custom(Seq::empty(), Box::new(body));
            let closure = ValueView::Symbol(FnView::Custom(ps, Box::new(gbody)));
            invoke_spec(f, Seq::empty(), ctx, fuel) == (
                Ok::<ValueView, ErrorView>(closure),
                CtxView { frames: ctx.frames.update(0, ctx.frames[0].insert(g, closure)), ..ctx },
            )
        }),
{
    let body = ExprView::Operator(Box::new(OperatorView::Function(g, ps, Box::new(gbody))));
    let f = FnView::Custom(Seq::empty(), Box::new(body));
    let closure = ValueView::Symbol(FnView::Custom(ps, Box::new(gbody)));
    let empty_args = Seq::<ExprView>::empty();
    reveal_with_fuel(eval_spec, 3);
    reveal_with_fuel(eval_oper_spec, 2);
    assert(eval_list_spec(empty_args, ctx, fuel) == (
        Ok::<Seq<ValueView>, ErrorView>(Seq::empty()),
        ctx,
    ));
    let entered = CtxView {
        frames: ctx.frames.push(crate::semantics::bind_params(Seq::empty(), Seq::empty())),
        ..ctx
    };
    let (br, ctx2) = eval_spec(body, entered, (fuel - 1) as nat);
    assert(ctx2 == ctx_add_function(entered, g, closure));
    assert(ctx2.frames.drop_last() =~= ctx.frames.update(0, ctx.frames[0].insert(g, closure)));
    let res = invoke_spec(f, empty_args, ctx, fuel);
    assert(res.1 =~= CtxView {
        frames: ctx.frames.update(0, ctx.frames[0].insert(g, closure)),
        ..ctx
    });
}

/// A comparison whose two operands are not both numbers fails with the
/// type-mismatch error; nothing is coerced.
pub proof fn lemma_compare_rejects_non_numbers(k: BuiltinKind, args: Seq<ValueView>)
    requires
        k is Greater || k is Less || k is GreaterEq || k is LessEq,
        args.len() == 2,
        as_number(args[0]) is None || as_number(args[1]) is None,
    ensures
        compare_apply(k, args) == Err::<ValueView, ErrorView>(ErrorView::BadArguments),
{
}

/// Every character of an all-digit text is numeric, not alphabetic, not
/// an operator character, and not whitespace.
spec fn digit_text(s: Seq<char>) -> bool {
    forall|i: int|
        0 <= i < s.len() ==> is_digit(#[trigger] s[i]) && is_numeric_char(s[i])
            && !is_alphabetic_char(s[i]) && !is_whitespace_char(s[i])
}

/// An all-digit text scans as one number token reaching its end.
proof fn lemma_number_end_all(s: Seq<char>, i: int)
    requires
        0 <= i <= s.len(),
        digit_text(s),
    ensures
        number_end(s, i) == s.len(),
    decreases s.len() - i,
{
    if i < s.len() {
        lemma_number_end_all(s, i + 1);
    }
}

/// Lexing an all-digit text yields exactly one number token holding its
/// decimal value.
proof fn lemma_lex_digit_text(s: Seq<char>)
    requires
        s.len() >= 1,
        digit_text(s),
        dec_val(s) <= i64::MAX,
    ensures
        lex_spec(s, 0) == Ok::<Seq<TokenView>, crate::lex::LexErrView>(
            seq![TokenView::Literal(LiteralView::Number(dec_val(s) as i64))],
        ),
{
    assert(is_digit(s[0]));
    assert(!is_space_spec(s[0]));
    assert(space_end(s, 0) == 0);
    assert(s[0] != '(' && s[0] != ')' && s[0] != '"');
    assert(!is_name_start_spec(s[0]));
    lemma_number_end_all(s, 0);
    assert(s.subrange(0, s.len() as int) =~= s);
    assert(all_digits(s));
    let tok = TokenView::Literal(LiteralView::Number(dec_val(s) as i64));
    assert(lex_one_spec(s, 0) == Ok::<(TokenView, int), crate::lex::LexErrView>((
        tok,
        s.len() as int,
    )));
    assert(space_end(s, s.len() as int) == s.len());
    assert(lex_spec(s, s.len() as int) == Ok::<Seq<TokenView>, crate::lex::LexErrView>(
        Seq::empty(),
    ));
    assert(seq![tok] + Seq::<TokenView>::empty() =~= seq![tok]);
}

/// The round trip for numerals, end to end: rendering a nonnegative
/// number, lexing the text back, parsing the one token, and rendering
/// the parsed literal reproduces that printed form exactly.
pub fn numeral_round_trip(n: i64) -> (r: String)
    requires
        0 <= n,
    ensures
        r@ == int_display(n),
{
    let chars = number_to_chars(n);
    proof {
        crate::display::lemma_dec_digits_val(n as nat);
    }
    let mut i: usize = 0;
    #[verifier::loop_isolation(false)]
    while i < chars.len()
        invariant
            i as int <= chars@.len(),
            forall|j: int|
                0 <= j < i as int ==> is_numeric_char(#[trigger] chars@[j]) && !is_alphabetic_char(
                    chars@[j],
                ) && !is_whitespace_char(chars@[j]),
        decreases chars@.len() - i,
    {
        let c = chars[i];
        proof {
            assert(is_digit(chars@[i as int]));
        }
        let n1 = crate::lex::char_is_numeric(c);
        let n2 = crate::lex::char_is_alphabetic(c);
        let n3 = crate::lex::char_is_whitespace(c);
        i = i + 1;
    }
    proof {
        assert(digit_text(chars@));
        lemma_lex_digit_text(chars@);
    }
    let tokens = match lex(&chars) {
        Ok(v) => v,
        Err(_) => unreached(),
    };
    proof {
        assert(crate::ast::tokens_view(tokens@).len() == 1);
        assert(tokens@.len() == 1);
        assert(crate::ast::tokens_view(tokens@)[0] == tokens@[0]@);
        assert(tokens@[0]@ == TokenView::Literal(LiteralView::Number(n)));
        assert(crate::ast::tokens_view(tokens@).skip(0) =~= crate::ast::tokens_view(tokens@));
    }
    let (expr, _) = match parse_single_expression(&tokens, 0) {
        Ok(p) => p,
        Err(_) => unreached(),
    };
    match expr {
        Expression::Literal(lit) => literal_to_string(&lit),
        _ => unreached(),
    }
}

} // verus!
