//! The structural parser: deferred bracket matching first, then
//! dispatch on the call name through the fixed special-form table.
//!
//! The spec side mirrors the two phases. `find_close` locates the
//! matching close parenthesis; a call-shaped form's inner span is then
//! handed either to a special-form factory or re-parsed as ordinary
//! argument expressions. `parse_one_spec` reports how many tokens it
//! consumed; `advance` clips that count to the token list, which never
//! changes the result (a parse consumes between one token and all of
//! them) but makes termination of the mutual recursion evident.

use vstd::prelude::*;
use crate::ast::{
    Atom, Expression, expr_view, ExprView, exprs_view, lemma_exprs_view_full, Operator,
    OperatorView, Token, tokens_view, TokenView,
};

verus! {

/// A parse failure.
#[derive(Debug)]
pub enum ParseError {
    InvalidAtom,
    ExpressionNotClosed,
    InvalidToken(Token),
}

/// Ghost counterpart of `ParseError`.
pub enum ParseErrView {
    InvalidAtom,
    ExpressionNotClosed,
    InvalidToken(TokenView),
}

impl View for ParseError {
    type V = ParseErrView;

    open spec fn view(&self) -> ParseErrView {
        match self {
            ParseError::InvalidAtom => ParseErrView::InvalidAtom,
            ParseError::ExpressionNotClosed => ParseErrView::ExpressionNotClosed,
            ParseError::InvalidToken(t) => ParseErrView::InvalidToken(t@),
        }
    }
}

/// Position of the close parenthesis that ends the current span: the
/// first close at nesting depth zero, scanning from `i`.
pub open spec fn find_close(toks: Seq<TokenView>, i: int, depth: nat) -> Option<int>
    decreases toks.len() - i,
{
    if i < 0 || i >= toks.len() {
        None
    } else {
        match toks[i] {
            TokenView::CloseParen => if depth == 0 {
                Some(i)
            } else {
                find_close(toks, i + 1, (depth - 1) as nat)
            },
            TokenView::OpenParen => find_close(toks, i + 1, depth + 1),
            _ => find_close(toks, i + 1, depth),
        }
    }
}

/// A found close parenthesis lies within the token list.
pub proof fn lemma_find_close_bounds(toks: Seq<TokenView>, i: int, depth: nat)
    ensures
        find_close(toks, i, depth) matches Some(j) ==> i <= j < toks.len(),
    decreases toks.len() - i,
{
    if 0 <= i < toks.len() {
        match toks[i] {
            TokenView::CloseParen => {
                if depth != 0 {
                    lemma_find_close_bounds(toks, i + 1, (depth - 1) as nat);
                }
            }
            TokenView::OpenParen => {
                lemma_find_close_bounds(toks, i + 1, depth + 1);
            }
            _ => {
                lemma_find_close_bounds(toks, i + 1, depth);
            }
        }
    }
}

/// The balanced span after a call head, and what follows the span's
/// closing parenthesis; unterminated input has no span.
pub open spec fn get_inner_spec(toks: Seq<TokenView>) -> Result<
    (Seq<TokenView>, Seq<TokenView>),
    ParseErrView,
> {
    match find_close(toks, 0, 0) {
        Some(j) => Ok((toks.take(j), toks.skip(j + 1))),
        None => Err(ParseErrView::ExpressionNotClosed),
    }
}

/// The fixed special-form table: these five names dispatch to factories
/// at parse time, never to runtime bindings.
pub open spec fn is_special_form(n: Seq<char>) -> bool {
    n == "setq"@ || n == "progn"@ || n == "if"@ || n == "defun"@ || n == "lambda"@
}

/// Parameter names between the opening parenthesis and its close,
/// starting at `i`: each token must be a name, and the close must come
/// before the span runs out. Returns the names and the position just
/// past the close.
pub open spec fn params_scan(toks: Seq<TokenView>, i: int) -> Result<
    (Seq<Seq<char>>, int),
    ParseErrView,
>
    decreases toks.len() - i, 0int,
{
    if i < 0 || i >= toks.len() {
        Err(ParseErrView::ExpressionNotClosed)
    } else {
        match toks[i] {
            TokenView::CloseParen => Ok((Seq::empty(), i + 1)),
            TokenView::Name(n) => match params_scan(toks, i + 1) {
                Ok((ps, j)) => Ok((seq![n] + ps, j)),
                Err(e) => Err(e),
            },
            t => Err(ParseErrView::InvalidToken(t)),
        }
    }
}

/// `toks` after `consumed` tokens; the count is clipped to at least one
/// token and at most all of them, which never binds for a count a parse
/// reported.
pub open spec fn advance(toks: Seq<TokenView>, consumed: int) -> Seq<TokenView> {
    if toks.len() == 0 {
        toks
    } else if consumed < 1 {
        toks.skip(1)
    } else if consumed > toks.len() {
        toks.skip(toks.len() as int)
    } else {
        toks.skip(consumed)
    }
}

/// `toks` from position `at`, clipped into the token list.
pub open spec fn suffix_from(toks: Seq<TokenView>, at: int) -> Seq<TokenView> {
    if at < 0 {
        toks
    } else if at > toks.len() {
        toks.skip(toks.len() as int)
    } else {
        toks.skip(at)
    }
}

/// Parses one expression from the front of `toks`: an atom becomes a
/// leaf; a call-shaped form has its balanced span collected without
/// interpretation and then resolved through the special-form table.
/// Returns the expression and how many tokens it consumed.
pub open spec fn parse_one_spec(toks: Seq<TokenView>) -> Result<(ExprView, int), ParseErrView>
    decreases toks.len(), 4int,
    via parse_one_spec_decreases
{
    if toks.len() == 0 {
        Err(ParseErrView::InvalidAtom)
    } else {
        match toks[0] {
            TokenView::OpenParen => if toks.len() >= 2 && toks[1] is Name {
                let name = toks[1]->Name_0;
                match get_inner_spec(toks.skip(2)) {
                    Err(e) => Err(e),
                    Ok((span, rest)) => {
                        let consumed = toks.len() - rest.len();
                        if is_special_form(name) {
                            match factory_spec(name, span) {
                                Ok(op) => Ok((ExprView::Operator(Box::new(op)), consumed)),
                                Err(e) => Err(e),
                            }
                        } else {
                            match parse_all_spec(span) {
                                Ok(args) => Ok((ExprView::Call(name, args), consumed)),
                                Err(e) => Err(e),
                            }
                        }
                    }
                }
            } else {
                Err(ParseErrView::InvalidToken(toks[0]))
            },
            TokenView::Literal(l) => Ok((ExprView::Literal(l), 1)),
            TokenView::Name(n) => Ok((ExprView::Name(n), 1)),
            t => Err(ParseErrView::InvalidToken(t)),
        }
    }
}

#[via_fn]
proof fn parse_one_spec_decreases(toks: Seq<TokenView>) {
    lemma_find_close_bounds(toks.skip(2), 0, 0);
}

/// Dispatches a special-form name to its factory.
pub open spec fn factory_spec(name: Seq<char>, span: Seq<TokenView>) -> Result<
    OperatorView,
    ParseErrView,
>
    decreases span.len() + 1, 3int,
{
    if name == "setq"@ {
        setq_factory(span)
    } else if name == "progn"@ {
        progn_factory(span)
    } else if name == "if"@ {
        if_factory(span)
    } else if name == "defun"@ {
        defun_factory(span)
    } else {
        lambda_factory(span)
    }
}

/// `setq`'s factory: a binding name, then exactly one expression; any
/// other shape — including a failing inner parse — is `InvalidAtom`.
pub open spec fn setq_factory(span: Seq<TokenView>) -> Result<OperatorView, ParseErrView>
    decreases span.len() + 1, 2int,
{
    if span.len() >= 1 && span[0] is Name {
        match parse_one_spec(span.skip(1)) {
            Ok((e, _)) => Ok(OperatorView::SetQ(span[0]->Name_0, Box::new(e))),
            Err(_) => Err(ParseErrView::InvalidAtom),
        }
    } else {
        Err(ParseErrView::InvalidAtom)
    }
}

/// `progn`'s factory: the whole span, as zero or more expressions.
pub open spec fn progn_factory(span: Seq<TokenView>) -> Result<OperatorView, ParseErrView>
    decreases span.len() + 1, 2int,
{
    match parse_all_spec(span) {
        Ok(es) => Ok(OperatorView::ProgN(es)),
        Err(e) => Err(e),
    }
}

/// `if`'s factory: a condition, a then-branch, and an else-branch when
/// tokens remain; tokens after a fully formed form are not re-checked.
pub open spec fn if_factory(span: Seq<TokenView>) -> Result<OperatorView, ParseErrView>
    decreases span.len() + 1, 2int,
{
    match parse_one_spec(span) {
        Err(e) => Err(e),
        Ok((cond, c1)) => {
            let after_c = advance(span, c1);
            match parse_one_spec(after_c) {
                Err(e) => Err(e),
                Ok((then, c2)) => {
                    let after_t = advance(after_c, c2);
                    if after_t.len() == 0 {
                        Ok(OperatorView::If(Box::new(cond), Box::new(then), None))
                    } else {
                        match parse_one_spec(after_t) {
                            Err(e) => Err(e),
                            Ok((els, _)) => Ok(
                                OperatorView::If(
                                    Box::new(cond),
                                    Box::new(then),
                                    Some(Box::new(els)),
                                ),
                            ),
                        }
                    }
                }
            }
        }
    }
}

/// `defun`'s factory: a function name, a parenthesized parameter list,
/// then the body as exactly one expression.
pub open spec fn defun_factory(span: Seq<TokenView>) -> Result<OperatorView, ParseErrView>
    decreases span.len() + 1, 2int,
{
    if span.len() >= 2 && span[0] is Name && span[1] is OpenParen {
        match params_scan(span, 2) {
            Err(e) => Err(e),
            Ok((ps, j)) => match parse_one_spec(suffix_from(span, j)) {
                Ok((body, _)) => Ok(
                    OperatorView::Function(span[0]->Name_0, ps, Box::new(body)),
                ),
                Err(e) => Err(e),
            },
        }
    } else {
        Err(ParseErrView::InvalidAtom)
    }
}

/// `lambda`'s factory: a parenthesized parameter list, then the body as
/// exactly one expression.
pub open spec fn lambda_factory(span: Seq<TokenView>) -> Result<OperatorView, ParseErrView>
    decreases span.len() + 1, 2int,
{
    if span.len() >= 1 && span[0] is OpenParen {
        match params_scan(span, 1) {
            Err(e) => Err(e),
            Ok((ps, j)) => match parse_one_spec(suffix_from(span, j)) {
                Ok((body, _)) => Ok(OperatorView::Lambda(ps, Box::new(body))),
                Err(e) => Err(e),
            },
        }
    } else {
        Err(ParseErrView::InvalidAtom)
    }
}

/// Parses the whole token list as a sequence of expressions, in order.
pub open spec fn parse_all_spec(toks: Seq<TokenView>) -> Result<Seq<ExprView>, ParseErrView>
    decreases toks.len(), 5int,
{
    if toks.len() == 0 {
        Ok(Seq::empty())
    } else {
        match parse_one_spec(toks) {
            Err(e) => Err(e),
            Ok((e0, c)) => match parse_all_spec(advance(toks, c)) {
                Ok(more) => Ok(seq![e0] + more),
                Err(er) => Err(er),
            },
        }
    }
}

/// Collects the balanced span that starts at `start`, verbatim and
/// including nested parentheses, up to the matching close parenthesis;
/// returns the copied span and the position just past the close.
fn get_inner_tokens(tokens: &Vec<Token>, start: usize) -> (r: Result<(Vec<Token>, usize), ParseError>)
    requires
        start <= tokens@.len(),
    ensures
        ({
            let s = tokens_view(tokens@).skip(start as int);
            match get_inner_spec(s) {
                Ok((span, rest)) => r matches Ok((spanv, next)) && tokens_view(spanv@) == span
                    && start <= next <= tokens@.len() && next == start + spanv@.len() + 1
                    && tokens_view(tokens@).skip(next as int) == rest,
                Err(e) => r matches Err(er) && er@ == e,
            }
        }),
{
    let ghost s = tokens_view(tokens@).skip(start as int);
    let mut copy: Vec<Token> = Vec::new();
    let mut i: usize = start;
    let mut depth: usize = 0;
    proof {
        assert(tokens_view(copy@) =~= s.take(0));
    }
    #[verifier::loop_isolation(false)]
    while i < tokens.len()
        invariant
            start <= i as int <= tokens@.len(),
            copy@.len() == i as int - start,
            depth as int <= i as int - start,
            tokens_view(copy@) =~= s.take(i as int - start),
            find_close(s, 0, 0) == find_close(s, i as int - start, depth as nat),
        decreases tokens@.len() - i,
    {
        proof {
            assert(s[i as int - start] == tokens@[i as int]@);
        }
        let tok = &tokens[i];
        match tok {
            Token::CloseParen => {
                if depth == 0 {
                    proof {
                        assert(find_close(s, 0, 0) == Some(i as int - start));
                        assert(s.take(i as int - start) == tokens_view(copy@));
                        assert(tokens_view(tokens@).skip(i as int + 1) =~= s.skip(
                            i as int - start + 1,
                        ));
                    }
                    return Ok((copy, i + 1));
                }
                depth = depth - 1;
                copy.push(Token::CloseParen);
            }
            Token::OpenParen => {
                depth = depth + 1;
                copy.push(Token::OpenParen);
            }
            t => {
                copy.push(t.clone());
            }
        }
        proof {
            assert(tokens_view(copy@) =~= s.take(i as int - start + 1));
        }
        i = i + 1;
    }
    proof {
        assert(find_close(s, i as int - start, depth as nat) is None);
    }
    Err(ParseError::ExpressionNotClosed)
}

/// Parses the parameter-name list from position `i` up to and past its
/// closing parenthesis.
fn parse_parameters(tokens: &Vec<Token>, i: usize) -> (r: Result<(Vec<String>, usize), ParseError>)
    requires
        i <= tokens@.len(),
    ensures
        ({
            match params_scan(tokens_view(tokens@), i as int) {
                Ok((ps, j)) => r matches Ok((pv, jx)) && pv@.map_values(|p: String| p@) == ps
                    && jx as int == j && i < jx <= tokens@.len(),
                Err(e) => r matches Err(er) && er@ == e,
            }
        }),
    decreases tokens@.len() - i,
{
    if i == tokens.len() {
        return Err(ParseError::ExpressionNotClosed);
    }
    proof {
        assert(tokens_view(tokens@)[i as int] == tokens@[i as int]@);
    }
    match &tokens[i] {
        Token::CloseParen => {
            let empty: Vec<String> = Vec::new();
            proof {
                assert(empty@.map_values(|p: String| p@) =~= Seq::<Seq<char>>::empty());
            }
            Ok((empty, i + 1))
        }
        Token::Atom(Atom::Name(n)) => match parse_parameters(tokens, i + 1) {
            Ok((ps, j)) => {
                let mut out = ps;
                let ghost restv = out@;
                out.insert(0, n.clone());
                proof {
                    assert(out@ =~= seq![*n] + restv);
                    assert(out@.map_values(|p: String| p@) =~= seq![n@] + restv.map_values(
                        |p: String| p@,
                    ));
                }
                Ok((out, j))
            }
            Err(e) => Err(e),
        },
        t => Err(ParseError::InvalidToken(t.clone())),
    }
}


/// Parses one expression starting at `pos`; returns it and the position
/// just past it.
pub fn parse_single_expression(tokens: &Vec<Token>, pos: usize) -> (r: Result<
    (Expression, usize),
    ParseError,
>)
    requires
        pos <= tokens@.len(),
    ensures
        ({
            match parse_one_spec(tokens_view(tokens@).skip(pos as int)) {
                Ok((ev, c)) => r matches Ok((e, next)) && e@ == ev && next as int == pos + c
                    && pos < next <= tokens@.len(),
                Err(e) => r matches Err(er) && er@ == e,
            }
        }),
    decreases tokens@.len() - pos, 4int,
{
    let ghost s = tokens_view(tokens@).skip(pos as int);
    if pos == tokens.len() {
        return Err(ParseError::InvalidAtom);
    }
    proof {
        assert(s[0] == tokens@[pos as int]@);
    }
    match &tokens[pos] {
        Token::OpenParen => {
            if pos + 1 < tokens.len() {
                proof {
                    assert(s[1] == tokens@[pos as int + 1]@);
                }
                match &tokens[pos + 1] {
                    Token::Atom(Atom::Name(name)) => {
                        proof {
                            assert(s.skip(2) =~= tokens_view(tokens@).skip(pos as int + 2));
                        }
                        let (span, next) = match get_inner_tokens(tokens, pos + 2) {
                            Ok(p) => p,
                            Err(e) => {
                                return Err(e);
                            }
                        };
                        let ghost spanv = tokens_view(span@);
                        proof {
                            assert(tokens_view(tokens@).skip(next as int) =~= s.skip(
                                next as int - pos,
                            ));
                        }
                        match apply_factory(name, &span) {
                            Some(fr) => match fr {
                                Ok(op) => Ok((Expression::Operator(Box::new(op)), next)),
                                Err(e) => Err(e),
                            },
                            None => {
                                let args = match parse_expressions(&span) {
                                    Ok(a) => a,
                                    Err(e) => {
                                        return Err(e);
                                    }
                                };
                                Ok((Expression::Call(name.clone(), args), next))
                            }
                        }
                    }
                    _ => Err(ParseError::InvalidToken(Token::OpenParen)),
                }
            } else {
                Err(ParseError::InvalidToken(Token::OpenParen))
            }
        }
        Token::Atom(Atom::Literal(l)) => Ok((Expression::Literal(l.clone()), pos + 1)),
        Token::Atom(Atom::Name(n)) => Ok((Expression::Name(n.clone()), pos + 1)),
        t => Err(ParseError::InvalidToken(t.clone())),
    }
}

/// Runs the special-form factory a name denotes, or reports that the
/// name is no special form.
fn apply_factory(name: &String, span: &Vec<Token>) -> (r: Option<Result<Operator, ParseError>>)
    ensures
        ({
            if is_special_form(name@) {
                match r {
                    Some(fr) => match factory_spec(name@, tokens_view(span@)) {
                        Ok(op) => fr matches Ok(o) && o@ == op,
                        Err(e) => fr matches Err(er) && er@ == e,
                    },
                    None => false,
                }
            } else {
                r is None
            }
        }),
    decreases span@.len() + 1, 3int,
{
    if name.eq(&String::from_str("setq")) {
        Some(parse_setq(span))
    } else if name.eq(&String::from_str("progn")) {
        Some(parse_progn(span))
    } else if name.eq(&String::from_str("if")) {
        Some(parse_if(span))
    } else if name.eq(&String::from_str("defun")) {
        Some(parse_function(span))
    } else if name.eq(&String::from_str("lambda")) {
        Some(parse_lambda(span))
    } else {
        None
    }
}

/// `setq`'s factory: a binding name, then exactly one expression.
pub fn parse_setq(tokens: &Vec<Token>) -> (r: Result<Operator, ParseError>)
    ensures
        ({
            match setq_factory(tokens_view(tokens@)) {
                Ok(op) => r matches Ok(o) && o@ == op,
                Err(e) => r matches Err(er) && er@ == e,
            }
        }),
    decreases tokens@.len() + 1, 2int,
{
    let ghost s = tokens_view(tokens@);
    if tokens.len() == 0 {
        return Err(ParseError::InvalidAtom);
    }
    proof {
        assert(s[0] == tokens@[0]@);
    }
    match &tokens[0] {
        Token::Atom(Atom::Name(name)) => match parse_single_expression(tokens, 1) {
            Ok((e, _)) => Ok(Operator::SetQ(name.clone(), e)),
            Err(_) => Err(ParseError::InvalidAtom),
        },
        _ => Err(ParseError::InvalidAtom),
    }
}

/// `progn`'s factory: the whole span, as zero or more expressions.
pub fn parse_progn(tokens: &Vec<Token>) -> (r: Result<Operator, ParseError>)
    ensures
        ({
            match progn_factory(tokens_view(tokens@)) {
                Ok(op) => r matches Ok(o) && o@ == op,
                Err(e) => r matches Err(er) && er@ == e,
            }
        }),
    decreases tokens@.len() + 1, 2int,
{
    match parse_expressions(tokens) {
        Ok(es) => Ok(Operator::ProgN(es)),
        Err(e) => Err(e),
    }
}

/// `if`'s factory: a condition, a then-branch, and an else-branch when
/// tokens remain.
pub fn parse_if(tokens: &Vec<Token>) -> (r: Result<Operator, ParseError>)
    ensures
        ({
            match if_factory(tokens_view(tokens@)) {
                Ok(op) => r matches Ok(o) && o@ == op,
                Err(e) => r matches Err(er) && er@ == e,
            }
        }),
    decreases tokens@.len() + 1, 2int,
{
    let ghost s = tokens_view(tokens@);
    proof {
        assert(s.skip(0) =~= s);
    }
    let (cond, p1) = match parse_single_expression(tokens, 0) {
        Ok(p) => p,
        Err(e) => {
            return Err(e);
        }
    };
    proof {
        assert(advance(s, p1 as int) =~= s.skip(p1 as int));
    }
    let (then_case, p2) = match parse_single_expression(tokens, p1) {
        Ok(p) => p,
        Err(e) => {
            return Err(e);
        }
    };
    proof {
        assert(advance(s.skip(p1 as int), p2 as int - p1) =~= s.skip(p2 as int));
    }
    if p2 == tokens.len() {
        Ok(Operator::If(Box::new(cond), Box::new(then_case), None))
    } else {
        let (else_case, _) = match parse_single_expression(tokens, p2) {
            Ok(p) => p,
            Err(e) => {
                return Err(e);
            }
        };
        Ok(Operator::If(Box::new(cond), Box::new(then_case), Some(Box::new(else_case))))
    }
}

/// `defun`'s factory: a function name, a parenthesized parameter list,
/// then the body as exactly one expression.
pub fn parse_function(tokens: &Vec<Token>) -> (r: Result<Operator, ParseError>)
    ensures
        ({
            match defun_factory(tokens_view(tokens@)) {
                Ok(op) => r matches Ok(o) && o@ == op,
                Err(e) => r matches Err(er) && er@ == e,
            }
        }),
    decreases tokens@.len() + 1, 2int,
{
    let ghost s = tokens_view(tokens@);
    if tokens.len() < 2 {
        return Err(ParseError::InvalidAtom);
    }
    proof {
        assert(s[0] == tokens@[0]@);
        assert(s[1] == tokens@[1]@);
    }
    let name = match &tokens[0] {
        Token::Atom(Atom::Name(n)) => n,
        _ => {
            return Err(ParseError::InvalidAtom);
        }
    };
    match &tokens[1] {
        Token::OpenParen => {}
        _ => {
            return Err(ParseError::InvalidAtom);
        }
    }
    let (params, j) = match parse_parameters(tokens, 2) {
        Ok(p) => p,
        Err(e) => {
            return Err(e);
        }
    };
    proof {
        assert(suffix_from(s, j as int) =~= s.skip(j as int));
    }
    match parse_single_expression(tokens, j) {
        Ok((body, _)) => Ok(Operator::Function(name.clone(), params, Box::new(body))),
        Err(e) => Err(e),
    }
}

/// `lambda`'s factory: a parenthesized parameter list, then the body as
/// exactly one expression.
pub fn parse_lambda(tokens: &Vec<Token>) -> (r: Result<Operator, ParseError>)
    ensures
        ({
            match lambda_factory(tokens_view(tokens@)) {
                Ok(op) => r matches Ok(o) && o@ == op,
                Err(e) => r matches Err(er) && er@ == e,
            }
        }),
    decreases tokens@.len() + 1, 2int,
{
    let ghost s = tokens_view(tokens@);
    if tokens.len() < 1 {
        return Err(ParseError::InvalidAtom);
    }
    proof {
        assert(s[0] == tokens@[0]@);
    }
    match &tokens[0] {
        Token::OpenParen => {}
        _ => {
            return Err(ParseError::InvalidAtom);
        }
    }
    let (params, j) = match parse_parameters(tokens, 1) {
        Ok(p) => p,
        Err(e) => {
            return Err(e);
        }
    };
    proof {
        assert(suffix_from(s, j as int) =~= s.skip(j as int));
    }
    match parse_single_expression(tokens, j) {
        Ok((body, _)) => Ok(Operator::Lambda(params, Box::new(body))),
        Err(e) => Err(e),
    }
}

/// Parses the whole token list as a sequence of expressions.
pub fn parse_expressions(tokens: &Vec<Token>) -> (r: Result<Vec<Expression>, ParseError>)
    ensures
        ({
            match parse_all_spec(tokens_view(tokens@)) {
                Ok(es) => r matches Ok(v) && exprs_view(v, 0) == es,
                Err(e) => r matches Err(er) && er@ == e,
            }
        }),
    decreases tokens@.len(), 6int,
{
    proof {
        assert(tokens_view(tokens@).skip(0) =~= tokens_view(tokens@));
    }
    parse_all_from(tokens, 0)
}

/// Parses every expression from `pos` to the end of the token list.
fn parse_all_from(tokens: &Vec<Token>, pos: usize) -> (r: Result<Vec<Expression>, ParseError>)
    requires
        pos <= tokens@.len(),
    ensures
        ({
            match parse_all_spec(tokens_view(tokens@).skip(pos as int)) {
                Ok(es) => r matches Ok(v) && exprs_view(v, 0) == es,
                Err(e) => r matches Err(er) && er@ == e,
            }
        }),
    decreases tokens@.len() - pos, 5int,
{
    let ghost s = tokens_view(tokens@).skip(pos as int);
    if pos == tokens.len() {
        let empty: Vec<Expression> = Vec::new();
        proof {
            assert(exprs_view(empty, 0) =~= Seq::<ExprView>::empty());
        }
        return Ok(empty);
    }
    let (e0, next) = match parse_single_expression(tokens, pos) {
        Ok(p) => p,
        Err(e) => {
            return Err(e);
        }
    };
    proof {
        assert(advance(s, next as int - pos) =~= tokens_view(tokens@).skip(next as int));
    }
    let more = match parse_all_from(tokens, next) {
        Ok(v) => v,
        Err(e) => {
            return Err(e);
        }
    };
    proof {
        lemma_exprs_view_full(more);
    }
    let ghost morev = more@;
    let ghost mes = exprs_view(more, 0);
    let mut out = more;
    out.insert(0, e0);
    proof {
        assert(out@ =~= seq![e0] + morev);
        lemma_exprs_view_full(out);
        match parse_one_spec(s) {
            Ok((e0v, c)) => {
                assert(advance(s, c) == tokens_view(tokens@).skip(next as int));
                let es = seq![e0v] + mes;
                assert(parse_all_spec(s) == Ok::<Seq<ExprView>, ParseErrView>(es));
                assert forall|k: int| 0 <= k < out@.len() implies exprs_view(out, 0)[k]
                    == es[k] by {
                    assert(exprs_view(out, 0)[k] == expr_view(out@[k]));
                    if k == 0 {
                        assert(out@[0] == e0);
                    } else {
                        assert(out@[k] == morev[k - 1]);
                        assert(mes[k - 1] == expr_view(morev[k - 1]));
                    }
                }
                assert(exprs_view(out, 0) =~= es);
            }
            Err(_) => {
                assert(false);
            }
        }
    }
    Ok(out)
}


/// One parse consumes at least one token and at most all of them, so
/// the clipping in `advance` never changes a reported count.
pub proof fn lemma_parse_one_consumes(toks: Seq<TokenView>)
    ensures
        parse_one_spec(toks) matches Ok((e, c)) ==> 1 <= c <= toks.len(),
{
    if toks.len() > 0 && toks[0] is OpenParen {
        lemma_find_close_bounds(toks.skip(2), 0, 0);
    }
}

/// A lazy, restartable walk over the top-level expressions of a token
/// list; it halts permanently after the first failure.
pub struct ParseIterator<'a> {
    pub tokens: &'a Vec<Token>,
    pub pos: usize,
    pub should_stop: bool,
}

impl<'a> ParseIterator<'a> {
    /// Whether the iterator is in a consistent state.
    pub open spec fn wf(&self) -> bool {
        self.pos <= self.tokens@.len()
    }

    /// An iterator at the start of the token list.
    pub fn new(tokens: &'a Vec<Token>) -> (r: Self)
        ensures
            r.tokens == tokens,
            r.pos == 0,
            !r.should_stop,
            r.wf(),
    {
        ParseIterator { tokens, pos: 0, should_stop: false }
    }

    /// The next top-level expression: `None` once the input is
    /// exhausted or an earlier call failed; otherwise one parse
    /// outcome, and a failure stops every later call.
    pub fn next(&mut self) -> (r: Option<Result<Expression, ParseError>>)
        requires
            old(self).wf(),
        ensures
            final(self).wf(),
            final(self).tokens == old(self).tokens,
            ({
                let s = tokens_view(old(self).tokens@).skip(old(self).pos as int);
                if old(self).should_stop || s.len() == 0 {
                    r is None && *final(self) == *old(self)
                } else {
                    match parse_one_spec(s) {
                        Ok((ev, c)) => r matches Some(Ok(e)) && e@ == ev && final(self).pos
                            == old(self).pos + c && !final(self).should_stop,
                        Err(e) => r matches Some(Err(er)) && er@ == e && final(self).should_stop,
                    }
                }
            }),
    {
        if self.should_stop || self.pos == self.tokens.len() {
            return None;
        }
        match parse_single_expression(self.tokens, self.pos) {
            Ok((expr, next)) => {
                self.pos = next;
                Some(Ok(expr))
            }
            Err(e) => {
                self.should_stop = true;
                Some(Err(e))
            }
        }
    }
}

/// Starts a lazy parse of the token list.
pub fn parse<'a>(tokens: &'a Vec<Token>) -> (r: ParseIterator<'a>)
    ensures
        r.tokens == tokens,
        r.pos == 0,
        !r.should_stop,
        r.wf(),
{
    ParseIterator::new(tokens)
}


} // verus!
