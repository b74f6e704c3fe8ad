//! The lexer: classifies characters into parentheses, string, number
//! and name atoms, with `t` and `nil` read as the boolean literals.
//!
//! Character classes come from the Unicode predicates of `char`; the
//! spec names them and states only what the lexer's laws need: the ten
//! digit characters are numeric, and are neither alphabetic nor
//! whitespace.

use vstd::prelude::*;
use crate::ast::{Atom, Literal, LiteralView, Token, tokens_view, TokenView};
use crate::display::{all_digits, dec_val, digits_to_number, is_digit};

verus! {

/// A lexing failure.
#[derive(Debug)]
pub enum LexError {
    NumberParsingFailed,
    InvalidLiteral(char),
    StringNeverClosed,
    ParsingEmptyString,
}

/// Ghost counterpart of `LexError`.
pub enum LexErrView {
    NumberParsingFailed,
    InvalidLiteral(char),
    StringNeverClosed,
    ParsingEmptyString,
}

impl View for LexError {
    type V = LexErrView;

    open spec fn view(&self) -> LexErrView {
        match self {
            LexError::NumberParsingFailed => LexErrView::NumberParsingFailed,
            LexError::InvalidLiteral(c) => LexErrView::InvalidLiteral(*c),
            LexError::StringNeverClosed => LexErrView::StringNeverClosed,
            LexError::ParsingEmptyString => LexErrView::ParsingEmptyString,
        }
    }
}

/// Whether `c` has the Unicode whitespace property; the name stands for
/// `char::is_whitespace`, whose result depends on the character alone.
pub uninterp spec fn is_whitespace_char(c: char) -> bool;

/// Whether `c` has the Unicode alphabetic property; the name stands for
/// `char::is_alphabetic`.
pub uninterp spec fn is_alphabetic_char(c: char) -> bool;

/// Whether `c` is Unicode alphanumeric; the name stands for
/// `char::is_alphanumeric`.
pub uninterp spec fn is_alphanumeric_char(c: char) -> bool;

/// Whether `c` is Unicode numeric; the name stands for
/// `char::is_numeric`.
pub uninterp spec fn is_numeric_char(c: char) -> bool;

/// Relies on char::is_whitespace; its documentation gives that no
/// decimal digit is whitespace.
#[verifier::external_body]
pub(crate) fn char_is_whitespace(c: char) -> (r: bool)
    ensures
        r == is_whitespace_char(c) && (is_digit(c) ==> !r),
{
    c.is_whitespace()
}

/// Relies on char::is_alphabetic; its documentation gives that no
/// decimal digit is alphabetic.
#[verifier::external_body]
pub(crate) fn char_is_alphabetic(c: char) -> (r: bool)
    ensures
        r == is_alphabetic_char(c) && (is_digit(c) ==> !r),
{
    c.is_alphabetic()
}

/// Relies on char::is_alphanumeric.
#[verifier::external_body]
pub(crate) fn char_is_alphanumeric(c: char) -> (r: bool)
    ensures
        r == is_alphanumeric_char(c),
{
    c.is_alphanumeric()
}

/// Relies on char::is_numeric; its documentation gives that every
/// decimal digit is numeric.
#[verifier::external_body]
pub(crate) fn char_is_numeric(c: char) -> (r: bool)
    ensures
        r == is_numeric_char(c) && (is_digit(c) ==> r),
{
    c.is_numeric()
}

/// Relies on `String: FromIterator<char>`: the string holding exactly
/// these characters in order.
#[verifier::external_body]
fn chars_to_string(chars: &Vec<char>) -> (r: String)
    ensures
        r@ == chars@,
{
    chars.iter().collect()
}

/// Token-separating space: Unicode whitespace (line breaks are
/// whitespace already, and are named here for emphasis).
pub open spec fn is_space_spec(c: char) -> bool {
    is_whitespace_char(c) || c == '\n' || c == '\r'
}

/// A character that may start a name: alphabetic, or one of the
/// operator characters.
pub open spec fn is_name_start_spec(c: char) -> bool {
    is_alphabetic_char(c) || c == '+' || c == '-' || c == '/' || c == '*' || c == '=' || c == '<'
        || c == '>'
}

/// A character that may continue a name.
pub open spec fn is_name_char_spec(c: char) -> bool {
    is_name_start_spec(c) || is_alphanumeric_char(c)
}

/// First position at or past `i` whose character is not space.
pub open spec fn space_end(s: Seq<char>, i: int) -> int
    decreases s.len() - i,
{
    if i < 0 || i >= s.len() {
        s.len() as int
    } else if is_space_spec(s[i]) {
        space_end(s, i + 1)
    } else {
        i
    }
}

/// First position at or past `i` whose character cannot continue a name.
pub open spec fn name_end(s: Seq<char>, i: int) -> int
    decreases s.len() - i,
{
    if i < 0 || i >= s.len() {
        s.len() as int
    } else if is_name_char_spec(s[i]) {
        name_end(s, i + 1)
    } else {
        i
    }
}

/// First position at or past `i` whose character is neither numeric nor
/// a dot.
pub open spec fn number_end(s: Seq<char>, i: int) -> int
    decreases s.len() - i,
{
    if i < 0 || i >= s.len() {
        s.len() as int
    } else if is_numeric_char(s[i]) || s[i] == '.' {
        number_end(s, i + 1)
    } else {
        i
    }
}

/// Position of the closing quote at or past `i`, if any.
pub open spec fn string_end(s: Seq<char>, i: int) -> Option<int>
    decreases s.len() - i,
{
    if i < 0 || i >= s.len() {
        None
    } else if s[i] == '"' {
        Some(i)
    } else {
        string_end(s, i + 1)
    }
}

/// The scan positions stay within the text and move forward.
pub proof fn lemma_scan_bounds(s: Seq<char>, i: int)
    requires
        0 <= i <= s.len(),
    ensures
        i <= space_end(s, i) <= s.len(),
        i <= name_end(s, i) <= s.len(),
        i <= number_end(s, i) <= s.len(),
        string_end(s, i) matches Some(j) ==> i <= j < s.len(),
    decreases s.len() - i,
{
    if i < s.len() {
        lemma_scan_bounds(s, i + 1);
    }
}

/// The token a name word denotes: the boolean literals for `t` and
/// `nil`, a name for every other word.
pub open spec fn word_token(w: Seq<char>) -> TokenView {
    if w == "t"@ {
        TokenView::Literal(LiteralView::True)
    } else if w == "nil"@ {
        TokenView::Literal(LiteralView::Nil)
    } else {
        TokenView::Name(w)
    }
}

/// Lexes one token starting exactly at `i` (not at space). Returns the
/// token and the position just past it.
pub open spec fn lex_one_spec(s: Seq<char>, i: int) -> Result<(TokenView, int), LexErrView> {
    if i < 0 || i >= s.len() {
        Err(LexErrView::ParsingEmptyString)
    } else if s[i] == '(' {
        Ok((TokenView::OpenParen, i + 1))
    } else if s[i] == ')' {
        Ok((TokenView::CloseParen, i + 1))
    } else if s[i] == '"' {
        match string_end(s, i + 1) {
            Some(j) => Ok((TokenView::Literal(LiteralView::String(s.subrange(i + 1, j))), j + 1)),
            None => Err(LexErrView::StringNeverClosed),
        }
    } else if is_name_start_spec(s[i]) {
        Ok((word_token(s.subrange(i, name_end(s, i))), name_end(s, i)))
    } else if is_numeric_char(s[i]) {
        let digits = s.subrange(i, number_end(s, i));
        if all_digits(digits) && digits.len() > 0 && dec_val(digits) <= i64::MAX {
            Ok((TokenView::Literal(LiteralView::Number(dec_val(digits) as i64)), number_end(s, i)))
        } else {
            Err(LexErrView::NumberParsingFailed)
        }
    } else {
        Err(LexErrView::InvalidLiteral(s[i]))
    }
}

/// A lexed token ends past where it started, within the text.
pub proof fn lemma_lex_one_bounds(s: Seq<char>, i: int)
    requires
        0 <= i <= s.len(),
    ensures
        lex_one_spec(s, i) matches Ok((t, j)) ==> i < j <= s.len(),
{
    lemma_scan_bounds(s, i);
    if i < s.len() {
        lemma_scan_bounds(s, i + 1);
    }
}

/// Lexes the whole text from `i` on: skip space, lex one token, repeat.
pub open spec fn lex_spec(s: Seq<char>, i: int) -> Result<Seq<TokenView>, LexErrView>
    decreases s.len() - i,
    via lex_spec_decreases
{
    if i < 0 {
        Err(LexErrView::ParsingEmptyString)
    } else {
        let k = space_end(s, i);
        if k >= s.len() {
            Ok(Seq::empty())
        } else {
            match lex_one_spec(s, k) {
                Err(e) => Err(e),
                Ok((t, j)) => match lex_spec(s, j) {
                    Ok(ts) => Ok(seq![t] + ts),
                    Err(e) => Err(e),
                },
            }
        }
    }
}

#[via_fn]
proof fn lex_spec_decreases(s: Seq<char>, i: int) {
    if 0 <= i <= s.len() {
        lemma_scan_bounds(s, i);
        lemma_lex_one_bounds(s, space_end(s, i));
    }
}

/// Whether `c` is token-separating space.
fn is_space(c: char) -> (r: bool)
    ensures
        r == is_space_spec(c),
{
    char_is_whitespace(c) || c == '\n' || c == '\r'
}

/// Whether `c` may start a name.
fn is_name_start_char(c: char) -> (r: bool)
    ensures
        r == is_name_start_spec(c),
{
    char_is_alphabetic(c) || c == '+' || c == '-' || c == '/' || c == '*' || c == '=' || c == '<'
        || c == '>'
}

/// Whether `c` may continue a name.
fn is_name_char(c: char) -> (r: bool)
    ensures
        r == is_name_char_spec(c),
{
    is_name_start_char(c) || char_is_alphanumeric(c)
}

/// The characters of `source` from `i` up to `end`.
fn copy_range(source: &Vec<char>, i: usize, end: usize) -> (r: Vec<char>)
    requires
        i <= end <= source@.len(),
    ensures
        r@ == source@.subrange(i as int, end as int),
{
    let mut out: Vec<char> = Vec::new();
    let mut k = i;
    #[verifier::loop_isolation(false)]
    while k < end
        invariant
            i <= k <= end,
            out@ =~= source@.subrange(i as int, k as int),
        decreases end - k,
    {
        out.push(source[k]);
        proof {
            assert(out@ =~= source@.subrange(i as int, k as int + 1));
        }
        k = k + 1;
    }
    proof {
        assert(out@ =~= source@.subrange(i as int, end as int));
    }
    out
}

/// First position at or past `i` that is not space.
fn skip_space(source: &Vec<char>, i: usize) -> (r: usize)
    requires
        i <= source@.len(),
    ensures
        r as int == space_end(source@, i as int),
        i <= r <= source@.len(),
    decreases source@.len() - i,
{
    if i == source.len() {
        return i;
    }
    if is_space(source[i]) {
        skip_space(source, i + 1)
    } else {
        i
    }
}

/// First position at or past `i` that cannot continue a name.
fn scan_name(source: &Vec<char>, i: usize) -> (r: usize)
    requires
        i <= source@.len(),
    ensures
        r as int == name_end(source@, i as int),
        i <= r <= source@.len(),
    decreases source@.len() - i,
{
    if i == source.len() {
        return i;
    }
    if is_name_char(source[i]) {
        scan_name(source, i + 1)
    } else {
        i
    }
}

/// First position at or past `i` that is neither numeric nor a dot.
fn scan_number(source: &Vec<char>, i: usize) -> (r: usize)
    requires
        i <= source@.len(),
    ensures
        r as int == number_end(source@, i as int),
        i <= r <= source@.len(),
    decreases source@.len() - i,
{
    if i == source.len() {
        return i;
    }
    let c = source[i];
    if char_is_numeric(c) || c == '.' {
        scan_number(source, i + 1)
    } else {
        i
    }
}

/// Position of the closing quote at or past `i`, if any.
fn scan_string(source: &Vec<char>, i: usize) -> (r: Option<usize>)
    requires
        i <= source@.len(),
    ensures
        match r {
            Some(j) => string_end(source@, i as int) == Some(j as int) && i <= j
                < source@.len(),
            None => string_end(source@, i as int) is None,
        },
    decreases source@.len() - i,
{
    if i == source.len() {
        return None;
    }
    if source[i] == '"' {
        Some(i)
    } else {
        scan_string(source, i + 1)
    }
}

/// Lexes one token starting exactly at `i`.
fn lex_one(source: &Vec<char>, i: usize) -> (r: Result<(Token, usize), LexError>)
    requires
        i < source@.len(),
    ensures
        ({
            match lex_one_spec(source@, i as int) {
                Ok((tv, j)) => r matches Ok((t, next)) && t@ == tv && next as int == j && i < next
                    <= source@.len(),
                Err(e) => r matches Err(er) && er@ == e,
            }
        }),
{
    proof {
        lemma_lex_one_bounds(source@, i as int);
    }
    let n = source.len();
    let c = source[i];
    if c == '(' {
        Ok((Token::OpenParen, i + 1))
    } else if c == ')' {
        Ok((Token::CloseParen, i + 1))
    } else if c == '"' {
        match scan_string(source, i + 1) {
            Some(j) => {
                let chars = copy_range(source, i + 1, j);
                let text = chars_to_string(&chars);
                Ok((Token::Atom(Atom::Literal(Literal::String(text))), j + 1))
            }
            None => Err(LexError::StringNeverClosed),
        }
    } else if is_name_start_char(c) {
        let j = scan_name(source, i);
        let chars = copy_range(source, i, j);
        let word = chars_to_string(&chars);
        if word.eq(&String::from_str("t")) {
            Ok((Token::Atom(Atom::Literal(Literal::True)), j))
        } else if word.eq(&String::from_str("nil")) {
            Ok((Token::Atom(Atom::Literal(Literal::Nil)), j))
        } else {
            Ok((Token::Atom(Atom::Name(word)), j))
        }
    } else if char_is_numeric(c) {
        let j = scan_number(source, i);
        let digits = copy_range(source, i, j);
        match digits_to_number(&digits) {
            Some(n) => Ok((Token::Atom(Atom::Literal(Literal::Number(n))), j)),
            None => Err(LexError::NumberParsingFailed),
        }
    } else {
        Err(LexError::InvalidLiteral(c))
    }
}

/// Lexes the text from `i` to the end.
fn lex_from(source: &Vec<char>, i: usize) -> (r: Result<Vec<Token>, LexError>)
    requires
        i <= source@.len(),
    ensures
        ({
            match lex_spec(source@, i as int) {
                Ok(ts) => r matches Ok(v) && tokens_view(v@) == ts,
                Err(e) => r matches Err(er) && er@ == e,
            }
        }),
    decreases source@.len() - i,
{
    let k = skip_space(source, i);
    if k == source.len() {
        let empty: Vec<Token> = Vec::new();
        proof {
            assert(tokens_view(empty@) =~= Seq::<TokenView>::empty());
        }
        return Ok(empty);
    }
    let (tok, j) = match lex_one(source, k) {
        Ok(p) => p,
        Err(e) => {
            return Err(e);
        }
    };
    let more = match lex_from(source, j) {
        Ok(v) => v,
        Err(e) => {
            return Err(e);
        }
    };
    let ghost morev = more@;
    let mut out = more;
    out.insert(0, tok);
    proof {
        assert(out@ =~= seq![tok] + morev);
        match lex_spec(source@, j as int) {
            Ok(ts) => {
                assert(tokens_view(out@) =~= seq![tok@] + tokens_view(morev));
            }
            Err(_) => {}
        }
    }
    Ok(out)
}

/// Lexes a whole source text into tokens.
pub fn lex(source: &Vec<char>) -> (r: Result<Vec<Token>, LexError>)
    ensures
        ({
            match lex_spec(source@, 0) {
                Ok(ts) => r matches Ok(v) && tokens_view(v@) == ts,
                Err(e) => r matches Err(er) && er@ == e,
            }
        }),
{
    lex_from(source, 0)
}

} // verus!
