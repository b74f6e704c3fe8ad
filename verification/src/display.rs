//! The printed form of literals: decimal rendering of numbers, the
//! quoted form of strings, `T` and `NIL` for the booleans, and the
//! inverse direction (digit strings back to numbers) for the lexer.

use vstd::prelude::*;
use crate::ast::{Literal, LiteralView};

verus! {

/// The character for one decimal digit.
pub open spec fn digit_char(d: int) -> char {
    if d == 0 {
        '0'
    } else if d == 1 {
        '1'
    } else if d == 2 {
        '2'
    } else if d == 3 {
        '3'
    } else if d == 4 {
        '4'
    } else if d == 5 {
        '5'
    } else if d == 6 {
        '6'
    } else if d == 7 {
        '7'
    } else if d == 8 {
        '8'
    } else {
        '9'
    }
}

/// Decimal digits of `n`, most significant first, no sign and no
/// leading zero (except for `n == 0` itself).
pub open spec fn dec_digits(n: nat) -> Seq<char>
    decreases n,
{
    if n < 10 {
        seq![digit_char(n as int)]
    } else {
        dec_digits(n / 10) + seq![digit_char((n % 10) as int)]
    }
}

/// Printed form of a signed number: a minus sign for negatives, then
/// the decimal digits of the magnitude.
pub open spec fn int_display(n: i64) -> Seq<char> {
    if n >= 0 {
        dec_digits(n as nat)
    } else {
        seq!['-'] + dec_digits((-(n as int)) as nat)
    }
}

/// Printed form of a literal: strings keep their quotes, the booleans
/// print as `T` and `NIL`.
pub open spec fn lit_display(l: LiteralView) -> Seq<char> {
    match l {
        LiteralView::String(s) => seq!['"'] + s + seq!['"'],
        LiteralView::Number(n) => int_display(n),
        LiteralView::True => seq!['T'],
        LiteralView::Nil => seq!['N', 'I', 'L'],
    }
}

/// Whether `c` is one of the ten decimal digit characters.
pub open spec fn is_digit(c: char) -> bool {
    '0' <= c && c <= '9'
}

/// Whether every character of `s` is a decimal digit.
pub open spec fn all_digits(s: Seq<char>) -> bool {
    forall|i: int| 0 <= i < s.len() ==> is_digit(#[trigger] s[i])
}

/// Numeric value of one digit character.
pub open spec fn digit_val(c: char) -> int {
    c as int - '0' as int
}

/// Numeric value of a digit string, most significant digit first.
pub open spec fn dec_val(s: Seq<char>) -> int
    decreases s.len(),
{
    if s.len() == 0 {
        0
    } else {
        dec_val(s.drop_last()) * 10 + digit_val(s.last())
    }
}

/// Appends the character of digit `d` to `out`.
fn append_digit(out: &mut String, d: u64)
    requires
        d < 10,
    ensures
        final(out)@ == old(out)@ + seq![digit_char(d as int)],
{
    if d == 0 {
        proof { reveal_strlit("0"); }
        out.append("0");
    } else if d == 1 {
        proof { reveal_strlit("1"); }
        out.append("1");
    } else if d == 2 {
        proof { reveal_strlit("2"); }
        out.append("2");
    } else if d == 3 {
        proof { reveal_strlit("3"); }
        out.append("3");
    } else if d == 4 {
        proof { reveal_strlit("4"); }
        out.append("4");
    } else if d == 5 {
        proof { reveal_strlit("5"); }
        out.append("5");
    } else if d == 6 {
        proof { reveal_strlit("6"); }
        out.append("6");
    } else if d == 7 {
        proof { reveal_strlit("7"); }
        out.append("7");
    } else if d == 8 {
        proof { reveal_strlit("8"); }
        out.append("8");
    } else {
        proof { reveal_strlit("9"); }
        out.append("9");
    }
    proof {
        assert(final(out)@ =~= old(out)@ + seq![digit_char(d as int)]);
    }
}

/// Appends the decimal digits of `m` to `out`.
fn append_dec_digits(m: u64, out: &mut String)
    ensures
        final(out)@ == old(out)@ + dec_digits(m as nat),
    decreases m,
{
    if m < 10 {
        append_digit(out, m);
    } else {
        append_dec_digits(m / 10, out);
        append_digit(out, m % 10);
        proof {
            assert(final(out)@ =~= old(out)@ + dec_digits(m as nat));
        }
    }
}

/// Renders `n` in decimal, with a leading minus sign when negative.
pub fn number_to_string(n: i64) -> (r: String)
    ensures
        r@ == int_display(n),
{
    let mut s = String::new();
    if n >= 0 {
        append_dec_digits(n as u64, &mut s);
        proof {
            assert(s@ =~= int_display(n));
        }
    } else {
        proof { reveal_strlit("-"); }
        s.append("-");
        let m: u64 = (-(n + 1)) as u64 + 1;
        append_dec_digits(m, &mut s);
        proof {
            assert(s@ =~= int_display(n));
        }
    }
    s
}

/// Renders a literal in its printed form.
pub fn literal_to_string(l: &Literal) -> (r: String)
    ensures
        r@ == lit_display(l@),
{
    match l {
        Literal::String(inner) => {
            let mut s = String::new();
            proof { reveal_strlit("\""); }
            s.append("\"");
            s.append(inner.as_str());
            s.append("\"");
            proof {
                assert(s@ =~= lit_display(l@));
            }
            s
        }
        Literal::Number(n) => number_to_string(*n),
        Literal::True => {
            proof { reveal_strlit("T"); }
            let s = String::from_str("T");
            proof {
                assert(s@ =~= lit_display(l@));
            }
            s
        }
        Literal::Nil => {
            proof { reveal_strlit("NIL"); }
            let s = String::from_str("NIL");
            proof {
                assert(s@ =~= lit_display(l@));
            }
            s
        }
    }
}

/// Numeric value of a digit string, when every character is a digit and
/// the value fits in an `i64`; `None` otherwise.
pub fn digits_to_number(digits: &Vec<char>) -> (r: Option<i64>)
    ensures
        (all_digits(digits@) && digits@.len() > 0 && dec_val(digits@) <= i64::MAX) ==> r
            == Some(dec_val(digits@) as i64),
        r is Some ==> all_digits(digits@) && digits@.len() > 0 && dec_val(digits@) <= i64::MAX,
    decreases digits@.len(),
{
    let mut acc: i64 = 0;
    let mut i: usize = 0;
    if digits.len() == 0 {
        return None;
    }
    while i < digits.len()
        invariant
            0 <= i <= digits@.len(),
            all_digits(digits@.subrange(0, i as int)),
            acc == dec_val(digits@.subrange(0, i as int)),
            0 <= acc,
        decreases digits@.len() - i,
    {
        let c = digits[i];
        if !('0' <= c && c <= '9') {
            proof {
                assert(!is_digit(digits@[i as int]));
            }
            return None;
        }
        let d: i64 = (c as u32 - '0' as u32) as i64;
        let shifted = match acc.checked_mul(10) {
            Some(x) => x,
            None => {
                proof {
                    if all_digits(digits@) {
                        lemma_dec_val_grows(digits@, i as int);
                    }
                }
                return None;
            }
        };
        acc = match shifted.checked_add(d) {
            Some(x) => x,
            None => {
                proof {
                    if all_digits(digits@) {
                        lemma_dec_val_grows(digits@, i as int);
                    }
                }
                return None;
            }
        };
        proof {
            assert(digits@.subrange(0, i + 1).drop_last() =~= digits@.subrange(0, i as int));
            assert(digits@.subrange(0, i + 1).last() == digits@[i as int]);
        }
        i = i + 1;
    }
    proof {
        assert(digits@.subrange(0, digits@.len() as int) =~= digits@);
    }
    Some(acc)
}

/// Once a prefix of the digit string is too large for `i64`, the whole
/// string is too.
proof fn lemma_dec_val_grows(s: Seq<char>, i: int)
    requires
        0 <= i < s.len(),
        all_digits(s),
        dec_val(s.subrange(0, i)) * 10 + digit_val(s[i]) > i64::MAX,
    ensures
        dec_val(s) > i64::MAX,
    decreases s.len() - i,
{
    assert(s.subrange(0, i + 1).drop_last() =~= s.subrange(0, i));
    assert(s.subrange(0, i + 1).last() == s[i]);
    if i + 1 == s.len() {
        assert(s.subrange(0, s.len() as int) =~= s);
    } else {
        assert(is_digit(s[i + 1]));
        assert(dec_val(s.subrange(0, i + 1)) * 10 + digit_val(s[i + 1]) > i64::MAX);
        lemma_dec_val_grows(s, i + 1);
    }
}

/// Rendering a number and reading the digits back returns the number:
/// the decimal form is faithful.
pub proof fn lemma_dec_digits_val(n: nat)
    ensures
        all_digits(dec_digits(n)),
        dec_digits(n).len() >= 1,
        dec_val(dec_digits(n)) == n,
    decreases n,
{
    if n < 10 {
        assert(dec_digits(n) =~= seq![digit_char(n as int)]);
        assert(dec_val(dec_digits(n)) == dec_val(seq![digit_char(n as int)].drop_last()) * 10
            + digit_val(digit_char(n as int)));
        assert(seq![digit_char(n as int)].drop_last() =~= Seq::<char>::empty());
    } else {
        lemma_dec_digits_val(n / 10);
        let s = dec_digits(n);
        assert(s =~= dec_digits(n / 10) + seq![digit_char((n % 10) as int)]);
        assert(s.drop_last() =~= dec_digits(n / 10));
        assert(s.last() == digit_char((n % 10) as int));
        assert(digit_val(digit_char((n % 10) as int)) == n % 10);
        assert(dec_val(s) == (n / 10) * 10 + n % 10);
        assert((n / 10) * 10 + n % 10 == n) by (nonlinear_arith);
        assert forall|i: int| 0 <= i < s.len() implies is_digit(#[trigger] s[i]) by {
            if i < s.len() - 1 {
                assert(s[i] == dec_digits(n / 10)[i]);
            }
        }
    }
}

/// Appends the characters of the decimal digits of `m`.
fn push_digit_chars(m: u64, out: &mut Vec<char>)
    ensures
        final(out)@ == old(out)@ + dec_digits(m as nat),
    decreases m,
{
    if m < 10 {
        let c = if m == 0 {
            '0'
        } else if m == 1 {
            '1'
        } else if m == 2 {
            '2'
        } else if m == 3 {
            '3'
        } else if m == 4 {
            '4'
        } else if m == 5 {
            '5'
        } else if m == 6 {
            '6'
        } else if m == 7 {
            '7'
        } else if m == 8 {
            '8'
        } else {
            '9'
        };
        out.push(c);
        proof {
            assert(final(out)@ =~= old(out)@ + dec_digits(m as nat));
        }
    } else {
        push_digit_chars(m / 10, out);
        push_digit_chars(m % 10, out);
        proof {
            assert(final(out)@ =~= old(out)@ + dec_digits(m as nat));
        }
    }
}

/// The decimal digits of a nonnegative number, as characters.
pub fn number_to_chars(n: i64) -> (r: Vec<char>)
    requires
        0 <= n,
    ensures
        r@ == int_display(n),
{
    let mut out: Vec<char> = Vec::new();
    push_digit_chars(n as u64, &mut out);
    proof {
        assert(out@ =~= int_display(n));
    }
    out
}

} // verus!
