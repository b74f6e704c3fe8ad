use lisp::ast::{Atom, Expression, Literal, Operator, Token};
use lisp::display::{literal_to_string, number_to_string};
use lisp::laws::numeral_round_trip;
use lisp::lex::{lex, LexError};
use lisp::parse::{parse, parse_expressions, parse_single_expression, ParseError};
use lisp::scan::Scanner;

fn lex_str(source: &str) -> Result<Vec<Token>, LexError> {
    let chars: Vec<char> = source.chars().collect();
    lex(&chars)
}

#[test]
fn lexes_parens_and_atoms() {
    let tokens = lex_str("(foo 12 \"bar\")").unwrap();
    assert_eq!(tokens.len(), 5);
    assert!(matches!(tokens[0], Token::OpenParen));
    assert!(matches!(&tokens[1], Token::Atom(Atom::Name(n)) if n == "foo"));
    assert!(matches!(&tokens[2], Token::Atom(Atom::Literal(Literal::Number(12)))));
    assert!(matches!(&tokens[3], Token::Atom(Atom::Literal(Literal::String(s))) if s == "bar"));
    assert!(matches!(tokens[4], Token::CloseParen));
}

#[test]
fn lexes_booleans_from_lowercase_words() {
    let tokens = lex_str("t nil").unwrap();
    assert!(matches!(tokens[0], Token::Atom(Atom::Literal(Literal::True))));
    assert!(matches!(tokens[1], Token::Atom(Atom::Literal(Literal::Nil))));
}

#[test]
fn operator_characters_start_names() {
    let tokens = lex_str("+ <= >=").unwrap();
    assert!(matches!(&tokens[0], Token::Atom(Atom::Name(n)) if n == "+"));
    assert!(matches!(&tokens[1], Token::Atom(Atom::Name(n)) if n == "<="));
    assert!(matches!(&tokens[2], Token::Atom(Atom::Name(n)) if n == ">="));
}

#[test]
fn minus_starts_a_name_not_a_number() {
    let tokens = lex_str("-5").unwrap();
    assert!(matches!(&tokens[0], Token::Atom(Atom::Name(n)) if n == "-5"));
}

#[test]
fn skips_whitespace_between_tokens() {
    let tokens = lex_str("  ( \n a\t) \r ").unwrap();
    assert_eq!(tokens.len(), 3);
}

#[test]
fn unknown_character_is_invalid() {
    assert!(matches!(lex_str("#"), Err(LexError::InvalidLiteral('#'))));
}

#[test]
fn unterminated_string_is_reported() {
    assert!(matches!(lex_str("\"abc"), Err(LexError::StringNeverClosed)));
}

#[test]
fn fractional_numbers_are_rejected() {
    assert!(matches!(lex_str("3.5"), Err(LexError::NumberParsingFailed)));
}

#[test]
fn numbers_too_large_for_i64_are_rejected() {
    assert!(matches!(
        lex_str("99999999999999999999"),
        Err(LexError::NumberParsingFailed)
    ));
}

#[test]
fn parses_atoms_and_calls() {
    let tokens = lex_str("(f 1 (g 2))").unwrap();
    let exprs = parse_expressions(&tokens).unwrap();
    assert_eq!(exprs.len(), 1);
    match &exprs[0] {
        Expression::Call(name, args) => {
            assert_eq!(name, "f");
            assert_eq!(args.len(), 2);
            assert!(matches!(&args[0], Expression::Literal(Literal::Number(1))));
            assert!(matches!(&args[1], Expression::Call(inner, _) if inner == "g"));
        }
        _ => panic!("expected a call"),
    }
}

#[test]
fn parses_special_forms_statically() {
    let tokens = lex_str("(setq x 5)").unwrap();
    let exprs = parse_expressions(&tokens).unwrap();
    match &exprs[0] {
        Expression::Operator(op) => match &**op {
            Operator::SetQ(name, value) => {
                assert_eq!(name, "x");
                assert!(matches!(value, Expression::Literal(Literal::Number(5))));
            }
            _ => panic!("expected setq"),
        },
        _ => panic!("expected an operator"),
    }
}

#[test]
fn parses_if_with_and_without_else() {
    let tokens = lex_str("(if t 1 2) (if t 1)").unwrap();
    let exprs = parse_expressions(&tokens).unwrap();
    match &exprs[0] {
        Expression::Operator(op) => {
            assert!(matches!(&**op, Operator::If(_, _, Some(_))));
        }
        _ => panic!("expected an operator"),
    }
    match &exprs[1] {
        Expression::Operator(op) => {
            assert!(matches!(&**op, Operator::If(_, _, None)));
        }
        _ => panic!("expected an operator"),
    }
}

#[test]
fn parses_defun_shape() {
    let tokens = lex_str("(defun f (a b) (+ a b))").unwrap();
    let exprs = parse_expressions(&tokens).unwrap();
    match &exprs[0] {
        Expression::Operator(op) => match &**op {
            Operator::Function(name, params, _) => {
                assert_eq!(name, "f");
                assert_eq!(params.len(), 2);
                assert_eq!(&params[0], "a");
                assert_eq!(&params[1], "b");
            }
            _ => panic!("expected defun"),
        },
        _ => panic!("expected an operator"),
    }
}

#[test]
fn defun_with_non_name_parameter_is_invalid() {
    let tokens = lex_str("(defun f (1) 2)").unwrap();
    assert!(matches!(parse_expressions(&tokens), Err(ParseError::InvalidToken(_))));
}

#[test]
fn unclosed_call_is_not_closed() {
    let tokens = lex_str("(f 1").unwrap();
    assert!(matches!(
        parse_expressions(&tokens),
        Err(ParseError::ExpressionNotClosed)
    ));
}

#[test]
fn stray_close_paren_is_an_invalid_token() {
    let tokens = lex_str(")").unwrap();
    assert!(matches!(
        parse_expressions(&tokens),
        Err(ParseError::InvalidToken(Token::CloseParen))
    ));
}

#[test]
fn setq_without_a_name_is_an_invalid_atom() {
    let tokens = lex_str("(setq 1 2)").unwrap();
    assert!(matches!(parse_expressions(&tokens), Err(ParseError::InvalidAtom)));
}

#[test]
fn parse_iterator_yields_expressions_then_stops() {
    let tokens = lex_str("1 2").unwrap();
    let mut iter = parse(&tokens);
    assert!(matches!(
        iter.next(),
        Some(Ok(Expression::Literal(Literal::Number(1))))
    ));
    assert!(matches!(
        iter.next(),
        Some(Ok(Expression::Literal(Literal::Number(2))))
    ));
    assert!(iter.next().is_none());
}

#[test]
fn parse_iterator_halts_permanently_after_an_error() {
    let tokens = lex_str("( 1").unwrap();
    let mut iter = parse(&tokens);
    assert!(matches!(iter.next(), Some(Err(_))));
    assert!(iter.next().is_none());
}

#[test]
fn parse_single_expression_reports_its_end() {
    let tokens = lex_str("1 2").unwrap();
    let (expr, next) = parse_single_expression(&tokens, 0).unwrap();
    assert!(matches!(expr, Expression::Literal(Literal::Number(1))));
    assert_eq!(next, 1);
}

#[test]
fn displays_literals_in_their_printed_forms() {
    assert_eq!(literal_to_string(&Literal::Number(5)), "5");
    assert_eq!(literal_to_string(&Literal::Number(-17)), "-17");
    assert_eq!(literal_to_string(&Literal::True), "T");
    assert_eq!(literal_to_string(&Literal::Nil), "NIL");
    assert_eq!(literal_to_string(&Literal::String(String::from("ab"))), "\"ab\"");
}

#[test]
fn number_display_covers_the_extremes() {
    assert_eq!(number_to_string(0), "0");
    assert_eq!(number_to_string(i64::MAX), "9223372036854775807");
    assert_eq!(number_to_string(i64::MIN), "-9223372036854775808");
}

#[test]
fn numerals_round_trip_through_lex_and_parse() {
    assert_eq!(numeral_round_trip(5), "5");
    assert_eq!(numeral_round_trip(0), "0");
    assert_eq!(numeral_round_trip(9223372036854775807), "9223372036854775807");
}

#[test]
fn boolean_literals_reprint_as_t_and_nil() {
    let tokens = lex_str("t nil").unwrap();
    let exprs = parse_expressions(&tokens).unwrap();
    match &exprs[0] {
        Expression::Literal(l) => assert_eq!(literal_to_string(l), "T"),
        _ => panic!("expected a literal"),
    }
    match &exprs[1] {
        Expression::Literal(l) => assert_eq!(literal_to_string(l), "NIL"),
        _ => panic!("expected a literal"),
    }
}

#[test]
fn scanner_walks_a_slice() {
    let items = [10, 20, 30];
    let mut scanner = Scanner::new(&items);
    assert!(scanner.has_next());
    assert_eq!(scanner.peek(), Some(10));
    assert_eq!(scanner.pop(), Some(10));
    scanner.next();
    assert_eq!(scanner.peek(), Some(30));
    assert_eq!(scanner.pop(), Some(30));
    assert!(!scanner.has_next());
    assert_eq!(scanner.pop(), None);
}

#[test]
fn names_may_carry_digits_after_the_first_character() {
    let tokens = lex_str("x2").unwrap();
    assert_eq!(tokens.len(), 1);
    assert!(matches!(&tokens[0], Token::Atom(Atom::Name(n)) if n == "x2"));
}

#[test]
fn call_position_must_be_a_name() {
    // A parenthesized form must start with a name: an immediately
    // applied lambda is not part of the grammar.
    let tokens = lex_str("((lambda (x) x) 5)").unwrap();
    assert!(matches!(
        parse_expressions(&tokens),
        Err(ParseError::InvalidToken(Token::OpenParen))
    ));
}
