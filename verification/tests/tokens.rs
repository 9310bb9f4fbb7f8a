use umeboshi::error::EvalError;
use umeboshi::lexer::{duplicate_from, Kind, Operator, Token};
use umeboshi::number::{ArithOp, Notation, Numerics};

fn parse(s: &str) -> Option<u64> {
    s.parse::<f64>().ok().map(f64::to_bits)
}

fn arith(op: ArithOp, a: u64, b: u64) -> u64 {
    let x = f64::from_bits(a);
    let y = f64::from_bits(b);
    let z = match op {
        ArithOp::Add => x + y,
        ArithOp::Sub => x - y,
        ArithOp::Mul => x * y,
        ArithOp::Div => x / y,
        ArithOp::Rem => x % y,
    };
    z.to_bits()
}

fn show(notation: Notation, a: u64) -> String {
    match notation {
        Notation::Display => format!("{}", f64::from_bits(a)),
        Notation::Debug => format!("{:?}", f64::from_bits(a)),
    }
}

type Service =
    Numerics<fn(&str) -> Option<u64>, fn(ArithOp, u64, u64) -> u64, fn(Notation, u64) -> String>;

fn service() -> Service {
    Numerics { parse, arith, show }
}

fn num(x: f64) -> Token {
    Token::Num(x.to_bits())
}

fn text(s: &str) -> Token {
    Token::Str(s.to_string())
}

fn list(items: Vec<Token>) -> Token {
    Token::List(items)
}

#[test]
fn arithmetic_on_two_numbers() {
    let n = service();
    assert_eq!(num(45.0).add(num(5.0), &n), Ok(num(50.0)));
    assert_eq!(num(7.0).sub(num(2.0), &n), Ok(num(5.0)));
    assert_eq!(num(2.0).sub(num(7.0), &n), Ok(num(-5.0)));
    assert_eq!(num(2.0).mul(num(5.0), &n), Ok(num(10.0)));
    assert_eq!(num(50.0).div(num(10.0), &n), Ok(num(5.0)));
    assert_eq!(num(10.0).div(num(4.0), &n), Ok(num(2.5)));
    assert_eq!(num(7.0).rem(num(3.0), &n), Ok(num(1.0)));
    assert_eq!(num(-7.5).rem(num(2.0), &n), Ok(num(-1.5)));
    assert_eq!(num(1.0).div(num(0.0), &n), Ok(num(f64::INFINITY)));
}

#[test]
fn arithmetic_rejects_what_is_no_number() {
    let n = service();
    assert_eq!(
        text("a").add(num(1.0), &n),
        Err(EvalError::TypeMismatch(Operator::Plus, Kind::Str, Kind::Num))
    );
    assert_eq!(
        num(1.0).sub(Token::Bool(true), &n),
        Err(EvalError::TypeMismatch(Operator::Minus, Kind::Num, Kind::Bool))
    );
    assert_eq!(
        list(vec![]).mul(list(vec![num(1.0)]), &n),
        Err(EvalError::TypeMismatch(Operator::Times, Kind::EmptyList, Kind::List))
    );
    assert_eq!(
        Token::Var("$x".to_string()).div(num(1.0), &n),
        Err(EvalError::TypeMismatch(Operator::Div, Kind::Var, Kind::Num))
    );
    assert_eq!(
        Token::Plus.rem(Token::Sep, &n),
        Err(EvalError::TypeMismatch(Operator::Rem, Kind::Marker, Kind::Marker))
    );
}

#[test]
fn comparisons_of_numbers() {
    assert_eq!(num(1.0).eq(num(1.0)), Ok(Token::Bool(true)));
    assert_eq!(num(1.0).eq(num(2.0)), Ok(Token::Bool(false)));
    assert_eq!(num(0.0).eq(num(-0.0)), Ok(Token::Bool(true)));
    assert_eq!(num(f64::NAN).eq(num(f64::NAN)), Ok(Token::Bool(false)));
    assert_eq!(num(f64::NAN).ne(num(f64::NAN)), Ok(Token::Bool(true)));
    assert_eq!(num(1.0).ne(num(1.0)), Ok(Token::Bool(false)));
    assert_eq!(num(1.0).lt(num(2.0)), Ok(Token::Bool(true)));
    assert_eq!(num(2.0).lt(num(1.0)), Ok(Token::Bool(false)));
    assert_eq!(num(-3.0).lt(num(-2.0)), Ok(Token::Bool(true)));
    assert_eq!(num(2.0).le(num(2.0)), Ok(Token::Bool(true)));
    assert_eq!(num(2.5).le(num(2.0)), Ok(Token::Bool(false)));
    assert_eq!(num(2.0).gt(num(1.0)), Ok(Token::Bool(true)));
    assert_eq!(num(1.0).gt(num(1.0)), Ok(Token::Bool(false)));
    assert_eq!(num(1.0).ge(num(1.0)), Ok(Token::Bool(true)));
    assert_eq!(num(0.5).ge(num(1.0)), Ok(Token::Bool(false)));
}

#[test]
fn comparisons_of_texts() {
    assert_eq!(text("a").eq(text("a")), Ok(Token::Bool(true)));
    assert_eq!(text("a").eq(text("b")), Ok(Token::Bool(false)));
    assert_eq!(text("a").ne(text("b")), Ok(Token::Bool(true)));
    assert_eq!(text("a").lt(text("b")), Ok(Token::Bool(true)));
    assert_eq!(text("b").lt(text("a")), Ok(Token::Bool(false)));
    assert_eq!(text("a").lt(text("ab")), Ok(Token::Bool(true)));
    assert_eq!(text("a").le(text("a")), Ok(Token::Bool(true)));
    assert_eq!(text("b").le(text("a")), Ok(Token::Bool(false)));
    assert_eq!(text("b").gt(text("a")), Ok(Token::Bool(true)));
    assert_eq!(text("a").ge(text("a")), Ok(Token::Bool(true)));
    assert_eq!(text("a").ge(text("b")), Ok(Token::Bool(false)));
}

#[test]
fn comparisons_of_truth_values() {
    let t = || Token::Bool(true);
    let f = || Token::Bool(false);
    assert_eq!(t().eq(t()), Ok(Token::Bool(true)));
    assert_eq!(t().eq(f()), Ok(Token::Bool(false)));
    assert_eq!(t().ne(f()), Ok(Token::Bool(true)));
    assert_eq!(f().lt(t()), Ok(Token::Bool(true)));
    assert_eq!(t().lt(f()), Ok(Token::Bool(false)));
    assert_eq!(t().lt(t()), Ok(Token::Bool(false)));
    assert_eq!(t().le(t()), Ok(Token::Bool(true)));
    assert_eq!(t().le(f()), Ok(Token::Bool(false)));
    assert_eq!(t().gt(f()), Ok(Token::Bool(true)));
    assert_eq!(f().ge(t()), Ok(Token::Bool(false)));
    assert_eq!(f().ge(f()), Ok(Token::Bool(true)));
}

#[test]
fn comparisons_reject_mixed_kinds() {
    assert_eq!(
        text("a").eq(num(1.0)),
        Err(EvalError::TypeMismatch(Operator::Eq, Kind::Str, Kind::Num))
    );
    assert_eq!(
        num(1.0).ne(Token::Bool(true)),
        Err(EvalError::TypeMismatch(Operator::Ne, Kind::Num, Kind::Bool))
    );
    assert_eq!(
        Token::Bool(true).lt(text("z")),
        Err(EvalError::TypeMismatch(Operator::Lt, Kind::Bool, Kind::Str))
    );
    assert_eq!(
        list(vec![num(1.0)]).le(list(vec![num(1.0)])),
        Err(EvalError::TypeMismatch(Operator::Le, Kind::List, Kind::List))
    );
    assert_eq!(
        Token::If.gt(num(1.0)),
        Err(EvalError::TypeMismatch(Operator::Gt, Kind::Marker, Kind::Num))
    );
    assert_eq!(
        num(1.0).ge(Token::Var("$v".to_string())),
        Err(EvalError::TypeMismatch(Operator::Ge, Kind::Num, Kind::Var))
    );
}

#[test]
fn get_str_renders_values_only() {
    let n = service();
    assert_eq!(num(5.0).get_str(&n), Some("5".to_string()));
    assert_eq!(num(2.5).get_str(&n), Some("2.5".to_string()));
    assert_eq!(num(-0.0).get_str(&n), Some("-0".to_string()));
    assert_eq!(text("x").get_str(&n), Some("x".to_string()));
    assert_eq!(Token::Bool(true).get_str(&n), Some("true".to_string()));
    assert_eq!(Token::Bool(false).get_str(&n), Some("false".to_string()));
    assert_eq!(list(vec![num(1.0)]).get_str(&n), None);
    assert_eq!(Token::Var("$x".to_string()).get_str(&n), None);
    assert_eq!(Token::Plus.get_str(&n), None);
    assert_eq!(Token::Sep.get_str(&n), None);
}

#[test]
fn first_and_rest_of_a_list() {
    let l = list(vec![num(1.0), text("b"), Token::Bool(true)]);
    assert_eq!(l.first(), Some(num(1.0)));
    assert_eq!(l.rest(), Some(vec![text("b"), Token::Bool(true)]));
    let single = list(vec![text("only")]);
    assert_eq!(single.first(), Some(text("only")));
    assert_eq!(single.rest(), Some(vec![]));
    let nested = list(vec![list(vec![num(1.0), num(2.0)]), num(3.0)]);
    assert_eq!(nested.first(), Some(list(vec![num(1.0), num(2.0)])));
}

#[test]
fn first_and_rest_of_what_has_no_head() {
    assert_eq!(list(vec![]).first(), None);
    assert_eq!(list(vec![]).rest(), None);
    assert_eq!(num(1.0).first(), None);
    assert_eq!(text("a").rest(), None);
    assert_eq!(Token::First.first(), None);
}

#[test]
fn copies_are_equal_and_independent() {
    let source = list(vec![num(1.0), list(vec![text("a"), Token::Sep]), Token::Print]);
    let mut copy = source.duplicate();
    assert_eq!(copy, source);
    assert_eq!(source.clone(), source);
    if let Token::List(items) = &mut copy {
        items.push(num(9.0));
    }
    assert_ne!(copy, source);
    assert_eq!(source, list(vec![num(1.0), list(vec![text("a"), Token::Sep]), Token::Print]));
    let items = vec![num(1.0), num(2.0), num(3.0)];
    assert_eq!(duplicate_from(&items, 0), items);
    assert_eq!(duplicate_from(&items, 2), vec![num(3.0)]);
    assert_eq!(duplicate_from(&items, 3), vec![]);
}

#[test]
fn kinds_and_markers() {
    assert_eq!(num(1.0).kind(), Kind::Num);
    assert_eq!(text("a").kind(), Kind::Str);
    assert_eq!(Token::Var("$a".to_string()).kind(), Kind::Var);
    assert_eq!(Token::Bool(false).kind(), Kind::Bool);
    assert_eq!(list(vec![num(1.0)]).kind(), Kind::List);
    assert_eq!(list(vec![]).kind(), Kind::EmptyList);
    assert_eq!(Token::Sep.kind(), Kind::Marker);
    assert_eq!(Token::Define.kind(), Kind::Marker);
    assert_eq!(Token::Plus.marker(), Some(Operator::Plus));
    assert_eq!(Token::Ge.marker(), Some(Operator::Ge));
    assert_eq!(Token::ListCmd.marker(), Some(Operator::ListCmd));
    assert_eq!(Token::Print.marker(), Some(Operator::Print));
    assert_eq!(Token::Sep.marker(), None);
    assert_eq!(num(1.0).marker(), None);
}

#[test]
fn messages_of_failures() {
    assert_eq!(
        EvalError::OperandMissing(Operator::Plus).message(),
        "ERROR: `+` and `add` require 2 params"
    );
    assert_eq!(
        EvalError::OperandMissing(Operator::Minus).message(),
        "ERROR: `-` and `sub` require 2 params"
    );
    assert_eq!(
        EvalError::OperandMissing(Operator::Times).message(),
        "ERROR: `*` and `mul` require 2 params"
    );
    assert_eq!(
        EvalError::OperandMissing(Operator::Div).message(),
        "ERROR: `/` and `div` require 2 params"
    );
    assert_eq!(
        EvalError::OperandMissing(Operator::Rem).message(),
        "ERROR: `%` and `rem` require 2 params"
    );
    assert_eq!(
        EvalError::OperandMissing(Operator::Eq).message(),
        "ERROR: `==` and `eq` require 2 params"
    );
    assert_eq!(
        EvalError::OperandMissing(Operator::Ne).message(),
        "ERROR: `!=` and `ne` require 2 params"
    );
    assert_eq!(
        EvalError::OperandMissing(Operator::Lt).message(),
        "ERROR: `<` and `lt` require 2 params"
    );
    assert_eq!(
        EvalError::OperandMissing(Operator::Gt).message(),
        "ERROR: `>` and `gt` require 2 params"
    );
    assert_eq!(
        EvalError::OperandMissing(Operator::Le).message(),
        "ERROR: `<=` and `le` require 2 params"
    );
    assert_eq!(
        EvalError::OperandMissing(Operator::Ge).message(),
        "ERROR: `>=` and `ge` require 2 params"
    );
    assert_eq!(
        EvalError::OperandMissing(Operator::Define).message(),
        "ERROR: `define` requires 2 params"
    );
    assert_eq!(EvalError::OperandMissing(Operator::If).message(), "ERROR: `if` requires 3 params");
    assert_eq!(
        EvalError::TypeMismatch(Operator::Plus, Kind::Str, Kind::Num).message(),
        "ERROR: `+` and `add` cannot take Str and Num"
    );
    assert_eq!(
        EvalError::TypeMismatch(Operator::Define, Kind::List, Kind::Bool).message(),
        "ERROR: `define` cannot take List and Bool"
    );
    assert_eq!(
        EvalError::TypeMismatch(Operator::If, Kind::Num, Kind::Nothing).message(),
        "ERROR: `if` requires a Bool condition, received Num"
    );
    assert_eq!(
        EvalError::UnboundVariable("nope".to_string()).message(),
        "ERROR: variable `nope` is not defined"
    );
    assert_eq!(
        EvalError::StructuralMisuse(Operator::First, Kind::Num).message(),
        "ERROR: `first` requires a non-empty List, received Num"
    );
    assert_eq!(
        EvalError::StructuralMisuse(Operator::Rest, Kind::EmptyList).message(),
        "ERROR: `rest` requires a non-empty List, received an empty List"
    );
    assert_eq!(
        EvalError::StructuralMisuse(Operator::First, Kind::Nothing).message(),
        "ERROR: `first` requires a non-empty List, received nothing"
    );
}
