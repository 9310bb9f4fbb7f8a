//! The token model: literal values and operator markers, and the operations
//! that the evaluator applies to values.

use vstd::prelude::*;
use crate::error::{EvalError, EvalErrorView};
use crate::number::{at_most, equal, less, num_eq, num_le, num_lt};
use crate::number::{ArithOp, Notation, NumericModel, Numerics};
use crate::text::{before, text_le, text_lt};

verus! {

/// The operators and keywords of the language.
#[derive(Clone, Copy, PartialEq, Eq, Structural, Debug)]
pub enum Operator {
    Plus,
    Minus,
    Times,
    Div,
    Rem,
    Eq,
    Ne,
    Lt,
    Gt,
    Le,
    Ge,
    Define,
    If,
    ListCmd,
    First,
    Rest,
    Print,
}

/// What sort of thing a token is, as error messages name it. `Nothing` stands
/// for an operand that was not there.
#[derive(Clone, Copy, PartialEq, Eq, Structural, Debug)]
pub enum Kind {
    Num,
    Str,
    Var,
    Bool,
    List,
    EmptyList,
    Marker,
    Nothing,
}

/// A literal value or an operator marker. A number is held as the bits of its
/// IEEE 754 binary64 encoding.
#[derive(Debug, PartialEq)]
pub enum Token {
    Num(u64),
    Str(String),
    Var(String),
    Bool(bool),
    List(Vec<Token>),
    Plus,
    Minus,
    Times,
    Div,
    Rem,
    Eq,
    Ne,
    Lt,
    Gt,
    Le,
    Ge,
    Define,
    If,
    ListCmd,
    First,
    Rest,
    Sep,
    Print,
}

/// A token as a mathematical value.
pub ghost enum TokenView {
    Num(u64),
    Str(Seq<char>),
    Var(Seq<char>),
    Bool(bool),
    List(Seq<TokenView>),
    Sep,
    Mark(Operator),
}

/// The values of a sequence of tokens.
pub open spec fn views(tokens: Seq<Token>) -> Seq<TokenView> {
    Seq::new(tokens.len(), |i: int| tokens[i]@)
}

/// The values of the first `n` tokens of `items`.
pub open spec fn views_upto(items: Vec<Token>, n: nat) -> Seq<TokenView>
    decreases items, n,
{
    if n == 0 || n > items.len() {
        Seq::empty()
    } else {
        views_upto(items, (n - 1) as nat).push(items[n - 1]@)
    }
}

impl View for Token {
    type V = TokenView;

    open spec fn view(&self) -> TokenView
        decreases self, 0nat,
    {
        match self {
            Token::Num(n) => TokenView::Num(*n),
            Token::Str(s) => TokenView::Str(s@),
            Token::Var(s) => TokenView::Var(s@),
            Token::Bool(b) => TokenView::Bool(*b),
            Token::List(l) => TokenView::List(views_upto(*l, l.len() as nat)),
            Token::Plus => TokenView::Mark(Operator::Plus),
            Token::Minus => TokenView::Mark(Operator::Minus),
            Token::Times => TokenView::Mark(Operator::Times),
            Token::Div => TokenView::Mark(Operator::Div),
            Token::Rem => TokenView::Mark(Operator::Rem),
            Token::Eq => TokenView::Mark(Operator::Eq),
            Token::Ne => TokenView::Mark(Operator::Ne),
            Token::Lt => TokenView::Mark(Operator::Lt),
            Token::Gt => TokenView::Mark(Operator::Gt),
            Token::Le => TokenView::Mark(Operator::Le),
            Token::Ge => TokenView::Mark(Operator::Ge),
            Token::Define => TokenView::Mark(Operator::Define),
            Token::If => TokenView::Mark(Operator::If),
            Token::ListCmd => TokenView::Mark(Operator::ListCmd),
            Token::First => TokenView::Mark(Operator::First),
            Token::Rest => TokenView::Mark(Operator::Rest),
            Token::Sep => TokenView::Sep,
            Token::Print => TokenView::Mark(Operator::Print),
        }
    }
}

proof fn lemma_views_upto(items: Vec<Token>, n: nat)
    requires
        n <= items.len(),
    ensures
        views_upto(items, n) == views(items@.take(n as int)),
    decreases n,
{
    if n == 0 {
    } else {
        lemma_views_upto(items, (n - 1) as nat);
        let shorter = views(items@.take(n - 1));
        let longer = views(items@.take(n as int));
        assert(shorter.push(items[n - 1]@) =~= longer);
    }
}

/// The value of a list token is the list of the values of its items.
pub proof fn lemma_list_view(items: Vec<Token>)
    ensures
        Token::List(items)@ == TokenView::List(views(items@)),
{
    lemma_views_upto(items, items.len() as nat);
    assert(items@.take(items.len() as int) =~= items@);
}

/// What sort of thing a token is.
pub open spec fn kind_of(t: TokenView) -> Kind {
    match t {
        TokenView::Num(_) => Kind::Num,
        TokenView::Str(_) => Kind::Str,
        TokenView::Var(_) => Kind::Var,
        TokenView::Bool(_) => Kind::Bool,
        TokenView::List(l) => if l.len() == 0 {
            Kind::EmptyList
        } else {
            Kind::List
        },
        TokenView::Sep => Kind::Marker,
        TokenView::Mark(_) => Kind::Marker,
    }
}

/// Copies the tokens of `items` from the one at `from` on.
pub fn duplicate_from(items: &Vec<Token>, from: usize) -> (copies: Vec<Token>)
    requires
        from <= items.len(),
    ensures
        views(copies@) == views(items@).skip(from as int),
    decreases items,
{
    let mut copies: Vec<Token> = Vec::new();
    let mut i: usize = from;
    while i < items.len()
        invariant
            from <= i <= items.len(),
            copies@.len() == i - from,
            forall|k: int| 0 <= k < i - from ==> copies@[k]@ == items@[from + k]@,
        decreases items.len() - i,
    {
        proof {
            vstd::std_specs::vec::axiom_vec_index_decreases(*items, i as int);
        }
        let item = items[i].duplicate();
        copies.push(item);
        i += 1;
    }
    copies
}

impl Token {
    /// A copy of the token: values are copied, never shared.
    pub fn duplicate(&self) -> (copy: Token)
        ensures
            copy@ == self@,
        decreases self,
    {
        match self {
            Token::Num(n) => Token::Num(*n),
            Token::Str(s) => Token::Str(s.clone()),
            Token::Var(s) => Token::Var(s.clone()),
            Token::Bool(b) => Token::Bool(*b),
            Token::List(l) => {
                let items = duplicate_from(l, 0);
                assert(views(l@).skip(0) =~= views(l@));
                proof {
                    lemma_list_view(items);
                    lemma_list_view(*l);
                }
                Token::List(items)
            },
            Token::Plus => Token::Plus,
            Token::Minus => Token::Minus,
            Token::Times => Token::Times,
            Token::Div => Token::Div,
            Token::Rem => Token::Rem,
            Token::Eq => Token::Eq,
            Token::Ne => Token::Ne,
            Token::Lt => Token::Lt,
            Token::Gt => Token::Gt,
            Token::Le => Token::Le,
            Token::Ge => Token::Ge,
            Token::Define => Token::Define,
            Token::If => Token::If,
            Token::ListCmd => Token::ListCmd,
            Token::First => Token::First,
            Token::Rest => Token::Rest,
            Token::Sep => Token::Sep,
            Token::Print => Token::Print,
        }
    }

    /// The operator that the token marks, if it marks one.
    pub fn marker(&self) -> (r: Option<Operator>)
        ensures
            r == (match self@ {
                TokenView::Mark(op) => Some(op),
                _ => None,
            }),
    {
        match self {
            Token::Plus => Some(Operator::Plus),
            Token::Minus => Some(Operator::Minus),
            Token::Times => Some(Operator::Times),
            Token::Div => Some(Operator::Div),
            Token::Rem => Some(Operator::Rem),
            Token::Eq => Some(Operator::Eq),
            Token::Ne => Some(Operator::Ne),
            Token::Lt => Some(Operator::Lt),
            Token::Gt => Some(Operator::Gt),
            Token::Le => Some(Operator::Le),
            Token::Ge => Some(Operator::Ge),
            Token::Define => Some(Operator::Define),
            Token::If => Some(Operator::If),
            Token::ListCmd => Some(Operator::ListCmd),
            Token::First => Some(Operator::First),
            Token::Rest => Some(Operator::Rest),
            Token::Print => Some(Operator::Print),
            _ => None,
        }
    }

    /// What sort of thing the token is.
    pub fn kind(&self) -> (k: Kind)
        ensures
            k == kind_of(self@),
    {
        match self {
            Token::Num(_) => Kind::Num,
            Token::Str(_) => Kind::Str,
            Token::Var(_) => Kind::Var,
            Token::Bool(_) => Kind::Bool,
            Token::List(l) => {
                proof {
                    lemma_list_view(*l);
                }
                if l.len() == 0 {
                    Kind::EmptyList
                } else {
                    Kind::List
                }
            },
            _ => Kind::Marker,
        }
    }
}

impl Clone for Token {
    /// A copy of the token, as `duplicate` makes it.
    fn clone(&self) -> (copy: Token)
        ensures
            copy@ == self@,
    {
        self.duplicate()
    }
}

/// The text of a truth value.
pub open spec fn bool_text(b: bool) -> Seq<char> {
    if b {
        "true"@
    } else {
        "false"@
    }
}

/// The text that stands for a value where a name or a result is wanted:
/// numbers, texts and truth values have one, nothing else has.
pub open spec fn rendered(m: NumericModel, t: TokenView) -> Option<Seq<char>> {
    match t {
        TokenView::Num(n) => Some((m.show)(Notation::Display, n)),
        TokenView::Str(s) => Some(s),
        TokenView::Bool(b) => Some(bool_text(b)),
        _ => None,
    }
}

/// The operator that an arithmetic operation is written with.
pub open spec fn operator_of(op: ArithOp) -> Operator {
    match op {
        ArithOp::Add => Operator::Plus,
        ArithOp::Sub => Operator::Minus,
        ArithOp::Mul => Operator::Times,
        ArithOp::Div => Operator::Div,
        ArithOp::Rem => Operator::Rem,
    }
}

/// Arithmetic on two values, `a` the left operand: defined on two numbers,
/// a type violation on anything else.
pub open spec fn arith(m: NumericModel, op: ArithOp, a: TokenView, b: TokenView) -> Result<
    TokenView,
    EvalErrorView,
> {
    match (a, b) {
        (TokenView::Num(x), TokenView::Num(y)) => Ok(TokenView::Num((m.arith)(op, x, y))),
        _ => Err(EvalErrorView::TypeMismatch(operator_of(op), kind_of(a), kind_of(b))),
    }
}

/// Whether the comparison `op` holds of `a` and `b`, `a` the left operand.
/// It is defined on two numbers, two texts and two truth values (`false`
/// before `true`), and for the six comparison operators.
pub open spec fn holds(op: Operator, a: TokenView, b: TokenView) -> Option<bool> {
    match (a, b) {
        (TokenView::Num(x), TokenView::Num(y)) => match op {
            Operator::Eq => Some(num_eq(x, y)),
            Operator::Ne => Some(!num_eq(x, y)),
            Operator::Lt => Some(num_lt(x, y)),
            Operator::Le => Some(num_le(x, y)),
            Operator::Gt => Some(num_lt(y, x)),
            Operator::Ge => Some(num_le(y, x)),
            _ => None,
        },
        (TokenView::Str(x), TokenView::Str(y)) => match op {
            Operator::Eq => Some(x == y),
            Operator::Ne => Some(x != y),
            Operator::Lt => Some(text_lt(x, y)),
            Operator::Le => Some(text_le(x, y)),
            Operator::Gt => Some(text_lt(y, x)),
            Operator::Ge => Some(text_le(y, x)),
            _ => None,
        },
        (TokenView::Bool(x), TokenView::Bool(y)) => match op {
            Operator::Eq => Some(x == y),
            Operator::Ne => Some(x != y),
            Operator::Lt => Some(!x && y),
            Operator::Le => Some(!x || y),
            Operator::Gt => Some(x && !y),
            Operator::Ge => Some(x || !y),
            _ => None,
        },
        _ => None,
    }
}

/// A comparison of two values: a truth value where it is defined, a type
/// violation where it is not.
pub open spec fn compared(op: Operator, a: TokenView, b: TokenView) -> Result<
    TokenView,
    EvalErrorView,
> {
    match holds(op, a, b) {
        Some(v) => Ok(TokenView::Bool(v)),
        None => Err(EvalErrorView::TypeMismatch(op, kind_of(a), kind_of(b))),
    }
}

/// The head of a list that has one.
pub open spec fn head(t: TokenView) -> Option<TokenView> {
    match t {
        TokenView::List(l) => if l.len() > 0 {
            Some(l[0])
        } else {
            None
        },
        _ => None,
    }
}

/// What follows the head of a list that has one.
pub open spec fn tail(t: TokenView) -> Option<Seq<TokenView>> {
    match t {
        TokenView::List(l) => if l.len() > 0 {
            Some(l.drop_first())
        } else {
            None
        },
        _ => None,
    }
}

/// The executable result `r` is the mathematical result `s`.
pub open spec fn same_result(r: Result<Token, EvalError>, s: Result<TokenView, EvalErrorView>) -> bool {
    match s {
        Ok(t) => r matches Ok(x) && x@ == t,
        Err(e) => r matches Err(x) && x@ == e,
    }
}

fn compare(op: Operator, a: &Token, b: &Token) -> (r: Result<Token, EvalError>)
    ensures
        same_result(r, compared(op, a@, b@)),
{
    let verdict: Option<bool> = match (a, b) {
        (Token::Num(x), Token::Num(y)) => match op {
            Operator::Eq => Some(equal(*x, *y)),
            Operator::Ne => Some(!equal(*x, *y)),
            Operator::Lt => Some(less(*x, *y)),
            Operator::Le => Some(at_most(*x, *y)),
            Operator::Gt => Some(less(*y, *x)),
            Operator::Ge => Some(at_most(*y, *x)),
            _ => None,
        },
        (Token::Str(x), Token::Str(y)) => match op {
            Operator::Eq => Some(*x == *y),
            Operator::Ne => Some(!(*x == *y)),
            Operator::Lt => Some(before(x.as_str(), y.as_str())),
            Operator::Le => Some(*x == *y || before(x.as_str(), y.as_str())),
            Operator::Gt => Some(before(y.as_str(), x.as_str())),
            Operator::Ge => Some(*x == *y || before(y.as_str(), x.as_str())),
            _ => None,
        },
        (Token::Bool(x), Token::Bool(y)) => match op {
            Operator::Eq => Some(*x == *y),
            Operator::Ne => Some(*x != *y),
            Operator::Lt => Some(!*x && *y),
            Operator::Le => Some(!*x || *y),
            Operator::Gt => Some(*x && !*y),
            Operator::Ge => Some(*x || !*y),
            _ => None,
        },
        _ => None,
    };
    match verdict {
        Some(v) => Ok(Token::Bool(v)),
        None => Err(EvalError::TypeMismatch(op, a.kind(), b.kind())),
    }
}

fn arithmetic<P, A, S>(op: ArithOp, a: &Token, b: &Token, numerics: &Numerics<P, A, S>) -> (r:
    Result<Token, EvalError>) where
    P: Fn(&str) -> Option<u64>,
    A: Fn(ArithOp, u64, u64) -> u64,
    S: Fn(Notation, u64) -> String,

    requires
        numerics.ready(),
    ensures
        forall|m: NumericModel| #[trigger] numerics.follows(m) ==> same_result(r, arith(m, op, a@, b@)),
        !(a@ is Num && b@ is Num) ==> same_result(r, Err(EvalErrorView::TypeMismatch(operator_of(op), kind_of(a@), kind_of(b@)))),
        a@ is Num && b@ is Num ==> r is Ok && r->Ok_0@ is Num && call_ensures(
            numerics.arith,
            (op, a@->Num_0, b@->Num_0),
            r->Ok_0@->Num_0,
        ),
{
    match (a, b) {
        (Token::Num(x), Token::Num(y)) => {
            let z = (numerics.arith)(op, *x, *y);
            Ok(Token::Num(z))
        },
        _ => {
            let operator = match op {
                ArithOp::Add => Operator::Plus,
                ArithOp::Sub => Operator::Minus,
                ArithOp::Mul => Operator::Times,
                ArithOp::Div => Operator::Div,
                ArithOp::Rem => Operator::Rem,
            };
            Err(EvalError::TypeMismatch(operator, a.kind(), b.kind()))
        },
    }
}

impl Token {
    /// The text of a number, a text or a truth value; `None` for anything
    /// else. The text of a number is what the numeric service writes for it.
    pub fn get_str<P, A, S>(&self, numerics: &Numerics<P, A, S>) -> (r: Option<String>) where
        P: Fn(&str) -> Option<u64>,
        A: Fn(ArithOp, u64, u64) -> u64,
        S: Fn(Notation, u64) -> String,

        requires
            numerics.ready(),
        ensures
            forall|m: NumericModel| #[trigger]
                numerics.follows(m) ==> match rendered(m, self@) {
                    Some(s) => r matches Some(x) && x@ == s,
                    None => r is None,
                },
            r is Some <==> self@ is Num || self@ is Str || self@ is Bool,
            self@ matches TokenView::Str(s) ==> r->Some_0@ == s,
            self@ matches TokenView::Bool(b) ==> r->Some_0@ == bool_text(b),
            self@ matches TokenView::Num(n) ==> call_ensures(
                numerics.show,
                (Notation::Display, n),
                r->Some_0,
            ),
    {
        match self {
            Token::Num(n) => Some((numerics.show)(Notation::Display, *n)),
            Token::Str(s) => Some(s.clone()),
            Token::Bool(b) => if *b {
                Some("true".to_owned())
            } else {
                Some("false".to_owned())
            },
            _ => None,
        }
    }

    /// The sum of two numbers; a type violation for anything else.
    pub fn add<P, A, S>(self, rhs: Token, numerics: &Numerics<P, A, S>) -> (r: Result<
        Token,
        EvalError,
    >) where
        P: Fn(&str) -> Option<u64>,
        A: Fn(ArithOp, u64, u64) -> u64,
        S: Fn(Notation, u64) -> String,

        requires
            numerics.ready(),
        ensures
            forall|m: NumericModel| #[trigger]
                numerics.follows(m) ==> same_result(r, arith(m, ArithOp::Add, self@, rhs@)),
            !(self@ is Num && rhs@ is Num) ==> same_result(
                r,
                Err(
                    EvalErrorView::TypeMismatch(
                        operator_of(ArithOp::Add),
                        kind_of(self@),
                        kind_of(rhs@),
                    ),
                ),
            ),
            self@ is Num && rhs@ is Num ==> r is Ok && r->Ok_0@ is Num && call_ensures(
                numerics.arith,
                (ArithOp::Add, self@->Num_0, rhs@->Num_0),
                r->Ok_0@->Num_0,
            ),
    {
        arithmetic(ArithOp::Add, &self, &rhs, numerics)
    }

    /// The difference of two numbers, `self` less `rhs`; a type violation for anything else.
    pub fn sub<P, A, S>(self, rhs: Token, numerics: &Numerics<P, A, S>) -> (r: Result<
        Token,
        EvalError,
    >) where
        P: Fn(&str) -> Option<u64>,
        A: Fn(ArithOp, u64, u64) -> u64,
        S: Fn(Notation, u64) -> String,

        requires
            numerics.ready(),
        ensures
            forall|m: NumericModel| #[trigger]
                numerics.follows(m) ==> same_result(r, arith(m, ArithOp::Sub, self@, rhs@)),
            !(self@ is Num && rhs@ is Num) ==> same_result(
                r,
                Err(
                    EvalErrorView::TypeMismatch(
                        operator_of(ArithOp::Sub),
                        kind_of(self@),
                        kind_of(rhs@),
                    ),
                ),
            ),
            self@ is Num && rhs@ is Num ==> r is Ok && r->Ok_0@ is Num && call_ensures(
                numerics.arith,
                (ArithOp::Sub, self@->Num_0, rhs@->Num_0),
                r->Ok_0@->Num_0,
            ),
    {
        arithmetic(ArithOp::Sub, &self, &rhs, numerics)
    }

    /// The product of two numbers; a type violation for anything else.
    pub fn mul<P, A, S>(self, rhs: Token, numerics: &Numerics<P, A, S>) -> (r: Result<
        Token,
        EvalError,
    >) where
        P: Fn(&str) -> Option<u64>,
        A: Fn(ArithOp, u64, u64) -> u64,
        S: Fn(Notation, u64) -> String,

        requires
            numerics.ready(),
        ensures
            forall|m: NumericModel| #[trigger]
                numerics.follows(m) ==> same_result(r, arith(m, ArithOp::Mul, self@, rhs@)),
            !(self@ is Num && rhs@ is Num) ==> same_result(
                r,
                Err(
                    EvalErrorView::TypeMismatch(
                        operator_of(ArithOp::Mul),
                        kind_of(self@),
                        kind_of(rhs@),
                    ),
                ),
            ),
            self@ is Num && rhs@ is Num ==> r is Ok && r->Ok_0@ is Num && call_ensures(
                numerics.arith,
                (ArithOp::Mul, self@->Num_0, rhs@->Num_0),
                r->Ok_0@->Num_0,
            ),
    {
        arithmetic(ArithOp::Mul, &self, &rhs, numerics)
    }

    /// The quotient of two numbers, `self` by `rhs`; a type violation for anything else.
    pub fn div<P, A, S>(self, rhs: Token, numerics: &Numerics<P, A, S>) -> (r: Result<
        Token,
        EvalError,
    >) where
        P: Fn(&str) -> Option<u64>,
        A: Fn(ArithOp, u64, u64) -> u64,
        S: Fn(Notation, u64) -> String,

        requires
            numerics.ready(),
        ensures
            forall|m: NumericModel| #[trigger]
                numerics.follows(m) ==> same_result(r, arith(m, ArithOp::Div, self@, rhs@)),
            !(self@ is Num && rhs@ is Num) ==> same_result(
                r,
                Err(
                    EvalErrorView::TypeMismatch(
                        operator_of(ArithOp::Div),
                        kind_of(self@),
                        kind_of(rhs@),
                    ),
                ),
            ),
            self@ is Num && rhs@ is Num ==> r is Ok && r->Ok_0@ is Num && call_ensures(
                numerics.arith,
                (ArithOp::Div, self@->Num_0, rhs@->Num_0),
                r->Ok_0@->Num_0,
            ),
    {
        arithmetic(ArithOp::Div, &self, &rhs, numerics)
    }

    /// The remainder of two numbers, `self` by `rhs`; a type violation for anything else.
    pub fn rem<P, A, S>(self, rhs: Token, numerics: &Numerics<P, A, S>) -> (r: Result<
        Token,
        EvalError,
    >) where
        P: Fn(&str) -> Option<u64>,
        A: Fn(ArithOp, u64, u64) -> u64,
        S: Fn(Notation, u64) -> String,

        requires
            numerics.ready(),
        ensures
            forall|m: NumericModel| #[trigger]
                numerics.follows(m) ==> same_result(r, arith(m, ArithOp::Rem, self@, rhs@)),
            !(self@ is Num && rhs@ is Num) ==> same_result(
                r,
                Err(
                    EvalErrorView::TypeMismatch(
                        operator_of(ArithOp::Rem),
                        kind_of(self@),
                        kind_of(rhs@),
                    ),
                ),
            ),
            self@ is Num && rhs@ is Num ==> r is Ok && r->Ok_0@ is Num && call_ensures(
                numerics.arith,
                (ArithOp::Rem, self@->Num_0, rhs@->Num_0),
                r->Ok_0@->Num_0,
            ),
    {
        arithmetic(ArithOp::Rem, &self, &rhs, numerics)
    }

    /// Whether the two values are equal.
    pub fn eq(self, rhs: Token) -> (r: Result<Token, EvalError>)
        ensures
            same_result(r, compared(Operator::Eq, self@, rhs@)),
    {
        compare(Operator::Eq, &self, &rhs)
    }

    /// Whether the two values differ.
    pub fn ne(self, rhs: Token) -> (r: Result<Token, EvalError>)
        ensures
            same_result(r, compared(Operator::Ne, self@, rhs@)),
    {
        compare(Operator::Ne, &self, &rhs)
    }

    /// Whether `self` is below `rhs`.
    pub fn lt(self, rhs: Token) -> (r: Result<Token, EvalError>)
        ensures
            same_result(r, compared(Operator::Lt, self@, rhs@)),
    {
        compare(Operator::Lt, &self, &rhs)
    }

    /// Whether `self` is at most `rhs`.
    pub fn le(self, rhs: Token) -> (r: Result<Token, EvalError>)
        ensures
            same_result(r, compared(Operator::Le, self@, rhs@)),
    {
        compare(Operator::Le, &self, &rhs)
    }

    /// Whether `self` is above `rhs`.
    pub fn gt(self, rhs: Token) -> (r: Result<Token, EvalError>)
        ensures
            same_result(r, compared(Operator::Gt, self@, rhs@)),
    {
        compare(Operator::Gt, &self, &rhs)
    }

    /// Whether `self` is at least `rhs`.
    pub fn ge(self, rhs: Token) -> (r: Result<Token, EvalError>)
        ensures
            same_result(r, compared(Operator::Ge, self@, rhs@)),
    {
        compare(Operator::Ge, &self, &rhs)
    }

    /// A copy of the head of a list; `None` for an empty list and for
    /// anything that is no list.
    pub fn first(&self) -> (r: Option<Token>)
        ensures
            match head(self@) {
                Some(h) => r matches Some(t) && t@ == h,
                None => r is None,
            },
    {
        match self {
            Token::List(l) => {
                proof {
                    lemma_list_view(*l);
                }
                if l.len() > 0 {
                    Some(l[0].duplicate())
                } else {
                    None
                }
            },
            _ => None,
        }
    }

    /// Copies of the items after the head of a list; `None` for an empty list
    /// and for anything that is no list.
    pub fn rest(&self) -> (r: Option<Vec<Token>>)
        ensures
            match tail(self@) {
                Some(l) => r matches Some(v) && views(v@) == l,
                None => r is None,
            },
    {
        match self {
            Token::List(l) => {
                proof {
                    lemma_list_view(*l);
                }
                if l.len() > 0 {
                    let items = duplicate_from(l, 1);
                    Some(items)
                } else {
                    None
                }
            },
            _ => None,
        }
    }
}

} // verus!
