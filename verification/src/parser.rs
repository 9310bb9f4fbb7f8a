//! The tokenizer and the evaluator.
//!
//! A line is split into lexemes, each lexeme becomes a token, and the tokens
//! are taken in the reverse of the order in which they stand: so the operands
//! of a prefix form come before its operator, and the evaluator can run them
//! through one stack from front to back.

use vstd::prelude::*;
use crate::error::{message, EvalError, EvalErrorView};
use crate::lexer::{arith, compared, head, kind_of, lemma_list_view, rendered, same_result, tail, views};
use crate::lexer::{Kind, Operator, Token, TokenView};
use crate::number::{ArithOp, Notation, NumericModel, Numerics};
use crate::render::{drain, drained, undrained};
use crate::text::{chars_of, lexemes, spells, split, trim_end, trimmed};
use crate::{bindings, env_get, env_insert, UmeEnv};
use std::collections::VecDeque;

verus! {

/// The token that a lexeme of the fixed table stands for: each operator in
/// its symbol and in its word, the two truth values, the keywords, and `;`.
pub open spec fn keyword(lex: Seq<char>) -> Option<TokenView> {
    if lex == "+"@ || lex == "add"@ {
        Some(TokenView::Mark(Operator::Plus))
    } else if lex == "-"@ || lex == "sub"@ {
        Some(TokenView::Mark(Operator::Minus))
    } else if lex == "*"@ || lex == "mul"@ {
        Some(TokenView::Mark(Operator::Times))
    } else if lex == "/"@ || lex == "div"@ {
        Some(TokenView::Mark(Operator::Div))
    } else if lex == "%"@ || lex == "rem"@ {
        Some(TokenView::Mark(Operator::Rem))
    } else if lex == "=="@ || lex == "eq"@ {
        Some(TokenView::Mark(Operator::Eq))
    } else if lex == "!="@ || lex == "ne"@ {
        Some(TokenView::Mark(Operator::Ne))
    } else if lex == "<"@ || lex == "lt"@ {
        Some(TokenView::Mark(Operator::Lt))
    } else if lex == ">"@ || lex == "gt"@ {
        Some(TokenView::Mark(Operator::Gt))
    } else if lex == "<="@ || lex == "le"@ {
        Some(TokenView::Mark(Operator::Le))
    } else if lex == ">="@ || lex == "ge"@ {
        Some(TokenView::Mark(Operator::Ge))
    } else if lex == "true"@ {
        Some(TokenView::Bool(true))
    } else if lex == "false"@ {
        Some(TokenView::Bool(false))
    } else if lex == "if"@ {
        Some(TokenView::Mark(Operator::If))
    } else if lex == "define"@ {
        Some(TokenView::Mark(Operator::Define))
    } else if lex == "list"@ {
        Some(TokenView::Mark(Operator::ListCmd))
    } else if lex == "first"@ {
        Some(TokenView::Mark(Operator::First))
    } else if lex == "rest"@ {
        Some(TokenView::Mark(Operator::Rest))
    } else if lex == "print"@ {
        Some(TokenView::Mark(Operator::Print))
    } else if lex == ";"@ {
        Some(TokenView::Sep)
    } else {
        None
    }
}

/// The token of a lexeme that is no keyword, given what reading it as a
/// number gave: a number if that gave one, else a variable if it starts
/// with `$`, else a text.
pub open spec fn literal(lex: Seq<char>, parsed: Option<u64>) -> TokenView {
    match parsed {
        Some(n) => TokenView::Num(n),
        None => if lex.len() > 0 && lex[0] == '$' {
            TokenView::Var(lex)
        } else {
            TokenView::Str(lex)
        },
    }
}

/// The token of a lexeme.
pub open spec fn token_of(m: NumericModel, lex: Seq<char>) -> TokenView {
    match keyword(lex) {
        Some(t) => t,
        None => literal(lex, (m.parse)(lex)),
    }
}

/// What holds of the token of a lexeme whatever the numeric service says:
/// a keyword gives its token, and nothing else gives a marker.
pub open spec fn token_fits(lex: Seq<char>, t: TokenView) -> bool {
    match keyword(lex) {
        Some(k) => t == k,
        None => t is Num || t == literal(lex, None),
    }
}

/// The tokens of a sequence of lexemes: the token of the last lexeme first.
pub open spec fn tokens_of(m: NumericModel, words: Seq<Seq<char>>) -> Seq<TokenView> {
    Seq::new(words.len(), |i: int| token_of(m, words[words.len() - 1 - i]))
}

/// The tokens of a line, in the order in which the evaluator takes them.
pub open spec fn tokens(m: NumericModel, line: Seq<char>) -> Seq<TokenView> {
    tokens_of(m, lexemes(line))
}

fn keyword_of(chars: &Vec<char>) -> (r: Option<Token>)
    ensures
        match keyword(chars@) {
            Some(t) => r matches Some(x) && x@ == t,
            None => r is None,
        },
{
    if spells(chars, "+") || spells(chars, "add") {
        Some(Token::Plus)
    } else if spells(chars, "-") || spells(chars, "sub") {
        Some(Token::Minus)
    } else if spells(chars, "*") || spells(chars, "mul") {
        Some(Token::Times)
    } else if spells(chars, "/") || spells(chars, "div") {
        Some(Token::Div)
    } else if spells(chars, "%") || spells(chars, "rem") {
        Some(Token::Rem)
    } else if spells(chars, "==") || spells(chars, "eq") {
        Some(Token::Eq)
    } else if spells(chars, "!=") || spells(chars, "ne") {
        Some(Token::Ne)
    } else if spells(chars, "<") || spells(chars, "lt") {
        Some(Token::Lt)
    } else if spells(chars, ">") || spells(chars, "gt") {
        Some(Token::Gt)
    } else if spells(chars, "<=") || spells(chars, "le") {
        Some(Token::Le)
    } else if spells(chars, ">=") || spells(chars, "ge") {
        Some(Token::Ge)
    } else if spells(chars, "true") {
        Some(Token::Bool(true))
    } else if spells(chars, "false") {
        Some(Token::Bool(false))
    } else if spells(chars, "if") {
        Some(Token::If)
    } else if spells(chars, "define") {
        Some(Token::Define)
    } else if spells(chars, "list") {
        Some(Token::ListCmd)
    } else if spells(chars, "first") {
        Some(Token::First)
    } else if spells(chars, "rest") {
        Some(Token::Rest)
    } else if spells(chars, "print") {
        Some(Token::Print)
    } else if spells(chars, ";") {
        Some(Token::Sep)
    } else {
        None
    }
}

/// Reads a text as a number, by the numeric service.
pub fn try_to_number<P, A, S>(s: &str, numerics: &Numerics<P, A, S>) -> (r: Option<u64>) where
    P: Fn(&str) -> Option<u64>,
    A: Fn(ArithOp, u64, u64) -> u64,
    S: Fn(Notation, u64) -> String,

    requires
        numerics.ready(),
    ensures
        call_ensures(numerics.parse, (s,), r),
        forall|m: NumericModel| #[trigger] numerics.follows(m) ==> r == (m.parse)(s@),
{
    (numerics.parse)(s)
}

/// The token of a lexeme that is no keyword, given what reading it as a
/// number gave.
pub fn literal_token(lexem: &str, parsed: Option<u64>) -> (t: Token)
    ensures
        t@ == literal(lexem@, parsed),
{
    match parsed {
        Some(n) => Token::Num(n),
        None => {
            let chars = chars_of(lexem);
            if chars.len() > 0 && chars[0] == '$' {
                Token::Var(lexem.to_owned())
            } else {
                Token::Str(lexem.to_owned())
            }
        },
    }
}

/// The token of a lexeme.
pub fn to_token<P, A, S>(lexem: &str, numerics: &Numerics<P, A, S>) -> (t: Token) where
    P: Fn(&str) -> Option<u64>,
    A: Fn(ArithOp, u64, u64) -> u64,
    S: Fn(Notation, u64) -> String,

    requires
        numerics.ready(),
    ensures
        forall|m: NumericModel| #[trigger] numerics.follows(m) ==> t@ == token_of(m, lexem@),
        token_fits(lexem@, t@),
        keyword(lexem@) is None ==> exists|parsed: Option<u64>|
            call_ensures(numerics.parse, (lexem,), parsed) && t@ == literal(lexem@, parsed),
{
    let chars = chars_of(lexem);
    match keyword_of(&chars) {
        Some(t) => t,
        None => {
            let parsed = try_to_number(lexem, numerics);
            literal_token(lexem, parsed)
        },
    }
}

/// The tokens of a line, the token of its last lexeme first.
pub fn tokenize<P, A, S>(expr: &str, numerics: &Numerics<P, A, S>) -> (r: VecDeque<Token>) where
    P: Fn(&str) -> Option<u64>,
    A: Fn(ArithOp, u64, u64) -> u64,
    S: Fn(Notation, u64) -> String,

    requires
        numerics.ready(),
    ensures
        forall|m: NumericModel| #[trigger] numerics.follows(m) ==> views(r@) == tokens(m, expr@),
        r@.len() == lexemes(expr@).len(),
        forall|i: int|
            0 <= i < r@.len() ==> token_fits(
                lexemes(expr@)[r@.len() - 1 - i],
                #[trigger] r@[i]@,
            ),
{
    let words = split(expr);
    let mut r: VecDeque<Token> = VecDeque::new();
    let mut k: usize = 0;
    while k < words.len()
        invariant
            numerics.ready(),
            k <= words.len(),
            words@.len() == lexemes(expr@).len(),
            forall|j: int| 0 <= j < words@.len() ==> (#[trigger] words@[j])@ == lexemes(expr@)[j],
            r@.len() == k,
            forall|i: int| 0 <= i < k ==> token_fits(lexemes(expr@)[k - 1 - i], #[trigger] r@[i]@),
            forall|m: NumericModel| #[trigger]
                numerics.follows(m) ==> forall|i: int|
                    0 <= i < k ==> r@[i]@ == token_of(m, lexemes(expr@)[k - 1 - i]),
        decreases words.len() - k,
    {
        let t = to_token(words[k].as_str(), numerics);
        r.push_front(t);
        k += 1;
    }
    r
}

/// A variable without its sigil: the text without its first character.
pub open spec fn unsigiled(var: Seq<char>) -> Seq<char> {
    if var.len() > 0 {
        var.drop_first()
    } else {
        var
    }
}

/// The name that a variable refers to: the text without its sigil.
pub fn v2v(var: &str) -> (name: String)
    ensures
        name@ == unsigiled(var@),
{
    let chars = chars_of(var);
    let mut name = String::new();
    let mut i: usize = 1;
    while i < chars.len()
        invariant
            1 <= i,
            i <= chars.len() || chars.len() == 0,
            chars.len() > 0 ==> name@ == chars@.subrange(1, i as int),
            chars.len() == 0 ==> name@ == chars@,
        decreases chars.len() - i,
    {
        name.push(chars[i]);
        i += 1;
    }
    name
}

/// Takes the two topmost tokens off the stack, the top one first. With
/// fewer than two on it, the stack is emptied and nothing is returned.
pub fn pop2(stk: &mut Vec<Token>) -> (r: Option<(Token, Token)>)
    ensures
        old(stk)@.len() >= 2 ==> r == Some(
            (old(stk)@[old(stk)@.len() - 1], old(stk)@[old(stk)@.len() - 2]),
        ) && final(stk)@ == old(stk)@.take(old(stk)@.len() - 2),
        old(stk)@.len() < 2 ==> r is None && final(stk)@.len() == 0,
{
    let first = stk.pop();
    let second = stk.pop();
    match (first, second) {
        (Some(tk1), Some(tk2)) => {
            Some((tk1, tk2))
        },
        _ => None,
    }
}

/// The items that `list` gathers from a stack: the tokens from the top down
/// to the first separator, or all of them where there is none.
pub open spec fn listed(stack: Seq<TokenView>) -> Seq<TokenView>
    decreases stack.len(),
{
    if stack.len() == 0 || stack.last() is Sep {
        Seq::empty()
    } else {
        seq![stack.last()] + listed(stack.drop_last())
    }
}

/// What `list` leaves of a stack: what lies below the first separator from
/// the top. The separator is taken off too.
pub open spec fn below_list(stack: Seq<TokenView>) -> Seq<TokenView>
    decreases stack.len(),
{
    if stack.len() == 0 {
        stack
    } else if stack.last() is Sep {
        stack.drop_last()
    } else {
        below_list(stack.drop_last())
    }
}

/// Takes tokens off the stack down to the first separator, which goes too,
/// or until the stack is empty, and returns them in the order taken.
pub fn to_list(stk: &mut Vec<Token>) -> (list: Vec<Token>)
    ensures
        views(list@) == listed(views(old(stk)@)),
        views(final(stk)@) == below_list(views(old(stk)@)),
{
    let ghost start = views(stk@);
    let mut list: Vec<Token> = Vec::new();
    loop
        invariant_except_break
            views(list@) + listed(views(stk@)) == listed(start),
            below_list(views(stk@)) == below_list(start),
        ensures
            views(list@) == listed(start),
            views(stk@) == below_list(start),
        decreases stk.len(),
    {
        let ghost before = views(stk@);
        match stk.pop() {
            Some(tk) => {
                assert(views(stk@) =~= before.drop_last());
                match tk {
                    Token::Sep => {
                        break ;
                    },
                    _ => {
                        list.push(tk);
                    },
                }
            },
            None => {
                break ;
            },
        }
    }
    list
}

/// What the evaluator holds between two tokens: the operand stack, its top
/// last, and the environment.
pub ghost struct State {
    pub stack: Seq<TokenView>,
    pub env: Map<Seq<char>, TokenView>,
}

/// The value of a binary operator on two operands, `a` the one that stands
/// first in the text: arithmetic for the five arithmetic operators, a
/// comparison for the six others.
pub open spec fn binary(m: NumericModel, op: Operator, a: TokenView, b: TokenView) -> Result<
    TokenView,
    EvalErrorView,
> {
    match op {
        Operator::Plus => arith(m, ArithOp::Add, a, b),
        Operator::Minus => arith(m, ArithOp::Sub, a, b),
        Operator::Times => arith(m, ArithOp::Mul, a, b),
        Operator::Div => arith(m, ArithOp::Div, a, b),
        Operator::Rem => arith(m, ArithOp::Rem, a, b),
        _ => compared(op, a, b),
    }
}

/// Whether the operator is one of the eleven that take two operands and
/// give one value.
pub open spec fn is_binary(op: Operator) -> bool {
    match op {
        Operator::Plus | Operator::Minus | Operator::Times | Operator::Div | Operator::Rem
        | Operator::Eq | Operator::Ne | Operator::Lt | Operator::Gt | Operator::Le
        | Operator::Ge => true,
        _ => false,
    }
}

/// What an operator does to the state. The operands lie on the stack in the
/// reverse of their order in the text: the one that stands first is on top.
pub open spec fn operate(m: NumericModel, op: Operator, st: State) -> Result<State, EvalErrorView> {
    let stack = st.stack;
    let n = stack.len() as int;
    match op {
        Operator::Define => if n < 2 {
            Err(EvalErrorView::OperandMissing(op))
        } else {
            match rendered(m, stack[n - 1]) {
                Some(name) => Ok(
                    State { stack: stack.take(n - 2), env: st.env.insert(name, stack[n - 2]) },
                ),
                None => Err(
                    EvalErrorView::TypeMismatch(op, kind_of(stack[n - 1]), kind_of(stack[n - 2])),
                ),
            }
        },
        Operator::If => if n < 1 {
            Err(EvalErrorView::OperandMissing(op))
        } else {
            match stack[n - 1] {
                TokenView::Bool(true) => if n < 3 {
                    Err(EvalErrorView::OperandMissing(op))
                } else {
                    Ok(State { stack: stack.take(n - 3).push(stack[n - 2]), env: st.env })
                },
                TokenView::Bool(false) => if n < 2 {
                    Err(EvalErrorView::OperandMissing(op))
                } else {
                    Ok(State { stack: stack.take(n - 2), env: st.env })
                },
                other => Err(EvalErrorView::TypeMismatch(op, kind_of(other), Kind::Nothing)),
            }
        },
        Operator::ListCmd => Ok(
            State { stack: below_list(stack).push(TokenView::List(listed(stack))), env: st.env },
        ),
        Operator::First => if n < 1 {
            Err(EvalErrorView::StructuralMisuse(op, Kind::Nothing))
        } else {
            match head(stack[n - 1]) {
                Some(h) => Ok(State { stack: stack.take(n - 1).push(h), env: st.env }),
                None => Err(EvalErrorView::StructuralMisuse(op, kind_of(stack[n - 1]))),
            }
        },
        Operator::Rest => if n < 1 {
            Err(EvalErrorView::StructuralMisuse(op, Kind::Nothing))
        } else {
            match tail(stack[n - 1]) {
                Some(l) => Ok(
                    State { stack: stack.take(n - 1).push(TokenView::List(l)), env: st.env },
                ),
                None => Err(EvalErrorView::StructuralMisuse(op, kind_of(stack[n - 1]))),
            }
        },
        Operator::Print => Ok(
            State { stack: undrained(stack).push(TokenView::Str(drained(m, stack))), env: st.env },
        ),
        _ => if n < 2 {
            Err(EvalErrorView::OperandMissing(op))
        } else {
            match binary(m, op, stack[n - 1], stack[n - 2]) {
                Ok(v) => Ok(State { stack: stack.take(n - 2).push(v), env: st.env }),
                Err(e) => Err(e),
            }
        },
    }
}

/// What a text in the token sequence is pushed as, given what reading it as
/// a number gave: that number if it gave one, the text as it is if not.
pub open spec fn retyped(text: Seq<char>, parsed: Option<u64>) -> TokenView {
    match parsed {
        Some(n) => TokenView::Num(n),
        None => TokenView::Str(text),
    }
}

/// What one token does to the state: a value is pushed, a text that reads
/// as a number is pushed as that number, a variable is replaced by the value
/// bound to its name, an operator works on the stack. A list in the token
/// sequence is passed over.
pub open spec fn transition(m: NumericModel, tok: TokenView, st: State) -> Result<
    State,
    EvalErrorView,
> {
    match tok {
        TokenView::Num(_) | TokenView::Bool(_) | TokenView::Sep => Ok(
            State { stack: st.stack.push(tok), env: st.env },
        ),
        TokenView::Str(s) => Ok(
            State { stack: st.stack.push(retyped(s, (m.parse)(s))), env: st.env },
        ),
        TokenView::Var(var) => if st.env.contains_key(unsigiled(var)) {
            Ok(State { stack: st.stack.push(st.env[unsigiled(var)]), env: st.env })
        } else {
            Err(EvalErrorView::UnboundVariable(unsigiled(var)))
        },
        TokenView::List(_) => Ok(st),
        TokenView::Mark(op) => operate(m, op, st),
    }
}

/// Whether the operator is one of the five that compute on numbers.
pub open spec fn is_arithmetic(op: Operator) -> bool {
    match op {
        Operator::Plus | Operator::Minus | Operator::Times | Operator::Div | Operator::Rem => true,
        _ => false,
    }
}

/// Whether the transition of a token on a stack asks the numeric service
/// for anything: reading a text, arithmetic on two numbers, the name of a
/// number that `define` takes as a key, and `print`, which may write
/// numbers, do.
pub open spec fn consults(tok: TokenView, stack: Seq<TokenView>) -> bool {
    let n = stack.len() as int;
    match tok {
        TokenView::Str(_) => true,
        TokenView::Mark(Operator::Print) => true,
        TokenView::Mark(Operator::Define) => n >= 2 && stack[n - 1] is Num,
        TokenView::Mark(op) => is_arithmetic(op) && n >= 2 && stack[n - 1] is Num && stack[n
            - 2] is Num,
        _ => false,
    }
}

/// The executable outcome of a step is what the transition gives: on
/// success the new stack and environment, on failure the error, with the
/// environment as it was.
pub open spec fn step_agrees(
    r: Result<(), EvalError>,
    stack: Seq<Token>,
    env: UmeEnv,
    env_before: UmeEnv,
    expected: Result<State, EvalErrorView>,
) -> bool {
    match expected {
        Ok(next) => r is Ok && views(stack) == next.stack && bindings(env) == next.env,
        Err(e) => r matches Err(x) && x@ == e && bindings(env) == bindings(env_before),
    }
}

/// The token that a text in the token sequence is pushed as, given what
/// reading it as a number gave.
pub fn retyped_token(text: &str, parsed: Option<u64>) -> (t: Token)
    ensures
        t@ == retyped(text@, parsed),
{
    match parsed {
        Some(n) => Token::Num(n),
        None => Token::Str(text.to_owned()),
    }
}

/// The step failed, with this error.
pub open spec fn fails_with(r: Result<(), EvalError>, e: EvalErrorView) -> bool {
    r matches Err(x) && x@ == e
}

fn apply_binary<P, A, S>(op: Operator, x: Token, y: Token, numerics: &Numerics<P, A, S>) -> (r:
    Result<Token, EvalError>) where
    P: Fn(&str) -> Option<u64>,
    A: Fn(ArithOp, u64, u64) -> u64,
    S: Fn(Notation, u64) -> String,

    requires
        numerics.ready(),
        is_binary(op),
    ensures
        forall|m: NumericModel| #[trigger]
            numerics.follows(m) ==> same_result(r, binary(m, op, x@, y@)),
        !(is_arithmetic(op) && x@ is Num && y@ is Num) ==> forall|m: NumericModel|
            same_result(r, #[trigger] binary(m, op, x@, y@)),
{
    match op {
        Operator::Plus => x.add(y, numerics),
        Operator::Minus => x.sub(y, numerics),
        Operator::Times => x.mul(y, numerics),
        Operator::Div => x.div(y, numerics),
        Operator::Rem => x.rem(y, numerics),
        Operator::Eq => x.eq(y),
        Operator::Ne => x.ne(y),
        Operator::Lt => x.lt(y),
        Operator::Gt => x.gt(y),
        Operator::Le => x.le(y),
        _ => x.ge(y),
    }
}

/// Runs one token through the evaluator.
///
/// Where the numeric service follows a model, the step is the transition
/// under that model; where the transition asks the service for nothing, the
/// step is the transition under every model. Whatever the numeric service
/// answers, only `define` changes the
/// environment, no name ever loses its binding, a failure leaves the
/// environment as it was and of the stack what lay below the operands it
/// took off, a variable without a binding fails as unbound, and a binary
/// operator with fewer than two operands fails for want of them.
pub fn step<P, A, S>(
    tk: &Token,
    stack: &mut Vec<Token>,
    env: &mut UmeEnv,
    numerics: &Numerics<P, A, S>,
) -> (r: Result<(), EvalError>) where
    P: Fn(&str) -> Option<u64>,
    A: Fn(ArithOp, u64, u64) -> u64,
    S: Fn(Notation, u64) -> String,

    requires
        numerics.ready(),
    ensures
        forall|m: NumericModel| #[trigger]
            numerics.follows(m) ==> step_agrees(
                r,
                final(stack)@,
                *final(env),
                *old(env),
                transition(m, tk@, State { stack: views(old(stack)@), env: bindings(*old(env)) }),
            ),
        !consults(tk@, views(old(stack)@)) ==> forall|m: NumericModel|
            step_agrees(
                r,
                final(stack)@,
                *final(env),
                *old(env),
                #[trigger] transition(
                    m,
                    tk@,
                    State { stack: views(old(stack)@), env: bindings(*old(env)) },
                ),
            ),
        tk@ != TokenView::Mark(Operator::Define) ==> bindings(*final(env)) == bindings(*old(env)),
        r is Err ==> bindings(*final(env)) == bindings(*old(env)),
        r is Err ==> final(stack)@.is_prefix_of(old(stack)@),
        forall|name: Seq<char>|
            bindings(*old(env)).contains_key(name) ==> bindings(*final(env)).contains_key(name),
        tk@ matches TokenView::Var(var) ==> (!bindings(*old(env)).contains_key(unsigiled(var))
            ==> fails_with(r, EvalErrorView::UnboundVariable(unsigiled(var)))),
        tk@ matches TokenView::Mark(op) ==> (is_binary(op) && old(stack)@.len() < 2 ==> fails_with(
            r,
            EvalErrorView::OperandMissing(op),
        )),
{
    let ghost before = views(stack@);
    let ghost n = before.len() as int;
    match tk {
        Token::Num(_) | Token::Bool(_) | Token::Sep => {
            stack.push(tk.duplicate());
            assert(views(stack@) =~= before.push(tk@));
            Ok(())
        },
        Token::Str(s) => {
            let parsed = try_to_number(s.as_str(), numerics);
            let value = retyped_token(s.as_str(), parsed);
            stack.push(value);
            assert(views(stack@) =~= before.push(value@));
            Ok(())
        },
        Token::Var(var) => {
            let name = v2v(var.as_str());
            match env_get(env, name.as_str()) {
                Some(bound) => {
                    let copy = bound.duplicate();
                    stack.push(copy);
                    assert(views(stack@) =~= before.push(bindings(*env)[name@]));
                    Ok(())
                },
                None => Err(EvalError::UnboundVariable(name)),
            }
        },
        Token::List(_) => Ok(()),
        Token::Define => {
            match pop2(stack) {
                None => Err(EvalError::OperandMissing(Operator::Define)),
                Some((key, value)) => {
                    assert(views(stack@) =~= before.take(n - 2));
                    match key.get_str(numerics) {
                        Some(name) => {
                            env_insert(env, name, value);
                            Ok(())
                        },
                        None => Err(
                            EvalError::TypeMismatch(Operator::Define, key.kind(), value.kind()),
                        ),
                    }
                },
            }
        },
        Token::If => {
            match stack.pop() {
                None => Err(EvalError::OperandMissing(Operator::If)),
                Some(Token::Bool(true)) => {
                    match pop2(stack) {
                        None => Err(EvalError::OperandMissing(Operator::If)),
                        Some((chosen, _)) => {
                            stack.push(chosen);
                            assert(views(stack@) =~= before.take(n - 3).push(before[n - 2]));
                            Ok(())
                        },
                    }
                },
                Some(Token::Bool(false)) => {
                    match stack.pop() {
                        None => Err(EvalError::OperandMissing(Operator::If)),
                        Some(_) => {
                            assert(views(stack@) =~= before.take(n - 2));
                            Ok(())
                        },
                    }
                },
                Some(other) => Err(
                    EvalError::TypeMismatch(Operator::If, other.kind(), Kind::Nothing),
                ),
            }
        },
        Token::ListCmd => {
            let list = to_list(stack);
            let ghost below = views(stack@);
            proof {
                lemma_list_view(list);
            }
            stack.push(Token::List(list));
            assert(views(stack@) =~= below.push(TokenView::List(listed(before))));
            Ok(())
        },
        Token::First => {
            match stack.pop() {
                None => Err(EvalError::StructuralMisuse(Operator::First, Kind::Nothing)),
                Some(list) => {
                    match list.first() {
                        Some(h) => {
                            stack.push(h);
                            assert(views(stack@) =~= before.take(n - 1).push(h@));
                            Ok(())
                        },
                        None => Err(EvalError::StructuralMisuse(Operator::First, list.kind())),
                    }
                },
            }
        },
        Token::Rest => {
            match stack.pop() {
                None => Err(EvalError::StructuralMisuse(Operator::Rest, Kind::Nothing)),
                Some(list) => {
                    match list.rest() {
                        Some(items) => {
                            proof {
                                lemma_list_view(items);
                            }
                            stack.push(Token::List(items));
                            assert(views(stack@) =~= before.take(n - 1).push(
                                TokenView::List(views(items@)),
                            ));
                            Ok(())
                        },
                        None => Err(EvalError::StructuralMisuse(Operator::Rest, list.kind())),
                    }
                },
            }
        },
        Token::Print => {
            let text = drain(stack, numerics);
            let ghost below = views(stack@);
            stack.push(Token::Str(text));
            assert(views(stack@) =~= below.push(TokenView::Str(text@)));
            Ok(())
        },
        _ => {
            match tk.marker() {
                None => Ok(()),
                Some(op) => {
                    match pop2(stack) {
                        None => Err(EvalError::OperandMissing(op)),
                        Some((x, y)) => {
                            match apply_binary(op, x, y, numerics) {
                                Ok(v) => {
                                    stack.push(v);
                                    assert(views(stack@) =~= before.take(n - 2).push(v@));
                                    Ok(())
                                },
                                Err(e) => Err(e),
                            }
                        },
                    }
                },
            }
        },
    }
}

/// How an evaluation ends: with the text it gives or the failure that
/// stopped it, and with the environment as the call leaves it.
pub ghost struct Outcome {
    pub result: Result<Seq<char>, EvalErrorView>,
    pub env: Map<Seq<char>, TokenView>,
}

/// Runs the tokens through the evaluator, one after the other. The first
/// failure stops the run; what the tokens before it bound stays bound.
pub open spec fn run(m: NumericModel, toks: Seq<TokenView>, st: State) -> (Result<
    Seq<TokenView>,
    EvalErrorView,
>, Map<Seq<char>, TokenView>)
    decreases toks.len(),
{
    if toks.len() == 0 {
        (Ok(st.stack), st.env)
    } else {
        match transition(m, toks[0], st) {
            Ok(next) => run(m, toks.drop_first(), next),
            Err(e) => (Err(e), st.env),
        }
    }
}

/// The evaluation of a line against an environment: the tokens of the line
/// are run from an empty stack, and what is then on the stack is drained and
/// trimmed at its end.
pub open spec fn evaluation(m: NumericModel, line: Seq<char>, env: Map<Seq<char>, TokenView>) -> Outcome {
    let (end, env_after) = run(m, tokens(m, line), State { stack: Seq::empty(), env });
    Outcome {
        result: match end {
            Ok(stack) => Ok(trim_end(drained(m, stack))),
            Err(e) => Err(e),
        },
        env: env_after,
    }
}

/// What the caller of the evaluator is shown: the text of a success, the
/// message of a failure.
pub open spec fn report(result: Result<Seq<char>, EvalErrorView>) -> Seq<char> {
    match result {
        Ok(s) => s,
        Err(e) => message(e),
    }
}

/// The executable result `r` is the mathematical result `s`.
pub open spec fn same_text(r: Result<String, EvalError>, s: Result<Seq<char>, EvalErrorView>) -> bool {
    match s {
        Ok(t) => r matches Ok(x) && x@ == t,
        Err(e) => r matches Err(x) && x@ == e,
    }
}

/// The line has no lexeme `define`: evaluating it binds nothing.
pub open spec fn define_free(line: Seq<char>) -> bool {
    !lexemes(line).contains("define"@)
}

/// Evaluates a line against the environment: the text that it gives, or the
/// failure that stopped it.
///
/// Whatever the numeric service answers, no name loses its binding, and a
/// line without `define` leaves the environment as it was.
pub fn evaluate<P, A, S>(text: &str, env: &mut UmeEnv, numerics: &Numerics<P, A, S>) -> (r: Result<
    String,
    EvalError,
>) where
    P: Fn(&str) -> Option<u64>,
    A: Fn(ArithOp, u64, u64) -> u64,
    S: Fn(Notation, u64) -> String,

    requires
        numerics.ready(),
    ensures
        forall|m: NumericModel| #[trigger]
            numerics.follows(m) ==> same_text(
                r,
                evaluation(m, text@, bindings(*old(env))).result,
            ) && bindings(*final(env)) == evaluation(m, text@, bindings(*old(env))).env,
        forall|name: Seq<char>|
            bindings(*old(env)).contains_key(name) ==> bindings(*final(env)).contains_key(name),
        define_free(text@) ==> bindings(*final(env)) == bindings(*old(env)),
{
    let sequence = tokenize(text, numerics);
    let mut stack: Vec<Token> = Vec::new();
    let ghost env0 = bindings(*env);
    let ghost toks = sequence@;
    let mut i: usize = 0;
    proof {
        assert(views(stack@) =~= Seq::<TokenView>::empty());
        assert(views(toks).skip(0) =~= views(toks));
    }
    while i < sequence.len()
        invariant
            numerics.ready(),
            i <= sequence.len(),
            sequence@ == toks,
            env0 == bindings(*old(env)),
            toks.len() == lexemes(text@).len(),
            forall|m: NumericModel| #[trigger]
                numerics.follows(m) ==> views(toks) == tokens(m, text@),
            forall|k: int|
                0 <= k < toks.len() ==> token_fits(
                    lexemes(text@)[toks.len() - 1 - k],
                    #[trigger] toks[k]@,
                ),
            forall|m: NumericModel| #[trigger]
                numerics.follows(m) ==> run(
                    m,
                    views(toks),
                    State { stack: Seq::empty(), env: env0 },
                ) == run(
                    m,
                    views(toks).skip(i as int),
                    State { stack: views(stack@), env: bindings(*env) },
                ),
            forall|name: Seq<char>| env0.contains_key(name) ==> bindings(*env).contains_key(name),
            define_free(text@) ==> bindings(*env) == env0,
        decreases sequence.len() - i,
    {
        let ghost rest = views(toks).skip(i as int);
        proof {
            assert(rest.drop_first() =~= views(toks).skip(i + 1));
            let lex = lexemes(text@)[toks.len() - 1 - i];
            if toks[i as int]@ == TokenView::Mark(Operator::Define) {
            }
        }
        match step(&sequence[i], &mut stack, env, numerics) {
            Ok(()) => {},
            Err(e) => {
                return Err(e);
            },
        }
        i += 1;
    }
    let text = drain(&mut stack, numerics);
    Ok(trimmed(text.as_str()))
}

/// Evaluates a line against the environment and says how it went: the text
/// that the line gives, or the message of the failure that stopped it.
///
/// Whatever the numeric service answers, no name loses its binding, and a
/// line without `define` leaves the environment as it was.
pub fn eval<P, A, S>(text: &str, env: &mut UmeEnv, numerics: &Numerics<P, A, S>) -> (shown:
    String) where
    P: Fn(&str) -> Option<u64>,
    A: Fn(ArithOp, u64, u64) -> u64,
    S: Fn(Notation, u64) -> String,

    requires
        numerics.ready(),
    ensures
        forall|m: NumericModel| #[trigger]
            numerics.follows(m) ==> shown@ == report(
                evaluation(m, text@, bindings(*old(env))).result,
            ) && bindings(*final(env)) == evaluation(m, text@, bindings(*old(env))).env,
        forall|name: Seq<char>|
            bindings(*old(env)).contains_key(name) ==> bindings(*final(env)).contains_key(name),
        define_free(text@) ==> bindings(*final(env)) == bindings(*old(env)),
{
    match evaluate(text, env, numerics) {
        Ok(s) => s,
        Err(e) => e.message(),
    }
}

} // verus!
