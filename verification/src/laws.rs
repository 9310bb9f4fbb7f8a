//! What holds of the evaluator as a whole, proved from its definition.

use vstd::prelude::*;
use crate::error::{message, EvalErrorView};
use crate::lexer::{rendered, Operator, TokenView};
use crate::number::{is_nan, num_eq, num_lt, NumericModel};
use crate::parser::{below_list, binary, consults, define_free, evaluation, is_binary, listed};
use crate::parser::{run, tokens, transition, unsigiled, State};
use crate::text::{is_separator, is_whitespace, lexemes, lexemes_after, not_separator};
use crate::text::{text_lt, trim_end, word_characters};

verus! {

proof fn lemma_lexemes_after(cur: Seq<char>, rest: Seq<char>, k: int)
    requires
        forall|i: int| 0 <= i < cur.len() ==> !is_separator(cur[i]),
        0 <= k < lexemes_after(cur, rest).len(),
    ensures
        lexemes_after(cur, rest)[k].len() > 0,
        forall|i: int|
            0 <= i < lexemes_after(cur, rest)[k].len() ==> !is_separator(
                #[trigger] lexemes_after(cur, rest)[k][i],
            ),
    decreases rest.len(),
{
    let done = if cur.len() == 0 {
        Seq::<Seq<char>>::empty()
    } else {
        seq![cur]
    };
    if rest.len() == 0 {
    } else if is_separator(rest[0]) {
        if k >= done.len() {
            lemma_lexemes_after(Seq::empty(), rest.drop_first(), k - done.len());
        }
    } else {
        lemma_lexemes_after(cur.push(rest[0]), rest.drop_first(), k);
    }
}

/// Every lexeme of a line has at least one character, and none of its
/// characters is whitespace or a parenthesis.
pub proof fn law_lexemes_are_words(line: Seq<char>, k: int)
    requires
        0 <= k < lexemes(line).len(),
    ensures
        lexemes(line)[k].len() > 0,
        forall|i: int|
            0 <= i < lexemes(line)[k].len() ==> !is_separator(#[trigger] lexemes(line)[k][i]),
{
    lemma_lexemes_after(Seq::empty(), line, k);
}

proof fn lemma_lexemes_flatten(cur: Seq<char>, rest: Seq<char>)
    ensures
        lexemes_after(cur, rest).flatten() == cur + word_characters(rest),
    decreases rest.len(),
{
    let done = if cur.len() == 0 {
        Seq::<Seq<char>>::empty()
    } else {
        seq![cur]
    };
    assert(done.flatten() =~= cur) by {
        if cur.len() > 0 {
            done.lemma_flatten_singleton();
        }
    }
    if rest.len() == 0 {
        assert(lexemes_after(cur, rest).flatten() =~= cur + word_characters(rest));
    } else {
        let tail = rest.drop_first();
        assert(rest =~= seq![rest[0]] + tail);
        tail.lemma_filter_prepend(rest[0], not_separator());
        if is_separator(rest[0]) {
            lemma_lexemes_flatten(Seq::empty(), tail);
            vstd::seq_lib::lemma_flatten_concat(done, lexemes_after(Seq::empty(), tail));
            assert(lexemes_after(cur, rest).flatten() =~= cur + word_characters(rest));
        } else {
            lemma_lexemes_flatten(cur.push(rest[0]), tail);
            assert(lexemes_after(cur, rest).flatten() =~= cur + word_characters(rest));
        }
    }
}

/// The lexemes of a line hold every character of the line that is no
/// separator, once and in order: put end to end, they are the line without
/// its separators.
pub proof fn law_lexemes_keep_every_character(line: Seq<char>)
    ensures
        lexemes(line).flatten() == word_characters(line),
{
    lemma_lexemes_flatten(Seq::empty(), line);
    assert(Seq::<char>::empty() + word_characters(line) =~= word_characters(line));
}

/// Trimming takes away the whitespace at the end and nothing else: what is
/// left is the start of the text, it does not end in whitespace, and what
/// went is whitespace throughout.
pub proof fn law_trim_end(s: Seq<char>)
    ensures
        trim_end(s).is_prefix_of(s),
        trim_end(s).len() == 0 || !is_whitespace(trim_end(s).last()),
        forall|i: int| trim_end(s).len() <= i < s.len() ==> is_whitespace(s[i]),
    decreases s.len(),
{
    if s.len() > 0 && is_whitespace(s.last()) {
        let shorter = s.drop_last();
        law_trim_end(shorter);
        assert forall|i: int| trim_end(s).len() <= i < s.len() implies is_whitespace(s[i]) by {
            if i < shorter.len() {
                assert(s[i] == shorter[i]);
            }
        }
    }
}

/// A token other than `define` leaves the environment as it was, whether it
/// succeeds or fails.
pub proof fn law_only_define_binds(m: NumericModel, tok: TokenView, st: State)
    requires
        tok != TokenView::Mark(Operator::Define),
    ensures
        transition(m, tok, st) matches Ok(next) ==> next.env == st.env,
{
}

/// No token takes a binding away: a name that is bound before a token is
/// bound after it.
pub proof fn law_bindings_last(m: NumericModel, tok: TokenView, st: State, name: Seq<char>)
    requires
        st.env.contains_key(name),
    ensures
        transition(m, tok, st) matches Ok(next) ==> next.env.contains_key(name),
{
}

/// Binding and looking up: after `define` has bound a value to a name, the
/// variable of that name puts that value on the stack.
pub proof fn law_define_then_lookup(m: NumericModel, st: State, var: Seq<char>)
    requires
        st.stack.len() >= 2,
        var.len() > 0,
        rendered(m, st.stack.last()) == Some(var.drop_first()),
    ensures
        transition(m, TokenView::Mark(Operator::Define), st) matches Ok(bound) && transition(
            m,
            TokenView::Var(var),
            bound,
        ) == Ok::<State, EvalErrorView>(
            State { stack: bound.stack.push(st.stack[st.stack.len() - 2]), env: bound.env },
        ),
{
}

proof fn lemma_run_without_define(m: NumericModel, toks: Seq<TokenView>, st: State)
    requires
        forall|k: int| 0 <= k < toks.len() ==> toks[k] != TokenView::Mark(Operator::Define),
    ensures
        run(m, toks, st).1 == st.env,
    decreases toks.len(),
{
    if toks.len() > 0 {
        law_only_define_binds(m, toks[0], st);
        match transition(m, toks[0], st) {
            Ok(next) => {
                lemma_run_without_define(m, toks.drop_first(), next);
            },
            Err(_) => {},
        }
    }
}

proof fn lemma_run_keeps_bindings(
    m: NumericModel,
    toks: Seq<TokenView>,
    st: State,
    name: Seq<char>,
)
    requires
        st.env.contains_key(name),
    ensures
        run(m, toks, st).1.contains_key(name),
    decreases toks.len(),
{
    if toks.len() > 0 {
        law_bindings_last(m, toks[0], st, name);
        match transition(m, toks[0], st) {
            Ok(next) => {
                lemma_run_keeps_bindings(m, toks.drop_first(), next, name);
            },
            Err(_) => {},
        }
    }
}

/// A line without the lexeme `define` is free of side effects: evaluating
/// it, with success or not, leaves the environment as it was.
pub proof fn law_define_free_keeps_environment(
    m: NumericModel,
    line: Seq<char>,
    env: Map<Seq<char>, TokenView>,
)
    requires
        define_free(line),
    ensures
        evaluation(m, line, env).env == env,
{
    lemma_run_without_define(m, tokens(m, line), State { stack: Seq::empty(), env });
}

/// Evaluating a line that is free of side effects twice against the same
/// environment gives the same result both times: where the first evaluation
/// leaves the environment as it was, the second is the first again.
pub proof fn law_idempotence(m: NumericModel, line: Seq<char>, env: Map<Seq<char>, TokenView>)
    requires
        evaluation(m, line, env).env == env,
    ensures
        evaluation(m, line, evaluation(m, line, env).env) == evaluation(m, line, env),
{
}

/// A line without the lexeme `define` gives the same result however often
/// it is evaluated, and the environment is the same after each evaluation.
pub proof fn law_define_free_is_idempotent(
    m: NumericModel,
    line: Seq<char>,
    env: Map<Seq<char>, TokenView>,
)
    requires
        define_free(line),
    ensures
        evaluation(m, line, evaluation(m, line, env).env) == evaluation(m, line, env),
        evaluation(m, line, evaluation(m, line, env).env).env == env,
{
    law_define_free_keeps_environment(m, line, env);
}

/// An evaluation never takes a binding away, whether it succeeds or fails:
/// every name that was bound before it is bound after it.
pub proof fn law_no_binding_is_lost(
    m: NumericModel,
    line: Seq<char>,
    env: Map<Seq<char>, TokenView>,
    name: Seq<char>,
)
    requires
        env.contains_key(name),
    ensures
        evaluation(m, line, env).env.contains_key(name),
{
    lemma_run_keeps_bindings(m, tokens(m, line), State { stack: Seq::empty(), env }, name);
}

/// A failed evaluation does not stand in the way of the next one: where a
/// line that is free of side effects fails, any line evaluated after it
/// gives what it would have given had the failed call never been made.
pub proof fn law_failure_is_recoverable(
    m: NumericModel,
    failing: Seq<char>,
    next: Seq<char>,
    env: Map<Seq<char>, TokenView>,
)
    requires
        define_free(failing),
        evaluation(m, failing, env).result is Err,
    ensures
        evaluation(m, next, evaluation(m, failing, env).env) == evaluation(m, next, env),
{
    law_define_free_keeps_environment(m, failing, env);
}

/// An operator that finds too few operands fails for want of them, whatever
/// the numeric service is: a binary operator and `define` with fewer than
/// two, `if` with none. The run stops there, with the environment as it was.
pub proof fn law_missing_operands_fail(m: NumericModel, op: Operator, st: State)
    requires
        is_binary(op) || op == Operator::Define || op == Operator::If,
        op == Operator::If ==> st.stack.len() == 0,
        op != Operator::If ==> st.stack.len() < 2,
    ensures
        transition(m, TokenView::Mark(op), st) == Err::<State, EvalErrorView>(
            EvalErrorView::OperandMissing(op),
        ),
        forall|rest: Seq<TokenView>|
            run(m, seq![TokenView::Mark(op)] + rest, st) == (
                Err::<Seq<TokenView>, EvalErrorView>(EvalErrorView::OperandMissing(op)),
                st.env,
            ),
{
}

/// A variable whose name is not bound stops the evaluation as unbound, and
/// the environment stays as it was.
pub proof fn law_unbound_variable_fails(m: NumericModel, var: Seq<char>, st: State)
    requires
        !st.env.contains_key(unsigiled(var)),
    ensures
        transition(m, TokenView::Var(var), st) == Err::<State, EvalErrorView>(
            EvalErrorView::UnboundVariable(unsigiled(var)),
        ),
        forall|rest: Seq<TokenView>|
            run(m, seq![TokenView::Var(var)] + rest, st) == (
                Err::<Seq<TokenView>, EvalErrorView>(
                    EvalErrorView::UnboundVariable(unsigiled(var)),
                ),
                st.env,
            ),
{
}

/// Operands are taken in the order of the text: the form `(op a b)`, whose
/// tokens run as `b`, `a`, `op`, puts the value of `op` on `a` and `b` on
/// the stack, `a` the left operand.
pub proof fn law_operands_in_text_order(
    m: NumericModel,
    op: Operator,
    a: TokenView,
    b: TokenView,
    st: State,
)
    requires
        is_binary(op),
        a is Num || a is Bool,
        b is Num || b is Bool,
    ensures
        run(m, seq![b, a, TokenView::Mark(op)], st) == match binary(m, op, a, b) {
            Ok(v) => (Ok::<Seq<TokenView>, EvalErrorView>(st.stack.push(v)), st.env),
            Err(e) => (Err::<Seq<TokenView>, EvalErrorView>(e), st.env),
        },
{
    let one = State { stack: st.stack.push(b), env: st.env };
    let two = State { stack: one.stack.push(a), env: st.env };
    assert(two.stack.take(two.stack.len() - 2) =~= st.stack);
    reveal_with_fuel(run, 4);
}

/// Of the two branches of a conditional exactly one stays: the form
/// `(if c t e)`, whose tokens run as `e`, `t`, `c`, `if`, leaves `t` on the
/// stack where `c` is true and `e` where it is false.
pub proof fn law_if_keeps_one_branch(
    m: NumericModel,
    c: bool,
    t: TokenView,
    e: TokenView,
    st: State,
)
    requires
        t is Num || t is Bool,
        e is Num || e is Bool,
    ensures
        run(m, seq![e, t, TokenView::Bool(c), TokenView::Mark(Operator::If)], st) == (
            Ok::<Seq<TokenView>, EvalErrorView>(
                st.stack.push(
                    if c {
                        t
                    } else {
                        e
                    },
                ),
            ),
            st.env,
        ),
{
    let one = State { stack: st.stack.push(e), env: st.env };
    let two = State { stack: one.stack.push(t), env: st.env };
    let three = State { stack: two.stack.push(TokenView::Bool(c)), env: st.env };
    assert(three.stack.take(three.stack.len() - 3) =~= st.stack);
    assert(three.stack.take(three.stack.len() - 2) =~= st.stack.push(e));
    reveal_with_fuel(run, 5);
}

/// Every message of a failure starts with `ERROR: `.
pub proof fn law_messages_are_marked(e: EvalErrorView)
    ensures
        message(e).len() >= 7,
        message(e).take(7) == "ERROR: "@,
{
    reveal_strlit("ERROR: ");
    reveal_strlit("ERROR: `if` requires a Bool condition, received ");
    reveal_strlit("ERROR: variable `");
}

/// The head of a list is the item that stands first in the text: `first`
/// after `list` leaves what was on top of the stack when `list` gathered it.
pub proof fn law_first_of_a_list(m: NumericModel, st: State)
    requires
        st.stack.len() > 0,
        !(st.stack.last() is Sep),
    ensures
        transition(m, TokenView::Mark(Operator::ListCmd), st) matches Ok(gathered) && transition(
            m,
            TokenView::Mark(Operator::First),
            gathered,
        ) == Ok::<State, EvalErrorView>(
            State { stack: below_list(st.stack).push(st.stack.last()), env: st.env },
        ),
{
    let gathered = State {
        stack: below_list(st.stack).push(TokenView::List(listed(st.stack))),
        env: st.env,
    };
    assert(gathered.stack.take(gathered.stack.len() - 1) =~= below_list(st.stack));
}

/// `rest` after `list` leaves the list of all items but the one that stands
/// first in the text.
pub proof fn law_rest_of_a_list(m: NumericModel, st: State)
    requires
        st.stack.len() > 0,
        !(st.stack.last() is Sep),
    ensures
        transition(m, TokenView::Mark(Operator::ListCmd), st) matches Ok(gathered) && transition(
            m,
            TokenView::Mark(Operator::Rest),
            gathered,
        ) == Ok::<State, EvalErrorView>(
            State {
                stack: below_list(st.stack).push(TokenView::List(listed(st.stack.drop_last()))),
                env: st.env,
            },
        ),
{
    let gathered = State {
        stack: below_list(st.stack).push(TokenView::List(listed(st.stack))),
        env: st.env,
    };
    assert(listed(st.stack).drop_first() =~= listed(st.stack.drop_last()));
    assert(gathered.stack.take(gathered.stack.len() - 1) =~= below_list(st.stack));
}

/// Numbers are totally ordered: of two numbers exactly one is below the
/// other, unless they are equal. A NaN is neither below, nor above, nor
/// equal to anything.
pub proof fn law_numbers_are_ordered(a: u64, b: u64)
    ensures
        !is_nan(a) && !is_nan(b) ==> (num_lt(a, b) || num_eq(a, b) || num_lt(b, a)),
        !(num_lt(a, b) && num_eq(a, b)),
        !(num_lt(a, b) && num_lt(b, a)),
        is_nan(a) || is_nan(b) ==> !num_lt(a, b) && !num_eq(a, b) && !num_lt(b, a),
{
}

/// The order of numbers is transitive.
pub proof fn law_number_order_is_transitive(a: u64, b: u64, c: u64)
    requires
        num_lt(a, b),
        num_lt(b, c),
    ensures
        num_lt(a, c),
{
}

proof fn lemma_code_points_differ(c: char, d: char)
    requires
        c != d,
    ensures
        c as u32 != d as u32,
{
}

/// Texts are totally ordered: of two texts exactly one comes before the
/// other, unless they are the same text.
pub proof fn law_texts_are_ordered(a: Seq<char>, b: Seq<char>)
    ensures
        text_lt(a, b) || a == b || text_lt(b, a),
        !(text_lt(a, b) && a == b),
        !(text_lt(a, b) && text_lt(b, a)),
    decreases a.len(),
{
    if a.len() > 0 && b.len() > 0 && a[0] == b[0] {
        law_texts_are_ordered(a.drop_first(), b.drop_first());
        if a.drop_first() == b.drop_first() {
            assert forall|i: int| 0 <= i < a.len() implies a[i] == b[i] by {
                if i > 0 {
                    assert(a[i] == a.drop_first()[i - 1]);
                    assert(b[i] == b.drop_first()[i - 1]);
                }
            }
            assert(a.len() == a.drop_first().len() + 1);
            assert(b.len() == b.drop_first().len() + 1);
            assert(a =~= b);
        }
    } else if a.len() == 0 && b.len() == 0 {
        assert(a =~= b);
    } else if a.len() > 0 && b.len() > 0 {
        lemma_code_points_differ(a[0], b[0]);
    }
}

/// The order of texts is transitive.
pub proof fn law_text_order_is_transitive(a: Seq<char>, b: Seq<char>, c: Seq<char>)
    requires
        text_lt(a, b),
        text_lt(b, c),
    ensures
        text_lt(a, c),
    decreases a.len(),
{
    if a.len() > 0 && a[0] == b[0] && b[0] == c[0] {
        law_text_order_is_transitive(a.drop_first(), b.drop_first(), c.drop_first());
    }
}

/// Where a transition asks the numeric service for nothing, it is the same
/// under every model of the service.
pub proof fn law_transition_without_numbers(
    m1: NumericModel,
    m2: NumericModel,
    tok: TokenView,
    st: State,
)
    requires
        !consults(tok, st.stack),
    ensures
        transition(m1, tok, st) == transition(m2, tok, st),
{
}

} // verus!
