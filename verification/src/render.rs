//! How values are written out: the text of a result, and the debug form in
//! which a list is shown.

use vstd::prelude::*;
use vstd::string::StringExecFns;
use crate::lexer::{bool_text, lemma_list_view, views, Operator, Token, TokenView};
use crate::number::{ArithOp, Notation, NumericModel, Numerics};

verus! {

/// The debug form of a text: what formatting it with `{:?}` gives, the text
/// between double quotes with its special characters escaped.
pub uninterp spec fn str_debug(s: Seq<char>) -> Seq<char>;

/// `<str as Debug>::fmt` of the standard library, through `format!`: the
/// result is a function of the characters of `s` alone.
#[verifier::external_body]
fn quoted(s: &str) -> (r: String)
    ensures
        r@ == str_debug(s@),
{
    format!("{:?}", s)
}

/// The name of an operator marker in a debug form.
pub open spec fn marker_name(op: Operator) -> Seq<char> {
    match op {
        Operator::Plus => "Plus"@,
        Operator::Minus => "Minus"@,
        Operator::Times => "Times"@,
        Operator::Div => "Div"@,
        Operator::Rem => "Rem"@,
        Operator::Eq => "Eq"@,
        Operator::Ne => "Ne"@,
        Operator::Lt => "Lt"@,
        Operator::Gt => "Gt"@,
        Operator::Le => "Le"@,
        Operator::Ge => "Ge"@,
        Operator::Define => "Define"@,
        Operator::If => "If"@,
        Operator::ListCmd => "ListCmd"@,
        Operator::First => "First"@,
        Operator::Rest => "Rest"@,
        Operator::Print => "Print"@,
    }
}

/// A payload in the debug form of its variant: the name of the variant and
/// the payload in parentheses.
pub open spec fn tagged(name: Seq<char>, payload: Seq<char>) -> Seq<char> {
    name + "("@ + payload + ")"@
}

/// The debug form of a token: the name of its variant, with the payload in
/// parentheses where it has one.
pub open spec fn debug_token(m: NumericModel, t: TokenView) -> Seq<char>
    decreases t, 0nat,
{
    match t {
        TokenView::Num(n) => tagged("Num"@, (m.show)(Notation::Debug, n)),
        TokenView::Str(s) => tagged("Str"@, str_debug(s)),
        TokenView::Var(s) => tagged("Var"@, str_debug(s)),
        TokenView::Bool(b) => tagged("Bool"@, bool_text(b)),
        TokenView::List(l) => "List(["@ + debug_items(m, l, l.len()) + "])"@,
        TokenView::Sep => "Sep"@,
        TokenView::Mark(op) => marker_name(op),
    }
}

/// The debug forms of the first `n` items of `l`, with `, ` between them.
pub open spec fn debug_items(m: NumericModel, l: Seq<TokenView>, n: nat) -> Seq<char>
    decreases l, n,
{
    if n == 0 || n > l.len() {
        Seq::empty()
    } else if n == 1 {
        debug_token(m, l[0])
    } else {
        debug_items(m, l, (n - 1) as nat) + ", "@ + debug_token(m, l[n - 1])
    }
}

/// The debug form of a list: the debug forms of its items between brackets.
pub open spec fn debug_list(m: NumericModel, l: Seq<TokenView>) -> Seq<char> {
    "["@ + debug_items(m, l, l.len()) + "]"@
}

fn marker_name_of(op: Operator) -> (s: &'static str)
    ensures
        s@ == marker_name(op),
{
    match op {
        Operator::Plus => "Plus",
        Operator::Minus => "Minus",
        Operator::Times => "Times",
        Operator::Div => "Div",
        Operator::Rem => "Rem",
        Operator::Eq => "Eq",
        Operator::Ne => "Ne",
        Operator::Lt => "Lt",
        Operator::Gt => "Gt",
        Operator::Le => "Le",
        Operator::Ge => "Ge",
        Operator::Define => "Define",
        Operator::If => "If",
        Operator::ListCmd => "ListCmd",
        Operator::First => "First",
        Operator::Rest => "Rest",
        Operator::Print => "Print",
    }
}

/// Appends a payload in the debug form of its variant to `out`.
pub fn append_tagged(out: &mut String, name: &str, payload: &str)
    ensures
        final(out)@ == old(out)@ + tagged(name@, payload@),
{
    out.append(name);
    out.append("(");
    out.append(payload);
    out.append(")");
}

/// Appends the debug form of a token to `out`.
pub fn debug_into<P, A, S>(t: &Token, out: &mut String, numerics: &Numerics<P, A, S>) where
    P: Fn(&str) -> Option<u64>,
    A: Fn(ArithOp, u64, u64) -> u64,
    S: Fn(Notation, u64) -> String,

    requires
        numerics.ready(),
    ensures
        forall|m: NumericModel| #[trigger]
            numerics.follows(m) ==> final(out)@ == old(out)@ + debug_token(m, t@),
    decreases t,
{
    match t {
        Token::Num(n) => {
            let text = (numerics.show)(Notation::Debug, *n);
            append_tagged(out, "Num", text.as_str());
        },
        Token::Str(s) => {
            let text = quoted(s.as_str());
            append_tagged(out, "Str", text.as_str());
        },
        Token::Var(s) => {
            let text = quoted(s.as_str());
            append_tagged(out, "Var", text.as_str());
        },
        Token::Bool(b) => {
            if *b {
                append_tagged(out, "Bool", "true");
            } else {
                append_tagged(out, "Bool", "false");
            }
        },
        Token::List(l) => {
            out.append("List([");
            debug_items_into(l, out, numerics);
            out.append("])");
            proof {
                lemma_list_view(*l);
            }
        },
        Token::Sep => {
            out.append("Sep");
        },
        _ => {
            match t.marker() {
                Some(op) => {
                    out.append(marker_name_of(op));
                },
                None => {},
            }
        },
    }
}

/// Appends the debug forms of the items to `out`, with `, ` between them.
pub fn debug_items_into<P, A, S>(
    items: &Vec<Token>,
    out: &mut String,
    numerics: &Numerics<P, A, S>,
) where
    P: Fn(&str) -> Option<u64>,
    A: Fn(ArithOp, u64, u64) -> u64,
    S: Fn(Notation, u64) -> String,

    requires
        numerics.ready(),
    ensures
        forall|m: NumericModel| #[trigger]
            numerics.follows(m) ==> final(out)@ == old(out)@ + debug_items(
                m,
                views(items@),
                items.len() as nat,
            ),
    decreases items,
{
    let ghost start = out@;
    let mut i: usize = 0;
    while i < items.len()
        invariant
            i <= items.len(),
            numerics.ready(),
            forall|m: NumericModel| #[trigger]
                numerics.follows(m) ==> out@ == start + debug_items(m, views(items@), i as nat),
        decreases items.len() - i,
    {
        if i > 0 {
            out.append(", ");
        }
        proof {
            vstd::std_specs::vec::axiom_vec_index_decreases(*items, i as int);
        }
        debug_into(&items[i], out, numerics);
        i += 1;
    }
}

/// Whether a token is written out when the stack is drained: numbers, texts,
/// truth values and lists are.
pub open spec fn displayable(t: TokenView) -> bool {
    t is Num || t is Str || t is Bool || t is List
}

/// What a drain writes for one token: a number, a text or a truth value
/// followed by a blank, a list in its debug form.
pub open spec fn shown(m: NumericModel, t: TokenView) -> Seq<char> {
    match t {
        TokenView::Num(n) => (m.show)(Notation::Display, n) + " "@,
        TokenView::Str(s) => s + " "@,
        TokenView::Bool(b) => bool_text(b) + " "@,
        TokenView::List(l) => debug_list(m, l),
        _ => Seq::empty(),
    }
}

/// What draining a stack writes: its tokens from the top down, up to the
/// first that is not displayable.
pub open spec fn drained(m: NumericModel, stack: Seq<TokenView>) -> Seq<char>
    decreases stack.len(),
{
    if stack.len() == 0 || !displayable(stack.last()) {
        Seq::empty()
    } else {
        shown(m, stack.last()) + drained(m, stack.drop_last())
    }
}

/// What draining a stack leaves of it: what lies below the first token from
/// the top that is not displayable. That token is taken off too.
pub open spec fn undrained(stack: Seq<TokenView>) -> Seq<TokenView>
    decreases stack.len(),
{
    if stack.len() == 0 {
        stack
    } else if !displayable(stack.last()) {
        stack.drop_last()
    } else {
        undrained(stack.drop_last())
    }
}

/// Drains the stack: takes tokens off the top and writes them out, until
/// the stack is empty or a token that is not displayable has been taken off.
pub fn drain<P, A, S>(stack: &mut Vec<Token>, numerics: &Numerics<P, A, S>) -> (text: String) where
    P: Fn(&str) -> Option<u64>,
    A: Fn(ArithOp, u64, u64) -> u64,
    S: Fn(Notation, u64) -> String,

    requires
        numerics.ready(),
    ensures
        forall|m: NumericModel| #[trigger]
            numerics.follows(m) ==> text@ == drained(m, views(old(stack)@)),
        views(final(stack)@) == undrained(views(old(stack)@)),
{
    let ghost start = views(stack@);
    let mut text = String::new();
    loop
        invariant_except_break
            undrained(views(stack@)) == undrained(start),
            forall|m: NumericModel| #[trigger]
                numerics.follows(m) ==> text@ + drained(m, views(stack@)) == drained(m, start),
        invariant
            numerics.ready(),
        ensures
            views(stack@) == undrained(start),
            forall|m: NumericModel| #[trigger] numerics.follows(m) ==> text@ == drained(m, start),
        decreases stack.len(),
    {
        let ghost before = views(stack@);
        match stack.pop() {
            None => {
                break ;
            },
            Some(t) => {
                assert(views(stack@) =~= before.drop_last());
                match &t {
                    Token::Num(n) => {
                        let s = (numerics.show)(Notation::Display, *n);
                        text.append(s.as_str());
                        text.append(" ");
                    },
                    Token::Str(s) => {
                        text.append(s.as_str());
                        text.append(" ");
                    },
                    Token::Bool(b) => {
                        if *b {
                            text.append("true");
                        } else {
                            text.append("false");
                        }
                        text.append(" ");
                    },
                    Token::List(l) => {
                        text.append("[");
                        debug_items_into(l, &mut text, numerics);
                        text.append("]");
                        proof {
                            lemma_list_view(*l);
                        }
                    },
                    _ => {
                        break ;
                    },
                }
            },
        }
    }
    text
}

} // verus!
