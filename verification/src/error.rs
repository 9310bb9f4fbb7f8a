//! The ways in which an evaluation fails, and the message of each.

use vstd::prelude::*;
use vstd::string::StringExecFns;
use crate::lexer::{Kind, Operator};

verus! {

/// Why an evaluation stopped. Each failure ends the call it happened in and
/// nothing more.
#[derive(Debug, PartialEq)]
pub enum EvalError {
    /// The operator found fewer operands on the stack than it takes.
    OperandMissing(Operator),
    /// The operator cannot work on operands of these kinds.
    TypeMismatch(Operator, Kind, Kind),
    /// No value is bound to the name.
    UnboundVariable(String),
    /// `first` or `rest` met something that is no list with a head.
    StructuralMisuse(Operator, Kind),
}

/// A failure as a mathematical value.
pub ghost enum EvalErrorView {
    OperandMissing(Operator),
    TypeMismatch(Operator, Kind, Kind),
    UnboundVariable(Seq<char>),
    StructuralMisuse(Operator, Kind),
}

impl View for EvalError {
    type V = EvalErrorView;

    open spec fn view(&self) -> EvalErrorView {
        match self {
            EvalError::OperandMissing(op) => EvalErrorView::OperandMissing(*op),
            EvalError::TypeMismatch(op, a, b) => EvalErrorView::TypeMismatch(*op, *a, *b),
            EvalError::UnboundVariable(name) => EvalErrorView::UnboundVariable(name@),
            EvalError::StructuralMisuse(op, k) => EvalErrorView::StructuralMisuse(*op, *k),
        }
    }
}

/// The spellings of an operator, as messages quote them.
pub open spec fn names(op: Operator) -> Seq<char> {
    match op {
        Operator::Plus => "`+` and `add`"@,
        Operator::Minus => "`-` and `sub`"@,
        Operator::Times => "`*` and `mul`"@,
        Operator::Div => "`/` and `div`"@,
        Operator::Rem => "`%` and `rem`"@,
        Operator::Eq => "`==` and `eq`"@,
        Operator::Ne => "`!=` and `ne`"@,
        Operator::Lt => "`<` and `lt`"@,
        Operator::Gt => "`>` and `gt`"@,
        Operator::Le => "`<=` and `le`"@,
        Operator::Ge => "`>=` and `ge`"@,
        Operator::Define => "`define`"@,
        Operator::If => "`if`"@,
        Operator::ListCmd => "`list`"@,
        Operator::First => "`first`"@,
        Operator::Rest => "`rest`"@,
        Operator::Print => "`print`"@,
    }
}

/// How many operands an operator asks for, as a message puts it.
pub open spec fn demand(op: Operator) -> Seq<char> {
    match op {
        Operator::Define => " requires 2 params"@,
        Operator::If => " requires 3 params"@,
        Operator::ListCmd | Operator::First | Operator::Rest | Operator::Print =>
            " requires 1 param"@,
        _ => " require 2 params"@,
    }
}

/// The name of a kind in a message.
pub open spec fn kind_name(k: Kind) -> Seq<char> {
    match k {
        Kind::Num => "Num"@,
        Kind::Str => "Str"@,
        Kind::Var => "Var"@,
        Kind::Bool => "Bool"@,
        Kind::List => "List"@,
        Kind::EmptyList => "an empty List"@,
        Kind::Marker => "a marker"@,
        Kind::Nothing => "nothing"@,
    }
}

/// The message of a failure. Every message starts with `ERROR: `.
pub open spec fn message(e: EvalErrorView) -> Seq<char> {
    match e {
        EvalErrorView::OperandMissing(op) => "ERROR: "@ + names(op) + demand(op),
        EvalErrorView::TypeMismatch(op, a, b) => if op == Operator::If {
            "ERROR: `if` requires a Bool condition, received "@ + kind_name(a)
        } else {
            "ERROR: "@ + names(op) + " cannot take "@ + kind_name(a) + " and "@ + kind_name(b)
        },
        EvalErrorView::UnboundVariable(name) => "ERROR: variable `"@ + name
            + "` is not defined"@,
        EvalErrorView::StructuralMisuse(op, k) => "ERROR: "@ + names(op)
            + " requires a non-empty List, received "@ + kind_name(k),
    }
}

fn names_of(op: Operator) -> (s: &'static str)
    ensures
        s@ == names(op),
{
    match op {
        Operator::Plus => "`+` and `add`",
        Operator::Minus => "`-` and `sub`",
        Operator::Times => "`*` and `mul`",
        Operator::Div => "`/` and `div`",
        Operator::Rem => "`%` and `rem`",
        Operator::Eq => "`==` and `eq`",
        Operator::Ne => "`!=` and `ne`",
        Operator::Lt => "`<` and `lt`",
        Operator::Gt => "`>` and `gt`",
        Operator::Le => "`<=` and `le`",
        Operator::Ge => "`>=` and `ge`",
        Operator::Define => "`define`",
        Operator::If => "`if`",
        Operator::ListCmd => "`list`",
        Operator::First => "`first`",
        Operator::Rest => "`rest`",
        Operator::Print => "`print`",
    }
}

fn demand_of(op: Operator) -> (s: &'static str)
    ensures
        s@ == demand(op),
{
    match op {
        Operator::Define => " requires 2 params",
        Operator::If => " requires 3 params",
        Operator::ListCmd | Operator::First | Operator::Rest | Operator::Print =>
            " requires 1 param",
        _ => " require 2 params",
    }
}

fn kind_name_of(k: Kind) -> (s: &'static str)
    ensures
        s@ == kind_name(k),
{
    match k {
        Kind::Num => "Num",
        Kind::Str => "Str",
        Kind::Var => "Var",
        Kind::Bool => "Bool",
        Kind::List => "List",
        Kind::EmptyList => "an empty List",
        Kind::Marker => "a marker",
        Kind::Nothing => "nothing",
    }
}

impl EvalError {
    /// The message of the failure.
    pub fn message(&self) -> (text: String)
        ensures
            text@ == message(self@),
    {
        match self {
            EvalError::OperandMissing(op) => {
                let mut text = String::from_str("ERROR: ");
                text.append(names_of(*op));
                text.append(demand_of(*op));
                text
            },
            EvalError::TypeMismatch(op, a, b) => {
                if *op == Operator::If {
                    let mut text = String::from_str(
                        "ERROR: `if` requires a Bool condition, received ",
                    );
                    text.append(kind_name_of(*a));
                    text
                } else {
                    let mut text = String::from_str("ERROR: ");
                    text.append(names_of(*op));
                    text.append(" cannot take ");
                    text.append(kind_name_of(*a));
                    text.append(" and ");
                    text.append(kind_name_of(*b));
                    text
                }
            },
            EvalError::UnboundVariable(name) => {
                let mut text = String::from_str("ERROR: variable `");
                text.append(name.as_str());
                text.append("` is not defined");
                text
            },
            EvalError::StructuralMisuse(op, k) => {
                let mut text = String::from_str("ERROR: ");
                text.append(names_of(*op));
                text.append(" requires a non-empty List, received ");
                text.append(kind_name_of(*k));
                text
            },
        }
    }
}

} // verus!
