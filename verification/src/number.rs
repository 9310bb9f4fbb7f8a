//! Numbers as the evaluator sees them.
//!
//! A number is an IEEE 754 binary64 value, carried as its 64-bit pattern.
//! Ordering and equality of two patterns are decided here, on the bits.
//! Reading a number from text, arithmetic and writing a number out are the
//! business of whoever embeds the evaluator: they are handed in as a
//! [`Numerics`] value, three functions that the evaluator calls.

use vstd::prelude::*;

verus! {

/// The five arithmetic operations of the language.
#[derive(Clone, Copy, PartialEq, Eq, Structural, Debug)]
pub enum ArithOp {
    Add,
    Sub,
    Mul,
    Div,
    Rem,
}

/// The two ways in which a number is written out: as a result, or as an
/// element of a list that is shown in its debug form.
#[derive(Clone, Copy, PartialEq, Eq, Structural, Debug)]
pub enum Notation {
    Display,
    Debug,
}

/// The numeric service that the evaluator works with.
///
/// `parse` reads a lexeme and gives the bits of the number it denotes, or
/// `None` where it denotes no number. `arith` applies an operation to two
/// numbers, left operand first. `show` writes a number out.
pub struct Numerics<P, A, S> {
    pub parse: P,
    pub arith: A,
    pub show: S,
}

/// A mathematical description of a numeric service: what each of its three
/// functions returns on each input.
pub ghost struct NumericModel {
    pub parse: spec_fn(Seq<char>) -> Option<u64>,
    pub arith: spec_fn(ArithOp, u64, u64) -> u64,
    pub show: spec_fn(Notation, u64) -> Seq<char>,
}

impl<P, A, S> Numerics<P, A, S> where
    P: Fn(&str) -> Option<u64>,
    A: Fn(ArithOp, u64, u64) -> u64,
    S: Fn(Notation, u64) -> String,
{
    /// The three functions accept every input.
    pub open spec fn ready(&self) -> bool {
        &&& forall|s: &str| call_requires(self.parse, (s,))
        &&& forall|op: ArithOp, a: u64, b: u64| call_requires(self.arith, (op, a, b))
        &&& forall|n: Notation, a: u64| call_requires(self.show, (n, a))
    }

    /// Whatever the three functions return is what `model` says.
    pub open spec fn follows(&self, model: NumericModel) -> bool {
        &&& forall|s: &str, r: Option<u64>|
            call_ensures(self.parse, (s,), r) ==> r == (model.parse)(s@)
        &&& forall|op: ArithOp, a: u64, b: u64, r: u64|
            call_ensures(self.arith, (op, a, b), r) ==> r == (model.arith)(op, a, b)
        &&& forall|n: Notation, a: u64, r: String|
            call_ensures(self.show, (n, a), r) ==> r@ == (model.show)(n, a)
    }
}

/// The pattern with only the sign bit set.
pub const SIGN_BIT: u64 = 0x8000_0000_0000_0000;

/// The pattern of positive infinity: every pattern whose magnitude is above
/// it is a NaN.
pub const INFINITY_BITS: u64 = 0x7ff0_0000_0000_0000;

/// The pattern without its sign bit.
pub open spec fn magnitude(bits: u64) -> int {
    if bits < SIGN_BIT {
        bits as int
    } else {
        bits - SIGN_BIT
    }
}

/// The pattern encodes a NaN.
pub open spec fn is_nan(bits: u64) -> bool {
    magnitude(bits) > INFINITY_BITS
}

/// The place of a pattern that is no NaN among the numbers: patterns of
/// larger numbers have larger ranks, and the two zeros share rank 0.
pub open spec fn rank(bits: u64) -> int {
    if bits < SIGN_BIT {
        magnitude(bits)
    } else {
        -magnitude(bits)
    }
}

/// IEEE 754 equality: no NaN equals anything, the two zeros are equal.
pub open spec fn num_eq(a: u64, b: u64) -> bool {
    !is_nan(a) && !is_nan(b) && rank(a) == rank(b)
}

/// IEEE 754 `<`: false whenever a NaN is involved.
pub open spec fn num_lt(a: u64, b: u64) -> bool {
    !is_nan(a) && !is_nan(b) && rank(a) < rank(b)
}

/// IEEE 754 `<=`: false whenever a NaN is involved.
pub open spec fn num_le(a: u64, b: u64) -> bool {
    !is_nan(a) && !is_nan(b) && rank(a) <= rank(b)
}

fn rank_of(bits: u64) -> (r: i128)
    ensures
        r == rank(bits),
{
    if bits < SIGN_BIT {
        bits as i128
    } else {
        -((bits - SIGN_BIT) as i128)
    }
}

/// Whether the pattern encodes a NaN.
pub fn nan(bits: u64) -> (r: bool)
    ensures
        r == is_nan(bits),
{
    let m: u64 = if bits < SIGN_BIT {
        bits
    } else {
        bits - SIGN_BIT
    };
    m > INFINITY_BITS
}

/// Whether the two patterns encode equal numbers.
pub fn equal(a: u64, b: u64) -> (r: bool)
    ensures
        r == num_eq(a, b),
{
    !nan(a) && !nan(b) && rank_of(a) == rank_of(b)
}

/// Whether the number of the first pattern is below that of the second.
pub fn less(a: u64, b: u64) -> (r: bool)
    ensures
        r == num_lt(a, b),
{
    !nan(a) && !nan(b) && rank_of(a) < rank_of(b)
}

/// Whether the number of the first pattern is at most that of the second.
pub fn at_most(a: u64, b: u64) -> (r: bool)
    ensures
        r == num_le(a, b),
{
    !nan(a) && !nan(b) && rank_of(a) <= rank_of(b)
}

/// Among numbers, `<=` is `<` or `==`; with a NaN all three are false.
pub proof fn law_le_is_lt_or_eq(a: u64, b: u64)
    ensures
        num_le(a, b) <==> num_lt(a, b) || num_eq(a, b),
        is_nan(a) || is_nan(b) ==> !num_le(a, b) && !num_lt(a, b) && !num_eq(a, b),
{
}

} // verus!
