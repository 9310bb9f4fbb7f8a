//! A small prefix-notation expression language: a tokenizer, a token model and
//! a stack-machine evaluator that turns one line of text into a result string,
//! against an environment of named values that lasts across calls.
//!
//! The environment is a hash map with the FNV hasher. Numbers are IEEE 754
//! binary64 values carried as bit patterns; what has to be computed on them
//! is asked of the numeric service that the caller hands in.
//!
//! What a function returns is stated over mathematical values: a token as a
//! `TokenView`, the environment as a map from names to such values, a text
//! as its sequence of characters. A function that asks the numeric service
//! for something is specified against every `NumericModel` that the service
//! follows; what holds whatever the service answers is stated apart.

pub mod error;
pub mod laws;
pub mod lexer;
pub mod number;
pub mod parser;
pub mod render;
pub mod text;

use vstd::prelude::*;
use crate::lexer::{Token, TokenView};
use fnv::FnvHasher;
use std::collections::HashMap;
use std::hash::BuildHasherDefault;

verus! {

/// `fnv::FnvHasher`, the hasher of the environment, carried as it is:
/// nothing is said of what it holds.
#[verifier::external_type_specification]
#[verifier::external_body]
pub struct ExFnvHasher(FnvHasher);

/// `std::hash::BuildHasherDefault`, which makes the hasher of each lookup
/// by `Default`, carried as it is: nothing is said of what it holds.
#[verifier::external_type_specification]
#[verifier::external_body]
#[verifier::reject_recursive_types(H)]
pub struct ExBuildHasherDefault<H>(BuildHasherDefault<H>);

/// The environment of a session: the values bound to names.
pub type UmeEnv = HashMap<String, Token, BuildHasherDefault<FnvHasher>>;

/// What an environment holds: the value bound to each name that is bound.
pub uninterp spec fn bindings(env: UmeEnv) -> Map<Seq<char>, TokenView>;

/// `HashMap::get` on an environment: the value bound to `name`, if one is.
/// Keys are texts, equal when they spell the same, and `FnvHasher` hashes a
/// key by its bytes alone, so a lookup finds the entry that was stored under
/// the same spelling.
#[verifier::external_body]
pub(crate) fn env_get<'a>(env: &'a UmeEnv, name: &str) -> (found: Option<&'a Token>)
    ensures
        found is Some <==> bindings(*env).contains_key(name@),
        found matches Some(t) ==> t@ == bindings(*env)[name@],
{
    env.get(name)
}

/// `HashMap::insert` on an environment: `name` is bound to `value`, in place
/// of what it was bound to if it was bound; every other name keeps its value.
#[verifier::external_body]
pub(crate) fn env_insert(env: &mut UmeEnv, name: String, value: Token)
    ensures
        bindings(*final(env)) == bindings(*old(env)).insert(name@, value@),
{
    env.insert(name, value);
}

} // verus!
