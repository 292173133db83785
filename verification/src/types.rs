//! The primitive types that a literal, an argument or a member can have.

use vstd::prelude::*;
use crate::token::token_is;

verus! {

/// A primitive type of the source language.
#[derive(Debug, Clone, Copy, PartialEq, Eq, Structural)]
pub enum Types {
    /// A 32-bit integer, the type of every number literal.
    I32,
    /// A string.
    Str,
    /// A boolean.
    Bool,
    /// No value; also what an unknown type name stands for.
    Void,
}

/// The type that a type name of the source language denotes.
pub open spec fn type_named(name: Seq<char>) -> Types {
    if name == "i32"@ {
        Types::I32
    } else if name == "str"@ {
        Types::Str
    } else if name == "bool"@ {
        Types::Bool
    } else {
        Types::Void
    }
}

/// The type that a type name of the source language denotes.
pub fn type_from_name(name: &String) -> (t: Types)
    ensures
        t == type_named(name@),
{
    if token_is(name, "i32") {
        Types::I32
    } else if token_is(name, "str") {
        Types::Str
    } else if token_is(name, "bool") {
        Types::Bool
    } else {
        Types::Void
    }
}

} // verus!
