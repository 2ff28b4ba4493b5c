//! The errors of the parser.

use vstd::prelude::*;
use crate::token::TokenType;

verus! {

/// Why a parse stopped.
#[derive(Debug, PartialEq, Eq)]
pub enum ErrorKind {
    /// A token of the given kind was required and another one was found.
    Expected(TokenType),
    /// No expression can start with the token found.
    NumberExpected,
    /// An identifier was required as the name of a variable, member or parameter.
    VariableNameExpected,
    /// An identifier was required as the name of a function or global variable.
    NameExpected,
    /// No type can start with the token found.
    TypenameExpected,
    /// An array length is not a number literal.
    ArrayLengthNotConstant,
    /// A variable was declared with type `void`.
    VoidVariable,
    /// A struct tag was used without a member list and no struct of that name is in scope.
    IncompleteType,
    /// A `struct` keyword with neither a tag nor a member list.
    BadStructDefinition,
    /// The size of a type does not fit in `usize`.
    TypeTooLarge,
    /// An initializer list has more values than an `i32` can count.
    TooManyInitializers,
    /// A declaration of another shape than a plain variable stands where only a plain
    /// variable makes sense: as a struct member or under `typedef`.
    Internal,
}

/// A fatal parse error: what went wrong, and the index of the token at which it was found.
/// An index equal to the number of tokens stands for the end of the input.
#[derive(Debug, PartialEq, Eq)]
pub struct ParseError {
    pub kind: ErrorKind,
    pub pos: usize,
}

impl ParseError {
    /// The error of the given kind at token index `pos`.
    pub fn new(kind: ErrorKind, pos: usize) -> (e: ParseError)
        ensures
            e == (ParseError { kind, pos }),
    {
        ParseError { kind, pos }
    }
}

} // verus!
