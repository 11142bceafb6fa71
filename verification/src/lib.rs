//! Core of a small interactive command interpreter: tokenizing an input
//! line, parsing tokens into a typed command, resolving executable names
//! against search-path directory listings, and deciding what each command
//! does to the shell state and to standard output.

pub mod command;
pub mod laws;
pub mod numbers;
pub mod resolver;
pub mod shell;
pub mod tokenizer;

use vstd::prelude::*;

verus! {

/// Character class the tokenizer splits on: ASCII whitespace.
pub open spec fn is_space(c: char) -> bool {
    c == ' ' || c == '\t' || c == '\n' || c == '\r'
}

/// Exec mirror of `is_space`.
pub fn space_char(c: char) -> (r: bool)
    ensures
        r == is_space(c),
{
    c == ' ' || c == '\t' || c == '\n' || c == '\r'
}

} // verus!
