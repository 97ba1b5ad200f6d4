//! Names the borrow checker and typing pass refer to: variables and runes.

use vstd::prelude::*;
use crate::interner::StrI;

verus! {

/// A rune (a generic parameter) as the postparser names it.
#[derive(Clone, Copy, PartialEq, Eq, Structural, Debug)]
pub enum IRuneS {
    /// A rune written in the source, such as the `r` of `<r'>`.
    CodeRune(StrI),
    /// A rune the compiler made up, identified by its number.
    ImplicitRune(u32),
}

/// The name of a variable in a typed function body.
#[derive(Clone, Copy, PartialEq, Eq, Structural, Debug)]
pub enum IVarNameT {
    /// A local written in the source.
    Local(StrI),
    /// A struct member.
    Member(StrI),
    /// A temporary the typing pass made at a source location (an interned location handle).
    TypingPassTemporaryVarName(u32),
    /// The local that holds a block's result while its locals are dropped (an interned location).
    TypingPassBlockResultVarName(u32),
    /// The closure struct parameter of a lambda.
    ClosureParamName,
    /// A function's `self` parameter.
    SelfName,
}

} // verus!
