//! Borrow-check error construction and rendering for the group-based checker.

use vstd::prelude::*;
use crate::interner::Interner;
use crate::names::IVarNameT;
use crate::range::RangeS;
use crate::borrow_checker::borrow_error::BorrowErrorKind;
use crate::compiler_error_reporter::ICompileErrorT;
use crate::text::{decimal, push_decimal};
use crate::typing::compiler::Compiler;

verus! {

impl Compiler {
    /// Wrap a borrow-check error kind and its source range into a compile error.
    pub fn borrow_error(&self, kind: BorrowErrorKind, range: RangeS) -> (r: ICompileErrorT)
        ensures r == (ICompileErrorT::BorrowCheckError { range, kind }),
    {
        ICompileErrorT::BorrowCheckError { range, kind }
    }
}

/// The name a diagnostic gives a variable: a local's or a member's own, else `a local`.
pub open spec fn var_name_text(interner: Interner, v: IVarNameT) -> Seq<char> {
    match v {
        IVarNameT::Local(n) => interner.text_of(n),
        IVarNameT::Member(n) => interner.text_of(n),
        _ => "a local"@,
    }
}

/// The message a borrow-check violation is rendered with.
pub open spec fn borrow_message(interner: Interner, kind: BorrowErrorKind) -> Seq<char> {
    match kind {
        BorrowErrorKind::AliasingIntoDisjointMutGroups { local, arg_a, arg_b, group_a, group_b } =>
            "Arguments "@ + decimal(arg_a as nat) + " and "@ + decimal(arg_b as nat) + " both borrow into "@
                + var_name_text(interner, local) + ", but their parameters are in disjoint mutated groups "@
                + interner.text_of(group_a) + " and "@ + interner.text_of(group_b)
                + ", which the callee may treat as non-aliasing."@,
        BorrowErrorKind::BorrowIntoMovedArgument { local, borrow_arg, move_arg } =>
            "Argument "@ + decimal(borrow_arg as nat) + " borrows into "@ + var_name_text(interner, local)
                + ", but argument "@ + decimal(move_arg as nat) + " moves it, so the borrow would dangle."@,
        BorrowErrorKind::UseAfterChurn { .. } => "Used a borrow after invalidated."@,
        BorrowErrorKind::UseAfterChurnTemporary { .. } => "Used a borrow after invalidated."@,
        BorrowErrorKind::GrouplessReturnBorrow =>
            "This function returns a borrow reference with no group. Annotate the group it points into, like `&T in g`."@,
        BorrowErrorKind::UnderivableBorrowGroup =>
            "The group of this borrow reference can't be determined from the expression that produces it."@,
        BorrowErrorKind::UndeclaredChurn =>
            "this call churns a group reached through a parameter, but the enclosing function does not declare a mut effect for it."@,
    }
}

/// Append an interned string's text (nothing for a handle the table does not hold).
fn push_text(interner: &Interner, s: crate::interner::StrI, out: &mut String)
    ensures final(out)@ == old(out)@ + interner.text_of(s),
{
    if (s.0 as usize) < interner.strings.len() {
        out.append(interner.lookup(s));
    } else {
        assert(old(out)@ + interner.text_of(s) =~= old(out)@);
    }
}

/// Append the name a diagnostic gives a variable.
fn push_var_name(interner: &Interner, v: &IVarNameT, out: &mut String)
    ensures final(out)@ == old(out)@ + var_name_text(*interner, *v),
{
    match v {
        IVarNameT::Local(n) => push_text(interner, *n, out),
        IVarNameT::Member(n) => push_text(interner, *n, out),
        _ => out.append("a local"),
    }
}

/// Render a borrow-check diagnostic's message. The position header is rendered around it, so the
/// message names no position (`range` is taken for a signature uniform across checkers).
pub fn humanize_borrow_error(interner: &Interner, range: RangeS, kind: &BorrowErrorKind) -> (r: String)
    ensures r@ == borrow_message(*interner, *kind),
{
    let mut s = String::new();
    match kind {
        BorrowErrorKind::AliasingIntoDisjointMutGroups { local, arg_a, arg_b, group_a, group_b } => {
            s.append("Arguments ");
            push_decimal(&mut s, *arg_a);
            s.append(" and ");
            push_decimal(&mut s, *arg_b);
            s.append(" both borrow into ");
            push_var_name(interner, local, &mut s);
            s.append(", but their parameters are in disjoint mutated groups ");
            push_text(interner, *group_a, &mut s);
            s.append(" and ");
            push_text(interner, *group_b, &mut s);
            s.append(", which the callee may treat as non-aliasing.");
        },
        BorrowErrorKind::BorrowIntoMovedArgument { local, borrow_arg, move_arg } => {
            s.append("Argument ");
            push_decimal(&mut s, *borrow_arg);
            s.append(" borrows into ");
            push_var_name(interner, local, &mut s);
            s.append(", but argument ");
            push_decimal(&mut s, *move_arg);
            s.append(" moves it, so the borrow would dangle.");
        },
        BorrowErrorKind::UseAfterChurn { .. } | BorrowErrorKind::UseAfterChurnTemporary { .. } => {
            s.append("Used a borrow after invalidated.");
        },
        BorrowErrorKind::GrouplessReturnBorrow => {
            s.append("This function returns a borrow reference with no group. Annotate the group it points into, like `&T in g`.");
        },
        BorrowErrorKind::UnderivableBorrowGroup => {
            s.append("The group of this borrow reference can't be determined from the expression that produces it.");
        },
        BorrowErrorKind::UndeclaredChurn => {
            s.append("this call churns a group reached through a parameter, but the enclosing function does not declare a mut effect for it.");
        },
    }
    assert(s@ =~= borrow_message(*interner, *kind));
    s
}

} // verus!
