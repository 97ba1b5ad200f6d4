//! The kinds of borrow-check violation.

use vstd::prelude::*;
use crate::interner::StrI;
use crate::names::IVarNameT;
use crate::range::RangeS;
use crate::borrow_checker::check_usages_types::RefKey;

verus! {

/// A borrow-check violation, without the source range it is reported at.
#[derive(Clone, Copy, PartialEq, Eq, Structural, Debug)]
pub enum BorrowErrorKind {
    /// Two arguments borrow into one local, but their parameters are in distinct mutated groups.
    AliasingIntoDisjointMutGroups { local: IVarNameT, arg_a: usize, arg_b: usize, group_a: StrI, group_b: StrI },
    /// An argument borrows into a local that another argument moves.
    BorrowIntoMovedArgument { local: IVarNameT, borrow_arg: usize, move_arg: usize },
    /// A reference held by a local was used after a churn spoiled it.
    UseAfterChurn { local: RefKey, churned_at: RangeS },
    /// A temporary reference was used after a churn spoiled it.
    UseAfterChurnTemporary { churned_at: RangeS },
    /// A function returns a borrow that names no group.
    GrouplessReturnBorrow,
    /// A borrow's group cannot be derived from the expression that makes it.
    UnderivableBorrowGroup,
    /// A call churns a parameter's group that the enclosing function does not declare `mut`.
    UndeclaredChurn,
}

} // verus!
