//! Rendering for the violations the region-based checker reports.

use vstd::prelude::*;
use crate::range::RangeS;
use crate::borrow_checker::borrow_error::BorrowErrorKind;

verus! {

/// Render a use-after-churn diagnostic's message, the only kind this checker reports. The position
/// header already points at the argument's own source, so the message names no variable.
pub fn humanize_borrow_error(range: RangeS, kind: &BorrowErrorKind) -> (r: String)
    requires *kind is UseAfterChurn || *kind is UseAfterChurnTemporary,
    ensures r@ == "Used a borrow after invalidated."@,
{
    let mut s = String::new();
    s.append("Used a borrow after invalidated.");
    assert(s@ =~= "Used a borrow after invalidated."@);
    s
}

} // verus!
