//! Laws of group paths: how overlap, coverage and churn reach relate.

use vstd::prelude::*;
use crate::borrow_checker::ast_g::GroupStep;
use crate::borrow_checker::group_expr::GroupPathV;
use crate::borrow_checker::experimental::grouped_ast::{aliases, churn_reaches, flat, is_prefix};

verus! {

/// Overlap is symmetric: `a` aliases `b` exactly when `b` aliases `a`.
pub proof fn law_alias_symmetric(a: Seq<GroupStep>, b: Seq<GroupStep>)
    ensures aliases(a, b) == aliases(b, a),
{
}

/// Every path aliases itself.
pub proof fn law_alias_reflexive(a: Seq<GroupStep>)
    ensures aliases(a, a),
{
    assert(a.subrange(0, a.len() as int) =~= a);
}

/// Coverage by a declared `mut` is transitive: a group covering a group that covers a churn covers
/// the churn.
pub proof fn law_cover_transitive(a: Seq<GroupStep>, b: Seq<GroupStep>, c: Seq<GroupStep>)
    requires is_prefix(a, b), is_prefix(b, c),
    ensures is_prefix(a, c),
{
    assert(c.subrange(0, a.len() as int) =~= c.subrange(0, b.len() as int).subrange(0, a.len() as int));
}

/// A churn of a group never spoils a (non-ellipsis) reference to that group itself.
pub proof fn law_churn_spares_own_group(churned: Seq<GroupStep>, mention: GroupPathV)
    requires !mention.ellipsis, flat(mention) == churned,
    ensures !churn_reaches(churned, mention),
{
}

/// A churn of a group never spoils a reference into an unrelated group (one whose path starts at a
/// different root).
pub proof fn law_churn_spares_other_roots(churned: Seq<GroupStep>, mention: GroupPathV)
    requires churned.len() > 0, churned[0] != flat(mention)[0],
    ensures !churn_reaches(churned, mention),
{
    let m = flat(mention);
    if churned.len() <= m.len() {
        assert(m.subrange(0, churned.len() as int)[0] == m[0]);
    } else {
        assert(churned.subrange(0, m.len() as int)[0] == churned[0]);
    }
}

/// A churn spoils a non-ellipsis reference only if the reference's group lies strictly below the
/// churned group, across a collection's elements: a churn above it along inline steps only (members
/// and inline array elements) leaves it valid.
pub proof fn law_churn_spares_inline_descendants(churned: Seq<GroupStep>, mention: GroupPathV)
    requires
        !mention.ellipsis,
        forall|i: int| churned.len() <= i < flat(mention).len() ==> flat(mention)[i] != GroupStep::ChildElements,
    ensures !churn_reaches(churned, mention),
{
}

/// An ellipsis reference is spoiled by a churn exactly when the churned group and the reference's
/// group overlap, whichever of the two lies above the other.
pub proof fn law_ellipsis_spoiled_by_overlap(churned: Seq<GroupStep>, mention: GroupPathV)
    requires mention.ellipsis,
    ensures churn_reaches(churned, mention) == aliases(flat(mention), churned),
{
}

} // verus!
