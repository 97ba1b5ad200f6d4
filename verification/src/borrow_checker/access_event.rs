//! The accesses the grouping pass logs while it walks a body: which group each load and store
//! touches, and which groups each call's arguments reach.

use vstd::prelude::*;
use crate::borrow_checker::ast_g::GroupStep;
use crate::loc::LocT;

verus! {

/// One logged access, at the typed node `loct`.
#[derive(Debug)]
pub enum AccessEventG {
    /// A load from the group at this flattened path.
    Read { group: Vec<GroupStep>, loct: LocT },
    /// A store into the group at this flattened path.
    Store { group: Vec<GroupStep>, loct: LocT },
    /// A call; each argument reaches the group at its path and every group below it.
    Call { touched: Vec<Vec<GroupStep>>, loct: LocT },
    /// A position marker that accesses nothing.
    Marker { loct: LocT },
}

} // verus!
