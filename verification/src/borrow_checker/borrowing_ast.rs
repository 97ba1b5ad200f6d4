//! The aliasing facts the borrow checker hands the backend.

use vstd::prelude::*;
use crate::interner::StrI;
use crate::loc::LocT;

verus! {

/// One step of a group's identity: its root's name, a member, or the elements of a collection.
#[derive(Clone, Copy, PartialEq, Eq, Structural, Debug)]
pub enum GroupIdStepT {
    Rune(StrI),
    ParamAnonymousGroup(StrI),
    Local(StrI),
    Member(StrI),
    Elements,
}

/// A group, by its root-to-leaf steps.
#[derive(Debug)]
pub struct GroupIdT {
    pub steps: Vec<GroupIdStepT>,
}

impl View for GroupIdT {
    type V = Seq<GroupIdStepT>;

    open spec fn view(&self) -> Seq<GroupIdStepT> {
        self.steps@
    }
}

/// Which parameters may be treated as `noalias`, the numbered groups, and per instruction (sorted by
/// location) the numbers of the groups it accesses.
#[derive(Debug)]
pub struct FunctionAliasingInfoT {
    pub param_index_to_noalias: Vec<bool>,
    pub group_paths: Vec<GroupIdT>,
    pub instruction_loc_to_accessed_groups: Vec<(LocT, Vec<u32>)>,
}

/// The steps of each group.
pub open spec fn groups_view(s: Seq<GroupIdT>) -> Seq<Seq<GroupIdStepT>> {
    s.map_values(|g: GroupIdT| g@)
}

/// An instruction entry as its location path and its group numbers.
pub open spec fn entry_view(e: (LocT, Vec<u32>)) -> (Seq<i32>, Seq<u32>) {
    (e.0@, e.1@)
}

/// Each instruction entry as its location path and its group numbers.
pub open spec fn entries_view(s: Seq<(LocT, Vec<u32>)>) -> Seq<(Seq<i32>, Seq<u32>)> {
    s.map_values(|e: (LocT, Vec<u32>)| entry_view(e))
}

} // verus!
