//! Group expressions: which group(s) a reference may point into, as root-to-leaf paths.

use vstd::prelude::*;
use crate::interner::StrI;
use crate::names::{IRuneS, IVarNameT};

verus! {

/// Where a group path starts.
#[derive(Clone, Copy, PartialEq, Eq, Structural, Debug)]
pub enum GroupRootG {
    /// A group parameter of the function, such as `r` in `<r'>`.
    Rune(IRuneS),
    /// The group of a parameter that names no rune.
    ParamAnonymousGroup(IVarNameT),
    /// The group a local implicitly declares.
    Local(IVarNameT),
}

/// One step down from a group to a child group.
#[derive(Clone, Copy, PartialEq, Eq, Structural, Debug)]
pub enum GroupChildStepG {
    /// A member, `x.items`.
    Member { member_name: StrI },
    /// The elements of a destructible collection (a `Box`, `Vec` or runtime-sized array).
    ChildElements {},
    /// The elements of an inline (static-sized) array.
    InlineElements {},
    /// A variant of an enum.
    Variant { variant_name: StrI },
}

/// One path of a group expression: a root, the steps down from it, and whether it ends in `...`
/// (the reference points somewhere within that group's territory).
#[derive(Debug)]
pub struct GroupPathG {
    pub root: GroupRootG,
    pub steps: Vec<GroupChildStepG>,
    pub ellipsis: bool,
}

/// The mathematical value of a group path.
pub struct GroupPathV {
    pub root: GroupRootG,
    pub steps: Seq<GroupChildStepG>,
    pub ellipsis: bool,
}

impl View for GroupPathG {
    type V = GroupPathV;

    open spec fn view(&self) -> GroupPathV {
        GroupPathV { root: self.root, steps: self.steps@, ellipsis: self.ellipsis }
    }
}

impl GroupPathG {
    /// A copy of this path.
    pub fn copy(&self) -> (r: GroupPathG)
        ensures r@ == self@,
    {
        let mut steps: Vec<GroupChildStepG> = Vec::new();
        let mut i: usize = 0;
        while i < self.steps.len()
            invariant
                i <= self.steps@.len(),
                steps@ == self.steps@.subrange(0, i as int),
            decreases self.steps@.len() - i,
        {
            steps.push(self.steps[i]);
            i = i + 1;
        }
        assert(steps@ =~= self.steps@);
        GroupPathG { root: self.root, steps, ellipsis: self.ellipsis }
    }

    /// Whether two paths are the same path.
    pub fn same_as(&self, other: &GroupPathG) -> (r: bool)
        ensures r == (self@ == other@),
    {
        if self.root != other.root || self.ellipsis != other.ellipsis
            || self.steps.len() != other.steps.len() {
            return false;
        }
        let mut i: usize = 0;
        while i < self.steps.len()
            invariant
                self.steps@.len() == other.steps@.len(),
                i <= self.steps@.len(),
                forall|j: int| 0 <= j < i ==> self.steps@[j] == other.steps@[j],
            decreases self.steps@.len() - i,
        {
            if self.steps[i] != other.steps[i] {
                return false;
            }
            i = i + 1;
        }
        assert(self.steps@ =~= other.steps@);
        true
    }
}

/// The views of a list of paths.
pub open spec fn paths_view(paths: Seq<GroupPathG>) -> Seq<GroupPathV> {
    paths.map_values(|p: GroupPathG| p@)
}

/// A copy of a list of paths.
pub fn copy_paths(paths: &Vec<GroupPathG>) -> (r: Vec<GroupPathG>)
    ensures paths_view(r@) == paths_view(paths@),
{
    let mut out: Vec<GroupPathG> = Vec::new();
    let mut i: usize = 0;
    while i < paths.len()
        invariant
            i <= paths@.len(),
            out@.len() == i,
            forall|j: int| 0 <= j < i ==> #[trigger] out@[j]@ == paths@[j]@,
        decreases paths@.len() - i,
    {
        out.push(paths[i].copy());
        i = i + 1;
    }
    assert(paths_view(out@) =~= paths_view(paths@));
    out
}

} // verus!
