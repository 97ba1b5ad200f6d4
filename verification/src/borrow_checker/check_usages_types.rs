//! Keys and locations the usage check records.

use vstd::prelude::*;
use crate::names::IVarNameT;
use crate::loc::LocT;
use crate::range::RangeS;

verus! {

/// What a pending use is held under: the local it reads, or a numbered temporary.
#[derive(Clone, Copy, PartialEq, Eq, Structural, Debug)]
pub enum RefKey {
    Named(IVarNameT),
    Held(u32),
}

/// Where the last mutation effect to hit a group happened.
#[derive(Debug)]
pub struct MutEffectLoc {
    pub loct: LocT,
    pub range: RangeS,
}

} // verus!
