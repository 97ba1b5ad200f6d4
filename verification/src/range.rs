//! Source ranges and the positions a diagnostic shows for them.

use vstd::prelude::*;

verus! {

/// A point in a source file: which file, and the character offset into it.
#[derive(Clone, Copy, PartialEq, Eq, Structural, Debug)]
pub struct CodeLocationS {
    pub file: u32,
    pub offset: i32,
}

/// A span of source text.
#[derive(Clone, Copy, PartialEq, Eq, Structural, Debug)]
pub struct RangeS {
    pub begin: CodeLocationS,
    pub end: CodeLocationS,
}

impl RangeS {
    /// The range with no user source named by a marker.
    pub open spec fn internal_spec(marker: i32) -> RangeS {
        RangeS { begin: CodeLocationS { file: u32::MAX, offset: marker }, end: CodeLocationS { file: u32::MAX, offset: marker } }
    }

    /// A range with no user source, for compiler-generated nodes, named by a (negative) marker.
    pub fn internal(marker: i32) -> (r: RangeS)
        ensures
            r == RangeS::internal_spec(marker),
            r.begin.offset == marker,
            r.end.offset == marker,
            r.begin.file == u32::MAX,
            r.end.file == u32::MAX,
    {
        let at = CodeLocationS { file: u32::MAX, offset: marker };
        RangeS { begin: at, end: at }
    }
}

} // verus!
