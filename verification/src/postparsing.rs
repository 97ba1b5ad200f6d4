//! What the borrow checker reads of the postparsed (scout) function: written groups, parameter
//! types, and declared effects.

use vstd::prelude::*;
use crate::names::IVarNameT;
use crate::interner::StrI;
use crate::names::IRuneS;
use crate::range::RangeS;

verus! {

/// A group as written in the source: `r`, `r.items`, `r[]`, `r...`, or a union of those.
#[derive(Debug)]
pub enum GroupS {
    Union { members: Vec<GroupS> },
    Rune(IRuneS),
    /// A group written as a local's name (`in x`).
    Local(StrI),
    Member { base: Box<GroupS>, member_name: StrI },
    Elements { base: Box<GroupS> },
    Ellipsis { base: Box<GroupS> },
}

/// The region part of a written borrow type.
#[derive(Debug)]
pub enum RegionS {
    Unspecified,
    /// `held`: the borrow belongs to no group.
    Held,
    Group(GroupS),
}

/// A written borrow type, `&T in g`: the referent as written, and the region.
#[derive(Debug)]
pub struct BorrowRefST {
    pub range: RangeS,
    pub inner: Box<ITypeST>,
    pub region: RegionS,
}

/// A written type, as far as the borrow checker reads it.
#[derive(Debug)]
pub enum ITypeST {
    BorrowRef(BorrowRefST),
    /// A rune standing for a type, such as the `T` of `x T`.
    Rune(IRuneS),
    /// A template applied to arguments, such as `List<T>` or `StaticArray<N, T>`.
    Call { template: Box<ITypeST>, args: Vec<ITypeST> },
    /// `[]T`.
    RuntimeSizedArray { element: Box<ITypeST> },
    /// `^T`.
    OwnRef { inner: Box<ITypeST> },
    /// `&&T`, a weak reference.
    WeakRef { inner: Box<ITypeST> },
    /// Any other written type (a primitive, a name, a tuple): none names a group.
    Other,
}

/// A declared effect of a function.
#[derive(Debug)]
pub enum EffectS {
    /// `mut(g)`: the function may churn `g`.
    Mut(GroupS),
    /// `not mut(g)`.
    NotMut(GroupS),
}

/// A postparsed parameter: the local it binds, and its written type.
#[derive(Debug)]
pub struct ParameterS {
    pub name: IVarNameT,
    pub tyype: ITypeST,
}

/// A postparsed function's header: its generic parameters' runes, its parameters, its declared
/// effects and its written return type.
#[derive(Debug)]
pub struct FunctionS {
    pub range: RangeS,
    pub generic_params: Vec<IRuneS>,
    pub params: Vec<ParameterS>,
    pub effects: Vec<EffectS>,
    pub maybe_return_type: Option<ITypeST>,
}

/// What a pattern captures its value in: a new local, or (`mutate`) an existing one it stores into.
#[derive(Debug)]
pub struct CaptureS {
    pub name: IVarNameT,
    pub mutate: bool,
}

/// A pattern: where it is written, what it captures, and the member patterns it destructures into.
#[derive(Debug)]
pub struct AtomSP {
    pub range: RangeS,
    pub name: Option<CaptureS>,
    pub destructure: Option<Vec<AtomSP>>,
}

} // verus!
