//! Typed function headers and the environment a function is compiled in.

use vstd::prelude::*;
use crate::interner::StrI;
use crate::names::IVarNameT;
use crate::typing::types::{KindT, TemplateArgsT};

verus! {

/// A typed parameter.
#[derive(Debug)]
pub struct ParameterT {
    pub name: IVarNameT,
    pub tyype: KindT,
}

impl ParameterT {
    pub fn copy(&self) -> (r: ParameterT)
        ensures r == *self,
    {
        ParameterT { name: self.name, tyype: self.tyype.copy() }
    }
}

/// A typed function's header: which function (its number and the template arguments its name
/// holds), its parameters and return kind, and the template it came from.
#[derive(Debug)]
pub struct FunctionHeaderT {
    pub id: u32,
    pub template_args: TemplateArgsT,
    pub params: Vec<ParameterT>,
    pub return_type: KindT,
    pub maybe_origin_function_templata: Option<u32>,
}

/// The environment a function is compiled in: the function's number and template arguments, its
/// template's number, and the kinds its runes are bound to.
pub struct FunctionEnvironmentT {
    pub id: u32,
    pub template_args: TemplateArgsT,
    pub templata: u32,
    pub rune_kinds: Vec<(StrI, KindT)>,
}

/// A copy of a list of parameters.
pub fn copy_params(params: &Vec<ParameterT>) -> (r: Vec<ParameterT>)
    ensures r@ == params@,
{
    let mut out: Vec<ParameterT> = Vec::new();
    let mut i: usize = 0;
    while i < params.len()
        invariant i <= params@.len(), out@ == params@.subrange(0, i as int),
        decreases params@.len() - i,
    {
        out.push(params[i].copy());
        i = i + 1;
    }
    assert(params@.subrange(0, params@.len() as int) =~= params@);
    out
}

/// The kind the rune named `name` is bound to, if any (the first binding).
pub open spec fn rune_kind_in(bindings: Seq<(StrI, KindT)>, name: StrI) -> Option<KindT>
    decreases bindings.len(),
{
    if bindings.len() == 0 {
        None
    } else if bindings[0].0 == name {
        Some(bindings[0].1)
    } else {
        rune_kind_in(bindings.drop_first(), name)
    }
}

impl FunctionEnvironmentT {
    /// The kind a rune is bound to, if any.
    pub fn lookup_rune_kind(&self, name: StrI) -> (r: Option<KindT>)
        ensures r == rune_kind_in(self.rune_kinds@, name),
    {
        let mut i: usize = 0;
        assert(self.rune_kinds@.subrange(0, self.rune_kinds@.len() as int) =~= self.rune_kinds@);
        while i < self.rune_kinds.len()
            invariant
                i <= self.rune_kinds@.len(),
                rune_kind_in(self.rune_kinds@, name) == rune_kind_in(self.rune_kinds@.subrange(i as int, self.rune_kinds@.len() as int), name),
            decreases self.rune_kinds@.len() - i,
        {
            proof {
                let rest = self.rune_kinds@.subrange(i as int, self.rune_kinds@.len() as int);
                assert(rest.drop_first() =~= self.rune_kinds@.subrange(i + 1, self.rune_kinds@.len() as int));
                assert(rest[0] == self.rune_kinds@[i as int]);
            }
            if self.rune_kinds[i].0 == name {
                return Some(self.rune_kinds[i].1.copy());
            }
            i = i + 1;
        }
        None
    }
}

} // verus!
