//! The environment a body is typed in: the locals declared so far, and which have been moved out.

use vstd::prelude::*;
use crate::names::IVarNameT;
use crate::typing::types::KindT;
pub use crate::typing::types::ITemplataT;
use crate::typing::expressions::LocalVariableT;

verus! {


/// The locals of the node being typed, and the compile-time values in scope.
pub struct NodeEnvironmentBox {
    /// The compile-time values in scope, by name, nearest last.
    pub templatas: Vec<(IVarNameT, ITemplataT)>,
    /// Every local declared so far, in declaration order.
    pub declared_locals: Vec<LocalVariableT>,
    /// The locals moved out (unlet) so far, in order.
    pub unstackified_locals: Vec<IVarNameT>,
}

/// The local `find_local` finds is in range and has the name asked for.
pub proof fn lemma_find_local(locals: Seq<LocalVariableT>, name: IVarNameT)
    ensures find_local(locals, name) matches Some(i) ==> 0 <= i < locals.len() && locals[i].name == name,
    decreases locals.len(),
{
    if locals.len() > 0 {
        lemma_find_local(locals.drop_last(), name);
    }
}

/// The names, in order, leaving out every `name`.
pub open spec fn without_name(names: Seq<IVarNameT>, name: IVarNameT) -> Seq<IVarNameT>
    decreases names.len(),
{
    if names.len() == 0 {
        names
    } else {
        let rest = without_name(names.drop_last(), name);
        if names.last() == name { rest } else { rest.push(names.last()) }
    }
}

/// The latest declared local named `name`, if any.
pub open spec fn find_local(locals: Seq<LocalVariableT>, name: IVarNameT) -> Option<int>
    decreases locals.len(),
{
    if locals.len() == 0 {
        None
    } else if locals.last().name == name {
        Some(locals.len() - 1)
    } else {
        find_local(locals.drop_last(), name)
    }
}

/// The nearest compile-time value named `name`, if any.
pub open spec fn find_templata(templatas: Seq<(IVarNameT, ITemplataT)>, name: IVarNameT) -> Option<int>
    decreases templatas.len(),
{
    if templatas.len() == 0 {
        None
    } else if templatas.last().0 == name {
        Some(templatas.len() - 1)
    } else {
        find_templata(templatas.drop_last(), name)
    }
}

/// A local just declared is the one its name finds, whatever was declared before it.
pub proof fn law_declared_local_found(locals: Seq<LocalVariableT>, v: LocalVariableT)
    ensures
        find_local(locals.push(v), v.name) == Some(locals.len() as int),
        locals.push(v)[locals.len() as int] == v,
{
    assert(locals.push(v).last() == v);
}

/// Declaring a local leaves every other name finding what it found before.
pub proof fn law_declaring_spares_other_names(locals: Seq<LocalVariableT>, v: LocalVariableT, name: IVarNameT)
    requires name != v.name,
    ensures find_local(locals.push(v), name) == find_local(locals, name),
{
    assert(locals.push(v).drop_last() =~= locals);
}

impl NodeEnvironmentBox {
    /// An environment with no locals.
    pub fn new() -> (r: NodeEnvironmentBox)
        ensures r.declared_locals@.len() == 0, r.unstackified_locals@.len() == 0,
    {
        NodeEnvironmentBox { templatas: Vec::new(), declared_locals: Vec::new(), unstackified_locals: Vec::new() }
    }

    /// Whether a local has been moved out.
    pub fn is_unstackified(&self, name: IVarNameT) -> (r: bool)
        ensures r == self.unstackified_locals@.contains(name),
    {
        let mut i: usize = 0;
        while i < self.unstackified_locals.len()
            invariant
                i <= self.unstackified_locals@.len(),
                forall|k: int| 0 <= k < i ==> self.unstackified_locals@[k] != name,
            decreases self.unstackified_locals@.len() - i,
        {
            if self.unstackified_locals[i] == name {
                assert(self.unstackified_locals@[i as int] == name);
                return true;
            }
            i = i + 1;
        }
        false
    }

    /// The nearest compile-time value named `name`, if any.
    pub fn lookup_templata(&self, name: IVarNameT) -> (r: Option<&ITemplataT>)
        ensures
            match find_templata(self.templatas@, name) {
                Some(i) => r is Some && *r->0 == self.templatas@[i].1,
                None => r is None,
            },
    {
        let mut i: usize = self.templatas.len();
        assert(self.templatas@.subrange(0, i as int) =~= self.templatas@);
        while i > 0
            invariant
                i <= self.templatas@.len(),
                find_templata(self.templatas@, name) == find_templata(self.templatas@.subrange(0, i as int), name),
            decreases i,
        {
            proof {
                let pre = self.templatas@.subrange(0, i as int);
                assert(pre.drop_last() =~= self.templatas@.subrange(0, i - 1));
            }
            if self.templatas[i - 1].0 == name {
                return Some(&self.templatas[i - 1].1);
            }
            i = i - 1;
        }
        None
    }

    /// Declare a local.
    pub fn add_variable(&mut self, variable: LocalVariableT)
        ensures
            final(self).declared_locals@ == old(self).declared_locals@.push(variable),
            final(self).unstackified_locals@ == old(self).unstackified_locals@,
    {
        self.declared_locals.push(variable);
    }

    /// Record that a local has been moved out.
    pub fn mark_local_unstackified(&mut self, name: IVarNameT)
        ensures
            final(self).declared_locals@ == old(self).declared_locals@,
            final(self).unstackified_locals@ == old(self).unstackified_locals@.push(name),
    {
        self.unstackified_locals.push(name);
    }

    /// Record that a moved-out local holds a value again.
    pub fn mark_local_restackified(&mut self, name: IVarNameT)
        ensures
            final(self).declared_locals@ == old(self).declared_locals@,
            final(self).unstackified_locals@ == without_name(old(self).unstackified_locals@, name),
    {
        let ghost before = self.unstackified_locals@;
        let mut kept: Vec<IVarNameT> = Vec::new();
        let mut i: usize = 0;
        while i < self.unstackified_locals.len()
            invariant
                i <= self.unstackified_locals@.len(),
                self.unstackified_locals@ == before,
                kept@ == without_name(before.subrange(0, i as int), name),
            decreases self.unstackified_locals@.len() - i,
        {
            proof { assert(before.subrange(0, i + 1).drop_last() =~= before.subrange(0, i as int)); }
            if self.unstackified_locals[i] != name {
                kept.push(self.unstackified_locals[i]);
            }
            i = i + 1;
        }
        proof { assert(before.subrange(0, before.len() as int) =~= before); }
        self.unstackified_locals = kept;
    }

    /// The latest declared local with this name, if any.
    pub fn get_variable(&self, name: IVarNameT) -> (r: Option<&LocalVariableT>)
        ensures
            match find_local(self.declared_locals@, name) {
                Some(i) => r is Some && *r->0 == self.declared_locals@[i],
                None => r is None,
            },
    {
        let mut i: usize = self.declared_locals.len();
        assert(self.declared_locals@.subrange(0, i as int) =~= self.declared_locals@);
        while i > 0
            invariant
                i <= self.declared_locals@.len(),
                find_local(self.declared_locals@, name) == find_local(self.declared_locals@.subrange(0, i as int), name),
            decreases i,
        {
            proof {
                let pre = self.declared_locals@.subrange(0, i as int);
                assert(pre.drop_last() =~= self.declared_locals@.subrange(0, i - 1));
            }
            if self.declared_locals[i - 1].name == name {
                return Some(&self.declared_locals[i - 1]);
            }
            i = i - 1;
        }
        None
    }
}

} // verus!
