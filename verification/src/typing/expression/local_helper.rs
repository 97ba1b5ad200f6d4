//! Making, ending and dropping locals, and the obligation that tracks temporaries still to drop.

use vstd::prelude::*;
use crate::names::IVarNameT;
use crate::range::RangeS;
use crate::loc::LocT;
use crate::compiler_error_reporter::ICompileErrorT;
use crate::typing::types::KindT;
use crate::typing::expressions::{ExpressionTE, LocalVariableT, result_of_te};
use crate::typing::env::{NodeEnvironmentBox, find_local};
use crate::typing::compiler::{Compiler, CompilerOutputs};
use crate::typing::expression::expression_compiler::reversed;
use crate::typing::function::destructor_compiler::{dropped, drop_returns_void, drops_by_call, drop_function};

verus! {

/// The temporary locals made to hold borrowed values, which must later be unlet and dropped (or, on
/// a path that never returns, unlet without dropping). Taking them out, or abandoning them on an
/// error, disarms the obligation; merging a child's obligation into this one keeps the order,
/// the child's temporaries landing after ours. The obligation is armed only while a temporary is
/// outstanding: an empty one may be let go.
pub struct PendingTempDrops {
    vars: Vec<LocalVariableT>,
    armed: bool,
}

impl View for PendingTempDrops {
    type V = Seq<LocalVariableT>;

    closed spec fn view(&self) -> Seq<LocalVariableT> {
        self.vars@
    }
}

impl PendingTempDrops {
    /// Whether the obligation is armed: dropping it unfulfilled would be a bug.
    pub closed spec fn is_armed(&self) -> bool {
        self.armed
    }

    /// An obligation with no temporaries yet; with nothing outstanding it is not armed.
    pub fn none() -> (r: PendingTempDrops)
        ensures r@ == Seq::<LocalVariableT>::empty(), !r.is_armed(),
    {
        PendingTempDrops { vars: Vec::new(), armed: false }
    }

    /// One outstanding temporary, what lending a single value makes.
    pub fn of_one(temp: LocalVariableT) -> (r: PendingTempDrops)
        ensures r@ == seq![temp], r.is_armed(),
    {
        let mut vars: Vec<LocalVariableT> = Vec::new();
        vars.push(temp);
        PendingTempDrops { vars, armed: true }
    }

    /// Add one more temporary.
    pub fn push(&mut self, temp: LocalVariableT)
        ensures final(self)@ == old(self)@.push(temp), final(self).is_armed(),
    {
        self.vars.push(temp);
        self.armed = true;
    }

    /// Abandon the obligation because the compile is failing: no tree is built, so there is nothing
    /// to drop the temporaries into.
    pub fn defuse_on_error(self) {
        let mut this = self;
        this.armed = false;
    }

    /// Merge a sub-expression's obligation into this one, taking the child's temporaries after ours.
    pub fn absorb(&mut self, child: PendingTempDrops)
        ensures
            final(self)@ == old(self)@ + child@,
            final(self).is_armed() == (old(self).is_armed() || child@.len() > 0),
    {
        let mut child = child;
        if child.vars.len() > 0 {
            self.armed = true;
        }
        child.armed = false;
        self.vars.append(&mut child.vars);
    }

    /// Take the temporaries out, last made first (the reverse of the order they were made in),
    /// discharging the obligation.
    pub fn take_vars(self) -> (r: Vec<LocalVariableT>)
        ensures r@ == reversed(self@),
    {
        let mut this = self;
        this.armed = false;
        let ghost v0 = this.vars@;
        let mut out: Vec<LocalVariableT> = Vec::new();
        while this.vars.len() > 0
            invariant
                out@.len() <= v0.len(),
                this.vars@ == v0.subrange(0, v0.len() - out@.len()),
                forall|k: int| 0 <= k < out@.len() ==> #[trigger] out@[k] == v0[v0.len() - 1 - k],
            decreases this.vars@.len(),
        {
            let v = this.vars.pop().unwrap();
            out.push(v);
        }
        assert(out@ =~= reversed(v0));
        out
    }
}

/// The names of some locals, in order.
pub open spec fn local_names(vars: Seq<LocalVariableT>) -> Seq<IVarNameT> {
    vars.map_values(|v: LocalVariableT| v.name)
}

/// Dropping each of `vars` (unlet first) at location `loct` extended by its index gave `es`.
pub open spec fn all_dropped(c: Compiler, coutputs: CompilerOutputs, range: Seq<RangeS>, loct: Seq<i32>, vars: Seq<LocalVariableT>, es: Seq<ExpressionTE>) -> bool {
    &&& es.len() == vars.len()
    &&& forall|i: int| 0 <= i < vars.len() ==> dropped(c, coutputs, range, loct.push(i as i32),
            ExpressionTE::Unlet { range: range[0], variable: vars[i] }, Ok::<ExpressionTE, ICompileErrorT>(#[trigger] es[i]))
}

/// Every one of these locals can be dropped: none is a citizen, array or placeholder without a `drop`.
pub open spec fn all_droppable(c: Compiler, coutputs: CompilerOutputs, vars: Seq<LocalVariableT>) -> bool {
    forall|i: int| 0 <= i < vars.len() ==> !(drops_by_call((#[trigger] vars[i]).tyype) && drop_function(c, coutputs, vars[i].tyype) is None)
}

/// Dropping `vars` in order stopped with `e` at the first of them whose kind has no `drop`, the
/// `i`th dropped at `loct` extended by `i`.
pub open spec fn first_failed_drop(c: Compiler, coutputs: CompilerOutputs, range: Seq<RangeS>, loct: Seq<i32>, vars: Seq<LocalVariableT>, e: ICompileErrorT) -> bool {
    exists|i: int| 0 <= i < vars.len()
        && (forall|j: int| 0 <= j < i ==> !(drops_by_call((#[trigger] vars[j]).tyype) && drop_function(c, coutputs, vars[j].tyype) is None))
        && dropped(c, coutputs, range, loct.push(i as i32), ExpressionTE::Unlet { range: range[0], variable: #[trigger] vars[i] },
            Err::<ExpressionTE, ICompileErrorT>(e))
}

/// What dropping these locals calls returns nothing.
pub open spec fn all_drops_return_void(c: Compiler, coutputs: CompilerOutputs, vars: Seq<LocalVariableT>) -> bool {
    forall|i: int| 0 <= i < vars.len() ==> drop_returns_void(c, coutputs, (#[trigger] vars[i]).tyype)
}

/// `name` is the name of the temporary made at location `loct`.
pub open spec fn temp_named_at(c: Compiler, name: IVarNameT, loct: Seq<i32>) -> bool {
    name matches IVarNameT::TypingPassTemporaryVarName(h) && h < c.typing_interner.locs@.len()
        && c.typing_interner.loc_paths()[h as int] == loct
}

impl Compiler {
    /// Declare a temporary local, named by the location that makes it.
    pub fn make_temporary_local(&mut self, nenv: &mut NodeEnvironmentBox, loct: &LocT, coord: KindT) -> (r: LocalVariableT)
        requires old(self).typing_interner.locs@.len() < u32::MAX,
        ensures
            temp_named_at(*final(self), r.name, loct@),
            r.tyype == coord,
            final(nenv).declared_locals@ == old(nenv).declared_locals@.push(r),
            final(nenv).unstackified_locals@ == old(nenv).unstackified_locals@,
            old(self).typing_interner.loc_paths().is_prefix_of(final(self).typing_interner.loc_paths()),
            final(self).typing_interner.locs@.len() <= old(self).typing_interner.locs@.len() + 1,
            final(self).interner == old(self).interner,
            final(self).keywords == old(self).keywords,
    {
        let var_id = self.typing_interner.intern_typing_pass_temporary_var_name(loct);
        let rlv = LocalVariableT { name: var_id, tyype: coord };
        nenv.add_variable(rlv.copy());
        rlv
    }

    /// Hold a value in a new temporary and lend it, returning the lend and the obligation to drop the
    /// temporary later.
    pub fn make_temporary_local_borrow(
        &mut self,
        coutputs: &CompilerOutputs,
        nenv: &mut NodeEnvironmentBox,
        range: &Vec<RangeS>,
        loct: &LocT,
        r: ExpressionTE,
    ) -> (out: Result<(ExpressionTE, PendingTempDrops), ICompileErrorT>)
        requires
            range@.len() > 0,
            old(self).typing_interner.locs@.len() < u32::MAX,
        ensures
            out is Ok,
            out matches Ok((lend, pending)) ==> {
                &&& lend matches ExpressionTE::LetAndLend { range: at, loct: l, variable, expr }
                &&& at == range@[0]
                &&& l@ == loct@
                &&& *expr == r
                &&& pending@ == seq![variable]
                &&& pending.is_armed()
                &&& variable.tyype == result_of_te(r)
                &&& temp_named_at(*final(self), variable.name, loct@)
                &&& final(nenv).declared_locals@ == old(nenv).declared_locals@.push(variable)
            },
            final(nenv).unstackified_locals@ == old(nenv).unstackified_locals@,
            old(self).typing_interner.loc_paths().is_prefix_of(final(self).typing_interner.loc_paths()),
            final(self).typing_interner.locs@.len() <= old(self).typing_interner.locs@.len() + 1,
            final(self).interner == old(self).interner,
            final(self).keywords == old(self).keywords,
    {
        let rlv = self.make_temporary_local(nenv, loct, r.result());
        let pending = PendingTempDrops::of_one(rlv.copy());
        let let_expr_2 = ExpressionTE::LetAndLend { range: range[0], loct: loct.copy(), variable: rlv, expr: Box::new(r) };
        Ok((let_expr_2, pending))
    }

    /// End a local without dropping its value: the value moves out.
    pub fn unlet_local_without_dropping(&self, range: RangeS, nenv: &mut NodeEnvironmentBox, local_var: &LocalVariableT) -> (r: ExpressionTE)
        ensures
            r == (ExpressionTE::Unlet { range, variable: *local_var }),
            final(nenv).declared_locals@ == old(nenv).declared_locals@,
            final(nenv).unstackified_locals@ == old(nenv).unstackified_locals@.push(local_var.name),
    {
        nenv.mark_local_unstackified(local_var.name);
        ExpressionTE::Unlet { range, variable: local_var.copy() }
    }

    /// End each local and drop its value, the `i`th at `loct` extended by `i`. Stops at the first
    /// local whose kind has no `drop`.
    pub fn unlet_and_drop_all(
        &self,
        coutputs: &CompilerOutputs,
        nenv: &mut NodeEnvironmentBox,
        loct: &LocT,
        range: &Vec<RangeS>,
        variables: &Vec<LocalVariableT>,
    ) -> (r: Result<Vec<ExpressionTE>, ICompileErrorT>)
        requires
            range@.len() > 0,
            loct@.len() < usize::MAX,
            variables@.len() <= i32::MAX,
            all_drops_return_void(*self, *coutputs, variables@),
        ensures
            r is Ok <==> all_droppable(*self, *coutputs, variables@),
            r matches Ok(es) ==> all_dropped(*self, *coutputs, range@, loct@, variables@, es@)
                && final(nenv).unstackified_locals@ == old(nenv).unstackified_locals@ + local_names(variables@),
            r matches Err(e) ==> first_failed_drop(*self, *coutputs, range@, loct@, variables@, e),
            final(nenv).declared_locals@ == old(nenv).declared_locals@,
    {
        let mut out: Vec<ExpressionTE> = Vec::new();
        let mut index: usize = 0;
        while index < variables.len()
            invariant
                index <= variables@.len(),
                variables@.len() <= i32::MAX,
                range@.len() > 0,
                loct@.len() < usize::MAX,
                all_drops_return_void(*self, *coutputs, variables@),
                all_droppable(*self, *coutputs, variables@.subrange(0, index as int)),
                all_dropped(*self, *coutputs, range@, loct@, variables@.subrange(0, index as int), out@),
                nenv.unstackified_locals@ == old(nenv).unstackified_locals@ + local_names(variables@.subrange(0, index as int)),
                nenv.declared_locals@ == old(nenv).declared_locals@,
            decreases variables@.len() - index,
        {
            let unlet = self.unlet_local_without_dropping(range[0], nenv, &variables[index]);
            proof { assert(drop_returns_void(*self, *coutputs, variables@[index as int].tyype)); }
            let dropped_expr = self.drop(coutputs, range, &loct.add(index as i32), unlet);
            match dropped_expr {
                Ok(e) => {
                    out.push(e);
                    proof {
                        let pre = variables@.subrange(0, index + 1);
                        assert(pre =~= variables@.subrange(0, index as int).push(variables@[index as int]));
                        assert(local_names(pre) =~= local_names(variables@.subrange(0, index as int)).push(variables@[index as int].name));
                        assert forall|i: int| 0 <= i < pre.len() implies
                            !(drops_by_call((#[trigger] pre[i]).tyype) && drop_function(*self, *coutputs, pre[i].tyype) is None) by {
                            if i < index {
                                assert(pre[i] == variables@.subrange(0, index as int)[i]);
                            }
                        }
                        assert forall|i: int| 0 <= i < pre.len() implies dropped(*self, *coutputs, range@, loct@.push(i as i32),
                            ExpressionTE::Unlet { range: range@[0], variable: pre[i] }, Ok::<ExpressionTE, ICompileErrorT>(#[trigger] out@[i])) by {
                            if i < index {
                                assert(pre[i] == variables@.subrange(0, index as int)[i]);
                            }
                        }
                    }
                },
                Err(e) => {
                    proof {
                        assert(!all_droppable(*self, *coutputs, variables@)) by {
                            assert(variables@[index as int] == variables@[index as int]);
                        }
                        let ii = index as int;
                        assert forall|j: int| 0 <= j < ii implies
                            !(drops_by_call((#[trigger] variables@[j]).tyype) && drop_function(*self, *coutputs, variables@[j].tyype) is None) by {
                            assert(variables@[j] == variables@.subrange(0, ii)[j]);
                        }
                        assert(dropped(*self, *coutputs, range@, loct@.push(ii as i32), ExpressionTE::Unlet { range: range@[0], variable: variables@[ii] },
                            Err::<ExpressionTE, ICompileErrorT>(e)));
                    }
                    return Err(e);
                },
            }
            index = index + 1;
        }
        proof {
            assert(variables@.subrange(0, variables@.len() as int) =~= variables@);
        }
        Ok(out)
    }

    /// End each local without dropping it.
    pub fn unlet_all_without_dropping(
        &self,
        coutputs: &CompilerOutputs,
        nenv: &mut NodeEnvironmentBox,
        range: &Vec<RangeS>,
        variables: &Vec<LocalVariableT>,
    ) -> (r: Vec<ExpressionTE>)
        requires range@.len() > 0,
        ensures
            r@.len() == variables@.len(),
            forall|i: int| 0 <= i < variables@.len() ==> #[trigger] r@[i] == (ExpressionTE::Unlet { range: range@[0], variable: variables@[i] }),
            final(nenv).unstackified_locals@ == old(nenv).unstackified_locals@ + local_names(variables@),
            final(nenv).declared_locals@ == old(nenv).declared_locals@,
    {
        let mut out: Vec<ExpressionTE> = Vec::new();
        let mut index: usize = 0;
        while index < variables.len()
            invariant
                index <= variables@.len(),
                range@.len() > 0,
                out@.len() == index,
                forall|i: int| 0 <= i < index ==> #[trigger] out@[i] == (ExpressionTE::Unlet { range: range@[0], variable: variables@[i] }),
                nenv.unstackified_locals@ == old(nenv).unstackified_locals@ + local_names(variables@.subrange(0, index as int)),
                nenv.declared_locals@ == old(nenv).declared_locals@,
            decreases variables@.len() - index,
        {
            out.push(self.unlet_local_without_dropping(range[0], nenv, &variables[index]));
            proof {
                assert(local_names(variables@.subrange(0, index + 1))
                    =~= local_names(variables@.subrange(0, index as int)).push(variables@[index as int].name));
            }
            index = index + 1;
        }
        proof {
            assert(variables@.subrange(0, variables@.len() as int) =~= variables@);
        }
        out
    }

    /// Declare a local the source names. There must be no local of that name already.
    pub fn make_user_local_variable(
        &self,
        coutputs: &CompilerOutputs,
        nenv: &mut NodeEnvironmentBox,
        range: &Vec<RangeS>,
        var_name: IVarNameT,
        reference_type2: KindT,
    ) -> (r: LocalVariableT)
        requires find_local(old(nenv).declared_locals@, var_name) is None,
        ensures
            r == (LocalVariableT { name: var_name, tyype: reference_type2 }),
            final(nenv).declared_locals@ == old(nenv).declared_locals@.push(r),
            final(nenv).unstackified_locals@ == old(nenv).unstackified_locals@,
    {
        let local_var = LocalVariableT { name: var_name, tyype: reference_type2 };
        nenv.add_variable(local_var.copy());
        local_var
    }
}

} // verus!
