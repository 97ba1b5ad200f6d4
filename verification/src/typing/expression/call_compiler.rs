//! Compiling calls: to a named function chosen by overload resolution, or to a callable value
//! through its `__call`, and checking a call's argument kinds against its parameters.

use vstd::prelude::*;
use crate::range::RangeS;
use crate::loc::LocT;
use crate::compiler_error_reporter::{ICompileErrorT, copy_ranges};
use crate::typing::types::{KindT, BorrowRefT, same_kind};
use crate::typing::compiler::{Compiler, CompilerOutputs};
use crate::typing::expressions::{ExpressionTE, PrototypeTT, result_of_te, deref_of};
use crate::typing::env::NodeEnvironmentBox;
use crate::typing::convert_helper::{converted, convert_defined, converts_at};
use crate::typing::expression::local_helper::{PendingTempDrops, temp_named_at};

verus! {

/// Arguments fit parameters: the same kinds, except that an exact check lets an argument that never
/// returns stand for any parameter (no conversion ever happens).
pub open spec fn args_fit(params: Seq<KindT>, args: Seq<KindT>, exact: bool) -> bool {
    &&& params.len() == args.len()
    &&& forall|i: int| 0 <= i < params.len() ==> (#[trigger] params[i] == args[i] || (exact && args[i] is Never))
}

/// What overload resolution answered for a call: the function it chose (and, for a call through an
/// interface method, which parameter is the virtual one), or that it found none. For a failed
/// lookup of the downcast `as`, `isa_failures` holds each rejected candidate's failed subtype test,
/// as (subtype, supertype).
pub enum FindFunctionResultT {
    Found { prototype: PrototypeTT, maybe_virtual_index: Option<usize> },
    NotFound { called_as: bool, isa_failures: Vec<(KindT, KindT)> },
}

/// `call` is the call of `p` on `args`: a call through a generic bound when the virtual argument
/// was upcast to a placeholder (the bound call takes the value before the upcast), else a plain call.
pub open spec fn call_node_is(loct: Seq<i32>, range: Seq<RangeS>, p: PrototypeTT, vi: Option<usize>, args: Seq<ExpressionTE>, call: ExpressionTE) -> bool {
    if vi matches Some(v) && (v as int) < args.len() && args[v as int] is UpcastGeneric {
        &&& call matches ExpressionTE::BoundFunctionCall { range: at, args: bargs, result }
        &&& at == range[0]
        &&& result == p.return_type
        &&& bargs@ == args.update(vi->0 as int, *args[vi->0 as int]->UpcastGeneric_expr)
    } else {
        &&& call matches ExpressionTE::FunctionCall { loct: l, range: rg, callable, args: cargs, result }
        &&& l@ == loct && rg@ == range && callable.same(p) && cargs@ == args && result == p.return_type
    }
}

/// A call returns a borrow of a borrow only through a decay to a single borrow.
pub open spec fn returns_double_borrow(p: PrototypeTT) -> bool {
    p.return_type matches KindT::BorrowRef(b) && *b.inner is BorrowRef
}

/// `x` is the call of `p` on `args`, decayed when it would return a borrow of a borrow.
pub open spec fn call_built(loct: Seq<i32>, range: Seq<RangeS>, p: PrototypeTT, vi: Option<usize>, args: Seq<ExpressionTE>, x: ExpressionTE) -> bool {
    if returns_double_borrow(p) {
        x matches ExpressionTE::Deref { range: at, loct: l, inner } && at == range[0] && l@ == loct
            && call_node_is(loct, range, p, vi, args, *inner)
    } else {
        call_node_is(loct, range, p, vi, args, x)
    }
}

/// Converting each argument to its parameter lands on the parameter's kind (or never returns).
pub open spec fn conversions_land(c: Compiler, co: CompilerOutputs, range: Seq<RangeS>, loct: Seq<i32>, args: Seq<ExpressionTE>, params: Seq<KindT>) -> bool {
    forall|i: int, x: ExpressionTE| 0 <= i < args.len() && #[trigger] converted(c, co, range, loct.push(i as i32), args[i], params[i], Ok::<ExpressionTE, ICompileErrorT>(x))
        ==> (params[i] == result_of_te(x) || result_of_te(x) is Never)
}

/// The kind the callable is held by when called through `__call`: as it is if already a borrow or a
/// share, else a borrow of a temporary holding it.
pub open spec fn callable_held_kind(k: KindT) -> KindT {
    if k is BorrowRef || k is ShareRef { k } else { KindT::BorrowRef(BorrowRefT { inner: Box::new(k) }) }
}

/// What a call to a named function gives, for each answer of overload resolution.
pub open spec fn named_call(c: Compiler, co: CompilerOutputs, range: Seq<RangeS>, loct: Seq<i32>, args: Seq<ExpressionTE>,
    resolved: FindFunctionResultT, r: Result<(ExpressionTE, PendingTempDrops), ICompileErrorT>) -> bool
{
    match resolved {
        FindFunctionResultT::NotFound { called_as, isa_failures } => if called_as && isa_failures@.len() > 0 {
            r matches Err(ICompileErrorT::CantDowncastUnrelatedTypes { range: rg, source_kind, target_kind })
                && rg@ == range && source_kind == isa_failures@[0].1 && target_kind == isa_failures@[0].0
        } else {
            r matches Err(ICompileErrorT::CouldntFindFunctionToCallT { range: rg }) && rg@ == range
        },
        FindFunctionResultT::Found { prototype, maybe_virtual_index } => {
            &&& r matches Err(e) ==> exists|i: int| 0 <= i < args.len()
                && (forall|j: int| 0 <= j < i ==> #[trigger] converts_at(c, co, range, loct, args, prototype.params@, j))
                && converted(c, co, range, loct.push(i as i32), #[trigger] args[i], prototype.params@[i], Err::<ExpressionTE, ICompileErrorT>(e))
            &&& r matches Ok((x, pending)) ==> {
                &&& pending@.len() == 0 && !pending.is_armed()
                &&& exists|cs: Seq<ExpressionTE>| cs.len() == args.len()
                    && (forall|i: int| 0 <= i < args.len() ==> converted(c, co, range, loct.push(i as i32), args[i], prototype.params@[i],
                        Ok::<ExpressionTE, ICompileErrorT>(#[trigger] cs[i])))
                    && call_built(loct, range, prototype, maybe_virtual_index, cs, x)
            }
        },
    }
}

/// A call to the function overload resolution chose evaluates to what that function returns,
/// except that a function returning a borrow of a borrow gives a single borrow: the call of it is
/// decayed.
pub proof fn law_named_call_result_kind(c: Compiler, co: CompilerOutputs, range: Seq<RangeS>, loct: Seq<i32>, args: Seq<ExpressionTE>,
    resolved: FindFunctionResultT, r: Result<(ExpressionTE, PendingTempDrops), ICompileErrorT>)
    requires
        named_call(c, co, range, loct, args, resolved, r),
        resolved is Found,
        r is Ok,
    ensures
        resolved->Found_prototype.return_type matches KindT::BorrowRef(b) && *b.inner is BorrowRef
            ==> result_of_te(r->Ok_0.0) == *resolved->Found_prototype.return_type->BorrowRef_0.inner,
        !(resolved->Found_prototype.return_type matches KindT::BorrowRef(b) && *b.inner is BorrowRef)
            ==> result_of_te(r->Ok_0.0) == resolved->Found_prototype.return_type,
{
    let p = resolved->Found_prototype;
    let vi = resolved->Found_maybe_virtual_index;
    let x = r->Ok_0.0;
    let cs = choose|cs: Seq<ExpressionTE>| cs.len() == args.len()
        && (forall|i: int| 0 <= i < args.len() ==> converted(c, co, range, loct.push(i as i32), args[i], p.params@[i],
            Ok::<ExpressionTE, ICompileErrorT>(#[trigger] cs[i])))
        && call_built(loct, range, p, vi, cs, x);
    assert(call_built(loct, range, p, vi, cs, x));
    if returns_double_borrow(p) {
        let inner = *x->Deref_inner;
        assert(call_node_is(loct, range, p, vi, cs, inner));
        assert(result_of_te(inner) == p.return_type);
        assert(result_of_te(x) == deref_of(result_of_te(inner)));
    } else {
        assert(result_of_te(x) == p.return_type);
    }
}

impl Compiler {
    /// Check a call's argument kindsimpl Compiler {
    /// Check a call's argument kinds against its parameters' kinds. The check accepts only
    /// arguments that fit; a non-exact check with a mismatch, or a mismatch that is not `Never`, is
    /// a case the checker does not handle.
    pub fn check_types(&self, params: &Vec<KindT>, args: &Vec<KindT>, exact: bool)
        requires args_fit(params@, args@, exact),
    {
        let mut i: usize = 0;
        while i < params.len()
            invariant
                i <= params@.len(),
                params@.len() == args@.len(),
                args_fit(params@, args@, exact),
            decreases params@.len() - i,
        {
            if !same_kind(&params[i], &args[i]) {
                proof { assert(exact && args@[i as int] is Never); }
            }
            i = i + 1;
        }
    }

    /// Compile a call of `callable_expr` on `given_args_exprs_2`. A callable that names an overload
    /// set calls the function overload resolution chose (`resolved`), converting each argument to its
    /// parameter; when none was found the call is an error, a failed downcast `as` naming the
    /// unrelated kinds. Any other callable is called through its `__call` (see
    /// `evaluate_custom_call`).
    pub fn evaluate_call(
        &mut self,
        coutputs: &CompilerOutputs,
        nenv: &mut NodeEnvironmentBox,
        loct: &LocT,
        range: &Vec<RangeS>,
        callable_expr: ExpressionTE,
        given_args_exprs_2: Vec<ExpressionTE>,
        resolved: FindFunctionResultT,
    ) -> (r: Result<(ExpressionTE, PendingTempDrops), ICompileErrorT>)
        requires
            !(result_of_te(callable_expr) is Never) && !(result_of_te(callable_expr) is Bool),
            loct@.len() < usize::MAX,
            given_args_exprs_2@.len() <= i32::MAX,
            range@.len() > 0 || resolved is NotFound,
            result_of_te(callable_expr) is OverloadSet ==> (resolved matches FindFunctionResultT::Found { prototype, .. } ==> {
                &&& prototype.params@.len() == given_args_exprs_2@.len()
                &&& forall|i: int| 0 <= i < given_args_exprs_2@.len()
                    ==> convert_defined(result_of_te(#[trigger] given_args_exprs_2@[i]), prototype.params@[i])
                &&& conversions_land(*old(self), *coutputs, range@, loct@, given_args_exprs_2@, prototype.params@)
            }),
            !(result_of_te(callable_expr) is OverloadSet) ==> {
                &&& resolved matches FindFunctionResultT::Found { prototype, .. }
                &&& prototype.params@ == seq![callable_held_kind(result_of_te(callable_expr))]
                    + given_args_exprs_2@.map_values(|e: ExpressionTE| result_of_te(e))
                &&& old(self).typing_interner.locs@.len() < u32::MAX
            },
        ensures
            result_of_te(callable_expr) is OverloadSet ==> {
                &&& named_call(*old(self), *coutputs, range@, loct@, given_args_exprs_2@, resolved, r)
                &&& *final(self) == *old(self)
                &&& *final(nenv) == *old(nenv)
            },
            !(result_of_te(callable_expr) is OverloadSet) ==>
                custom_called(*final(self), *old(nenv), *final(nenv), range@, loct@, callable_expr, given_args_exprs_2@, resolved, r),
    {
        match callable_expr.result() {
            KindT::OverloadSet(_) => self.evaluate_named_call(coutputs, nenv, loct, range, given_args_exprs_2, resolved),
            _ => self.evaluate_custom_call(coutputs, nenv, loct, range, callable_expr, given_args_exprs_2, resolved),
        }
    }

    fn evaluate_named_call(
        &self,
        coutputs: &CompilerOutputs,
        nenv: &mut NodeEnvironmentBox,
        loct: &LocT,
        range: &Vec<RangeS>,
        given_args_exprs_2: Vec<ExpressionTE>,
        resolved: FindFunctionResultT,
    ) -> (r: Result<(ExpressionTE, PendingTempDrops), ICompileErrorT>)
        requires
            loct@.len() < usize::MAX,
            given_args_exprs_2@.len() <= i32::MAX,
            range@.len() > 0 || resolved is NotFound,
            resolved matches FindFunctionResultT::Found { prototype, .. } ==> {
                &&& prototype.params@.len() == given_args_exprs_2@.len()
                &&& forall|i: int| 0 <= i < given_args_exprs_2@.len()
                    ==> convert_defined(result_of_te(#[trigger] given_args_exprs_2@[i]), prototype.params@[i])
                &&& conversions_land(*self, *coutputs, range@, loct@, given_args_exprs_2@, prototype.params@)
            },
        ensures
            named_call(*self, *coutputs, range@, loct@, given_args_exprs_2@, resolved, r),
            *final(nenv) == *old(nenv),
    {
        match resolved {
            FindFunctionResultT::NotFound { called_as, isa_failures } => {
                if called_as && isa_failures.len() > 0 {
                    let (sub, suuper) = &isa_failures[0];
                    return Err(ICompileErrorT::CantDowncastUnrelatedTypes {
                        range: copy_ranges(range), source_kind: suuper.copy(), target_kind: sub.copy(),
                    });
                }
                Err(ICompileErrorT::CouldntFindFunctionToCallT { range: copy_ranges(range) })
            },
            FindFunctionResultT::Found { prototype, maybe_virtual_index } => {
                let ghost args = given_args_exprs_2@;
                let args_exprs_2 = match self.convert_exprs(nenv, loct, coutputs, range, given_args_exprs_2, &prototype.params) {
                    Ok(a) => a,
                    Err(e) => { return Err(e); },
                };
                let mut kinds: Vec<KindT> = Vec::new();
                let mut i: usize = 0;
                while i < args_exprs_2.len()
                    invariant
                        i <= args_exprs_2@.len(),
                        kinds@.len() == i,
                        forall|k: int| 0 <= k < i ==> #[trigger] kinds@[k] == result_of_te(args_exprs_2@[k]),
                    decreases args_exprs_2@.len() - i,
                {
                    kinds.push(args_exprs_2[i].result());
                    i = i + 1;
                }
                proof {
                    assert forall|k: int| 0 <= k < prototype.params@.len() implies
                        (#[trigger] prototype.params@[k] == kinds@[k] || kinds@[k] is Never) by {
                        assert(converted(*self, *coutputs, range@, loct@.push(k as i32), args[k], prototype.params@[k],
                            Ok::<ExpressionTE, ICompileErrorT>(args_exprs_2@[k])));
                    }
                }
                self.check_types(&prototype.params, &kinds, true);
                let ghost cs = args_exprs_2@;
                let result_te = prototype.return_type.copy();
                let call_expr = match maybe_virtual_index {
                    Some(vi) => {
                        if vi < args_exprs_2.len() && matches!(args_exprs_2[vi], ExpressionTE::UpcastGeneric { .. }) {
                            let mut bound_args = args_exprs_2;
                            let upcast = bound_args.remove(vi);
                            match upcast {
                                ExpressionTE::UpcastGeneric { expr, .. } => {
                                    bound_args.insert(vi, *expr);
                                    proof { assert(bound_args@ =~= cs.update(vi as int, *cs[vi as int]->UpcastGeneric_expr)); }
                                },
                                _ => {},
                            }
                            ExpressionTE::BoundFunctionCall { range: range[0], args: bound_args, result: result_te }
                        } else {
                            ExpressionTE::FunctionCall {
                                loct: loct.copy(), range: copy_ranges(range), callable: prototype.copy(), args: args_exprs_2, result: result_te,
                            }
                        }
                    },
                    None => ExpressionTE::FunctionCall {
                        loct: loct.copy(), range: copy_ranges(range), callable: prototype.copy(), args: args_exprs_2, result: result_te,
                    },
                };
                let decayed = match &prototype.return_type {
                    KindT::BorrowRef(b) => match &*b.inner {
                        KindT::BorrowRef(_) => ExpressionTE::Deref { range: range[0], loct: loct.copy(), inner: Box::new(call_expr) },
                        _ => call_expr,
                    },
                    _ => call_expr,
                };
                let pending = PendingTempDrops::none();
                proof {
                    assert(call_built(loct@, range@, prototype, maybe_virtual_index, cs, decayed));
                }
                Ok((decayed, pending))
            },
        }
    }

    /// Call a callable value through its `__call`, which overload resolution chose (`resolved`): the
    /// callable is passed first, as a borrow; a value that is not already a borrow or a share gets a
    /// temporary to live in, which the caller must later drop.
    pub fn evaluate_custom_call(
        &mut self,
        coutputs: &CompilerOutputs,
        nenv: &mut NodeEnvironmentBox,
        loct: &LocT,
        range: &Vec<RangeS>,
        given_callable_unborrowed_expr_2: ExpressionTE,
        given_args_exprs_2: Vec<ExpressionTE>,
        resolved: FindFunctionResultT,
    ) -> (r: Result<(ExpressionTE, PendingTempDrops), ICompileErrorT>)
        requires
            loct@.len() < usize::MAX,
            range@.len() > 0,
            resolved matches FindFunctionResultT::Found { prototype, .. },
            resolved->Found_prototype.params@ == seq![callable_held_kind(result_of_te(given_callable_unborrowed_expr_2))]
                + given_args_exprs_2@.map_values(|e: ExpressionTE| result_of_te(e)),
            old(self).typing_interner.locs@.len() < u32::MAX,
        ensures
            custom_called(*final(self), *old(nenv), *final(nenv), range@, loct@, given_callable_unborrowed_expr_2, given_args_exprs_2@, resolved, r),
    {
        let ghost res = resolved;
        let prototype = match resolved {
            FindFunctionResultT::Found { prototype, .. } => prototype,
            FindFunctionResultT::NotFound { .. } => PrototypeTT { id: 0, name: crate::interner::StrI(0), params: Vec::new(), return_type: KindT::Void },
        };
        let ghost callable = given_callable_unborrowed_expr_2;
        let (callable_borrow, pending) = match given_callable_unborrowed_expr_2.result() {
            KindT::BorrowRef(_) | KindT::ShareRef(_) => (given_callable_unborrowed_expr_2, PendingTempDrops::none()),
            _ => {
                let lent = self.make_temporary_local_borrow(coutputs, nenv, range, &loct.add(0), given_callable_unborrowed_expr_2);
                match lent {
                    Ok(x) => x,
                    Err(e) => { return Err(e); },
                }
            },
        };
        let ghost held = callable_borrow;
        let mut args: Vec<ExpressionTE> = Vec::new();
        args.push(callable_borrow);
        let ghost rest = given_args_exprs_2@;
        let mut given = given_args_exprs_2;
        args.append(&mut given);
        proof { assert(args@ =~= seq![held] + rest); }
        let mut kinds: Vec<KindT> = Vec::new();
        let mut i: usize = 0;
        while i < args.len()
            invariant
                i <= args@.len(),
                kinds@.len() == i,
                forall|k: int| 0 <= k < i ==> #[trigger] kinds@[k] == result_of_te(args@[k]),
            decreases args@.len() - i,
        {
            kinds.push(args[i].result());
            i = i + 1;
        }
        proof {
            assert forall|k: int| 0 <= k < prototype.params@.len() implies #[trigger] prototype.params@[k] == kinds@[k] by {
                if k == 0 {
                    assert(result_of_te(held) == callable_held_kind(result_of_te(callable)));
                } else {
                    assert(args@[k] == rest[k - 1]);
                }
            }
        }
        self.check_types(&prototype.params, &kinds, true);
        let result_te = prototype.return_type.copy();
        proof {
            assert(prototype == res->Found_prototype);
            assert(args@.subrange(1, args@.len() as int) =~= rest);
            assert(args@[0] == held);
        }
        Ok((ExpressionTE::FunctionCall { loct: loct.copy(), range: copy_ranges(range), callable: prototype.copy(), args, result: result_te }, pending))
    }
}

/// What calling `callable` through its `__call` gives: the call, with the callable held as it is
/// when it is a borrow or share, else lent from a temporary made at `loct` extended by 0, whose
/// drop is owed.
pub open spec fn custom_called(c: Compiler, nenv0: NodeEnvironmentBox, nenv1: NodeEnvironmentBox, range: Seq<RangeS>, loct: Seq<i32>,
    callable: ExpressionTE, args: Seq<ExpressionTE>, resolved: FindFunctionResultT,
    r: Result<(ExpressionTE, PendingTempDrops), ICompileErrorT>) -> bool
{
    let p = resolved->Found_prototype;
    &&& r matches Ok((x, pending))
    &&& x matches ExpressionTE::FunctionCall { loct: l, range: rg, callable: called, args: cargs, result }
    &&& l@ == loct && rg@ == range && called.same(p) && result == p.return_type
    &&& cargs@.len() == args.len() + 1
    &&& cargs@.subrange(1, cargs@.len() as int) == args
    &&& if result_of_te(callable) is BorrowRef || result_of_te(callable) is ShareRef {
        &&& cargs@[0] == callable
        &&& pending@.len() == 0 && !pending.is_armed()
        &&& nenv1 == nenv0
    } else {
        &&& cargs@[0] matches ExpressionTE::LetAndLend { range: at, loct: ll, variable, expr }
        &&& at == range[0] && ll@ == loct.push(0) && *expr == callable
        &&& variable.tyype == result_of_te(callable)
        &&& temp_named_at(c, variable.name, loct.push(0))
        &&& pending@ == seq![variable] && pending.is_armed()
        &&& nenv1.declared_locals@ == nenv0.declared_locals@.push(variable)
        &&& nenv1.unstackified_locals@ == nenv0.unstackified_locals@
    }
}

} // verus!
