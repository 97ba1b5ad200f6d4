//! The borrow checker's entry point for one function: reject a returned borrow with no group, walk
//! the grouped body once for uses of spoiled references, then report which parameters may be treated
//! as `noalias` and which groups each instruction accesses. It stays pure: every input is read only,
//! and the output is an error or the aliasing info.

use vstd::prelude::*;
use crate::range::RangeS;
use crate::postparsing::{FunctionS, ITypeST, RegionS};
use crate::borrow_checker::ast_g::{ExpressionGE, GroupStep, ge_ok, ge_size, may_err};
use crate::borrow_checker::access_event::AccessEventG;
use crate::borrow_checker::borrow_error::BorrowErrorKind;
use crate::borrow_checker::borrowing_ast::{FunctionAliasingInfoT, groups_view, entries_view};
use crate::borrow_checker::experimental::check_usages::{
    effects_ok, sorted_by_offset, no_repeated_use, all_borrow_errors, undeclared_churn_at, declared_mut_of,
    walk_errors, reported_as,
};
use crate::borrow_checker::experimental::aliasing_info::{
    aliasing_input_ok, param_noalias, group_universe, sorted_by_loc, at_loc, logged_entries,
};
use crate::compiler_error_reporter::ICompileErrorT;
use crate::typing::compiler::{Compiler, CompilerOutputs};

verus! {

/// Where a header returns a borrow that names no group, if it does.
pub open spec fn groupless_return(f: FunctionS) -> Option<RangeS> {
    match f.maybe_return_type {
        Some(ITypeST::BorrowRef(st)) => if st.region is Unspecified { Some(st.range) } else { None },
        _ => None,
    }
}

/// Whether a reported error is, or holds among several, the violation `x`.
pub open spec fn reports(e: ICompileErrorT, x: ICompileErrorT) -> bool {
    e == x || (e matches ICompileErrorT::BorrowCheckErrors { errors } && errors@.contains(x))
}

/// `e` reports the violations `errs`: one alone, several together.
pub open spec fn reports_all(e: ICompileErrorT, errs: Seq<ICompileErrorT>) -> bool {
    if errs.len() == 1 { e == errs[0] } else { e matches ICompileErrorT::BorrowCheckErrors { errors } && errors@ == errs }
}

/// The aliasing info the third phase computes for these parameter paths and this access log.
pub open spec fn aliasing_info_of(c: Compiler, paths: Seq<Option<Vec<GroupStep>>>, log: Seq<AccessEventG>, info: FunctionAliasingInfoT) -> bool {
    &&& info.param_index_to_noalias@ == Seq::new(paths.len(), |i: int| param_noalias(paths, i))
    &&& groups_view(info.group_paths@) == group_universe(c.interner, paths, log)
    &&& sorted_by_loc(entries_view(info.instruction_loc_to_accessed_groups@))
    &&& forall|p: Seq<i32>| #[trigger] at_loc(entries_view(info.instruction_loc_to_accessed_groups@), p)
            == at_loc(logged_entries(c.interner, group_universe(c.interner, paths, log), log), p)
}

impl Compiler {
    /// Borrow-check one finished function body and compute its aliasing info. `body` is the grouped
    /// body the grouping pass built, `access_log` what it logged on the way, and `param_paths` each
    /// parameter's flattened group path. One violation is reported bare; several together, in
    /// source order.
    pub fn check_function(
        &self,
        coutputs: &CompilerOutputs,
        function_s: &FunctionS,
        body: &ExpressionGE,
        access_log: &Vec<AccessEventG>,
        param_paths: &Vec<Option<Vec<GroupStep>>>,
    ) -> (r: Result<FunctionAliasingInfoT, ICompileErrorT>)
        requires
            effects_ok(function_s.effects@),
            ge_ok(*body, false),
            ge_size(*body) <= u32::MAX,
            aliasing_input_ok(param_paths@, access_log@),
        ensures
            match groupless_return(*function_s) {
                Some(range) => r == Err::<FunctionAliasingInfoT, ICompileErrorT>(
                    ICompileErrorT::BorrowCheckError { range, kind: BorrowErrorKind::GrouplessReturnBorrow }),
                None => {
                    &&& !may_err(*body) ==> r is Ok
                    &&& r matches Err(e) ==> {
                        ||| e is BorrowCheckError
                        ||| e matches ICompileErrorT::BorrowCheckErrors { errors } && errors@.len() >= 2
                            && sorted_by_offset(errors@) && all_borrow_errors(errors@) && no_repeated_use(errors@)
                    }
                },
            },
            r matches Ok(info) ==> aliasing_info_of(*self, param_paths@, access_log@, info),
            forall|at: RangeS| groupless_return(*function_s) is None && #[trigger] undeclared_churn_at(*body, declared_mut_of(function_s.effects@), at)
                ==> (r matches Err(e) && reports(e, ICompileErrorT::BorrowCheckError { range: at, kind: BorrowErrorKind::UndeclaredChurn })),
            groupless_return(*function_s) is None ==> ((r is Ok) == (walk_errors(*coutputs, *function_s, *body).len() == 0)),
            groupless_return(*function_s) is None ==> (r matches Err(e) ==> exists|errs: Seq<ICompileErrorT>|
                reported_as(errs, walk_errors(*coutputs, *function_s, *body)) && #[trigger] reports_all(e, errs)),
    {
        if let Err(e) = self.check_return_group(function_s) {
            return Err(e);
        }
        if let Err(mut errors) = self.check_usages(coutputs, function_s, body) {
            if errors.len() == 1 {
                let ghost all = errors@;
                match errors.pop() {
                    Some(only) => {
                        proof {
                            assert(only == all[0]);
                            assert(reports_all(only, all));
                            assert forall|x: ICompileErrorT| #[trigger] all.contains(x) implies x == only by {
                                let i = choose|i: int| 0 <= i < all.len() && all[i] == x;
                            }
                        }
                        return Err(only);
                    },
                    None => { return Err(ICompileErrorT::BorrowCheckErrors { errors }); },
                }
            }
            proof { assert(reports_all(ICompileErrorT::BorrowCheckErrors { errors }, errors@)); }
            return Err(ICompileErrorT::BorrowCheckErrors { errors });
        }
        Ok(self.calculate_aliasing_info(param_paths, access_log))
    }

    /// A returned reference must declare the group it points into: reject a return type that is a
    /// borrow with no group.
    fn check_return_group(&self, function_s: &FunctionS) -> (r: Result<(), ICompileErrorT>)
        ensures
            match groupless_return(*function_s) {
                Some(range) => r == Err::<(), ICompileErrorT>(
                    ICompileErrorT::BorrowCheckError { range, kind: BorrowErrorKind::GrouplessReturnBorrow }),
                None => r is Ok,
            },
    {
        if let Some(ITypeST::BorrowRef(st)) = &function_s.maybe_return_type {
            if let RegionS::Unspecified = st.region {
                return Err(self.borrow_error(BorrowErrorKind::GrouplessReturnBorrow, st.range));
            }
        }
        Ok(())
    }
}

} // verus!
