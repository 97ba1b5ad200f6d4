//! Dropping a value: a discard for a value with nothing to destroy, a call of its `drop` for a
//! citizen, an array or a placeholder.

use vstd::prelude::*;
use crate::interner::StrI;
use crate::range::RangeS;
use crate::loc::LocT;
use crate::compiler_error_reporter::ICompileErrorT;
use crate::compiler_error_reporter::copy_ranges;
use crate::typing::types::{KindT, same_kind};
use crate::typing::expressions::{ExpressionTE, PrototypeTT, result_of_te};
use crate::typing::compiler::{Compiler, CompilerOutputs};

verus! {

/// The first prototype named `name` whose parameters are exactly `[k]`.
pub open spec fn find_drop_in(ps: Seq<PrototypeTT>, name: StrI, k: KindT) -> Option<int>
    decreases ps.len(),
{
    if ps.len() == 0 {
        None
    } else if ps[0].name == name && ps[0].params@ == seq![k] {
        Some(0)
    } else {
        match find_drop_in(ps.drop_first(), name, k) {
            Some(i) => Some(i + 1),
            None => None,
        }
    }
}

/// The `drop` function for values of kind `k`, if the outputs declare one.
pub open spec fn drop_function(c: Compiler, coutputs: CompilerOutputs, k: KindT) -> Option<int> {
    find_drop_in(coutputs.prototypes@, c.keywords.drop, k)
}

/// Whether dropping a value of this kind calls a `drop` function.
pub open spec fn drops_by_call(k: KindT) -> bool {
    k is Struct || k is Interface || k is StaticSizedArray || k is RuntimeSizedArray || k is KindPlaceholder
}

/// A `drop` a value of kind `k` would call returns nothing (or never returns).
pub open spec fn drop_returns_void(c: Compiler, coutputs: CompilerOutputs, k: KindT) -> bool {
    drops_by_call(k) ==> match drop_function(c, coutputs, k) {
        Some(i) => coutputs.prototypes@[i].return_type is Void || coutputs.prototypes@[i].return_type is Never,
        None => true,
    }
}

/// What dropping `e` gives, for the call at `call_range` and location `loct`: `e` itself if it never
/// returns, a discard if it holds nothing to destroy, else a call of its kind's `drop`, or the error
/// that there is none.
pub open spec fn dropped(c: Compiler, coutputs: CompilerOutputs, call_range: Seq<RangeS>, loct: Seq<i32>, e: ExpressionTE, r: Result<ExpressionTE, ICompileErrorT>) -> bool {
    let k = result_of_te(e);
    if k is Never {
        r == Ok::<ExpressionTE, ICompileErrorT>(e)
    } else if !drops_by_call(k) {
        r == Ok::<ExpressionTE, ICompileErrorT>(ExpressionTE::Discard { range: call_range[0], expr: Box::new(e) })
    } else {
        match drop_function(c, coutputs, k) {
            Some(i) => r matches Ok(ExpressionTE::FunctionCall { loct: l, range, callable, args, result })
                && l@ == loct && range@ == call_range && callable.same(coutputs.prototypes@[i]) && args@ == seq![e]
                && result == coutputs.prototypes@[i].return_type,
            None => r matches Err(ICompileErrorT::CouldntFindFunctionToCallT { range }) && range@ == call_range,
        }
    }
}

impl Compiler {
    /// The `drop` function for values of kind `type_2`: the declared function named `drop` that takes
    /// exactly one such value.
    pub fn get_drop_function(&self, coutputs: &CompilerOutputs, call_range: &Vec<RangeS>, type_2: &KindT) -> (r: Result<PrototypeTT, ICompileErrorT>)
        ensures
            match drop_function(*self, *coutputs, *type_2) {
                Some(i) => r matches Ok(p) && p.same(coutputs.prototypes@[i]),
                None => r matches Err(ICompileErrorT::CouldntFindFunctionToCallT { range }) && range@ == call_range@,
            },
    {
        let mut i: usize = 0;
        assert(coutputs.prototypes@.subrange(0, coutputs.prototypes@.len() as int) =~= coutputs.prototypes@);
        while i < coutputs.prototypes.len()
            invariant
                i <= coutputs.prototypes@.len(),
                drop_function(*self, *coutputs, *type_2) == match find_drop_in(coutputs.prototypes@.subrange(i as int, coutputs.prototypes@.len() as int), self.keywords.drop, *type_2) {
                    Some(j) => Some(j + i),
                    None => None::<int>,
                },
            decreases coutputs.prototypes@.len() - i,
        {
            let p = &coutputs.prototypes[i];
            proof {
                let rest = coutputs.prototypes@.subrange(i as int, coutputs.prototypes@.len() as int);
                assert(rest.drop_first() =~= coutputs.prototypes@.subrange(i + 1, coutputs.prototypes@.len() as int));
                assert(rest[0] == coutputs.prototypes@[i as int]);
            }
            if p.name == self.keywords.drop && p.params.len() == 1 && same_kind(&p.params[0], type_2) {
                proof { assert(p.params@ =~= seq![*type_2]); }
                return Ok(p.copy());
            }
            proof {
                if p.name == self.keywords.drop && p.params@ == seq![*type_2] {
                    assert(p.params@[0] == *type_2);
                }
            }
            i = i + 1;
        }
        Err(ICompileErrorT::CouldntFindFunctionToCallT { range: copy_ranges(call_range) })
    }

    /// Drop a value at the end of its life.
    pub fn drop(&self, coutputs: &CompilerOutputs, call_range: &Vec<RangeS>, loct: &LocT, undestructed_expr_2: ExpressionTE)
        -> (r: Result<ExpressionTE, ICompileErrorT>)
        requires
            call_range@.len() > 0 || result_of_te(undestructed_expr_2) is Never || drops_by_call(result_of_te(undestructed_expr_2)),
            drop_returns_void(*self, *coutputs, result_of_te(undestructed_expr_2)),
        ensures
            dropped(*self, *coutputs, call_range@, loct@, undestructed_expr_2, r),
            r matches Ok(x) ==> result_of_te(x) is Void || result_of_te(x) is Never,
    {
        let result_coord = undestructed_expr_2.result();
        match result_coord {
            KindT::Never => Ok(undestructed_expr_2),
            KindT::Struct(_) | KindT::Interface(_) | KindT::StaticSizedArray(_) | KindT::RuntimeSizedArray(_)
            | KindT::KindPlaceholder(_) => {
                let destructor_prototype = match self.get_drop_function(coutputs, call_range, &result_coord) {
                    Ok(p) => p,
                    Err(e) => { return Err(e); },
                };
                let result_tt = destructor_prototype.return_type.copy();
                let mut args: Vec<ExpressionTE> = Vec::new();
                args.push(undestructed_expr_2);
                proof { assert(args@ =~= seq![undestructed_expr_2]); }
                Ok(ExpressionTE::FunctionCall {
                    loct: loct.copy(),
                    range: copy_ranges(call_range),
                    callable: destructor_prototype,
                    args,
                    result: result_tt,
                })
            },
            _ => Ok(ExpressionTE::Discard { range: call_range[0], expr: Box::new(undestructed_expr_2) }),
        }
    }
}

} // verus!
