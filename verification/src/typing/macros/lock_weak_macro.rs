//! The body of a weak reference's `lock`: the weak parameter locked into an optional borrow.

use vstd::prelude::*;
use crate::range::RangeS;
use crate::loc::LocT;
use crate::typing::types::{KindT, InterfaceTT};
use crate::typing::ast::{FunctionHeaderT, FunctionEnvironmentT, ParameterT, copy_params};
use crate::typing::expressions::ExpressionTE;
use crate::typing::compiler::{Compiler, CompilerOutputs};
use crate::typing::expression::optional_types::{ResolveFunctionResultT, case_ok};
use crate::typing::macros::ssa_len_macro::{is_arg_lookup, generated_header};

verus! {

/// `lock`'s body: return the weak argument locked into an optional of kind `opt`.
pub open spec fn lock_weak_body(body: ExpressionTE, loct: Seq<i32>, weak_param: KindT, opt: InterfaceTT) -> bool {
    let at = RangeS::internal_spec(-70020i32);
    &&& body matches ExpressionTE::Block { range: r1, inner }
    &&& r1 == at
    &&& *inner matches ExpressionTE::Return { range: r2, expr: locked }
    &&& r2 == at
    &&& *locked matches ExpressionTE::LockWeak { range: r3, inner_expr, result }
    &&& r3 == at
    &&& result == KindT::Interface(opt)
    &&& is_arg_lookup(*inner_expr, at, loct.push(0), 0, weak_param)
}

impl Compiler {
    /// Generate a weak reference's `lock`: its first parameter is the weak reference. The optional
    /// it returns is the optional interface resolved at a borrow of what the weak reference points
    /// to (`opt_interface`), with the `Some` and `None` constructors resolved at it.
    pub fn generate_function_body_lock_weak(
        &self,
        coutputs: &CompilerOutputs,
        env: &FunctionEnvironmentT,
        loct: &LocT,
        param_coords: &Vec<ParameterT>,
        maybe_ret_coord: Option<KindT>,
        opt_interface: &InterfaceTT,
        some_constructor: ResolveFunctionResultT,
        none_constructor: ResolveFunctionResultT,
    ) -> (r: (FunctionHeaderT, ExpressionTE))
        requires
            maybe_ret_coord is Some,
            param_coords@.len() >= 1,
            param_coords@[0].tyype is WeakRef,
            loct@.len() < usize::MAX,
            case_ok(*coutputs, some_constructor, *opt_interface, false),
            case_ok(*coutputs, none_constructor, *opt_interface, false),
        ensures
            generated_header(r.0, *env, param_coords@, maybe_ret_coord->0),
            lock_weak_body(r.1, loct@, param_coords@[0].tyype, *opt_interface),
    {
        let return_type = match maybe_ret_coord {
            Some(k) => k,
            None => KindT::Void,
        };
        let header = FunctionHeaderT {
            id: env.id,
            template_args: env.template_args.copy(),
            params: copy_params(param_coords),
            return_type,
            maybe_origin_function_templata: Some(env.templata),
        };
        let (opt_coord, _some, _none, _some_impl, _none_impl) = self.get_option(coutputs, opt_interface, some_constructor, none_constructor);
        let synth_range = RangeS::internal(-70020);
        let lock_expr = ExpressionTE::LockWeak {
            range: synth_range,
            inner_expr: Box::new(ExpressionTE::ArgLookup { range: synth_range, loct: loct.add(0), index: 0, tyype: param_coords[0].tyype.copy() }),
            result: opt_coord,
        };
        let body = ExpressionTE::Block {
            range: synth_range,
            inner: Box::new(ExpressionTE::Return { range: synth_range, expr: Box::new(lock_expr) }),
        };
        (header, body)
    }
}

} // verus!
