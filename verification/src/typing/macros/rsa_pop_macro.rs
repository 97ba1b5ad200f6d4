//! The body of a runtime-sized array's `pop`.

use vstd::prelude::*;
use crate::range::RangeS;
use crate::loc::LocT;
use crate::typing::types::{KindT, peel_all, peel_all_references};
use crate::typing::ast::{FunctionHeaderT, FunctionEnvironmentT, ParameterT, copy_params};
use crate::typing::expressions::ExpressionTE;
use crate::typing::compiler::{Compiler, CompilerOutputs};
use crate::typing::macros::ssa_len_macro::{is_arg_lookup, generated_header};

verus! {

/// `pop`'s body: return the element popped off the array argument.
pub open spec fn rsa_pop_body(body: ExpressionTE, loct: Seq<i32>, array_param: KindT, element_type: KindT) -> bool {
    let at = RangeS::internal_spec(-70060i32);
    &&& body matches ExpressionTE::Block { range: r1, inner }
    &&& r1 == at
    &&& *inner matches ExpressionTE::Return { range: r2, expr: popped }
    &&& r2 == at
    &&& *popped matches ExpressionTE::PopRuntimeSizedArray { range: r3, array_expr, element_type: t }
    &&& r3 == at
    &&& t == element_type
    &&& is_arg_lookup(*array_expr, at, loct.push(0), 0, array_param)
}

impl Compiler {
    /// Generate a runtime-sized array's `pop`: its first parameter is the array, and the body
    /// returns the element popped off it.
    pub fn generate_function_body_rsa_pop(
        &self,
        coutputs: &mut CompilerOutputs,
        env: &FunctionEnvironmentT,
        loct: &LocT,
        param_coords: &Vec<ParameterT>,
        maybe_ret_coord: Option<KindT>,
    ) -> (r: (FunctionHeaderT, ExpressionTE))
        requires
            maybe_ret_coord is Some,
            param_coords@.len() >= 1,
            peel_all(param_coords@[0].tyype) is RuntimeSizedArray,
            loct@.len() < usize::MAX,
        ensures
            generated_header(r.0, *env, param_coords@, maybe_ret_coord->0),
            final(coutputs).return_types@ == old(coutputs).return_types@,
            rsa_pop_body(r.1, loct@, param_coords@[0].tyype, *peel_all(param_coords@[0].tyype)->RuntimeSizedArray_0.element_type),
    {
        let return_type = match maybe_ret_coord {
            Some(k) => k,
            None => KindT::Void,
        };
        let header = FunctionHeaderT {
            id: env.id,
            template_args: env.template_args.copy(),
            params: copy_params(param_coords),
            return_type,
            maybe_origin_function_templata: Some(env.templata),
        };
        let synth_range = RangeS::internal(-70060);
        let array_expr = ExpressionTE::ArgLookup { range: synth_range, loct: loct.add(0), index: 0, tyype: param_coords[0].tyype.copy() };
        let element_type = match peel_all_references(&param_coords[0].tyype) {
            KindT::RuntimeSizedArray(rsa) => rsa.element_type.copy(),
            _ => KindT::Void,
        };
        let pop = ExpressionTE::PopRuntimeSizedArray { range: synth_range, array_expr: Box::new(array_expr), element_type };
        let body = ExpressionTE::Block {
            range: synth_range,
            inner: Box::new(ExpressionTE::Return { range: synth_range, expr: Box::new(pop) }),
        };
        (header, body)
    }
}

} // verus!
