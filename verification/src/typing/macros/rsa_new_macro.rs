//! The body of a runtime-sized array's constructor.

use vstd::prelude::*;
use crate::range::RangeS;
use crate::loc::LocT;
use crate::typing::types::{KindT, RuntimeSizedArrayTT};
use crate::typing::ast::{FunctionHeaderT, FunctionEnvironmentT, ParameterT, copy_params, rune_kind_in};
use crate::typing::expressions::ExpressionTE;
use crate::typing::compiler::{Compiler, CompilerOutputs};
use crate::typing::macros::ssa_len_macro::{is_arg_lookup, generated_header};

verus! {

/// The constructor's body: return a new array of elements of kind `element_type`, with the
/// capacity the first argument gives.
pub open spec fn rsa_new_body(body: ExpressionTE, loct: Seq<i32>, capacity_param: KindT, element_type: KindT) -> bool {
    let at = RangeS::internal_spec(-70050i32);
    &&& body matches ExpressionTE::Block { range: r1, inner }
    &&& r1 == at
    &&& *inner matches ExpressionTE::Return { range: r2, expr: made }
    &&& r2 == at
    &&& *made matches ExpressionTE::NewRuntimeSizedArray { range: r3, array_type, capacity_expr }
    &&& r3 == at
    &&& *array_type.element_type == element_type
    &&& is_arg_lookup(*capacity_expr, at, loct.push(0), 0, capacity_param)
}

impl Compiler {
    /// Generate a runtime-sized array's constructor: the element kind is what the function's `E`
    /// rune is bound to, and the first parameter is the capacity. The return kind is declared
    /// before the body is built.
    pub fn generate_function_body_rsa_new(
        &self,
        coutputs: &mut CompilerOutputs,
        env: &FunctionEnvironmentT,
        loct: &LocT,
        param_coords: &Vec<ParameterT>,
        maybe_ret_coord: Option<KindT>,
    ) -> (r: (FunctionHeaderT, ExpressionTE))
        requires
            maybe_ret_coord is Some,
            param_coords@.len() >= 1,
            rune_kind_in(env.rune_kinds@, self.keywords.e) is Some,
            loct@.len() < usize::MAX,
        ensures
            generated_header(r.0, *env, param_coords@, maybe_ret_coord->0),
            final(coutputs).return_types@ == old(coutputs).return_types@.push((env.id, maybe_ret_coord->0)),
            final(coutputs).prototypes@ == old(coutputs).prototypes@,
            rsa_new_body(r.1, loct@, param_coords@[0].tyype, rune_kind_in(env.rune_kinds@, self.keywords.e)->0),
    {
        let return_type = match maybe_ret_coord {
            Some(k) => k,
            None => KindT::Void,
        };
        let header = FunctionHeaderT {
            id: env.id,
            template_args: env.template_args.copy(),
            params: copy_params(param_coords),
            return_type: return_type.copy(),
            maybe_origin_function_templata: Some(env.templata),
        };
        coutputs.declare_function_return_type(env.id, return_type);
        let element_type = match env.lookup_rune_kind(self.keywords.e) {
            Some(k) => k,
            None => KindT::Void,
        };
        let array_tt = RuntimeSizedArrayTT { element_type: Box::new(element_type) };
        let synth_range = RangeS::internal(-70050);
        let capacity = ExpressionTE::ArgLookup { range: synth_range, loct: loct.add(0), index: 0, tyype: param_coords[0].tyype.copy() };
        let made = ExpressionTE::NewRuntimeSizedArray { range: synth_range, array_type: array_tt, capacity_expr: Box::new(capacity) };
        let body = ExpressionTE::Block {
            range: synth_range,
            inner: Box::new(ExpressionTE::Return { range: synth_range, expr: Box::new(made) }),
        };
        (header, body)
    }
}

} // verus!
