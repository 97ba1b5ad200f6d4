//! The body of an inline array's `len`: its static size.

use vstd::prelude::*;
use crate::range::RangeS;
use crate::loc::LocT;
use crate::typing::types::{KindT, peel_all, peel_all_references};
use crate::typing::ast::{FunctionHeaderT, FunctionEnvironmentT, ParameterT, copy_params};
use crate::typing::expressions::ExpressionTE;
use crate::typing::compiler::{Compiler, CompilerOutputs};

verus! {

/// `e` reads argument `index`, of kind `tyype`, at `range` and location `loct`.
pub open spec fn is_arg_lookup(e: ExpressionTE, range: RangeS, loct: Seq<i32>, index: u32, tyype: KindT) -> bool {
    e matches ExpressionTE::ArgLookup { range: r, loct: l, index: i, tyype: t } && r == range && l@ == loct && i == index && t == tyype
}

/// The header a builtin's generated body gets: the environment's function, the given parameters and
/// return kind, and the environment's template as its origin.
pub open spec fn generated_header(h: FunctionHeaderT, env: FunctionEnvironmentT, params: Seq<ParameterT>, ret: KindT) -> bool {
    h.id == env.id && h.template_args == env.template_args && h.params@ == params && h.return_type == ret && h.maybe_origin_function_templata == Some(env.templata)
}

/// `len`'s body: discard the array argument, return its size.
pub open spec fn ssa_len_body(body: ExpressionTE, loct: Seq<i32>, array_param: KindT, size: i64) -> bool {
    let at = RangeS::internal_spec(-70090i32);
    &&& body matches ExpressionTE::Block { range: r1, inner }
    &&& r1 == at
    &&& *inner matches ExpressionTE::Consecutor { range: r2, exprs }
    &&& r2 == at
    &&& exprs@.len() == 2
    &&& exprs@[0] matches ExpressionTE::Discard { range: r3, expr: discarded }
    &&& r3 == at
    &&& is_arg_lookup(*discarded, at, loct.push(0), 0, array_param)
    &&& exprs@[1] == (ExpressionTE::Return { range: at, expr: Box::new(ExpressionTE::ConstantInt { range: at, value: size, bits: 32 }) })
}

impl Compiler {
    /// Generate an inline array's `len`: its first parameter is the array, and the body returns the
    /// array's static size. The return kind is declared before the body is built.
    pub fn generate_function_body_ssa_len(
        &self,
        coutputs: &mut CompilerOutputs,
        env: &FunctionEnvironmentT,
        loct: &LocT,
        param_coords: &Vec<ParameterT>,
        maybe_ret_coord: Option<KindT>,
    ) -> (r: (FunctionHeaderT, ExpressionTE))
        requires
            maybe_ret_coord is Some,
            param_coords@.len() >= 1,
            peel_all(param_coords@[0].tyype) is StaticSizedArray,
            loct@.len() < usize::MAX,
        ensures
            generated_header(r.0, *env, param_coords@, maybe_ret_coord->0),
            final(coutputs).return_types@ == old(coutputs).return_types@.push((env.id, maybe_ret_coord->0)),
            final(coutputs).prototypes@ == old(coutputs).prototypes@,
            ssa_len_body(r.1, loct@, param_coords@[0].tyype, peel_all(param_coords@[0].tyype)->StaticSizedArray_0.size),
    {
        let return_type = match maybe_ret_coord {
            Some(k) => k,
            None => KindT::Void,
        };
        let header = FunctionHeaderT {
            id: env.id,
            template_args: env.template_args.copy(),
            params: copy_params(param_coords),
            return_type: return_type.copy(),
            maybe_origin_function_templata: Some(env.templata),
        };
        coutputs.declare_function_return_type(env.id, return_type);
        let len = match peel_all_references(&param_coords[0].tyype) {
            KindT::StaticSizedArray(ssa) => ssa.size,
            _ => 0,
        };
        let synth_range = RangeS::internal(-70090);
        let discard_te = ExpressionTE::Discard {
            range: synth_range,
            expr: Box::new(ExpressionTE::ArgLookup { range: synth_range, loct: loct.add(0), index: 0, tyype: param_coords[0].tyype.copy() }),
        };
        let return_te = ExpressionTE::Return {
            range: synth_range,
            expr: Box::new(ExpressionTE::ConstantInt { range: synth_range, value: len, bits: 32 }),
        };
        let mut exprs: Vec<ExpressionTE> = Vec::new();
        exprs.push(discard_te);
        exprs.push(return_te);
        let body = ExpressionTE::Block { range: synth_range, inner: Box::new(ExpressionTE::Consecutor { range: synth_range, exprs }) };
        (header, body)
    }
}

} // verus!
