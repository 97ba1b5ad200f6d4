//! The body of an abstract function: a virtual call, through the override found for the function's
//! own parameters, of its own arguments.

use vstd::prelude::*;
use crate::range::RangeS;
use crate::loc::LocT;
use crate::postparsing::FunctionS;
use crate::typing::types::KindT;
use crate::typing::ast::{FunctionHeaderT, FunctionEnvironmentT, ParameterT, copy_params};
use crate::typing::expressions::{ExpressionTE, PrototypeTT};
use crate::typing::compiler::Compiler;
use crate::typing::macros::ssa_len_macro::is_arg_lookup;

verus! {

/// The abstract body: return the interface call through `prototype` of the function's arguments,
/// the `i`th read at `loct` extended by `i` with the prototype's `i`th parameter kind.
pub open spec fn abstract_body(body: ExpressionTE, loct: Seq<i32>, prototype: PrototypeTT) -> bool {
    let at = RangeS::internal_spec(-70100i32);
    &&& body matches ExpressionTE::Block { range: r1, inner }
    &&& r1 == at
    &&& *inner matches ExpressionTE::Return { range: r2, expr: call }
    &&& r2 == at
    &&& *call matches ExpressionTE::InterfaceFunctionCall { range: r3, args, result }
    &&& r3 == at
    &&& result == prototype.return_type
    &&& args@.len() == prototype.params@.len()
    &&& forall|i: int| 0 <= i < args@.len() ==> is_arg_lookup(#[trigger] args@[i], at, loct.push(i as i32), i as u32, prototype.params@[i])
}

impl Compiler {
    /// Generate an abstract function's body. `prototype` is the override that overload resolution
    /// found for the function's own name and parameter kinds; the header is the environment's
    /// function with the given parameters and return kind, its origin the environment's template
    /// when the function was written.
    pub fn generate_function_body_abstract_body(
        &self,
        env: &FunctionEnvironmentT,
        loct: &LocT,
        origin_function: Option<&FunctionS>,
        params2: &Vec<ParameterT>,
        maybe_ret_coord: Option<KindT>,
        prototype: &PrototypeTT,
    ) -> (r: (FunctionHeaderT, ExpressionTE))
        requires
            maybe_ret_coord is Some,
            loct@.len() < usize::MAX,
            prototype.params@.len() <= i32::MAX,
        ensures
            r.0.id == env.id,
            r.0.template_args == env.template_args,
            r.0.params@ == params2@,
            r.0.return_type == maybe_ret_coord->0,
            r.0.maybe_origin_function_templata == (if origin_function is Some { Some(env.templata) } else { None::<u32> }),
            abstract_body(r.1, loct@, *prototype),
    {
        let return_type = match maybe_ret_coord {
            Some(k) => k,
            None => KindT::Void,
        };
        let header = FunctionHeaderT {
            id: env.id,
            template_args: env.template_args.copy(),
            params: copy_params(params2),
            return_type,
            maybe_origin_function_templata: match origin_function { Some(_) => Some(env.templata), None => None },
        };
        let synth_range = RangeS::internal(-70100);
        let mut args: Vec<ExpressionTE> = Vec::new();
        let mut index: usize = 0;
        while index < prototype.params.len()
            invariant
                index <= prototype.params@.len(),
                prototype.params@.len() <= i32::MAX,
                loct@.len() < usize::MAX,
                synth_range == RangeS::internal_spec(-70100i32),
                args@.len() == index,
                forall|i: int| 0 <= i < index ==> is_arg_lookup(#[trigger] args@[i], synth_range, loct@.push(i as i32), i as u32, prototype.params@[i]),
            decreases prototype.params@.len() - index,
        {
            args.push(ExpressionTE::ArgLookup {
                range: synth_range, loct: loct.add(index as i32), index: index as u32, tyype: prototype.params[index].copy(),
            });
            index = index + 1;
        }
        let call = ExpressionTE::InterfaceFunctionCall { range: synth_range, args, result: prototype.return_type.copy() };
        let body = ExpressionTE::Block {
            range: synth_range,
            inner: Box::new(ExpressionTE::Return { range: synth_range, expr: Box::new(call) }),
        };
        (header, body)
    }
}

} // verus!
