//! The head of a function body: each parameter bound to its argument.

use vstd::prelude::*;
use crate::names::IVarNameT;
use crate::range::RangeS;
use crate::loc::LocT;
use crate::postparsing::ParameterS;
use crate::typing::types::KindT;
use crate::typing::ast::ParameterT;
use crate::typing::expressions::{ExpressionTE, LocalVariableT};
use crate::typing::env::{NodeEnvironmentBox, find_local};
use crate::typing::compiler::{Compiler, CompilerOutputs};
use crate::typing::macros::ssa_len_macro::is_arg_lookup;

verus! {

/// A body's result kind differs from the kind its function declares.
#[derive(Debug)]
pub struct ResultTypeMismatchError {
    pub expected_type: KindT,
    pub actual_type: KindT,
}

/// `e` binds a new local `name` of kind `tyype` to argument `index`, read at location `loct`.
pub open spec fn binds_arg(e: ExpressionTE, at: RangeS, name: IVarNameT, tyype: KindT, loct: Seq<i32>, index: int) -> bool {
    &&& e matches ExpressionTE::LetNormal { range: r, variable, expr }
    &&& r == at
    &&& variable == (LocalVariableT { name, tyype })
    &&& is_arg_lookup(*expr, at, loct, index as u32, tyype)
}

/// The first `m` parameters can each be bound as a new local: no two share a name, and no local of
/// that name is declared yet.
pub open spec fn params_bindable(declared: Seq<LocalVariableT>, params: Seq<ParameterS>, m: int) -> bool {
    &&& forall|i: int| 0 <= i < m ==> find_local(declared, (#[trigger] params[i]).name) is None
    &&& forall|i: int, j: int| 0 <= j < i < m ==> (#[trigger] params[j]).name != (#[trigger] params[i]).name
}

/// The locals the first `m` parameters are bound to.
pub open spec fn param_locals(params_1: Seq<ParameterS>, params_2: Seq<ParameterT>, m: int) -> Seq<LocalVariableT> {
    Seq::new(m as nat, |i: int| LocalVariableT { name: params_1[i].name, tyype: params_2[i].tyype })
}

impl Compiler {
    /// Bind each parameter to its argument, in order, then a void: the head of a function body. A
    /// parameter's name is its binding (a destructuring parameter is destructured by a separate
    /// `let` at the body's head).
    pub fn evaluate_lets(
        &self,
        nenv: &mut NodeEnvironmentBox,
        coutputs: &CompilerOutputs,
        loct: &LocT,
        range: &Vec<RangeS>,
        params_1: &Vec<ParameterS>,
        params_2: &Vec<ParameterT>,
    ) -> (r: ExpressionTE)
        requires
            range@.len() > 0,
            loct@.len() < usize::MAX,
            params_2@.len() <= i32::MAX,
            params_bindable(old(nenv).declared_locals@, params_1@,
                if params_1@.len() < params_2@.len() { params_1@.len() as int } else { params_2@.len() as int }),
        ensures
            ({
                let m = if params_1@.len() < params_2@.len() { params_1@.len() as int } else { params_2@.len() as int };
                &&& r matches ExpressionTE::Consecutor { range: at, exprs }
                &&& at == range@[0]
                &&& exprs@.len() == m + 1
                &&& forall|i: int| 0 <= i < m ==> binds_arg(#[trigger] exprs@[i], range@[0], params_1@[i].name, params_2@[i].tyype, loct@.push(i as i32), i)
                &&& exprs@[m] == (ExpressionTE::VoidLiteral { range: range@[0] })
                &&& final(nenv).declared_locals@ == old(nenv).declared_locals@ + param_locals(params_1@, params_2@, m)
                &&& final(nenv).unstackified_locals@ == old(nenv).unstackified_locals@
            }),
    {
        let m = if params_1.len() < params_2.len() { params_1.len() } else { params_2.len() };
        let mut let_exprs: Vec<ExpressionTE> = Vec::new();
        let mut index: usize = 0;
        proof {
            assert(nenv.declared_locals@ =~= old(nenv).declared_locals@ + param_locals(params_1@, params_2@, 0));
        }
        while index < m
            invariant
                m <= params_1@.len(),
                m <= params_2@.len(),
                m == (if params_1@.len() < params_2@.len() { params_1@.len() as int } else { params_2@.len() as int }),
                index <= m,
                range@.len() > 0,
                loct@.len() < usize::MAX,
                params_2@.len() <= i32::MAX,
                params_bindable(old(nenv).declared_locals@, params_1@, m as int),
                let_exprs@.len() == index,
                forall|i: int| 0 <= i < index ==> binds_arg(#[trigger] let_exprs@[i], range@[0], params_1@[i].name, params_2@[i].tyype, loct@.push(i as i32), i),
                nenv.declared_locals@ == old(nenv).declared_locals@ + param_locals(params_1@, params_2@, index as int),
                nenv.unstackified_locals@ == old(nenv).unstackified_locals@,
                forall|k: int| index <= k < m ==> find_local(nenv.declared_locals@, (#[trigger] params_1@[k]).name) is None,
            decreases m - index,
        {
            let param_lookup_2 = ExpressionTE::ArgLookup {
                range: range[0],
                loct: loct.add(index as i32),
                index: index as u32,
                tyype: params_2[index].tyype.copy(),
            };
            let ghost before = nenv.declared_locals@;
            let local = self.make_user_local_variable(coutputs, nenv, range, params_1[index].name, param_lookup_2.result());
            proof {
                assert(nenv.declared_locals@ =~= old(nenv).declared_locals@ + param_locals(params_1@, params_2@, index + 1));
                assert forall|k: int| index + 1 <= k < m implies find_local(nenv.declared_locals@, (#[trigger] params_1@[k]).name) is None by {
                    assert(nenv.declared_locals@.drop_last() =~= before);
                    assert(params_1@[index as int].name != params_1@[k].name);
                }
            }
            let_exprs.push(ExpressionTE::LetNormal { range: range[0], variable: local, expr: Box::new(param_lookup_2) });
            index = index + 1;
        }
        let_exprs.push(ExpressionTE::VoidLiteral { range: range[0] });
        ExpressionTE::Consecutor { range: range[0], exprs: let_exprs }
    }
}

} // verus!
