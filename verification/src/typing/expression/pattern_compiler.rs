//! Translating a pattern: capturing the value it matches in a local, dropping a value neither
//! captured nor destructured, and loading the parts of a value a pattern destructures.

use vstd::prelude::*;
use crate::range::RangeS;
use crate::loc::LocT;
use crate::names::IVarNameT;
use crate::postparsing::AtomSP;
use crate::compiler_error_reporter::ICompileErrorT;
use crate::typing::types::{KindT, StaticSizedArrayTT};
use crate::typing::expressions::{ExpressionTE, LocalVariableT, result_of_te};
use crate::typing::env::{NodeEnvironmentBox, find_local, without_name, lemma_find_local};
use crate::typing::compiler::{Compiler, CompilerOutputs};
use crate::typing::function::destructor_compiler::{dropped, drop_returns_void, drops_by_call, drop_function};

verus! {

/// No two locals share a name.
pub open spec fn names_distinct(locals: Seq<LocalVariableT>) -> bool {
    forall|i: int, j: int| 0 <= i < j < locals.len() ==> locals[i].name != locals[j].name
}

/// The ranges a sub-pattern reports at: its own, then its parents'.
pub open spec fn pattern_ranges(pattern: AtomSP, parent_ranges: Seq<RangeS>) -> Seq<RangeS> {
    seq![pattern.range] + parent_ranges
}

/// The local a capturing pattern's value lands in, given the environment before: the existing local
/// it names when it stores into one, else a new local of the value's kind.
pub open spec fn captured_local(pattern: AtomSP, nenv: NodeEnvironmentBox, input: ExpressionTE) -> LocalVariableT {
    let cap = pattern.name->0;
    if cap.mutate {
        nenv.declared_locals@[find_local(nenv.declared_locals@, cap.name)->0]
    } else {
        LocalVariableT { name: cap.name, tyype: result_of_te(input) }
    }
}

/// What translating a sub-pattern builds, given what follows the capture (`rest`): the capture (a
/// `let` of a new local, or a restackify of the existing one), or, for a value neither captured nor
/// destructured, its drop; then `rest`.
pub open spec fn sub_pattern_built(c: Compiler, co: CompilerOutputs, pattern: AtomSP, parent_ranges: Seq<RangeS>, loct: Seq<i32>,
    nenv: NodeEnvironmentBox, input: ExpressionTE, rest: ExpressionTE, r: ExpressionTE) -> bool
{
    &&& r matches ExpressionTE::Consecutor { range: at, exprs }
    &&& at == pattern.range
    &&& match pattern.name {
        Some(cap) => {
            let v = captured_local(pattern, nenv, input);
            &&& exprs@.len() == 2
            &&& exprs@[1] == rest
            &&& if cap.mutate {
                exprs@[0] == (ExpressionTE::Restackify { range: pattern.range, variable: v, source_expr: Box::new(input) })
            } else {
                exprs@[0] == (ExpressionTE::LetNormal { range: pattern.range, variable: v, expr: Box::new(input) })
            }
        },
        None => if pattern.destructure is None {
            &&& exprs@.len() == 2
            &&& dropped(c, co, pattern_ranges(pattern, parent_ranges), loct.push(4), input, Ok::<ExpressionTE, ICompileErrorT>(exprs@[0]))
            &&& exprs@[1] == rest
        } else {
            exprs@ == seq![rest]
        },
    }
}

/// The value a sub-pattern passes on to its destructuring: a borrow of the local it captured in,
/// read at `loct` extended by 3, or the value itself.
pub open spec fn passed_on(pattern: AtomSP, loct: Seq<i32>, v: LocalVariableT, input: ExpressionTE, e: ExpressionTE) -> bool {
    if pattern.name is Some {
        e matches ExpressionTE::LocalLookup { range, loct: l, variable } && range == pattern.range && l@ == loct.push(3) && variable == v
    } else {
        e == input
    }
}

impl Compiler {
    /// The value a sub-pattern hands to its destructuring, for the local `captured` it was captured in
    /// (see `inner_translate_sub_pattern_and_maybe_continue`): a borrow of that local, read at `loct`
    /// extended by 3, or, for a pattern that captures nothing, the input itself.
    pub fn sub_pattern_passed_value(&self, pattern: &AtomSP, loct: &LocT, captured: &LocalVariableT, input_expr: ExpressionTE) -> (r: ExpressionTE)
        requires loct@.len() < usize::MAX,
        ensures passed_on(*pattern, loct@, *captured, input_expr, r),
    {
        match &pattern.name {
            Some(_) => ExpressionTE::LocalLookup { range: pattern.range, loct: loct.add(3), variable: captured.copy() },
            None => input_expr,
        }
    }

    /// Translate one sub-pattern matched against `input_expr`. A capture stores the value: a
    /// `mutate` capture restackifies the existing local it names, any other declares a new local of
    /// the value's kind. A value neither captured nor destructured is dropped. What follows is
    /// `rest`: for a pattern that destructures, the destructuring of the value passed on (see
    /// `sub_pattern_passed_value`); otherwise what the pattern's continuation built for the live
    /// locals this returns. The live locals are the previous ones, plus the captured local.
    pub fn inner_translate_sub_pattern_and_maybe_continue(
        &self,
        coutputs: &CompilerOutputs,
        nenv: &mut NodeEnvironmentBox,
        loct: &LocT,
        parent_ranges: &Vec<RangeS>,
        pattern: &AtomSP,
        previous_live_capture_locals: &Vec<LocalVariableT>,
        input_expr: ExpressionTE,
        rest: ExpressionTE,
    ) -> (r: (ExpressionTE, Vec<LocalVariableT>))
        requires
            loct@.len() < usize::MAX,
            names_distinct(previous_live_capture_locals@),
            pattern.name matches Some(cap) ==> {
                &&& cap.mutate ==> find_local(old(nenv).declared_locals@, cap.name) is Some
                &&& !cap.mutate ==> find_local(old(nenv).declared_locals@, cap.name) is None
                &&& forall|i: int| 0 <= i < previous_live_capture_locals@.len()
                    ==> #[trigger] previous_live_capture_locals@[i].name != cap.name
            },
            pattern.name is None && pattern.destructure is None ==> {
                &&& drop_returns_void(*self, *coutputs, result_of_te(input_expr))
                &&& !(drops_by_call(result_of_te(input_expr)) && drop_function(*self, *coutputs, result_of_te(input_expr)) is None)
            },
            pattern.destructure is Some ==> {
                let k = if pattern.name is Some { KindT::Void } else { result_of_te(input_expr) };
                !(k is OwnRef) && !(k is WeakRef)
            },
        ensures
            sub_pattern_built(*self, *coutputs, *pattern, parent_ranges@, loct@, *old(nenv), input_expr, rest, r.0),
            r.1@ == (match pattern.name {
                Some(_) => previous_live_capture_locals@.push(captured_local(*pattern, *old(nenv), input_expr)),
                None => previous_live_capture_locals@,
            }),
            names_distinct(r.1@),
            match pattern.name {
                Some(cap) => if cap.mutate {
                    &&& final(nenv).declared_locals@ == old(nenv).declared_locals@
                    &&& final(nenv).unstackified_locals@ == without_name(old(nenv).unstackified_locals@, cap.name)
                } else {
                    &&& final(nenv).declared_locals@ == old(nenv).declared_locals@.push(captured_local(*pattern, *old(nenv), input_expr))
                    &&& final(nenv).unstackified_locals@ == old(nenv).unstackified_locals@
                },
                None => *final(nenv) == *old(nenv),
            },
    {
        let ghost nenv0 = *nenv;
        let ghost input0 = input_expr;
        proof { if pattern.name is Some { lemma_find_local(nenv.declared_locals@, pattern.name->0.name); } }
        let mut range_list: Vec<RangeS> = Vec::new();
        range_list.push(pattern.range);
        let mut i: usize = 0;
        while i < parent_ranges.len()
            invariant
                i <= parent_ranges@.len(),
                range_list@ == seq![pattern.range] + parent_ranges@.subrange(0, i as int),
            decreases parent_ranges@.len() - i,
        {
            range_list.push(parent_ranges[i]);
            proof { assert(parent_ranges@.subrange(0, i + 1) =~= parent_ranges@.subrange(0, i as int).push(parent_ranges@[i as int])); }
            i = i + 1;
        }
        proof {
            assert(parent_ranges@.subrange(0, parent_ranges@.len() as int) =~= parent_ranges@);
            assert(range_list@ =~= pattern_ranges(*pattern, parent_ranges@));
        }
        let mut instructions: Vec<ExpressionTE> = Vec::new();
        let mut live: Vec<LocalVariableT> = Vec::new();
        let mut k: usize = 0;
        while k < previous_live_capture_locals.len()
            invariant
                k <= previous_live_capture_locals@.len(),
                live@ == previous_live_capture_locals@.subrange(0, k as int),
            decreases previous_live_capture_locals@.len() - k,
        {
            live.push(previous_live_capture_locals[k].copy());
            proof {
                assert(previous_live_capture_locals@.subrange(0, k + 1)
                    =~= previous_live_capture_locals@.subrange(0, k as int).push(previous_live_capture_locals@[k as int]));
            }
            k = k + 1;
        }
        proof { assert(previous_live_capture_locals@.subrange(0, previous_live_capture_locals@.len() as int) =~= previous_live_capture_locals@); }
        match &pattern.name {
            Some(cap) => {
                let local_t = if cap.mutate {
                    let found = match nenv.get_variable(cap.name) {
                        Some(l) => l.copy(),
                        None => LocalVariableT { name: cap.name, tyype: KindT::Void },
                    };
                    nenv.mark_local_restackified(found.name);
                    instructions.push(ExpressionTE::Restackify { range: pattern.range, variable: found.copy(), source_expr: Box::new(input_expr) });
                    found
                } else {
                    let l = self.make_user_local_variable(coutputs, nenv, &range_list, cap.name, input_expr.result());
                    instructions.push(ExpressionTE::LetNormal { range: pattern.range, variable: l.copy(), expr: Box::new(input_expr) });
                    l
                };
                proof {
                    assert(local_t == captured_local(*pattern, nenv0, input0));
                    assert(local_t.name == cap.name);
                }
                live.push(local_t);
                instructions.push(rest);
            },
            None => {
                if pattern.destructure.is_none() {
                    let dropped_expr = self.drop(coutputs, &range_list, &loct.add(4), input_expr);
                    match dropped_expr {
                        Ok(e) => { instructions.push(e); },
                        Err(_) => {},
                    }
                }
                instructions.push(rest);
            },
        }
        let ghost built = instructions@;
        (ExpressionTE::Consecutor { range: pattern.range, exprs: instructions }, live)
    }

    /// Load element `index` of an inline array.
    pub fn load_from_static_sized_array(
        &self,
        range: RangeS,
        loct: &LocT,
        static_sized_array_t: &StaticSizedArrayTT,
        container_alias: ExpressionTE,
        index: i32,
    ) -> (r: ExpressionTE)
        ensures
            r matches ExpressionTE::StaticSizedArrayLookup { range: at, loct: l, array_expr, index_expr, element_type }
                && at == range && l@ == loct@ && *array_expr == container_alias
                && *index_expr == (ExpressionTE::ConstantInt { range, value: index as i64, bits: 32 })
                && element_type == *static_sized_array_t.element_type,
    {
        let index_expr = ExpressionTE::ConstantInt { range, value: index as i64, bits: 32 };
        ExpressionTE::StaticSizedArrayLookup {
            range,
            loct: loct.copy(),
            array_expr: Box::new(container_alias),
            index_expr: Box::new(index_expr),
            element_type: static_sized_array_t.element_type.copy(),
        }
    }
}

} // verus!
