//! Expression-level helpers of the typing pass: dropping a block's locals, holding a block's result
//! while they are dropped, weak references, and overload-set values.

use vstd::prelude::*;
use crate::interner::StrI;
use crate::names::IVarNameT;
use crate::range::RangeS;
use crate::loc::LocT;
use crate::compiler_error_reporter::{ICompileErrorT, copy_ranges};
use crate::typing::types::{KindT, SharednessT};
use crate::typing::expressions::{ExpressionTE, LocalVariableT, result_of_te};
use crate::typing::env::{NodeEnvironmentBox, ITemplataT, find_local, find_templata};
use crate::typing::compiler::{Compiler, CompilerOutputs};
use crate::typing::expression::local_helper::{all_dropped, all_droppable, all_drops_return_void, local_names, first_failed_drop};

verus! {

impl Compiler {
    /// Hold a value in a new local named by the location that makes it, so the locals around it can
    /// be dropped before the value is handed on.
    pub fn resultify_expressions(&mut self, nenv: &mut NodeEnvironmentBox, range: RangeS, loct: &LocT, expr: ExpressionTE)
        -> (r: (ExpressionTE, LocalVariableT))
        requires old(self).typing_interner.locs@.len() < u32::MAX,
        ensures
            r.0 == (ExpressionTE::LetNormal { range, variable: r.1, expr: Box::new(expr) }),
            r.1.tyype == result_of_te(expr),
            r.1.name matches IVarNameT::TypingPassBlockResultVarName(h) && h < final(self).typing_interner.locs@.len()
                && final(self).typing_interner.loc_paths()[h as int] == loct@,
            final(nenv).declared_locals@ == old(nenv).declared_locals@.push(r.1),
            final(nenv).unstackified_locals@ == old(nenv).unstackified_locals@,
            old(self).typing_interner.loc_paths().is_prefix_of(final(self).typing_interner.loc_paths()),
            final(self).typing_interner.locs@.len() <= old(self).typing_interner.locs@.len() + 1,
            final(self).interner == old(self).interner,
            final(self).keywords == old(self).keywords,
    {
        let result_var_name = self.typing_interner.intern_typing_pass_block_result_var_name(loct);
        let result_variable = LocalVariableT { name: result_var_name, tyype: expr.result() };
        let result_let = ExpressionTE::LetNormal { range, variable: result_variable.copy(), expr: Box::new(expr) };
        nenv.add_variable(result_variable.copy());
        (result_let, result_variable)
    }

    /// A value of the overload set named `name`, as a reinterpreted void.
    pub fn new_global_function_group_expression(&self, range: RangeS, name: StrI) -> (r: ExpressionTE)
        ensures
            r == (ExpressionTE::Reinterpret {
                range,
                expr: Box::new(ExpressionTE::VoidLiteral { range }),
                result: KindT::OverloadSet(name.0),
            }),
    {
        let void_expr = ExpressionTE::VoidLiteral { range };
        ExpressionTE::Reinterpret { range, expr: Box::new(void_expr), result: KindT::OverloadSet(name.0) }
    }
}

/// Whether the citizen numbered `id` in `list` is shared, if `list` has it (the first entry).
pub open spec fn sharedness_in(list: Seq<(u32, SharednessT)>, id: u32) -> Option<SharednessT>
    decreases list.len(),
{
    if list.len() == 0 {
        None
    } else if list[0].0 == id {
        Some(list[0].1)
    } else {
        sharedness_in(list.drop_first(), id)
    }
}

fn lookup_sharedness(list: &Vec<(u32, SharednessT)>, id: u32) -> (r: Option<SharednessT>)
    ensures r == sharedness_in(list@, id),
{
    let mut i: usize = 0;
    assert(list@.subrange(0, list@.len() as int) =~= list@);
    while i < list.len()
        invariant
            i <= list@.len(),
            sharedness_in(list@, id) == sharedness_in(list@.subrange(i as int, list@.len() as int), id),
        decreases list@.len() - i,
    {
        proof {
            let rest = list@.subrange(i as int, list@.len() as int);
            assert(rest.drop_first() =~= list@.subrange(i + 1, list@.len() as int));
            assert(rest[0] == list@[i as int]);
        }
        if list[i].0 == id {
            return Some(list[i].1);
        }
        i = i + 1;
    }
    None
}

/// The kind of value `weak_alias` is defined on: a struct or interface the outputs know, and that
/// is not shared.
pub open spec fn weak_alias_defined(coutputs: CompilerOutputs, k: KindT) -> bool {
    match k {
        KindT::Struct(s) => sharedness_in(coutputs.structs@, s.id) matches Some(sh) && sh != SharednessT::Shared,
        KindT::Interface(i) => sharedness_in(coutputs.interfaces@, i.id) matches Some(sh) && sh != SharednessT::Shared,
        _ => false,
    }
}

impl Compiler {
    /// Take a weak reference: only a shared citizen is weakable, so a single-owned struct or
    /// interface is an error. (A shared citizen would then need the value to be a borrow, which a
    /// citizen value is not, so that path is not taken.)
    pub fn weak_alias(&self, coutputs: &CompilerOutputs, parent_ranges: &Vec<RangeS>, expr: ExpressionTE) -> (r: Result<ExpressionTE, ICompileErrorT>)
        requires weak_alias_defined(*coutputs, result_of_te(expr)),
        ensures r matches Err(ICompileErrorT::TookWeakRefOfNonWeakableError { range }) && range@ == parent_ranges@,
    {
        match expr.result() {
            KindT::Struct(sr) => {
                match lookup_sharedness(&coutputs.structs, sr.id) {
                    Some(sh) => {
                        if sh != SharednessT::Shared {
                            return Err(ICompileErrorT::TookWeakRefOfNonWeakableError { range: copy_ranges(parent_ranges) });
                        }
                    },
                    None => {},
                }
            },
            KindT::Interface(ir) => {
                match lookup_sharedness(&coutputs.interfaces, ir.id) {
                    Some(sh) => {
                        if sh != SharednessT::Shared {
                            return Err(ICompileErrorT::TookWeakRefOfNonWeakableError { range: copy_ranges(parent_ranges) });
                        }
                    },
                    None => {},
                }
            },
            _ => {},
        }
        Err(ICompileErrorT::TookWeakRefOfNonWeakableError { range: copy_ranges(parent_ranges) })
    }
}

/// The locals in reverse order.
pub open spec fn reversed(vars: Seq<LocalVariableT>) -> Seq<LocalVariableT> {
    Seq::new(vars.len(), |i: int| vars[vars.len() - 1 - i])
}

fn reverse_locals(vars: &Vec<LocalVariableT>) -> (r: Vec<LocalVariableT>)
    ensures r@ == reversed(vars@),
{
    let mut out: Vec<LocalVariableT> = Vec::new();
    let mut i: usize = vars.len();
    while i > 0
        invariant
            i <= vars@.len(),
            out@.len() == vars@.len() - i,
            forall|k: int| 0 <= k < out@.len() ==> #[trigger] out@[k] == vars@[vars@.len() - 1 - k],
        decreases i,
    {
        out.push(vars[i - 1].copy());
        i = i - 1;
    }
    assert(out@ =~= reversed(vars@));
    out
}

/// The block result `r` of dropping a block's locals `vars` after its value `expr`: `expr` alone
/// when there is nothing to drop or it never returns; for a void `expr`, `expr`, each local's drop
/// (the last declared first), then a void; otherwise the value held in a result local, the drops,
/// then the result local moved out.
pub open spec fn dropped_since(c: Compiler, coutputs: CompilerOutputs, range: Seq<RangeS>, loct: Seq<i32>, expr: ExpressionTE,
    vars: Seq<LocalVariableT>, r: Result<ExpressionTE, ICompileErrorT>) -> bool
{
    let rev = reversed(vars);
    let n = vars.len() as int;
    if n == 0 || result_of_te(expr) is Never {
        r == Ok::<ExpressionTE, ICompileErrorT>(expr)
    } else if result_of_te(expr) is Void {
        &&& (r is Ok <==> all_droppable(c, coutputs, rev))
        &&& r matches Ok(x) ==> {
            &&& x matches ExpressionTE::Consecutor { range: at, exprs }
            &&& at == range[0]
            &&& exprs@.len() == n + 2
            &&& exprs@[0] == expr
            &&& all_dropped(c, coutputs, range, loct.push(0), rev, exprs@.subrange(1, n + 1))
            &&& exprs@[n + 1] == (ExpressionTE::VoidLiteral { range: range[0] })
        }
    } else {
        &&& (r is Ok <==> all_droppable(c, coutputs, rev))
        &&& r matches Ok(x) ==> {
            &&& x matches ExpressionTE::Consecutor { range: at, exprs }
            &&& at == range[0]
            &&& exprs@.len() == n + 2
            &&& exprs@[0] matches ExpressionTE::LetNormal { range: let_at, variable, expr: held }
            &&& let_at == range[0]
            &&& *held == expr
            &&& variable.tyype == result_of_te(expr)
            &&& variable.name matches IVarNameT::TypingPassBlockResultVarName(h) && h < c.typing_interner.locs@.len()
                && c.typing_interner.loc_paths()[h as int] == loct.push(1)
            &&& all_dropped(c, coutputs, range, loct.push(2), rev, exprs@.subrange(1, n + 1))
            &&& exprs@[n + 1] == (ExpressionTE::Unlet { range: range[0], variable })
        }
    }
}

impl Compiler {
    /// Drop the locals a block declared, after its value. A value that never returns leaves them
    /// undropped (they are only marked moved out), so a `drop` that panics needs no drop of its own.
    pub fn drop_since(
        &mut self,
        coutputs: &CompilerOutputs,
        nenv: &mut NodeEnvironmentBox,
        range: &Vec<RangeS>,
        loct: &LocT,
        expr_te: ExpressionTE,
        unreversed_variables_to_destruct: Vec<LocalVariableT>,
    ) -> (r: Result<ExpressionTE, ICompileErrorT>)
        requires
            range@.len() > 0,
            loct@.len() < usize::MAX - 1,
            unreversed_variables_to_destruct@.len() <= i32::MAX,
            all_drops_return_void(*old(self), *coutputs, unreversed_variables_to_destruct@),
            old(self).typing_interner.locs@.len() < u32::MAX,
        ensures
            dropped_since(*final(self), *coutputs, range@, loct@, expr_te, unreversed_variables_to_destruct@, r),
            unreversed_variables_to_destruct@.len() > 0 && (result_of_te(expr_te) is Never || (result_of_te(expr_te) is Void && r is Ok)) ==>
                final(nenv).unstackified_locals@ == old(nenv).unstackified_locals@ + local_names(reversed(unreversed_variables_to_destruct@)),
            unreversed_variables_to_destruct@.len() > 0 && !(result_of_te(expr_te) is Never) && !(result_of_te(expr_te) is Void) ==> (r matches Ok(x) ==> {
                &&& x matches ExpressionTE::Consecutor { exprs, .. }
                &&& exprs@.len() > 0
                &&& exprs@[0] matches ExpressionTE::LetNormal { variable, .. }
                &&& final(nenv).unstackified_locals@
                    == (old(nenv).unstackified_locals@ + local_names(reversed(unreversed_variables_to_destruct@))).push(variable.name)
            }),
            r matches Err(e) ==> unreversed_variables_to_destruct@.len() > 0 && first_failed_drop(*final(self), *coutputs, range@,
                loct@.push(if result_of_te(expr_te) is Void { 0i32 } else { 2i32 }), reversed(unreversed_variables_to_destruct@), e),
            final(self).interner == old(self).interner,
            final(self).keywords == old(self).keywords,
    {
        if unreversed_variables_to_destruct.len() == 0 {
            return Ok(expr_te);
        }
        let ghost n = unreversed_variables_to_destruct@.len() as int;
        let reversed_variables = reverse_locals(&unreversed_variables_to_destruct);
        proof {
            assert forall|i: int| 0 <= i < reversed_variables@.len() implies
                crate::typing::function::destructor_compiler::drop_returns_void(*self, *coutputs, (#[trigger] reversed_variables@[i]).tyype) by {
                assert(reversed_variables@[i] == unreversed_variables_to_destruct@[n - 1 - i]);
            }
        }
        match expr_te.result() {
            KindT::Void => {
                let destroy_expressions = match self.unlet_and_drop_all(coutputs, nenv, &loct.add(0), range, &reversed_variables) {
                    Ok(d) => d,
                    Err(e) => { return Err(e); },
                };
                let mut exprs: Vec<ExpressionTE> = Vec::new();
                exprs.push(expr_te);
                let ghost des = destroy_expressions@;
                let mut destroy_expressions = destroy_expressions;
                exprs.append(&mut destroy_expressions);
                exprs.push(ExpressionTE::VoidLiteral { range: range[0] });
                proof {
                    assert(exprs@.subrange(1, n + 1) =~= des);
                }
                Ok(ExpressionTE::Consecutor { range: range[0], exprs })
            },
            KindT::Never => {
                let _destroy_expressions = self.unlet_all_without_dropping(coutputs, nenv, range, &reversed_variables);
                Ok(expr_te)
            },
            _ => {
                let (resultified_expr, result_local_variable) = self.resultify_expressions(nenv, range[0], &loct.add(1), expr_te);
                let destroy_expressions = match self.unlet_and_drop_all(coutputs, nenv, &loct.add(2), range, &reversed_variables) {
                    Ok(d) => d,
                    Err(e) => { return Err(e); },
                };
                let mut exprs: Vec<ExpressionTE> = Vec::new();
                exprs.push(resultified_expr);
                let ghost des = destroy_expressions@;
                let mut destroy_expressions = destroy_expressions;
                exprs.append(&mut destroy_expressions);
                let unlet_te = self.unlet_local_without_dropping(range[0], nenv, &result_local_variable);
                exprs.push(unlet_te);
                proof {
                    assert(exprs@.subrange(1, n + 1) =~= des);
                }
                Ok(ExpressionTE::Consecutor { range: range[0], exprs })
            },
        }
    }
}

/// `e` borrows local `v` at `range` and location `loct`.
pub open spec fn looks_up(e: ExpressionTE, range: RangeS, loct: Seq<i32>, v: LocalVariableT) -> bool {
    e matches ExpressionTE::LocalLookup { range: r, loct: l, variable } && r == range && l@ == loct && variable == v
}

/// What loading the name `name` gives: a borrow of the nearest local of that name (decayed to a
/// single borrow if the local itself holds a borrow), the error that the local was moved out, the
/// compile-time integer or boolean the name stands for, or nothing.
pub open spec fn loaded(nenv: NodeEnvironmentBox, ranges: Seq<RangeS>, loct: Seq<i32>, name: IVarNameT,
    r: Result<Option<ExpressionTE>, ICompileErrorT>) -> bool
{
    match find_local(nenv.declared_locals@, name) {
        Some(i) => {
            let v = nenv.declared_locals@[i];
            if nenv.unstackified_locals@.contains(v.name) {
                r matches Err(ICompileErrorT::CantUseUnstackifiedLocal { range, local_id }) && range@ == ranges && local_id == v.name
            } else if v.tyype is BorrowRef {
                &&& r matches Ok(Some(e))
                &&& e matches ExpressionTE::Deref { range: at, loct: l, inner }
                &&& at == ranges[0]
                &&& l@ == loct
                &&& looks_up(*inner, ranges[0], loct, v)
            } else {
                r matches Ok(Some(e)) && looks_up(e, ranges[0], loct, v)
            }
        },
        None => match find_templata(nenv.templatas@, name) {
            Some(j) => match nenv.templatas@[j].1 {
                ITemplataT::Integer(n) => r == Ok::<Option<ExpressionTE>, ICompileErrorT>(Some(ExpressionTE::ConstantInt { range: ranges[0], value: n, bits: 32 })),
                ITemplataT::Boolean(b) => r == Ok::<Option<ExpressionTE>, ICompileErrorT>(Some(ExpressionTE::ConstantBool { range: ranges[0], value: b })),
                _ => false,
            },
            None => r == Ok::<Option<ExpressionTE>, ICompileErrorT>(None),
        },
    }
}

/// A name that is no local stands for an integer or a boolean, if for anything.
pub open spec fn load_defined(nenv: NodeEnvironmentBox, name: IVarNameT) -> bool {
    find_local(nenv.declared_locals@, name) is None ==> match find_templata(nenv.templatas@, name) {
        Some(j) => nenv.templatas@[j].1 is Integer || nenv.templatas@[j].1 is Boolean,
        None => true,
    }
}

/// Loading `name` builds a node at the first range: it finds a local still on the stack, or no
/// local but a compile-time integer or boolean.
pub open spec fn load_builds(nenv: NodeEnvironmentBox, name: IVarNameT) -> bool {
    match find_local(nenv.declared_locals@, name) {
        Some(i) => !nenv.unstackified_locals@.contains(nenv.declared_locals@[i].name),
        None => match find_templata(nenv.templatas@, name) {
            Some(j) => nenv.templatas@[j].1 is Integer || nenv.templatas@[j].1 is Boolean,
            None => false,
        },
    }
}

impl Compiler {
    /// Load a name for reading.
    pub fn evaluate_lookup_for_load(&self, nenv: &NodeEnvironmentBox, loct: &LocT, ranges: &Vec<RangeS>, name: IVarNameT)
        -> (r: Result<Option<ExpressionTE>, ICompileErrorT>)
        requires ranges@.len() > 0 || !load_builds(*nenv, name), load_defined(*nenv, name),
        ensures loaded(*nenv, ranges@, loct@, name, r),
    {
        match nenv.get_variable(name) {
            Some(rlv) => {
                if nenv.is_unstackified(rlv.name) {
                    return Err(ICompileErrorT::CantUseUnstackifiedLocal { range: copy_ranges(ranges), local_id: rlv.name });
                }
                let lookup_te_undecayed = ExpressionTE::LocalLookup { range: ranges[0], loct: loct.copy(), variable: rlv.copy() };
                match &rlv.tyype {
                    KindT::BorrowRef(_) => Ok(Some(ExpressionTE::Deref { range: ranges[0], loct: loct.copy(), inner: Box::new(lookup_te_undecayed) })),
                    _ => Ok(Some(lookup_te_undecayed)),
                }
            },
            None => match nenv.lookup_templata(name) {
                Some(ITemplataT::Integer(num)) => Ok(Some(ExpressionTE::ConstantInt { range: ranges[0], value: *num, bits: 32 })),
                Some(ITemplataT::Boolean(b)) => Ok(Some(ExpressionTE::ConstantBool { range: ranges[0], value: *b })),
                None => Ok(None),
                Some(_) => Ok(None),
            },
        }
    }

    /// Look up a local to assign to: a borrow of the nearest local of that name, if there is one.
    pub fn evaluate_addressible_lookup_for_mutate(&self, nenv: &NodeEnvironmentBox, loct: &LocT, parent_ranges: &Vec<RangeS>,
        load_range: RangeS, name: IVarNameT) -> (r: Option<ExpressionTE>)
        ensures
            match find_local(nenv.declared_locals@, name) {
                Some(i) => r matches Some(e) && looks_up(e, load_range, loct@, nenv.declared_locals@[i]),
                None => r is None,
            },
    {
        match nenv.get_variable(name) {
            Some(rlv) => Some(ExpressionTE::LocalLookup { range: load_range, loct: loct.copy(), variable: rlv.copy() }),
            None => None,
        }
    }
}

} // verus!
