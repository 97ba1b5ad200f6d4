//! Coercing a value to the kind a parameter, a return or a member wants: relabeling a share or a
//! borrow, copying a primitive out of a reference, calling `implicit_clone`, or upcasting a
//! citizen to an interface it implements.

use vstd::prelude::*;
use crate::range::RangeS;
use crate::loc::LocT;
use crate::compiler_error_reporter::{ICompileErrorT, copy_ranges};
use crate::typing::types::{KindT, same_kind, peel_all, peel_all_references};
use crate::typing::expressions::{ExpressionTE, PrototypeTT, result_of_te};
use crate::typing::env::NodeEnvironmentBox;
use crate::typing::compiler::{Compiler, CompilerOutputs, ImplT};
use crate::typing::function::destructor_compiler::find_drop_in;

verus! {

/// A kind that can be the subtype side of an impl: a citizen or a placeholder.
pub open spec fn is_sub_kind(k: KindT) -> bool {
    k is Struct || k is Interface || k is KindPlaceholder
}

/// A kind that can be the supertype side of an impl: an interface or a placeholder.
pub open spec fn is_super_kind(k: KindT) -> bool {
    k is Interface || k is KindPlaceholder
}

/// The first impl making `sub` a subtype of `sup`.
pub open spec fn find_impl(impls: Seq<ImplT>, sub: KindT, sup: KindT) -> Option<int>
    decreases impls.len(),
{
    if impls.len() == 0 {
        None
    } else if impls[0].sub == sub && impls[0].sup == sup {
        Some(0)
    } else {
        match find_impl(impls.drop_first(), sub, sup) {
            Some(i) => Some(i + 1),
            None => None,
        }
    }
}

/// The conversions `convert` performs; the others are cases it does not handle.
pub open spec fn convert_defined(s: KindT, t: KindT) -> bool {
    if s == t || s is Never {
        true
    } else if t is Never {
        false
    } else if s is BorrowRef && t is BorrowRef {
        true
    } else if t is BorrowRef && s == *t->BorrowRef_0.inner {
        false
    } else if s is BorrowRef && *s->BorrowRef_0.inner == t {
        true
    } else if t is ShareRef && s == *t->ShareRef_0.inner {
        false
    } else if s is ShareRef && *s->ShareRef_0.inner == t {
        true
    } else if s is ShareRef && t is BorrowRef && s->ShareRef_0.inner == t->BorrowRef_0.inner {
        true
    } else {
        !(s is BorrowRef) && !(t is BorrowRef)
    }
}

/// Upcasting `e` (whose citizen is `source`) to `target`: an upcast through the first impl that
/// relates them, or the error that none does (or that one side is no citizen).
pub open spec fn upcast(coutputs: CompilerOutputs, range: Seq<RangeS>, e: ExpressionTE, source: KindT, target: KindT,
    r: Result<ExpressionTE, ICompileErrorT>) -> bool
{
    if !(is_sub_kind(source) && is_super_kind(target)) {
        r matches Err(ICompileErrorT::CouldntConvertT { range: rg, source_type, target_type })
            && rg@ == range && source_type == source && target_type == target
    } else {
        match find_impl(coutputs.impls@, source, target) {
            None => r matches Err(ICompileErrorT::CouldntUpcastT { range: rg, source_type, target_type })
                && rg@ == range && source_type == source && target_type == target,
            Some(i) => if coutputs.impls@[i].is_bound {
                r == Ok::<ExpressionTE, ICompileErrorT>(ExpressionTE::UpcastGeneric {
                    range: range[0], expr: Box::new(e), target_super: target, impl_id: coutputs.impls@[i].impl_id })
            } else {
                r == Ok::<ExpressionTE, ICompileErrorT>(ExpressionTE::UpcastInterface {
                    range: range[0], expr: Box::new(e), target_super: target, impl_id: coutputs.impls@[i].impl_id })
            },
        }
    }
}

/// Whether the outputs hold an `implicit_clone` written for the citizen of `source`.
pub open spec fn clone_tried_for(c: Compiler, coutputs: CompilerOutputs, source: KindT) -> bool {
    exists|i: int| 0 <= i < coutputs.prototypes@.len() && (#[trigger] coutputs.prototypes@[i]).name == c.keywords.implicit_clone
        && coutputs.prototypes@[i].params@.len() == 1 && peel_all(coutputs.prototypes@[i].params@[0]) == peel_all(source)
}

/// Cloning `e` (of kind `source`) into a `target`: a call of the `implicit_clone` that takes exactly
/// a `source`, or the error that the one written for it does not fit, or that there is none.
pub open spec fn cloned_into(c: Compiler, coutputs: CompilerOutputs, range: Seq<RangeS>, loct: Seq<i32>, e: ExpressionTE,
    source: KindT, target: KindT, r: Result<ExpressionTE, ICompileErrorT>) -> bool
{
    match find_drop_in(coutputs.prototypes@, c.keywords.implicit_clone, source) {
        Some(i) => r matches Ok(ExpressionTE::FunctionCall { loct: l, range: rg, callable, args, result })
            && l@ == loct && rg@ == range && callable.same(coutputs.prototypes@[i]) && args@ == seq![e]
            && result == coutputs.prototypes@[i].return_type,
        None => if clone_tried_for(c, coutputs, source) {
            r matches Err(ICompileErrorT::ImplicitCloneRejectedT { range: rg, source_type, target_type })
                && rg@ == range && source_type == source && target_type == target
        } else {
            r matches Err(ICompileErrorT::NoImplicitCloneDefinedT { range: rg, source_type, target_type })
                && rg@ == range && source_type == source && target_type == target
        },
    }
}

/// Converting a value of kind `s` to kind `t` hands the value back as it is: the kinds agree, the
/// value never returns, or two borrows agree on what they point at.
pub open spec fn keeps_value(s: KindT, t: KindT) -> bool {
    s == t || s is Never || (s is BorrowRef && t is BorrowRef && *s->BorrowRef_0.inner == *t->BorrowRef_0.inner)
}

/// Converting the `i`th value at `loct` extended by `i` succeeds.
pub open spec fn converts_at(c: Compiler, coutputs: CompilerOutputs, range: Seq<RangeS>, loct: Seq<i32>, es: Seq<ExpressionTE>, ts: Seq<KindT>, i: int) -> bool {
    exists|x: ExpressionTE| converted(c, coutputs, range, loct.push(i as i32), es[i], ts[i], Ok::<ExpressionTE, ICompileErrorT>(x))
}

/// What converting `e` to kind `t` gives, row by row of the coercion table.
pub open spec fn converted(c: Compiler, coutputs: CompilerOutputs, range: Seq<RangeS>, loct: Seq<i32>, e: ExpressionTE, t: KindT,
    r: Result<ExpressionTE, ICompileErrorT>) -> bool
{
    let s = result_of_te(e);
    if s == t || s is Never {
        r == Ok::<ExpressionTE, ICompileErrorT>(e)
    } else if s is BorrowRef && t is BorrowRef {
        let si = *s->BorrowRef_0.inner;
        let ti = *t->BorrowRef_0.inner;
        if si == ti {
            r == Ok::<ExpressionTE, ICompileErrorT>(e)
        } else if si is ShareRef && *si->ShareRef_0.inner == ti {
            r == Ok::<ExpressionTE, ICompileErrorT>(ExpressionTE::Reinterpret { range: range[0], expr: Box::new(e), result: t })
        } else {
            upcast(coutputs, range, e, si, ti, r)
        }
    } else if s is BorrowRef && *s->BorrowRef_0.inner == t {
        if coutputs.implicitly_cloneable@.contains(t) {
            r matches Ok(ExpressionTE::CopyPrim { range: at, loct: l, expr, result })
                && at == range[0] && l@ == loct && *expr == e && result == t
        } else {
            cloned_into(c, coutputs, range, loct, e, s, t, r)
        }
    } else if s is ShareRef && *s->ShareRef_0.inner == t {
        r matches Ok(ExpressionTE::CopyPrim { range: at, loct: l, expr, result })
            && at == range[0] && l@ == loct && *expr == e && result == t
    } else if s is ShareRef && t is BorrowRef {
        r == Ok::<ExpressionTE, ICompileErrorT>(ExpressionTE::Reinterpret { range: range[0], expr: Box::new(e), result: t })
    } else {
        upcast(coutputs, range, e, s, t, r)
    }
}

/// How deep a kind's reference wrappers go.
spec fn wrap_depth(k: KindT) -> nat
    decreases k,
{
    match k {
        KindT::BorrowRef(b) => 1 + wrap_depth(*b.inner),
        KindT::WeakRef(b) => 1 + wrap_depth(*b.inner),
        KindT::OwnRef(b) => 1 + wrap_depth(*b.inner),
        KindT::ShareRef(b) => 1 + wrap_depth(*b.inner),
        _ => 0,
    }
}

/// Converting a borrow of a share of `T` to a borrow of `T` succeeds: the share under the borrow is
/// peeled, a reinterpretation at the first range whose result is the target kind.
pub proof fn law_borrow_of_share_converts_by_reinterpret(c: Compiler, coutputs: CompilerOutputs, range: Seq<RangeS>, loct: Seq<i32>,
    e: ExpressionTE, t: KindT, r: Result<ExpressionTE, ICompileErrorT>)
    requires
        converted(c, coutputs, range, loct, e, t, r),
        result_of_te(e) is BorrowRef,
        *result_of_te(e)->BorrowRef_0.inner is ShareRef,
        t is BorrowRef,
        *t->BorrowRef_0.inner == *(*result_of_te(e)->BorrowRef_0.inner)->ShareRef_0.inner,
    ensures
        r == Ok::<ExpressionTE, ICompileErrorT>(ExpressionTE::Reinterpret { range: range[0], expr: Box::new(e), result: t }),
        result_of_te(r->Ok_0) == t,
{
    let s = result_of_te(e);
    let si = *s->BorrowRef_0.inner;
    let ti = *t->BorrowRef_0.inner;
    assert(wrap_depth(si) == 1 + wrap_depth(ti));
    assert(si != ti);
    assert(wrap_depth(s) == 1 + wrap_depth(t));
    assert(s != t);
}

/// Whether a list of kinds holds `k`.
fn kinds_contain(kinds: &Vec<KindT>, k: &KindT) -> (r: bool)
    ensures r == kinds@.contains(*k),
{
    let mut i: usize = 0;
    while i < kinds.len()
        invariant
            i <= kinds@.len(),
            forall|j: int| 0 <= j < i ==> kinds@[j] != *k,
        decreases kinds@.len() - i,
    {
        if same_kind(&kinds[i], k) {
            assert(kinds@[i as int] == *k);
            return true;
        }
        i = i + 1;
    }
    false
}

impl Compiler {
    /// Upcast `source_expr` through the impl that makes `source_kind` a subtype of `target_kind`.
    fn convert_via_upcast(&self, coutputs: &CompilerOutputs, range: &Vec<RangeS>, source_expr: ExpressionTE, source_kind: &KindT, target_kind: &KindT)
        -> (r: Result<ExpressionTE, ICompileErrorT>)
        requires range@.len() > 0,
        ensures upcast(*coutputs, range@, source_expr, *source_kind, *target_kind, r),
    {
        let sub_ok = match source_kind {
            KindT::Struct(_) | KindT::Interface(_) | KindT::KindPlaceholder(_) => true,
            _ => false,
        };
        let super_ok = match target_kind {
            KindT::Interface(_) | KindT::KindPlaceholder(_) => true,
            _ => false,
        };
        if !(sub_ok && super_ok) {
            return Err(ICompileErrorT::CouldntConvertT { range: copy_ranges(range), source_type: source_kind.copy(), target_type: target_kind.copy() });
        }
        let mut i: usize = 0;
        assert(coutputs.impls@.subrange(0, coutputs.impls@.len() as int) =~= coutputs.impls@);
        while i < coutputs.impls.len()
            invariant
                range@.len() > 0,
                is_sub_kind(*source_kind) && is_super_kind(*target_kind),
                i <= coutputs.impls@.len(),
                find_impl(coutputs.impls@, *source_kind, *target_kind) == match find_impl(coutputs.impls@.subrange(i as int, coutputs.impls@.len() as int), *source_kind, *target_kind) {
                    Some(j) => Some(j + i),
                    None => None::<int>,
                },
            decreases coutputs.impls@.len() - i,
        {
            proof {
                let rest = coutputs.impls@.subrange(i as int, coutputs.impls@.len() as int);
                assert(rest.drop_first() =~= coutputs.impls@.subrange(i + 1, coutputs.impls@.len() as int));
                assert(rest[0] == coutputs.impls@[i as int]);
            }
            let imp = &coutputs.impls[i];
            if same_kind(&imp.sub, source_kind) && same_kind(&imp.sup, target_kind) {
                if imp.is_bound {
                    return Ok(ExpressionTE::UpcastGeneric { range: range[0], expr: Box::new(source_expr), target_super: target_kind.copy(), impl_id: imp.impl_id });
                } else {
                    return Ok(ExpressionTE::UpcastInterface { range: range[0], expr: Box::new(source_expr), target_super: target_kind.copy(), impl_id: imp.impl_id });
                }
            }
            i = i + 1;
        }
        Err(ICompileErrorT::CouldntUpcastT { range: copy_ranges(range), source_type: source_kind.copy(), target_type: target_kind.copy() })
    }

    /// Call the `implicit_clone` that takes a `source_kind`.
    fn convert_via_implicit_clone(&self, loct: &LocT, coutputs: &CompilerOutputs, range: &Vec<RangeS>, source_expr: ExpressionTE,
        source_kind: &KindT, target_pointer_type: &KindT) -> (r: Result<ExpressionTE, ICompileErrorT>)
        ensures cloned_into(*self, *coutputs, range@, loct@, source_expr, *source_kind, *target_pointer_type, r),
    {
        let ps = &coutputs.prototypes;
        let mut i: usize = 0;
        assert(ps@.subrange(0, ps@.len() as int) =~= ps@);
        while i < ps.len()
            invariant
                *ps == coutputs.prototypes,
                i <= ps@.len(),
                find_drop_in(ps@, self.keywords.implicit_clone, *source_kind) == match find_drop_in(ps@.subrange(i as int, ps@.len() as int), self.keywords.implicit_clone, *source_kind) {
                    Some(j) => Some(j + i),
                    None => None::<int>,
                },
            decreases ps@.len() - i,
        {
            proof {
                let rest = ps@.subrange(i as int, ps@.len() as int);
                assert(rest.drop_first() =~= ps@.subrange(i + 1, ps@.len() as int));
                assert(rest[0] == ps@[i as int]);
            }
            let p = &ps[i];
            if p.name == self.keywords.implicit_clone && p.params.len() == 1 && same_kind(&p.params[0], source_kind) {
                proof { assert(p.params@ =~= seq![*source_kind]); }
                let callable = p.copy();
                let result = callable.return_type.copy();
                proof {
                    assert(find_drop_in(ps@.subrange(i as int, ps@.len() as int), self.keywords.implicit_clone, *source_kind) == Some(0int));
                    assert(callable.same(ps@[i as int]));
                }
                let mut args: Vec<ExpressionTE> = Vec::new();
                args.push(source_expr);
                proof { assert(args@ =~= seq![source_expr]); }
                let l = loct.copy();
                let rg = copy_ranges(range);
                let ghost cv = callable;
                let ghost av = args@;
                let call = ExpressionTE::FunctionCall { loct: l, range: rg, callable, args, result };
                proof {
                    assert(cv.same(coutputs.prototypes@[i as int]));
                    assert(av == seq![source_expr]);
                    assert(result == coutputs.prototypes@[i as int].return_type);
                    assert(find_drop_in(coutputs.prototypes@, self.keywords.implicit_clone, *source_kind) == Some(i as int));
                }
                return Ok(call);
            }
            proof {
                if p.name == self.keywords.implicit_clone && p.params@ == seq![*source_kind] {
                    assert(p.params@[0] == *source_kind);
                }
            }
            i = i + 1;
        }
        let peeled_source = peel_all_references(source_kind);
        let mut tried = false;
        let mut j: usize = 0;
        while j < ps.len()
            invariant
                *ps == coutputs.prototypes,
                j <= ps@.len(),
                *peeled_source == peel_all(*source_kind),
                tried == exists|k: int| 0 <= k < j && (#[trigger] ps@[k]).name == self.keywords.implicit_clone
                    && ps@[k].params@.len() == 1 && peel_all(ps@[k].params@[0]) == peel_all(*source_kind),
            decreases ps@.len() - j,
        {
            let p = &ps[j];
            if p.name == self.keywords.implicit_clone && p.params.len() == 1 && same_kind(peel_all_references(&p.params[0]), peeled_source) {
                tried = true;
            }
            j = j + 1;
        }
        if tried {
            Err(ICompileErrorT::ImplicitCloneRejectedT { range: copy_ranges(range), source_type: source_kind.copy(), target_type: target_pointer_type.copy() })
        } else {
            Err(ICompileErrorT::NoImplicitCloneDefinedT { range: copy_ranges(range), source_type: source_kind.copy(), target_type: target_pointer_type.copy() })
        }
    }

    /// Coerce `source_expr` until its kind is `target_pointer_type`, inserting whatever that takes.
    /// Kinds can differ in their citizen (an upcast, such as `&Dog` to `&Animal`), in their
    /// reference wrappers (a coercion), or both.
    pub fn convert(
        &self,
        nenv: &mut NodeEnvironmentBox,
        loct: &LocT,
        coutputs: &CompilerOutputs,
        range: &Vec<RangeS>,
        source_expr: ExpressionTE,
        target_pointer_type: &KindT,
    ) -> (r: Result<ExpressionTE, ICompileErrorT>)
        requires
            range@.len() > 0 || keeps_value(result_of_te(source_expr), *target_pointer_type),
            convert_defined(result_of_te(source_expr), *target_pointer_type),
        ensures
            converted(*self, *coutputs, range@, loct@, source_expr, *target_pointer_type, r),
            *final(nenv) == *old(nenv),
    {
        let source_kind = source_expr.result();
        if same_kind(&source_kind, target_pointer_type) {
            return Ok(source_expr);
        }
        if let KindT::Never = source_kind {
            return Ok(source_expr);
        }
        match (&source_kind, target_pointer_type) {
            (KindT::BorrowRef(source_borrow), KindT::BorrowRef(target_borrow)) => {
                if same_kind(&source_borrow.inner, &target_borrow.inner) {
                    Ok(source_expr)
                } else {
                    let peels_share = match &*source_borrow.inner {
                        KindT::ShareRef(ss) => same_kind(&ss.inner, &target_borrow.inner),
                        _ => false,
                    };
                    if peels_share {
                        Ok(ExpressionTE::Reinterpret { range: range[0], expr: Box::new(source_expr), result: target_pointer_type.copy() })
                    } else {
                        self.convert_via_upcast(coutputs, range, source_expr, &source_borrow.inner, &target_borrow.inner)
                    }
                }
            },
            (KindT::BorrowRef(source_borrow), _) => {
                if same_kind(&source_borrow.inner, target_pointer_type) {
                    if kinds_contain(&coutputs.implicitly_cloneable, &source_borrow.inner) {
                        Ok(ExpressionTE::CopyPrim { range: range[0], loct: loct.copy(), expr: Box::new(source_expr), result: target_pointer_type.copy() })
                    } else {
                        self.convert_via_implicit_clone(loct, coutputs, range, source_expr, &source_kind, target_pointer_type)
                    }
                } else {
                    self.convert_via_upcast(coutputs, range, source_expr, &source_kind, target_pointer_type)
                }
            },
            (KindT::ShareRef(source_share), _) => {
                if same_kind(&source_share.inner, target_pointer_type) {
                    Ok(ExpressionTE::CopyPrim { range: range[0], loct: loct.copy(), expr: Box::new(source_expr), result: target_pointer_type.copy() })
                } else {
                    match target_pointer_type {
                        KindT::BorrowRef(_) => Ok(ExpressionTE::Reinterpret { range: range[0], expr: Box::new(source_expr), result: target_pointer_type.copy() }),
                        _ => self.convert_via_upcast(coutputs, range, source_expr, &source_kind, target_pointer_type),
                    }
                }
            },
            _ => self.convert_via_upcast(coutputs, range, source_expr, &source_kind, target_pointer_type),
        }
    }
}

impl Compiler {
    /// Convert each value to its target kind, the `i`th at `loct` extended by `i`; stop at the first
    /// that cannot be converted.
    pub fn convert_exprs(
        &self,
        nenv: &mut NodeEnvironmentBox,
        loct: &LocT,
        coutputs: &CompilerOutputs,
        range: &Vec<RangeS>,
        source_exprs: Vec<ExpressionTE>,
        target_pointer_types: &Vec<KindT>,
    ) -> (r: Result<Vec<ExpressionTE>, ICompileErrorT>)
        requires
            range@.len() > 0 || forall|i: int| 0 <= i < source_exprs@.len() ==> keeps_value(result_of_te(#[trigger] source_exprs@[i]), target_pointer_types@[i]),
            loct@.len() < usize::MAX,
            source_exprs@.len() == target_pointer_types@.len(),
            source_exprs@.len() <= i32::MAX,
            forall|i: int| 0 <= i < source_exprs@.len() ==> convert_defined(result_of_te(#[trigger] source_exprs@[i]), target_pointer_types@[i]),
        ensures
            r matches Ok(es) ==> es@.len() == source_exprs@.len() && forall|i: int| 0 <= i < source_exprs@.len()
                ==> converted(*self, *coutputs, range@, loct@.push(i as i32), source_exprs@[i], target_pointer_types@[i],
                        Ok::<ExpressionTE, ICompileErrorT>(#[trigger] es@[i])),
            r matches Err(e) ==> exists|i: int| 0 <= i < source_exprs@.len()
                && (forall|j: int| 0 <= j < i ==> #[trigger] converts_at(*self, *coutputs, range@, loct@, source_exprs@, target_pointer_types@, j))
                && converted(*self, *coutputs, range@, loct@.push(i as i32), #[trigger] source_exprs@[i], target_pointer_types@[i],
                        Err::<ExpressionTE, ICompileErrorT>(e)),
            *final(nenv) == *old(nenv),
    {
        let ghost sources = source_exprs@;
        let mut rest = source_exprs;
        let mut previous_ref_exprs: Vec<ExpressionTE> = Vec::new();
        let mut index: usize = 0;
        while rest.len() > 0
            invariant
                sources == source_exprs@,
                index <= sources.len(),
                sources.len() == target_pointer_types@.len(),
                sources.len() <= i32::MAX,
                range@.len() > 0 || forall|i: int| 0 <= i < sources.len() ==> keeps_value(result_of_te(#[trigger] sources[i]), target_pointer_types@[i]),
                loct@.len() < usize::MAX,
                rest@ == sources.subrange(index as int, sources.len() as int),
                previous_ref_exprs@.len() == index,
                forall|i: int| 0 <= i < sources.len() ==> convert_defined(result_of_te(#[trigger] sources[i]), target_pointer_types@[i]),
                forall|i: int| 0 <= i < index ==> converted(*self, *coutputs, range@, loct@.push(i as i32), sources[i], target_pointer_types@[i],
                    Ok::<ExpressionTE, ICompileErrorT>(#[trigger] previous_ref_exprs@[i])),
                *nenv == *old(nenv),
            decreases rest@.len(),
        {
            let source_expr = rest.remove(0);
            proof {
                assert(source_expr == sources[index as int]);
                assert(rest@ =~= sources.subrange(index + 1, sources.len() as int));
            }
            let ref_expr = self.convert(nenv, &loct.add(index as i32), coutputs, range, source_expr, &target_pointer_types[index]);
            match ref_expr {
                Ok(e) => { previous_ref_exprs.push(e); },
                Err(e) => {
                    proof {
                        let ii = index as int;
                        assert((ii as i32) == (index as i32));
                        assert(converted(*self, *coutputs, range@, loct@.push(ii as i32), sources[ii],
                            target_pointer_types@[ii], Err::<ExpressionTE, ICompileErrorT>(e)));
                        assert forall|j: int| 0 <= j < ii implies #[trigger] converts_at(*self, *coutputs, range@, loct@, sources, target_pointer_types@, j) by {
                            assert(converted(*self, *coutputs, range@, loct@.push(j as i32), sources[j], target_pointer_types@[j],
                                Ok::<ExpressionTE, ICompileErrorT>(previous_ref_exprs@[j])));
                        }
                    }
                    return Err(e);
                },
            }
            index = index + 1;
        }
        Ok(previous_ref_exprs)
    }
}

} // verus!
