//! Laws of the grouping pass: what a function's rune map binds, and which group each parameter's
//! references live in.

use vstd::prelude::*;
use crate::names::IRuneS;
use crate::postparsing::{FunctionS, GroupS, ITypeST, ParameterS, RegionS};
use crate::typing::ast::{FunctionHeaderT, ParameterT};
use crate::typing::types::{KindT, ITemplataT, TemplateArgsT};
use crate::typing::compiler::CompilerOutputs;
use crate::borrow_checker::ast_g::GroupStep;
use crate::borrow_checker::group_expr::{GroupPathV, GroupRootG};
use crate::borrow_checker::kind_g::{KindGV, TemplataGV};
use crate::borrow_checker::experimental::grouped_ast::flat;
use crate::borrow_checker::experimental::groupify::reached_group;
use crate::borrow_checker::experimental::groupify_expr::{
    GroupingCtx, GroupingState, EventV, grouped_node, grouped_nodes, lput, result_v, chain_v, call_touched, node_arg, node_local,
    node_unlet, node_deref, node_let_normal, node_let_and_lend, node_seq, node_reinterpret, node_upcast, node_weak, node_pop,
    node_new_array, node_copy_prim, node_element, node_call, node_member, node_rsa_element, node_if, node_mutate, node_restackify,
    node_groupless, node_one_groupless, node_cast, node_destroy_into_locals, lput_all, lview, node_destroy, lput_pairs, node_while,
};
use crate::index_map::{find_key, lemma_find_key};
use crate::names::IVarNameT;
use crate::typing::expressions::{ExpressionTE, LocalVariableT};
use crate::borrow_checker::experimental::groupify_types::{
    registered, registered_args, generic_bound, generics_bound, params_registered, function_rune_map,
    param_group_path, param_paths_defined, param_path_at, shared_params, grouped_kind, grouped_templata, group_paths,
    resolves, rune_path, var_code, struct_members,
};

verus! {

/// Every group a rune map binds is the rune's own group.
pub open spec fn own_groups(m: Map<IRuneS, TemplataGV>) -> bool {
    forall|r: IRuneS| #[trigger] m.contains_key(r) && m[r] is Group ==> m[r]->group == seq![rune_path(r)]
}

/// `b` holds every binding `a` holds.
pub open spec fn extends(b: Map<IRuneS, TemplataGV>, a: Map<IRuneS, TemplataGV>) -> bool {
    forall|r: IRuneS| #[trigger] a.contains_key(r) ==> b.contains_key(r) && b[r] == a[r]
}

/// A written type that names a rune as a borrow's group, walked against a typed borrow.
pub open spec fn names_group_rune(ts: ITypeST, kt: KindT, g: IRuneS) -> bool {
    &&& kt is BorrowRef
    &&& ts matches ITypeST::BorrowRef(bst)
    &&& bst.region == RegionS::Group(GroupS::Rune(g))
}

/// The group a grouped template argument never is.
proof fn lemma_grouped_templata_not_group(f: bool, co: CompilerOutputs, rm: Map<IRuneS, TemplataGV>,
    lm: Seq<(crate::names::IVarNameT, KindGV)>, t: ITemplataT)
    requires grouped_templata(f, co, rm, lm, t) is Some,
    ensures !(grouped_templata(f, co, rm, lm, t)->0 is Group),
{
}

/// Registering a written type only adds bindings, every group it adds is its rune's own, and a
/// borrow written `in g` leaves `g` bound to a group.
proof fn lemma_registered(co: CompilerOutputs, rm: Map<IRuneS, TemplataGV>, n: Option<crate::names::IVarNameT>, ts: ITypeST, kt: KindT)
    requires registered(co, rm, n, ts, kt) is Some, own_groups(rm),
    ensures
        own_groups(registered(co, rm, n, ts, kt)->0),
        extends(registered(co, rm, n, ts, kt)->0, rm),
        forall|g: IRuneS| #[trigger] names_group_rune(ts, kt, g) ==> registered(co, rm, n, ts, kt)->0.contains_key(g)
            && registered(co, rm, n, ts, kt)->0[g] is Group,
    decreases kt, 1int,
{
    match (ts, kt) {
        (ITypeST::BorrowRef(bst), KindT::BorrowRef(b)) => {
            lemma_registered(co, rm, n, *bst.inner, *b.inner);
            let m = registered(co, rm, n, *bst.inner, *b.inner)->0;
            match bst.region {
                RegionS::Group(GroupS::Rune(rune)) => {
                    if !m.contains_key(rune) {
                        let r = registered(co, rm, n, ts, kt)->0;
                        assert forall|x: IRuneS| #[trigger] r.contains_key(x) && r[x] is Group implies r[x]->group == seq![rune_path(x)] by {
                            if x != rune {
                                assert(m.contains_key(x) && m[x] is Group);
                            }
                        }
                    }
                },
                _ => {},
            }
        },
        (ITypeST::RuntimeSizedArray { element }, KindT::RuntimeSizedArray(a)) => {
            lemma_registered(co, rm, n, *element, *a.element_type);
        },
        (ITypeST::Call { template, args }, KindT::StaticSizedArray(a)) => {
            if args@.len() == 2 {
                lemma_registered(co, rm, n, args@[1], *a.element_type);
            }
        },
        (ITypeST::Call { template, args }, KindT::Struct(s)) => {
            if args@.len() == crate::borrow_checker::experimental::groupify_types::args_len(s.template_args) {
                lemma_registered_args(co, rm, n, args@, s.template_args, 0);
            }
        },
        (ITypeST::Call { template, args }, KindT::Interface(i)) => {
            if args@.len() == crate::borrow_checker::experimental::groupify_types::args_len(i.template_args) {
                lemma_registered_args(co, rm, n, args@, i.template_args, 0);
            }
        },
        (ITypeST::OwnRef { inner }, KindT::OwnRef(b)) => {
            lemma_registered(co, rm, n, *inner, *b.inner);
        },
        (ITypeST::WeakRef { inner }, KindT::WeakRef(b)) => {
            lemma_registered(co, rm, n, *inner, *b.inner);
        },
        (_, KindT::ShareRef(b)) => {
            lemma_registered(co, rm, n, ts, *b.inner);
        },
        _ => {},
    }
}

/// Registering a citizen's written arguments only adds bindings, each group its rune's own.
proof fn lemma_registered_args(co: CompilerOutputs, rm: Map<IRuneS, TemplataGV>, n: Option<crate::names::IVarNameT>,
    ws: Seq<ITypeST>, args: TemplateArgsT, i: int)
    requires registered_args(co, rm, n, ws, args, i) is Some, own_groups(rm),
    ensures
        own_groups(registered_args(co, rm, n, ws, args, i)->0),
        extends(registered_args(co, rm, n, ws, args, i)->0, rm),
    decreases args, 0int,
{
    match args {
        TemplateArgsT::Nil => {},
        TemplateArgsT::Cons(head, tail) => {
            let m = match *head {
                ITemplataT::Kind(k) => if 0 <= i < ws.len() { registered(co, rm, n, ws[i], k) } else { None },
                _ => Some(rm),
            };
            match *head {
                ITemplataT::Kind(k) => {
                    if 0 <= i < ws.len() {
                        lemma_registered(co, rm, n, ws[i], k);
                    }
                },
                _ => {},
            }
            lemma_registered_args(co, m->0, n, ws, *tail, i + 1);
        },
    }
}

/// Binding generic parameters adds no group.
proof fn lemma_generics_bound(co: CompilerOutputs, rm: Map<IRuneS, TemplataGV>, runes: Seq<IRuneS>, args: TemplateArgsT, i: int)
    requires generics_bound(co, rm, runes, args, i) is Some, own_groups(rm),
    ensures own_groups(generics_bound(co, rm, runes, args, i)->0),
    decreases args,
{
    match args {
        TemplateArgsT::Nil => {},
        TemplateArgsT::Cons(head, tail) => {
            if 0 <= i < runes.len() {
                let rune = runes[i];
                let m = generic_bound(co, rm, rune, *head)->0;
                match *head {
                    ITemplataT::Placeholder(_) => {},
                    ITemplataT::Kind(KindT::KindPlaceholder(_)) => {},
                    ITemplataT::Group => {},
                    ITemplataT::Kind(KindT::BorrowRef(_)) => {},
                    _ => {
                        lemma_grouped_templata_not_group(resolves(rm, Seq::empty()), co, rm, Seq::empty(), *head);
                    },
                }
                assert forall|r: IRuneS| #[trigger] m.contains_key(r) && m[r] is Group implies m[r]->group == seq![rune_path(r)] by {
                    if r != rune {
                        assert(rm.contains_key(r) && rm[r] is Group);
                    }
                }
                lemma_generics_bound(co, m, runes, *tail, i + 1);
            }
        },
    }
}

/// Registering the parameters only adds bindings, each group its rune's own, and each parameter
/// written as a borrow `in g` leaves `g` bound to a group.
proof fn lemma_params_registered(co: CompilerOutputs, rm: Map<IRuneS, TemplataGV>, written: Seq<ParameterS>, typed: Seq<ParameterT>, k: int)
    requires params_registered(co, rm, written, typed, k) is Some, own_groups(rm), k <= written.len(), k <= typed.len(),
    ensures
        own_groups(params_registered(co, rm, written, typed, k)->0),
        extends(params_registered(co, rm, written, typed, k)->0, rm),
        forall|i: int, g: IRuneS| 0 <= i < k && #[trigger] names_group_rune(written[i].tyype, typed[i].tyype, g)
            ==> params_registered(co, rm, written, typed, k)->0.contains_key(g)
                && params_registered(co, rm, written, typed, k)->0[g] is Group,
    decreases k,
{
    if k > 0 {
        lemma_params_registered(co, rm, written, typed, k - 1);
        let m = params_registered(co, rm, written, typed, k - 1)->0;
        lemma_registered(co, m, Some(typed[k - 1].name), written[k - 1].tyype, typed[k - 1].tyype);
    }
}

/// Which group path a parameter's written type gives it: a borrow written `in g` lives in `g`, an
/// unannotated borrow in the parameter's own anonymous group; a `held` borrow and a non-borrow have
/// none.
pub open spec fn written_param_path(ps: ParameterS, pt: ParameterT) -> Option<Option<Seq<GroupStep>>> {
    match ps.tyype {
        ITypeST::BorrowRef(st) => match st.region {
            RegionS::Held => Some(None),
            RegionS::Unspecified => Some(Some(seq![GroupStep::ParamAnonymousGroup(pt.name)])),
            RegionS::Group(GroupS::Rune(g)) => Some(Some(seq![GroupStep::Rune(g)])),
            _ => None,
        },
        _ => Some(None),
    }
}

/// A reference parameter lives in the group its written type names: `x &T in g` in `g` (however
/// many parameters name `g`, and whatever the function's generic arguments), an unannotated
/// `x &T` in `x`'s own anonymous group; a `held` or non-borrow parameter in none.
pub proof fn law_param_path_is_written_group(co: CompilerOutputs, f: FunctionS, h: FunctionHeaderT, i: int)
    requires
        param_paths_defined(co, f, h),
        0 <= i < shared_params(f, h),
        h.params@[i].tyype is BorrowRef,
        written_param_path(f.params@[i], h.params@[i]) is Some,
    ensures param_path_at(co, f, h, i) == written_param_path(f.params@[i], h.params@[i])->0,
{
    let m0 = generics_bound(co, Map::empty(), f.generic_params@, h.template_args, 0)->0;
    lemma_generics_bound(co, Map::empty(), f.generic_params@, h.template_args, 0);
    let k = shared_params(f, h);
    lemma_params_registered(co, m0, f.params@, h.params@, k);
    let rm = function_rune_map(co, f, h)->0;
    assert(rm == params_registered(co, m0, f.params@, h.params@, k)->0);
    assert(param_group_path(co, rm, f.params@[i], h.params@[i]) is Some);
    let ps = f.params@[i];
    let pt = h.params@[i];
    match ps.tyype {
        ITypeST::BorrowRef(st) => {
            match st.region {
                RegionS::Group(GroupS::Rune(g)) => {
                    assert(names_group_rune(ps.tyype, pt.tyype, g));
                    assert(rm.contains_key(g) && rm[g] is Group);
                    assert(rm[g]->group == seq![rune_path(g)]);
                    let fl = resolves(rm, Seq::empty());
                    let ps_g = group_paths(fl, co, rm, Seq::empty(), GroupS::Rune(g))->0;
                    assert(ps_g.map_values(|x: (GroupPathV, KindGV)| x.0) =~= seq![rune_path(g)]);
                    assert(flat(rune_path(g)) =~= seq![GroupStep::Rune(g)]);
                },
                RegionS::Unspecified => {
                    let anon = GroupPathV { root: GroupRootG::ParamAnonymousGroup(pt.name), steps: Seq::empty(), ellipsis: false };
                    assert(flat(anon) =~= seq![GroupStep::ParamAnonymousGroup(pt.name)]);
                },
                _ => {},
            }
        },
        _ => {},
    }
}

/// Every group a function's own rune map binds is the group its rune names on its own: a group
/// rune stands for itself, never for another rune's group.
pub proof fn law_function_groups_are_own_runes(co: CompilerOutputs, f: FunctionS, h: FunctionHeaderT)
    requires function_rune_map(co, f, h) is Some,
    ensures own_groups(function_rune_map(co, f, h)->0),
{
    let m0 = generics_bound(co, Map::empty(), f.generic_params@, h.template_args, 0)->0;
    lemma_generics_bound(co, Map::empty(), f.generic_params@, h.template_args, 0);
    lemma_params_registered(co, m0, f.params@, h.params@, shared_params(f, h));
}

/// The key codes of a walk's locals, in first-binding order.
pub open spec fn local_keys(ls: Seq<((u32, u32), KindGV)>) -> Seq<(u32, u32)> {
    ls.map_values(|e: ((u32, u32), KindGV)| e.0)
}

/// What a walk keeps of the state it starts from: every access logged so far stays, in order,
/// ahead of what the walk logs, and every bound local stays bound, in the order locals were first
/// bound.
pub open spec fn walk_keeps(s: GroupingState, s2: GroupingState) -> bool {
    &&& s.log.is_prefix_of(s2.log)
    &&& local_keys(s.locals).is_prefix_of(local_keys(s2.locals))
}

/// Keeping is transitive.
proof fn lemma_walk_keeps_trans(a: GroupingState, b: GroupingState, c: GroupingState)
    requires walk_keeps(a, b), walk_keeps(b, c),
    ensures walk_keeps(a, c),
{
    assert(a.log =~= c.log.subrange(0, a.log.len() as int)) by {
        assert forall|i: int| 0 <= i < a.log.len() implies a.log[i] == c.log[i] by {
            assert(a.log[i] == b.log[i]);
            assert(b.log[i] == c.log[i]);
        }
    }
    let (ka, kb, kc) = (local_keys(a.locals), local_keys(b.locals), local_keys(c.locals));
    assert(ka =~= kc.subrange(0, ka.len() as int)) by {
        assert forall|i: int| 0 <= i < ka.len() implies ka[i] == kc[i] by {
            assert(ka[i] == kb[i]);
            assert(kb[i] == kc[i]);
        }
    }
}

/// Binding a local keeps every bound local in place.
proof fn lemma_lput_keeps(ls: Seq<((u32, u32), KindGV)>, name: IVarNameT, k: KindGV)
    ensures local_keys(ls).is_prefix_of(local_keys(lput(ls, name, k))),
{
    lemma_find_key(ls, var_code(name));
    let after = lput(ls, name, k);
    assert(local_keys(ls) =~= local_keys(after).subrange(0, ls.len() as int)) by {
        assert forall|i: int| 0 <= i < ls.len() implies local_keys(ls)[i] == local_keys(after)[i] by {
            match find_key(ls, var_code(name)) {
                Some(j) => { if i == j { assert(after[i].0 == var_code(name)); } },
                None => {},
            }
        }
    }
}

/// Binding several locals keeps every bound local in place.
proof fn lemma_lput_all_keeps(ls: Seq<((u32, u32), KindGV)>, names: Seq<IVarNameT>, k: KindGV)
    ensures local_keys(ls).is_prefix_of(local_keys(lput_all(ls, names, k))),
    decreases names.len(),
{
    if names.len() == 0 {
        assert(local_keys(ls) =~= local_keys(ls).subrange(0, local_keys(ls).len() as int));
    } else {
        lemma_lput_all_keeps(ls, names.drop_last(), k);
        let mid = lput_all(ls, names.drop_last(), k);
        lemma_lput_keeps(mid, names.last(), k);
        let (a, b, c) = (local_keys(ls), local_keys(mid), local_keys(lput(mid, names.last(), k)));
        assert(a =~= c.subrange(0, a.len() as int)) by {
            assert forall|i: int| 0 <= i < a.len() implies a[i] == c[i] by {
                assert(a[i] == b[i]);
                assert(b[i] == c[i]);
            }
        }
    }
}

/// Binding locals one by one keeps every bound local in place.
proof fn lemma_lput_pairs_keeps(ls: Seq<((u32, u32), KindGV)>, pairs: Seq<(IVarNameT, KindGV)>)
    ensures local_keys(ls).is_prefix_of(local_keys(lput_pairs(ls, pairs))),
    decreases pairs.len(),
{
    if pairs.len() == 0 {
        assert(local_keys(ls) =~= local_keys(ls).subrange(0, local_keys(ls).len() as int));
    } else {
        lemma_lput_pairs_keeps(ls, pairs.drop_last());
        let mid = lput_pairs(ls, pairs.drop_last());
        lemma_lput_keeps(mid, pairs.last().0, pairs.last().1);
        let (a, b, c) = (local_keys(ls), local_keys(mid), local_keys(lput(mid, pairs.last().0, pairs.last().1)));
        assert(a =~= c.subrange(0, a.len() as int)) by {
            assert forall|i: int| 0 <= i < a.len() implies a[i] == c[i] by {
                assert(a[i] == b[i]);
                assert(b[i] == c[i]);
            }
        }
    }
}

/// Logging one more access keeps what was logged.
proof fn lemma_push_keeps(s: GroupingState, e: EventV)
    ensures walk_keeps(s, GroupingState { locals: s.locals, log: s.log.push(e) }),
{
    assert(s.log =~= s.log.push(e).subrange(0, s.log.len() as int));
    assert(local_keys(s.locals) =~= local_keys(s.locals).subrange(0, local_keys(s.locals).len() as int));
}

/// Walking a node keeps what it starts from: the access log only grows at its end, and no bound
/// local is unbound or moved.
#[verifier::rlimit(40)]
pub proof fn law_walk_keeps_log_and_locals(c: GroupingCtx, te: ExpressionTE, s: GroupingState)
    requires grouped_node(c, te, s) is Some,
    ensures walk_keeps(s, (grouped_node(c, te, s)->0).1),
    decreases te, 1int,
{
    match te {
        ExpressionTE::Deref { range, loct, inner } => {
            reveal(node_deref);
            law_walk_keeps_log_and_locals(c, *inner, s);
            let s1 = (grouped_node(c, *inner, s)->0).1;
            let gi = (grouped_node(c, *inner, s)->0).0;
            if let KindGV::BorrowRef { group, inner: ik } = result_v(gi) {
                if !(*ik is BorrowRef) {
                    if let Some((n, g, st)) = chain_v(c.h.params@, gi) {
                        lemma_push_keeps(s1, EventV::Read { group: reached_group(g, st), loct: loct@ });
                        lemma_walk_keeps_trans(s, s1, GroupingState { locals: s1.locals, log: s1.log.push(EventV::Read { group: reached_group(g, st), loct: loct@ }) });
                    }
                }
            }
        },
        ExpressionTE::CopyPrim { range, loct, expr, result } => {
            reveal(node_copy_prim);
            law_walk_keeps_log_and_locals(c, *expr, s);
            let s1 = (grouped_node(c, *expr, s)->0).1;
            let gi = (grouped_node(c, *expr, s)->0).0;
            if let Some((n, g, st)) = chain_v(c.h.params@, gi) {
                lemma_push_keeps(s1, EventV::Read { group: reached_group(g, st), loct: loct@ });
                lemma_walk_keeps_trans(s, s1, GroupingState { locals: s1.locals, log: s1.log.push(EventV::Read { group: reached_group(g, st), loct: loct@ }) });
            }
        },
        ExpressionTE::LetNormal { range, variable, expr } => {
            reveal(node_let_normal);
            law_walk_keeps_log_and_locals(c, *expr, s);
            let (ge, s1) = grouped_node(c, *expr, s)->0;
            lemma_lput_keeps(s1.locals, variable.name, result_v(ge));
            lemma_walk_keeps_trans(s, s1, (grouped_node(c, te, s)->0).1);
        },
        ExpressionTE::LetAndLend { range, loct, variable, expr } => {
            reveal(node_let_and_lend);
            law_walk_keeps_log_and_locals(c, *expr, s);
            let (ge, s1) = grouped_node(c, *expr, s)->0;
            lemma_lput_keeps(s1.locals, variable.name, result_v(ge));
            lemma_walk_keeps_trans(s, s1, (grouped_node(c, te, s)->0).1);
        },
        ExpressionTE::Discard { range, expr } => { law_walk_keeps_log_and_locals(c, *expr, s); },
        ExpressionTE::Return { range, expr } => { law_walk_keeps_log_and_locals(c, *expr, s); },
        ExpressionTE::Block { range, inner } => { law_walk_keeps_log_and_locals(c, *inner, s); },
        ExpressionTE::Consecutor { range, exprs } => {
            reveal(node_seq);
            assert(decreases_to!(exprs => exprs@));
            lemma_walk_all_keeps(c, exprs@, s);
        },
        ExpressionTE::Reinterpret { range, expr, result } => { reveal(node_reinterpret); law_walk_keeps_log_and_locals(c, *expr, s); },
        ExpressionTE::BorrowToWeak { range, expr } => { reveal(node_weak); law_walk_keeps_log_and_locals(c, *expr, s); },
        ExpressionTE::FunctionCall { loct, range, callable, args, result } => {
            reveal(node_call);
            assert(decreases_to!(args => args@));
            lemma_walk_all_keeps(c, args@, s);
            let (gas, s1) = grouped_nodes(c, args@, s)->0;
            lemma_push_keeps(s1, EventV::Call { touched: call_touched(gas), loct: loct@ });
            lemma_walk_keeps_trans(s, s1, (grouped_node(c, te, s)->0).1);
        },
        ExpressionTE::PopRuntimeSizedArray { range, array_expr, element_type } => { reveal(node_pop); law_walk_keeps_log_and_locals(c, *array_expr, s); },
        ExpressionTE::NewRuntimeSizedArray { range, array_type, capacity_expr } => { reveal(node_new_array); law_walk_keeps_log_and_locals(c, *capacity_expr, s); },
        ExpressionTE::UpcastInterface { range, expr, target_super, impl_id } => { reveal(node_upcast); law_walk_keeps_log_and_locals(c, *expr, s); },
        ExpressionTE::UpcastGeneric { range, expr, target_super, impl_id } => { reveal(node_upcast); law_walk_keeps_log_and_locals(c, *expr, s); },
        ExpressionTE::StaticSizedArrayLookup { range, loct, array_expr, index_expr, element_type } => {
            reveal(node_element);
            law_walk_keeps_log_and_locals(c, *array_expr, s);
            let s1 = (grouped_node(c, *array_expr, s)->0).1;
            law_walk_keeps_log_and_locals(c, *index_expr, s1);
            lemma_walk_keeps_trans(s, s1, (grouped_node(c, *index_expr, s1)->0).1);
        },
        ExpressionTE::MemberLookup { range, loct, struct_expr, member_name, result } => { reveal(node_member); law_walk_keeps_log_and_locals(c, *struct_expr, s); },
        ExpressionTE::RuntimeSizedArrayLookup { range, loct, array_expr, index_expr, element_type } => {
            reveal(node_rsa_element);
            law_walk_keeps_log_and_locals(c, *array_expr, s);
            let s1 = (grouped_node(c, *array_expr, s)->0).1;
            law_walk_keeps_log_and_locals(c, *index_expr, s1);
            lemma_walk_keeps_trans(s, s1, (grouped_node(c, *index_expr, s1)->0).1);
        },
        ExpressionTE::If { range, loct, condition, then_call, else_call, result } => {
            reveal(node_if);
            law_walk_keeps_log_and_locals(c, *condition, s);
            let s1 = (grouped_node(c, *condition, s)->0).1;
            law_walk_keeps_log_and_locals(c, *then_call, s1);
            let s2 = (grouped_node(c, *then_call, s1)->0).1;
            law_walk_keeps_log_and_locals(c, *else_call, s2);
            lemma_walk_keeps_trans(s, s1, s2);
            lemma_walk_keeps_trans(s, s2, (grouped_node(c, *else_call, s2)->0).1);
        },
        ExpressionTE::Mutate { range, loct, destination_expr, source_expr, result } => {
            reveal(node_mutate);
            law_walk_keeps_log_and_locals(c, *destination_expr, s);
            let (gd, s1) = grouped_node(c, *destination_expr, s)->0;
            law_walk_keeps_log_and_locals(c, *source_expr, s1);
            let s2 = (grouped_node(c, *source_expr, s1)->0).1;
            lemma_walk_keeps_trans(s, s1, s2);
            if let Some((n, g, st)) = chain_v(c.h.params@, gd) {
                lemma_push_keeps(s2, EventV::Store { group: reached_group(g, st), loct: loct@ });
                lemma_walk_keeps_trans(s, s2, GroupingState { locals: s2.locals, log: s2.log.push(EventV::Store { group: reached_group(g, st), loct: loct@ }) });
            }
        },
        ExpressionTE::Restackify { range, variable, source_expr } => { reveal(node_restackify); law_walk_keeps_log_and_locals(c, *source_expr, s); },
        ExpressionTE::ArrayLength { range, array_expr } => { law_walk_keeps_log_and_locals(c, *array_expr, s); },
        ExpressionTE::Construct { range, args, result } => {
            reveal(node_groupless);
            assert(decreases_to!(args => args@));
            lemma_walk_all_keeps(c, args@, s);
        },
        ExpressionTE::InterfaceFunctionCall { range, args, result } => {
            reveal(node_groupless);
            assert(decreases_to!(args => args@));
            lemma_walk_all_keeps(c, args@, s);
        },
        ExpressionTE::ExternFunctionCall { range, args, result } => {
            reveal(node_groupless);
            assert(decreases_to!(args => args@));
            lemma_walk_all_keeps(c, args@, s);
        },
        ExpressionTE::BoundFunctionCall { range, args, result } => {
            reveal(node_groupless);
            assert(decreases_to!(args => args@));
            lemma_walk_all_keeps(c, args@, s);
        },
        ExpressionTE::LockWeak { range, inner_expr, result } => { reveal(node_one_groupless); law_walk_keeps_log_and_locals(c, *inner_expr, s); },
        ExpressionTE::StaticArrayFromValues { range, elements, result } => {
            reveal(node_groupless);
            assert(decreases_to!(elements => elements@));
            lemma_walk_all_keeps(c, elements@, s);
        },
        ExpressionTE::ArraySize { range, array, result } => { reveal(node_one_groupless); law_walk_keeps_log_and_locals(c, *array, s); },
        ExpressionTE::IsSameInstance { range, left, right, result } => {
            reveal(node_one_groupless);
            law_walk_keeps_log_and_locals(c, *left, s);
            let s1 = (grouped_node(c, *left, s)->0).1;
            law_walk_keeps_log_and_locals(c, *right, s1);
            lemma_walk_keeps_trans(s, s1, (grouped_node(c, *right, s1)->0).1);
        },
        ExpressionTE::AsSubtype { range, source_expr, result } => { reveal(node_cast); law_walk_keeps_log_and_locals(c, *source_expr, s); },
        ExpressionTE::StaticArrayFromCallable { range, generator, result } => { reveal(node_one_groupless); law_walk_keeps_log_and_locals(c, *generator, s); },
        ExpressionTE::DestroyStaticSizedArrayIntoFunction { range, array_expr, consumer } => {
            law_walk_keeps_log_and_locals(c, *array_expr, s);
            let s1 = (grouped_node(c, *array_expr, s)->0).1;
            law_walk_keeps_log_and_locals(c, *consumer, s1);
            lemma_walk_keeps_trans(s, s1, (grouped_node(c, *consumer, s1)->0).1);
        },
        ExpressionTE::DestroyStaticSizedArrayIntoLocals { range, expr, static_sized_array, destination_reference_variables } => {
            reveal(node_destroy_into_locals);
            law_walk_keeps_log_and_locals(c, *expr, s);
            let s1 = (grouped_node(c, *expr, s)->0).1;
            let names = destination_reference_variables@.map_values(|v: LocalVariableT| v.name);
            if let Some(KindGV::StaticSizedArray(e)) = grouped_kind(resolves(c.rm, lview(s1.locals)), c.co, c.rm, lview(s1.locals),
                KindT::StaticSizedArray(static_sized_array), None, None) {
                lemma_lput_all_keeps(s1.locals, names, *e);
                let s2 = GroupingState { locals: lput_all(s1.locals, names, *e), log: s1.log };
                assert(s1.log =~= s2.log.subrange(0, s1.log.len() as int));
                lemma_walk_keeps_trans(s, s1, s2);
            }
        },
        ExpressionTE::DestroyRuntimeSizedArray { range, array_expr } => { law_walk_keeps_log_and_locals(c, *array_expr, s); },
        ExpressionTE::RuntimeSizedArrayCapacity { range, array_expr, result } => { reveal(node_one_groupless); law_walk_keeps_log_and_locals(c, *array_expr, s); },
        ExpressionTE::PushRuntimeSizedArray { range, array_expr, new_element_expr } => {
            law_walk_keeps_log_and_locals(c, *array_expr, s);
            let s1 = (grouped_node(c, *array_expr, s)->0).1;
            law_walk_keeps_log_and_locals(c, *new_element_expr, s1);
            lemma_walk_keeps_trans(s, s1, (grouped_node(c, *new_element_expr, s1)->0).1);
        },
        ExpressionTE::InterfaceToInterfaceUpcast { range, inner_expr, result } => { reveal(node_cast); law_walk_keeps_log_and_locals(c, *inner_expr, s); },
        ExpressionTE::While { range, loct, block_range, body, result } => { reveal(node_while); law_walk_keeps_log_and_locals(c, *body, s); },
        ExpressionTE::Destroy { range, loct, expr, destination_reference_variables } => {
            reveal(node_destroy);
            law_walk_keeps_log_and_locals(c, *expr, s);
            let (ge, s1) = grouped_node(c, *expr, s)->0;
            let names = destination_reference_variables@.map_values(|v: LocalVariableT| v.name);
            if let Some(ms) = struct_members(c.co, result_v(ge)) {
                let vars = Seq::new(names.len(), |i: int| (names[i], ms[i].1));
                lemma_lput_pairs_keeps(s1.locals, vars);
                let s2 = GroupingState { locals: lput_pairs(s1.locals, vars), log: s1.log };
                assert(s1.log =~= s2.log.subrange(0, s1.log.len() as int));
                lemma_walk_keeps_trans(s, s1, s2);
            }
        },
        _ => {
            reveal(node_arg);
            reveal(node_local);
            reveal(node_unlet);
            assert(s.log =~= s.log.subrange(0, s.log.len() as int));
            assert(local_keys(s.locals) =~= local_keys(s.locals).subrange(0, local_keys(s.locals).len() as int));
        },
    }
}

/// Walking a sequence of nodes keeps what it starts from.
proof fn lemma_walk_all_keeps(c: GroupingCtx, tes: Seq<ExpressionTE>, s: GroupingState)
    requires grouped_nodes(c, tes, s) is Some,
    ensures walk_keeps(s, (grouped_nodes(c, tes, s)->0).1),
    decreases tes, 0int,
{
    if tes.len() == 0 {
        assert(s.log =~= s.log.subrange(0, s.log.len() as int));
        assert(local_keys(s.locals) =~= local_keys(s.locals).subrange(0, local_keys(s.locals).len() as int));
    } else {
        lemma_walk_all_keeps(c, tes.drop_last(), s);
        let s1 = (grouped_nodes(c, tes.drop_last(), s)->0).1;
        law_walk_keeps_log_and_locals(c, tes.last(), s1);
        lemma_walk_keeps_trans(s, s1, (grouped_node(c, tes.last(), s1)->0).1);
    }
}

} // verus!
