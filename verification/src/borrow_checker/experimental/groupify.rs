//! The grouping pass's own reasoning about groups: which function a call invokes, and which group
//! an access chain (`a.items[i].hp`) reaches through the reference it starts from.

use vstd::prelude::*;
use crate::interner::StrI;
use crate::names::IVarNameT;
use crate::borrow_checker::ast_g::{ExpressionGE, GroupStep, PrototypeT};
use crate::borrow_checker::group_expr::{GroupChildStepG, GroupPathG, GroupRootG, paths_view};
use crate::borrow_checker::kind_g::{
    KindGT, KindGV, ITemplataG, TemplataGV, BorrowRefGT, GroupGT, CitizenGT, ArrayGT, WrapRefGT, GroupTemplataG,
    kind_v, templata_v, templatas_v, lemma_templatas_v,
};
use crate::borrow_checker::experimental::grouped_ast::{flat, flatten, sole_path};
use crate::borrow_checker::experimental::keyed_map::KeyedMap;
use crate::borrow_checker::experimental::groupify_types::{
    resolves, imprecise_name, local_named, with_step, anonymous_group, bind_params, written_args, args_len,
    grouped_kind, grouped_args, grouped_templata, group_paths, union_paths, element_paths, member_paths,
    last_named, struct_members, members_grouped, rune_code, encode_rune, encode_var, decode_var, code_var,
    name_code, runes_v, locals_v, member_v, member_of, pairs_v, kind_valid, args_valid, runes_valid, locals_valid,
    lemma_args_valid, lemma_struct_runes, lemma_unresolved_paths, lemma_local_named,
    lemma_member_paths_prefix, lemma_element_paths_prefix, lemma_union_paths_prefix, lemma_members_grouped_prefix,
    lemma_args_any_position, citizen_v, lemma_pairs_push, lemma_last_named,
    registered, registered_args, generic_bound, generics_bound, params_registered, function_rune_map,
    param_group_path, shared_params, param_paths_defined, param_path_at, lemma_params_registered_prefix,
    matched, matched_args, callee_runes, lemma_callee_runes_prefix,
};
use crate::borrow_checker::ast_g::result_of;
use crate::borrow_checker::group_expr::copy_paths;
use crate::postparsing::{EffectS, FunctionS, GroupS, ITypeST, RegionS};
use crate::typing::ast::{FunctionHeaderT, ParameterT};
use crate::typing::types::{KindT, ITemplataT, TemplateArgsT, StructTT, InterfaceTT, StaticSizedArrayTT, RuntimeSizedArrayTT};
use crate::typing::compiler::{Compiler, CompilerOutputs, function_template, function_template_in, struct_template_in};

verus! {

/// A borrow whose group is a single path (a union borrow has no single group).
pub open spec fn single_group(k: KindGT) -> bool {
    match k {
        KindGT::BorrowRef(b) => b.group.group@.len() == 1,
        _ => true,
    }
}

/// The flattened group a borrow points into, or `None` for a non-borrow.
pub open spec fn borrow_group_of(k: KindGT) -> Option<Seq<GroupStep>> {
    match k {
        KindGT::BorrowRef(b) => Some(flat(b.group.group@[0]@)),
        _ => None,
    }
}

/// The reference an access chain starts from, the group that reference points into, and the group
/// steps the chain takes below it (root to access): a step per member, a `ChildElements` per
/// runtime-sized array element, none for an inline array's element. `None` for a chain rooted in
/// something unnamed (a temporary, a call result) or in a non-borrow.
pub open spec fn access_chain(params: Seq<ParameterT>, e: ExpressionGE) -> Option<(IVarNameT, Seq<GroupStep>, Seq<GroupStep>)>
    decreases e,
{
    match e {
        ExpressionGE::LocalLookup(l) => match borrow_group_of(l.local_variable.tyype) {
            Some(g) => Some((l.local_variable.name, g, Seq::empty())),
            None => None,
        },
        ExpressionGE::ArgLookup(a) => if 0 <= a.param_index < params.len() {
            match borrow_group_of(a.result) {
                Some(g) => Some((params[a.param_index as int].name, g, Seq::empty())),
                None => None,
            }
        } else {
            None
        },
        ExpressionGE::Deref(d) => access_chain(params, *d.inner),
        ExpressionGE::CopyPrim(c) => access_chain(params, *c.inner),
        ExpressionGE::MemberLookup(m) => match access_chain(params, *m.struct_expr) {
            Some((n, g, s)) => Some((n, g, s.push(GroupStep::Member { member_name: m.member_name }))),
            None => None,
        },
        ExpressionGE::RuntimeSizedArrayLookup(a) => match access_chain(params, *a.array_expr) {
            Some((n, g, s)) => Some((n, g, s.push(GroupStep::ChildElements))),
            None => None,
        },
        ExpressionGE::StaticSizedArrayLookup(a) => access_chain(params, *a.array_expr),
        _ => None,
    }
}

/// Every borrow an access chain can start from has a single group.
pub open spec fn chain_ok(params: Seq<ParameterT>, e: ExpressionGE) -> bool
    decreases e,
{
    match e {
        ExpressionGE::LocalLookup(l) => single_group(l.local_variable.tyype),
        ExpressionGE::ArgLookup(a) => 0 <= a.param_index < params.len() ==> single_group(a.result),
        ExpressionGE::Deref(d) => chain_ok(params, *d.inner),
        ExpressionGE::CopyPrim(c) => chain_ok(params, *c.inner),
        ExpressionGE::MemberLookup(m) => chain_ok(params, *m.struct_expr),
        ExpressionGE::RuntimeSizedArrayLookup(a) => chain_ok(params, *a.array_expr),
        ExpressionGE::StaticSizedArrayLookup(a) => chain_ok(params, *a.array_expr),
        _ => true,
    }
}

/// A step into a collection's elements.
pub open spec fn is_elements(s: GroupStep) -> bool {
    s is ChildElements || s is InlineElements
}

/// The position of the last elements step of a path, if it has one.
pub open spec fn last_elements(s: Seq<GroupStep>) -> Option<int>
    decreases s.len(),
{
    if s.len() == 0 {
        None
    } else if is_elements(s.last()) {
        Some(s.len() - 1)
    } else {
        last_elements(s.drop_last())
    }
}

/// The group an access reaches: the root group and the steps below it, cut after the last elements
/// step (inline members below a heap element share that element's group); with no elements step,
/// the root group itself.
pub open spec fn reached_group(root: Seq<GroupStep>, steps: Seq<GroupStep>) -> Seq<GroupStep> {
    let full = root + steps;
    match last_elements(full) {
        Some(i) => full.subrange(0, i + 1),
        None => root,
    }
}

/// The reference an access goes through and the group it reaches, if the chain starts at a named
/// borrow.
pub open spec fn base_ref_and_group_of(params: Seq<ParameterT>, e: ExpressionGE) -> Option<(IVarNameT, Seq<GroupStep>)> {
    match access_chain(params, e) {
        Some((n, g, s)) => Some((n, reached_group(g, s))),
        None => None,
    }
}

/// `last_elements` finds the last elements step.
proof fn lemma_last_elements(s: Seq<GroupStep>)
    ensures
        match last_elements(s) {
            Some(i) => 0 <= i < s.len() && is_elements(s[i]) && forall|j: int| i < j < s.len() ==> !is_elements(s[j]),
            None => forall|j: int| 0 <= j < s.len() ==> !is_elements(s[j]),
        },
    decreases s.len(),
{
    if s.len() > 0 && !is_elements(s.last()) {
        let d = s.drop_last();
        lemma_last_elements(d);
        assert forall|j: int| 0 <= j < s.len() - 1 implies s[j] == #[trigger] d[j] by {}
        match last_elements(d) {
            Some(i) => {
                assert forall|j: int| i < j < s.len() implies !is_elements(s[j]) by {
                    if j < s.len() - 1 { assert(s[j] == d[j]); }
                }
            },
            None => {
                assert forall|j: int| 0 <= j < s.len() implies !is_elements(s[j]) by {
                    if j < s.len() - 1 { assert(s[j] == d[j]); }
                }
            },
        }
    }
}

/// Whether a step goes into a collection's elements.
fn is_elements_step(s: &GroupStep) -> (r: bool)
    ensures r == is_elements(*s),
{
    match s {
        GroupStep::ChildElements | GroupStep::InlineElements => true,
        _ => false,
    }
}

/// The flattened group a borrow points into, or `None` for a non-borrow.
pub(crate) fn borrowref_group(k: &KindGT) -> (r: Option<Vec<GroupStep>>)
    requires single_group(*k),
    ensures
        match borrow_group_of(*k) {
            Some(g) => r matches Some(v) && v@ == g,
            None => r is None,
        },
{
    match k {
        KindGT::BorrowRef(b) => Some(flatten(sole_path(&b.group.group))),
        _ => None,
    }
}

/// Walk an access chain down to the reference it starts from.
fn access_chain_of(params: &Vec<ParameterT>, e: &ExpressionGE) -> (r: Option<(IVarNameT, Vec<GroupStep>, Vec<GroupStep>)>)
    requires chain_ok(params@, *e),
    ensures
        match access_chain(params@, *e) {
            Some((n, g, s)) => r matches Some((rn, rg, rs)) && rn == n && rg@ == g && rs@ == s,
            None => r is None,
        },
    decreases e,
{
    match e {
        ExpressionGE::LocalLookup(l) => match borrowref_group(&l.local_variable.tyype) {
            Some(g) => Some((l.local_variable.name, g, Vec::new())),
            None => None,
        },
        ExpressionGE::ArgLookup(a) => {
            if a.param_index < 0 || a.param_index as usize >= params.len() {
                return None;
            }
            match borrowref_group(&a.result) {
                Some(g) => Some((params[a.param_index as usize].name, g, Vec::new())),
                None => None,
            }
        },
        ExpressionGE::Deref(d) => access_chain_of(params, &d.inner),
        ExpressionGE::CopyPrim(c) => access_chain_of(params, &c.inner),
        ExpressionGE::MemberLookup(m) => match access_chain_of(params, &m.struct_expr) {
            Some((n, g, mut s)) => {
                s.push(GroupStep::Member { member_name: m.member_name });
                Some((n, g, s))
            },
            None => None,
        },
        ExpressionGE::RuntimeSizedArrayLookup(a) => match access_chain_of(params, &a.array_expr) {
            Some((n, g, mut s)) => {
                s.push(GroupStep::ChildElements);
                Some((n, g, s))
            },
            None => None,
        },
        ExpressionGE::StaticSizedArrayLookup(a) => access_chain_of(params, &a.array_expr),
        _ => None,
    }
}

impl Compiler {
    /// The root reference an access chain goes through, and the flat group that reference points
    /// into: the base reference's group plus a member step per member and an elements step per
    /// runtime-sized array element (an inline array's element adds nothing), cut after the last
    /// elements step, so `a.fuel` reports `a`'s group while `lvl.tiles[0]` reports `l.tiles[]`.
    /// `None` for a chain rooted in something unnamed (a temporary, a call result) or a non-borrow.
    pub fn base_ref_and_group(&self, header: &FunctionHeaderT, expr: &ExpressionGE) -> (r: Option<(IVarNameT, Vec<GroupStep>)>)
        requires chain_ok(header.params@, *expr),
        ensures
            match base_ref_and_group_of(header.params@, *expr) {
                Some((n, g)) => r matches Some((rn, rg)) && rn == n && rg@ == g,
                None => r is None,
            },
    {
        match access_chain_of(&header.params, expr) {
            Some((base_ref, root, steps)) => {
                let root_len = root.len();
                let mut full = root;
                let mut i: usize = 0;
                while i < steps.len()
                    invariant
                        i <= steps@.len(),
                        full@ == root@ + steps@.subrange(0, i as int),
                        root_len == root@.len(),
                    decreases steps@.len() - i,
                {
                    full.push(steps[i]);
                    proof { assert(root@ + steps@.subrange(0, i + 1) =~= (root@ + steps@.subrange(0, i as int)).push(steps@[i as int])); }
                    i = i + 1;
                }
                proof { assert(steps@.subrange(0, steps@.len() as int) =~= steps@); }
                let ghost whole = full@;
                let mut k: usize = full.len();
                while k > 0 && !is_elements_step(&full[k - 1])
                    invariant
                        k <= whole.len(),
                        full@ == whole,
                        forall|j: int| k <= j < whole.len() ==> !is_elements(#[trigger] whole[j]),
                    decreases k,
                {
                    k = k - 1;
                }
                let found = k > 0;
                proof { lemma_last_elements(whole); }
                if found {
                    full.truncate(k);
                    proof {
                        match last_elements(whole) {
                            Some(li) => {
                                assert(li == k - 1);
                            },
                            None => {},
                        }
                        assert(full@ =~= whole.subrange(0, k as int));
                    }
                } else {
                    full.truncate(root_len);
                    proof {
                        assert(last_elements(whole) is None);
                        assert(full@ =~= root@);
                    }
                }
                Some((base_ref, full))
            },
            None => None,
        }
    }

    /// The postparsed header of the function a call invokes, if the outputs know it.
    pub fn resolve_callee<'a>(&self, coutputs: &'a CompilerOutputs, callable: &PrototypeT) -> (r: Option<&'a FunctionS>)
        ensures
            match function_template(*coutputs, callable.id) {
                Some(f) => r is Some && *r->0 == f,
                None => r is None,
            },
    {
        let mut i: usize = 0;
        assert(coutputs.functions@.subrange(0, coutputs.functions@.len() as int) =~= coutputs.functions@);
        while i < coutputs.functions.len()
            invariant
                i <= coutputs.functions@.len(),
                function_template(*coutputs, callable.id)
                    == function_template_in(coutputs.functions@.subrange(i as int, coutputs.functions@.len() as int), callable.id),
            decreases coutputs.functions@.len() - i,
        {
            proof {
                let rest = coutputs.functions@.subrange(i as int, coutputs.functions@.len() as int);
                assert(rest.drop_first() =~= coutputs.functions@.subrange(i + 1, coutputs.functions@.len() as int));
                assert(rest[0] == coutputs.functions@[i as int]);
            }
            if coutputs.functions[i].0 == callable.id {
                return Some(&coutputs.functions[i].1);
            }
            i = i + 1;
        }
        None
    }
}

/// The written type behind an optional reference.
pub open spec fn written_v(w: Option<&ITypeST>) -> Option<ITypeST> {
    match w {
        Some(x) => Some(*x),
        None => None,
    }
}

/// The written arguments behind an optional reference.
pub open spec fn written_args_v(ws: Option<&Vec<ITypeST>>) -> Option<Seq<ITypeST>> {
    match ws {
        Some(v) => Some(v@),
        None => None,
    }
}

/// Whether a list of template arguments has exactly `n` entries.
fn args_count_is(a: &TemplateArgsT, n: usize) -> (r: bool)
    ensures r == (args_len(*a) == n),
    decreases a,
{
    match a {
        TemplateArgsT::Nil => n == 0,
        TemplateArgsT::Cons(_, tail) => n > 0 && args_count_is(tail, n - 1),
    }
}

/// The written arguments of a citizen's template call, when they line up with its template
/// arguments.
fn written_args_of<'a>(w: Option<&'a ITypeST>, a: &TemplateArgsT) -> (r: Option<&'a Vec<ITypeST>>)
    ensures written_args_v(r) == written_args(written_v(w), args_len(*a)),
{
    match w {
        Some(ITypeST::Call { template, args }) => if args_count_is(a, args.len()) { Some(args) } else { None },
        _ => None,
    }
}

/// The name a local was written with, for a local written in the source.
fn imprecise_name_of(v: IVarNameT) -> (r: Option<StrI>)
    ensures r == imprecise_name(v),
{
    match v {
        IVarNameT::Local(s) => Some(s),
        _ => None,
    }
}

/// `path` with `step` appended.
pub fn path_with_step(path: &GroupPathG, step: GroupChildStepG) -> (r: GroupPathG)
    ensures r@ == with_step(path@, step),
{
    let mut p = path.copy();
    p.steps.push(step);
    p
}

/// The group expression naming one rune.
pub fn new_rune_group_expr(rune: crate::names::IRuneS) -> (r: Vec<GroupPathG>)
    ensures r@.len() == 1, r@[0]@ == (crate::borrow_checker::group_expr::GroupPathV { root: GroupRootG::Rune(rune), steps: Seq::empty(), ellipsis: false }),
{
    vec![GroupPathG { root: GroupRootG::Rune(rune), steps: Vec::new(), ellipsis: false }]
}

/// The group expression naming one local's group.
pub fn new_local_group_expr(var_name: IVarNameT) -> (r: Vec<GroupPathG>)
    ensures r@.len() == 1, r@[0]@ == (crate::borrow_checker::group_expr::GroupPathV { root: GroupRootG::Local(var_name), steps: Seq::empty(), ellipsis: false }),
{
    vec![GroupPathG { root: GroupRootG::Local(var_name), steps: Vec::new(), ellipsis: false }]
}

/// A borrow's group when its written type names none: its parameter's anonymous group. Only a
/// parameter's own borrows reach here.
pub fn anonymous_group_expr(param_name: Option<IVarNameT>) -> (r: Vec<GroupPathG>)
    requires param_name is Some,
    ensures anonymous_group(param_name) == Some(paths_view(r@)),
{
    let name = param_name.unwrap();
    let r = vec![GroupPathG { root: GroupRootG::ParamAnonymousGroup(name), steps: Vec::new(), ellipsis: false }];
    assert(paths_view(r@) =~= anonymous_group(param_name)->0);
    r
}

/// The paths of a list of paths paired with kinds.
fn paths_of(ps: &Vec<(GroupPathG, KindGT)>) -> (r: Vec<GroupPathG>)
    ensures paths_view(r@) == pairs_v(ps@).map_values(|x: (crate::borrow_checker::group_expr::GroupPathV, KindGV)| x.0),
{
    let mut out: Vec<GroupPathG> = Vec::new();
    let mut i: usize = 0;
    while i < ps.len()
        invariant
            i <= ps@.len(),
            out@.len() == i,
            forall|j: int| 0 <= j < i ==> (#[trigger] out@[j])@ == ps@[j].0@,
        decreases ps@.len() - i,
    {
        out.push(ps[i].0.copy());
        i = i + 1;
    }
    assert(paths_view(out@) =~= pairs_v(ps@).map_values(|x: (crate::borrow_checker::group_expr::GroupPathV, KindGV)| x.0));
    out
}

/// The rune map and local map can be read (each is well formed and every kind in it is valid).
pub open spec fn maps_ok(rm: KeyedMap<ITemplataG>, lm: KeyedMap<KindGT>) -> bool {
    rm.wf() && lm.wf() && runes_valid(runes_v(rm)) && locals_valid(locals_v(lm))
}

/// Whether group expressions can resolve under these maps.
pub open spec fn resolves_in(rm: KeyedMap<ITemplataG>, lm: KeyedMap<KindGT>) -> bool {
    resolves(runes_v(rm), locals_v(lm))
}

/// The measure the grouping recursion descends by: group expressions that cannot resolve never
/// reach a struct's members.
pub open spec fn level(rm: KeyedMap<ITemplataG>, lm: KeyedMap<KindGT>) -> int {
    if resolves_in(rm, lm) { 1 } else { 0 }
}

impl Compiler {
    /// The grouped mirror of typed kind `t` written as `w` (under parameter `n`): every borrow
    /// takes the group its written type names (through `rm` for a rune, `lm` for a local), or its
    /// parameter's anonymous group when it names none; a kind placeholder bound in `rm` is
    /// replaced by what it is bound to.
    pub fn groupify_type(&self, co: &CompilerOutputs, rm: &KeyedMap<ITemplataG>, lm: &KeyedMap<KindGT>,
        t: &KindT, w: Option<&ITypeST>, n: Option<IVarNameT>) -> (r: KindGT)
        requires
            maps_ok(*rm, *lm),
            grouped_kind(resolves_in(*rm, *lm), *co, runes_v(*rm), locals_v(*lm), *t, written_v(w), n) is Some,
        ensures
            kind_v(r) == grouped_kind(resolves_in(*rm, *lm), *co, runes_v(*rm), locals_v(*lm), *t, written_v(w), n)->0,
            kind_valid(kind_v(r)),
        decreases level(*rm, *lm), 2int, t,
    {
        let ghost f = resolves_in(*rm, *lm);
        let ghost rv = runes_v(*rm);
        let ghost lv = locals_v(*lm);
        match t {
            KindT::BorrowRef(b) => {
                match w {
                    Some(ITypeST::BorrowRef(bst)) => {
                        let inner = self.groupify_type(co, rm, lm, &b.inner, Some(&bst.inner), n);
                        let group: Vec<GroupPathG> = match &bst.region {
                            RegionS::Group(g) => {
                                let ps = self.groupify_group_expr(co, rm, lm, g);
                                paths_of(&ps)
                            },
                            _ => anonymous_group_expr(n),
                        };
                        KindGT::BorrowRef(BorrowRefGT { group: GroupGT { group }, inner: Box::new(inner) })
                    },
                    Some(ITypeST::Rune(rune)) => {
                        let bound = rm.get(encode_rune(*rune));
                        match bound {
                            Some(ITemplataG::Kind(k)) => {
                                match &**k {
                                    KindGT::BorrowRef(_) => {
                                        proof { assert(rv.contains_key(*rune)); }
                                        return (**k).copy();
                                    },
                                    _ => {},
                                }
                            },
                            _ => {},
                        }
                        proof {
                            if rv.contains_key(*rune) && rv[*rune] is Kind {
                                assert(rm.at(rune_code(*rune)) is Some);
                            }
                        }
                        let inner = self.groupify_type(co, rm, lm, &b.inner, None, None);
                        KindGT::BorrowRef(BorrowRefGT { group: GroupGT { group: anonymous_group_expr(n) }, inner: Box::new(inner) })
                    },
                    Some(_) => {
                        let inner = self.groupify_type(co, rm, lm, &b.inner, None, None);
                        KindGT::BorrowRef(BorrowRefGT { group: GroupGT { group: anonymous_group_expr(n) }, inner: Box::new(inner) })
                    },
                    None => {
                        proof { assert(false); }
                        KindGT::Void
                    },
                }
            },
            KindT::Never => KindGT::Never,
            KindT::Void => KindGT::Void,
            KindT::Int { bits } => KindGT::Int,
            KindT::Bool => KindGT::Bool,
            KindT::Str => KindGT::Str,
            KindT::Float => KindGT::Float,
            KindT::USize => KindGT::USize,
            KindT::Struct(st) => {
                let ws = written_args_of(w, &st.template_args);
                let mut args: Vec<ITemplataG> = Vec::new();
                proof { assert(templatas_v(args@) =~= Seq::<TemplataGV>::empty()); }
                self.citizen_args_in(co, rm, lm, &st.template_args, ws, 0, n, &mut args);
                proof { assert(Seq::<TemplataGV>::empty() + grouped_args(f, *co, rv, lv, st.template_args, written_args_v(ws), 0, n)->0
                    =~= grouped_args(f, *co, rv, lv, st.template_args, written_args_v(ws), 0, n)->0); }
                KindGT::Struct(CitizenGT { id: st.id, template: st.template, template_args: args })
            },
            KindT::Interface(it) => {
                let ws = written_args_of(w, &it.template_args);
                let mut args: Vec<ITemplataG> = Vec::new();
                proof { assert(templatas_v(args@) =~= Seq::<TemplataGV>::empty()); }
                self.citizen_args_in(co, rm, lm, &it.template_args, ws, 0, n, &mut args);
                proof { assert(Seq::<TemplataGV>::empty() + grouped_args(f, *co, rv, lv, it.template_args, written_args_v(ws), 0, n)->0
                    =~= grouped_args(f, *co, rv, lv, it.template_args, written_args_v(ws), 0, n)->0); }
                KindGT::Interface(CitizenGT { id: it.id, template: it.template, template_args: args })
            },
            KindT::KindPlaceholder(p) => {
                match rm.get(encode_rune(p.rune)) {
                    Some(ITemplataG::Kind(k)) => (**k).copy(),
                    Some(_) => {
                        proof { assert(rv.contains_key(p.rune)); }
                        proof { assert(false); }
                        KindGT::Void
                    },
                    None => {
                        proof { assert(!rv.contains_key(p.rune)); }
                        KindGT::KindPlaceholder(p.id)
                    },
                }
            },
            KindT::StaticSizedArray(a) => {
                let ew: Option<&ITypeST> = match w {
                    Some(ITypeST::Call { template, args }) => if args.len() == 2 { Some(&args[1]) } else { None },
                    _ => None,
                };
                let en = if ew.is_some() { n } else { None };
                let e = self.groupify_type(co, rm, lm, &a.element_type, ew, en);
                KindGT::StaticSizedArray(ArrayGT { element_type: Box::new(e) })
            },
            KindT::RuntimeSizedArray(a) => {
                let ew: Option<&ITypeST> = match w {
                    Some(ITypeST::RuntimeSizedArray { element }) => Some(&**element),
                    _ => None,
                };
                let en = if ew.is_some() { n } else { None };
                let e = self.groupify_type(co, rm, lm, &a.element_type, ew, en);
                KindGT::RuntimeSizedArray(ArrayGT { element_type: Box::new(e) })
            },
            KindT::OverloadSet(o) => KindGT::OverloadSet(*o),
            KindT::OwnRef(b) => {
                let iw: Option<&ITypeST> = match w {
                    Some(ITypeST::OwnRef { inner }) => Some(&**inner),
                    _ => None,
                };
                let inn = if iw.is_some() { n } else { None };
                let e = self.groupify_type(co, rm, lm, &b.inner, iw, inn);
                KindGT::OwnRef(WrapRefGT { inner: Box::new(e) })
            },
            KindT::WeakRef(b) => {
                let iw: Option<&ITypeST> = match w {
                    Some(ITypeST::WeakRef { inner }) => Some(&**inner),
                    _ => None,
                };
                let inn = if iw.is_some() { n } else { None };
                let e = self.groupify_type(co, rm, lm, &b.inner, iw, inn);
                KindGT::WeakRef(WrapRefGT { inner: Box::new(e) })
            },
            KindT::ShareRef(b) => {
                let e = self.groupify_type(co, rm, lm, &b.inner, w, n);
                KindGT::ShareRef(WrapRefGT { inner: Box::new(e) })
            },
        }
    }

    /// A citizen's grouped template arguments from position `i` on, appended to `out`: with the
    /// citizen's written arguments at hand each kind argument is walked against its written
    /// argument, so a borrow inside the arguments gets its group as a top-level borrow does;
    /// otherwise the arguments mirror without groups.
    fn citizen_args_in(&self, co: &CompilerOutputs, rm: &KeyedMap<ITemplataG>, lm: &KeyedMap<KindGT>,
        args: &TemplateArgsT, ws: Option<&Vec<ITypeST>>, i: usize, n: Option<IVarNameT>, out: &mut Vec<ITemplataG>)
        requires
            maps_ok(*rm, *lm),
            grouped_args(resolves_in(*rm, *lm), *co, runes_v(*rm), locals_v(*lm), *args, written_args_v(ws), i as int, n) is Some,
            written_args_v(ws) matches Some(v) ==> i + args_len(*args) <= v.len(),
        ensures
            templatas_v(final(out)@) == templatas_v(old(out)@)
                + grouped_args(resolves_in(*rm, *lm), *co, runes_v(*rm), locals_v(*lm), *args, written_args_v(ws), i as int, n)->0,
            args_valid(grouped_args(resolves_in(*rm, *lm), *co, runes_v(*rm), locals_v(*lm), *args, written_args_v(ws), i as int, n)->0),
        decreases level(*rm, *lm), 2int, args,
    {
        let ghost f = resolves_in(*rm, *lm);
        let ghost rv = runes_v(*rm);
        let ghost lv = locals_v(*lm);
        match args {
            TemplateArgsT::Nil => {
                proof {
                    assert(templatas_v(out@) + Seq::<TemplataGV>::empty() =~= templatas_v(out@));
                }
            },
            TemplateArgsT::Cons(head, tail) => {
                let first: ITemplataG = match (&**head, ws) {
                    (ITemplataT::Kind(k), Some(written)) => {
                        if i >= written.len() {
                            proof { assert(false); }
                            ITemplataG::Integer(0)
                        } else {
                            ITemplataG::Kind(Box::new(self.groupify_type(co, rm, lm, k, Some(&written[i]), n)))
                        }
                    },
                    _ => self.groupify_templata(co, rm, lm, head),
                };
                let ghost fv = templata_v(first);
                let ghost before = out@;
                out.push(first);
                proof {
                    assert(out@.subrange(0, out@.len() - 1) =~= before);
                    assert(templatas_v(out@) == templatas_v(before).push(fv));
                }
                let next: usize = match ws {
                    Some(v) => {
                        let wl = v.len();
                        i + 1
                    },
                    None => if i < usize::MAX { i + 1 } else { i },
                };
                proof {
                    if ws is None {
                        lemma_args_any_position(f, *co, rv, lv, **tail, i + 1, next as int, n);
                    }
                }
                let ghost mid = out@;
                self.citizen_args_in(co, rm, lm, tail, ws, next, n, out);
                proof {
                    let rest = grouped_args(f, *co, rv, lv, **tail, written_args_v(ws), i + 1, n)->0;
                    assert(grouped_args(f, *co, rv, lv, *args, written_args_v(ws), i as int, n)->0 == seq![fv] + rest);
                    assert(templatas_v(out@) =~= templatas_v(before) + (seq![fv] + rest));
                    lemma_args_valid(rest);
                    lemma_args_valid(seq![fv] + rest);
                    assert forall|j: int| 0 <= j < rest.len() + 1 implies match #[trigger] (seq![fv] + rest)[j] {
                        TemplataGV::Kind(k) => kind_valid(k),
                        TemplataGV::Group { group, kind } => false,
                        _ => true,
                    } by {
                        if j > 0 { assert((seq![fv] + rest)[j] == rest[j - 1]); }
                    }
                }
            },
        }
    }

    /// The grouped form of a template argument with no written form at hand.
    pub fn groupify_templata(&self, co: &CompilerOutputs, rm: &KeyedMap<ITemplataG>, lm: &KeyedMap<KindGT>, t: &ITemplataT) -> (r: ITemplataG)
        requires
            maps_ok(*rm, *lm),
            grouped_templata(resolves_in(*rm, *lm), *co, runes_v(*rm), locals_v(*lm), *t) is Some,
        ensures
            templata_v(r) == grouped_templata(resolves_in(*rm, *lm), *co, runes_v(*rm), locals_v(*lm), *t)->0,
            match templata_v(r) {
                TemplataGV::Kind(k) => kind_valid(k),
                TemplataGV::Group { group, kind } => false,
                _ => true,
            },
        decreases level(*rm, *lm), 2int, t,
    {
        match t {
            ITemplataT::Kind(k) => ITemplataG::Kind(Box::new(self.groupify_type(co, rm, lm, k, None, None))),
            ITemplataT::Placeholder(p) => ITemplataG::Placeholder(*p),
            ITemplataT::Integer(x) => ITemplataG::Integer(*x),
            ITemplataT::Boolean(b) => ITemplataG::Boolean(*b),
            ITemplataT::Group => {
                proof { assert(false); }
                ITemplataG::Integer(0)
            },
        }
    }

    /// The paths a written group names, one per union member, each with the kind of what lives
    /// at it: a rune reads through `rm` (so a callee's rune comes out as the caller's path), a local
    /// through `lm`, a member through the struct's own members, elements through the array's
    /// element kind; `...` marks each path's territory.
    pub fn groupify_group_expr(&self, co: &CompilerOutputs, rm: &KeyedMap<ITemplataG>, lm: &KeyedMap<KindGT>, g: &GroupS)
        -> (r: Vec<(GroupPathG, KindGT)>)
        requires
            maps_ok(*rm, *lm),
            group_paths(resolves_in(*rm, *lm), *co, runes_v(*rm), locals_v(*lm), *g) is Some,
        ensures
            pairs_v(r@) == group_paths(resolves_in(*rm, *lm), *co, runes_v(*rm), locals_v(*lm), *g)->0,
            forall|i: int| 0 <= i < r@.len() ==> kind_valid(kind_v(#[trigger] r@[i].1)),
        decreases level(*rm, *lm), 1int, g,
    {
        let ghost f = resolves_in(*rm, *lm);
        let ghost rv = runes_v(*rm);
        let ghost lv = locals_v(*lm);
        match g {
            GroupS::Rune(rune) => {
                match rm.get(encode_rune(*rune)) {
                    Some(ITemplataG::Group(gt)) => {
                        proof { assert(rv.contains_key(*rune)); }
                        let ghost want = paths_view(gt.group@).map_values(|p: crate::borrow_checker::group_expr::GroupPathV| (p, kind_v(*gt.kind)));
                        let mut out: Vec<(GroupPathG, KindGT)> = Vec::new();
                        let mut i: usize = 0;
                        while i < gt.group.len()
                            invariant
                                i <= gt.group@.len(),
                                pairs_v(out@) == want.subrange(0, i as int),
                                want.len() == gt.group@.len(),
                                forall|j: int| 0 <= j < want.len() ==> #[trigger] want[j] == (gt.group@[j]@, kind_v(*gt.kind)),
                                kind_valid(kind_v(*gt.kind)),
                                forall|j: int| 0 <= j < out@.len() ==> kind_valid(kind_v(#[trigger] out@[j].1)),
                            decreases gt.group@.len() - i,
                        {
                            let ghost before = out@;
                            let x = (gt.group[i].copy(), gt.kind.copy());
                            out.push(x);
                            proof {
                                lemma_pairs_push(before, x);
                                assert(pairs_v(out@) =~= want.subrange(0, i + 1));
                            }
                            i = i + 1;
                        }
                        proof { assert(want.subrange(0, i as int) =~= want); }
                        out
                    },
                    _ => {
                        proof { assert(false); }
                        Vec::new()
                    },
                }
            },
            GroupS::Local(name) => {
                let mut i: usize = 0;
                while i < lm.len()
                    invariant
                        lm.wf(),
                        i <= lv.len(),
                        lv.len() == lm.entries().len(),
                        lv == locals_v(*lm),
                        *g == GroupS::Local(*name),
                        locals_valid(lv),
                        forall|j: int| 0 <= j < i ==> imprecise_name(#[trigger] lv[j].0) != Some(*name),
                    decreases lv.len() - i,
                {
                    let (code, kind) = lm.entry(i);
                    let v = decode_var(code);
                    let matches_name = match imprecise_name_of(v) {
                        Some(s) => s == *name,
                        None => false,
                    };
                    if matches_name {
                        proof {
                            lemma_local_named(lv, *name);
                            assert(lv[i as int] == (code_var(code), kind_v(*kind)));
                            assert(imprecise_name(lv[i as int].0) == Some(*name));
                            match local_named(lv, *name) {
                                Some(i0) => {
                                    if i0 < i { assert(imprecise_name(lv[i0].0) != Some(*name)); }
                                    if i0 > i { assert(imprecise_name(lv[i as int].0) != Some(*name)); }
                                },
                                None => { assert(imprecise_name(lv[i as int].0) != Some(*name)); },
                            }
                            assert(local_named(lv, *name) == Some(i as int));
                        }
                        let mut out: Vec<(GroupPathG, KindGT)> = Vec::new();
                        let x = (GroupPathG { root: GroupRootG::Local(v), steps: Vec::new(), ellipsis: false }, kind.copy());
                        out.push(x);
                        proof {
                            lemma_pairs_push(Seq::empty(), x);
                            assert(Seq::<(GroupPathG, KindGT)>::empty().push(x) =~= out@);
                            assert(pairs_v(Seq::<(GroupPathG, KindGT)>::empty()) =~= Seq::empty());
                            assert(x.0@.steps =~= Seq::<GroupChildStepG>::empty());
                            assert(pairs_v(out@) =~= group_paths(f, *co, rv, lv, *g)->0);
                        }
                        return out;
                    }
                    proof { assert(lv[i as int] == (code_var(code), kind_v(*kind))); }
                    i = i + 1;
                }
                proof { lemma_local_named(lv, *name); }
                proof { assert(false); }
                Vec::new()
            },
            GroupS::Member { base, member_name } => {
                let bs = self.groupify_group_expr(co, rm, lm, base);
                let ghost bv = pairs_v(bs@);
                proof {
                    if !f {
                        lemma_unresolved_paths(*co, rv, lv, **base);
                    } else {
                        lemma_member_paths_prefix(*co, bv, *member_name, 0);
                        assert(bv.subrange(0, 0) =~= Seq::<(crate::borrow_checker::group_expr::GroupPathV, KindGV)>::empty());
                    }
                }
                let mut out: Vec<(GroupPathG, KindGT)> = Vec::new();
                let mut i: usize = 0;
                while i < bs.len()
                    invariant
                        maps_ok(*rm, *lm),
                        f == resolves_in(*rm, *lm),
                        i <= bs@.len(),
                        bv == pairs_v(bs@),
                        !f ==> bs@.len() == 0,
                        f ==> member_paths(*co, bv, *member_name) is Some,
                        f ==> pairs_v(out@) == member_paths(*co, bv.subrange(0, i as int), *member_name)->0,
                        out@.len() == i,
                        forall|j: int| 0 <= j < bs@.len() ==> kind_valid(kind_v(#[trigger] bs@[j].1)),
                        forall|j: int| 0 <= j < out@.len() ==> kind_valid(kind_v(#[trigger] out@[j].1)),
                    decreases bs@.len() - i,
                {
                    proof {
                        lemma_member_paths_prefix(*co, bv, *member_name, i + 1);
                        assert(bv.subrange(0, i + 1).drop_last() =~= bv.subrange(0, i as int));
                        assert(bv[i as int] == (bs@[i as int].0@, kind_v(bs@[i as int].1)));
                    }
                    match &bs[i].1 {
                        KindGT::Struct(c) => {
                            proof {
                                assert(kind_v(bs@[i as int].1) == citizen_v(*c));
                                assert(kind_valid(citizen_v(*c)));
                            }
                            let members = self.translate_struct_members(co, c);
                            match members.get(name_code_of(*member_name)) {
                                Some(k) => {
                                    proof { assert(member_v(members, *member_name) == Some(kind_v(*k))); }
                                    let ghost before = out@;
                                    let x = (path_with_step(&bs[i].0, GroupChildStepG::Member { member_name: *member_name }), k.copy());
                                    out.push(x);
                                    proof {
                                        lemma_pairs_push(before, x);
                                        lemma_last_named(struct_members(*co, citizen_v(*c))->0, *member_name);
                                    }
                                },
                                None => {
                                    proof { assert(member_v(members, *member_name) is None); }
                                    proof { assert(false); }
                                },
                            }
                        },
                        _ => {
                            proof { assert(false); }
                        },
                    }
                    i = i + 1;
                }
                proof {
                    if f {
                        assert(bv.subrange(0, i as int) =~= bv);
                    } else {
                        assert(pairs_v(out@) =~= Seq::<(crate::borrow_checker::group_expr::GroupPathV, KindGV)>::empty());
                    }
                }
                out
            },
            GroupS::Elements { base } => {
                let bs = self.groupify_group_expr(co, rm, lm, base);
                let ghost bv = pairs_v(bs@);
                proof {
                    lemma_element_paths_prefix(bv, 0);
                    assert(bv.subrange(0, 0) =~= Seq::<(crate::borrow_checker::group_expr::GroupPathV, KindGV)>::empty());
                }
                let mut out: Vec<(GroupPathG, KindGT)> = Vec::new();
                let mut i: usize = 0;
                while i < bs.len()
                    invariant
                        i <= bs@.len(),
                        bv == pairs_v(bs@),
                        element_paths(bv) is Some,
                        pairs_v(out@) == element_paths(bv.subrange(0, i as int))->0,
                        forall|j: int| 0 <= j < bs@.len() ==> kind_valid(kind_v(#[trigger] bs@[j].1)),
                        forall|j: int| 0 <= j < out@.len() ==> kind_valid(kind_v(#[trigger] out@[j].1)),
                    decreases bs@.len() - i,
                {
                    proof {
                        lemma_element_paths_prefix(bv, i + 1);
                        assert(bv.subrange(0, i + 1).drop_last() =~= bv.subrange(0, i as int));
                        assert(bv[i as int] == (bs@[i as int].0@, kind_v(bs@[i as int].1)));
                    }
                    let ghost before = out@;
                    match &bs[i].1 {
                        KindGT::StaticSizedArray(a) => {
                            let x = (path_with_step(&bs[i].0, GroupChildStepG::InlineElements {}), a.element_type.copy());
                            out.push(x);
                            proof { lemma_pairs_push(before, x); }
                        },
                        KindGT::RuntimeSizedArray(a) => {
                            let x = (path_with_step(&bs[i].0, GroupChildStepG::ChildElements {}), a.element_type.copy());
                            out.push(x);
                            proof { lemma_pairs_push(before, x); }
                        },
                        _ => {
                            proof { assert(false); }
                        },
                    }
                    i = i + 1;
                }
                proof { assert(bv.subrange(0, i as int) =~= bv); }
                out
            },
            GroupS::Ellipsis { base } => {
                let bs = self.groupify_group_expr(co, rm, lm, base);
                let ghost want = pairs_v(bs@).map_values(|x: (crate::borrow_checker::group_expr::GroupPathV, KindGV)|
                    (crate::borrow_checker::group_expr::GroupPathV { root: x.0.root, steps: x.0.steps, ellipsis: true }, x.1));
                let mut out: Vec<(GroupPathG, KindGT)> = Vec::new();
                let mut i: usize = 0;
                while i < bs.len()
                    invariant
                        i <= bs@.len(),
                        want.len() == bs@.len(),
                        forall|j: int| 0 <= j < bs@.len() ==> #[trigger] want[j] == (crate::borrow_checker::group_expr::GroupPathV {
                            root: bs@[j].0@.root, steps: bs@[j].0@.steps, ellipsis: true }, kind_v(bs@[j].1)),
                        pairs_v(out@) == want.subrange(0, i as int),
                        forall|j: int| 0 <= j < bs@.len() ==> kind_valid(kind_v(#[trigger] bs@[j].1)),
                        forall|j: int| 0 <= j < out@.len() ==> kind_valid(kind_v(#[trigger] out@[j].1)),
                    decreases bs@.len() - i,
                {
                    let mut p = bs[i].0.copy();
                    p.ellipsis = true;
                    let ghost before = out@;
                    let x = (p, bs[i].1.copy());
                    out.push(x);
                    proof {
                        lemma_pairs_push(before, x);
                        assert(pairs_v(out@) =~= want.subrange(0, i + 1));
                    }
                    i = i + 1;
                }
                proof { assert(want.subrange(0, i as int) =~= want); }
                out
            },
            GroupS::Union { members } => {
                let ghost mv = members@;
                proof {
                    assert(decreases_to!(members => members@));
                    lemma_union_paths_prefix(f, *co, rv, lv, mv, 0);
                    assert(mv.subrange(0, 0) =~= Seq::<GroupS>::empty());
                }
                let mut out: Vec<(GroupPathG, KindGT)> = Vec::new();
                let mut i: usize = 0;
                while i < members.len()
                    invariant
                        maps_ok(*rm, *lm),
                        f == resolves_in(*rm, *lm),
                        rv == runes_v(*rm),
                        lv == locals_v(*lm),
                        i <= mv.len(),
                        mv == members@,
                        *g == (GroupS::Union { members: *members }),
                        union_paths(f, *co, rv, lv, mv) is Some,
                        pairs_v(out@) == union_paths(f, *co, rv, lv, mv.subrange(0, i as int))->0,
                        forall|j: int| 0 <= j < out@.len() ==> kind_valid(kind_v(#[trigger] out@[j].1)),
                    decreases mv.len() - i,
                {
                    proof {
                        lemma_union_paths_prefix(f, *co, rv, lv, mv, i + 1);
                        assert(mv.subrange(0, i + 1).drop_last() =~= mv.subrange(0, i as int));
                        assert(mv.subrange(0, i + 1).last() == mv[i as int]);
                    }
                    let member_i = &members[i];
                    proof {
                        assert(decreases_to!(*g => (*g)->members));
                        assert((*g)->members == *members);
                        assert(decreases_to!(*members => members@));
                        assert(decreases_to!(members@ => members@[i as int]));
                        assert(*member_i == members@[i as int]);
                    }
                    let part = self.groupify_group_expr(co, rm, lm, member_i);
                    let mut j: usize = 0;
                    let ghost before = out@;
                    while j < part.len()
                        invariant
                            j <= part@.len(),
                            pairs_v(out@) == pairs_v(before) + pairs_v(part@).subrange(0, j as int),
                            forall|k: int| 0 <= k < part@.len() ==> kind_valid(kind_v(#[trigger] part@[k].1)),
                            forall|k: int| 0 <= k < out@.len() ==> kind_valid(kind_v(#[trigger] out@[k].1)),
                        decreases part@.len() - j,
                    {
                        let ghost mid = out@;
                        let x = (part[j].0.copy(), part[j].1.copy());
                        out.push(x);
                        proof {
                            lemma_pairs_push(mid, x);
                            assert(pairs_v(out@) =~= pairs_v(before) + pairs_v(part@).subrange(0, j + 1));
                        }
                        j = j + 1;
                    }
                    proof { assert(pairs_v(part@).subrange(0, j as int) =~= pairs_v(part@)); }
                    i = i + 1;
                }
                proof { assert(mv.subrange(0, i as int) =~= mv); }
                out
            },
        }
    }

    /// A struct kind's members, each with its grouped kind read under the struct's template
    /// arguments, keyed by member name (a later member of the same name replaces an earlier one).
    pub fn translate_struct_members(&self, co: &CompilerOutputs, s: &CitizenGT) -> (r: KeyedMap<KindGT>)
        requires
            kind_valid(citizen_v(*s)),
            struct_members(*co, citizen_v(*s)) is Some,
        ensures
            r.wf(),
            forall|name: StrI| #[trigger] member_v(r, name) == member_of(struct_members(*co, citizen_v(*s))->0, name),
            forall|name: StrI| #[trigger] member_v(r, name) matches Some(k) ==> kind_valid(k),
        decreases 0int, 4int, s,
    {
        let ghost args_v = templatas_v(s.template_args@);
        proof { lemma_templatas_v(s.template_args@); }
        let st = match co.struct_template(s.template) {
            Some(st) => st,
            None => {
                proof { assert(false); }
                return KeyedMap::new();
            },
        };
        let ghost params = st.generic_params@;
        assert(params.len() == args_v.len());
        let callee = calculate_struct_callee_rune_to_caller_templata(&st.generic_params, &s.template_args);
        proof {
            lemma_args_valid(args_v);
            lemma_struct_runes(params, args_v);
        }
        let locals: KeyedMap<KindGT> = KeyedMap::new();
        proof { assert(locals_v(locals) =~= Seq::<(crate::names::IVarNameT, KindGV)>::empty()); }
        let ghost cv = runes_v(callee);
        let ghost ms = st.members@;
        let ghost all = members_grouped(*co, cv, ms)->0;
        let mut out: KeyedMap<KindGT> = KeyedMap::new();
        proof {
            lemma_members_grouped_prefix(*co, cv, ms, 0);
            assert(ms.subrange(0, 0) =~= Seq::<crate::typing::compiler::StructMemberT>::empty());
        }
        let mut j: usize = 0;
        while j < st.members.len()
            invariant
                out.wf(),
                callee.wf(),
                locals.wf(),
                j <= ms.len(),
                ms == st.members@,
                cv == runes_v(callee),
                !resolves_in(callee, locals),
                maps_ok(callee, locals),
                locals_v(locals) == Seq::<(crate::names::IVarNameT, KindGV)>::empty(),
                members_grouped(*co, cv, ms) is Some,
                members_grouped(*co, cv, ms.subrange(0, j as int)) is Some,
                forall|name: StrI| #[trigger] member_v(out, name) == member_of(members_grouped(*co, cv, ms.subrange(0, j as int))->0, name),
                forall|name: StrI| #[trigger] member_v(out, name) matches Some(k) ==> kind_valid(k),
            decreases ms.len() - j,
        {
            proof {
                lemma_members_grouped_prefix(*co, cv, ms, j + 1);
                assert(ms.subrange(0, j + 1).drop_last() =~= ms.subrange(0, j as int));
                assert(ms.subrange(0, j + 1).last() == ms[j as int]);
            }
            let m = &st.members[j];
            let k = self.groupify_type(co, &callee, &locals, &m.tyype, Some(&m.written), None);
            let ghost old_out = out;
            let ghost kvv = kind_v(k);
            out.insert(name_code_of(m.name), k);
            proof {
                let prev = members_grouped(*co, cv, ms.subrange(0, j as int))->0;
                let now = members_grouped(*co, cv, ms.subrange(0, j + 1))->0;
                assert(now == prev.push((m.name, kvv)));
                lemma_last_named(prev, m.name);
                assert forall|name: StrI| #[trigger] member_v(out, name) == member_of(now, name) by {
                    lemma_last_named(prev, name);
                    if name != m.name {
                        assert(name_code(name) != name_code(m.name));
                        assert(out.at(name_code(name)) == old_out.at(name_code(name)));
                        assert(member_v(old_out, name) == member_of(prev, name));
                        assert(now.drop_last() =~= prev);
                    }
                }
                assert forall|name: StrI| #[trigger] member_v(out, name) is Some implies kind_valid(member_v(out, name)->0) by {
                    if name != m.name {
                        assert(name_code(name) != name_code(m.name));
                        assert(out.at(name_code(name)) == old_out.at(name_code(name)));
                        assert(member_v(old_out, name) == member_v(out, name));
                    }
                }
            }
            j = j + 1;
        }
        proof { assert(ms.subrange(0, j as int) =~= ms); }
        out
    }
}

/// A member name's key code in a member map.
pub(crate) fn name_code_of(s: StrI) -> (c: (u32, u32))
    ensures c == name_code(s),
{
    (0, s.0)
}

/// A rune map after one key's value changes reads the same elsewhere.
proof fn lemma_runes_insert(before: KeyedMap<ITemplataG>, after: KeyedMap<ITemplataG>, rune: crate::names::IRuneS, t: ITemplataG)
    requires
        after.at(rune_code(rune)) == Some(t),
        forall|c: (u32, u32)| c != rune_code(rune) ==> #[trigger] after.at(c) == before.at(c),
    ensures runes_v(after) == runes_v(before).insert(rune, templata_v(t)),
{
    assert forall|r: crate::names::IRuneS| r != rune implies rune_code(r) != rune_code(rune) by {}
    assert(runes_v(after) =~= runes_v(before).insert(rune, templata_v(t)));
}

/// The optional steps a parameter's path holds.
pub open spec fn opt_steps_v(o: Option<Vec<GroupStep>>) -> Option<Seq<GroupStep>> {
    match o {
        Some(v) => Some(v@),
        None => None,
    }
}

impl Compiler {
    /// Register the group runes a parameter's written type names, walking it against the typed
    /// kind: a bare `in g` on a borrow whose rune is not yet bound becomes a group whose referent is
    /// that borrow's. Nested runes are registered first, so the referent's own groups resolve.
    /// `param_name` keys an unannotated borrow's anonymous group. Any other written shape names no
    /// rune.
    pub fn register_group_runes(&self, co: &CompilerOutputs, rune_map: &mut KeyedMap<ITemplataG>, param_name: Option<IVarNameT>,
        type_st: &ITypeST, kind_t: &KindT)
        requires
            old(rune_map).wf(),
            runes_valid(runes_v(*old(rune_map))),
            registered(*co, runes_v(*old(rune_map)), param_name, *type_st, *kind_t) is Some,
        ensures
            final(rune_map).wf(),
            runes_valid(runes_v(*final(rune_map))),
            runes_v(*final(rune_map)) == registered(*co, runes_v(*old(rune_map)), param_name, *type_st, *kind_t)->0,
        decreases kind_t, 1int,
    {
        match (type_st, kind_t) {
            (ITypeST::BorrowRef(bst), KindT::BorrowRef(b)) => {
                self.register_group_runes(co, rune_map, param_name, &bst.inner, &b.inner);
                match &bst.region {
                    RegionS::Group(GroupS::Rune(rune)) => {
                        let code = encode_rune(*rune);
                        let state: u8 = match rune_map.get(code) {
                            Some(ITemplataG::Group(_)) => 0,
                            Some(_) => 1,
                            None => 2,
                        };
                        proof {
                            assert(runes_v(*rune_map).contains_key(*rune) == (rune_map.at(code) is Some));
                        }
                        if state == 2 {
                            let empty: KeyedMap<KindGT> = KeyedMap::new();
                            proof { assert(locals_v(empty) =~= Seq::<(IVarNameT, KindGV)>::empty()); }
                            let inner_gt = self.groupify_type(co, rune_map, &empty, &b.inner, Some(&bst.inner), param_name);
                            let group = new_rune_group_expr(*rune);
                            proof {
                                assert(paths_view(group@) =~= seq![crate::borrow_checker::group_expr::GroupPathV {
                                    root: GroupRootG::Rune(*rune), steps: Seq::empty(), ellipsis: false }]);
                            }
                            let t = ITemplataG::Group(GroupTemplataG { group, kind: Box::new(inner_gt) });
                            let ghost before = *rune_map;
                            rune_map.insert(code, t);
                            proof {
                                lemma_runes_insert(before, *rune_map, *rune, t);
                            }
                        } else if state == 1 {
                            proof { assert(false); }
                        }
                    },
                    _ => {},
                }
            },
            (ITypeST::RuntimeSizedArray { element }, KindT::RuntimeSizedArray(a)) => {
                self.register_group_runes(co, rune_map, param_name, element, &a.element_type);
            },
            (ITypeST::Call { template, args }, KindT::StaticSizedArray(a)) => {
                if args.len() == 2 {
                    self.register_group_runes(co, rune_map, param_name, &args[1], &a.element_type);
                }
            },
            (ITypeST::Call { template, args }, KindT::Struct(st)) => {
                if args_count_is(&st.template_args, args.len()) {
                    self.register_args(co, rune_map, param_name, args, &st.template_args, 0);
                }
            },
            (ITypeST::Call { template, args }, KindT::Interface(it)) => {
                if args_count_is(&it.template_args, args.len()) {
                    self.register_args(co, rune_map, param_name, args, &it.template_args, 0);
                }
            },
            (ITypeST::OwnRef { inner }, KindT::OwnRef(b)) => {
                self.register_group_runes(co, rune_map, param_name, inner, &b.inner);
            },
            (ITypeST::WeakRef { inner }, KindT::WeakRef(b)) => {
                self.register_group_runes(co, rune_map, param_name, inner, &b.inner);
            },
            (_, KindT::ShareRef(b)) => {
                self.register_group_runes(co, rune_map, param_name, type_st, &b.inner);
            },
            _ => {},
        }
    }

    /// Register a citizen's written arguments from position `i` on against its kind arguments.
    fn register_args(&self, co: &CompilerOutputs, rune_map: &mut KeyedMap<ITemplataG>, param_name: Option<IVarNameT>,
        ws: &Vec<ITypeST>, args: &TemplateArgsT, i: usize)
        requires
            old(rune_map).wf(),
            runes_valid(runes_v(*old(rune_map))),
            i + args_len(*args) == ws@.len(),
            registered_args(*co, runes_v(*old(rune_map)), param_name, ws@, *args, i as int) is Some,
        ensures
            final(rune_map).wf(),
            runes_valid(runes_v(*final(rune_map))),
            runes_v(*final(rune_map)) == registered_args(*co, runes_v(*old(rune_map)), param_name, ws@, *args, i as int)->0,
        decreases args, 0int,
    {
        match args {
            TemplateArgsT::Nil => {},
            TemplateArgsT::Cons(head, tail) => {
                match &**head {
                    ITemplataT::Kind(k) => {
                        self.register_group_runes(co, rune_map, param_name, &ws[i], k);
                    },
                    _ => {},
                }
                let len = ws.len();
                assert(i < len);
                self.register_args(co, rune_map, param_name, ws, tail, i + 1);
            },
        }
    }

    /// Bind the generic parameters from position `i` on, each to the template argument at its
    /// position.
    fn bind_generics(&self, co: &CompilerOutputs, rune_map: &mut KeyedMap<ITemplataG>, runes: &Vec<crate::names::IRuneS>,
        args: &TemplateArgsT, i: usize)
        requires
            old(rune_map).wf(),
            runes_valid(runes_v(*old(rune_map))),
            generics_bound(*co, runes_v(*old(rune_map)), runes@, *args, i as int) is Some,
        ensures
            final(rune_map).wf(),
            runes_valid(runes_v(*final(rune_map))),
            runes_v(*final(rune_map)) == generics_bound(*co, runes_v(*old(rune_map)), runes@, *args, i as int)->0,
        decreases args,
    {
        match args {
            TemplateArgsT::Nil => {},
            TemplateArgsT::Cons(head, tail) => {
                if i < runes.len() {
                    let rune = runes[i];
                    let code = encode_rune(rune);
                    let ghost before = *rune_map;
                    match &**head {
                        ITemplataT::Placeholder(p) => {
                            let t = ITemplataG::Placeholder(*p);
                            rune_map.insert(code, t);
                            proof { lemma_runes_insert(before, *rune_map, rune, t); }
                        },
                        ITemplataT::Kind(KindT::KindPlaceholder(kp)) => {
                            let t = ITemplataG::Kind(Box::new(KindGT::KindPlaceholder(kp.id)));
                            rune_map.insert(code, t);
                            proof { lemma_runes_insert(before, *rune_map, rune, t); }
                        },
                        ITemplataT::Group => {},
                        ITemplataT::Kind(KindT::BorrowRef(_)) => {},
                        _ => {
                            let empty: KeyedMap<KindGT> = KeyedMap::new();
                            proof { assert(locals_v(empty) =~= Seq::<(IVarNameT, KindGV)>::empty()); }
                            let t = self.groupify_templata(co, rune_map, &empty, head);
                            rune_map.insert(code, t);
                            proof { lemma_runes_insert(before, *rune_map, rune, t); }
                        },
                    }
                    self.bind_generics(co, rune_map, runes, tail, i + 1);
                }
            },
        }
    }

    /// The function's own rune map: each generic parameter bound to its template argument (a
    /// placeholder to itself; a group or borrow argument to nothing, its group only knowable from a
    /// parameter), then a group for each group rune a parameter's written type names.
    pub fn build_rune_map(&self, co: &CompilerOutputs, function_s: &FunctionS, header: &FunctionHeaderT) -> (r: KeyedMap<ITemplataG>)
        requires function_rune_map(*co, *function_s, *header) is Some,
        ensures
            r.wf(),
            runes_valid(runes_v(r)),
            runes_v(r) == function_rune_map(*co, *function_s, *header)->0,
    {
        let mut rune_map: KeyedMap<ITemplataG> = KeyedMap::new();
        proof { assert(runes_v(rune_map) =~= Map::<crate::names::IRuneS, TemplataGV>::empty()); }
        self.bind_generics(co, &mut rune_map, &function_s.generic_params, &header.template_args, 0);
        let ghost m0 = runes_v(rune_map);
        let n = if function_s.params.len() <= header.params.len() { function_s.params.len() } else { header.params.len() };
        proof { lemma_params_registered_prefix(*co, m0, function_s.params@, header.params@, n as int, 0); }
        let mut k: usize = 0;
        while k < n
            invariant
                rune_map.wf(),
                runes_valid(runes_v(rune_map)),
                k <= n,
                n as int == shared_params(*function_s, *header),
                params_registered(*co, m0, function_s.params@, header.params@, n as int) is Some,
                runes_v(rune_map) == params_registered(*co, m0, function_s.params@, header.params@, k as int)->0,
            decreases n - k,
        {
            proof { lemma_params_registered_prefix(*co, m0, function_s.params@, header.params@, n as int, k + 1); }
            self.register_group_runes(co, &mut rune_map, Some(header.params[k].name), &function_s.params[k].tyype, &header.params[k].tyype);
            k = k + 1;
        }
        rune_map
    }

    /// Each parameter's flattened group path: a borrow parameter's `in g` (or anonymous) group,
    /// `None` for a non-borrow or `held` parameter. The aliasing info reads each parameter's
    /// `noalias` verdict off these.
    pub fn param_group_paths(&self, co: &CompilerOutputs, function_s: &FunctionS, header: &FunctionHeaderT) -> (r: Vec<Option<Vec<GroupStep>>>)
        requires param_paths_defined(*co, *function_s, *header),
        ensures
            r@.len() == shared_params(*function_s, *header),
            forall|i: int| 0 <= i < r@.len() ==> #[trigger] opt_steps_v(r@[i]) == param_path_at(*co, *function_s, *header, i),
    {
        let rune_map = self.build_rune_map(co, function_s, header);
        let ghost rm = runes_v(rune_map);
        let empty: KeyedMap<KindGT> = KeyedMap::new();
        proof { assert(locals_v(empty) =~= Seq::<(IVarNameT, KindGV)>::empty()); }
        let n = if function_s.params.len() <= header.params.len() { function_s.params.len() } else { header.params.len() };
        let mut out: Vec<Option<Vec<GroupStep>>> = Vec::new();
        let mut i: usize = 0;
        while i < n
            invariant
                i <= n,
                n as int == shared_params(*function_s, *header),
                n <= function_s.params@.len(),
                n <= header.params@.len(),
                rm == runes_v(rune_map),
                rm == function_rune_map(*co, *function_s, *header)->0,
                param_paths_defined(*co, *function_s, *header),
                maps_ok(rune_map, empty),
                locals_v(empty) == Seq::<(IVarNameT, KindGV)>::empty(),
                out@.len() == i,
                forall|j: int| 0 <= j < i ==> #[trigger] opt_steps_v(out@[j]) == param_path_at(*co, *function_s, *header, j),
            decreases n - i,
        {
            let ps = &function_s.params[i];
            let pt = &header.params[i];
            proof { assert(param_group_path(*co, rm, function_s.params@[i as int], header.params@[i as int]) is Some); }
            let path: Option<Vec<GroupStep>> = match &ps.tyype {
                ITypeST::BorrowRef(st) => match &st.region {
                    RegionS::Held => None,
                    _ => {
                        let gt = self.groupify_type(co, &rune_map, &empty, &pt.tyype, Some(&ps.tyype), Some(pt.name));
                        match &gt {
                            KindGT::BorrowRef(b) => Some(flatten(sole_path(&b.group.group))),
                            _ => None,
                        }
                    },
                },
                _ => None,
            };
            out.push(path);
            proof { assert(opt_steps_v(out@[i as int]) == param_path_at(*co, *function_s, *header, i as int)); }
            i = i + 1;
        }
        out
    }

    /// Match a callee's written type against what the caller hands it, binding the callee's runes:
    /// a rune binds to the argument; a borrow `&T in g` matches its referent and binds `g` to the
    /// argument's group; a template call matches its template and each argument; a runtime-sized
    /// array matches its element. Any other written shape binds nothing.
    pub fn match_types(&self, co: &CompilerOutputs, type_s: &ITypeST, type_g: &ITemplataG, map: &mut KeyedMap<ITemplataG>)
        requires
            old(map).wf(),
            matched(*co, *type_s, templata_v(*type_g), runes_v(*old(map))) is Some,
        ensures
            final(map).wf(),
            runes_v(*final(map)) == matched(*co, *type_s, templata_v(*type_g), runes_v(*old(map)))->0,
        decreases type_s,
    {
        match type_s {
            ITypeST::BorrowRef(bst) => {
                match type_g {
                    ITemplataG::Kind(k) => {
                        match &**k {
                            KindGT::BorrowRef(b) => {
                                let inner_t = ITemplataG::Kind(Box::new(b.inner.copy()));
                                self.match_types(co, &bst.inner, &inner_t, map);
                                match &bst.region {
                                    RegionS::Group(GroupS::Rune(rune)) => {
                                        let t = ITemplataG::Group(GroupTemplataG { group: copy_paths(&b.group.group), kind: Box::new(b.inner.copy()) });
                                        let ghost before = *map;
                                        map.insert(encode_rune(*rune), t);
                                        proof { lemma_runes_insert(before, *map, *rune, t); }
                                    },
                                    _ => {},
                                }
                            },
                            _ => {
                                proof { assert(false); }
                            },
                        }
                    },
                    _ => {
                        proof { assert(false); }
                    },
                }
            },
            ITypeST::Rune(rune) => {
                let t = type_g.copy();
                let ghost before = *map;
                map.insert(encode_rune(*rune), t);
                proof { lemma_runes_insert(before, *map, *rune, t); }
            },
            ITypeST::Call { template, args } => {
                match type_g {
                    ITemplataG::Kind(k) => {
                        match &**k {
                            KindGT::Struct(c) => {
                                if co.struct_template(c.template).is_none() {
                                    proof { assert(false); }
                                    return;
                                }
                                let def = ITemplataG::StructDefinition(c.template);
                                self.match_types(co, template, &def, map);
                                self.match_args(co, type_s, args, &c.template_args, map);
                            },
                            KindGT::Interface(c) => {
                                if co.struct_template(c.template).is_some() || !co.has_interface_template(c.template) {
                                    proof { assert(false); }
                                    return;
                                }
                                let def = ITemplataG::InterfaceDefinition(c.template);
                                self.match_types(co, template, &def, map);
                                self.match_args(co, type_s, args, &c.template_args, map);
                            },
                            KindGT::Int | KindGT::Bool | KindGT::Float | KindGT::Str | KindGT::Void | KindGT::USize | KindGT::Never => {
                                if args.len() != 0 {
                                    proof { assert(false); }
                                }
                            },
                            _ => {},
                        }
                    },
                    _ => {},
                }
            },
            ITypeST::RuntimeSizedArray { element } => {
                match type_g {
                    ITemplataG::Kind(k) => {
                        match &**k {
                            KindGT::RuntimeSizedArray(a) => {
                                let e = ITemplataG::Kind(Box::new(a.element_type.copy()));
                                self.match_types(co, element, &e, map);
                            },
                            _ => {
                                proof { assert(false); }
                            },
                        }
                    },
                    _ => {
                        proof { assert(false); }
                    },
                }
            },
            _ => {},
        }
    }

    /// Match a template call's written arguments against a citizen's grouped arguments, pairwise
    /// as far as both go.
    fn match_args(&self, co: &CompilerOutputs, call: &ITypeST, args: &Vec<ITypeST>, gargs: &Vec<ITemplataG>, map: &mut KeyedMap<ITemplataG>)
        requires
            old(map).wf(),
            call matches ITypeST::Call { template, args: a } && a == *args,
            matched_args(*co, args@, templatas_v(gargs@), runes_v(*old(map)), 0) is Some,
        ensures
            final(map).wf(),
            runes_v(*final(map)) == matched_args(*co, args@, templatas_v(gargs@), runes_v(*old(map)), 0)->0,
        decreases call, 0int,
    {
        let ghost gs = templatas_v(gargs@);
        let ghost whole = matched_args(*co, args@, gs, runes_v(*map), 0);
        proof { lemma_templatas_v(gargs@); }
        let mut i: usize = 0;
        while i < args.len() && i < gargs.len()
            invariant
                map.wf(),
                i <= args@.len(),
                i <= gargs@.len(),
                gs == templatas_v(gargs@),
                gs.len() == gargs@.len(),
                forall|j: int| 0 <= j < gargs@.len() ==> #[trigger] gs[j] == templata_v(gargs@[j]),
                call matches ITypeST::Call { template, args: a } && a == *args,
                whole is Some,
                matched_args(*co, args@, gs, runes_v(*map), i as int) == whole,
            decreases args@.len() - i,
        {
            proof {
                assert(decreases_to!(*call => (*call)->args));
                assert(decreases_to!(*args => args@));
                assert(decreases_to!(args@ => args@[i as int]));
            }
            self.match_types(co, &args[i], &gargs[i], map);
            i = i + 1;
        }
        proof { assert(matched_args(*co, args@, gs, runes_v(*map), i as int) == Some(runes_v(*map))); }
    }

    /// A callee's rune map at a call: each of the callee's parameters matched, in order, against
    /// the grouped kind of the argument at its position.
    pub fn calculate_callee_rune_to_caller_templata(&self, co: &CompilerOutputs, function_s: &FunctionS, args_ge: &Vec<ExpressionGE>)
        -> (r: KeyedMap<ITemplataG>)
        requires
            args_ge@.len() == function_s.params@.len(),
            callee_runes(*co, function_s.params@, Seq::new(args_ge@.len(), |i: int| kind_v(result_of(args_ge@[i]))), args_ge@.len() as int) is Some,
        ensures
            r.wf(),
            runes_v(r) == callee_runes(*co, function_s.params@, Seq::new(args_ge@.len(), |i: int| kind_v(result_of(args_ge@[i]))), args_ge@.len() as int)->0,
    {
        let ghost kinds = Seq::new(args_ge@.len(), |i: int| kind_v(result_of(args_ge@[i])));
        let mut map: KeyedMap<ITemplataG> = KeyedMap::new();
        proof { assert(runes_v(map) =~= Map::<crate::names::IRuneS, TemplataGV>::empty()); }
        let mut i: usize = 0;
        while i < args_ge.len()
            invariant
                map.wf(),
                i <= args_ge@.len(),
                args_ge@.len() == function_s.params@.len(),
                kinds == Seq::new(args_ge@.len(), |i: int| kind_v(result_of(args_ge@[i]))),
                callee_runes(*co, function_s.params@, kinds, args_ge@.len() as int) is Some,
                runes_v(map) == callee_runes(*co, function_s.params@, kinds, i as int)->0,
            decreases args_ge@.len() - i,
        {
            proof { lemma_callee_runes_prefix(*co, function_s.params@, kinds, args_ge@.len() as int, i + 1); }
            let arg = ITemplataG::Kind(Box::new(args_ge[i].result().copy()));
            self.match_types(co, &function_s.params[i].tyype, &arg, &mut map);
            i = i + 1;
        }
        map
    }
}

/// The rune map a struct's members are read under: each generic parameter bound, in order, to the
/// template argument at its position.
pub fn calculate_struct_callee_rune_to_caller_templata(params: &Vec<crate::names::IRuneS>, template_args: &Vec<ITemplataG>)
    -> (r: KeyedMap<ITemplataG>)
    requires params@.len() == template_args@.len(),
    ensures r.wf(), runes_v(r) == bind_params(params@, templatas_v(template_args@)),
{
    let ghost args_v = templatas_v(template_args@);
    proof { lemma_templatas_v(template_args@); }
    let mut callee: KeyedMap<ITemplataG> = KeyedMap::new();
    proof { assert(runes_v(callee) =~= bind_params(params@.subrange(0, 0), args_v)); }
    let mut i: usize = 0;
    while i < params.len()
        invariant
            callee.wf(),
            i <= params@.len(),
            params@.len() == args_v.len(),
            args_v.len() == template_args@.len(),
            args_v == templatas_v(template_args@),
            forall|j: int| 0 <= j < template_args@.len() ==> #[trigger] args_v[j] == templata_v(template_args@[j]),
            runes_v(callee) == bind_params(params@.subrange(0, i as int), args_v),
        decreases params@.len() - i,
    {
        let t = template_args[i].copy();
        let ghost before = callee;
        callee.insert(encode_rune(params[i]), t);
        proof {
            lemma_runes_insert(before, callee, params@[i as int], t);
            let pre = params@.subrange(0, i + 1);
            assert(pre.drop_last() =~= params@.subrange(0, i as int));
            assert(pre.last() == params@[i as int]);
            assert(runes_v(callee) =~= bind_params(pre, args_v));
        }
        i = i + 1;
    }
    proof { assert(params@.subrange(0, params@.len() as int) =~= params@); }
    callee

}

impl Compiler {
    /// The grouped mirror of a typed struct kind (its arguments groupless).
    pub fn struct_gt(&self, co: &CompilerOutputs, rm: &KeyedMap<ITemplataG>, lm: &KeyedMap<KindGT>, st: &StructTT) -> (r: CitizenGT)
        requires
            maps_ok(*rm, *lm),
            grouped_kind(resolves_in(*rm, *lm), *co, runes_v(*rm), locals_v(*lm), KindT::Struct(*st), None, None) is Some,
        ensures
            kind_v(KindGT::Struct(r)) == grouped_kind(resolves_in(*rm, *lm), *co, runes_v(*rm), locals_v(*lm), KindT::Struct(*st), None, None)->0,
    {
        let k = KindT::Struct(StructTT { id: st.id, template: st.template, template_args: st.template_args.copy() });
        match self.groupify_type(co, rm, lm, &k, None, None) {
            KindGT::Struct(c) => c,
            _ => {
                proof { assert(false); }
                CitizenGT { id: 0, template: 0, template_args: Vec::new() }
            },
        }
    }

    /// The grouped mirror of a typed interface kind (its arguments groupless).
    pub fn interface_gt(&self, co: &CompilerOutputs, rm: &KeyedMap<ITemplataG>, lm: &KeyedMap<KindGT>, it: &InterfaceTT) -> (r: CitizenGT)
        requires
            maps_ok(*rm, *lm),
            grouped_kind(resolves_in(*rm, *lm), *co, runes_v(*rm), locals_v(*lm), KindT::Interface(*it), None, None) is Some,
        ensures
            kind_v(KindGT::Interface(r)) == grouped_kind(resolves_in(*rm, *lm), *co, runes_v(*rm), locals_v(*lm), KindT::Interface(*it), None, None)->0,
    {
        let k = KindT::Interface(InterfaceTT { id: it.id, template: it.template, template_args: it.template_args.copy() });
        match self.groupify_type(co, rm, lm, &k, None, None) {
            KindGT::Interface(c) => c,
            _ => {
                proof { assert(false); }
                CitizenGT { id: 0, template: 0, template_args: Vec::new() }
            },
        }
    }

    /// The grouped mirror of a typed static-sized array kind, its element groupless.
    pub fn ssa_gt(&self, co: &CompilerOutputs, rm: &KeyedMap<ITemplataG>, lm: &KeyedMap<KindGT>, a: &StaticSizedArrayTT) -> (r: ArrayGT)
        requires
            maps_ok(*rm, *lm),
            grouped_kind(resolves_in(*rm, *lm), *co, runes_v(*rm), locals_v(*lm), KindT::StaticSizedArray(*a), None, None) is Some,
        ensures
            kind_v(KindGT::StaticSizedArray(r)) == grouped_kind(resolves_in(*rm, *lm), *co, runes_v(*rm), locals_v(*lm), KindT::StaticSizedArray(*a), None, None)->0,
            kind_valid(kind_v(KindGT::StaticSizedArray(r))),
    {
        let k = KindT::StaticSizedArray(StaticSizedArrayTT { size: a.size, element_type: Box::new(a.element_type.copy()) });
        match self.groupify_type(co, rm, lm, &k, None, None) {
            KindGT::StaticSizedArray(x) => x,
            _ => {
                proof { assert(false); }
                ArrayGT { element_type: Box::new(KindGT::Void) }
            },
        }
    }

    /// The grouped mirror of a typed runtime-sized array kind, its element groupless.
    pub fn rsa_gt(&self, co: &CompilerOutputs, rm: &KeyedMap<ITemplataG>, lm: &KeyedMap<KindGT>, a: &RuntimeSizedArrayTT) -> (r: ArrayGT)
        requires
            maps_ok(*rm, *lm),
            grouped_kind(resolves_in(*rm, *lm), *co, runes_v(*rm), locals_v(*lm), KindT::RuntimeSizedArray(*a), None, None) is Some,
        ensures
            kind_v(KindGT::RuntimeSizedArray(r)) == grouped_kind(resolves_in(*rm, *lm), *co, runes_v(*rm), locals_v(*lm), KindT::RuntimeSizedArray(*a), None, None)->0,
    {
        let k = KindT::RuntimeSizedArray(RuntimeSizedArrayTT { element_type: Box::new(a.element_type.copy()) });
        match self.groupify_type(co, rm, lm, &k, None, None) {
            KindGT::RuntimeSizedArray(x) => x,
            _ => {
                proof { assert(false); }
                ArrayGT { element_type: Box::new(KindGT::Void) }
            },
        }
    }

    /// A cast keeps the operand's outer group and re-expresses the referent's structure groupless;
    /// a cast to a non-borrow (or of a non-borrow operand) is the cast kind's groupless mirror.
    pub fn cast_result(&self, co: &CompilerOutputs, rm: &KeyedMap<ITemplataG>, lm: &KeyedMap<KindGT>, cast_kind: &KindT, operand: &KindGT)
        -> (r: KindGT)
        requires
            maps_ok(*rm, *lm),
            match (*cast_kind, *operand) {
                (KindT::BorrowRef(b), KindGT::BorrowRef(_)) =>
                    grouped_kind(resolves_in(*rm, *lm), *co, runes_v(*rm), locals_v(*lm), *b.inner, None, None) is Some,
                _ => grouped_kind(resolves_in(*rm, *lm), *co, runes_v(*rm), locals_v(*lm), *cast_kind, None, None) is Some,
            },
        ensures
            kind_v(r) == match (*cast_kind, kind_v(*operand)) {
                (KindT::BorrowRef(b), KindGV::BorrowRef { group, inner }) => KindGV::BorrowRef {
                    group,
                    inner: Box::new(grouped_kind(resolves_in(*rm, *lm), *co, runes_v(*rm), locals_v(*lm), *b.inner, None, None)->0),
                },
                _ => grouped_kind(resolves_in(*rm, *lm), *co, runes_v(*rm), locals_v(*lm), *cast_kind, None, None)->0,
            },
            kind_valid(kind_v(r)),
    {
        match (cast_kind, operand) {
            (KindT::BorrowRef(b), KindGT::BorrowRef(ob)) => {
                let inner = self.groupify_type(co, rm, lm, &b.inner, None, None);
                KindGT::BorrowRef(BorrowRefGT { group: GroupGT { group: copy_paths(&ob.group.group) }, inner: Box::new(inner) })
            },
            _ => self.groupify_type(co, rm, lm, cast_kind, None, None),
        }
    }

    /// The caller-side churn paths a callee's effect declares, read through the callee's rune map:
    /// one flat path per union member, the `...` dropped (`mut(g...)` churns exactly `mut(g)`);
    /// `not(mut(..))` churns nothing.
    pub fn groupify_effect(&self, co: &CompilerOutputs, effect_s: &EffectS, rune_to_templata: &KeyedMap<ITemplataG>) -> (r: Vec<Vec<GroupStep>>)
        requires
            rune_to_templata.wf(),
            runes_valid(runes_v(*rune_to_templata)),
            match *effect_s {
                EffectS::Mut(g) => group_paths(resolves(runes_v(*rune_to_templata), Seq::empty()), *co, runes_v(*rune_to_templata), Seq::empty(), g) is Some,
                EffectS::NotMut(_) => true,
            },
        ensures
            match *effect_s {
                EffectS::Mut(g) => {
                    let ps = group_paths(resolves(runes_v(*rune_to_templata), Seq::empty()), *co, runes_v(*rune_to_templata), Seq::empty(), g)->0;
                    &&& r@.len() == ps.len()
                    &&& forall|i: int| 0 <= i < ps.len() ==> #[trigger] r@[i]@ == flat(ps[i].0)
                },
                EffectS::NotMut(_) => r@.len() == 0,
            },
    {
        match effect_s {
            EffectS::Mut(g) => {
                let empty: KeyedMap<KindGT> = KeyedMap::new();
                proof { assert(locals_v(empty) =~= Seq::<(IVarNameT, KindGV)>::empty()); }
                let ps = self.groupify_group_expr(co, rune_to_templata, &empty, g);
                let mut out: Vec<Vec<GroupStep>> = Vec::new();
                let mut i: usize = 0;
                while i < ps.len()
                    invariant
                        i <= ps@.len(),
                        out@.len() == i,
                        forall|j: int| 0 <= j < i ==> #[trigger] out@[j]@ == flat(ps@[j].0@),
                    decreases ps@.len() - i,
                {
                    out.push(flatten(&ps[i].0));
                    i = i + 1;
                }
                proof {
                    assert forall|j: int| 0 <= j < ps@.len() implies pairs_v(ps@)[j].0 == ps@[j].0@ by {}
                }
                out
            },
            EffectS::NotMut(_) => Vec::new(),
        }
    }
}

/// The group one step below each of `existing`'s paths (the member or element child group), each
/// path keeping its `...`, with `new_type` the kind of what lives there.
pub fn group_path_child(existing: &GroupTemplataG, new_step: GroupChildStepG, new_type: KindGT) -> (r: GroupTemplataG)
    ensures
        paths_view(r.group@) == paths_view(existing.group@).map_values(|p: crate::borrow_checker::group_expr::GroupPathV| with_step(p, new_step)),
        kind_v(*r.kind) == kind_v(new_type),
{
    let mut paths: Vec<GroupPathG> = Vec::new();
    let mut i: usize = 0;
    while i < existing.group.len()
        invariant
            i <= existing.group@.len(),
            paths@.len() == i,
            forall|j: int| 0 <= j < i ==> (#[trigger] paths@[j])@ == with_step(existing.group@[j]@, new_step),
        decreases existing.group@.len() - i,
    {
        paths.push(path_with_step(&existing.group[i], new_step));
        i = i + 1;
    }
    let r = GroupTemplataG { group: paths, kind: Box::new(new_type) };
    assert(paths_view(r.group@) =~= paths_view(existing.group@).map_values(|p: crate::borrow_checker::group_expr::GroupPathV| with_step(p, new_step)));
    r
}

} // verus!
