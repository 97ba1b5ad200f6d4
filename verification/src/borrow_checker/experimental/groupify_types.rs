//! How the grouping pass reads a group off a written type: a typed kind is walked against the type
//! as written, every borrow taking the group its `in g` names (or its parameter's anonymous group),
//! every rune read through the rune map it is handed, and a member group (`g.items`) through the
//! struct's own members.

use vstd::prelude::*;
use crate::interner::StrI;
use crate::names::{IRuneS, IVarNameT};
use crate::postparsing::{GroupS, ITypeST, RegionS};
use crate::typing::types::{KindT, ITemplataT, TemplateArgsT};
use crate::typing::compiler::{CompilerOutputs, StructMemberT, struct_template_in};
use crate::borrow_checker::group_expr::{GroupChildStepG, GroupPathG, GroupPathV, GroupRootG};
use crate::borrow_checker::kind_g::{KindGT, KindGV, ITemplataG, TemplataGV, kind_v, templata_v};
use crate::borrow_checker::experimental::keyed_map::KeyedMap;

verus! {

/// Whether a rune map and a local map can resolve any group at all: a group expression starts at a
/// rune bound to a group or at a local, and with neither nothing resolves.
pub open spec fn resolves(rm: Map<IRuneS, TemplataGV>, lm: Seq<(IVarNameT, KindGV)>) -> bool {
    (exists|r: IRuneS| #[trigger] rm.contains_key(r) && rm[r] is Group) || lm.len() > 0
}

/// The name a local was written with, for a local written in the source.
pub open spec fn imprecise_name(v: IVarNameT) -> Option<StrI> {
    match v {
        IVarNameT::Local(s) => Some(s),
        _ => None,
    }
}

/// The position of the first local written as `name`, if any.
pub open spec fn local_named(lm: Seq<(IVarNameT, KindGV)>, name: StrI) -> Option<int>
    decreases lm.len(),
{
    if lm.len() == 0 {
        None
    } else if imprecise_name(lm[0].0) == Some(name) {
        Some(0)
    } else {
        match local_named(lm.drop_first(), name) {
            Some(i) => Some(i + 1),
            None => None,
        }
    }
}

/// The group a rune names on its own: the path that starts and ends at the rune.
pub open spec fn rune_path(r: IRuneS) -> GroupPathV {
    GroupPathV { root: GroupRootG::Rune(r), steps: Seq::empty(), ellipsis: false }
}

/// A path with one more step.
pub open spec fn with_step(p: GroupPathV, s: GroupChildStepG) -> GroupPathV {
    GroupPathV { root: p.root, steps: p.steps.push(s), ellipsis: p.ellipsis }
}

/// The single-path group of a parameter's anonymous group, or nothing without a parameter.
pub open spec fn anonymous_group(n: Option<IVarNameT>) -> Option<Seq<GroupPathV>> {
    match n {
        Some(name) => Some(seq![GroupPathV { root: GroupRootG::ParamAnonymousGroup(name), steps: Seq::empty(), ellipsis: false }]),
        None => None,
    }
}

/// The rune map a struct's members are read under: each generic parameter bound, in order, to the
/// template argument at its position (a later parameter of the same rune wins).
pub open spec fn bind_params(params: Seq<IRuneS>, args: Seq<TemplataGV>) -> Map<IRuneS, TemplataGV>
    decreases params.len(),
{
    if params.len() == 0 {
        Map::empty()
    } else {
        bind_params(params.drop_last(), args).insert(params.last(), args[params.len() - 1])
    }
}

/// The written arguments of a citizen's template call, when they line up with its `count` template
/// arguments.
pub open spec fn written_args(w: Option<ITypeST>, count: nat) -> Option<Seq<ITypeST>> {
    match w {
        Some(ITypeST::Call { template, args }) => if args@.len() == count { Some(args@) } else { None },
        _ => None,
    }
}

/// The number of template arguments.
pub open spec fn args_len(a: TemplateArgsT) -> nat
    decreases a,
{
    match a {
        TemplateArgsT::Nil => 0,
        TemplateArgsT::Cons(_, tail) => 1 + args_len(*tail),
    }
}

/// The grouped kind the pass makes of typed kind `t` written as `w` (under parameter `n`), with
/// runes read through `rm` and locals through `lm`; `None` where the pass has no answer (a borrow
/// with no written type, a rune bound to the wrong sort of thing, a group that does not resolve).
/// `f` says whether group expressions can resolve at all (`resolves`); where they cannot, member
/// groups are not looked into.
pub open spec fn grouped_kind(f: bool, co: CompilerOutputs, rm: Map<IRuneS, TemplataGV>, lm: Seq<(IVarNameT, KindGV)>,
    t: KindT, w: Option<ITypeST>, n: Option<IVarNameT>) -> Option<KindGV>
    decreases (if f { 1int } else { 0int }), 2int, t,
{
    match t {
        KindT::BorrowRef(b) => match w {
            None => None,
            Some(ITypeST::BorrowRef(bst)) => {
                match grouped_kind(f, co, rm, lm, *b.inner, Some(*bst.inner), n) {
                    None => None,
                    Some(inner) => {
                        let group = match bst.region {
                            RegionS::Group(g) => match group_paths(f, co, rm, lm, g) {
                                Some(ps) => Some(ps.map_values(|x: (GroupPathV, KindGV)| x.0)),
                                None => None,
                            },
                            _ => anonymous_group(n),
                        };
                        match group {
                            Some(g) => Some(KindGV::BorrowRef { group: g, inner: Box::new(inner) }),
                            None => None,
                        }
                    },
                }
            },
            Some(ITypeST::Rune(r)) if rm.contains_key(r) && rm[r] is Kind && rm[r]->Kind_0 is BorrowRef => Some(rm[r]->Kind_0),
            Some(_) => match (grouped_kind(f, co, rm, lm, *b.inner, None, None), anonymous_group(n)) {
                (Some(inner), Some(g)) => Some(KindGV::BorrowRef { group: g, inner: Box::new(inner) }),
                _ => None,
            },
        },
        KindT::Never => Some(KindGV::Never),
        KindT::Void => Some(KindGV::Void),
        KindT::Int { bits } => Some(KindGV::Int),
        KindT::Bool => Some(KindGV::Bool),
        KindT::Str => Some(KindGV::Str),
        KindT::Float => Some(KindGV::Float),
        KindT::USize => Some(KindGV::USize),
        KindT::Struct(s) => match grouped_args(f, co, rm, lm, s.template_args, written_args(w, args_len(s.template_args)), 0, n) {
            Some(args) => Some(KindGV::Struct { id: s.id, template: s.template, args }),
            None => None,
        },
        KindT::Interface(i) => match grouped_args(f, co, rm, lm, i.template_args, written_args(w, args_len(i.template_args)), 0, n) {
            Some(args) => Some(KindGV::Interface { id: i.id, template: i.template, args }),
            None => None,
        },
        KindT::KindPlaceholder(p) => if rm.contains_key(p.rune) {
            match rm[p.rune] {
                TemplataGV::Kind(k) => Some(k),
                _ => None,
            }
        } else {
            Some(KindGV::KindPlaceholder(p.id))
        },
        KindT::StaticSizedArray(a) => {
            let ew = match w {
                Some(ITypeST::Call { template, args }) => if args@.len() == 2 { Some(args@[1]) } else { None },
                _ => None,
            };
            match grouped_kind(f, co, rm, lm, *a.element_type, ew, if ew is Some { n } else { None }) {
                Some(e) => Some(KindGV::StaticSizedArray(Box::new(e))),
                None => None,
            }
        },
        KindT::RuntimeSizedArray(a) => {
            let ew = match w {
                Some(ITypeST::RuntimeSizedArray { element }) => Some(*element),
                _ => None,
            };
            match grouped_kind(f, co, rm, lm, *a.element_type, ew, if ew is Some { n } else { None }) {
                Some(e) => Some(KindGV::RuntimeSizedArray(Box::new(e))),
                None => None,
            }
        },
        KindT::OverloadSet(o) => Some(KindGV::OverloadSet(o)),
        KindT::OwnRef(b) => {
            let iw = match w {
                Some(ITypeST::OwnRef { inner }) => Some(*inner),
                _ => None,
            };
            match grouped_kind(f, co, rm, lm, *b.inner, iw, if iw is Some { n } else { None }) {
                Some(e) => Some(KindGV::OwnRef(Box::new(e))),
                None => None,
            }
        },
        KindT::WeakRef(b) => {
            let iw = match w {
                Some(ITypeST::WeakRef { inner }) => Some(*inner),
                _ => None,
            };
            match grouped_kind(f, co, rm, lm, *b.inner, iw, if iw is Some { n } else { None }) {
                Some(e) => Some(KindGV::WeakRef(Box::new(e))),
                None => None,
            }
        },
        KindT::ShareRef(b) => match grouped_kind(f, co, rm, lm, *b.inner, w, n) {
            Some(e) => Some(KindGV::ShareRef(Box::new(e))),
            None => None,
        },
    }
}

/// A citizen's grouped template arguments from position `i` on: a kind argument with its written
/// argument at hand is walked against it; a group argument has no grouped form; any other argument
/// mirrors without groups.
pub open spec fn grouped_args(f: bool, co: CompilerOutputs, rm: Map<IRuneS, TemplataGV>, lm: Seq<(IVarNameT, KindGV)>,
    args: TemplateArgsT, ws: Option<Seq<ITypeST>>, i: int, n: Option<IVarNameT>) -> Option<Seq<TemplataGV>>
    decreases (if f { 1int } else { 0int }), 2int, args,
{
    match args {
        TemplateArgsT::Nil => Some(Seq::empty()),
        TemplateArgsT::Cons(head, tail) => {
            let first = match (*head, ws) {
                (ITemplataT::Kind(k), Some(written)) => if 0 <= i < written.len() {
                    match grouped_kind(f, co, rm, lm, k, Some(written[i]), n) {
                        Some(kg) => Some(TemplataGV::Kind(kg)),
                        None => None,
                    }
                } else {
                    None
                },
                _ => grouped_templata(f, co, rm, lm, *head),
            };
            match (first, grouped_args(f, co, rm, lm, *tail, ws, i + 1, n)) {
                (Some(x), Some(rest)) => Some(seq![x] + rest),
                _ => None,
            }
        },
    }
}

/// The grouped form of a template argument with no written form at hand.
pub open spec fn grouped_templata(f: bool, co: CompilerOutputs, rm: Map<IRuneS, TemplataGV>, lm: Seq<(IVarNameT, KindGV)>,
    t: ITemplataT) -> Option<TemplataGV>
    decreases (if f { 1int } else { 0int }), 2int, t,
{
    match t {
        ITemplataT::Kind(k) => match grouped_kind(f, co, rm, lm, k, None, None) {
            Some(kg) => Some(TemplataGV::Kind(kg)),
            None => None,
        },
        ITemplataT::Placeholder(p) => Some(TemplataGV::Placeholder(p)),
        ITemplataT::Integer(x) => Some(TemplataGV::Integer(x)),
        ITemplataT::Boolean(b) => Some(TemplataGV::Boolean(b)),
        ITemplataT::Group => None,
    }
}

/// The paths a written group names, one per union member, each with the kind of what lives there.
pub open spec fn group_paths(f: bool, co: CompilerOutputs, rm: Map<IRuneS, TemplataGV>, lm: Seq<(IVarNameT, KindGV)>,
    g: GroupS) -> Option<Seq<(GroupPathV, KindGV)>>
    decreases (if f { 1int } else { 0int }), 1int, g,
{
    match g {
        GroupS::Rune(r) => if rm.contains_key(r) {
            match rm[r] {
                TemplataGV::Group { group, kind } => Some(group.map_values(|p: GroupPathV| (p, kind))),
                _ => None,
            }
        } else {
            None
        },
        GroupS::Local(name) => match local_named(lm, name) {
            Some(i) => Some(seq![(GroupPathV { root: GroupRootG::Local(lm[i].0), steps: Seq::empty(), ellipsis: false }, lm[i].1)]),
            None => None,
        },
        GroupS::Member { base, member_name } => match group_paths(f, co, rm, lm, *base) {
            Some(bs) => if f { member_paths(co, bs, member_name) } else { Some(Seq::empty()) },
            None => None,
        },
        GroupS::Elements { base } => match group_paths(f, co, rm, lm, *base) {
            Some(bs) => element_paths(bs),
            None => None,
        },
        GroupS::Ellipsis { base } => match group_paths(f, co, rm, lm, *base) {
            Some(bs) => Some(bs.map_values(|x: (GroupPathV, KindGV)|
                (GroupPathV { root: x.0.root, steps: x.0.steps, ellipsis: true }, x.1))),
            None => None,
        },
        GroupS::Union { members } => {
            proof { assert(decreases_to!(members => members@)); }
            union_paths(f, co, rm, lm, members@)
        },
    }
}

/// The paths of a union's members, member by member.
pub open spec fn union_paths(f: bool, co: CompilerOutputs, rm: Map<IRuneS, TemplataGV>, lm: Seq<(IVarNameT, KindGV)>,
    members: Seq<GroupS>) -> Option<Seq<(GroupPathV, KindGV)>>
    decreases (if f { 1int } else { 0int }), 1int, members,
{
    if members.len() == 0 {
        Some(Seq::empty())
    } else {
        match (union_paths(f, co, rm, lm, members.drop_last()), group_paths(f, co, rm, lm, members.last())) {
            (Some(a), Some(b)) => Some(a + b),
            _ => None,
        }
    }
}

/// The step down into the elements of an array of kind `k`: `InlineElements` for an inline
/// (static-sized) array, `ChildElements` for a runtime-sized one.
pub open spec fn elements_step_of(k: KindGV) -> GroupChildStepG {
    if k is StaticSizedArray { GroupChildStepG::InlineElements {} } else { GroupChildStepG::ChildElements {} }
}

/// The elements group `a[]` of a group `a` has one path per path of `a`, each the same path one step
/// further down: into the inline elements when that path holds an inline (static-sized) array, into
/// the child elements when it holds a runtime-sized array; and each holds the array's element kind.
pub proof fn law_elements_group_steps_into_elements(f: bool, co: CompilerOutputs, rm: Map<IRuneS, TemplataGV>,
    lm: Seq<(IVarNameT, KindGV)>, base: GroupS)
    requires group_paths(f, co, rm, lm, GroupS::Elements { base: Box::new(base) }) is Some,
    ensures
        group_paths(f, co, rm, lm, base) is Some,
        ({
            let bs = group_paths(f, co, rm, lm, base)->0;
            let out = group_paths(f, co, rm, lm, GroupS::Elements { base: Box::new(base) })->0;
            &&& out.len() == bs.len()
            &&& forall|i: int| 0 <= i < bs.len() ==> {
                &&& (bs[i].1 is StaticSizedArray || bs[i].1 is RuntimeSizedArray)
                &&& (#[trigger] out[i]).0.root == bs[i].0.root
                &&& out[i].0.ellipsis == bs[i].0.ellipsis
                &&& out[i].0.steps == bs[i].0.steps.push(elements_step_of(bs[i].1))
                &&& (bs[i].1 is StaticSizedArray ==> out[i].0.steps.last() == (GroupChildStepG::InlineElements {}))
                &&& (bs[i].1 is RuntimeSizedArray ==> out[i].0.steps.last() == (GroupChildStepG::ChildElements {}))
                &&& out[i].1 == (match bs[i].1 { KindGV::StaticSizedArray(e) => *e, KindGV::RuntimeSizedArray(e) => *e, other => other })
            }
        }),
{
    let bs = group_paths(f, co, rm, lm, base)->0;
    lemma_element_paths_step(bs);
}

proof fn lemma_element_paths_step(bs: Seq<(GroupPathV, KindGV)>)
    requires element_paths(bs) is Some,
    ensures ({
        let out = element_paths(bs)->0;
        &&& out.len() == bs.len()
        &&& forall|i: int| 0 <= i < bs.len() ==> {
            &&& (bs[i].1 is StaticSizedArray || bs[i].1 is RuntimeSizedArray)
            &&& (#[trigger] out[i]).0.root == bs[i].0.root
            &&& out[i].0.ellipsis == bs[i].0.ellipsis
            &&& out[i].0.steps == bs[i].0.steps.push(elements_step_of(bs[i].1))
            &&& (bs[i].1 is StaticSizedArray ==> out[i].0.steps.last() == (GroupChildStepG::InlineElements {}))
            &&& (bs[i].1 is RuntimeSizedArray ==> out[i].0.steps.last() == (GroupChildStepG::ChildElements {}))
            &&& out[i].1 == (match bs[i].1 { KindGV::StaticSizedArray(e) => *e, KindGV::RuntimeSizedArray(e) => *e, other => other })
        }
    }),
    decreases bs.len(),
{
    if bs.len() > 0 {
        lemma_element_paths_step(bs.drop_last());
        let out = element_paths(bs)->0;
        let prev = element_paths(bs.drop_last())->0;
        assert forall|i: int| 0 <= i < bs.len() implies {
            &&& (bs[i].1 is StaticSizedArray || bs[i].1 is RuntimeSizedArray)
            &&& (#[trigger] out[i]).0.root == bs[i].0.root
            &&& out[i].0.ellipsis == bs[i].0.ellipsis
            &&& out[i].0.steps == bs[i].0.steps.push(elements_step_of(bs[i].1))
            &&& (bs[i].1 is StaticSizedArray ==> out[i].0.steps.last() == (GroupChildStepG::InlineElements {}))
            &&& (bs[i].1 is RuntimeSizedArray ==> out[i].0.steps.last() == (GroupChildStepG::ChildElements {}))
            &&& out[i].1 == (match bs[i].1 { KindGV::StaticSizedArray(e) => *e, KindGV::RuntimeSizedArray(e) => *e, other => other })
        } by {
            if i < bs.len() - 1 {
                assert(out[i] == prev[i]);
                assert(bs[i] == bs.drop_last()[i]);
            }
        }
    }
}

/// Each path one step down into an array's elements: an inline array's `InlineElements`, a
/// runtime-sized array's `ChildElements`; any other kind has no elements.
pub open spec fn element_paths(bs: Seq<(GroupPathV, KindGV)>) -> Option<Seq<(GroupPathV, KindGV)>>
    decreases bs.len(),
{
    if bs.len() == 0 {
        Some(Seq::empty())
    } else {
        let (p, k) = bs.last();
        let last = match k {
            KindGV::StaticSizedArray(e) => Some((with_step(p, GroupChildStepG::InlineElements {}), *e)),
            KindGV::RuntimeSizedArray(e) => Some((with_step(p, GroupChildStepG::ChildElements {}), *e)),
            _ => None,
        };
        match (element_paths(bs.drop_last()), last) {
            (Some(a), Some(x)) => Some(a.push(x)),
            _ => None,
        }
    }
}

/// Each path one step down into a struct member: the member's kind as the struct declares it,
/// read under the struct's template arguments.
pub open spec fn member_paths(co: CompilerOutputs, bs: Seq<(GroupPathV, KindGV)>, member_name: StrI) -> Option<Seq<(GroupPathV, KindGV)>>
    decreases 1int, 0int, bs,
{
    if bs.len() == 0 {
        Some(Seq::empty())
    } else {
        let (p, k) = bs.last();
        let last = match struct_members(co, k) {
            Some(ms) => match last_named(ms, member_name) {
                Some(j) => Some((with_step(p, GroupChildStepG::Member { member_name }), ms[j].1)),
                None => None,
            },
            None => None,
        };
        match (member_paths(co, bs.drop_last(), member_name), last) {
            (Some(a), Some(x)) => Some(a.push(x)),
            _ => None,
        }
    }
}

/// The position of the last member named `name`, if any (a later member of the same name replaces
/// an earlier one).
pub open spec fn last_named(ms: Seq<(StrI, KindGV)>, name: StrI) -> Option<int>
    decreases ms.len(),
{
    if ms.len() == 0 {
        None
    } else if ms.last().0 == name {
        Some(ms.len() - 1)
    } else {
        last_named(ms.drop_last(), name)
    }
}

/// A struct kind's members, each with its grouped kind under the struct's template arguments:
/// `None` for a kind that is no struct, a template the outputs hold no struct for, a template
/// argument count that does not match the struct's generic parameters, or a member with no
/// grouped kind.
pub open spec fn struct_members(co: CompilerOutputs, k: KindGV) -> Option<Seq<(StrI, KindGV)>>
    decreases 0int, 4int, k,
{
    match k {
        KindGV::Struct { id, template, args } => match struct_template_in(co.struct_templates@, template) {
            Some(ti) => {
                let st = co.struct_templates@[ti];
                if st.generic_params@.len() == args.len() {
                    members_grouped(co, bind_params(st.generic_params@, args), st.members@)
                } else {
                    None
                }
            },
            None => None,
        },
        _ => None,
    }
}

/// Struct members' grouped kinds, read under the struct's rune map with no locals.
pub open spec fn members_grouped(co: CompilerOutputs, rm: Map<IRuneS, TemplataGV>, ms: Seq<StructMemberT>) -> Option<Seq<(StrI, KindGV)>>
    decreases 0int, 3int, ms,
{
    if ms.len() == 0 {
        Some(Seq::empty())
    } else {
        let m = ms.last();
        match (members_grouped(co, rm, ms.drop_last()), grouped_kind(false, co, rm, Seq::empty(), m.tyype, Some(m.written), None)) {
            (Some(a), Some(k)) => Some(a.push((m.name, k))),
            _ => None,
        }
    }
}

/// A rune's key code in a rune map.
pub open spec fn rune_code(r: IRuneS) -> (u32, u32) {
    match r {
        IRuneS::CodeRune(s) => (0u32, s.0),
        IRuneS::ImplicitRune(n) => (1u32, n),
    }
}

/// A rune's key code in a rune map.
pub fn encode_rune(r: IRuneS) -> (c: (u32, u32))
    ensures c == rune_code(r),
{
    match r {
        IRuneS::CodeRune(s) => (0, s.0),
        IRuneS::ImplicitRune(n) => (1, n),
    }
}

/// A variable's key code in a local map.
pub open spec fn var_code(v: IVarNameT) -> (u32, u32) {
    match v {
        IVarNameT::Local(s) => (0u32, s.0),
        IVarNameT::Member(s) => (1u32, s.0),
        IVarNameT::TypingPassTemporaryVarName(n) => (2u32, n),
        IVarNameT::TypingPassBlockResultVarName(n) => (3u32, n),
        IVarNameT::ClosureParamName => (4u32, 0u32),
        IVarNameT::SelfName => (5u32, 0u32),
    }
}

/// The variable a local map's key code stands for.
pub open spec fn code_var(c: (u32, u32)) -> IVarNameT {
    if c.0 == 0 {
        IVarNameT::Local(StrI(c.1))
    } else if c.0 == 1 {
        IVarNameT::Member(StrI(c.1))
    } else if c.0 == 2 {
        IVarNameT::TypingPassTemporaryVarName(c.1)
    } else if c.0 == 3 {
        IVarNameT::TypingPassBlockResultVarName(c.1)
    } else if c.0 == 4 {
        IVarNameT::ClosureParamName
    } else {
        IVarNameT::SelfName
    }
}

/// A variable's key code in a local map.
pub fn encode_var(v: IVarNameT) -> (c: (u32, u32))
    ensures c == var_code(v), code_var(c) == v,
{
    match v {
        IVarNameT::Local(s) => (0, s.0),
        IVarNameT::Member(s) => (1, s.0),
        IVarNameT::TypingPassTemporaryVarName(n) => (2, n),
        IVarNameT::TypingPassBlockResultVarName(n) => (3, n),
        IVarNameT::ClosureParamName => (4, 0),
        IVarNameT::SelfName => (5, 0),
    }
}

/// The variable a local map's key code stands for.
pub fn decode_var(c: (u32, u32)) -> (v: IVarNameT)
    ensures v == code_var(c),
{
    if c.0 == 0 {
        IVarNameT::Local(StrI(c.1))
    } else if c.0 == 1 {
        IVarNameT::Member(StrI(c.1))
    } else if c.0 == 2 {
        IVarNameT::TypingPassTemporaryVarName(c.1)
    } else if c.0 == 3 {
        IVarNameT::TypingPassBlockResultVarName(c.1)
    } else if c.0 == 4 {
        IVarNameT::ClosureParamName
    } else {
        IVarNameT::SelfName
    }
}

/// A member name's key code in a member map.
pub open spec fn name_code(s: StrI) -> (u32, u32) {
    (0u32, s.0)
}

/// The rune bindings a rune map holds.
pub open spec fn runes_v(m: KeyedMap<ITemplataG>) -> Map<IRuneS, TemplataGV> {
    Map::new(|r: IRuneS| m.at(rune_code(r)) is Some, |r: IRuneS| templata_v(m.at(rune_code(r))->0))
}

/// The locals a local map holds, in order, each with its grouped kind.
pub open spec fn locals_v(m: KeyedMap<KindGT>) -> Seq<(IVarNameT, KindGV)> {
    m.entries().map_values(|e: ((u32, u32), KindGT)| (code_var(e.0), kind_v(e.1)))
}

/// The grouped kind a member map holds for a member name, if any.
pub open spec fn member_v(m: KeyedMap<KindGT>, name: StrI) -> Option<KindGV> {
    match m.at(name_code(name)) {
        Some(k) => Some(kind_v(k)),
        None => None,
    }
}

/// The kind of the last member named `name`, if any.
pub open spec fn member_of(ms: Seq<(StrI, KindGV)>, name: StrI) -> Option<KindGV> {
    match last_named(ms, name) {
        Some(j) => Some(ms[j].1),
        None => None,
    }
}

/// The values of a list of paths each paired with a kind.
pub open spec fn pairs_v(s: Seq<(GroupPathG, KindGT)>) -> Seq<(GroupPathV, KindGV)> {
    s.map_values(|x: (GroupPathG, KindGT)| (x.0@, kind_v(x.1)))
}

/// A grouped kind as the pass builds it: no template argument anywhere in it is a group (a group
/// argument has no grouped form).
pub open spec fn kind_valid(k: KindGV) -> bool
    decreases k,
{
    match k {
        KindGV::BorrowRef { group, inner } => kind_valid(*inner),
        KindGV::Struct { id, template, args } => args_valid(args),
        KindGV::Interface { id, template, args } => args_valid(args),
        KindGV::StaticSizedArray(e) => kind_valid(*e),
        KindGV::RuntimeSizedArray(e) => kind_valid(*e),
        KindGV::OwnRef(e) => kind_valid(*e),
        KindGV::ShareRef(e) => kind_valid(*e),
        KindGV::WeakRef(e) => kind_valid(*e),
        _ => true,
    }
}

/// Template arguments as the pass builds them: none is a group, and each kind is valid.
pub open spec fn args_valid(args: Seq<TemplataGV>) -> bool
    decreases args,
{
    if args.len() == 0 {
        true
    } else {
        args_valid(args.subrange(0, args.len() - 1)) && match args[args.len() - 1] {
            TemplataGV::Kind(k) => kind_valid(k),
            TemplataGV::Group { group, kind } => false,
            _ => true,
        }
    }
}

/// Every kind a rune map binds is valid.
pub open spec fn runes_valid(rm: Map<IRuneS, TemplataGV>) -> bool {
    forall|r: IRuneS| #[trigger] rm.contains_key(r) ==> match rm[r] {
        TemplataGV::Kind(k) => kind_valid(k),
        TemplataGV::Group { group, kind } => kind_valid(kind),
        _ => true,
    }
}

/// Every local's kind is valid.
pub open spec fn locals_valid(lm: Seq<(IVarNameT, KindGV)>) -> bool {
    forall|i: int| 0 <= i < lm.len() ==> kind_valid(#[trigger] lm[i].1)
}

/// Valid arguments are valid one by one.
pub proof fn lemma_args_valid(args: Seq<TemplataGV>)
    ensures
        args_valid(args) <==> forall|i: int| 0 <= i < args.len() ==> match #[trigger] args[i] {
            TemplataGV::Kind(k) => kind_valid(k),
            TemplataGV::Group { group, kind } => false,
            _ => true,
        },
    decreases args.len(),
{
    if args.len() > 0 {
        let pre = args.subrange(0, args.len() - 1);
        lemma_args_valid(pre);
        assert forall|i: int| 0 <= i < args.len() - 1 implies pre[i] == args[i] by {}
    }
}

/// A struct's rune map binds only its template arguments.
pub proof fn lemma_bind_params(params: Seq<IRuneS>, args: Seq<TemplataGV>, r: IRuneS)
    requires params.len() <= args.len(), bind_params(params, args).contains_key(r),
    ensures exists|i: int| 0 <= i < args.len() && bind_params(params, args)[r] == #[trigger] args[i],
    decreases params.len(),
{
    let pre = params.drop_last();
    if params.last() == r {
        assert(bind_params(params, args)[r] == args[params.len() - 1]);
    } else {
        lemma_bind_params(pre, args, r);
    }
}

/// A struct's rune map built from valid arguments binds no group and only valid kinds.
pub proof fn lemma_struct_runes(params: Seq<IRuneS>, args: Seq<TemplataGV>)
    requires params.len() == args.len(), args_valid(args),
    ensures
        !resolves(bind_params(params, args), Seq::empty()),
        runes_valid(bind_params(params, args)),
{
    let m = bind_params(params, args);
    lemma_args_valid(args);
    assert forall|r: IRuneS| #[trigger] m.contains_key(r) implies !(m[r] is Group) && match m[r] {
        TemplataGV::Kind(k) => kind_valid(k),
        TemplataGV::Group { group, kind } => kind_valid(kind),
        _ => true,
    } by {
        lemma_bind_params(params, args, r);
    }
}

/// With no group binding and no locals, a group that resolves names no path.
pub proof fn lemma_unresolved_paths(co: CompilerOutputs, rm: Map<IRuneS, TemplataGV>, lm: Seq<(IVarNameT, KindGV)>, g: GroupS)
    requires !resolves(rm, lm), group_paths(false, co, rm, lm, g) is Some,
    ensures group_paths(false, co, rm, lm, g)->0.len() == 0,
    decreases g,
{
    match g {
        GroupS::Rune(r) => {
            assert(!(rm.contains_key(r) && rm[r] is Group));
        },
        GroupS::Local(name) => {},
        GroupS::Member { base, member_name } => {},
        GroupS::Elements { base } => {
            lemma_unresolved_paths(co, rm, lm, *base);
        },
        GroupS::Ellipsis { base } => {
            lemma_unresolved_paths(co, rm, lm, *base);
        },
        GroupS::Union { members } => {
            assert(decreases_to!(members => members@));
            lemma_unresolved_union(co, rm, lm, members@);
        },
    }
}

/// With no group binding and no locals, a union that resolves names no path.
pub proof fn lemma_unresolved_union(co: CompilerOutputs, rm: Map<IRuneS, TemplataGV>, lm: Seq<(IVarNameT, KindGV)>, members: Seq<GroupS>)
    requires !resolves(rm, lm), union_paths(false, co, rm, lm, members) is Some,
    ensures union_paths(false, co, rm, lm, members)->0.len() == 0,
    decreases members,
{
    if members.len() > 0 {
        lemma_unresolved_union(co, rm, lm, members.drop_last());
        lemma_unresolved_paths(co, rm, lm, members.last());
    }
}

/// `local_named` finds the first local written as `name`.
pub proof fn lemma_local_named(lm: Seq<(IVarNameT, KindGV)>, name: StrI)
    ensures
        match local_named(lm, name) {
            Some(i) => 0 <= i < lm.len() && imprecise_name(lm[i].0) == Some(name)
                && forall|j: int| 0 <= j < i ==> imprecise_name(#[trigger] lm[j].0) != Some(name),
            None => forall|j: int| 0 <= j < lm.len() ==> imprecise_name(#[trigger] lm[j].0) != Some(name),
        },
    decreases lm.len(),
{
    if lm.len() > 0 && imprecise_name(lm[0].0) != Some(name) {
        let rest = lm.drop_first();
        lemma_local_named(rest, name);
        assert forall|j: int| 1 <= j < lm.len() implies lm[j] == #[trigger] rest[j - 1] by {}
        match local_named(rest, name) {
            Some(i) => {
                assert forall|j: int| 0 <= j < i + 1 implies imprecise_name(#[trigger] lm[j].0) != Some(name) by {
                    if j > 0 { assert(lm[j] == rest[j - 1]); }
                }
            },
            None => {
                assert forall|j: int| 0 <= j < lm.len() implies imprecise_name(#[trigger] lm[j].0) != Some(name) by {
                    if j > 0 { assert(lm[j] == rest[j - 1]); }
                }
            },
        }
    }
}

/// A resolved member step resolves on every prefix.
pub proof fn lemma_member_paths_prefix(co: CompilerOutputs, bs: Seq<(GroupPathV, KindGV)>, name: StrI, i: int)
    requires member_paths(co, bs, name) is Some, 0 <= i <= bs.len(),
    ensures member_paths(co, bs.subrange(0, i), name) is Some,
    decreases bs.len(),
{
    if i == bs.len() {
        assert(bs.subrange(0, i) =~= bs);
    } else {
        lemma_member_paths_prefix(co, bs.drop_last(), name, i);
        assert(bs.drop_last().subrange(0, i) =~= bs.subrange(0, i));
    }
}

/// A resolved elements step resolves on every prefix.
pub proof fn lemma_element_paths_prefix(bs: Seq<(GroupPathV, KindGV)>, i: int)
    requires element_paths(bs) is Some, 0 <= i <= bs.len(),
    ensures element_paths(bs.subrange(0, i)) is Some,
    decreases bs.len(),
{
    if i == bs.len() {
        assert(bs.subrange(0, i) =~= bs);
    } else {
        lemma_element_paths_prefix(bs.drop_last(), i);
        assert(bs.drop_last().subrange(0, i) =~= bs.subrange(0, i));
    }
}

/// A resolved union resolves on every prefix of its members.
pub proof fn lemma_union_paths_prefix(f: bool, co: CompilerOutputs, rm: Map<IRuneS, TemplataGV>, lm: Seq<(IVarNameT, KindGV)>,
    members: Seq<GroupS>, i: int)
    requires union_paths(f, co, rm, lm, members) is Some, 0 <= i <= members.len(),
    ensures union_paths(f, co, rm, lm, members.subrange(0, i)) is Some,
    decreases members.len(),
{
    if i == members.len() {
        assert(members.subrange(0, i) =~= members);
    } else {
        lemma_union_paths_prefix(f, co, rm, lm, members.drop_last(), i);
        assert(members.drop_last().subrange(0, i) =~= members.subrange(0, i));
    }
}

/// Grouped members resolve on every prefix.
pub proof fn lemma_members_grouped_prefix(co: CompilerOutputs, rm: Map<IRuneS, TemplataGV>, ms: Seq<StructMemberT>, i: int)
    requires members_grouped(co, rm, ms) is Some, 0 <= i <= ms.len(),
    ensures members_grouped(co, rm, ms.subrange(0, i)) is Some,
    decreases ms.len(),
{
    if i == ms.len() {
        assert(ms.subrange(0, i) =~= ms);
    } else {
        lemma_members_grouped_prefix(co, rm, ms.drop_last(), i);
        assert(ms.drop_last().subrange(0, i) =~= ms.subrange(0, i));
    }
}

/// Without written arguments, the position does not matter.
pub proof fn lemma_args_any_position(f: bool, co: CompilerOutputs, rm: Map<IRuneS, TemplataGV>, lm: Seq<(IVarNameT, KindGV)>,
    args: TemplateArgsT, i: int, j: int, n: Option<IVarNameT>)
    ensures grouped_args(f, co, rm, lm, args, None, i, n) == grouped_args(f, co, rm, lm, args, None, j, n),
    decreases args,
{
    match args {
        TemplateArgsT::Nil => {},
        TemplateArgsT::Cons(head, tail) => {
            lemma_args_any_position(f, co, rm, lm, *tail, i + 1, j + 1, n);
        },
    }
}

/// The struct a grouped citizen stands for.
pub open spec fn citizen_v(c: crate::borrow_checker::kind_g::CitizenGT) -> KindGV {
    KindGV::Struct { id: c.id, template: c.template, args: crate::borrow_checker::kind_g::templatas_v(c.template_args@) }
}

/// Pairing values distributes over a push.
pub proof fn lemma_pairs_push(s: Seq<(GroupPathG, KindGT)>, x: (GroupPathG, KindGT))
    ensures pairs_v(s.push(x)) == pairs_v(s).push((x.0@, kind_v(x.1))),
{
    assert(pairs_v(s.push(x)) =~= pairs_v(s).push((x.0@, kind_v(x.1))));
}

/// `last_named` finds a position in range.
pub proof fn lemma_last_named(ms: Seq<(StrI, KindGV)>, name: StrI)
    ensures last_named(ms, name) matches Some(j) ==> 0 <= j < ms.len() && ms[j].0 == name,
    decreases ms.len(),
{
    if ms.len() > 0 && ms.last().0 != name {
        lemma_last_named(ms.drop_last(), name);
    }
}

/// The rune map after registering the group runes a parameter's written type `ts` names, walked
/// against its typed kind `kt`: a bare `in g` on a borrow whose rune is not yet bound binds it to a
/// group of its own whose referent is that borrow's (nested runes first, so the referent's own
/// groups resolve); a rune already bound to something other than a group has no answer.
pub open spec fn registered(co: CompilerOutputs, rm: Map<IRuneS, TemplataGV>, n: Option<IVarNameT>, ts: ITypeST, kt: KindT)
    -> Option<Map<IRuneS, TemplataGV>>
    decreases kt, 1int,
{
    match (ts, kt) {
        (ITypeST::BorrowRef(bst), KindT::BorrowRef(b)) => match registered(co, rm, n, *bst.inner, *b.inner) {
            None => None,
            Some(m) => match bst.region {
                RegionS::Group(GroupS::Rune(rune)) => if m.contains_key(rune) {
                    if m[rune] is Group { Some(m) } else { None }
                } else {
                    match grouped_kind(resolves(m, Seq::empty()), co, m, Seq::empty(), *b.inner, Some(*bst.inner), n) {
                        Some(k) => Some(m.insert(rune, TemplataGV::Group {
                            group: seq![GroupPathV { root: GroupRootG::Rune(rune), steps: Seq::empty(), ellipsis: false }],
                            kind: k,
                        })),
                        None => None,
                    }
                },
                _ => Some(m),
            },
        },
        (ITypeST::RuntimeSizedArray { element }, KindT::RuntimeSizedArray(a)) => registered(co, rm, n, *element, *a.element_type),
        (ITypeST::Call { template, args }, KindT::StaticSizedArray(a)) =>
            if args@.len() == 2 { registered(co, rm, n, args@[1], *a.element_type) } else { Some(rm) },
        (ITypeST::Call { template, args }, KindT::Struct(s)) =>
            if args@.len() == args_len(s.template_args) { registered_args(co, rm, n, args@, s.template_args, 0) } else { Some(rm) },
        (ITypeST::Call { template, args }, KindT::Interface(i)) =>
            if args@.len() == args_len(i.template_args) { registered_args(co, rm, n, args@, i.template_args, 0) } else { Some(rm) },
        (ITypeST::OwnRef { inner }, KindT::OwnRef(b)) => registered(co, rm, n, *inner, *b.inner),
        (ITypeST::WeakRef { inner }, KindT::WeakRef(b)) => registered(co, rm, n, *inner, *b.inner),
        (_, KindT::ShareRef(b)) => registered(co, rm, n, ts, *b.inner),
        _ => Some(rm),
    }
}

/// The rune map after registering a citizen's written arguments from position `i` on against its
/// kind arguments.
pub open spec fn registered_args(co: CompilerOutputs, rm: Map<IRuneS, TemplataGV>, n: Option<IVarNameT>, ws: Seq<ITypeST>,
    args: TemplateArgsT, i: int) -> Option<Map<IRuneS, TemplataGV>>
    decreases args, 0int,
{
    match args {
        TemplateArgsT::Nil => Some(rm),
        TemplateArgsT::Cons(head, tail) => {
            let m = match *head {
                ITemplataT::Kind(k) => if 0 <= i < ws.len() { registered(co, rm, n, ws[i], k) } else { None },
                _ => Some(rm),
            };
            match m {
                Some(m2) => registered_args(co, m2, n, ws, *tail, i + 1),
                None => None,
            }
        },
    }
}

/// The rune map after binding one generic parameter to the function's template argument: a
/// placeholder stands for itself, a kind placeholder for itself as a kind; a group argument, or a
/// borrow argument (whose group only its parameter knows), binds nothing; any other argument
/// stands for its grouped form.
pub open spec fn generic_bound(co: CompilerOutputs, rm: Map<IRuneS, TemplataGV>, rune: IRuneS, t: ITemplataT) -> Option<Map<IRuneS, TemplataGV>> {
    match t {
        ITemplataT::Placeholder(p) => Some(rm.insert(rune, TemplataGV::Placeholder(p))),
        ITemplataT::Kind(KindT::KindPlaceholder(kp)) => Some(rm.insert(rune, TemplataGV::Kind(KindGV::KindPlaceholder(kp.id)))),
        ITemplataT::Group => Some(rm),
        ITemplataT::Kind(KindT::BorrowRef(_)) => Some(rm),
        _ => match grouped_templata(resolves(rm, Seq::empty()), co, rm, Seq::empty(), t) {
            Some(tv) => Some(rm.insert(rune, tv)),
            None => None,
        },
    }
}

/// The rune map after binding the generic parameters from position `i` on, each to the template
/// argument at its position (as far as both go).
pub open spec fn generics_bound(co: CompilerOutputs, rm: Map<IRuneS, TemplataGV>, runes: Seq<IRuneS>, args: TemplateArgsT, i: int)
    -> Option<Map<IRuneS, TemplataGV>>
    decreases args,
{
    match args {
        TemplateArgsT::Nil => Some(rm),
        TemplateArgsT::Cons(head, tail) => if 0 <= i < runes.len() {
            match generic_bound(co, rm, runes[i], *head) {
                Some(m) => generics_bound(co, m, runes, *tail, i + 1),
                None => None,
            }
        } else {
            Some(rm)
        },
    }
}

/// The rune map after registering the group runes of the first `k` parameters, each written type
/// walked against its typed kind.
pub open spec fn params_registered(co: CompilerOutputs, rm: Map<IRuneS, TemplataGV>, written: Seq<crate::postparsing::ParameterS>,
    typed: Seq<crate::typing::ast::ParameterT>, k: int) -> Option<Map<IRuneS, TemplataGV>>
    decreases k,
{
    if k <= 0 {
        Some(rm)
    } else {
        match params_registered(co, rm, written, typed, k - 1) {
            Some(m) => registered(co, m, Some(typed[k - 1].name), written[k - 1].tyype, typed[k - 1].tyype),
            None => None,
        }
    }
}

/// A function's own rune map: each generic parameter bound to its template argument, then each
/// group rune its parameters' written types name registered.
pub open spec fn function_rune_map(co: CompilerOutputs, f: crate::postparsing::FunctionS, h: crate::typing::ast::FunctionHeaderT)
    -> Option<Map<IRuneS, TemplataGV>>
{
    match generics_bound(co, Map::empty(), f.generic_params@, h.template_args, 0) {
        Some(m) => params_registered(co, m, f.params@, h.params@,
            if f.params@.len() <= h.params@.len() { f.params@.len() as int } else { h.params@.len() as int }),
        None => None,
    }
}

/// What a parameter's group path is: `Some(None)` for a non-borrow or a `held` borrow,
/// `Some(Some(path))` for a borrow with a single group, and `None` where the pass has no answer.
pub open spec fn param_group_path(co: CompilerOutputs, rm: Map<IRuneS, TemplataGV>, ps: crate::postparsing::ParameterS,
    pt: crate::typing::ast::ParameterT) -> Option<Option<Seq<crate::borrow_checker::ast_g::GroupStep>>>
{
    match ps.tyype {
        ITypeST::BorrowRef(st) => if st.region is Held {
            Some(None)
        } else {
            match grouped_kind(resolves(rm, Seq::empty()), co, rm, Seq::empty(), pt.tyype, Some(ps.tyype), Some(pt.name)) {
                Some(KindGV::BorrowRef { group, inner }) => if group.len() == 1 {
                    Some(Some(crate::borrow_checker::experimental::grouped_ast::flat(group[0])))
                } else {
                    None
                },
                Some(_) => Some(None),
                None => None,
            }
        },
        _ => Some(None),
    }
}

/// The number of parameters the written and typed headers share.
pub open spec fn shared_params(f: crate::postparsing::FunctionS, h: crate::typing::ast::FunctionHeaderT) -> int {
    if f.params@.len() <= h.params@.len() { f.params@.len() as int } else { h.params@.len() as int }
}

/// The pass has an answer for every parameter's group path.
pub open spec fn param_paths_defined(co: CompilerOutputs, f: crate::postparsing::FunctionS, h: crate::typing::ast::FunctionHeaderT) -> bool {
    &&& function_rune_map(co, f, h) is Some
    &&& forall|i: int| 0 <= i < shared_params(f, h)
            ==> (#[trigger] param_group_path(co, function_rune_map(co, f, h)->0, f.params@[i], h.params@[i])) is Some
}

/// Parameter `i`'s group path.
pub open spec fn param_path_at(co: CompilerOutputs, f: crate::postparsing::FunctionS, h: crate::typing::ast::FunctionHeaderT, i: int)
    -> Option<Seq<crate::borrow_checker::ast_g::GroupStep>>
{
    param_group_path(co, function_rune_map(co, f, h)->0, f.params@[i], h.params@[i])->0
}

/// Registering resolves on every prefix of the parameters.
pub proof fn lemma_params_registered_prefix(co: CompilerOutputs, rm: Map<IRuneS, TemplataGV>, written: Seq<crate::postparsing::ParameterS>,
    typed: Seq<crate::typing::ast::ParameterT>, k: int, j: int)
    requires params_registered(co, rm, written, typed, k) is Some, 0 <= j <= k,
    ensures params_registered(co, rm, written, typed, j) is Some,
    decreases k,
{
    if j < k {
        lemma_params_registered_prefix(co, rm, written, typed, k - 1, j);
    }
}

/// The rune map after matching a callee's written type `ts` against what the caller hands it
/// (`tg`): a rune binds to the argument; a borrow `&T in g` matches its referent and binds `g` to
/// the argument's group; a template call matches its template and each argument against the
/// citizen's; a runtime-sized array matches its element. `None` where matching has no answer
/// (a written borrow or array met by something else, a citizen whose template the outputs do not
/// hold as that sort of citizen, a primitive called with arguments).
pub open spec fn matched(co: CompilerOutputs, ts: ITypeST, tg: TemplataGV, m: Map<IRuneS, TemplataGV>) -> Option<Map<IRuneS, TemplataGV>>
    decreases ts, 1int, 0int,
{
    match ts {
        ITypeST::BorrowRef(bst) => match tg {
            TemplataGV::Kind(KindGV::BorrowRef { group, inner }) => match matched(co, *bst.inner, TemplataGV::Kind(*inner), m) {
                Some(m1) => match bst.region {
                    RegionS::Group(GroupS::Rune(rune)) => Some(m1.insert(rune, TemplataGV::Group { group, kind: *inner })),
                    _ => Some(m1),
                },
                None => None,
            },
            _ => None,
        },
        ITypeST::Rune(rune) => Some(m.insert(rune, tg)),
        ITypeST::Call { template, args } => match tg {
            TemplataGV::Kind(KindGV::Struct { id, template: t, args: gargs }) => if crate::typing::compiler::citizen_denizen(co, t) == Some(true) {
                match matched(co, *template, TemplataGV::StructDefinition(t), m) {
                    Some(m1) => {
                        proof { assert(decreases_to!(args => args@)); }
                        matched_args(co, args@, gargs, m1, 0)
                    },
                    None => None,
                }
            } else {
                None
            },
            TemplataGV::Kind(KindGV::Interface { id, template: t, args: gargs }) => if crate::typing::compiler::citizen_denizen(co, t) == Some(false) {
                match matched(co, *template, TemplataGV::InterfaceDefinition(t), m) {
                    Some(m1) => {
                        proof { assert(decreases_to!(args => args@)); }
                        matched_args(co, args@, gargs, m1, 0)
                    },
                    None => None,
                }
            } else {
                None
            },
            TemplataGV::Kind(KindGV::Int) | TemplataGV::Kind(KindGV::Bool) | TemplataGV::Kind(KindGV::Float)
            | TemplataGV::Kind(KindGV::Str) | TemplataGV::Kind(KindGV::Void) | TemplataGV::Kind(KindGV::USize)
            | TemplataGV::Kind(KindGV::Never) => if args@.len() == 0 { Some(m) } else { None },
            _ => Some(m),
        },
        ITypeST::RuntimeSizedArray { element } => match tg {
            TemplataGV::Kind(KindGV::RuntimeSizedArray(e)) => matched(co, *element, TemplataGV::Kind(*e), m),
            _ => None,
        },
        _ => Some(m),
    }
}

/// The rune map after matching written arguments from position `i` on against a citizen's grouped
/// arguments, pairwise as far as both go.
pub open spec fn matched_args(co: CompilerOutputs, ws: Seq<ITypeST>, gs: Seq<TemplataGV>, m: Map<IRuneS, TemplataGV>, i: int)
    -> Option<Map<IRuneS, TemplataGV>>
    decreases ws, 0int, ws.len() - i,
{
    if 0 <= i < ws.len() && i < gs.len() {
        match matched(co, ws[i], gs[i], m) {
            Some(m1) => matched_args(co, ws, gs, m1, i + 1),
            None => None,
        }
    } else {
        Some(m)
    }
}

/// A callee's rune map at a call: each parameter's written type matched, in order, against the
/// grouped kind of the argument at its position.
pub open spec fn callee_runes(co: CompilerOutputs, params: Seq<crate::postparsing::ParameterS>, arg_kinds: Seq<KindGV>, k: int)
    -> Option<Map<IRuneS, TemplataGV>>
    decreases k,
{
    if k <= 0 {
        Some(Map::empty())
    } else {
        match callee_runes(co, params, arg_kinds, k - 1) {
            Some(m) => matched(co, params[k - 1].tyype, TemplataGV::Kind(arg_kinds[k - 1]), m),
            None => None,
        }
    }
}

/// Matching the callee's parameters resolves on every prefix.
pub proof fn lemma_callee_runes_prefix(co: CompilerOutputs, params: Seq<crate::postparsing::ParameterS>, arg_kinds: Seq<KindGV>, k: int, j: int)
    requires callee_runes(co, params, arg_kinds, k) is Some, 0 <= j <= k,
    ensures callee_runes(co, params, arg_kinds, j) is Some,
    decreases k,
{
    if j < k {
        lemma_callee_runes_prefix(co, params, arg_kinds, k - 1, j);
    }
}

} // verus!
