//! What the walk needs beyond the grouped AST's nodes: the flat group-path helpers and their laws.

use vstd::prelude::*;
use crate::interner::StrI;
use crate::names::IRuneS;
use crate::borrow_checker::ast_g::GroupStep;
use crate::borrow_checker::group_expr::{GroupChildStepG, GroupPathG, GroupPathV, GroupRootG, paths_view};
use crate::postparsing::{GroupS, ITypeST, ParameterS, RegionS};
use crate::names::IVarNameT;
use crate::range::RangeS;
use crate::borrow_checker::ast_g::{ExpressionGE, MutEffectPath, place_root, result_of, children_of, lemma_children_smaller};
use crate::borrow_checker::kind_g::KindGT;

verus! {

/// The flat step a group path's root becomes.
pub open spec fn root_step(r: GroupRootG) -> GroupStep {
    match r {
        GroupRootG::Rune(x) => GroupStep::Rune(x),
        GroupRootG::ParamAnonymousGroup(n) => GroupStep::ParamAnonymousGroup(n),
        GroupRootG::Local(n) => GroupStep::Local(n),
    }
}

/// The flat step a child step becomes.
pub open spec fn child_step(s: GroupChildStepG) -> GroupStep {
    match s {
        GroupChildStepG::Member { member_name } => GroupStep::Member { member_name },
        GroupChildStepG::ChildElements {} => GroupStep::ChildElements,
        GroupChildStepG::InlineElements {} => GroupStep::InlineElements,
        GroupChildStepG::Variant { variant_name } => GroupStep::Variant { variant_name },
    }
}

/// A group path flattened to its root-to-leaf steps (`...` is not a step).
pub open spec fn flat(p: GroupPathV) -> Seq<GroupStep> {
    seq![root_step(p.root)] + p.steps.map_values(|s: GroupChildStepG| child_step(s))
}

/// `a` is a prefix of `b` (or equal to it).
pub open spec fn is_prefix(a: Seq<GroupStep>, b: Seq<GroupStep>) -> bool {
    a.len() <= b.len() && b.subrange(0, a.len() as int) == a
}

/// Two flattened paths overlap: one is a prefix of the other.
pub open spec fn aliases(a: Seq<GroupStep>, b: Seq<GroupStep>) -> bool {
    is_prefix(a, b) || is_prefix(b, a)
}

/// Whether a churn of group `churned` spoils a reference into `mention`: a reference below the
/// churned group dies if the way down crosses a destructible child edge; one to the group itself or
/// to an inline member survives. An ellipsis reference dies to a churn at, above or below its group.
pub open spec fn churn_reaches(churned: Seq<GroupStep>, mention: GroupPathV) -> bool {
    let m = flat(mention);
    if mention.ellipsis {
        aliases(churned, m)
    } else {
        &&& churned.len() < m.len()
        &&& m.subrange(0, churned.len() as int) == churned
        &&& exists|i: int| churned.len() <= i < m.len() && m[i] == GroupStep::ChildElements
    }
}

/// A churn path rooted at one of the function's parameter groups.
pub open spec fn param_rooted(steps: Seq<GroupStep>) -> bool {
    steps.len() > 0 && (steps[0] is Rune || steps[0] is ParamAnonymousGroup)
}

/// Flatten one group path to its root-to-leaf step path.
pub fn flatten(path: &GroupPathG) -> (r: Vec<GroupStep>)
    ensures r@ == flat(path@),
{
    let mut v: Vec<GroupStep> = Vec::new();
    v.push(match path.root {
        GroupRootG::Rune(r) => GroupStep::Rune(r),
        GroupRootG::ParamAnonymousGroup(n) => GroupStep::ParamAnonymousGroup(n),
        GroupRootG::Local(n) => GroupStep::Local(n),
    });
    let mut i: usize = 0;
    while i < path.steps.len()
        invariant
            i <= path.steps@.len(),
            v@ == flat(path@).subrange(0, i + 1),
        decreases path.steps@.len() - i,
    {
        let step = match path.steps[i] {
            GroupChildStepG::Member { member_name } => GroupStep::Member { member_name },
            GroupChildStepG::ChildElements {} => GroupStep::ChildElements,
            GroupChildStepG::InlineElements {} => GroupStep::InlineElements,
            GroupChildStepG::Variant { variant_name } => GroupStep::Variant { variant_name },
        };
        v.push(step);
        proof {
            assert(flat(path@).subrange(0, i + 2) =~= flat(path@).subrange(0, i + 1).push(step));
        }
        i = i + 1;
    }
    assert(flat(path@).subrange(0, i + 1) =~= flat(path@));
    v
}

/// The one path of a non-union group (a union borrow has no single path).
pub fn sole_path(group: &Vec<GroupPathG>) -> (r: &GroupPathG)
    requires group@.len() == 1,
    ensures r@ == group@[0]@,
{
    &group[0]
}

/// Whether the first `n` steps of two paths agree.
fn same_prefix(a: &Vec<GroupStep>, b: &Vec<GroupStep>, n: usize) -> (r: bool)
    requires n <= a@.len(), n <= b@.len(),
    ensures r == (a@.subrange(0, n as int) == b@.subrange(0, n as int)),
{
    let mut i: usize = 0;
    while i < n
        invariant
            n <= a@.len(), n <= b@.len(), i <= n,
            forall|j: int| 0 <= j < i ==> a@[j] == b@[j],
        decreases n - i,
    {
        if a[i] != b[i] {
            assert(a@.subrange(0, n as int)[i as int] != b@.subrange(0, n as int)[i as int]);
            return false;
        }
        i = i + 1;
    }
    assert(a@.subrange(0, n as int) =~= b@.subrange(0, n as int));
    true
}

/// Whether two flattened group paths overlap: one is a prefix of the other, including equal.
pub fn paths_alias(a: &Vec<GroupStep>, b: &Vec<GroupStep>) -> (r: bool)
    ensures r == aliases(a@, b@),
{
    let n = if a.len() < b.len() { a.len() } else { b.len() };
    let r = same_prefix(a, b, n);
    proof {
        if a@.len() <= b@.len() {
            assert(a@.subrange(0, n as int) =~= a@);
            if !r {
                assert(!is_prefix(a@, b@));
                if is_prefix(b@, a@) {
                    assert(b@.len() == a@.len());
                    assert(a@.subrange(0, b@.len() as int) =~= a@);
                }
            }
        } else {
            assert(b@.subrange(0, n as int) =~= b@);
        }
    }
    r
}

/// Whether a declared `mut` path covers a churn: the declared path is a prefix of the churned one.
pub fn path_covers(declared: &Vec<GroupStep>, churn: &Vec<GroupStep>) -> (r: bool)
    ensures r == is_prefix(declared@, churn@),
{
    if declared.len() > churn.len() {
        return false;
    }
    let r = same_prefix(declared, churn, declared.len());
    assert(declared@.subrange(0, declared@.len() as int) =~= declared@);
    r
}

/// Whether a churn path is rooted at a parameter's group (so it needs a declared `mut`).
pub fn is_param_rooted(steps: &Vec<GroupStep>) -> (r: bool)
    ensures r == param_rooted(steps@),
{
    if steps.len() == 0 {
        return false;
    }
    match steps[0] {
        GroupStep::Rune(_) | GroupStep::ParamAnonymousGroup(_) => true,
        _ => false,
    }
}

/// Whether a churn of `churned` reaches a reference into `mention`.
pub fn reaches(churned: &Vec<GroupStep>, mention: &GroupPathG) -> (r: bool)
    ensures r == churn_reaches(churned@, mention@),
{
    let mentioned = flatten(mention);
    if mention.ellipsis {
        return paths_alias(churned, &mentioned);
    }
    if churned.len() >= mentioned.len() {
        return false;
    }
    if !same_prefix(churned, &mentioned, churned.len()) {
        assert(churned@.subrange(0, churned@.len() as int) =~= churned@);
        return false;
    }
    assert(churned@.subrange(0, churned@.len() as int) =~= churned@);
    let mut i: usize = churned.len();
    while i < mentioned.len()
        invariant
            churned@.len() <= i <= mentioned@.len(),
            churned@.len() < mentioned@.len(),
            mentioned@ == flat(mention@),
            !mention.ellipsis,
            mentioned@.subrange(0, churned@.len() as int) == churned@,
            forall|j: int| churned@.len() <= j < i ==> mentioned@[j] != GroupStep::ChildElements,
        decreases mentioned@.len() - i,
    {
        if mentioned[i] == GroupStep::ChildElements {
            assert(mentioned@[i as int] == GroupStep::ChildElements);
            return true;
        }
        i = i + 1;
    }
    false
}

/// The root rune of an effect's group.
pub fn effect_root_rune(gs: &GroupS) -> (r: Option<IRuneS>)
    ensures r == written_root_rune(*gs),
    decreases gs,
{
    match gs {
        GroupS::Rune(ru) => Some(*ru),
        GroupS::Member { base, .. } => effect_root_rune(base),
        GroupS::Elements { base } => effect_root_rune(base),
        GroupS::Ellipsis { base } => effect_root_rune(base),
        _ => None,
    }
}

/// The rune a written group is rooted at, if it is rooted at one.
pub open spec fn written_root_rune(gs: GroupS) -> Option<IRuneS>
    decreases gs,
{
    match gs {
        GroupS::Rune(ru) => Some(ru),
        GroupS::Member { base, .. } => written_root_rune(*base),
        GroupS::Elements { base } => written_root_rune(*base),
        GroupS::Ellipsis { base } => written_root_rune(*base),
        _ => None,
    }
}

/// The group rune a borrow parameter declares (`&T in g`), if any.
pub open spec fn declared_param_rune(param: ParameterS) -> Option<IRuneS> {
    match param.tyype {
        ITypeST::BorrowRef(st) => match st.region {
            RegionS::Group(GroupS::Rune(ru)) => Some(ru),
            _ => None,
        },
        _ => None,
    }
}

/// The group rune a borrow parameter declares (`&T in g`), if any.
pub fn param_group_rune(param: &ParameterS) -> (r: Option<IRuneS>)
    ensures r == declared_param_rune(*param),
{
    if let ITypeST::BorrowRef(st) = &param.tyype {
        if let RegionS::Group(GroupS::Rune(ru)) = &st.region {
            return Some(*ru);
        }
    }
    None
}

/// The human name of a group rune (only code runes have one).
pub open spec fn code_rune_name(rune: IRuneS) -> Option<StrI> {
    match rune {
        IRuneS::CodeRune(n) => Some(n),
        _ => None,
    }
}

/// The human name of a group rune (only code runes have one).
pub fn rune_name(rune: IRuneS) -> (r: Option<StrI>)
    ensures r == code_rune_name(rune),
{
    match rune {
        IRuneS::CodeRune(n) => Some(n),
        _ => None,
    }
}


/// Whether a written non-union group can be read as one path: rooted at a rune, with no local
/// root and no union inside it.
pub open spec fn written_path_ok(g: GroupS) -> bool
    decreases g,
{
    match g {
        GroupS::Rune(_) => true,
        GroupS::Member { base, .. } => written_path_ok(*base),
        GroupS::Elements { base } => written_path_ok(*base),
        GroupS::Ellipsis { base } => written_path_ok(*base),
        _ => false,
    }
}

/// Whether every member of a written group (through unions) can be read as one path.
pub open spec fn written_group_ok(g: GroupS) -> bool
    decreases g,
{
    match g {
        GroupS::Union { members } => forall|i: int| 0 <= i < members@.len() ==> written_group_ok(#[trigger] members@[i]),
        _ => written_path_ok(g),
    }
}

/// The path a written non-union group denotes.
pub open spec fn written_path(g: GroupS) -> GroupPathV
    decreases g,
{
    match g {
        GroupS::Member { base, member_name } => {
            let p = written_path(*base);
            GroupPathV { root: p.root, steps: p.steps.push(GroupChildStepG::Member { member_name }), ellipsis: p.ellipsis }
        },
        GroupS::Elements { base } => {
            let p = written_path(*base);
            GroupPathV { root: p.root, steps: p.steps.push(GroupChildStepG::ChildElements {}), ellipsis: p.ellipsis }
        },
        GroupS::Ellipsis { base } => {
            let p = written_path(*base);
            GroupPathV { root: p.root, steps: p.steps, ellipsis: true }
        },
        GroupS::Rune(ru) => GroupPathV { root: GroupRootG::Rune(ru), steps: Seq::empty(), ellipsis: false },
        _ => GroupPathV { root: GroupRootG::Rune(IRuneS::ImplicitRune(0)), steps: Seq::empty(), ellipsis: false },
    }
}

/// The paths a written group denotes: one per union member, in order.
pub open spec fn written_paths(g: GroupS) -> Seq<GroupPathV>
    decreases g, 1int,
{
    match g {
        GroupS::Union { members } => written_members_paths(members@, members@.len() as int),
        _ => seq![written_path(g)],
    }
}

/// The paths of the first `n` members of a union, in order.
pub open spec fn written_members_paths(members: Seq<GroupS>, n: int) -> Seq<GroupPathV>
    decreases members, 0int, n,
{
    if n <= 0 || n > members.len() {
        Seq::empty()
    } else {
        written_members_paths(members, n - 1) + written_paths(members[n - 1])
    }
}

/// One non-union written group as its root, its root-to-leaf steps, and whether it ends in `...`.
fn group_path_from_group_s(group: &GroupS) -> (r: (GroupRootG, Vec<GroupChildStepG>, bool))
    requires written_path_ok(*group),
    ensures
        r.0 == written_path(*group).root,
        r.1@ == written_path(*group).steps,
        r.2 == written_path(*group).ellipsis,
    decreases group,
{
    match group {
        GroupS::Rune(ru) => (GroupRootG::Rune(*ru), Vec::new(), false),
        GroupS::Member { base, member_name } => {
            let (root, mut steps, ellipsis) = group_path_from_group_s(base);
            steps.push(GroupChildStepG::Member { member_name: *member_name });
            (root, steps, ellipsis)
        },
        GroupS::Elements { base } => {
            let (root, mut steps, ellipsis) = group_path_from_group_s(base);
            steps.push(GroupChildStepG::ChildElements {});
            (root, steps, ellipsis)
        },
        GroupS::Ellipsis { base } => {
            let (root, steps, _) = group_path_from_group_s(base);
            (root, steps, true)
        },
        _ => {
            proof { assert(false); }
            (GroupRootG::Rune(IRuneS::ImplicitRune(0)), Vec::new(), false)
        },
    }
}

/// A written group as group paths: one per union member, each walked root to leaf.
pub fn group_expr_from_group_s(group: &GroupS) -> (r: Vec<GroupPathG>)
    requires written_group_ok(*group),
    ensures paths_view(r@) == written_paths(*group),
    decreases group,
{
    match group {
        GroupS::Union { members } => {
            let mut paths: Vec<GroupPathG> = Vec::new();
            let mut i: usize = 0;
            while i < members.len()
                invariant
                    i <= members@.len(),
                    *group is Union,
                    group->members == *members,
                    forall|j: int| 0 <= j < members@.len() ==> written_group_ok(#[trigger] members@[j]),
                    paths_view(paths@) == written_members_paths(members@, i as int),
                decreases members@.len() - i,
            {
                proof {
                    assert(decreases_to!(*members => members@));
                    assert(decreases_to!(members@ => members@[i as int]));
                    assert(decreases_to!(*group => *members));
                }
                let mut more = group_expr_from_group_s(&members[i]);
                let ghost before = paths@;
                paths.append(&mut more);
                proof {
                    assert(paths_view(paths@) =~= paths_view(before) + written_paths(members@[i as int]));
                }
                i = i + 1;
            }
            paths
        },
        _ => {
            let (root, steps, ellipsis) = group_path_from_group_s(group);
            let mut out: Vec<GroupPathG> = Vec::new();
            out.push(GroupPathG { root, steps, ellipsis });
            assert(paths_view(out@) =~= written_paths(*group));
            out
        },
    }
}


/// One joint-argument violation at a call, in the two shapes the checker reports.
#[derive(Clone, Copy, PartialEq, Eq, Structural, Debug)]
pub enum JointFact {
    /// A borrow argument rooted in a local that a sibling argument moves.
    BorrowIntoMoved { local: IVarNameT, borrow_arg: usize, move_arg: usize, range: RangeS },
    /// Two aliasing borrow arguments bound to parameters in distinct mutated groups.
    AliasingDisjointMut { local: IVarNameT, arg_a: usize, arg_b: usize, group_a: StrI, group_b: StrI, range: RangeS },
}

/// The innermost local a grouped place expression is rooted in.
pub fn place_root_local(expr: &ExpressionGE) -> (r: Option<IVarNameT>)
    ensures r == place_root(*expr),
    decreases expr,
{
    match expr {
        ExpressionGE::LocalLookup(l) => Some(l.local_variable.name),
        ExpressionGE::RuntimeSizedArrayLookup(a) => place_root_local(&a.array_expr),
        ExpressionGE::StaticSizedArrayLookup(a) => place_root_local(&a.array_expr),
        ExpressionGE::MemberLookup(m) => place_root_local(&m.struct_expr),
        ExpressionGE::Deref(d) => place_root_local(&d.inner),
        _ => None,
    }
}

/// The local an argument moves (a move lowers to an `Unlet`), if any.
pub open spec fn moved_local_of(e: ExpressionGE) -> Option<IVarNameT> {
    match e {
        ExpressionGE::Unlet(u) => Some(u.variable.name),
        _ => None,
    }
}

/// The local an argument moves (a move lowers to an `Unlet`), if any.
pub fn moved_local(expr: &ExpressionGE) -> (r: Option<IVarNameT>)
    ensures r == moved_local_of(*expr),
{
    match expr {
        ExpressionGE::Unlet(u) => Some(u.variable.name),
        _ => None,
    }
}

/// The source range of a grouped place expression, for a diagnostic at the use site.
pub open spec fn place_range(e: ExpressionGE) -> Option<RangeS> {
    match e {
        ExpressionGE::LocalLookup(l) => Some(l.range),
        ExpressionGE::RuntimeSizedArrayLookup(a) => Some(a.range),
        ExpressionGE::StaticSizedArrayLookup(a) => Some(a.range),
        ExpressionGE::MemberLookup(m) => Some(m.range),
        ExpressionGE::Deref(d) => Some(d.range),
        _ => None,
    }
}

/// The source range of a grouped place expression, for a diagnostic at the use site.
pub fn expr_range(expr: &ExpressionGE) -> (r: Option<RangeS>)
    ensures r == place_range(*expr),
{
    match expr {
        ExpressionGE::LocalLookup(l) => Some(l.range),
        ExpressionGE::RuntimeSizedArrayLookup(a) => Some(a.range),
        ExpressionGE::StaticSizedArrayLookup(a) => Some(a.range),
        ExpressionGE::MemberLookup(m) => Some(m.range),
        ExpressionGE::Deref(d) => Some(d.range),
        _ => None,
    }
}

/// Whether a grouped node's result is `Never` (it returns, breaks, or contains something that does).
pub fn diverges(node: &ExpressionGE) -> (r: bool)
    ensures r == (result_of(*node) is Never),
{
    match node.result() {
        KindGT::Never => true,
        _ => false,
    }
}

/// The value of a churn: where the churning node is, the range it is reported at, and the group
/// path it churns.
pub open spec fn effect_v(m: MutEffectPath) -> (Seq<i32>, RangeS, Seq<GroupStep>) {
    (m.effecting_node_loc@, m.range, m.steps@)
}

/// The values of a list of churns.
pub open spec fn effects_v(ms: Seq<MutEffectPath>) -> Seq<(Seq<i32>, RangeS, Seq<GroupStep>)> {
    ms.map_values(|m: MutEffectPath| effect_v(m))
}

/// The churns a node itself declares (a call's instantiated effects).
pub open spec fn own_churns(e: ExpressionGE) -> Seq<(Seq<i32>, RangeS, Seq<GroupStep>)> {
    match e {
        ExpressionGE::FunctionCall(c) => effects_v(c.mut_effects@),
        _ => Seq::empty(),
    }
}

/// Every churn a subtree makes, in pre-order: the node's own, then each child's subtree in order.
pub open spec fn subtree_churns(e: ExpressionGE) -> Seq<(Seq<i32>, RangeS, Seq<GroupStep>)>
    decreases e, 1int, 0int,
{
    own_churns(e) + kids_churns(e, children_of(e).len() as int)
}

/// The churns under the first `n` children of a node.
pub open spec fn kids_churns(e: ExpressionGE, n: int) -> Seq<(Seq<i32>, RangeS, Seq<GroupStep>)>
    decreases e, 0int, n,
{
    if n <= 0 || n > children_of(e).len() {
        Seq::empty()
    } else {
        proof { lemma_children_smaller(e); }
        kids_churns(e, n - 1) + subtree_churns(children_of(e)[n - 1])
    }
}

/// A copy of a churn.
fn copy_effect(m: &MutEffectPath) -> (r: MutEffectPath)
    ensures effect_v(r) == effect_v(*m),
{
    let mut steps: Vec<GroupStep> = Vec::new();
    let mut i: usize = 0;
    while i < m.steps.len()
        invariant i <= m.steps@.len(), steps@ == m.steps@.subrange(0, i as int),
        decreases m.steps@.len() - i,
    {
        steps.push(m.steps[i]);
        i = i + 1;
    }
    assert(steps@ =~= m.steps@);
    MutEffectPath { effecting_node_loc: m.effecting_node_loc.copy(), range: m.range, steps }
}

/// Append every churn a subtree makes, in pre-order: the node's own, then each child's subtree in
/// order.
pub fn collect_subtree_churns(node: &ExpressionGE, out: &mut Vec<MutEffectPath>)
    ensures effects_v(final(out)@) == effects_v(old(out)@) + subtree_churns(*node),
    decreases node,
{
    let ghost start = out@;
    match node {
        ExpressionGE::FunctionCall(c) => {
            let mut i: usize = 0;
            while i < c.mut_effects.len()
                invariant
                    i <= c.mut_effects@.len(),
                    effects_v(out@) == effects_v(start) + effects_v(c.mut_effects@).subrange(0, i as int),
                decreases c.mut_effects@.len() - i,
            {
                let ghost before = out@;
                out.push(copy_effect(&c.mut_effects[i]));
                proof {
                    assert(effects_v(out@) =~= effects_v(before).push(effects_v(out@).last()));
                    assert(effects_v(out@) =~= effects_v(start) + effects_v(c.mut_effects@).subrange(0, i + 1));
                }
                i = i + 1;
            }
            proof { assert(effects_v(c.mut_effects@).subrange(0, i as int) =~= own_churns(*node)); }
        },
        _ => {
            proof { assert(effects_v(out@) =~= effects_v(start) + own_churns(*node)); }
        },
    }
    let ghost mid = out@;
    let kids = node.children();
    let ghost cs = children_of(*node);
    proof {
        assert(kids@.len() == cs.len()) by {
            assert(kids@.map_values(|c: &ExpressionGE| *c).len() == kids@.len());
        }
        lemma_children_smaller(*node);
        assert(kids_churns(*node, 0) =~= Seq::empty());
    }
    let mut j: usize = 0;
    while j < kids.len()
        invariant
            j <= kids@.len(),
            kids@.len() == cs.len(),
            cs == children_of(*node),
            kids@.map_values(|c: &ExpressionGE| *c) == cs,
            forall|i: int| 0 <= i < cs.len() ==> decreases_to!(*node => #[trigger] cs[i]),
            effects_v(mid) == effects_v(start) + own_churns(*node),
            effects_v(out@) == effects_v(mid) + kids_churns(*node, j as int),
        decreases kids@.len() - j,
    {
        proof { assert(*kids@[j as int] == cs[j as int]); }
        collect_subtree_churns(kids[j], out);
        j = j + 1;
    }
    proof {
        assert(effects_v(out@) =~= effects_v(start) + subtree_churns(*node));
    }
}

} // verus!
