//! The third phase: which parameters may be treated as `noalias` (a signature-only verdict per
//! parameter) and the group ground truth (which groups each instruction accesses), for the backend to
//! feed to LLVM as aliasing information. The ground truth comes from the access log the grouping pass
//! recorded, not from a second walk of the tree.

use vstd::prelude::*;
use indexmap::IndexMap;
use crate::interner::{Interner, StrI};
use crate::names::IVarNameT;
use crate::loc::{LocT, path_le, path_le_exec, lemma_path_le_reflexive, lemma_path_le_transitive, lemma_path_le_total};
use crate::borrow_checker::ast_g::GroupStep;
use crate::borrow_checker::access_event::AccessEventG;
use crate::borrow_checker::borrowing_ast::{GroupIdStepT, GroupIdT, FunctionAliasingInfoT, groups_view, entry_view, entries_view};
use crate::borrow_checker::experimental::grouped_ast::{aliases, paths_alias, code_rune_name, rune_name};
use crate::index_map::{
    name_entries, find_key, lemma_find_key, name_map_new, name_map_get, name_map_contains_key, name_map_insert,
};
use crate::typing::compiler::Compiler;

verus! {

/// The handle that stands for a name the source does not give; it renders as `?`.
pub open spec fn unnamed() -> StrI {
    StrI(u32::MAX)
}

/// A variable's name, for a group that names a parameter or local.
pub open spec fn var_stri(v: IVarNameT) -> StrI {
    match v {
        IVarNameT::Local(n) => n,
        IVarNameT::Member(n) => n,
        _ => unnamed(),
    }
}

/// The identity step of a flattened group step. Both kinds of `[]` are the elements step: the
/// destructibility distinction matters to the checker, not to the backend.
pub open spec fn id_step(s: GroupStep) -> GroupIdStepT {
    match s {
        GroupStep::Rune(r) => GroupIdStepT::Rune(match code_rune_name(r) { Some(n) => n, None => unnamed() }),
        GroupStep::ParamAnonymousGroup(v) => GroupIdStepT::ParamAnonymousGroup(var_stri(v)),
        GroupStep::Local(v) => GroupIdStepT::Local(var_stri(v)),
        GroupStep::Member { member_name } => GroupIdStepT::Member(member_name),
        _ => GroupIdStepT::Elements,
    }
}

/// A path with no variant step (aliasing info has no form for one yet).
pub open spec fn no_variant(s: Seq<GroupStep>) -> bool {
    forall|i: int| 0 <= i < s.len() ==> !(#[trigger] s[i] is Variant)
}

pub open spec fn id_steps(s: Seq<GroupStep>) -> Seq<GroupIdStepT> {
    s.map_values(|x: GroupStep| id_step(x))
}

/// The text a name renders as.
pub open spec fn name_text(interner: Interner, s: StrI) -> Seq<char> {
    if s != unnamed() && interner.holds(s) { interner.text_of(s) } else { "?"@ }
}

pub open spec fn step_text(interner: Interner, st: GroupIdStepT) -> Seq<char> {
    match st {
        GroupIdStepT::Rune(n) => name_text(interner, n),
        GroupIdStepT::ParamAnonymousGroup(n) => name_text(interner, n),
        GroupIdStepT::Local(n) => name_text(interner, n),
        GroupIdStepT::Member(n) => "."@ + name_text(interner, n),
        GroupIdStepT::Elements => "[]"@,
    }
}

/// The source-level name of a group, such as `l.tiles[]`.
pub open spec fn name_of(interner: Interner, steps: Seq<GroupIdStepT>) -> Seq<char>
    decreases steps.len(),
{
    if steps.len() == 0 {
        Seq::empty()
    } else {
        name_of(interner, steps.drop_last()) + step_text(interner, steps.last())
    }
}

/// Each parameter's group path (empty for one without).
pub open spec fn param_candidates(ps: Seq<Option<Vec<GroupStep>>>) -> Seq<Seq<GroupStep>> {
    ps.map_values(|p: Option<Vec<GroupStep>>| match p { Some(v) => v@, None => Seq::empty() })
}

/// The group a logged access loads or stores (empty for a call or a marker).
pub open spec fn event_group(e: AccessEventG) -> Seq<GroupStep> {
    match e {
        AccessEventG::Read { group, .. } => group@,
        AccessEventG::Store { group, .. } => group@,
        _ => Seq::empty(),
    }
}

pub open spec fn log_candidates(log: Seq<AccessEventG>) -> Seq<Seq<GroupStep>> {
    log.map_values(|e: AccessEventG| event_group(e))
}

/// The groups numbered so far, each with its name and number.
pub open spec fn numbered(interner: Interner, u: Seq<Seq<GroupIdStepT>>) -> Seq<(Seq<char>, u32)> {
    Seq::new(u.len(), |i: int| (name_of(interner, u[i]), i as u32))
}

/// Number groups by first appearance of their names, skipping empty paths.
pub open spec fn number_groups(interner: Interner, cands: Seq<Seq<GroupStep>>) -> Seq<Seq<GroupIdStepT>>
    decreases cands.len(),
{
    if cands.len() == 0 {
        Seq::empty()
    } else {
        let u = number_groups(interner, cands.drop_last());
        let x = cands.last();
        if x.len() == 0 || find_key(numbered(interner, u), name_of(interner, id_steps(x))) is Some {
            u
        } else {
            u.push(id_steps(x))
        }
    }
}

/// The numbered groups: every parameter's group first, in parameter order, then each further group a
/// load or store accesses, in log order.
pub open spec fn group_universe(interner: Interner, ps: Seq<Option<Vec<GroupStep>>>, log: Seq<AccessEventG>) -> Seq<Seq<GroupIdStepT>> {
    number_groups(interner, param_candidates(ps) + log_candidates(log))
}

/// The number of the group at a path, if it is numbered.
pub open spec fn group_number(interner: Interner, u: Seq<Seq<GroupIdStepT>>, steps: Seq<GroupStep>) -> Option<u32> {
    if steps.len() == 0 {
        None
    } else {
        match find_key(numbered(interner, u), name_of(interner, id_steps(steps))) {
            Some(i) => Some(i as u32),
            None => None,
        }
    }
}

/// `a` is a prefix of `b` (or equal to it).
pub open spec fn id_prefix(a: Seq<GroupIdStepT>, b: Seq<GroupIdStepT>) -> bool {
    a.len() <= b.len() && b.subrange(0, a.len() as int) == a
}

/// Whether a call argument's group is at or above `g`: the call reaches `g` through it.
pub open spec fn arg_reaches(args: Seq<Seq<GroupStep>>, g: Seq<GroupIdStepT>) -> bool {
    exists|a: int| 0 <= a < args.len() && args[a].len() > 0 && id_prefix(id_steps(args[a]), g)
}

/// The numbers, in increasing order, of the first `n` groups a call's arguments reach.
pub open spec fn touched_groups(u: Seq<Seq<GroupIdStepT>>, args: Seq<Seq<GroupStep>>, n: int) -> Seq<u32>
    decreases n,
{
    if n <= 0 {
        Seq::empty()
    } else {
        let r = touched_groups(u, args, n - 1);
        if arg_reaches(args, u[n - 1]) { r.push((n - 1) as u32) } else { r }
    }
}

pub open spec fn args_view(t: Seq<Vec<GroupStep>>) -> Seq<Seq<GroupStep>> {
    t.map_values(|v: Vec<GroupStep>| v@)
}

/// The instruction entry a logged access makes: a load or store its single numbered group, a call
/// every numbered group its arguments reach.
pub open spec fn event_entry(interner: Interner, u: Seq<Seq<GroupIdStepT>>, e: AccessEventG) -> Option<(Seq<i32>, Seq<u32>)> {
    match e {
        AccessEventG::Read { group, loct } => match group_number(interner, u, group@) {
            Some(i) => Some((loct@, seq![i])),
            None => None,
        },
        AccessEventG::Store { group, loct } => match group_number(interner, u, group@) {
            Some(i) => Some((loct@, seq![i])),
            None => None,
        },
        AccessEventG::Call { touched, loct } => Some((loct@, touched_groups(u, args_view(touched@), u.len() as int))),
        AccessEventG::Marker { .. } => None,
    }
}

/// The instruction entries of a log, in log order.
pub open spec fn logged_entries(interner: Interner, u: Seq<Seq<GroupIdStepT>>, log: Seq<AccessEventG>) -> Seq<(Seq<i32>, Seq<u32>)>
    decreases log.len(),
{
    if log.len() == 0 {
        Seq::empty()
    } else {
        let r = logged_entries(interner, u, log.drop_last());
        match event_entry(interner, u, log.last()) {
            Some(x) => r.push(x),
            None => r,
        }
    }
}

/// Entries in nondecreasing order of location.
pub open spec fn sorted_by_loc(s: Seq<(Seq<i32>, Seq<u32>)>) -> bool {
    forall|i: int, j: int| 0 <= i < j < s.len() ==> path_le(s[i].0, s[j].0)
}

/// The entries at location `p`, in their order.
pub open spec fn at_loc(s: Seq<(Seq<i32>, Seq<u32>)>, p: Seq<i32>) -> Seq<(Seq<i32>, Seq<u32>)> {
    s.filter(|e: (Seq<i32>, Seq<u32>)| e.0 == p)
}

/// Whether parameter `i` may be treated as `noalias`: it borrows into a group, and no other
/// parameter's group overlaps it.
pub open spec fn param_noalias(ps: Seq<Option<Vec<GroupStep>>>, i: int) -> bool {
    match ps[i] {
        None => false,
        Some(pi) => !exists|j: int| 0 <= j < ps.len() && j != i && #[trigger] ps[j] is Some && aliases(pi@, ps[j]->0@),
    }
}

/// A parameter's path, if any, has no variant step.
pub open spec fn param_path_ok(p: Option<Vec<GroupStep>>) -> bool {
    match p {
        Some(v) => no_variant(v@),
        None => true,
    }
}

/// A logged access's groups have no variant step.
pub open spec fn event_ok(e: AccessEventG) -> bool {
    match e {
        AccessEventG::Call { touched, .. } => forall|a: int| 0 <= a < touched@.len() ==> no_variant(#[trigger] touched@[a]@),
        _ => no_variant(event_group(e)),
    }
}

/// What the aliasing phase can read: no variant steps, and few enough groups to number in a `u32`.
pub open spec fn aliasing_input_ok(ps: Seq<Option<Vec<GroupStep>>>, log: Seq<AccessEventG>) -> bool {
    &&& ps.len() + log.len() < u32::MAX
    &&& forall|i: int| 0 <= i < ps.len() ==> param_path_ok(#[trigger] ps[i])
    &&& forall|k: int| 0 <= k < log.len() ==> event_ok(#[trigger] log[k])
}

/// A parameter that borrows into a group no other parameter's group path lies within, or contains,
/// is `noalias`.
pub proof fn law_unshared_param_group_is_noalias(ps: Seq<Option<Vec<GroupStep>>>, i: int)
    requires
        0 <= i < ps.len(),
        ps[i] is Some,
        forall|j: int| 0 <= j < ps.len() && j != i && #[trigger] ps[j] is Some ==> {
            &&& !(ps[i]->0@.len() <= ps[j]->0@.len() && ps[j]->0@.subrange(0, ps[i]->0@.len() as int) == ps[i]->0@)
            &&& !(ps[j]->0@.len() <= ps[i]->0@.len() && ps[i]->0@.subrange(0, ps[j]->0@.len() as int) == ps[j]->0@)
        },
    ensures param_noalias(ps, i),
{
}

/// Two parameters one of whose group paths lies within the other's (the first a prefix of the
/// second, equal or nested deeper) may alias, so neither is `noalias`.
pub proof fn law_nested_param_groups_not_noalias(ps: Seq<Option<Vec<GroupStep>>>, i: int, j: int)
    requires
        0 <= i < ps.len(),
        0 <= j < ps.len(),
        i != j,
        ps[i] is Some,
        ps[j] is Some,
        ps[i]->0@.len() <= ps[j]->0@.len(),
        ps[j]->0@.subrange(0, ps[i]->0@.len() as int) == ps[i]->0@,
    ensures !param_noalias(ps, i), !param_noalias(ps, j),
{
    assert(aliases(ps[i]->0@, ps[j]->0@));
    assert(aliases(ps[j]->0@, ps[i]->0@));
}

/// Two parameters that borrow into one group path are neither of them `noalias`.
pub proof fn law_shared_param_group_not_noalias(ps: Seq<Option<Vec<GroupStep>>>, i: int, j: int)
    requires
        0 <= i < ps.len(),
        0 <= j < ps.len(),
        i != j,
        ps[i] is Some,
        ps[j] is Some,
        ps[i]->0@ == ps[j]->0@,
    ensures !param_noalias(ps, i), !param_noalias(ps, j),
{
    assert(ps[j]->0@.subrange(0, ps[i]->0@.len() as int) =~= ps[i]->0@);
    assert(aliases(ps[i]->0@, ps[j]->0@));
    assert(aliases(ps[j]->0@, ps[i]->0@));
}

/// A name found among the numbered groups stays found when one more group is numbered.
proof fn lemma_numbered_grows(interner: Interner, u: Seq<Seq<GroupIdStepT>>, g: Seq<GroupIdStepT>, name: Seq<char>)
    requires find_key(numbered(interner, u), name) is Some,
    ensures
        find_key(numbered(interner, u.push(g)), name) is Some,
        find_key(numbered(interner, u.push(g)), name_of(interner, g)) is Some,
{
    lemma_find_key(numbered(interner, u), name);
    lemma_find_key(numbered(interner, u.push(g)), name);
    lemma_find_key(numbered(interner, u.push(g)), name_of(interner, g));
    let i = find_key(numbered(interner, u), name)->0;
    assert(numbered(interner, u.push(g))[i] == numbered(interner, u)[i]);
    assert(numbered(interner, u.push(g))[u.len() as int].0 == name_of(interner, g));
}

/// Every nonempty candidate's name is among the groups numbered from the candidates.
proof fn lemma_candidates_numbered(interner: Interner, cands: Seq<Seq<GroupStep>>, i: int)
    requires 0 <= i < cands.len(), cands[i].len() > 0,
    ensures find_key(numbered(interner, number_groups(interner, cands)), name_of(interner, id_steps(cands[i]))) is Some,
    decreases cands.len(),
{
    let rest = cands.drop_last();
    let u = number_groups(interner, rest);
    let x = cands.last();
    let name = name_of(interner, id_steps(cands[i]));
    if i == cands.len() - 1 {
        if !(find_key(numbered(interner, u), name_of(interner, id_steps(x))) is Some) {
            lemma_find_key(numbered(interner, u.push(id_steps(x))), name);
            assert(numbered(interner, u.push(id_steps(x)))[u.len() as int].0 == name);
        }
    } else {
        assert(rest[i] == cands[i]);
        lemma_candidates_numbered(interner, rest, i);
        if !(x.len() == 0 || find_key(numbered(interner, u), name_of(interner, id_steps(x))) is Some) {
            lemma_numbered_grows(interner, u, id_steps(x), name);
        }
    }
}

/// No two numbered groups share a name: a group is numbered once, on its first appearance.
pub proof fn law_numbered_names_distinct(interner: Interner, cands: Seq<Seq<GroupStep>>)
    ensures
        forall|i: int, j: int| 0 <= i < j < number_groups(interner, cands).len()
            ==> name_of(interner, #[trigger] number_groups(interner, cands)[i]) != name_of(interner, #[trigger] number_groups(interner, cands)[j]),
    decreases cands.len(),
{
    if cands.len() > 0 {
        let rest = cands.drop_last();
        let u = number_groups(interner, rest);
        let x = cands.last();
        law_numbered_names_distinct(interner, rest);
        if !(x.len() == 0 || find_key(numbered(interner, u), name_of(interner, id_steps(x))) is Some) {
            lemma_find_key(numbered(interner, u), name_of(interner, id_steps(x)));
            let v = u.push(id_steps(x));
            assert forall|i: int, j: int| 0 <= i < j < v.len() implies name_of(interner, #[trigger] v[i]) != name_of(interner, #[trigger] v[j]) by {
                if j == u.len() {
                    assert(numbered(interner, u)[i].0 == name_of(interner, u[i]));
                } else {
                    assert(v[i] == u[i] && v[j] == u[j]);
                }
            }
        }
    }
}

/// Every parameter that borrows into a group has that group numbered, whether or not anything
/// accesses it.
pub proof fn law_param_groups_numbered(interner: Interner, ps: Seq<Option<Vec<GroupStep>>>, log: Seq<AccessEventG>, i: int)
    requires 0 <= i < ps.len(), ps[i] is Some, ps[i]->0@.len() > 0,
    ensures find_key(numbered(interner, group_universe(interner, ps, log)), name_of(interner, id_steps(ps[i]->0@))) is Some,
{
    let cands = param_candidates(ps) + log_candidates(log);
    assert(cands[i] == ps[i]->0@);
    lemma_candidates_numbered(interner, cands, i);
}

fn var_name_stri(v: &IVarNameT) -> (r: StrI)
    ensures r == var_stri(*v),
{
    match v {
        IVarNameT::Local(n) => *n,
        IVarNameT::Member(n) => *n,
        _ => StrI(u32::MAX),
    }
}

fn group_id_step(step: &GroupStep) -> (r: GroupIdStepT)
    requires !(*step is Variant),
    ensures r == id_step(*step),
{
    match step {
        GroupStep::Rune(r) => GroupIdStepT::Rune(match rune_name(*r) { Some(n) => n, None => StrI(u32::MAX) }),
        GroupStep::ParamAnonymousGroup(v) => GroupIdStepT::ParamAnonymousGroup(var_name_stri(v)),
        GroupStep::Local(v) => GroupIdStepT::Local(var_name_stri(v)),
        GroupStep::Member { member_name } => GroupIdStepT::Member(*member_name),
        GroupStep::ChildElements | GroupStep::InlineElements => GroupIdStepT::Elements,
        GroupStep::Variant { .. } => GroupIdStepT::Elements,
    }
}

/// The identity steps of a flattened group path.
fn group_id_steps(steps: &Vec<GroupStep>) -> (r: Vec<GroupIdStepT>)
    requires no_variant(steps@),
    ensures r@ == id_steps(steps@),
{
    let mut out: Vec<GroupIdStepT> = Vec::new();
    let mut i: usize = 0;
    while i < steps.len()
        invariant
            i <= steps@.len(),
            no_variant(steps@),
            out@ == id_steps(steps@.subrange(0, i as int)),
        decreases steps@.len() - i,
    {
        out.push(group_id_step(&steps[i]));
        proof {
            assert(id_steps(steps@.subrange(0, i + 1)) =~= id_steps(steps@.subrange(0, i as int)).push(id_step(steps@[i as int])));
        }
        i = i + 1;
    }
    assert(steps@.subrange(0, steps@.len() as int) =~= steps@);
    out
}

/// Append the text a name renders as.
fn push_name(interner: &Interner, s: StrI, out: &mut String)
    ensures final(out)@ == old(out)@ + name_text(*interner, s),
{
    if s.0 != u32::MAX && (s.0 as usize) < interner.strings.len() {
        out.append(interner.lookup(s));
    } else {
        out.append("?");
    }
}

/// The source-level name of a group path, the key it is numbered under.
fn group_name(interner: &Interner, steps: &Vec<GroupIdStepT>) -> (r: String)
    ensures r@ == name_of(*interner, steps@),
{
    let mut s = String::new();
    let mut i: usize = 0;
    while i < steps.len()
        invariant
            i <= steps@.len(),
            s@ == name_of(*interner, steps@.subrange(0, i as int)),
        decreases steps@.len() - i,
    {
        match steps[i] {
            GroupIdStepT::Rune(n) | GroupIdStepT::ParamAnonymousGroup(n) | GroupIdStepT::Local(n) => push_name(interner, n, &mut s),
            GroupIdStepT::Member(n) => {
                s.append(".");
                push_name(interner, n, &mut s);
            },
            GroupIdStepT::Elements => s.append("[]"),
        }
        proof {
            let pre = steps@.subrange(0, i + 1);
            assert(pre.drop_last() =~= steps@.subrange(0, i as int));
            assert(pre.last() == steps@[i as int]);
        }
        i = i + 1;
    }
    assert(steps@.subrange(0, steps@.len() as int) =~= steps@);
    s
}

/// A copy of a group's identity steps.
fn copy_id_steps(steps: &Vec<GroupIdStepT>) -> (r: Vec<GroupIdStepT>)
    ensures r@ == steps@,
{
    let mut out: Vec<GroupIdStepT> = Vec::new();
    let mut i: usize = 0;
    while i < steps.len()
        invariant i <= steps@.len(), out@ == steps@.subrange(0, i as int),
        decreases steps@.len() - i,
    {
        out.push(steps[i]);
        i = i + 1;
    }
    assert(steps@.subrange(0, steps@.len() as int) =~= steps@);
    out
}

/// Number a group by name, giving it the next number on its name's first appearance.
fn intern_group(interner: &Interner, steps: &Vec<GroupStep>, index_by_name: &mut IndexMap<String, u32>, groups: &mut Vec<GroupIdT>)
    requires
        no_variant(steps@),
        name_entries(*old(index_by_name)) == numbered(*interner, groups_view(old(groups)@)),
        old(groups)@.len() < u32::MAX,
    ensures
        name_entries(*final(index_by_name)) == numbered(*interner, groups_view(final(groups)@)),
        groups_view(final(groups)@) == (if steps@.len() == 0
            || find_key(numbered(*interner, groups_view(old(groups)@)), name_of(*interner, id_steps(steps@))) is Some {
            groups_view(old(groups)@)
        } else {
            groups_view(old(groups)@).push(id_steps(steps@))
        }),
{
    if steps.len() == 0 {
        return;
    }
    let id_steps = group_id_steps(steps);
    let name = group_name(interner, &id_steps);
    if !name_map_contains_key(index_by_name, &name) {
        let next = groups.len() as u32;
        let ghost u = groups_view(groups@);
        name_map_insert(index_by_name, name, next);
        groups.push(GroupIdT { steps: id_steps });
        proof {
            assert(groups_view(groups@) =~= u.push(id_steps@));
            assert(name_entries(*index_by_name) =~= numbered(*interner, groups_view(groups@)));
        }
    }
}

/// Whether `a` is a prefix of `b`.
fn id_prefix_exec(a: &Vec<GroupIdStepT>, b: &Vec<GroupIdStepT>) -> (r: bool)
    ensures r == id_prefix(a@, b@),
{
    if a.len() > b.len() {
        return false;
    }
    let mut i: usize = 0;
    while i < a.len()
        invariant
            a@.len() <= b@.len(),
            i <= a@.len(),
            forall|k: int| 0 <= k < i ==> a@[k] == b@[k],
        decreases a@.len() - i,
    {
        if a[i] != b[i] {
            proof { assert(b@.subrange(0, a@.len() as int)[i as int] == b@[i as int]); }
            return false;
        }
        i = i + 1;
    }
    assert(b@.subrange(0, a@.len() as int) =~= a@);
    true
}

/// The numbers, in increasing order, of the numbered groups a call's arguments reach: each
/// argument's group and every group below it (never an ancestor).
fn touched_by_call(groups: &Vec<GroupIdT>, args: &Vec<Vec<GroupStep>>) -> (r: Vec<u32>)
    requires
        groups@.len() < u32::MAX,
        forall|a: int| 0 <= a < args@.len() ==> no_variant(#[trigger] args@[a]@),
    ensures r@ == touched_groups(groups_view(groups@), args_view(args@), groups@.len() as int),
{
    let ghost u = groups_view(groups@);
    let ghost av = args_view(args@);
    let mut arg_ids: Vec<Option<Vec<GroupIdStepT>>> = Vec::new();
    let mut a: usize = 0;
    while a < args.len()
        invariant
            a <= args@.len(),
            arg_ids@.len() == a,
            forall|x: int| 0 <= x < args@.len() ==> no_variant(#[trigger] args@[x]@),
            forall|x: int| 0 <= x < a ==> (#[trigger] arg_ids@[x] is Some <==> args@[x]@.len() > 0),
            forall|x: int| 0 <= x < a ==> #[trigger] arg_ids@[x] is Some ==> arg_ids@[x]->0@ == id_steps(args@[x]@),
        decreases args@.len() - a,
    {
        if args[a].len() == 0 {
            arg_ids.push(None);
        } else {
            arg_ids.push(Some(group_id_steps(&args[a])));
        }
        a = a + 1;
    }
    let mut out: Vec<u32> = Vec::new();
    let mut j: usize = 0;
    while j < groups.len()
        invariant
            j <= groups@.len(),
            groups@.len() < u32::MAX,
            u == groups_view(groups@),
            av == args_view(args@),
            arg_ids@.len() == args@.len(),
            forall|x: int| 0 <= x < args@.len() ==> (#[trigger] arg_ids@[x] is Some <==> args@[x]@.len() > 0),
            forall|x: int| 0 <= x < args@.len() ==> #[trigger] arg_ids@[x] is Some ==> arg_ids@[x]->0@ == id_steps(args@[x]@),
            out@ == touched_groups(u, av, j as int),
        decreases groups@.len() - j,
    {
        let mut reached = false;
        let mut x: usize = 0;
        while x < arg_ids.len()
            invariant
                x <= arg_ids@.len(),
                j < groups@.len(),
                u == groups_view(groups@),
                av == args_view(args@),
                arg_ids@.len() == args@.len(),
                forall|y: int| 0 <= y < args@.len() ==> (#[trigger] arg_ids@[y] is Some <==> args@[y]@.len() > 0),
                forall|y: int| 0 <= y < args@.len() ==> #[trigger] arg_ids@[y] is Some ==> arg_ids@[y]->0@ == id_steps(args@[y]@),
                reached == exists|y: int| 0 <= y < x && av[y].len() > 0 && id_prefix(id_steps(av[y]), u[j as int]),
            decreases arg_ids@.len() - x,
        {
            if let Some(ids) = &arg_ids[x] {
                if id_prefix_exec(ids, &groups[j].steps) {
                    reached = true;
                }
            }
            proof {
                assert(av[x as int] == args@[x as int]@);
                assert(u[j as int] == groups@[j as int]@);
            }
            x = x + 1;
        }
        if reached {
            out.push(j as u32);
        }
        j = j + 1;
    }
    out
}

impl Compiler {
    /// Report which parameters are `noalias` and the group ground truth. The per-parameter verdict
    /// is signature-only: a borrow parameter qualifies when no other parameter's group path aliases
    /// its own; `paths` is each parameter's flattened group path (`None` for a parameter that borrows
    /// into no group). The group facts come from the access log.
    pub fn calculate_aliasing_info(&self, paths: &Vec<Option<Vec<GroupStep>>>, access_log: &Vec<AccessEventG>) -> (r: FunctionAliasingInfoT)
        requires aliasing_input_ok(paths@, access_log@),
        ensures
            r.param_index_to_noalias@ == Seq::new(paths@.len(), |i: int| param_noalias(paths@, i)),
            groups_view(r.group_paths@) == group_universe(self.interner, paths@, access_log@),
            sorted_by_loc(entries_view(r.instruction_loc_to_accessed_groups@)),
            forall|p: Seq<i32>| #[trigger] at_loc(entries_view(r.instruction_loc_to_accessed_groups@), p)
                == at_loc(logged_entries(self.interner, group_universe(self.interner, paths@, access_log@), access_log@), p),
    {
        let mut noalias: Vec<bool> = Vec::new();
        let mut i: usize = 0;
        while i < paths.len()
            invariant
                i <= paths@.len(),
                noalias@ == Seq::new(i as nat, |k: int| param_noalias(paths@, k)),
            decreases paths@.len() - i,
        {
            let verdict = match &paths[i] {
                None => false,
                Some(path_i) => {
                    let mut aliased = false;
                    let mut j: usize = 0;
                    while j < paths.len()
                        invariant
                            j <= paths@.len(),
                            i < paths@.len(),
                            paths@[i as int] == Some(*path_i),
                            aliased == exists|k: int| 0 <= k < j && k != i && #[trigger] paths@[k] is Some && aliases(path_i@, paths@[k]->0@),
                        decreases paths@.len() - j,
                    {
                        if j != i {
                            if let Some(path_j) = &paths[j] {
                                if paths_alias(path_i, path_j) {
                                    aliased = true;
                                }
                            }
                        }
                        j = j + 1;
                    }
                    !aliased
                },
            };
            noalias.push(verdict);
            proof {
                assert(noalias@ =~= Seq::new((i + 1) as nat, |k: int| param_noalias(paths@, k)));
            }
            i = i + 1;
        }
        let (group_paths, instruction_loc_to_accessed_groups) = compute_group_facts(&self.interner, access_log, paths);
        FunctionAliasingInfoT { param_index_to_noalias: noalias, group_paths, instruction_loc_to_accessed_groups }
    }

    /// A copy of aliasing info that owns all its parts, to outlive the check that made it.
    pub fn copy_aliasing_info_to_typing_arena(&self, info: &FunctionAliasingInfoT) -> (r: FunctionAliasingInfoT)
        ensures
            r.param_index_to_noalias@ == info.param_index_to_noalias@,
            groups_view(r.group_paths@) == groups_view(info.group_paths@),
            entries_view(r.instruction_loc_to_accessed_groups@) == entries_view(info.instruction_loc_to_accessed_groups@),
    {
        let mut noalias: Vec<bool> = Vec::new();
        let mut i: usize = 0;
        while i < info.param_index_to_noalias.len()
            invariant i <= info.param_index_to_noalias@.len(), noalias@ == info.param_index_to_noalias@.subrange(0, i as int),
            decreases info.param_index_to_noalias@.len() - i,
        {
            noalias.push(info.param_index_to_noalias[i]);
            i = i + 1;
        }
        let mut group_paths: Vec<GroupIdT> = Vec::new();
        let mut g: usize = 0;
        while g < info.group_paths.len()
            invariant g <= info.group_paths@.len(), groups_view(group_paths@) == groups_view(info.group_paths@.subrange(0, g as int)),
            decreases info.group_paths@.len() - g,
        {
            group_paths.push(GroupIdT { steps: copy_id_steps(&info.group_paths[g].steps) });
            proof {
                assert(groups_view(info.group_paths@.subrange(0, g + 1)) =~= groups_view(info.group_paths@.subrange(0, g as int)).push(info.group_paths@[g as int]@));
            }
            g = g + 1;
        }
        let mut entries: Vec<(LocT, Vec<u32>)> = Vec::new();
        let mut e: usize = 0;
        while e < info.instruction_loc_to_accessed_groups.len()
            invariant
                e <= info.instruction_loc_to_accessed_groups@.len(),
                entries_view(entries@) == entries_view(info.instruction_loc_to_accessed_groups@.subrange(0, e as int)),
            decreases info.instruction_loc_to_accessed_groups@.len() - e,
        {
            let entry = &info.instruction_loc_to_accessed_groups[e];
            let mut set: Vec<u32> = Vec::new();
            let mut k: usize = 0;
            while k < entry.1.len()
                invariant k <= entry.1@.len(), set@ == entry.1@.subrange(0, k as int),
                decreases entry.1@.len() - k,
            {
                set.push(entry.1[k]);
                k = k + 1;
            }
            proof { assert(entry.1@.subrange(0, entry.1@.len() as int) =~= entry.1@); }
            entries.push((entry.0.copy(), set));
            proof {
                assert(entries_view(info.instruction_loc_to_accessed_groups@.subrange(0, e + 1))
                    =~= entries_view(info.instruction_loc_to_accessed_groups@.subrange(0, e as int)).push(entry_view(*entry)));
            }
            e = e + 1;
        }
        proof {
            assert(info.param_index_to_noalias@.subrange(0, info.param_index_to_noalias@.len() as int) =~= info.param_index_to_noalias@);
            assert(info.group_paths@.subrange(0, info.group_paths@.len() as int) =~= info.group_paths@);
            assert(info.instruction_loc_to_accessed_groups@.subrange(0, info.instruction_loc_to_accessed_groups@.len() as int)
                =~= info.instruction_loc_to_accessed_groups@);
        }
        FunctionAliasingInfoT { param_index_to_noalias: noalias, group_paths, instruction_loc_to_accessed_groups: entries }
    }
}

/// Pushing an entry adds it last among its location.
proof fn lemma_push_at_loc(s: Seq<(Seq<i32>, Seq<u32>)>, e: (Seq<i32>, Seq<u32>), p: Seq<i32>)
    ensures at_loc(s.push(e), p) == (if e.0 == p { at_loc(s, p).push(e) } else { at_loc(s, p) }),
{
    reveal(Seq::filter);
    assert(s.push(e).drop_last() =~= s);
}

/// Entries none of which is at `p` have none there.
proof fn lemma_none_at_loc(s: Seq<(Seq<i32>, Seq<u32>)>, p: Seq<i32>)
    requires forall|i: int| 0 <= i < s.len() ==> (#[trigger] s[i]).0 != p,
    ensures at_loc(s, p).len() == 0,
    decreases s.len(),
{
    if s.len() > 0 {
        let rest = s.drop_last();
        assert forall|i: int| 0 <= i < rest.len() implies (#[trigger] rest[i]).0 != p by {
            assert(rest[i] == s[i]);
        }
        lemma_none_at_loc(rest, p);
        lemma_push_at_loc(rest, s.last(), p);
        assert(rest.push(s.last()) =~= s);
    }
}

/// Inserting an entry before every entry at a different location it does not follow adds it last
/// among its location.
proof fn lemma_insert_at_loc(s: Seq<(Seq<i32>, Seq<u32>)>, j: int, e: (Seq<i32>, Seq<u32>), p: Seq<i32>)
    requires
        0 <= j <= s.len(),
        forall|i: int| j <= i < s.len() ==> (#[trigger] s[i]).0 != e.0,
    ensures at_loc(s.insert(j, e), p) == at_loc(s.push(e), p),
{
    let pred = |x: (Seq<i32>, Seq<u32>)| x.0 == p;
    let pre = s.subrange(0, j);
    let suf = s.subrange(j, s.len() as int);
    let one = seq![e];
    assert(s.insert(j, e) =~= pre + one + suf);
    assert(s.push(e) =~= pre + suf + one);
    Seq::filter_distributes_over_add(pre + one, suf, pred);
    Seq::filter_distributes_over_add(pre, one, pred);
    Seq::filter_distributes_over_add(pre + suf, one, pred);
    Seq::filter_distributes_over_add(pre, suf, pred);
    if e.0 == p {
        assert forall|i: int| 0 <= i < suf.len() implies (#[trigger] suf[i]).0 != p by {
            assert(suf[i] == s[j + i]);
        }
        lemma_none_at_loc(suf, p);
        assert(at_loc(suf, p) =~= Seq::<(Seq<i32>, Seq<u32>)>::empty());
    } else {
        assert(forall|i: int| 0 <= i < one.len() ==> (#[trigger] one[i]).0 != p);
        lemma_none_at_loc(one, p);
        assert(at_loc(one, p) =~= Seq::<(Seq<i32>, Seq<u32>)>::empty());
    }
    assert(at_loc(pre + one + suf, p) =~= at_loc(pre + suf + one, p));
}

/// The entries ordered by location, a stable sort: entries at one location keep their order.
fn sort_entries_by_loc(entries: Vec<(LocT, Vec<u32>)>) -> (r: Vec<(LocT, Vec<u32>)>)
    ensures
        sorted_by_loc(entries_view(r@)),
        forall|p: Seq<i32>| #[trigger] at_loc(entries_view(r@), p) == at_loc(entries_view(entries@), p),
{
    let ghost input = entries_view(entries@);
    let mut rest = entries;
    let mut out: Vec<(LocT, Vec<u32>)> = Vec::new();
    let ghost mut done: int = 0;
    proof {
        assert(input.subrange(0, 0) =~= Seq::<(Seq<i32>, Seq<u32>)>::empty());
        assert(entries_view(out@) =~= Seq::<(Seq<i32>, Seq<u32>)>::empty());
        assert forall|p: Seq<i32>| #[trigger] at_loc(entries_view(out@), p) == at_loc(input.subrange(0, 0), p) by {
            reveal(Seq::filter);
        }
    }
    while rest.len() > 0
        invariant
            0 <= done <= input.len(),
            entries_view(rest@) == input.subrange(done, input.len() as int),
            sorted_by_loc(entries_view(out@)),
            forall|p: Seq<i32>| #[trigger] at_loc(entries_view(out@), p) == at_loc(input.subrange(0, done), p),
        decreases rest@.len(),
    {
        let ghost rv = entries_view(rest@);
        let e = rest.remove(0);
        proof {
            assert(rv[0] == entry_view(e));
            assert(entries_view(rest@) =~= rv.subrange(1, rv.len() as int));
        }
        let ghost ev = entry_view(e);
        let ghost before = entries_view(out@);
        let mut j: usize = 0;
        while j < out.len() && path_le_exec(&out[j].0.path, &e.0.path)
            invariant
                j <= out@.len(),
                before == entries_view(out@),
                ev == entry_view(e),
                forall|i: int| 0 <= i < j ==> path_le((#[trigger] before[i]).0, ev.0),
            decreases out@.len() - j,
        {
            j = j + 1;
        }
        proof {
            assert forall|i: int| j <= i < before.len() implies !path_le((#[trigger] before[i]).0, ev.0) by {
                if path_le(before[i].0, ev.0) {
                    assert(path_le(before[j as int].0, before[i].0));
                    lemma_path_le_transitive(before[j as int].0, before[i].0, ev.0);
                }
            }
            assert forall|i: int| j <= i < before.len() implies (#[trigger] before[i]).0 != ev.0 by {
                assert(!path_le(before[i].0, ev.0));
                lemma_path_le_reflexive(ev.0);
            }
        }
        out.insert(j, e);
        proof {
            let now = entries_view(out@);
            assert(now =~= before.insert(j as int, ev));
            before.insert_ensures(j as int, ev);
            assert(ev == input[done]);
            let pre = input.subrange(0, done + 1);
            assert(pre =~= input.subrange(0, done).push(ev));
            assert forall|p: Seq<i32>| #[trigger] at_loc(entries_view(out@), p) == at_loc(input.subrange(0, done + 1), p) by {
                lemma_insert_at_loc(before, j as int, ev, p);
                lemma_push_at_loc(input.subrange(0, done), ev, p);
                lemma_push_at_loc(before, ev, p);
            }
            assert forall|a: int, b: int| 0 <= a < b < now.len() implies path_le(now[a].0, now[b].0) by {
                if b < j {
                } else if b == j {
                    assert(now[a] == before[a]);
                } else if a < j {
                    assert(now[b] == before[b - 1]);
                    assert(now[a] == before[a]);
                    assert(path_le(before[a].0, ev.0));
                    lemma_path_le_total(before[b - 1].0, ev.0);
                    lemma_path_le_transitive(before[a].0, ev.0, before[b - 1].0);
                } else if a == j {
                    assert(now[b] == before[b - 1]);
                    lemma_path_le_total(before[b - 1].0, ev.0);
                } else {
                    assert(now[b] == before[b - 1]);
                    assert(now[a] == before[a - 1]);
                }
            }
            done = done + 1;
        }
    }
    proof {
        assert(input.subrange(0, done) =~= input);
    }
    out
}

/// The entry a load or store makes: its group's number, if the group is numbered.
fn load_store_entry(interner: &Interner, index_by_name: &IndexMap<String, u32>, groups: &Vec<GroupIdT>, group: &Vec<GroupStep>, loct: &LocT)
    -> (r: Option<(LocT, Vec<u32>)>)
    requires
        no_variant(group@),
        name_entries(*index_by_name) == numbered(*interner, groups_view(groups@)),
    ensures
        match group_number(*interner, groups_view(groups@), group@) {
            Some(i) => r is Some && entry_view(r->0) == (loct@, seq![i]),
            None => r is None,
        },
{
    if group.len() == 0 {
        return None;
    }
    let ids = group_id_steps(group);
    let name = group_name(interner, &ids);
    proof { lemma_find_key(numbered(*interner, groups_view(groups@)), name@); }
    match name_map_get(index_by_name, &name) {
        Some(idx) => {
            let set = vec![idx];
            Some((loct.copy(), set))
        },
        None => None,
    }
}

/// Number the groups and record, per instruction, the groups it accesses. Every parameter's group
/// is numbered first (even one never accessed), then each further group a load or store accesses; a
/// group only a call argument reaches is not numbered. Groups are told apart by their full paths'
/// names, so a child group such as `l.tiles[]` is its own. The entries come sorted by location.
fn compute_group_facts(interner: &Interner, log: &Vec<AccessEventG>, param_paths: &Vec<Option<Vec<GroupStep>>>)
    -> (r: (Vec<GroupIdT>, Vec<(LocT, Vec<u32>)>))
    requires aliasing_input_ok(param_paths@, log@),
    ensures
        groups_view(r.0@) == group_universe(*interner, param_paths@, log@),
        sorted_by_loc(entries_view(r.1@)),
        forall|p: Seq<i32>| #[trigger] at_loc(entries_view(r.1@), p)
            == at_loc(logged_entries(*interner, group_universe(*interner, param_paths@, log@), log@), p),
{
    let mut index_by_name = name_map_new();
    let mut groups: Vec<GroupIdT> = Vec::new();
    let ghost pc = param_candidates(param_paths@);
    let ghost lc = log_candidates(log@);
    let ghost all = pc + lc;
    let ghost np = param_paths@.len() as int;
    proof {
        assert(numbered(*interner, groups_view(groups@)) =~= Seq::<(Seq<char>, u32)>::empty());
        assert(groups_view(groups@) =~= number_groups(*interner, all.subrange(0, 0)));
    }
    let mut i: usize = 0;
    while i < param_paths.len()
        invariant
            i <= param_paths@.len(),
            np == param_paths@.len(),
            aliasing_input_ok(param_paths@, log@),
            pc == param_candidates(param_paths@),
            lc == log_candidates(log@),
            all == pc + lc,
            name_entries(index_by_name) == numbered(*interner, groups_view(groups@)),
            groups@.len() <= i,
            groups_view(groups@) == number_groups(*interner, all.subrange(0, i as int)),
        decreases param_paths@.len() - i,
    {
        proof {
            let pre = all.subrange(0, i + 1);
            assert(pre.drop_last() =~= all.subrange(0, i as int));
            assert(pre.last() == pc[i as int]);
            assert(param_path_ok(param_paths@[i as int]));
        }
        if let Some(steps) = &param_paths[i] {
            intern_group(interner, steps, &mut index_by_name, &mut groups);
        }
        i = i + 1;
    }
    let mut k: usize = 0;
    while k < log.len()
        invariant
            k <= log@.len(),
            np == param_paths@.len(),
            aliasing_input_ok(param_paths@, log@),
            pc == param_candidates(param_paths@),
            lc == log_candidates(log@),
            all == pc + lc,
            name_entries(index_by_name) == numbered(*interner, groups_view(groups@)),
            groups@.len() <= np + k,
            groups_view(groups@) == number_groups(*interner, all.subrange(0, np + k)),
        decreases log@.len() - k,
    {
        proof {
            let pre = all.subrange(0, np + k + 1);
            assert(pre.drop_last() =~= all.subrange(0, np + k));
            assert(pre.last() == lc[k as int]);
            assert(event_ok(log@[k as int]));
        }
        match &log[k] {
            AccessEventG::Read { group, .. } => intern_group(interner, group, &mut index_by_name, &mut groups),
            AccessEventG::Store { group, .. } => intern_group(interner, group, &mut index_by_name, &mut groups),
            _ => {},
        }
        k = k + 1;
    }
    let ghost u = groups_view(groups@);
    proof {
        assert(all.subrange(0, np + log@.len()) =~= all);
        assert(u == group_universe(*interner, param_paths@, log@));
        assert(log@.subrange(0, 0) =~= Seq::<AccessEventG>::empty());
    }
    let mut entries: Vec<(LocT, Vec<u32>)> = Vec::new();
    let mut k: usize = 0;
    while k < log.len()
        invariant
            k <= log@.len(),
            aliasing_input_ok(param_paths@, log@),
            u == groups_view(groups@),
            groups@.len() < u32::MAX,
            name_entries(index_by_name) == numbered(*interner, u),
            entries_view(entries@) == logged_entries(*interner, u, log@.subrange(0, k as int)),
        decreases log@.len() - k,
    {
        proof {
            let pre = log@.subrange(0, k + 1);
            assert(pre.drop_last() =~= log@.subrange(0, k as int));
            assert(pre.last() == log@[k as int]);
            assert(event_ok(log@[k as int]));
        }
        let ghost before = entries_view(entries@);
        match &log[k] {
            AccessEventG::Read { group, loct } => {
                if let Some(entry) = load_store_entry(interner, &index_by_name, &groups, group, loct) {
                    entries.push(entry);
                    proof { assert(entries_view(entries@) =~= before.push(entry_view(entry))); }
                }
            },
            AccessEventG::Store { group, loct } => {
                if let Some(entry) = load_store_entry(interner, &index_by_name, &groups, group, loct) {
                    entries.push(entry);
                    proof { assert(entries_view(entries@) =~= before.push(entry_view(entry))); }
                }
            },
            AccessEventG::Call { touched, loct } => {
                let set = touched_by_call(&groups, touched);
                let entry = (loct.copy(), set);
                entries.push(entry);
                proof { assert(entries_view(entries@) =~= before.push(entry_view(entry))); }
            },
            AccessEventG::Marker { .. } => {},
        }
        k = k + 1;
    }
    proof {
        assert(log@.subrange(0, log@.len() as int) =~= log@);
    }
    let sorted = sort_entries_by_loc(entries);
    (groups, sorted)
}

} // verus!
