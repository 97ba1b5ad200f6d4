//! What the usage check computes, stated as a walk over values: the pending uses, the pending
//! entries' contents, the post-loop sets of the enclosing loops, the errors found, and the counter
//! that names held temporaries. Each step of the backward walk is one function from state to state.

use vstd::prelude::*;
use crate::range::RangeS;
use crate::names::{IRuneS, IVarNameT};
use crate::interner::StrI;
use crate::borrow_checker::ast_g::{ExpressionGE, GroupStep, MutEffectPath, LocalVariableG, children_of, result_of, own_range, lemma_children_smaller, place_root};
use crate::borrow_checker::borrow_error::BorrowErrorKind;
use crate::borrow_checker::check_usages_types::RefKey;
use crate::borrow_checker::group_expr::GroupPathV;
use crate::borrow_checker::kind_g::{KindGT, kind_mentions};
use crate::borrow_checker::experimental::grouped_ast::{
    JointFact, flat, aliases, written_root_rune, declared_param_rune, code_rune_name, moved_local_of, place_range,
};
use crate::borrow_checker::experimental::check_usages::{
    key_code, churn_kept, churn_reports, churns_undeclared, extends, entry_reached, spoiled_report, law_churn_reports_reached_use,
};
use crate::compiler_error_reporter::ICompileErrorT;
use crate::index_map::find_key;
use crate::postparsing::{EffectS, FunctionS, ParameterS};
use crate::typing::compiler::{CompilerOutputs, function_template};

verus! {

/// A pending entry's contents: where its use is, and every group path the value may point into.
#[verifier::ext_equal]
pub struct PendingV {
    pub use_range: RangeS,
    pub mentions: Seq<GroupPathV>,
}

/// The walk's state.
#[verifier::ext_equal]
pub struct WalkV {
    pub pending: Seq<((u32, u32), usize)>,
    pub slots: Seq<PendingV>,
    pub targets: Seq<Seq<((u32, u32), usize)>>,
    pub errors: Seq<ICompileErrorT>,
    pub next_held: int,
}

/// The state a walk starts from: nothing pending, no loop, no error.
pub open spec fn walk_start() -> WalkV {
    WalkV { pending: Seq::empty(), slots: Seq::empty(), targets: Seq::empty(), errors: Seq::empty(), next_held: 0 }
}

/// `a` followed by each path of `b` that it does not hold yet.
pub open spec fn union_paths(a: Seq<GroupPathV>, b: Seq<GroupPathV>) -> Seq<GroupPathV>
    decreases b.len(),
{
    if b.len() == 0 {
        a
    } else {
        let acc = union_paths(a, b.drop_last());
        if acc.contains(b.last()) { acc } else { acc.push(b.last()) }
    }
}

/// Two entries for one key, merged: the earlier use is the one reported, and the value may point
/// into either's groups.
pub open spec fn merge_v(existing: PendingV, entry: PendingV) -> PendingV {
    PendingV {
        use_range: if entry.use_range.begin.offset < existing.use_range.begin.offset { entry.use_range } else { existing.use_range },
        mentions: union_paths(existing.mentions, entry.mentions),
    }
}

pub open spec fn with_pending(s: WalkV, pending: Seq<((u32, u32), usize)>) -> WalkV {
    WalkV { pending, slots: s.slots, targets: s.targets, errors: s.errors, next_held: s.next_held }
}

pub open spec fn with_errors(s: WalkV, errors: Seq<ICompileErrorT>) -> WalkV {
    WalkV { pending: s.pending, slots: s.slots, targets: s.targets, errors, next_held: s.next_held }
}

pub open spec fn with_targets(s: WalkV, targets: Seq<Seq<((u32, u32), usize)>>) -> WalkV {
    WalkV { pending: s.pending, slots: s.slots, targets, errors: s.errors, next_held: s.next_held }
}

/// Point `code` at `slot`, merging into the entry already under `code`, if any, in its place.
pub open spec fn insert_v(s: WalkV, code: (u32, u32), slot: usize) -> WalkV {
    match find_key(s.pending, code) {
        Some(i) => WalkV {
            pending: s.pending.update(i, (code, s.slots.len() as usize)),
            slots: s.slots.push(merge_v(s.slots[s.pending[i].1 as int], s.slots[slot as int])),
            targets: s.targets,
            errors: s.errors,
            next_held: s.next_held,
        },
        None => with_pending(s, s.pending.push((code, slot))),
    }
}

/// The node a value is read through: past any number of decays.
pub open spec fn strip_v(e: ExpressionGE) -> ExpressionGE
    decreases e,
{
    match e {
        ExpressionGE::Deref(d) => strip_v(*d.inner),
        _ => e,
    }
}

/// How a consumed value is keyed and where its use is reported.
pub open spec fn use_key_v(s: WalkV, e: ExpressionGE) -> (RefKey, RangeS, WalkV) {
    match strip_v(e) {
        ExpressionGE::LocalLookup(l) => (RefKey::Named(l.local_variable.name), l.range, s),
        ExpressionGE::Unlet(u) => (RefKey::Named(u.variable.name), u.range, s),
        other => (RefKey::Held(s.next_held as u32), own_range(other),
            WalkV { pending: s.pending, slots: s.slots, targets: s.targets, errors: s.errors, next_held: s.next_held + 1 }),
    }
}

/// Mark a consumed value as pending, if it carries any group.
pub open spec fn register_v(s: WalkV, e: ExpressionGE) -> (Option<RefKey>, WalkV) {
    let m = kind_mentions(result_of(e));
    if m.len() == 0 {
        (None, s)
    } else {
        let (k, r, s1) = use_key_v(s, e);
        let s2 = WalkV {
            pending: s1.pending,
            slots: s1.slots.push(PendingV { use_range: r, mentions: m }),
            targets: s1.targets,
            errors: s1.errors,
            next_held: s1.next_held,
        };
        (Some(k), insert_v(s2, key_code(k), s1.slots.len() as usize))
    }
}

/// The value under `key` is born here: its entry goes.
pub open spec fn retire_v(s: WalkV, key: Option<RefKey>) -> WalkV {
    match key {
        Some(k) => match find_key(s.pending, key_code(k)) {
            Some(i) => with_pending(s, s.pending.remove(i)),
            None => s,
        },
        None => s,
    }
}

/// The value under `from` is supplied by `to`.
pub open spec fn rekey_v(s: WalkV, from: RefKey, to: RefKey) -> WalkV {
    match find_key(s.pending, key_code(from)) {
        Some(i) => insert_v(with_pending(s, s.pending.remove(i)), key_code(to), s.pending[i].1),
        None => s,
    }
}

/// The key to hand a local's initializer.
pub open spec fn pending_key_v(s: WalkV, k: RefKey) -> Option<RefKey> {
    if find_key(s.pending, key_code(k)) is Some { Some(k) } else { None }
}

/// A churn of `steps` made at `at`: every pending value it reaches is reported and dropped.
pub open spec fn churn_v(s: WalkV, steps: Seq<GroupStep>, at: RangeS) -> WalkV {
    WalkV {
        pending: churn_kept(s.slots, s.pending, steps),
        slots: s.slots,
        targets: s.targets,
        errors: s.errors + churn_reports(s.slots, s.pending, steps, at),
        next_held: s.next_held,
    }
}

/// A call's first `p` churns, each reported at the call if no declared `mut` covers it.
pub open spec fn effects_v(d: Seq<Seq<GroupStep>>, at: RangeS, effects: Seq<MutEffectPath>, p: int, s: WalkV) -> WalkV
    decreases p,
{
    if p <= 0 {
        s
    } else {
        let s1 = effects_v(d, at, effects, p - 1, s);
        let steps = effects[p - 1].steps@;
        let s2 = if churns_undeclared(d, steps) {
            with_errors(s1, s1.errors.push(ICompileErrorT::BorrowCheckError { range: at, kind: BorrowErrorKind::UndeclaredChurn }))
        } else {
            s1
        };
        churn_v(s2, steps, effects[p - 1].range)
    }
}

/// A loop's first `p` churns.
pub open spec fn loop_churns_v(effects: Seq<MutEffectPath>, p: int, s: WalkV) -> WalkV
    decreases p,
{
    if p <= 0 { s } else { churn_v(loop_churns_v(effects, p - 1, s), effects[p - 1].steps@, effects[p - 1].range) }
}

/// The first `v` destructured locals are born.
pub open spec fn retire_all_v(vars: Seq<LocalVariableG>, v: int, s: WalkV) -> WalkV
    decreases v,
{
    if v <= 0 { s } else { retire_v(retire_all_v(vars, v - 1, s), Some(RefKey::Named(vars[v - 1].name))) }
}

/// The first `i` entries of another arm merged in.
pub open spec fn merge_into_v(s: WalkV, other: Seq<((u32, u32), usize)>, i: int) -> WalkV
    decreases i,
{
    if i <= 0 { s } else { insert_v(merge_into_v(s, other, i - 1), other[i - 1].0, other[i - 1].1) }
}

/// Where an argument borrows, if it is a borrow rooted in a local: the local, the borrowed group's
/// path, and the argument's range.
pub open spec fn place_v(a: ExpressionGE) -> Option<(IVarNameT, Seq<GroupStep>, RangeS)> {
    match place_root(a) {
        Some(root) => match result_of(a) {
            KindGT::BorrowRef(b) => match place_range(a) {
                Some(range) => Some((root, flat(b.group.group@[0]@), range)),
                None => None,
            },
            _ => None,
        },
        None => None,
    }
}

/// Borrow-into-moved facts of argument `i` against the first `j` arguments.
pub open spec fn moved_row(args: Seq<ExpressionGE>, i: int, j: int) -> Seq<JointFact>
    decreases j,
{
    if j <= 0 {
        Seq::empty()
    } else {
        let rest = moved_row(args, i, j - 1);
        let k = j - 1;
        match place_v(args[i]) {
            Some((root, _, range)) => if i != k && moved_local_of(args[k]) == Some(root) {
                rest.push(JointFact::BorrowIntoMoved { local: root, borrow_arg: i as usize, move_arg: k as usize, range })
            } else {
                rest
            },
            None => rest,
        }
    }
}

/// Borrow-into-moved facts of the first `i` arguments.
pub open spec fn moved_facts(args: Seq<ExpressionGE>, i: int) -> Seq<JointFact>
    decreases i,
{
    if i <= 0 { Seq::empty() } else { moved_facts(args, i - 1) + moved_row(args, i - 1, args.len() as int) }
}

/// The group rune the `i`th parameter is declared in, if any.
pub open spec fn param_rune_at(params: Seq<ParameterS>, i: int) -> Option<IRuneS> {
    if i < params.len() { declared_param_rune(params[i]) } else { None }
}

/// The roots of the first `q` effects that mutate a written group.
pub open spec fn mutated_runes(effects: Seq<EffectS>, q: int) -> Seq<IRuneS>
    decreases q,
{
    if q <= 0 {
        Seq::empty()
    } else {
        let rest = mutated_runes(effects, q - 1);
        match effects[q - 1] {
            EffectS::Mut(gs) => match written_root_rune(gs) {
                Some(r) => rest.push(r),
                None => rest,
            },
            _ => rest,
        }
    }
}

/// The aliasing fact for arguments `i` and `k`, if any.
pub open spec fn alias_cell(args: Seq<ExpressionGE>, params: Seq<ParameterS>, mutated: Seq<IRuneS>, i: int, k: int) -> Seq<JointFact> {
    match (place_v(args[i]), place_v(args[k])) {
        (Some((root_i, path_i, range_i)), Some((_, path_k, _))) => match (param_rune_at(params, i), param_rune_at(params, k)) {
            (Some(ri), Some(rk)) => if ri != rk && (mutated.contains(ri) || mutated.contains(rk)) && aliases(path_i, path_k) {
                match (code_rune_name(ri), code_rune_name(rk)) {
                    (Some(ga), Some(gb)) => seq![JointFact::AliasingDisjointMut {
                        local: root_i, arg_a: i as usize, arg_b: k as usize, group_a: ga, group_b: gb, range: range_i }],
                    _ => Seq::empty(),
                }
            } else {
                Seq::empty()
            },
            _ => Seq::empty(),
        },
        _ => Seq::empty(),
    }
}

/// Aliasing facts of argument `i` against the arguments after it and before `j`.
pub open spec fn alias_row(args: Seq<ExpressionGE>, params: Seq<ParameterS>, mutated: Seq<IRuneS>, i: int, j: int) -> Seq<JointFact>
    decreases j,
{
    if j <= i + 1 || j <= 0 { Seq::empty() } else { alias_row(args, params, mutated, i, j - 1) + alias_cell(args, params, mutated, i, j - 1) }
}

/// Aliasing facts of the first `i` arguments.
pub open spec fn alias_facts(args: Seq<ExpressionGE>, params: Seq<ParameterS>, mutated: Seq<IRuneS>, i: int) -> Seq<JointFact>
    decreases i,
{
    if i <= 0 { Seq::empty() } else { alias_facts(args, params, mutated, i - 1) + alias_row(args, params, mutated, i - 1, args.len() as int) }
}

/// The joint-argument facts at a call of `callable` with `args`: none when the callee cannot be
/// resolved; else every borrow into a moved sibling, then every pair of aliasing borrows bound to
/// parameters in distinct groups one of which is mutated.
pub open spec fn joint_facts_v(co: CompilerOutputs, callable_id: u32, args: Seq<ExpressionGE>) -> Seq<JointFact> {
    match function_template(co, callable_id) {
        Some(f) => moved_facts(args, args.len() as int)
            + alias_facts(args, f.params@, mutated_runes(f.effects@, f.effects@.len() as int), args.len() as int),
        None => Seq::empty(),
    }
}

/// The error a joint fact is reported as.
pub open spec fn joint_error_v(f: JointFact) -> ICompileErrorT {
    match f {
        JointFact::BorrowIntoMoved { local, borrow_arg, move_arg, range } => ICompileErrorT::BorrowCheckError {
            range,
            kind: BorrowErrorKind::BorrowIntoMovedArgument { local, borrow_arg, move_arg },
        },
        JointFact::AliasingDisjointMut { local, arg_a, arg_b, group_a, group_b, range } => ICompileErrorT::BorrowCheckError {
            range,
            kind: BorrowErrorKind::AliasingIntoDisjointMutGroups { local, arg_a, arg_b, group_a, group_b },
        },
    }
}

/// Walking `node` backward from `s`, with `key` the pending entry its value is held under.
pub open spec fn sw(co: CompilerOutputs, d: Seq<Seq<GroupStep>>, node: ExpressionGE, key: Option<RefKey>, s: WalkV) -> WalkV
    decreases node, 2int, 0int,
{
    match node {
        ExpressionGE::LocalLookup(l) => match key {
            Some(from) => rekey_v(s, from, RefKey::Named(l.local_variable.name)),
            None => s,
        },
        ExpressionGE::Unlet(u) => match key {
            Some(from) => rekey_v(s, from, RefKey::Named(u.variable.name)),
            None => s,
        },
        ExpressionGE::ArgLookup(_) | ExpressionGE::VoidLiteral(_) | ExpressionGE::ConstantInt(_)
        | ExpressionGE::ConstantBool(_) | ExpressionGE::ConstantStr(_) | ExpressionGE::ConstantFloat(_) => retire_v(s, key),
        ExpressionGE::Deref(dr) => match dr.result {
            KindGT::BorrowRef(_) => sw(co, d, *dr.inner, key, s),
            _ => {
                let (k, s2) = register_v(retire_v(s, key), *dr.inner);
                sw(co, d, *dr.inner, k, s2)
            },
        },
        ExpressionGE::CopyPrim(e) => {
            let (k, s2) = register_v(retire_v(s, key), *e.inner);
            sw(co, d, *e.inner, k, s2)
        },
        ExpressionGE::RuntimeSizedArrayLookup(e) => {
            let (k, s2) = register_v(retire_v(s, key), *e.array_expr);
            sw(co, d, *e.array_expr, k, sw(co, d, *e.index_expr, None, s2))
        },
        ExpressionGE::StaticSizedArrayLookup(e) => {
            let (k, s2) = register_v(retire_v(s, key), *e.array_expr);
            sw(co, d, *e.array_expr, k, sw(co, d, *e.index_expr, None, s2))
        },
        ExpressionGE::MemberLookup(e) => {
            let (k, s2) = register_v(retire_v(s, key), *e.struct_expr);
            sw(co, d, *e.struct_expr, k, s2)
        },
        ExpressionGE::FunctionCall(call) => {
            let s2 = effects_v(d, call.range, call.mut_effects@, call.mut_effects@.len() as int, retire_v(s, key));
            let facts = joint_facts_v(co, call.callable.id, call.args@);
            let s3 = if facts.len() > 0 { with_errors(s2, s2.errors.push(joint_error_v(facts[0]))) } else { s2 };
            args_v(co, d, node, s3)
        },
        ExpressionGE::InterfaceFunctionCall(_) | ExpressionGE::ExternFunctionCall(_) | ExpressionGE::BoundFunctionCall(_) =>
            args_v(co, d, node, retire_v(s, key)),
        ExpressionGE::LetNormal(e) => {
            let s1 = retire_v(s, key);
            sw(co, d, *e.expr, pending_key_v(s1, RefKey::Named(e.variable.name)), s1)
        },
        ExpressionGE::LetAndLend(e) => {
            let s1 = retire_v(s, key);
            sw(co, d, *e.expr, pending_key_v(s1, RefKey::Named(e.variable.name)), s1)
        },
        ExpressionGE::Restackify(e) => {
            let s1 = retire_v(s, key);
            sw(co, d, *e.source_expr, pending_key_v(s1, RefKey::Named(e.variable.name)), s1)
        },
        ExpressionGE::Mutate(m) => {
            let s1 = retire_v(s, key);
            let (k, s2) = match *m.destination_expr {
                ExpressionGE::LocalLookup(l) => (pending_key_v(s1, RefKey::Named(l.local_variable.name)), s1),
                _ => register_v(s1, *m.source_expr),
            };
            sw(co, d, *m.destination_expr, None, sw(co, d, *m.source_expr, k, s2))
        },
        ExpressionGE::Return(r) => {
            let (k, s2) = register_v(with_pending(retire_v(s, key), Seq::empty()), *r.source_expr);
            sw(co, d, *r.source_expr, k, s2)
        },
        ExpressionGE::Break(_) => {
            let s1 = retire_v(s, key);
            with_pending(s1, s1.targets.last())
        },
        ExpressionGE::If(e) => {
            let s1 = sw(co, d, *e.then_call, key, s);
            let s2 = sw(co, d, *e.else_call, key, with_pending(s1, s.pending));
            let s3 = merge_into_v(with_pending(s2, s1.pending), s2.pending, s2.pending.len() as int);
            sw(co, d, *e.condition, None, s3)
        },
        ExpressionGE::While(w) => {
            let s1 = retire_v(s, key);
            let s3 = sw(co, d, *w.block.inner, None, with_targets(s1, s1.targets.push(s1.pending)));
            loop_churns_v(w.mut_effects@, w.mut_effects@.len() as int, with_targets(s3, s3.targets.drop_last()))
        },
        ExpressionGE::Block(b) => sw(co, d, *b.inner, key, s),
        ExpressionGE::Consecutor(c) => {
            let n = c.exprs@.len() as int;
            consec_v(co, d, node, key, if n == 0 { 0 } else { n - 1 }, n, s)
        },
        ExpressionGE::Discard(e) => sw(co, d, *e.expr, None, retire_v(s, key)),
        ExpressionGE::Destroy(e) => {
            let s2 = retire_all_v(e.destination_reference_variables@, e.destination_reference_variables@.len() as int, retire_v(s, key));
            let (k, s3) = register_v(s2, *e.expr);
            sw(co, d, *e.expr, k, s3)
        },
        ExpressionGE::DestroyStaticSizedArrayIntoLocals(e) => {
            let s2 = retire_all_v(e.destination_reference_variables@, e.destination_reference_variables@.len() as int, retire_v(s, key));
            let (k, s3) = register_v(s2, *e.expr);
            sw(co, d, *e.expr, k, s3)
        },
        ExpressionGE::Reinterpret(e) => sw(co, d, *e.expr, key, s),
        ExpressionGE::AsSubtype(e) => sw(co, d, *e.source_expr, key, s),
        ExpressionGE::InterfaceToInterfaceUpcast(e) => sw(co, d, *e.inner_expr, key, s),
        ExpressionGE::UpcastInterface(e) => sw(co, d, *e.inner_expr, key, s),
        ExpressionGE::UpcastGeneric(e) => sw(co, d, *e.inner_expr, key, s),
        _ => args_v(co, d, node, retire_v(s, key)),
    }
}

/// A sequence's children from the `j`th back to the first, the `last` one under `key`.
pub open spec fn consec_v(co: CompilerOutputs, d: Seq<Seq<GroupStep>>, node: ExpressionGE, key: Option<RefKey>, last: int, j: int, s: WalkV) -> WalkV
    decreases node, 1int, j,
{
    if j <= 0 || j > children_of(node).len() {
        s
    } else {
        proof { lemma_children_smaller(node); }
        let i = j - 1;
        consec_v(co, d, node, key, last, j - 1, sw(co, d, children_of(node)[i], if i == last { key } else { None }, s))
    }
}

/// Consume a node's children: register each as a use, then walk them in reverse.
pub open spec fn args_v(co: CompilerOutputs, d: Seq<Seq<GroupStep>>, node: ExpressionGE, s: WalkV) -> WalkV
    decreases node, 1int, 0int,
{
    let n = children_of(node).len() as int;
    let (keys, s1) = register_kids_v(children_of(node), n, s);
    walk_kids_v(co, d, node, keys, n, s1)
}

/// Register the first `i` children.
pub open spec fn register_kids_v(kids: Seq<ExpressionGE>, i: int, s: WalkV) -> (Seq<Option<RefKey>>, WalkV)
    decreases i,
{
    if i <= 0 {
        (Seq::empty(), s)
    } else {
        let (ks, s1) = register_kids_v(kids, i - 1, s);
        let (k, s2) = register_v(s1, kids[i - 1]);
        (ks.push(k), s2)
    }
}

/// Walk children `j - 1` down to `0`, each under its key.
pub open spec fn walk_kids_v(co: CompilerOutputs, d: Seq<Seq<GroupStep>>, node: ExpressionGE, keys: Seq<Option<RefKey>>, j: int, s: WalkV) -> WalkV
    decreases node, 0int, j,
{
    if j <= 0 || j > children_of(node).len() {
        s
    } else {
        proof { lemma_children_smaller(node); }
        walk_kids_v(co, d, node, keys, j - 1, sw(co, d, children_of(node)[j - 1], keys[j - 1], s))
    }
}

/// Extension is transitive.
proof fn lemma_grows_trans(a: Seq<ICompileErrorT>, b: Seq<ICompileErrorT>, c: Seq<ICompileErrorT>)
    requires extends(b, a), extends(c, b),
    ensures extends(c, a),
{
    assert(c.subrange(0, a.len() as int) =~= b.subrange(0, a.len() as int));
}

proof fn lemma_grows_refl(a: Seq<ICompileErrorT>)
    ensures extends(a, a),
{
    assert(a.subrange(0, a.len() as int) =~= a);
}

proof fn lemma_grows_add(a: Seq<ICompileErrorT>, b: Seq<ICompileErrorT>)
    ensures extends(a + b, a),
{
    assert((a + b).subrange(0, a.len() as int) =~= a);
}

/// What is found stays found as errors are added.
proof fn lemma_found_stays(a: Seq<ICompileErrorT>, b: Seq<ICompileErrorT>, x: ICompileErrorT)
    requires extends(b, a), a.contains(x),
    ensures b.contains(x),
{
    let i = choose|i: int| 0 <= i < a.len() && a[i] == x;
    assert(b.subrange(0, a.len() as int)[i] == b[i]);
}

/// Through churns that do not reach it, a pending use stays pending, and the entries' contents stay.
proof fn lemma_effects_keep(d: Seq<Seq<GroupStep>>, at: RangeS, effects: Seq<MutEffectPath>, q: int, s: WalkV, e: ((u32, u32), usize))
    requires
        s.pending.contains(e),
        0 <= q <= effects.len(),
        forall|r: int| 0 <= r < q ==> !entry_reached(s.slots, e, #[trigger] effects[r].steps@),
    ensures
        effects_v(d, at, effects, q, s).pending.contains(e),
        effects_v(d, at, effects, q, s).slots == s.slots,
    decreases q,
{
    if q > 0 {
        lemma_effects_keep(d, at, effects, q - 1, s, e);
        let s1 = effects_v(d, at, effects, q - 1, s);
        let steps = effects[q - 1].steps@;
        let s2 = if churns_undeclared(d, steps) {
            with_errors(s1, s1.errors.push(ICompileErrorT::BorrowCheckError { range: at, kind: BorrowErrorKind::UndeclaredChurn }))
        } else { s1 };
        assert(s2.pending == s1.pending && s2.slots == s1.slots);
        assert(!entry_reached(s.slots, e, effects[q - 1].steps@));
        law_churn_reports_reached_use(s2, steps, effects[q - 1].range, e);
    }
}

/// Later churns of a call only add errors.
proof fn lemma_effects_grow_from(d: Seq<Seq<GroupStep>>, at: RangeS, effects: Seq<MutEffectPath>, p1: int, p2: int, s: WalkV)
    requires 0 <= p1 <= p2,
    ensures extends(effects_v(d, at, effects, p2, s).errors, effects_v(d, at, effects, p1, s).errors),
    decreases p2,
{
    if p2 == p1 {
        lemma_grows_refl(effects_v(d, at, effects, p1, s).errors);
    } else {
        lemma_effects_grow_from(d, at, effects, p1, p2 - 1, s);
        let s1 = effects_v(d, at, effects, p2 - 1, s);
        let steps = effects[p2 - 1].steps@;
        let s2 = if churns_undeclared(d, steps) {
            with_errors(s1, s1.errors.push(ICompileErrorT::BorrowCheckError { range: at, kind: BorrowErrorKind::UndeclaredChurn }))
        } else { s1 };
        assert(extends(s2.errors, s1.errors)) by {
            assert(s2.errors.subrange(0, s1.errors.len() as int) =~= s1.errors);
        }
        lemma_grows_add(s2.errors, churn_reports(s2.slots, s2.pending, steps, effects[p2 - 1].range));
        lemma_grows_trans(effects_v(d, at, effects, p1, s).errors, s1.errors, s2.errors);
        lemma_grows_trans(effects_v(d, at, effects, p1, s).errors, s2.errors, effects_v(d, at, effects, p2, s).errors);
    }
}

/// A call's churns spoil every value pending across the call that one of them reaches: the use is
/// reported, naming the first of the call's churns that reaches it. (What the call's arguments
/// report is walked after this, and only adds to it: the walk's steps never drop an error.)
pub proof fn law_call_reports_spoiled_uses(d: Seq<Seq<GroupStep>>, node: ExpressionGE, key: Option<RefKey>,
    s: WalkV, e: ((u32, u32), usize), p: int)
    requires
        node is FunctionCall,
        retire_v(s, key).pending.contains(e),
        0 <= p < node->FunctionCall_0.mut_effects@.len(),
        entry_reached(s.slots, e, node->FunctionCall_0.mut_effects@[p].steps@),
        forall|q: int| 0 <= q < p ==> !entry_reached(s.slots, e, #[trigger] node->FunctionCall_0.mut_effects@[q].steps@),
    ensures
        effects_v(d, node->FunctionCall_0.range, node->FunctionCall_0.mut_effects@, node->FunctionCall_0.mut_effects@.len() as int,
            retire_v(s, key)).errors.contains(spoiled_report(s.slots, e, node->FunctionCall_0.mut_effects@[p].range)),
{
    let call = node->FunctionCall_0;
    let effects = call.mut_effects@;
    let s1 = retire_v(s, key);
    assert(s1.slots == s.slots);
    lemma_effects_keep(d, call.range, effects, p, s1, e);
    let sp = effects_v(d, call.range, effects, p, s1);
    let steps = effects[p].steps@;
    let s2 = if churns_undeclared(d, steps) {
        with_errors(sp, sp.errors.push(ICompileErrorT::BorrowCheckError { range: call.range, kind: BorrowErrorKind::UndeclaredChurn }))
    } else { sp };
    assert(s2.pending == sp.pending && s2.slots == s.slots);
    law_churn_reports_reached_use(s2, steps, effects[p].range, e);
    let x = spoiled_report(s.slots, e, effects[p].range);
    assert(effects_v(d, call.range, effects, p + 1, s1) == churn_v(s2, steps, effects[p].range));
    let n = effects.len() as int;
    lemma_effects_grow_from(d, call.range, effects, p + 1, n, s1);
    lemma_found_stays(churn_v(s2, steps, effects[p].range).errors, effects_v(d, call.range, effects, n, s1).errors, x);
}

/// A mutating effect's root rune is among the runes a callee mutates.
proof fn lemma_mutated_runes_contains(effects: Seq<EffectS>, q: int, n: int, r: IRuneS)
    requires
        0 <= q < n <= effects.len(),
        effects[q] matches EffectS::Mut(gs) && written_root_rune(gs) == Some(r),
    ensures mutated_runes(effects, n).contains(r),
    decreases n,
{
    if n - 1 == q {
        assert(mutated_runes(effects, n).last() == r);
    } else {
        lemma_mutated_runes_contains(effects, q, n - 1, r);
        let prev = mutated_runes(effects, n - 1);
        let k = choose|k: int| 0 <= k < prev.len() && prev[k] == r;
        assert(mutated_runes(effects, n)[k] == r);
    }
}

/// Argument `i`'s aliasing facts against the arguments before `n` hold its fact against `j`.
proof fn lemma_alias_row_contains(args: Seq<ExpressionGE>, params: Seq<ParameterS>, mutated: Seq<IRuneS>, i: int, j: int, n: int, x: JointFact)
    requires 0 <= i < j < n, alias_cell(args, params, mutated, i, j).contains(x),
    ensures alias_row(args, params, mutated, i, n).contains(x),
    decreases n,
{
    let prev = alias_row(args, params, mutated, i, n - 1);
    let cell = alias_cell(args, params, mutated, i, n - 1);
    if n - 1 == j {
        let k = choose|k: int| 0 <= k < cell.len() && cell[k] == x;
        assert((prev + cell)[prev.len() + k] == x);
    } else {
        lemma_alias_row_contains(args, params, mutated, i, j, n - 1, x);
        let k = choose|k: int| 0 <= k < prev.len() && prev[k] == x;
        assert((prev + cell)[k] == x);
    }
}

/// The aliasing facts of the first `m` arguments hold those of argument `i < m`.
proof fn lemma_alias_facts_contains(args: Seq<ExpressionGE>, params: Seq<ParameterS>, mutated: Seq<IRuneS>, i: int, m: int, x: JointFact)
    requires 0 <= i < m, alias_row(args, params, mutated, i, args.len() as int).contains(x),
    ensures alias_facts(args, params, mutated, m).contains(x),
    decreases m,
{
    let prev = alias_facts(args, params, mutated, m - 1);
    let row = alias_row(args, params, mutated, m - 1, args.len() as int);
    if m - 1 == i {
        let k = choose|k: int| 0 <= k < row.len() && row[k] == x;
        assert((prev + row)[prev.len() + k] == x);
    } else {
        lemma_alias_facts_contains(args, params, mutated, i, m - 1, x);
        let k = choose|k: int| 0 <= k < prev.len() && prev[k] == x;
        assert((prev + row)[k] == x);
    }
}

/// Two arguments of a call that borrow into overlapping group paths (one a prefix of the other),
/// passed to parameters the callee declares in distinct group runes of which it declares at least
/// one `mut`, are a joint fact of the call: aliasing borrows into disjoint mutated groups, at the
/// first argument, naming both groups.
pub proof fn law_aliasing_into_mutated_groups_is_a_fact(co: CompilerOutputs, callable_id: u32, args: Seq<ExpressionGE>,
    i: int, j: int, root_i: IVarNameT, path_i: Seq<GroupStep>, range_i: RangeS, root_j: IVarNameT, path_j: Seq<GroupStep>, range_j: RangeS,
    ri: IRuneS, rj: IRuneS, ga: StrI, gb: StrI, q: int)
    requires
        function_template(co, callable_id) is Some,
        0 <= i < j < args.len(),
        place_v(args[i]) == Some((root_i, path_i, range_i)),
        place_v(args[j]) == Some((root_j, path_j, range_j)),
        (path_i.len() <= path_j.len() && path_j.subrange(0, path_i.len() as int) == path_i)
            || (path_j.len() <= path_i.len() && path_i.subrange(0, path_j.len() as int) == path_j),
        j < function_template(co, callable_id)->0.params@.len(),
        declared_param_rune(function_template(co, callable_id)->0.params@[i]) == Some(ri),
        declared_param_rune(function_template(co, callable_id)->0.params@[j]) == Some(rj),
        ri != rj,
        0 <= q < function_template(co, callable_id)->0.effects@.len(),
        function_template(co, callable_id)->0.effects@[q] matches EffectS::Mut(gs)
            && (written_root_rune(gs) == Some(ri) || written_root_rune(gs) == Some(rj)),
        code_rune_name(ri) == Some(ga),
        code_rune_name(rj) == Some(gb),
    ensures
        joint_facts_v(co, callable_id, args).contains(JointFact::AliasingDisjointMut {
            local: root_i, arg_a: i as usize, arg_b: j as usize, group_a: ga, group_b: gb, range: range_i }),
{
    let f = function_template(co, callable_id)->0;
    let n = args.len() as int;
    let ne = f.effects@.len() as int;
    let mutated = mutated_runes(f.effects@, ne);
    let gs = f.effects@[q]->Mut_0;
    let root = written_root_rune(gs)->0;
    lemma_mutated_runes_contains(f.effects@, q, ne, root);
    assert(mutated.contains(ri) || mutated.contains(rj));
    assert(aliases(path_i, path_j));
    let x = JointFact::AliasingDisjointMut { local: root_i, arg_a: i as usize, arg_b: j as usize, group_a: ga, group_b: gb, range: range_i };
    assert(param_rune_at(f.params@, i) == Some(ri));
    assert(param_rune_at(f.params@, j) == Some(rj));
    assert(alias_cell(args, f.params@, mutated, i, j) == seq![x]);
    assert(alias_cell(args, f.params@, mutated, i, j)[0] == x);
    lemma_alias_row_contains(args, f.params@, mutated, i, j, n, x);
    lemma_alias_facts_contains(args, f.params@, mutated, i, n, x);
    let m = moved_facts(args, n);
    let a = alias_facts(args, f.params@, mutated, n);
    let k = choose|k: int| 0 <= k < a.len() && a[k] == x;
    assert((m + a)[m.len() + k] == x);
}

/// The callee declares `mut` on a group rooted at `r`.
pub open spec fn declares_mut_on(f: FunctionS, r: IRuneS) -> bool {
    exists|q: int| 0 <= q < f.effects@.len() && (#[trigger] f.effects@[q] matches EffectS::Mut(gs) && written_root_rune(gs) == Some(r))
}

/// What justifies a joint fact at a call of `f` with `args`: a borrow argument rooted in the local
/// another argument moves; or two arguments, in order, borrowing into overlapping group paths and
/// passed to parameters in distinct group runes, one of them declared `mut`.
pub open spec fn fact_justified(f: FunctionS, args: Seq<ExpressionGE>, x: JointFact) -> bool {
    match x {
        JointFact::BorrowIntoMoved { local, borrow_arg, move_arg, range } => {
            &&& borrow_arg < args.len() && move_arg < args.len() && borrow_arg != move_arg
            &&& place_v(args[borrow_arg as int]) is Some
            &&& (place_v(args[borrow_arg as int])->0).0 == local
            &&& (place_v(args[borrow_arg as int])->0).2 == range
            &&& moved_local_of(args[move_arg as int]) == Some(local)
        },
        JointFact::AliasingDisjointMut { local, arg_a, arg_b, group_a, group_b, range } => {
            &&& arg_a < arg_b < args.len()
            &&& place_v(args[arg_a as int]) is Some && place_v(args[arg_b as int]) is Some
            &&& (place_v(args[arg_a as int])->0).0 == local
            &&& (place_v(args[arg_a as int])->0).2 == range
            &&& aliases((place_v(args[arg_a as int])->0).1, (place_v(args[arg_b as int])->0).1)
            &&& param_rune_at(f.params@, arg_a as int) is Some && param_rune_at(f.params@, arg_b as int) is Some
            &&& param_rune_at(f.params@, arg_a as int) != param_rune_at(f.params@, arg_b as int)
            &&& code_rune_name(param_rune_at(f.params@, arg_a as int)->0) == Some(group_a)
            &&& code_rune_name(param_rune_at(f.params@, arg_b as int)->0) == Some(group_b)
            &&& (declares_mut_on(f, param_rune_at(f.params@, arg_a as int)->0) || declares_mut_on(f, param_rune_at(f.params@, arg_b as int)->0))
        },
    }
}

proof fn lemma_mutated_runes_from(effects: Seq<EffectS>, n: int, r: IRuneS)
    requires 0 <= n <= effects.len(), mutated_runes(effects, n).contains(r),
    ensures exists|q: int| 0 <= q < n && (#[trigger] effects[q] matches EffectS::Mut(gs) && written_root_rune(gs) == Some(r)),
    decreases n,
{
    let prev = mutated_runes(effects, n - 1);
    if prev.contains(r) {
        lemma_mutated_runes_from(effects, n - 1, r);
    } else {
        let k = choose|k: int| 0 <= k < mutated_runes(effects, n).len() && mutated_runes(effects, n)[k] == r;
        assert(k == prev.len());
        assert(effects[n - 1] matches EffectS::Mut(gs) && written_root_rune(gs) == Some(r));
    }
}

proof fn lemma_moved_row_sound(f: FunctionS, args: Seq<ExpressionGE>, i: int, j: int)
    requires 0 <= i < args.len() <= usize::MAX, j <= args.len(),
    ensures forall|k: int| 0 <= k < moved_row(args, i, j).len() ==> fact_justified(f, args, #[trigger] moved_row(args, i, j)[k]),
    decreases j,
{
    if j > 0 {
        lemma_moved_row_sound(f, args, i, j - 1);
        let rest = moved_row(args, i, j - 1);
        assert forall|k: int| 0 <= k < moved_row(args, i, j).len() implies fact_justified(f, args, #[trigger] moved_row(args, i, j)[k]) by {
            if k < rest.len() { assert(moved_row(args, i, j)[k] == rest[k]); }
        }
    }
}

proof fn lemma_moved_facts_sound(f: FunctionS, args: Seq<ExpressionGE>, i: int)
    requires 0 <= i <= args.len() <= usize::MAX,
    ensures forall|k: int| 0 <= k < moved_facts(args, i).len() ==> fact_justified(f, args, #[trigger] moved_facts(args, i)[k]),
    decreases i,
{
    if i > 0 {
        lemma_moved_facts_sound(f, args, i - 1);
        lemma_moved_row_sound(f, args, i - 1, args.len() as int);
        let a = moved_facts(args, i - 1);
        let b = moved_row(args, i - 1, args.len() as int);
        assert forall|k: int| 0 <= k < (a + b).len() implies fact_justified(f, args, #[trigger] (a + b)[k]) by {
            if k < a.len() { assert((a + b)[k] == a[k]); } else { assert((a + b)[k] == b[k - a.len()]); }
        }
    }
}

proof fn lemma_alias_row_sound(f: FunctionS, args: Seq<ExpressionGE>, i: int, j: int)
    requires 0 <= i < args.len() <= usize::MAX, j <= args.len(),
    ensures ({
        let mutated = mutated_runes(f.effects@, f.effects@.len() as int);
        forall|k: int| 0 <= k < alias_row(args, f.params@, mutated, i, j).len()
            ==> fact_justified(f, args, #[trigger] alias_row(args, f.params@, mutated, i, j)[k])
    }),
    decreases j,
{
    let mutated = mutated_runes(f.effects@, f.effects@.len() as int);
    if j > i + 1 && j > 0 {
        lemma_alias_row_sound(f, args, i, j - 1);
        let a = alias_row(args, f.params@, mutated, i, j - 1);
        let b = alias_cell(args, f.params@, mutated, i, j - 1);
        if b.len() > 0 {
            let ri = param_rune_at(f.params@, i)->0;
            let rj = param_rune_at(f.params@, j - 1)->0;
            if mutated.contains(ri) {
                lemma_mutated_runes_from(f.effects@, f.effects@.len() as int, ri);
                let q = choose|q: int| 0 <= q < f.effects@.len() && (#[trigger] f.effects@[q] matches EffectS::Mut(gs) && written_root_rune(gs) == Some(ri));
                assert(declares_mut_on(f, ri));
            } else {
                lemma_mutated_runes_from(f.effects@, f.effects@.len() as int, rj);
                let q = choose|q: int| 0 <= q < f.effects@.len() && (#[trigger] f.effects@[q] matches EffectS::Mut(gs) && written_root_rune(gs) == Some(rj));
                assert(declares_mut_on(f, rj));
            }
            assert(fact_justified(f, args, b[0]));
        }
        assert forall|k: int| 0 <= k < (a + b).len() implies fact_justified(f, args, #[trigger] (a + b)[k]) by {
            if k < a.len() { assert((a + b)[k] == a[k]); } else { assert((a + b)[k] == b[k - a.len()]); }
        }
    }
}

proof fn lemma_alias_facts_sound(f: FunctionS, args: Seq<ExpressionGE>, i: int)
    requires 0 <= i <= args.len() <= usize::MAX,
    ensures ({
        let mutated = mutated_runes(f.effects@, f.effects@.len() as int);
        forall|k: int| 0 <= k < alias_facts(args, f.params@, mutated, i).len()
            ==> fact_justified(f, args, #[trigger] alias_facts(args, f.params@, mutated, i)[k])
    }),
    decreases i,
{
    let mutated = mutated_runes(f.effects@, f.effects@.len() as int);
    if i > 0 {
        lemma_alias_facts_sound(f, args, i - 1);
        lemma_alias_row_sound(f, args, i - 1, args.len() as int);
        let a = alias_facts(args, f.params@, mutated, i - 1);
        let b = alias_row(args, f.params@, mutated, i - 1, args.len() as int);
        assert forall|k: int| 0 <= k < (a + b).len() implies fact_justified(f, args, #[trigger] (a + b)[k]) by {
            if k < a.len() { assert((a + b)[k] == a[k]); } else { assert((a + b)[k] == b[k - a.len()]); }
        }
    }
}

/// Every joint fact at a call is justified by the call's arguments and the callee's declaration:
/// a borrow into a local a sibling moves, or aliasing borrows passed to parameters in distinct
/// groups one of which the callee declares `mut`. A call of a callee that cannot be resolved has
/// none.
pub proof fn law_joint_facts_are_justified(co: CompilerOutputs, callable_id: u32, args: Seq<ExpressionGE>)
    requires args.len() <= usize::MAX,
    ensures
        function_template(co, callable_id) is None ==> joint_facts_v(co, callable_id, args).len() == 0,
        function_template(co, callable_id) matches Some(f) ==> forall|k: int| 0 <= k < joint_facts_v(co, callable_id, args).len()
            ==> fact_justified(f, args, #[trigger] joint_facts_v(co, callable_id, args)[k]),
{
    if let Some(f) = function_template(co, callable_id) {
        let n = args.len() as int;
        let mutated = mutated_runes(f.effects@, f.effects@.len() as int);
        lemma_moved_facts_sound(f, args, n);
        lemma_alias_facts_sound(f, args, n);
        let a = moved_facts(args, n);
        let b = alias_facts(args, f.params@, mutated, n);
        assert forall|k: int| 0 <= k < (a + b).len() implies fact_justified(f, args, #[trigger] (a + b)[k]) by {
            if k < a.len() { assert((a + b)[k] == a[k]); } else { assert((a + b)[k] == b[k - a.len()]); }
        }
    }
}

proof fn lemma_moved_row_contains(args: Seq<ExpressionGE>, i: int, j: int, n: int, x: JointFact)
    requires
        0 <= j < n,
        place_v(args[i]) matches Some((root, _, range)) && i != j && moved_local_of(args[j]) == Some(root)
            && x == (JointFact::BorrowIntoMoved { local: root, borrow_arg: i as usize, move_arg: j as usize, range }),
    ensures moved_row(args, i, n).contains(x),
    decreases n,
{
    let prev = moved_row(args, i, n - 1);
    if n - 1 == j {
        assert(moved_row(args, i, n).last() == x);
    } else {
        lemma_moved_row_contains(args, i, j, n - 1, x);
        let k = choose|k: int| 0 <= k < prev.len() && prev[k] == x;
        assert(moved_row(args, i, n)[k] == x);
    }
}

proof fn lemma_moved_facts_contains(args: Seq<ExpressionGE>, i: int, m: int, x: JointFact)
    requires 0 <= i < m, moved_row(args, i, args.len() as int).contains(x),
    ensures moved_facts(args, m).contains(x),
    decreases m,
{
    let prev = moved_facts(args, m - 1);
    let row = moved_row(args, m - 1, args.len() as int);
    if m - 1 == i {
        let k = choose|k: int| 0 <= k < row.len() && row[k] == x;
        assert((prev + row)[prev.len() + k] == x);
    } else {
        lemma_moved_facts_contains(args, i, m - 1, x);
        let k = choose|k: int| 0 <= k < prev.len() && prev[k] == x;
        assert((prev + row)[k] == x);
    }
}

/// A call of a resolved callee where one argument borrows into a local that another argument moves
/// has that as a joint fact: a borrow into a moved argument, at the borrowing argument.
pub proof fn law_borrow_into_moved_argument_is_a_fact(co: CompilerOutputs, callable_id: u32, args: Seq<ExpressionGE>,
    i: int, j: int, root: IVarNameT, path: Seq<GroupStep>, range: RangeS)
    requires
        function_template(co, callable_id) is Some,
        0 <= i < args.len(),
        0 <= j < args.len(),
        i != j,
        place_v(args[i]) == Some((root, path, range)),
        moved_local_of(args[j]) == Some(root),
    ensures
        joint_facts_v(co, callable_id, args).contains(JointFact::BorrowIntoMoved { local: root, borrow_arg: i as usize, move_arg: j as usize, range }),
{
    let f = function_template(co, callable_id)->0;
    let n = args.len() as int;
    let x = JointFact::BorrowIntoMoved { local: root, borrow_arg: i as usize, move_arg: j as usize, range };
    lemma_moved_row_contains(args, i, j, n, x);
    lemma_moved_facts_contains(args, i, n, x);
    let a = moved_facts(args, n);
    let b = alias_facts(args, f.params@, mutated_runes(f.effects@, f.effects@.len() as int), n);
    let k = choose|k: int| 0 <= k < a.len() && a[k] == x;
    assert((a + b)[k] == x);
}

} // verus!
