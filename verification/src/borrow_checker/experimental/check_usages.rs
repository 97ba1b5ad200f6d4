//! The usage check walks the grouped body backward, in reverse evaluation order, carrying the
//! reference values that still have a use later in the program. A churn met on the way back that
//! reaches a pending value is a use-after-churn, reported at that use. A node that produces a
//! reference (an element or member lookup, a call, a lend) retires its pending entry; a node that
//! only forwards a value (a local read, a `&&T` to `&T` decay, a block's last expression, an `if`'s
//! arms, a `let`) re-keys the entry to its source. Liveness runs from each use back to its birth, so
//! a returned, stored, copied or passed reference is caught alike.
//!
//! Control flow: `if` walks each arm from the post-`if` set and unions the results; `while` walks its
//! body from the post-loop set and then applies the loop's churns to what is still pending at the
//! body's start (the back edge); `break` resumes from the innermost loop's post-loop set; `return`
//! from nothing. Errors are collected, never returned early, and reported in source order.

use vstd::prelude::*;
use indexmap::IndexMap;
use crate::names::{IRuneS, IVarNameT};
use crate::range::RangeS;
use crate::borrow_checker::ast_g::{
    ExpressionGE, GroupStep, MutEffectPath, PrototypeT, children_of, ge_ok, ge_size, kids_size, kids_ok,
    lemma_children_smaller, lemma_kids_ok, place_root, result_of, node_range, own_range, arg_group_single,
    may_err, lemma_node_kids, lemma_kids_prefix,
};
use crate::borrow_checker::borrow_error::BorrowErrorKind;
use crate::borrow_checker::check_usages_types::RefKey;
use crate::borrow_checker::group_expr::{GroupPathG, GroupPathV, paths_view};
use crate::borrow_checker::kind_g::{KindGT, ITemplataG, kind_mentions, templatas_mentions, templata_mentions};
use crate::borrow_checker::experimental::grouped_ast::{
    flatten, flat, sole_path, paths_alias, aliases, reaches, churn_reaches, is_param_rooted, param_rooted,
    path_covers, is_prefix, group_expr_from_group_s, written_group_ok, written_paths, effect_root_rune,
    written_root_rune, param_group_rune, declared_param_rune, rune_name, code_rune_name,
    JointFact, place_root_local, moved_local, moved_local_of, expr_range, place_range,
};
use crate::compiler_error_reporter::ICompileErrorT;
use crate::index_map::{
    slot_entries, keys_unique, find_key, lemma_find_key, slot_map_new, slot_map_len, slot_map_get_index,
    slot_map_get, slot_map_contains_key, slot_map_insert, slot_map_shift_remove, slot_map_clear, slot_map_clone,
};
use crate::postparsing::{EffectS, FunctionS};
use crate::typing::compiler::{Compiler, CompilerOutputs, function_template};
use crate::borrow_checker::experimental::walk_model::{
    PendingV, WalkV, walk_start, union_paths, merge_v, with_pending, with_errors, with_targets, insert_v, strip_v, use_key_v,
    register_v, retire_v, rekey_v, pending_key_v, churn_v, effects_v, loop_churns_v, retire_all_v, merge_into_v, place_v,
    moved_row, moved_facts, param_rune_at, mutated_runes, alias_cell, alias_row, alias_facts, joint_facts_v, joint_error_v,
    sw, consec_v, args_v, register_kids_v, walk_kids_v,
};

verus! {

/// A reference value with a use later in the program: where that use is, and every group path the
/// value may point into.
pub struct Pending {
    pub use_range: RangeS,
    pub mentions: Vec<GroupPathG>,
}

/// The numeric code a pending-use key is stored under.
pub open spec fn key_code(k: RefKey) -> (u32, u32) {
    match k {
        RefKey::Named(IVarNameT::Local(s)) => (0, s.0),
        RefKey::Named(IVarNameT::Member(s)) => (1, s.0),
        RefKey::Named(IVarNameT::TypingPassTemporaryVarName(n)) => (2, n),
        RefKey::Named(IVarNameT::TypingPassBlockResultVarName(n)) => (3, n),
        RefKey::Named(IVarNameT::ClosureParamName) => (4, 0),
        RefKey::Named(IVarNameT::SelfName) => (5, 0),
        RefKey::Held(n) => (6, n),
    }
}

/// The key a numeric code stands for.
pub open spec fn code_key(c: (u32, u32)) -> RefKey {
    if c.0 == 0 {
        RefKey::Named(IVarNameT::Local(crate::interner::StrI(c.1)))
    } else if c.0 == 1 {
        RefKey::Named(IVarNameT::Member(crate::interner::StrI(c.1)))
    } else if c.0 == 2 {
        RefKey::Named(IVarNameT::TypingPassTemporaryVarName(c.1))
    } else if c.0 == 3 {
        RefKey::Named(IVarNameT::TypingPassBlockResultVarName(c.1))
    } else if c.0 == 4 {
        RefKey::Named(IVarNameT::ClosureParamName)
    } else if c.0 == 5 {
        RefKey::Named(IVarNameT::SelfName)
    } else {
        RefKey::Held(c.1)
    }
}

fn encode_key(k: RefKey) -> (r: (u32, u32))
    ensures r == key_code(k),
{
    match k {
        RefKey::Named(IVarNameT::Local(s)) => (0, s.0),
        RefKey::Named(IVarNameT::Member(s)) => (1, s.0),
        RefKey::Named(IVarNameT::TypingPassTemporaryVarName(n)) => (2, n),
        RefKey::Named(IVarNameT::TypingPassBlockResultVarName(n)) => (3, n),
        RefKey::Named(IVarNameT::ClosureParamName) => (4, 0),
        RefKey::Named(IVarNameT::SelfName) => (5, 0),
        RefKey::Held(n) => (6, n),
    }
}

fn decode_key(c: (u32, u32)) -> (r: RefKey)
    ensures r == code_key(c),
{
    if c.0 == 0 {
        RefKey::Named(IVarNameT::Local(crate::interner::StrI(c.1)))
    } else if c.0 == 1 {
        RefKey::Named(IVarNameT::Member(crate::interner::StrI(c.1)))
    } else if c.0 == 2 {
        RefKey::Named(IVarNameT::TypingPassTemporaryVarName(c.1))
    } else if c.0 == 3 {
        RefKey::Named(IVarNameT::TypingPassBlockResultVarName(c.1))
    } else if c.0 == 4 {
        RefKey::Named(IVarNameT::ClosureParamName)
    } else if c.0 == 5 {
        RefKey::Named(IVarNameT::SelfName)
    } else {
        RefKey::Held(c.1)
    }
}

/// Every group path a value of this kind may point into.
fn mentions_of(kind: &KindGT) -> (r: Vec<GroupPathG>)
    ensures paths_view(r@) == kind_mentions(*kind),
{
    let mut out: Vec<GroupPathG> = Vec::new();
    collect_mentions(kind, &mut out);
    assert(paths_view(out@) =~= kind_mentions(*kind));
    out
}

/// Append a copy of each path to `out`.
fn extend_paths(out: &mut Vec<GroupPathG>, paths: &Vec<GroupPathG>)
    ensures paths_view(final(out)@) == paths_view(old(out)@) + paths_view(paths@),
{
    let mut i: usize = 0;
    while i < paths.len()
        invariant
            i <= paths@.len(),
            paths_view(out@) == paths_view(old(out)@) + paths_view(paths@.subrange(0, i as int)),
        decreases paths@.len() - i,
    {
        let ghost before = out@;
        out.push(paths[i].copy());
        proof {
            assert(paths_view(out@) =~= paths_view(before).push(paths@[i as int]@));
            assert(paths_view(paths@.subrange(0, i + 1)) =~= paths_view(paths@.subrange(0, i as int)).push(paths@[i as int]@));
        }
        i = i + 1;
    }
    assert(paths@.subrange(0, paths@.len() as int) =~= paths@);
}

fn collect_mentions(kind: &KindGT, out: &mut Vec<GroupPathG>)
    ensures paths_view(final(out)@) == paths_view(old(out)@) + kind_mentions(*kind),
    decreases kind, 1int,
{
    match kind {
        KindGT::BorrowRef(b) => {
            extend_paths(out, &b.group.group);
            collect_mentions(&b.inner, out);
            assert(paths_view(out@) =~= paths_view(old(out)@) + kind_mentions(*kind));
        },
        KindGT::Struct(s) => collect_templata_mentions(&s.template_args, out),
        KindGT::Interface(i) => collect_templata_mentions(&i.template_args, out),
        KindGT::StaticSizedArray(a) => collect_mentions(&a.element_type, out),
        KindGT::RuntimeSizedArray(a) => collect_mentions(&a.element_type, out),
        KindGT::OwnRef(w) => collect_mentions(&w.inner, out),
        KindGT::ShareRef(w) => collect_mentions(&w.inner, out),
        KindGT::WeakRef(w) => collect_mentions(&w.inner, out),
        _ => {
            assert(paths_view(out@) =~= paths_view(old(out)@) + kind_mentions(*kind));
        },
    }
}

fn collect_templata_mentions(template_args: &Vec<ITemplataG>, out: &mut Vec<GroupPathG>)
    ensures paths_view(final(out)@) == paths_view(old(out)@) + templatas_mentions(template_args@),
    decreases template_args, 0int,
{
    let mut i: usize = 0;
    assert(templatas_mentions(template_args@.subrange(0, 0)) =~= Seq::empty());
    assert(paths_view(out@) =~= paths_view(old(out)@) + templatas_mentions(template_args@.subrange(0, 0)));
    while i < template_args.len()
        invariant
            i <= template_args@.len(),
            paths_view(out@) == paths_view(old(out)@) + templatas_mentions(template_args@.subrange(0, i as int)),
        decreases template_args@.len() - i,
    {
        let ghost before = out@;
        proof {
            assert(decreases_to!(*template_args => template_args@));
            assert(decreases_to!(template_args@ => template_args@[i as int]));
        }
        match &template_args[i] {
            ITemplataG::Kind(k) => collect_mentions(k, out),
            ITemplataG::Group(g) => extend_paths(out, &g.group),
            _ => {},
        }
        proof {
            let pre = template_args@.subrange(0, i + 1);
            assert(pre.subrange(0, pre.len() - 1) =~= template_args@.subrange(0, i as int));
            assert(paths_view(out@) =~= paths_view(before) + templata_mentions(template_args@[i as int]));
        }
        i = i + 1;
    }
    assert(template_args@.subrange(0, template_args@.len() as int) =~= template_args@);
}


/// The values awaiting a later use: each key's code, with the slot holding its pending entry.
type PendingMap = IndexMap<(u32, u32), usize>;

/// The walk's state: the pending uses, the post-loop set each enclosing loop resumes from at a
/// `break`, the errors found so far, and the counter that names held temporaries. Pending entries
/// live in `slots` and are never changed once made, so a map can be copied by copying its slots'
/// numbers.
struct Walk {
    declared_mut: Vec<Vec<GroupStep>>,
    pending: PendingMap,
    slots: Vec<Pending>,
    break_targets: Vec<PendingMap>,
    errors: Vec<ICompileErrorT>,
    next_held: u32,
}

/// The contents of the pending entries.
pub open spec fn slots_v(s: Seq<Pending>) -> Seq<PendingV> {
    s.map_values(|p: Pending| PendingV { use_range: p.use_range, mentions: paths_view(p.mentions@) })
}

/// The walk's state, as values.
spec fn walk_v(w: &Walk) -> WalkV {
    WalkV {
        pending: slot_entries(w.pending),
        slots: slots_v(w.slots@),
        targets: w.break_targets@.map_values(|m: PendingMap| slot_entries(m)),
        errors: w.errors@,
        next_held: w.next_held as int,
    }
}

/// A map whose keys are unique and whose slots exist.
spec fn map_ok(m: PendingMap, n: nat) -> bool {
    keys_unique(slot_entries(m)) && forall|i: int| 0 <= i < slot_entries(m).len() ==> #[trigger] slot_entries(m)[i].1 < n
}

/// Every error is a borrow-check error.
pub open spec fn all_borrow_errors(s: Seq<ICompileErrorT>) -> bool {
    forall|i: int| 0 <= i < s.len() ==> #[trigger] s[i] is BorrowCheckError
}

impl Walk {
    spec fn wf(&self) -> bool {
        &&& map_ok(self.pending, self.slots@.len())
        &&& forall|b: int| 0 <= b < self.break_targets@.len() ==> map_ok(#[trigger] self.break_targets@[b], self.slots@.len())
        &&& all_borrow_errors(self.errors@)
    }

    /// What a step of the walk leaves alone.
    spec fn frame(&self, old: &Walk) -> bool {
        &&& self.declared_mut@ == old.declared_mut@
        &&& self.break_targets@ == old.break_targets@
        &&& self.errors@ == old.errors@
        &&& self.next_held == old.next_held
        &&& old.slots@.len() <= self.slots@.len()
    }
}

/// A map stays well formed as more slots are made.
proof fn lemma_map_ok_grows(m: PendingMap, n: nat, n2: nat)
    requires map_ok(m, n), n <= n2,
    ensures map_ok(m, n2),
{
}

/// Whether a slot's value may point into a group a churn of `steps` reaches.
fn slot_reached(p: &Pending, steps: &Vec<GroupStep>) -> (r: bool)
    ensures r == exists|m: int| 0 <= m < p.mentions@.len() && churn_reaches(steps@, #[trigger] p.mentions@[m]@),
{
    let mut i: usize = 0;
    while i < p.mentions.len()
        invariant
            i <= p.mentions@.len(),
            forall|m: int| 0 <= m < i ==> !churn_reaches(steps@, #[trigger] p.mentions@[m]@),
        decreases p.mentions@.len() - i,
    {
        if reaches(steps, &p.mentions[i]) {
            return true;
        }
        i = i + 1;
    }
    false
}

/// Whether the pending entry `e` is reached by a churn of `steps`.
pub open spec fn entry_reached(slots: Seq<PendingV>, e: ((u32, u32), usize), steps: Seq<GroupStep>) -> bool {
    e.1 < slots.len()
        && exists|m: int| 0 <= m < slots[e.1 as int].mentions.len() && churn_reaches(steps, #[trigger] slots[e.1 as int].mentions[m])
}

/// The error reported for a pending entry a churn at `churned_at` spoils: at the entry's use, naming
/// the local it reads, or as a temporary.
pub open spec fn spoiled_report(slots: Seq<PendingV>, e: ((u32, u32), usize), churned_at: RangeS) -> ICompileErrorT {
    ICompileErrorT::BorrowCheckError {
        range: slots[e.1 as int].use_range,
        kind: match code_key(e.0) {
            RefKey::Named(_) => BorrowErrorKind::UseAfterChurn { local: code_key(e.0), churned_at },
            RefKey::Held(_) => BorrowErrorKind::UseAfterChurnTemporary { churned_at },
        },
    }
}

/// The pending entries a churn leaves, in order.
pub open spec fn churn_kept(slots: Seq<PendingV>, entries: Seq<((u32, u32), usize)>, steps: Seq<GroupStep>) -> Seq<((u32, u32), usize)>
    decreases entries.len(),
{
    if entries.len() == 0 {
        entries
    } else {
        let rest = churn_kept(slots, entries.drop_last(), steps);
        if entry_reached(slots, entries.last(), steps) { rest } else { rest.push(entries.last()) }
    }
}

/// The errors a churn reports, one per entry it spoils, in the entries' order.
pub open spec fn churn_reports(slots: Seq<PendingV>, entries: Seq<((u32, u32), usize)>, steps: Seq<GroupStep>, churned_at: RangeS) -> Seq<ICompileErrorT>
    decreases entries.len(),
{
    if entries.len() == 0 {
        Seq::empty()
    } else {
        let rest = churn_reports(slots, entries.drop_last(), steps, churned_at);
        if entry_reached(slots, entries.last(), steps) {
            rest.push(spoiled_report(slots, entries.last(), churned_at))
        } else {
            rest
        }
    }
}

/// The pending entries a churn reaches, in order.
pub open spec fn reached_entries(slots: Seq<PendingV>, entries: Seq<((u32, u32), usize)>, steps: Seq<GroupStep>) -> Seq<((u32, u32), usize)> {
    entries.filter(|e: ((u32, u32), usize)| entry_reached(slots, e, steps))
}

/// The pending entries a churn does not reach, in order.
pub open spec fn unreached_entries(slots: Seq<PendingV>, entries: Seq<((u32, u32), usize)>, steps: Seq<GroupStep>) -> Seq<((u32, u32), usize)> {
    entries.filter(|e: ((u32, u32), usize)| !entry_reached(slots, e, steps))
}

/// A churn sorts every pending value one way: a value it reaches is spoiled and reported once, at its
/// use; a value it does not reach stays pending, in its order. Nothing else is reported or kept.
pub proof fn law_churn_partitions_pending(slots: Seq<PendingV>, entries: Seq<((u32, u32), usize)>, steps: Seq<GroupStep>, churned_at: RangeS)
    ensures
        churn_kept(slots, entries, steps) == unreached_entries(slots, entries, steps),
        churn_reports(slots, entries, steps, churned_at)
            == reached_entries(slots, entries, steps).map_values(|e: ((u32, u32), usize)| spoiled_report(slots, e, churned_at)),
        churn_kept(slots, entries, steps).len() + churn_reports(slots, entries, steps, churned_at).len() == entries.len(),
    decreases entries.len(),
{
    reveal(Seq::filter);
    if entries.len() > 0 {
        law_churn_partitions_pending(slots, entries.drop_last(), steps, churned_at);
        let r = reached_entries(slots, entries.drop_last(), steps);
        if entry_reached(slots, entries.last(), steps) {
            assert(r.push(entries.last()).map_values(|e: ((u32, u32), usize)| spoiled_report(slots, e, churned_at))
                =~= r.map_values(|e: ((u32, u32), usize)| spoiled_report(slots, e, churned_at)).push(spoiled_report(slots, entries.last(), churned_at)));
        }
    }
}

/// A churn reports every pending use it reaches, once, at that use and naming the churn, and no
/// longer holds it; a pending use it does not reach stays pending and is not reported.
pub proof fn law_churn_reports_reached_use(s: WalkV, steps: Seq<GroupStep>, at: RangeS, e: ((u32, u32), usize))
    requires s.pending.contains(e),
    ensures
        entry_reached(s.slots, e, steps) ==> churn_v(s, steps, at).errors.contains(spoiled_report(s.slots, e, at))
            && !churn_v(s, steps, at).pending.contains(e),
        !entry_reached(s.slots, e, steps) ==> churn_v(s, steps, at).pending.contains(e),
        churn_v(s, steps, at).errors.subrange(0, s.errors.len() as int) == s.errors,
{
    lemma_churn_sorts(s.slots, s.pending, steps, at, e);
    let r = churn_reports(s.slots, s.pending, steps, at);
    if entry_reached(s.slots, e, steps) {
        let j = choose|j: int| 0 <= j < r.len() && r[j] == spoiled_report(s.slots, e, at);
        assert((s.errors + r)[s.errors.len() + j] == spoiled_report(s.slots, e, at));
    }
    assert((s.errors + r).subrange(0, s.errors.len() as int) =~= s.errors);
}

proof fn lemma_churn_sorts(slots: Seq<PendingV>, entries: Seq<((u32, u32), usize)>, steps: Seq<GroupStep>, at: RangeS, e: ((u32, u32), usize))
    requires entries.contains(e),
    ensures
        entry_reached(slots, e, steps) ==> churn_reports(slots, entries, steps, at).contains(spoiled_report(slots, e, at))
            && !churn_kept(slots, entries, steps).contains(e),
        !entry_reached(slots, e, steps) ==> churn_kept(slots, entries, steps).contains(e),
    decreases entries.len(),
{
    let rest = entries.drop_last();
    let kept = churn_kept(slots, rest, steps);
    let reps = churn_reports(slots, rest, steps, at);
    if entries.last() == e {
        if entry_reached(slots, e, steps) {
            assert(churn_reports(slots, entries, steps, at).last() == spoiled_report(slots, e, at));
            lemma_churn_kept_reached(slots, rest, steps, e);
        } else {
            assert(churn_kept(slots, entries, steps).last() == e);
        }
    } else {
        let i = choose|i: int| 0 <= i < entries.len() && entries[i] == e;
        assert(rest[i] == e);
        lemma_churn_sorts(slots, rest, steps, at, e);
        if entry_reached(slots, e, steps) {
            let j = choose|j: int| 0 <= j < reps.len() && reps[j] == spoiled_report(slots, e, at);
            if entry_reached(slots, entries.last(), steps) {
                assert(churn_reports(slots, entries, steps, at)[j] == reps[j]);
            } else {
                assert(churn_kept(slots, entries, steps).last() == entries.last());
            }
            assert(churn_reports(slots, entries, steps, at)[j] == reps[j]);
        } else {
            let j = choose|j: int| 0 <= j < kept.len() && kept[j] == e;
            assert(churn_kept(slots, entries, steps)[j] == kept[j]);
        }
    }
}

/// A churn keeps no entry it reaches.
proof fn lemma_churn_kept_reached(slots: Seq<PendingV>, entries: Seq<((u32, u32), usize)>, steps: Seq<GroupStep>, e: ((u32, u32), usize))
    requires entry_reached(slots, e, steps),
    ensures !churn_kept(slots, entries, steps).contains(e),
    decreases entries.len(),
{
    if entries.len() > 0 {
        lemma_churn_kept_reached(slots, entries.drop_last(), steps, e);
        let kept = churn_kept(slots, entries.drop_last(), steps);
        if !entry_reached(slots, entries.last(), steps) {
            assert forall|j: int| 0 <= j < kept.push(entries.last()).len() implies kept.push(entries.last())[j] != e by {
                if j < kept.len() { assert(kept.push(entries.last())[j] == kept[j]); }
            }
        }
    }
}

/// What a churn keeps is drawn from what was pending.
proof fn lemma_churn_kept_from(slots: Seq<PendingV>, entries: Seq<((u32, u32), usize)>, steps: Seq<GroupStep>)
    ensures
        forall|j: int| 0 <= j < churn_kept(slots, entries, steps).len() ==>
            exists|k: int| 0 <= k < entries.len() && entries[k] == #[trigger] churn_kept(slots, entries, steps)[j],
    decreases entries.len(),
{
    if entries.len() > 0 {
        lemma_churn_kept_from(slots, entries.drop_last(), steps);
        let rest = churn_kept(slots, entries.drop_last(), steps);
        assert forall|j: int| 0 <= j < churn_kept(slots, entries, steps).len() implies
            exists|k: int| 0 <= k < entries.len() && entries[k] == #[trigger] churn_kept(slots, entries, steps)[j] by {
            if j < rest.len() {
                let k = choose|k: int| 0 <= k < entries.drop_last().len() && entries.drop_last()[k] == #[trigger] rest[j];
                assert(entries[k] == entries.drop_last()[k]);
            } else {
                assert(entries[entries.len() - 1] == entries.last());
            }
        }
    }
}

/// Every report a churn makes is a borrow-check error.
proof fn lemma_churn_reports_borrow(slots: Seq<PendingV>, entries: Seq<((u32, u32), usize)>, steps: Seq<GroupStep>, churned_at: RangeS)
    ensures all_borrow_errors(churn_reports(slots, entries, steps, churned_at)),
    decreases entries.len(),
{
    if entries.len() > 0 {
        lemma_churn_reports_borrow(slots, entries.drop_last(), steps, churned_at);
    }
}

impl Walk {
    /// Point `code` at `slot`, merging into an existing entry: the earlier use in program order is the
    /// one reported, and the value may point into either's groups.
    fn insert_slot(&mut self, code: (u32, u32), slot: usize)
        requires old(self).wf(), slot < old(self).slots@.len(),
        ensures
            final(self).wf(),
            final(self).frame(old(self)),
            find_key(slot_entries(final(self).pending), code) is Some,
            walk_v(final(self)) == insert_v(walk_v(old(self)), code, slot),
    {
        let ghost before = slot_entries(self.pending);
        proof { lemma_find_key(before, code); }
        match slot_map_get(&self.pending, code) {
            Some(existing) => {
                let merged = merge_pending(&self.slots[existing], &self.slots[slot]);
                let ghost sv0 = slots_v(self.slots@);
                self.slots.push(merged);
                let n = self.slots.len() - 1;
                slot_map_insert(&mut self.pending, code, n);
                proof {
                    let i = find_key(before, code)->0;
                    assert(slot_entries(self.pending)[i].0 == code);
                    assert(slots_v(self.slots@) =~= sv0.push(merge_v(sv0[existing as int], sv0[slot as int])));
                }
            },
            None => {
                slot_map_insert(&mut self.pending, code, slot);
                proof {
                    assert(slot_entries(self.pending)[before.len() as int].0 == code);
                }
            },
        }
        proof {
            lemma_find_key(slot_entries(self.pending), code);
            assert forall|b: int| 0 <= b < self.break_targets@.len() implies map_ok(#[trigger] self.break_targets@[b], self.slots@.len()) by {
                lemma_map_ok_grows(self.break_targets@[b], old(self).slots@.len(), self.slots@.len());
            }
        }
    }
}

/// Two pending entries for one key, merged.
fn merge_pending(existing: &Pending, entry: &Pending) -> (r: Pending)
    ensures
        r.use_range == (if entry.use_range.begin.offset < existing.use_range.begin.offset { entry.use_range } else { existing.use_range }),
        paths_view(r.mentions@) == union_paths(paths_view(existing.mentions@), paths_view(entry.mentions@)),
{
    let use_range = if entry.use_range.begin.offset < existing.use_range.begin.offset { entry.use_range } else { existing.use_range };
    let mut mentions: Vec<GroupPathG> = Vec::new();
    extend_paths(&mut mentions, &existing.mentions);
    let mut i: usize = 0;
    let ghost ev = paths_view(entry.mentions@);
    proof { assert(ev.subrange(0, 0) =~= Seq::<GroupPathV>::empty()); }
    while i < entry.mentions.len()
        invariant
            i <= entry.mentions@.len(),
            ev == paths_view(entry.mentions@),
            paths_view(mentions@) == union_paths(paths_view(existing.mentions@), ev.subrange(0, i as int)),
        decreases entry.mentions@.len() - i,
    {
        let ghost before = paths_view(mentions@);
        proof {
            assert(ev.subrange(0, i + 1).drop_last() =~= ev.subrange(0, i as int));
            assert(ev.subrange(0, i + 1).last() == entry.mentions@[i as int]@);
        }
        let found = contains_path(&mentions, &entry.mentions[i]);
        proof {
            if found {
                let j = choose|j: int| 0 <= j < mentions@.len() && #[trigger] mentions@[j]@ == entry.mentions@[i as int]@;
                assert(before[j] == entry.mentions@[i as int]@);
            } else {
                assert forall|j: int| 0 <= j < before.len() implies before[j] != entry.mentions@[i as int]@ by {
                    assert(before[j] == mentions@[j]@);
                }
            }
        }
        if !found {
            mentions.push(entry.mentions[i].copy());
            proof { assert(paths_view(mentions@) =~= before.push(entry.mentions@[i as int]@)); }
        }
        i = i + 1;
    }
    proof { assert(ev.subrange(0, ev.len() as int) =~= ev); }
    Pending { use_range, mentions }
}

/// Whether `paths` holds a path equal to `path`.
fn contains_path(paths: &Vec<GroupPathG>, path: &GroupPathG) -> (r: bool)
    ensures r == exists|j: int| 0 <= j < paths@.len() && #[trigger] paths@[j]@ == path@,
{
    let mut j: usize = 0;
    while j < paths.len()
        invariant
            j <= paths@.len(),
            forall|k: int| 0 <= k < j ==> #[trigger] paths@[k]@ != path@,
        decreases paths@.len() - j,
    {
        if paths[j].same_as(path) {
            return true;
        }
        j = j + 1;
    }
    false
}


/// The node a value is read through: past any number of `&&T` to `&T` decays.
fn strip_derefs(e: &ExpressionGE) -> (r: &ExpressionGE)
    ensures *r == strip_v(*e),
    decreases e,
{
    match e {
        ExpressionGE::Deref(d) => strip_derefs(&d.inner),
        _ => e,
    }
}

impl Walk {
    /// How a consumed value is keyed and where its use is reported: a read of a local (through any
    /// decay) is that local at its own range; anything else is a fresh held temporary at the node.
    fn use_key(&mut self, expr: &ExpressionGE) -> (r: (RefKey, RangeS))
        requires old(self).next_held < u32::MAX,
        ensures
            final(self).declared_mut@ == old(self).declared_mut@,
            final(self).pending == old(self).pending,
            final(self).slots@ == old(self).slots@,
            final(self).break_targets@ == old(self).break_targets@,
            final(self).errors@ == old(self).errors@,
            old(self).next_held <= final(self).next_held <= old(self).next_held + 1,
            (r.0, r.1, walk_v(final(self))) == use_key_v(walk_v(old(self)), *expr),
    {
        let cur = strip_derefs(expr);
        match cur {
            ExpressionGE::LocalLookup(l) => (RefKey::Named(l.local_variable.name), l.range),
            ExpressionGE::Unlet(u) => (RefKey::Named(u.variable.name), u.range),
            other => {
                let held = RefKey::Held(self.next_held);
                self.next_held = self.next_held + 1;
                (held, node_range(other))
            },
        }
    }

    /// Mark a consumed child's value as pending, if it carries any group at all.
    fn register(&mut self, expr: &ExpressionGE) -> (r: Option<RefKey>)
        requires old(self).wf(), old(self).next_held < u32::MAX,
        ensures
            final(self).wf(),
            final(self).declared_mut@ == old(self).declared_mut@,
            final(self).break_targets@ == old(self).break_targets@,
            final(self).errors@ == old(self).errors@,
            old(self).slots@.len() <= final(self).slots@.len(),
            old(self).next_held <= final(self).next_held <= old(self).next_held + 1,
            (r, walk_v(final(self))) == register_v(walk_v(old(self)), *expr),
    {
        let mentions = mentions_of(expr.result());
        if mentions.len() == 0 {
            return None;
        }
        let (key, use_range) = self.use_key(expr);
        let ghost sv1 = slots_v(self.slots@);
        let ghost m = paths_view(mentions@);
        self.slots.push(Pending { use_range, mentions });
        proof { assert(slots_v(self.slots@) =~= sv1.push(PendingV { use_range, mentions: m })); }
        proof {
            assert forall|b: int| 0 <= b < self.break_targets@.len() implies map_ok(#[trigger] self.break_targets@[b], self.slots@.len()) by {
                lemma_map_ok_grows(self.break_targets@[b], old(self).slots@.len(), self.slots@.len());
            }
            lemma_map_ok_grows(self.pending, old(self).slots@.len(), self.slots@.len());
        }
        let n = self.slots.len() - 1;
        self.insert_slot(encode_key(key), n);
        Some(key)
    }

    /// The key to hand a local's initializer: the local's pending entry, if a later use wants it.
    fn pending_key(&self, key: RefKey) -> (r: Option<RefKey>)
        ensures r is Some <==> find_key(slot_entries(self.pending), key_code(key)) is Some,
            r is Some ==> r->0 == key,
            r == pending_key_v(walk_v(self), key),
    {
        if slot_map_contains_key(&self.pending, encode_key(key)) { Some(key) } else { None }
    }

    /// The value is born here: nothing before this point can spoil it.
    fn retire(&mut self, key: Option<RefKey>)
        requires old(self).wf(),
        ensures
            final(self).wf(),
            final(self).frame(old(self)),
            key is Some ==> find_key(slot_entries(final(self).pending), key_code(key->0)) is None,
            walk_v(final(self)) == retire_v(walk_v(old(self)), key),
    {
        if let Some(retired) = key {
            let ghost before = slot_entries(self.pending);
            slot_map_shift_remove(&mut self.pending, encode_key(retired));
            proof {
                lemma_find_key(before, key_code(retired));
                lemma_find_key(slot_entries(self.pending), key_code(retired));
                match find_key(before, key_code(retired)) {
                    Some(i) => {
                        assert forall|j: int| 0 <= j < slot_entries(self.pending).len() implies
                            slot_entries(self.pending)[j].0 != key_code(retired) by {
                            if j < i { assert(slot_entries(self.pending)[j] == before[j]); }
                            else { assert(slot_entries(self.pending)[j] == before[j + 1]); }
                        }
                    },
                    None => {},
                }
                let e = slot_entries(self.pending);
                assert forall|j: int| 0 <= j < e.len() implies #[trigger] e[j].1 < self.slots@.len() by {
                    match find_key(before, key_code(retired)) {
                        Some(i) => { if j < i { assert(e[j] == before[j]); } else { assert(e[j] == before[j + 1]); } },
                        None => {},
                    }
                }
            }
        }
    }

    /// The value under `from` is supplied by `to`: whoever spoils `to` before this point spoils it.
    fn rekey(&mut self, from: RefKey, to: RefKey)
        requires old(self).wf(),
        ensures final(self).wf(), final(self).frame(old(self)),
            walk_v(final(self)) == rekey_v(walk_v(old(self)), from, to),
    {
        let ghost before = slot_entries(self.pending);
        let removed = slot_map_shift_remove(&mut self.pending, encode_key(from));
        proof {
            lemma_find_key(before, key_code(from));
            let e = slot_entries(self.pending);
            assert forall|j: int| 0 <= j < e.len() implies #[trigger] e[j].1 < self.slots@.len() by {
                match find_key(before, key_code(from)) {
                    Some(i) => { if j < i { assert(e[j] == before[j]); } else { assert(e[j] == before[j + 1]); } },
                    None => {},
                }
            }
        }
        if let Some(slot) = removed {
            proof {
                let i = find_key(before, key_code(from))->0;
                assert(before[i].1 < self.slots@.len());
            }
            self.insert_slot(encode_key(to), slot);
        }
    }

    /// Apply a churn of `steps`, made by the call at `churned_at`, to everything pending: each
    /// reached value is a use-after-churn, reported at its use naming the churn, and dropped (one
    /// report per use suffices).
    fn churn(&mut self, steps: &Vec<GroupStep>, churned_at: RangeS)
        requires old(self).wf(),
        ensures
            final(self).wf(),
            final(self).declared_mut@ == old(self).declared_mut@,
            final(self).break_targets@ == old(self).break_targets@,
            final(self).slots@ == old(self).slots@,
            final(self).next_held == old(self).next_held,
            slot_entries(final(self).pending) == churn_kept(slots_v(old(self).slots@), slot_entries(old(self).pending), steps@),
            final(self).errors@ == old(self).errors@
                + churn_reports(slots_v(old(self).slots@), slot_entries(old(self).pending), steps@, churned_at),
            walk_v(final(self)) == churn_v(walk_v(old(self)), steps@, churned_at),
    {
        let ghost entries = slot_entries(self.pending);
        let n = slot_map_len(&self.pending);
        let mut kept = slot_map_new();
        let mut i: usize = 0;
        while i < n
            invariant
                n == entries.len(),
                entries == slot_entries(self.pending),
                map_ok(self.pending, self.slots@.len()),
                all_borrow_errors(old(self).errors@),
                i <= n,
                slot_entries(kept) == churn_kept(slots_v(self.slots@), entries.subrange(0, i as int), steps@),
                keys_unique(slot_entries(kept)),
                self.errors@ == old(self).errors@ + churn_reports(slots_v(self.slots@), entries.subrange(0, i as int), steps@, churned_at),
                self.slots@ == old(self).slots@,
                self.declared_mut@ == old(self).declared_mut@,
                self.break_targets@ == old(self).break_targets@,
                self.next_held == old(self).next_held,
            decreases n - i,
        {
            let (code, slot) = slot_map_get_index(&self.pending, i).unwrap();
            let ghost pre = entries.subrange(0, i + 1);
            proof {
                assert(pre.drop_last() =~= entries.subrange(0, i as int));
                assert(pre.last() == entries[i as int]);
                assert(slot < self.slots@.len());
            }
            let reached = slot_reached(&self.slots[slot], steps);
            proof {
                let sv = slots_v(self.slots@);
                assert(sv[slot as int].mentions == paths_view(self.slots@[slot as int].mentions@));
                assert(entries[i as int] == (code, slot));
                if reached {
                    let m = choose|m: int| 0 <= m < self.slots@[slot as int].mentions@.len()
                        && churn_reaches(steps@, #[trigger] self.slots@[slot as int].mentions@[m]@);
                    assert(sv[slot as int].mentions[m] == self.slots@[slot as int].mentions@[m]@);
                    assert(entry_reached(sv, entries[i as int], steps@));
                } else {
                    assert forall|m: int| 0 <= m < sv[slot as int].mentions.len() implies
                        !churn_reaches(steps@, #[trigger] sv[slot as int].mentions[m]) by {
                        assert(sv[slot as int].mentions[m] == self.slots@[slot as int].mentions@[m]@);
                    }
                    assert(!entry_reached(sv, entries[i as int], steps@));
                }
            }
            if reached {
                let kind = match decode_key(code) {
                    RefKey::Named(_) => BorrowErrorKind::UseAfterChurn { local: decode_key(code), churned_at },
                    RefKey::Held(_) => BorrowErrorKind::UseAfterChurnTemporary { churned_at },
                };
                self.errors.push(ICompileErrorT::BorrowCheckError { range: self.slots[slot].use_range, kind });
            } else {
                proof {
                    let ghost k = slot_entries(kept);
                    lemma_churn_kept_from(slots_v(self.slots@), entries.subrange(0, i as int), steps@);
                    lemma_find_key(k, code);
                    assert forall|j: int| 0 <= j < k.len() implies k[j].0 != code by {
                        let m = choose|m: int| 0 <= m < entries.subrange(0, i as int).len()
                            && entries.subrange(0, i as int)[m] == #[trigger] k[j];
                        assert(entries[m] == k[j]);
                    }
                }
                slot_map_insert(&mut kept, code, slot);
            }
            i = i + 1;
        }
        proof {
            assert(entries.subrange(0, n as int) =~= entries);
            lemma_churn_kept_from(slots_v(self.slots@), entries, steps@);
            lemma_churn_reports_borrow(slots_v(self.slots@), entries, steps@, churned_at);
            let k = slot_entries(kept);
            assert forall|j: int| 0 <= j < k.len() implies #[trigger] k[j].1 < self.slots@.len() by {
                let m = choose|m: int| 0 <= m < entries.len() && entries[m] == #[trigger] k[j];
            }
            assert forall|j: int| 0 <= j < self.errors@.len() implies #[trigger] self.errors@[j] is BorrowCheckError by {
                if j >= old(self).errors@.len() {
                    assert(self.errors@[j] == churn_reports(slots_v(self.slots@), entries, steps@, churned_at)[j - old(self).errors@.len()]);
                }
            }
        }
        self.pending = kept;
    }
}


/// The group a result kind borrows into, if it is a borrow reference.
fn result_borrow_group(kind: &KindGT) -> (r: Option<&Vec<GroupPathG>>)
    ensures
        kind is BorrowRef ==> r is Some && *r->0 == kind->BorrowRef_0.group.group,
        !(kind is BorrowRef) ==> r is None,
{
    match kind {
        KindGT::BorrowRef(b) => Some(&b.group.group),
        _ => None,
    }
}

/// Whether `runes` holds `rune`.
fn contains_rune(runes: &Vec<IRuneS>, rune: IRuneS) -> (r: bool)
    ensures r == runes@.contains(rune),
{
    let mut i: usize = 0;
    while i < runes.len()
        invariant
            i <= runes@.len(),
            forall|j: int| 0 <= j < i ==> runes@[j] != rune,
        decreases runes@.len() - i,
    {
        if runes[i] == rune {
            assert(runes@[i as int] == rune);
            return true;
        }
        i = i + 1;
    }
    false
}

/// An argument's borrow place, as held by the walk, is the one `place_v` names.
pub open spec fn place_is(x: Option<(IVarNameT, Vec<GroupStep>, RangeS)>, y: Option<(IVarNameT, Seq<GroupStep>, RangeS)>) -> bool {
    match (x, y) {
        (Some((r, p, g)), Some((r2, p2, g2))) => r == r2 && p@ == p2 && g == g2,
        (None, None) => true,
        _ => false,
    }
}

/// An argument that borrows no place has no borrow-into-moved facts.
proof fn lemma_moved_row_none(args: Seq<ExpressionGE>, i: int, j: int)
    requires place_v(args[i]) is None,
    ensures moved_row(args, i, j) == Seq::<JointFact>::empty(),
    decreases j,
{
    if j > 0 { lemma_moved_row_none(args, i, j - 1); }
}

/// A fact's arguments are arguments of the call.
pub open spec fn fact_in_call(f: JointFact, n: nat) -> bool {
    match f {
        JointFact::BorrowIntoMoved { borrow_arg, move_arg, .. } => borrow_arg < n && move_arg < n && borrow_arg != move_arg,
        JointFact::AliasingDisjointMut { arg_a, arg_b, .. } => arg_a < arg_b < n,
    }
}

impl Compiler {
    /// The joint-argument facts at a call: a borrow into a moved argument, and aliasing borrows into
    /// distinct mutated groups. Empty when the callee cannot be resolved.
    fn joint_facts(&self, coutputs: &CompilerOutputs, callable: &PrototypeT, args: &Vec<ExpressionGE>) -> (r: Vec<JointFact>)
        requires forall|i: int| 0 <= i < args@.len() ==> #[trigger] arg_group_single(args@[i]),
        ensures
            function_template(*coutputs, callable.id) is None ==> r@.len() == 0,
            forall|k: int| 0 <= k < r@.len() ==> fact_in_call(#[trigger] r@[k], args@.len()),
            r@ == joint_facts_v(*coutputs, callable.id, args@),
    {
        let callee = match self.resolve_callee(coutputs, callable) {
            Some(c) => c,
            None => { return Vec::new(); },
        };
        let ghost av = args@;
        let mut places: Vec<Option<(IVarNameT, Vec<GroupStep>, RangeS)>> = Vec::new();
        let mut moves: Vec<Option<IVarNameT>> = Vec::new();
        let mut a: usize = 0;
        while a < args.len()
            invariant
                a <= args@.len(),
                places@.len() == a,
                moves@.len() == a,
                forall|i: int| 0 <= i < args@.len() ==> #[trigger] arg_group_single(args@[i]),
                forall|k: int| 0 <= k < a ==> place_is(#[trigger] places@[k], place_v(args@[k])),
                forall|k: int| 0 <= k < a ==> #[trigger] moves@[k] == moved_local_of(args@[k]),
            decreases args@.len() - a,
        {
            let arg = &args[a];
            let place = match place_root_local(arg) {
                Some(root) => match result_borrow_group(arg.result()) {
                    Some(group) => match expr_range(arg) {
                        Some(range) => {
                            proof { assert(arg_group_single(args@[a as int])); }
                            Some((root, flatten(sole_path(group)), range))
                        },
                        None => None,
                    },
                    None => None,
                },
                None => None,
            };
            proof { assert(place_is(place, place_v(args@[a as int]))); }
            places.push(place);
            moves.push(moved_local(arg));
            a = a + 1;
        }

        let mut facts: Vec<JointFact> = Vec::new();
        let n = args.len();
        let mut i: usize = 0;
        while i < n
            invariant
                n == args@.len(), places@.len() == n, moves@.len() == n, i <= n,
                forall|k: int| 0 <= k < n ==> place_is(#[trigger] places@[k], place_v(args@[k])),
                forall|k: int| 0 <= k < n ==> #[trigger] moves@[k] == moved_local_of(args@[k]),
                forall|k: int| 0 <= k < facts@.len() ==> fact_in_call(#[trigger] facts@[k], n as nat),
                facts@ == moved_facts(args@, i as int),
            decreases n - i,
        {
            let ghost before = facts@;
            proof {
                assert(place_is(places@[i as int], place_v(args@[i as int])));
                if place_v(args@[i as int]) is None { lemma_moved_row_none(args@, i as int, n as int); }
            }
            if let Some((root_i, _, range_i)) = &places[i] {
                let mut j: usize = 0;
                while j < n
                    invariant
                        n == args@.len(), places@.len() == n, moves@.len() == n, i < n, j <= n,
                        forall|k: int| 0 <= k < n ==> #[trigger] moves@[k] == moved_local_of(args@[k]),
                        place_v(args@[i as int]) == Some((*root_i, (place_v(args@[i as int])->0).1, *range_i)),
                        forall|k: int| 0 <= k < facts@.len() ==> fact_in_call(#[trigger] facts@[k], n as nat),
                        facts@ == before + moved_row(args@, i as int, j as int),
                    decreases n - j,
                {
                    let ghost mid = facts@;
                    if i != j {
                        if let Some(moved) = moves[j] {
                            if *root_i == moved {
                                facts.push(JointFact::BorrowIntoMoved { local: moved, borrow_arg: i, move_arg: j, range: *range_i });
                            }
                        }
                    }
                    proof { assert(facts@ =~= before + moved_row(args@, i as int, j + 1)); }
                    j = j + 1;
                }
            }
            proof { assert(facts@ =~= moved_facts(args@, i + 1)); }
            i = i + 1;
        }

        let ghost params = callee.params@;
        let ghost eff = callee.effects@;
        let mut param_runes: Vec<Option<IRuneS>> = Vec::new();
        let mut p: usize = 0;
        while p < callee.params.len()
            invariant
                p <= callee.params@.len(), param_runes@.len() == p,
                forall|k: int| 0 <= k < p ==> #[trigger] param_runes@[k] == declared_param_rune(callee.params@[k]),
            decreases callee.params@.len() - p,
        {
            param_runes.push(param_group_rune(&callee.params[p]));
            p = p + 1;
        }
        let mut mutated: Vec<IRuneS> = Vec::new();
        let mut q: usize = 0;
        while q < callee.effects.len()
            invariant q <= callee.effects@.len(), mutated@ == mutated_runes(callee.effects@, q as int),
            decreases callee.effects@.len() - q,
        {
            if let EffectS::Mut(gs) = &callee.effects[q] {
                if let Some(r) = effect_root_rune(gs) {
                    mutated.push(r);
                }
            }
            q = q + 1;
        }
        let ghost mv = mutated@;
        let ghost moved_all = facts@;
        let mut i: usize = 0;
        while i < n
            invariant
                n == args@.len(), places@.len() == n, i <= n,
                param_runes@.len() == params.len(),
                forall|k: int| 0 <= k < params.len() ==> #[trigger] param_runes@[k] == declared_param_rune(params[k]),
                mutated@ == mv,
                forall|k: int| 0 <= k < n ==> place_is(#[trigger] places@[k], place_v(args@[k])),
                forall|k: int| 0 <= k < facts@.len() ==> fact_in_call(#[trigger] facts@[k], n as nat),
                facts@ == moved_all + alias_facts(args@, params, mv, i as int),
            decreases n - i,
        {
            let ghost before = facts@;
            let mut j: usize = i + 1;
            proof { assert(facts@ =~= before + alias_row(args@, params, mv, i as int, j as int)); }
            while j < n
                invariant
                    n == args@.len(), places@.len() == n, i < n, i + 1 <= j <= n,
                    param_runes@.len() == params.len(),
                    forall|k: int| 0 <= k < params.len() ==> #[trigger] param_runes@[k] == declared_param_rune(params[k]),
                    mutated@ == mv,
                    forall|k: int| 0 <= k < n ==> place_is(#[trigger] places@[k], place_v(args@[k])),
                    forall|k: int| 0 <= k < facts@.len() ==> fact_in_call(#[trigger] facts@[k], n as nat),
                    facts@ == before + alias_row(args@, params, mv, i as int, j as int),
                decreases n - j,
            {
                let ghost mid = facts@;
                proof {
                    assert(place_is(places@[i as int], place_v(args@[i as int])));
                    assert(place_is(places@[j as int], place_v(args@[j as int])));
                    if (i as int) < params.len() { assert(param_runes@[i as int] == declared_param_rune(params[i as int])); }
                    if (j as int) < params.len() { assert(param_runes@[j as int] == declared_param_rune(params[j as int])); }
                }
                if let (Some((root_i, path_i, range_i)), Some((_, path_j, _))) = (&places[i], &places[j]) {
                    let ri = if i < param_runes.len() { param_runes[i] } else { None };
                    let rj = if j < param_runes.len() { param_runes[j] } else { None };
                    if let (Some(ri), Some(rj)) = (ri, rj) {
                        if ri != rj && (contains_rune(&mutated, ri) || contains_rune(&mutated, rj)) && paths_alias(path_i, path_j) {
                            if let (Some(ga), Some(gb)) = (rune_name(ri), rune_name(rj)) {
                                facts.push(JointFact::AliasingDisjointMut {
                                    local: *root_i, arg_a: i, arg_b: j, group_a: ga, group_b: gb, range: *range_i,
                                });
                            }
                        }
                    }
                }
                proof {
                    assert(facts@ =~= mid + alias_cell(args@, params, mv, i as int, j as int));
                    assert(facts@ =~= before + alias_row(args@, params, mv, i as int, j + 1));
                }
                j = j + 1;
            }
            proof { assert(facts@ =~= moved_all + alias_facts(args@, params, mv, i + 1)); }
            i = i + 1;
        }
        facts
    }

    /// The compile error for a joint-argument fact.
    fn joint_error(&self, fact: &JointFact) -> (r: ICompileErrorT)
        ensures
            r == joint_error_v(*fact),
            r == (match *fact {
                JointFact::BorrowIntoMoved { local, borrow_arg, move_arg, range } => ICompileErrorT::BorrowCheckError {
                    range,
                    kind: BorrowErrorKind::BorrowIntoMovedArgument { local, borrow_arg, move_arg },
                },
                JointFact::AliasingDisjointMut { local, arg_a, arg_b, group_a, group_b, range } => ICompileErrorT::BorrowCheckError {
                    range,
                    kind: BorrowErrorKind::AliasingIntoDisjointMutGroups { local, arg_a, arg_b, group_a, group_b },
                },
            }),
    {
        match fact {
            JointFact::BorrowIntoMoved { local, borrow_arg, move_arg, range } => self.borrow_error(
                BorrowErrorKind::BorrowIntoMovedArgument { local: *local, borrow_arg: *borrow_arg, move_arg: *move_arg },
                *range,
            ),
            JointFact::AliasingDisjointMut { local, arg_a, arg_b, group_a, group_b, range } => self.borrow_error(
                BorrowErrorKind::AliasingIntoDisjointMutGroups {
                    local: *local, arg_a: *arg_a, arg_b: *arg_b, group_a: *group_a, group_b: *group_b,
                },
                *range,
            ),
        }
    }
}


/// `new` is `old` with more errors after it.
pub open spec fn extends(new: Seq<ICompileErrorT>, old: Seq<ICompileErrorT>) -> bool {
    old.len() <= new.len() && new.subrange(0, old.len() as int) == old
}

proof fn lemma_extends_trans(a: Seq<ICompileErrorT>, b: Seq<ICompileErrorT>, c: Seq<ICompileErrorT>)
    requires extends(b, a), extends(c, b),
    ensures extends(c, a),
{
    assert(c.subrange(0, a.len() as int) =~= c.subrange(0, b.len() as int).subrange(0, a.len() as int));
}

proof fn lemma_extends_refl(a: Seq<ICompileErrorT>)
    ensures extends(a, a),
{
    assert(a.subrange(0, a.len() as int) =~= a);
}

proof fn lemma_extends_push(a: Seq<ICompileErrorT>, e: ICompileErrorT)
    ensures extends(a.push(e), a),
{
    assert(a.push(e).subrange(0, a.len() as int) =~= a);
}

proof fn lemma_extends_add(a: Seq<ICompileErrorT>, b: Seq<ICompileErrorT>)
    ensures extends(a + b, a),
{
    assert((a + b).subrange(0, a.len() as int) =~= a);
}

/// The flattened paths of some declared groups.
pub open spec fn steps_view(d: Seq<Vec<GroupStep>>) -> Seq<Seq<GroupStep>> {
    d.map_values(|v: Vec<GroupStep>| v@)
}

/// A churn of `steps` is rooted at a parameter's group and no declared `mut` covers it.
pub open spec fn churns_undeclared(declared: Seq<Seq<GroupStep>>, steps: Seq<GroupStep>) -> bool {
    param_rooted(steps) && !exists|k: int| 0 <= k < declared.len() && is_prefix(declared[k], steps)
}

/// The node is a call, reported at `at`, that makes such a churn.
pub open spec fn node_undeclared(e: ExpressionGE, declared: Seq<Seq<GroupStep>>, at: RangeS) -> bool {
    match e {
        ExpressionGE::FunctionCall(c) => c.range == at
            && exists|p: int| 0 <= p < c.mut_effects@.len() && #[trigger] churns_undeclared(declared, c.mut_effects@[p].steps@),
        _ => false,
    }
}

/// Whether a call in `e`, reported at `at`, churns a group reached through a parameter that no
/// declared `mut` covers.
pub open spec fn undeclared_churn_at(e: ExpressionGE, declared: Seq<Seq<GroupStep>>, at: RangeS) -> bool
    decreases e, 1int, 0int,
{
    node_undeclared(e, declared, at) || kids_undeclared(e, declared, at, children_of(e).len() as int)
}

pub open spec fn kids_undeclared(e: ExpressionGE, declared: Seq<Seq<GroupStep>>, at: RangeS, n: int) -> bool
    decreases e, 0int, n,
{
    if n <= 0 || n > children_of(e).len() {
        false
    } else {
        proof { lemma_children_smaller(e); }
        kids_undeclared(e, declared, at, n - 1) || undeclared_churn_at(children_of(e)[n - 1], declared, at)
    }
}

/// The errors report every undeclared churn in `e`.
pub open spec fn covers_undeclared(errors: Seq<ICompileErrorT>, e: ExpressionGE, declared: Seq<Seq<GroupStep>>) -> bool {
    forall|at: RangeS| #[trigger] undeclared_churn_at(e, declared, at)
        ==> errors.contains(ICompileErrorT::BorrowCheckError { range: at, kind: BorrowErrorKind::UndeclaredChurn })
}

proof fn lemma_kids_undeclared(e: ExpressionGE, declared: Seq<Seq<GroupStep>>, at: RangeS, n: int)
    requires kids_undeclared(e, declared, at, n),
    ensures exists|i: int| 0 <= i < n && i < children_of(e).len() && undeclared_churn_at(#[trigger] children_of(e)[i], declared, at),
    decreases n,
{
    if n > 0 && n <= children_of(e).len() {
        if kids_undeclared(e, declared, at, n - 1) {
            lemma_kids_undeclared(e, declared, at, n - 1);
        } else {
            assert(undeclared_churn_at(children_of(e)[n - 1], declared, at));
        }
    }
}

/// What a later error list keeps of an earlier one.
proof fn lemma_covers_extends(errors: Seq<ICompileErrorT>, more: Seq<ICompileErrorT>, e: ExpressionGE, declared: Seq<Seq<GroupStep>>)
    requires covers_undeclared(errors, e, declared), extends(more, errors),
    ensures covers_undeclared(more, e, declared),
{
    assert forall|at: RangeS| #[trigger] undeclared_churn_at(e, declared, at)
        implies more.contains(ICompileErrorT::BorrowCheckError { range: at, kind: BorrowErrorKind::UndeclaredChurn }) by {
        let x = ICompileErrorT::BorrowCheckError { range: at, kind: BorrowErrorKind::UndeclaredChurn };
        let i = choose|i: int| 0 <= i < errors.len() && errors[i] == x;
        assert(more.subrange(0, errors.len() as int)[i] == more[i]);
    }
}

/// A node's undeclared churns are its own and its children's.
proof fn lemma_covers_node(errors: Seq<ICompileErrorT>, e: ExpressionGE, declared: Seq<Seq<GroupStep>>)
    requires
        forall|i: int| 0 <= i < children_of(e).len() ==> covers_undeclared(errors, #[trigger] children_of(e)[i], declared),
        forall|at: RangeS| #[trigger] node_undeclared(e, declared, at)
            ==> errors.contains(ICompileErrorT::BorrowCheckError { range: at, kind: BorrowErrorKind::UndeclaredChurn }),
    ensures covers_undeclared(errors, e, declared),
{
    assert forall|at: RangeS| #[trigger] undeclared_churn_at(e, declared, at)
        implies errors.contains(ICompileErrorT::BorrowCheckError { range: at, kind: BorrowErrorKind::UndeclaredChurn }) by {
        if !node_undeclared(e, declared, at) {
            lemma_kids_undeclared(e, declared, at, children_of(e).len() as int);
            let i = choose|i: int| 0 <= i < children_of(e).len() && undeclared_churn_at(#[trigger] children_of(e)[i], declared, at);
            assert(covers_undeclared(errors, children_of(e)[i], declared));
        }
    }
}

/// What one step of the walk over `node` guarantees, given a budget of held temporaries.
spec fn walked(w: &Walk, old: &Walk, node: ExpressionGE, budget: int) -> bool {
    &&& w.wf()
    &&& w.declared_mut@ == old.declared_mut@
    &&& w.break_targets@ == old.break_targets@
    &&& old.next_held <= w.next_held <= old.next_held + budget
    &&& old.slots@.len() <= w.slots@.len()
    &&& extends(w.errors@, old.errors@)
    &&& (!may_err(node) ==> w.errors@ == old.errors@)
    &&& covers_undeclared(w.errors@, node, steps_view(old.declared_mut@))
}

/// Whether a declared `mut` covers a churn of `steps`.
fn declared_covers(declared: &Vec<Vec<GroupStep>>, steps: &Vec<GroupStep>) -> (r: bool)
    ensures r == exists|k: int| 0 <= k < declared@.len() && is_prefix(#[trigger] declared@[k]@, steps@),
{
    let mut k: usize = 0;
    while k < declared.len()
        invariant
            k <= declared@.len(),
            forall|j: int| 0 <= j < k ==> !is_prefix(#[trigger] declared@[j]@, steps@),
        decreases declared@.len() - k,
    {
        if path_covers(&declared[k], steps) {
            return true;
        }
        k = k + 1;
    }
    false
}

/// A copy of a flattened path.
pub(crate) fn copy_steps(steps: &Vec<GroupStep>) -> (r: Vec<GroupStep>)
    ensures r@ == steps@,
{
    let mut v: Vec<GroupStep> = Vec::new();
    let mut i: usize = 0;
    while i < steps.len()
        invariant i <= steps@.len(), v@ == steps@.subrange(0, i as int),
        decreases steps@.len() - i,
    {
        v.push(steps[i]);
        i = i + 1;
    }
    assert(steps@.subrange(0, steps@.len() as int) =~= steps@);
    v
}

impl Compiler {
    /// Walk one node backward. `key` is the pending entry this node's value is held under, if a later
    /// use wants it: the node either retires it (the value is born here) or forwards it to the child
    /// that supplies the value.
    #[verifier::rlimit(60)]
    #[verifier::spinoff_prover]
    fn check_ge(&self, coutputs: &CompilerOutputs, walk: &mut Walk, node: &ExpressionGE, key: Option<RefKey>)
        requires
            old(walk).wf(),
            ge_ok(*node, old(walk).break_targets@.len() > 0),
            old(walk).next_held + ge_size(*node) <= u32::MAX,
        ensures
            walked(final(walk), old(walk), *node, ge_size(*node) - 1),
            walk_v(final(walk)) == sw(*coutputs, steps_view(old(walk).declared_mut@), *node, key, walk_v(old(walk))),
        decreases node, 2int,
    {
        let ghost in_loop = walk.break_targets@.len() > 0;
        let ghost w0 = *walk;
        let ghost d = steps_view(walk.declared_mut@);
        proof {
            lemma_node_kids(*node, in_loop);
            lemma_children_smaller(*node);
            lemma_extends_refl(walk.errors@);
        }
        match node {
            ExpressionGE::LocalLookup(l) => {
                if let Some(from) = key {
                    walk.rekey(from, RefKey::Named(l.local_variable.name));
                }
                proof { lemma_covers_node(walk.errors@, *node, d); }
            },
            ExpressionGE::Unlet(u) => {
                if let Some(from) = key {
                    walk.rekey(from, RefKey::Named(u.variable.name));
                }
                proof { lemma_covers_node(walk.errors@, *node, d); }
            },
            ExpressionGE::ArgLookup(_) | ExpressionGE::VoidLiteral(_) | ExpressionGE::ConstantInt(_)
            | ExpressionGE::ConstantBool(_) | ExpressionGE::ConstantStr(_) | ExpressionGE::ConstantFloat(_) => {
                walk.retire(key);
                proof { lemma_covers_node(walk.errors@, *node, d); }
            },
            ExpressionGE::Deref(dr) => {
                match &dr.result {
                    KindGT::BorrowRef(_) => {
                        self.check_ge(coutputs, walk, &dr.inner, key);
                    },
                    _ => {
                        walk.retire(key);
                        let inner_key = walk.register(&dr.inner);
                        self.check_ge(coutputs, walk, &dr.inner, inner_key);
                    },
                }
                proof { lemma_covers_node(walk.errors@, *node, d); }
            },
            ExpressionGE::CopyPrim(e) => {
                walk.retire(key);
                let inner_key = walk.register(&e.inner);
                self.check_ge(coutputs, walk, &e.inner, inner_key);
                proof { lemma_covers_node(walk.errors@, *node, d); }
            },
            ExpressionGE::RuntimeSizedArrayLookup(e) => {
                walk.retire(key);
                let base_key = walk.register(&e.array_expr);
                self.check_ge(coutputs, walk, &e.index_expr, None);
                let ghost w1 = *walk;
                self.check_ge(coutputs, walk, &e.array_expr, base_key);
                proof {
                    lemma_extends_trans(w0.errors@, w1.errors@, walk.errors@);
                    lemma_covers_extends(w1.errors@, walk.errors@, *e.index_expr, d);
                    lemma_covers_node(walk.errors@, *node, d);
                }
            },
            ExpressionGE::StaticSizedArrayLookup(e) => {
                walk.retire(key);
                let base_key = walk.register(&e.array_expr);
                self.check_ge(coutputs, walk, &e.index_expr, None);
                let ghost w1 = *walk;
                self.check_ge(coutputs, walk, &e.array_expr, base_key);
                proof {
                    lemma_extends_trans(w0.errors@, w1.errors@, walk.errors@);
                    lemma_covers_extends(w1.errors@, walk.errors@, *e.index_expr, d);
                    lemma_covers_node(walk.errors@, *node, d);
                }
            },
            ExpressionGE::MemberLookup(e) => {
                walk.retire(key);
                let base_key = walk.register(&e.struct_expr);
                self.check_ge(coutputs, walk, &e.struct_expr, base_key);
                proof { lemma_covers_node(walk.errors@, *node, d); }
            },
            ExpressionGE::FunctionCall(_) => self.check_call(coutputs, walk, node, key),
            ExpressionGE::InterfaceFunctionCall(_) | ExpressionGE::ExternFunctionCall(_) | ExpressionGE::BoundFunctionCall(_) => {
                walk.retire(key);
                self.check_args(coutputs, walk, node);
            },
            ExpressionGE::LetNormal(e) => {
                walk.retire(key);
                let bound_key = walk.pending_key(RefKey::Named(e.variable.name));
                self.check_ge(coutputs, walk, &e.expr, bound_key);
                proof { lemma_covers_node(walk.errors@, *node, d); }
            },
            ExpressionGE::LetAndLend(e) => {
                walk.retire(key);
                let bound_key = walk.pending_key(RefKey::Named(e.variable.name));
                self.check_ge(coutputs, walk, &e.expr, bound_key);
                proof { lemma_covers_node(walk.errors@, *node, d); }
            },
            ExpressionGE::Restackify(e) => {
                walk.retire(key);
                let bound_key = walk.pending_key(RefKey::Named(e.variable.name));
                self.check_ge(coutputs, walk, &e.source_expr, bound_key);
                proof { lemma_covers_node(walk.errors@, *node, d); }
            },
            ExpressionGE::Mutate(m) => {
                walk.retire(key);
                let source_key = match &*m.destination_expr {
                    ExpressionGE::LocalLookup(l) => walk.pending_key(RefKey::Named(l.local_variable.name)),
                    _ => walk.register(&m.source_expr),
                };
                self.check_ge(coutputs, walk, &m.source_expr, source_key);
                let ghost w1 = *walk;
                self.check_ge(coutputs, walk, &m.destination_expr, None);
                proof {
                    lemma_extends_trans(w0.errors@, w1.errors@, walk.errors@);
                    lemma_covers_extends(w1.errors@, walk.errors@, *m.source_expr, d);
                    lemma_covers_node(walk.errors@, *node, d);
                }
            },
            ExpressionGE::Return(r) => {
                walk.retire(key);
                let ghost sr = walk_v(walk);
                slot_map_clear(&mut walk.pending);
                proof { assert(walk_v(walk) =~= with_pending(sr, Seq::empty())); }
                let source_key = walk.register(&r.source_expr);
                self.check_ge(coutputs, walk, &r.source_expr, source_key);
                proof { lemma_covers_node(walk.errors@, *node, d); }
            },
            ExpressionGE::Break(_) => {
                walk.retire(key);
                let n = walk.break_targets.len();
                let ghost sb = walk_v(walk);
                walk.pending = slot_map_clone(&walk.break_targets[n - 1]);
                proof {
                    lemma_covers_node(walk.errors@, *node, d);
                    assert(sb.targets.last() == slot_entries(walk.break_targets@[n - 1]));
                    assert(walk_v(walk) =~= with_pending(sb, sb.targets.last()));
                }
            },
            ExpressionGE::If(_) => self.check_if(coutputs, walk, node, key),
            ExpressionGE::While(_) => self.check_while(coutputs, walk, node, key),
            ExpressionGE::Block(b) => {
                self.check_ge(coutputs, walk, &b.inner, key);
                proof { lemma_covers_node(walk.errors@, *node, d); }
            },
            ExpressionGE::Consecutor(_) => self.check_consec(coutputs, walk, node, key),
            ExpressionGE::Discard(e) => {
                walk.retire(key);
                self.check_ge(coutputs, walk, &e.expr, None);
                proof { lemma_covers_node(walk.errors@, *node, d); }
            },
            ExpressionGE::Destroy(_) => self.check_destroy(coutputs, walk, node, key),
            ExpressionGE::DestroyStaticSizedArrayIntoLocals(_) => self.check_destroy_ssa(coutputs, walk, node, key),
            ExpressionGE::Reinterpret(e) => {
                self.check_ge(coutputs, walk, &e.expr, key);
                proof { lemma_covers_node(walk.errors@, *node, d); }
            },
            ExpressionGE::AsSubtype(e) => {
                self.check_ge(coutputs, walk, &e.source_expr, key);
                proof { lemma_covers_node(walk.errors@, *node, d); }
            },
            ExpressionGE::InterfaceToInterfaceUpcast(e) => {
                self.check_ge(coutputs, walk, &e.inner_expr, key);
                proof { lemma_covers_node(walk.errors@, *node, d); }
            },
            ExpressionGE::UpcastInterface(e) => {
                self.check_ge(coutputs, walk, &e.inner_expr, key);
                proof { lemma_covers_node(walk.errors@, *node, d); }
            },
            ExpressionGE::UpcastGeneric(e) => {
                self.check_ge(coutputs, walk, &e.inner_expr, key);
                proof { lemma_covers_node(walk.errors@, *node, d); }
            },
            _ => {
                walk.retire(key);
                self.check_args(coutputs, walk, node);
            },
        }
    }

    #[verifier::spinoff_prover]
    #[verifier::rlimit(60)]
    fn check_call(&self, coutputs: &CompilerOutputs, walk: &mut Walk, node: &ExpressionGE, key: Option<RefKey>)
        requires
            old(walk).wf(),
            ge_ok(*node, old(walk).break_targets@.len() > 0),
            old(walk).next_held + ge_size(*node) <= u32::MAX,
            *node is FunctionCall,
        ensures
            walked(final(walk), old(walk), *node, ge_size(*node) - 1),
            walk_v(final(walk)) == sw(*coutputs, steps_view(old(walk).declared_mut@), *node, key, walk_v(old(walk))),
        decreases node, 1int,
    {
        let ghost in_loop = walk.break_targets@.len() > 0;
        let ghost w0 = *walk;
        let ghost d = steps_view(walk.declared_mut@);
        proof {
            lemma_node_kids(*node, in_loop);
            lemma_children_smaller(*node);
            lemma_extends_refl(walk.errors@);
        }
        match node {
            ExpressionGE::FunctionCall(call) => {
                walk.retire(key);
                let ghost sr = walk_v(walk);
                let mut p: usize = 0;
                while p < call.mut_effects.len()
                    invariant
                        walk_v(walk) == effects_v(d, call.range, call.mut_effects@, p as int, sr),
                        p <= call.mut_effects@.len(),
                        walk.wf(),
                        walk.declared_mut@ == w0.declared_mut@,
                        d == steps_view(w0.declared_mut@),
                        walk.break_targets@ == w0.break_targets@,
                        walk.next_held == w0.next_held,
                        w0.slots@.len() <= walk.slots@.len(),
                        extends(walk.errors@, w0.errors@),
                        forall|q: int| 0 <= q < p && #[trigger] churns_undeclared(d, call.mut_effects@[q].steps@)
                            ==> walk.errors@.contains(ICompileErrorT::BorrowCheckError { range: call.range, kind: BorrowErrorKind::UndeclaredChurn }),
                    decreases call.mut_effects@.len() - p,
                {
                    let path = &call.mut_effects[p];
                    let steps = copy_steps(&path.steps);
                    let ghost wa = *walk;
                    let ghost sa = walk_v(walk);
                    proof {
                        assert((exists|k: int| 0 <= k < walk.declared_mut@.len() && is_prefix(#[trigger] walk.declared_mut@[k]@, steps@))
                            == (exists|k: int| 0 <= k < d.len() && is_prefix(#[trigger] d[k], steps@))) by {
                            assert forall|k: int| 0 <= k < d.len() implies #[trigger] d[k] == walk.declared_mut@[k]@ by {}
                            if exists|k: int| 0 <= k < walk.declared_mut@.len() && is_prefix(#[trigger] walk.declared_mut@[k]@, steps@) {
                                let k = choose|k: int| 0 <= k < walk.declared_mut@.len() && is_prefix(#[trigger] walk.declared_mut@[k]@, steps@);
                                assert(d[k] == walk.declared_mut@[k]@);
                            }
                            if exists|k: int| 0 <= k < d.len() && is_prefix(#[trigger] d[k], steps@) {
                                let k = choose|k: int| 0 <= k < d.len() && is_prefix(#[trigger] d[k], steps@);
                                assert(d[k] == walk.declared_mut@[k]@);
                            }
                        }
                    }
                    if is_param_rooted(&steps) && !declared_covers(&walk.declared_mut, &steps) {
                        let err = self.borrow_error(BorrowErrorKind::UndeclaredChurn, call.range);
                        walk.errors.push(err);
                        proof {
                            lemma_extends_push(wa.errors@, err);
                            assert(walk.errors@[walk.errors@.len() - 1] == err);
                        }
                    } else {
                        proof {
                            lemma_extends_refl(wa.errors@);
                            assert forall|k: int| 0 <= k < d.len() && is_prefix(d[k], steps@)
                                implies exists|k2: int| 0 <= k2 < walk.declared_mut@.len() && is_prefix(#[trigger] walk.declared_mut@[k2]@, steps@) by {
                                assert(d[k] == walk.declared_mut@[k]@);
                            }
                        }
                    }
                    let ghost wb = *walk;
                    proof {
                        assert(walk_v(walk) =~= (if churns_undeclared(d, call.mut_effects@[p as int].steps@) {
                            with_errors(sa, sa.errors.push(ICompileErrorT::BorrowCheckError { range: call.range, kind: BorrowErrorKind::UndeclaredChurn }))
                        } else { sa }));
                    }
                    walk.churn(&steps, path.range);
                    proof {
                        assert(walk_v(walk) == effects_v(d, call.range, call.mut_effects@, p + 1, sr));
                    }
                    proof {
                        lemma_extends_add(wb.errors@, churn_reports(slots_v(wb.slots@), slot_entries(wb.pending), steps@, path.range));
                        lemma_extends_trans(wa.errors@, wb.errors@, walk.errors@);
                        lemma_extends_trans(w0.errors@, wa.errors@, walk.errors@);
                        let x = ICompileErrorT::BorrowCheckError { range: call.range, kind: BorrowErrorKind::UndeclaredChurn };
                        assert forall|q: int| 0 <= q < p + 1 && #[trigger] churns_undeclared(d, call.mut_effects@[q].steps@)
                            implies walk.errors@.contains(x) by {
                            if q < p {
                                let i = choose|i: int| 0 <= i < wa.errors@.len() && wa.errors@[i] == x;
                                assert(walk.errors@.subrange(0, wa.errors@.len() as int)[i] == walk.errors@[i]);
                            } else {
                                assert forall|k: int| 0 <= k < walk.declared_mut@.len() && is_prefix(walk.declared_mut@[k]@, steps@)
                                    implies exists|k2: int| 0 <= k2 < d.len() && is_prefix(#[trigger] d[k2], steps@) by {
                                    assert(d[k] == walk.declared_mut@[k]@);
                                }
                                let i = wb.errors@.len() - 1;
                                assert(wb.errors@[i] == x);
                                assert(walk.errors@.subrange(0, wb.errors@.len() as int)[i] == walk.errors@[i]);
                            }
                        }
                    }
                    p = p + 1;
                }
                let facts = self.joint_facts(coutputs, &call.callable, &call.args);
                let ghost wj = *walk;
                let ghost sj = walk_v(walk);
                if facts.len() > 0 {
                    let err = self.joint_error(&facts[0]);
                    walk.errors.push(err);
                    proof {
                        assert(walk_v(walk) =~= with_errors(sj, sj.errors.push(joint_error_v(facts@[0]))));
                        lemma_extends_push(wj.errors@, err);
                        lemma_extends_trans(w0.errors@, wj.errors@, walk.errors@);
                    }
                } else {
                    proof { lemma_extends_refl(wj.errors@); }
                }
                let ghost w1 = *walk;
                self.check_args(coutputs, walk, node);
                proof {
                    lemma_extends_trans(w0.errors@, w1.errors@, walk.errors@);
                    lemma_extends_trans(wj.errors@, w1.errors@, walk.errors@);
                    let x = ICompileErrorT::BorrowCheckError { range: call.range, kind: BorrowErrorKind::UndeclaredChurn };
                    assert forall|at: RangeS| #[trigger] node_undeclared(*node, d, at) implies walk.errors@.contains(
                        ICompileErrorT::BorrowCheckError { range: at, kind: BorrowErrorKind::UndeclaredChurn }) by {
                        let q = choose|q: int| 0 <= q < call.mut_effects@.len() && #[trigger] churns_undeclared(d, call.mut_effects@[q].steps@);
                        let i = choose|i: int| 0 <= i < wj.errors@.len() && wj.errors@[i] == x;
                        assert(walk.errors@.subrange(0, wj.errors@.len() as int)[i] == walk.errors@[i]);
                    }
                    lemma_covers_node(walk.errors@, *node, d);
                }
            
            },
            _ => {},
        }
    }

    #[verifier::spinoff_prover]
    #[verifier::rlimit(60)]
    fn check_if(&self, coutputs: &CompilerOutputs, walk: &mut Walk, node: &ExpressionGE, key: Option<RefKey>)
        requires
            old(walk).wf(),
            ge_ok(*node, old(walk).break_targets@.len() > 0),
            old(walk).next_held + ge_size(*node) <= u32::MAX,
            *node is If,
        ensures
            walked(final(walk), old(walk), *node, ge_size(*node) - 1),
            walk_v(final(walk)) == sw(*coutputs, steps_view(old(walk).declared_mut@), *node, key, walk_v(old(walk))),
        decreases node, 1int,
    {
        let ghost in_loop = walk.break_targets@.len() > 0;
        let ghost w0 = *walk;
        let ghost d = steps_view(walk.declared_mut@);
        proof {
            lemma_node_kids(*node, in_loop);
            lemma_children_smaller(*node);
            lemma_extends_refl(walk.errors@);
        }
        match node {
            ExpressionGE::If(e) => {
                let ghost s0 = walk_v(walk);
                let mut post = slot_map_clone(&walk.pending);
                self.check_ge(coutputs, walk, &e.then_call, key);
                let ghost w1 = *walk;
                let ghost s1 = walk_v(walk);
                proof { lemma_map_ok_grows(post, w0.slots@.len(), walk.slots@.len()); }
                std::mem::swap(&mut walk.pending, &mut post);
                proof { assert(walk_v(walk) =~= with_pending(s1, s0.pending)); }
                self.check_ge(coutputs, walk, &e.else_call, key);
                let ghost w2 = *walk;
                let ghost s2 = walk_v(walk);
                proof {
                    lemma_map_ok_grows(post, w1.slots@.len(), walk.slots@.len());
                    lemma_extends_trans(w0.errors@, w1.errors@, walk.errors@);
                }
                let mut else_pending = slot_map_new();
                std::mem::swap(&mut walk.pending, &mut else_pending);
                walk.pending = post;
                proof { assert(walk_v(walk) =~= with_pending(s2, s1.pending)); }
                let count = slot_map_len(&else_pending);
                let mut i: usize = 0;
                while i < count
                    invariant
                        i <= count,
                        count == slot_entries(else_pending).len(),
                        walk.wf(),
                        map_ok(else_pending, walk.slots@.len()),
                        walk.declared_mut@ == w0.declared_mut@,
                        walk.break_targets@ == w0.break_targets@,
                        walk.next_held == w2.next_held,
                        walk.errors@ == w2.errors@,
                        w2.slots@.len() <= walk.slots@.len(),
                        slot_entries(else_pending) == s2.pending,
                        walk_v(walk) == merge_into_v(with_pending(s2, s1.pending), s2.pending, i as int),
                    decreases count - i,
                {
                    let (code, slot) = slot_map_get_index(&else_pending, i).unwrap();
                    let ghost before = walk.slots@.len();
                    walk.insert_slot(code, slot);
                    proof { lemma_map_ok_grows(else_pending, before, walk.slots@.len()); }
                    i = i + 1;
                }
                let ghost w3 = *walk;
                self.check_ge(coutputs, walk, &e.condition, None);
                proof {
                    lemma_extends_trans(w0.errors@, w3.errors@, walk.errors@);
                    lemma_extends_trans(w1.errors@, w3.errors@, walk.errors@);
                    lemma_covers_extends(w1.errors@, walk.errors@, *e.then_call, d);
                    lemma_covers_extends(w3.errors@, walk.errors@, *e.else_call, d);
                    lemma_covers_node(walk.errors@, *node, d);
                }
            
            },
            _ => {},
        }
    }

    #[verifier::spinoff_prover]
    #[verifier::rlimit(60)]
    fn check_while(&self, coutputs: &CompilerOutputs, walk: &mut Walk, node: &ExpressionGE, key: Option<RefKey>)
        requires
            old(walk).wf(),
            ge_ok(*node, old(walk).break_targets@.len() > 0),
            old(walk).next_held + ge_size(*node) <= u32::MAX,
            *node is While,
        ensures
            walked(final(walk), old(walk), *node, ge_size(*node) - 1),
            walk_v(final(walk)) == sw(*coutputs, steps_view(old(walk).declared_mut@), *node, key, walk_v(old(walk))),
        decreases node, 1int,
    {
        let ghost in_loop = walk.break_targets@.len() > 0;
        let ghost w0 = *walk;
        let ghost d = steps_view(walk.declared_mut@);
        proof {
            lemma_node_kids(*node, in_loop);
            lemma_children_smaller(*node);
            lemma_extends_refl(walk.errors@);
        }
        match node {
            ExpressionGE::While(w) => {
                walk.retire(key);
                let ghost s1 = walk_v(walk);
                let saved = slot_map_clone(&walk.pending);
                walk.break_targets.push(saved);
                proof { assert(walk_v(walk) =~= with_targets(s1, s1.targets.push(s1.pending))); }
                self.check_ge(coutputs, walk, &w.block.inner, None);
                let ghost s3 = walk_v(walk);
                walk.break_targets.pop();
                let ghost w1 = *walk;
                proof {
                    assert(walk.break_targets@ =~= w0.break_targets@);
                    lemma_extends_refl(w1.errors@);
                    assert(walk_v(walk) =~= with_targets(s3, s3.targets.drop_last()));
                }
                let ghost s4 = walk_v(walk);
                let mut p: usize = 0;
                while p < w.mut_effects.len()
                    invariant
                        p <= w.mut_effects@.len(),
                        walk.wf(),
                        walk.declared_mut@ == w0.declared_mut@,
                        walk.break_targets@ == w0.break_targets@,
                        walk.next_held == w1.next_held,
                        w1.slots@.len() <= walk.slots@.len(),
                        extends(walk.errors@, w1.errors@),
                        w.mut_effects@.len() == 0 ==> walk.errors@ == w1.errors@,
                        walk_v(walk) == loop_churns_v(w.mut_effects@, p as int, s4),
                    decreases w.mut_effects@.len() - p,
                {
                    let ghost wa = *walk;
                    walk.churn(&w.mut_effects[p].steps, w.mut_effects[p].range);
                    proof {
                        lemma_extends_add(wa.errors@, churn_reports(slots_v(wa.slots@), slot_entries(wa.pending), w.mut_effects@[p as int].steps@, w.mut_effects@[p as int].range));
                        lemma_extends_trans(w1.errors@, wa.errors@, walk.errors@);
                    }
                    p = p + 1;
                }
                proof {
                    lemma_extends_trans(w0.errors@, w1.errors@, walk.errors@);
                    lemma_covers_extends(w1.errors@, walk.errors@, *w.block.inner, d);
                    lemma_covers_node(walk.errors@, *node, d);
                }
            
            },
            _ => {},
        }
    }

    #[verifier::spinoff_prover]
    #[verifier::rlimit(60)]
    fn check_consec(&self, coutputs: &CompilerOutputs, walk: &mut Walk, node: &ExpressionGE, key: Option<RefKey>)
        requires
            old(walk).wf(),
            ge_ok(*node, old(walk).break_targets@.len() > 0),
            old(walk).next_held + ge_size(*node) <= u32::MAX,
            *node is Consecutor,
        ensures
            walked(final(walk), old(walk), *node, ge_size(*node) - 1),
            walk_v(final(walk)) == sw(*coutputs, steps_view(old(walk).declared_mut@), *node, key, walk_v(old(walk))),
        decreases node, 1int,
    {
        let ghost in_loop = walk.break_targets@.len() > 0;
        let ghost w0 = *walk;
        let ghost d = steps_view(walk.declared_mut@);
        proof {
            lemma_node_kids(*node, in_loop);
            lemma_children_smaller(*node);
            lemma_extends_refl(walk.errors@);
        }
        match node {
            ExpressionGE::Consecutor(c) => {
                let n = c.exprs.len();
                let last = if n == 0 { 0 } else { n - 1 };
                let mut j: usize = n;
                proof { lemma_kids_prefix(*node, in_loop, n as int); }
                while j > 0
                    invariant
                        n == c.exprs@.len(),
                        children_of(*node) == c.exprs@,
                        j <= n,
                        walk.wf(),
                        (walk.break_targets@.len() > 0) == in_loop,
                        forall|i: int| 0 <= i < n ==> ge_ok(#[trigger] c.exprs@[i], in_loop),
                        forall|i: int| 0 <= i < n ==> decreases_to!(*node => #[trigger] c.exprs@[i]),
                        walk.next_held + kids_size(*node, j as int) <= w0.next_held + kids_size(*node, n as int),
                        w0.next_held + ge_size(*node) <= u32::MAX,
                        ge_size(*node) == 1 + kids_size(*node, n as int),
                        walk.declared_mut@ == w0.declared_mut@,
                        d == steps_view(w0.declared_mut@),
                        walk.break_targets@ == w0.break_targets@,
                        w0.next_held <= walk.next_held,
                        w0.slots@.len() <= walk.slots@.len(),
                        extends(walk.errors@, w0.errors@),
                        !may_err(*node) ==> walk.errors@ == w0.errors@,
                        !may_err(*node) ==> forall|i: int| 0 <= i < n ==> !may_err(#[trigger] c.exprs@[i]),
                        forall|i: int| j <= i < n ==> covers_undeclared(walk.errors@, #[trigger] c.exprs@[i], d),
                        consec_v(*coutputs, d, *node, key, last as int, n as int, walk_v(&w0))
                            == consec_v(*coutputs, d, *node, key, last as int, j as int, walk_v(walk)),
                    decreases j,
                {
                    let i = j - 1;
                    proof {
                        lemma_kids_prefix(*node, in_loop, j as int);
                        assert(kids_size(*node, j as int) == kids_size(*node, i as int) + ge_size(c.exprs@[i as int]));
                    }
                    let ghost wa = *walk;
                    proof {
                        assert(consec_v(*coutputs, d, *node, key, last as int, j as int, walk_v(walk))
                            == consec_v(*coutputs, d, *node, key, last as int, i as int,
                                sw(*coutputs, d, children_of(*node)[i as int], if i == last { key } else { None }, walk_v(walk))));
                    }
                    self.check_ge(coutputs, walk, &c.exprs[i], if i == last { key } else { None });
                    proof {
                        lemma_extends_trans(w0.errors@, wa.errors@, walk.errors@);
                        assert forall|x: int| i < x < n implies covers_undeclared(walk.errors@, #[trigger] c.exprs@[x], d) by {
                            lemma_covers_extends(wa.errors@, walk.errors@, c.exprs@[x], d);
                        }
                    }
                    j = i;
                }
                proof { lemma_covers_node(walk.errors@, *node, d); }
            
            },
            _ => {},
        }
    }

    #[verifier::spinoff_prover]
    #[verifier::rlimit(60)]
    fn check_destroy(&self, coutputs: &CompilerOutputs, walk: &mut Walk, node: &ExpressionGE, key: Option<RefKey>)
        requires
            old(walk).wf(),
            ge_ok(*node, old(walk).break_targets@.len() > 0),
            old(walk).next_held + ge_size(*node) <= u32::MAX,
            *node is Destroy,
        ensures
            walked(final(walk), old(walk), *node, ge_size(*node) - 1),
            walk_v(final(walk)) == sw(*coutputs, steps_view(old(walk).declared_mut@), *node, key, walk_v(old(walk))),
        decreases node, 1int,
    {
        let ghost in_loop = walk.break_targets@.len() > 0;
        let ghost w0 = *walk;
        let ghost d = steps_view(walk.declared_mut@);
        proof {
            lemma_node_kids(*node, in_loop);
            lemma_children_smaller(*node);
            lemma_extends_refl(walk.errors@);
        }
        match node {
            ExpressionGE::Destroy(e) => {
                walk.retire(key);
                let ghost sr = walk_v(walk);
                let mut v: usize = 0;
                while v < e.destination_reference_variables.len()
                    invariant
                        v <= e.destination_reference_variables@.len(),
                        walk.wf(),
                        walk.declared_mut@ == w0.declared_mut@,
                        walk.break_targets@ == w0.break_targets@,
                        walk.next_held == w0.next_held,
                        walk.errors@ == w0.errors@,
                        w0.slots@.len() <= walk.slots@.len(),
                        walk_v(walk) == retire_all_v(e.destination_reference_variables@, v as int, sr),
                    decreases e.destination_reference_variables@.len() - v,
                {
                    walk.retire(Some(RefKey::Named(e.destination_reference_variables[v].name)));
                    v = v + 1;
                }
                let source_key = walk.register(&e.expr);
                self.check_ge(coutputs, walk, &e.expr, source_key);
                proof { lemma_covers_node(walk.errors@, *node, d); }
            
            },
            _ => {},
        }
    }

    #[verifier::spinoff_prover]
    #[verifier::rlimit(60)]
    fn check_destroy_ssa(&self, coutputs: &CompilerOutputs, walk: &mut Walk, node: &ExpressionGE, key: Option<RefKey>)
        requires
            old(walk).wf(),
            ge_ok(*node, old(walk).break_targets@.len() > 0),
            old(walk).next_held + ge_size(*node) <= u32::MAX,
            *node is DestroyStaticSizedArrayIntoLocals,
        ensures
            walked(final(walk), old(walk), *node, ge_size(*node) - 1),
            walk_v(final(walk)) == sw(*coutputs, steps_view(old(walk).declared_mut@), *node, key, walk_v(old(walk))),
        decreases node, 1int,
    {
        let ghost in_loop = walk.break_targets@.len() > 0;
        let ghost w0 = *walk;
        let ghost d = steps_view(walk.declared_mut@);
        proof {
            lemma_node_kids(*node, in_loop);
            lemma_children_smaller(*node);
            lemma_extends_refl(walk.errors@);
        }
        match node {
            ExpressionGE::DestroyStaticSizedArrayIntoLocals(e) => {
                walk.retire(key);
                let ghost sr = walk_v(walk);
                let mut v: usize = 0;
                while v < e.destination_reference_variables.len()
                    invariant
                        v <= e.destination_reference_variables@.len(),
                        walk.wf(),
                        walk.declared_mut@ == w0.declared_mut@,
                        walk.break_targets@ == w0.break_targets@,
                        walk.next_held == w0.next_held,
                        walk.errors@ == w0.errors@,
                        w0.slots@.len() <= walk.slots@.len(),
                        walk_v(walk) == retire_all_v(e.destination_reference_variables@, v as int, sr),
                    decreases e.destination_reference_variables@.len() - v,
                {
                    walk.retire(Some(RefKey::Named(e.destination_reference_variables[v].name)));
                    v = v + 1;
                }
                let source_key = walk.register(&e.expr);
                self.check_ge(coutputs, walk, &e.expr, source_key);
                proof { lemma_covers_node(walk.errors@, *node, d); }
            
            },
            _ => {},
        }
    }

    /// Consume a node's children: register every reference-valued child as a use first (a churn met
    /// in a later child must see the earlier ones pending), then walk them in reverse evaluation
    /// order. The node's own report, if a call's, is made before this.
    fn check_args(&self, coutputs: &CompilerOutputs, walk: &mut Walk, node: &ExpressionGE)
        requires
            old(walk).wf(),
            !(*node is While),
            ge_ok(*node, old(walk).break_targets@.len() > 0),
            old(walk).next_held + ge_size(*node) <= u32::MAX,
        ensures
            final(walk).wf(),
            final(walk).declared_mut@ == old(walk).declared_mut@,
            final(walk).break_targets@ == old(walk).break_targets@,
            old(walk).next_held <= final(walk).next_held <= old(walk).next_held + ge_size(*node) - 1,
            old(walk).slots@.len() <= final(walk).slots@.len(),
            extends(final(walk).errors@, old(walk).errors@),
            !may_err(*node) ==> final(walk).errors@ == old(walk).errors@,
            forall|i: int| 0 <= i < children_of(*node).len()
                ==> covers_undeclared(final(walk).errors@, #[trigger] children_of(*node)[i], steps_view(old(walk).declared_mut@)),
            !(*node is FunctionCall) ==> covers_undeclared(final(walk).errors@, *node, steps_view(old(walk).declared_mut@)),
            walk_v(final(walk)) == args_v(*coutputs, steps_view(old(walk).declared_mut@), *node, walk_v(old(walk))),
        decreases node, 0int,
    {
        let ghost in_loop = walk.break_targets@.len() > 0;
        let ghost w0 = *walk;
        let ghost d = steps_view(walk.declared_mut@);
        let kids = node.children();
        let n = kids.len();
        proof {
            lemma_node_kids(*node, in_loop);
            lemma_children_smaller(*node);
            lemma_kids_prefix(*node, in_loop, n as int);
            lemma_extends_refl(walk.errors@);
            assert forall|i: int| 0 <= i < n implies *kids@[i] == children_of(*node)[i] by {
                assert(kids@.map_values(|c: &ExpressionGE| *c)[i] == *kids@[i]);
            }
        }
        let mut keys: Vec<Option<RefKey>> = Vec::new();
        let mut i: usize = 0;
        while i < n
            invariant
                n == kids@.len(),
                n == children_of(*node).len(),
                i <= n,
                keys@.len() == i,
                walk.wf(),
                w0.next_held <= walk.next_held <= w0.next_held + i,
                w0.next_held + ge_size(*node) <= u32::MAX,
                ge_size(*node) == 1 + kids_size(*node, n as int),
                kids_size(*node, n as int) >= n,
                walk.declared_mut@ == w0.declared_mut@,
                walk.break_targets@ == w0.break_targets@,
                walk.errors@ == w0.errors@,
                w0.slots@.len() <= walk.slots@.len(),
                forall|x: int| 0 <= x < n ==> *kids@[x] == children_of(*node)[x],
                (keys@, walk_v(walk)) == register_kids_v(children_of(*node), i as int, walk_v(&w0)),
            decreases n - i,
        {
            let k = walk.register(kids[i]);
            keys.push(k);
            i = i + 1;
        }
        let ghost s1 = walk_v(walk);
        let ghost kv = keys@;
        proof { assert(register_kids_v(children_of(*node), n as int, walk_v(&w0)) == (kv, s1)); }
        let mut j: usize = n;
        while j > 0
            invariant
                n == kids@.len(),
                n == children_of(*node).len(),
                keys@.len() == n,
                keys@ == kv,
                walk_kids_v(*coutputs, d, *node, kv, n as int, s1) == walk_kids_v(*coutputs, d, *node, kv, j as int, walk_v(walk)),
                j <= n,
                forall|x: int| 0 <= x < n ==> *kids@[x] == children_of(*node)[x],
                walk.wf(),
                (walk.break_targets@.len() > 0) == in_loop,
                forall|x: int| 0 <= x < n ==> ge_ok(#[trigger] children_of(*node)[x], in_loop),
                forall|x: int| 0 <= x < n ==> decreases_to!(*node => #[trigger] children_of(*node)[x]),
                walk.next_held + kids_size(*node, j as int) <= w0.next_held + kids_size(*node, n as int) + j,
                w0.next_held + ge_size(*node) <= u32::MAX,
                ge_size(*node) == 1 + kids_size(*node, n as int),
                walk.declared_mut@ == w0.declared_mut@,
                d == steps_view(w0.declared_mut@),
                walk.break_targets@ == w0.break_targets@,
                w0.next_held <= walk.next_held,
                w0.slots@.len() <= walk.slots@.len(),
                extends(walk.errors@, w0.errors@),
                !may_err(*node) ==> walk.errors@ == w0.errors@,
                !may_err(*node) ==> forall|x: int| 0 <= x < n ==> !may_err(#[trigger] children_of(*node)[x]),
                forall|x: int| j <= x < n ==> covers_undeclared(walk.errors@, #[trigger] children_of(*node)[x], d),
            decreases j,
        {
            let x = j - 1;
            proof {
                lemma_kids_prefix(*node, in_loop, x as int);
                lemma_kids_prefix(*node, in_loop, j as int);
                assert(kids_size(*node, j as int) == kids_size(*node, x as int) + ge_size(children_of(*node)[x as int]));
            }
            let ghost wa = *walk;
            proof {
                assert(walk_kids_v(*coutputs, d, *node, kv, j as int, walk_v(walk))
                    == walk_kids_v(*coutputs, d, *node, kv, x as int, sw(*coutputs, d, children_of(*node)[x as int], kv[x as int], walk_v(walk))));
            }
            self.check_ge(coutputs, walk, kids[x], keys[x]);
            proof {
                lemma_extends_trans(w0.errors@, wa.errors@, walk.errors@);
                assert forall|y: int| x < y < n implies covers_undeclared(walk.errors@, #[trigger] children_of(*node)[y], d) by {
                    lemma_covers_extends(wa.errors@, walk.errors@, children_of(*node)[y], d);
                }
            }
            j = x;
        }
        proof {
            if !(*node is FunctionCall) {
                lemma_covers_node(walk.errors@, *node, d);
            }
        }
    }
}

/// The offset an error is reported in order by: a borrow-check error's start; anything else last.
pub open spec fn err_offset(e: ICompileErrorT) -> i32 {
    match e {
        ICompileErrorT::BorrowCheckError { range, .. } => range.begin.offset,
        _ => i32::MAX,
    }
}

fn error_offset(e: &ICompileErrorT) -> (r: i32)
    ensures r == err_offset(*e),
{
    match e {
        ICompileErrorT::BorrowCheckError { range, .. } => range.begin.offset,
        _ => i32::MAX,
    }
}

/// The errors are in nondecreasing order of offset.
pub open spec fn sorted_by_offset(s: Seq<ICompileErrorT>) -> bool {
    forall|i: int, j: int| 0 <= i < j < s.len() ==> err_offset(s[i]) <= err_offset(s[j])
}

/// The errors at offset `k`, in their order.
pub open spec fn at_offset(s: Seq<ICompileErrorT>, k: i32) -> Seq<ICompileErrorT> {
    s.filter(|e: ICompileErrorT| err_offset(e) == k)
}

/// A sequence none of whose errors is at offset `k` has none there.
proof fn lemma_none_at_offset(s: Seq<ICompileErrorT>, k: i32)
    requires forall|i: int| 0 <= i < s.len() ==> err_offset(#[trigger] s[i]) != k,
    ensures at_offset(s, k).len() == 0,
{
    let pred = |e: ICompileErrorT| err_offset(e) == k;
    assert(s.all(|x: ICompileErrorT| !pred(x)));
    s.lemma_all_neg_filter_empty(pred);
}

/// Pushing an error adds it last among its offset.
proof fn lemma_push_at_offset(s: Seq<ICompileErrorT>, e: ICompileErrorT, k: i32)
    ensures at_offset(s.push(e), k) == (if err_offset(e) == k { at_offset(s, k).push(e) } else { at_offset(s, k) }),
{
    reveal(Seq::filter);
    assert(s.push(e).drop_last() =~= s);
}

/// Inserting an error right after every error at or before its offset adds it last among its
/// offset.
proof fn lemma_insert_at_offset(s: Seq<ICompileErrorT>, j: int, e: ICompileErrorT, k: i32)
    requires
        0 <= j <= s.len(),
        forall|i: int| j <= i < s.len() ==> err_offset(e) < err_offset(#[trigger] s[i]),
    ensures at_offset(s.insert(j, e), k) == at_offset(s.push(e), k),
{
    let pred = |x: ICompileErrorT| err_offset(x) == k;
    let pre = s.subrange(0, j);
    let suf = s.subrange(j, s.len() as int);
    let one = seq![e];
    assert(s.insert(j, e) =~= pre + one + suf);
    assert(s.push(e) =~= pre + suf + one);
    assert(s =~= pre + suf);
    Seq::filter_distributes_over_add(pre + one, suf, pred);
    Seq::filter_distributes_over_add(pre, one, pred);
    Seq::filter_distributes_over_add(pre + suf, one, pred);
    Seq::filter_distributes_over_add(pre, suf, pred);
    if err_offset(e) == k {
        assert forall|i: int| 0 <= i < suf.len() implies err_offset(#[trigger] suf[i]) != k by {
            assert(suf[i] == s[j + i]);
        }
        lemma_none_at_offset(suf, k);
        assert(at_offset(suf, k) =~= Seq::<ICompileErrorT>::empty());
    } else {
        assert(forall|i: int| 0 <= i < one.len() ==> err_offset(#[trigger] one[i]) != k);
        lemma_none_at_offset(one, k);
        assert(at_offset(one, k) =~= Seq::<ICompileErrorT>::empty());
    }
    assert(at_offset(pre + one + suf, k) =~= at_offset(pre + suf + one, k));
}

/// The errors ordered by offset, a stable sort: errors at one offset keep the order they came in.
pub fn sort_by_offset(errors: Vec<ICompileErrorT>) -> (r: Vec<ICompileErrorT>)
    ensures
        sorted_by_offset(r@),
        forall|k: i32| #[trigger] at_offset(r@, k) == at_offset(errors@, k),
        forall|i: int| 0 <= i < r@.len() ==> errors@.contains(#[trigger] r@[i]),
        r@.len() == errors@.len(),
{
    let ghost input = errors@;
    let mut rest = errors;
    let mut out: Vec<ICompileErrorT> = Vec::new();
    let ghost mut done: int = 0;
    proof {
        assert(input.subrange(0, 0) =~= Seq::<ICompileErrorT>::empty());
        assert(input.subrange(0, input.len() as int) =~= input);
        assert forall|k: i32| #[trigger] at_offset(out@, k) == at_offset(input.subrange(0, 0), k) by {
            reveal(Seq::filter);
        }
    }
    while rest.len() > 0
        invariant
            0 <= done <= input.len(),
            rest@ == input.subrange(done, input.len() as int),
            out@.len() == done,
            sorted_by_offset(out@),
            forall|k: i32| #[trigger] at_offset(out@, k) == at_offset(input.subrange(0, done), k),
            forall|i: int| 0 <= i < out@.len() ==> input.contains(#[trigger] out@[i]),
        decreases rest@.len(),
    {
        let e = rest.remove(0);
        let off = error_offset(&e);
        let mut j: usize = 0;
        while j < out.len() && error_offset(&out[j]) <= off
            invariant
                j <= out@.len(),
                forall|i: int| 0 <= i < j ==> err_offset(#[trigger] out@[i]) <= off,
            decreases out@.len() - j,
        {
            j = j + 1;
        }
        let ghost before = out@;
        proof {
            assert forall|i: int| j <= i < before.len() implies off < err_offset(#[trigger] before[i]) by {
                assert(err_offset(before[j as int]) > off);
                assert(err_offset(before[j as int]) <= err_offset(before[i]));
            }
            before.insert_ensures(j as int, e);
            assert(e == input[done]);
        }
        out.insert(j, e);
        proof {
            let pre = input.subrange(0, done + 1);
            assert(pre =~= input.subrange(0, done).push(e));
            assert forall|k: i32| #[trigger] at_offset(out@, k) == at_offset(input.subrange(0, done + 1), k) by {
                lemma_insert_at_offset(before, j as int, e, k);
                lemma_push_at_offset(input.subrange(0, done), e, k);
                lemma_push_at_offset(before, e, k);
            }
            assert forall|a: int, b: int| 0 <= a < b < out@.len() implies err_offset(out@[a]) <= err_offset(out@[b]) by {
                if b < j {
                } else if b == j {
                    assert(out@[a] == before[a]);
                } else if a < j {
                    assert(out@[b] == before[b - 1]);
                    assert(out@[a] == before[a]);
                } else if a == j {
                    assert(out@[b] == before[b - 1]);
                } else {
                    assert(out@[b] == before[b - 1]);
                    assert(out@[a] == before[a - 1]);
                }
            }
            assert forall|i: int| 0 <= i < out@.len() implies input.contains(#[trigger] out@[i]) by {
                if i < j {
                    assert(out@[i] == before[i]);
                } else if i == j {
                    assert(input[done] == e);
                } else {
                    assert(out@[i] == before[i - 1]);
                }
            }
            assert(rest@ =~= input.subrange(done + 1, input.len() as int));
            done = done + 1;
        }
    }
    proof {
        assert(input.subrange(0, done) =~= input);
    }
    out
}

/// Whether two errors report the same use of the same thing, differing at most in which churn they
/// name.
pub open spec fn reports_same_use(a: ICompileErrorT, b: ICompileErrorT) -> bool {
    match a {
        ICompileErrorT::BorrowCheckError { range: range_a, kind: kind_a } => match b {
            ICompileErrorT::BorrowCheckError { range: range_b, kind: kind_b } => range_a == range_b && match kind_a {
                BorrowErrorKind::UseAfterChurn { local: local_a, .. } => match kind_b {
                    BorrowErrorKind::UseAfterChurn { local: local_b, .. } => local_a == local_b,
                    _ => false,
                },
                BorrowErrorKind::UseAfterChurnTemporary { .. } => kind_b is UseAfterChurnTemporary,
                BorrowErrorKind::UndeclaredChurn => kind_b is UndeclaredChurn,
                _ => false,
            },
            _ => false,
        },
        _ => false,
    }
}

fn same_use(a: &ICompileErrorT, b: &ICompileErrorT) -> (r: bool)
    ensures r == reports_same_use(*a, *b),
{
    match a {
        ICompileErrorT::BorrowCheckError { range: range_a, kind: kind_a } => match b {
            ICompileErrorT::BorrowCheckError { range: range_b, kind: kind_b } => {
                if *range_a != *range_b {
                    return false;
                }
                match kind_a {
                    BorrowErrorKind::UseAfterChurn { local: local_a, .. } => match kind_b {
                        BorrowErrorKind::UseAfterChurn { local: local_b, .. } => *local_a == *local_b,
                        _ => false,
                    },
                    BorrowErrorKind::UseAfterChurnTemporary { .. } => match kind_b {
                        BorrowErrorKind::UseAfterChurnTemporary { .. } => true,
                        _ => false,
                    },
                    BorrowErrorKind::UndeclaredChurn => match kind_b {
                        BorrowErrorKind::UndeclaredChurn => true,
                        _ => false,
                    },
                    _ => false,
                }
            },
            _ => false,
        },
        _ => false,
    }
}

/// The errors with each run of reports of one use cut to its first.
pub open spec fn dedup_uses(s: Seq<ICompileErrorT>) -> Seq<ICompileErrorT>
    decreases s.len(),
{
    if s.len() == 0 {
        s
    } else {
        let kept = dedup_uses(s.drop_last());
        if kept.len() > 0 && reports_same_use(kept.last(), s.last()) { kept } else { kept.push(s.last()) }
    }
}

/// Drop each error that reports the same use as the error kept just before it.
pub fn dedup_same_use(errors: Vec<ICompileErrorT>) -> (r: Vec<ICompileErrorT>)
    ensures r@ == dedup_uses(errors@),
{
    let ghost input = errors@;
    let mut rest = errors;
    let mut out: Vec<ICompileErrorT> = Vec::new();
    let ghost mut done: int = 0;
    proof {
        assert(input.subrange(0, 0) =~= Seq::<ICompileErrorT>::empty());
    }
    while rest.len() > 0
        invariant
            0 <= done <= input.len(),
            rest@ == input.subrange(done, input.len() as int),
            out@ == dedup_uses(input.subrange(0, done)),
        decreases rest@.len(),
    {
        let e = rest.remove(0);
        proof {
            let pre = input.subrange(0, done + 1);
            assert(pre.drop_last() =~= input.subrange(0, done));
            assert(pre.last() == e);
        }
        if out.len() > 0 && same_use(&out[out.len() - 1], &e) {
        } else {
            out.push(e);
        }
        proof {
            assert(rest@ =~= input.subrange(done + 1, input.len() as int));
            done = done + 1;
        }
    }
    proof {
        assert(input.subrange(0, done) =~= input);
    }
    out
}

/// No two neighboring errors report the same use.
pub open spec fn no_repeated_use(s: Seq<ICompileErrorT>) -> bool {
    forall|i: int| 0 <= i < s.len() - 1 ==> !reports_same_use(#[trigger] s[i], s[i + 1])
}

/// What cutting repeated reports keeps: a nonempty list of errors drawn from the input, no two
/// neighbors reporting one use.
proof fn lemma_dedup_uses(s: Seq<ICompileErrorT>)
    ensures
        s.len() > 0 ==> dedup_uses(s).len() > 0,
        no_repeated_use(dedup_uses(s)),
        forall|i: int| 0 <= i < dedup_uses(s).len() ==> s.contains(#[trigger] dedup_uses(s)[i]),
    decreases s.len(),
{
    if s.len() > 0 {
        let rest = s.drop_last();
        lemma_dedup_uses(rest);
        let kept = dedup_uses(rest);
        let d = dedup_uses(s);
        assert forall|i: int| 0 <= i < d.len() implies s.contains(#[trigger] d[i]) by {
            if i < kept.len() {
                assert(d[i] == kept[i]);
                let j = choose|j: int| 0 <= j < rest.len() && rest[j] == kept[i];
                assert(s[j] == rest[j]);
            } else {
                assert(d[i] == s[s.len() - 1]);
            }
        }
        assert forall|i: int| 0 <= i < d.len() - 1 implies !reports_same_use(#[trigger] d[i], d[i + 1]) by {
            if i + 1 < kept.len() {
                assert(d[i] == kept[i] && d[i + 1] == kept[i + 1]);
            } else {
                assert(d[i] == kept.last());
            }
        }
    }
}

/// Every `mut` effect of a header names groups that can be read as paths.
pub open spec fn effects_ok(effects: Seq<EffectS>) -> bool {
    forall|i: int| 0 <= i < effects.len() ==> match #[trigger] effects[i] {
        EffectS::Mut(gs) => written_group_ok(gs),
        EffectS::NotMut(_) => true,
    }
}

/// The flattened paths a header's `mut` effects declare, in order.
pub open spec fn declared_mut_of(effects: Seq<EffectS>) -> Seq<Seq<GroupStep>>
    decreases effects.len(),
{
    if effects.len() == 0 {
        Seq::empty()
    } else {
        declared_mut_of(effects.drop_last()) + match effects.last() {
            EffectS::Mut(gs) => written_paths(gs).map_values(|p: GroupPathV| flat(p)),
            EffectS::NotMut(_) => Seq::empty(),
        }
    }
}

impl Compiler {
    /// The flattened paths of the groups a header declares `mut`.
    fn declared_mut_paths(&self, function_s: &FunctionS) -> (r: Vec<Vec<GroupStep>>)
        requires effects_ok(function_s.effects@),
        ensures steps_view(r@) == declared_mut_of(function_s.effects@),
    {
        let mut declared: Vec<Vec<GroupStep>> = Vec::new();
        let mut i: usize = 0;
        proof { assert(steps_view(declared@) =~= declared_mut_of(function_s.effects@.subrange(0, 0))); }
        while i < function_s.effects.len()
            invariant
                i <= function_s.effects@.len(),
                effects_ok(function_s.effects@),
                steps_view(declared@) == declared_mut_of(function_s.effects@.subrange(0, i as int)),
            decreases function_s.effects@.len() - i,
        {
            let ghost pre = function_s.effects@.subrange(0, i + 1);
            proof {
                assert(pre.drop_last() =~= function_s.effects@.subrange(0, i as int));
                assert(pre.last() == function_s.effects@[i as int]);
            }
            let ghost before = steps_view(declared@);
            if let EffectS::Mut(gs) = &function_s.effects[i] {
                proof { assert(written_group_ok(*gs)); }
                let paths = group_expr_from_group_s(gs);
                let ghost flats = written_paths(*gs).map_values(|p: GroupPathV| flat(p));
                let mut k: usize = 0;
                while k < paths.len()
                    invariant
                        k <= paths@.len(),
                        paths_view(paths@) == written_paths(*gs),
                        flats == written_paths(*gs).map_values(|p: GroupPathV| flat(p)),
                        steps_view(declared@) == before + flats.subrange(0, k as int),
                    decreases paths@.len() - k,
                {
                    let ghost before_push = steps_view(declared@);
                    declared.push(flatten(&paths[k]));
                    proof {
                        assert(paths_view(paths@)[k as int] == paths@[k as int]@);
                        assert(written_paths(*gs)[k as int] == paths@[k as int]@);
                        assert(flats[k as int] == flat(paths@[k as int]@));
                        assert(steps_view(declared@) =~= before_push.push(flat(paths@[k as int]@)));
                        assert(flats.subrange(0, k + 1) =~= flats.subrange(0, k as int).push(flats[k as int]));
                        assert(steps_view(declared@) =~= before + flats.subrange(0, k + 1));
                    }
                    k = k + 1;
                }
                proof { assert(flats.subrange(0, paths@.len() as int) =~= flats); }
            } else {
                proof { assert(steps_view(declared@) =~= before + Seq::<Seq<GroupStep>>::empty()); }
            }
            i = i + 1;
        }
        proof { assert(function_s.effects@.subrange(0, function_s.effects@.len() as int) =~= function_s.effects@); }
        declared
    }

    /// Check the grouped body, returning every violation the backward walk finds, in source order:
    /// sorted by where each is reported (a stable sort: violations at one place keep the order they
    /// were found in), with repeated reports of one use cut to the first. Errors are collected, never
    /// returned early: `Ok` exactly when the walk finds nothing.
    pub fn check_usages(&self, coutputs: &CompilerOutputs, function_s: &FunctionS, body: &ExpressionGE) -> (r: Result<(), Vec<ICompileErrorT>>)
        requires
            effects_ok(function_s.effects@),
            ge_ok(*body, false),
            ge_size(*body) <= u32::MAX,
        ensures
            !may_err(*body) ==> r is Ok,
            r matches Err(errs) ==> {
                &&& errs@.len() > 0
                &&& sorted_by_offset(errs@)
                &&& all_borrow_errors(errs@)
                &&& no_repeated_use(errs@)
            },
            forall|at: RangeS| #[trigger] undeclared_churn_at(*body, declared_mut_of(function_s.effects@), at)
                ==> (r matches Err(errs) && errs@.contains(ICompileErrorT::BorrowCheckError { range: at, kind: BorrowErrorKind::UndeclaredChurn })),
            (r is Ok) == (walk_errors(*coutputs, *function_s, *body).len() == 0),
            r matches Err(errs) ==> reported_as(errs@, walk_errors(*coutputs, *function_s, *body)),
    {
        let declared_mut = self.declared_mut_paths(function_s);
        let mut walk = Walk {
            declared_mut,
            pending: slot_map_new(),
            slots: Vec::new(),
            break_targets: Vec::new(),
            errors: Vec::new(),
            next_held: 0,
        };
        proof { assert(walk_v(&walk) =~= walk_start()); }
        self.check_ge(coutputs, &mut walk, body, None);
        if walk.errors.len() == 0 {
            return Ok(());
        }
        let mut found: Vec<ICompileErrorT> = Vec::new();
        std::mem::swap(&mut found, &mut walk.errors);
        let sorted = sort_by_offset(found);
        proof {
            assert forall|at: RangeS| #[trigger] undeclared_churn_at(*body, declared_mut_of(function_s.effects@), at)
                implies sorted@.contains(ICompileErrorT::BorrowCheckError { range: at, kind: BorrowErrorKind::UndeclaredChurn }) by {
                let x = ICompileErrorT::BorrowCheckError { range: at, kind: BorrowErrorKind::UndeclaredChurn };
                lemma_at_offset_contains(found@, x);
                lemma_at_offset_member(sorted@, err_offset(x), x);
            }
        }
        proof {
            assert forall|i: int| 0 <= i < sorted@.len() implies #[trigger] sorted@[i] is BorrowCheckError by {
                let j = choose|j: int| 0 <= j < found@.len() && found@[j] == sorted@[i];
            }
        }
        let ghost sorted_v = sorted@;
        let deduped = dedup_same_use(sorted);
        proof {
            assert(reported_as(deduped@, found@)) by {
                assert(sorted_by_offset(sorted_v) && (forall|k: i32| #[trigger] at_offset(sorted_v, k) == at_offset(found@, k))
                    && deduped@ == dedup_uses(sorted_v));
            }
        }
        proof {
            assert forall|at: RangeS| #[trigger] undeclared_churn_at(*body, declared_mut_of(function_s.effects@), at)
                implies deduped@.contains(ICompileErrorT::BorrowCheckError { range: at, kind: BorrowErrorKind::UndeclaredChurn }) by {
                lemma_dedup_keeps_undeclared(sorted@, ICompileErrorT::BorrowCheckError { range: at, kind: BorrowErrorKind::UndeclaredChurn });
            }
            lemma_dedup_uses(sorted@);
            assert forall|i: int| 0 <= i < deduped@.len() implies #[trigger] deduped@[i] is BorrowCheckError by {
                let j = choose|j: int| 0 <= j < sorted@.len() && sorted@[j] == deduped@[i];
            }
            assert forall|i: int, j: int| 0 <= i < j < deduped@.len() implies err_offset(deduped@[i]) <= err_offset(deduped@[j]) by {
                lemma_dedup_sorted(sorted@);
            }
        }
        Err(deduped)
    }
}

/// The violations the backward walk over a function's grouped body finds, in the order it finds them.
pub open spec fn walk_errors(co: CompilerOutputs, f: FunctionS, body: ExpressionGE) -> Seq<ICompileErrorT> {
    sw(co, declared_mut_of(f.effects@), body, None, walk_start()).errors
}

/// `errs` is how the violations `found` are reported: stably sorted by where each is reported, then
/// repeated reports of one use cut to the first.
pub open spec fn reported_as(errs: Seq<ICompileErrorT>, found: Seq<ICompileErrorT>) -> bool {
    exists|t: Seq<ICompileErrorT>| sorted_by_offset(t) && (forall|k: i32| #[trigger] at_offset(t, k) == at_offset(found, k))
        && errs == dedup_uses(t)
}

/// An error is among the errors at its own offset.
proof fn lemma_at_offset_contains(s: Seq<ICompileErrorT>, x: ICompileErrorT)
    requires s.contains(x),
    ensures at_offset(s, err_offset(x)).contains(x),
    decreases s.len(),
{
    let rest = s.drop_last();
    assert(rest.push(s.last()) =~= s);
    lemma_push_at_offset(rest, s.last(), err_offset(x));
    if s.last() == x {
        assert(at_offset(s, err_offset(x)).last() == x);
    } else {
        let i = choose|i: int| 0 <= i < s.len() && s[i] == x;
        assert(rest[i] == x);
        lemma_at_offset_contains(rest, x);
        let j = choose|j: int| 0 <= j < at_offset(rest, err_offset(x)).len() && at_offset(rest, err_offset(x))[j] == x;
        assert(at_offset(s, err_offset(x))[j] == x);
    }
}

/// The errors at an offset are drawn from the list.
proof fn lemma_at_offset_member(s: Seq<ICompileErrorT>, k: i32, x: ICompileErrorT)
    requires at_offset(s, k).contains(x),
    ensures s.contains(x),
    decreases s.len(),
{
    if s.len() == 0 {
        reveal(Seq::filter);
    } else {
        let rest = s.drop_last();
        assert(rest.push(s.last()) =~= s);
        lemma_push_at_offset(rest, s.last(), k);
        if s.last() != x {
            let j = choose|j: int| 0 <= j < at_offset(s, k).len() && at_offset(s, k)[j] == x;
            if err_offset(s.last()) == k {
                assert(j < at_offset(rest, k).len());
                assert(at_offset(rest, k)[j] == x);
            }
            lemma_at_offset_member(rest, k, x);
            let i = choose|i: int| 0 <= i < rest.len() && rest[i] == x;
            assert(s[i] == x);
        } else {
            assert(s[s.len() - 1] == x);
        }
    }
}

/// Cutting repeated reports keeps every report of an undeclared churn: a report of one use equals it.
proof fn lemma_dedup_keeps_undeclared(s: Seq<ICompileErrorT>, x: ICompileErrorT)
    requires s.contains(x), x matches ICompileErrorT::BorrowCheckError { kind: BorrowErrorKind::UndeclaredChurn, .. },
    ensures dedup_uses(s).contains(x),
    decreases s.len(),
{
    let rest = s.drop_last();
    let kept = dedup_uses(rest);
    if s.last() == x {
        if kept.len() > 0 && reports_same_use(kept.last(), s.last()) {
            assert(kept.last() == x);
            assert(dedup_uses(s)[kept.len() - 1] == x);
        } else {
            assert(dedup_uses(s)[kept.len() as int] == x);
        }
    } else {
        let i = choose|i: int| 0 <= i < s.len() && s[i] == x;
        assert(rest[i] == x);
        lemma_dedup_keeps_undeclared(rest, x);
        let j = choose|j: int| 0 <= j < kept.len() && kept[j] == x;
        assert(dedup_uses(s)[j] == x);
    }
}

/// Cutting repeated reports keeps a sorted list sorted.
proof fn lemma_dedup_sorted(s: Seq<ICompileErrorT>)
    requires sorted_by_offset(s),
    ensures sorted_by_offset(dedup_uses(s)),
        dedup_uses(s).len() > 0 ==> err_offset(dedup_uses(s).last()) <= err_offset(s.last()),
    decreases s.len(),
{
    if s.len() > 0 {
        let rest = s.drop_last();
        assert(sorted_by_offset(rest));
        lemma_dedup_sorted(rest);
        let kept = dedup_uses(rest);
        if rest.len() > 0 {
            assert(err_offset(rest.last()) <= err_offset(s.last()));
        }
        lemma_dedup_uses(rest);
        assert forall|i: int| 0 <= i < kept.len() implies err_offset(#[trigger] kept[i]) <= err_offset(s.last()) by {
            let j = choose|j: int| 0 <= j < rest.len() && rest[j] == kept[i];
            assert(s[j] == rest[j]);
        }
    }
}

} // verus!
