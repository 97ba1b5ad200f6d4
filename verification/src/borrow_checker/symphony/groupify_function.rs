//! The region-based checker's reading of a function's signature: each parameter's written type is
//! walked against its typed kind, registering a group for every `in g` it meets.

use vstd::prelude::*;
use crate::names::IRuneS;
use crate::postparsing::{GroupS, ITypeST, RegionS};
use crate::typing::types::{KindT, ITemplataT, TemplateArgsT};
use crate::typing::compiler::{Compiler, CompilerOutputs, citizen_denizen};
use crate::borrow_checker::group_expr::copy_paths;
use crate::borrow_checker::kind_g::{
    KindGT, KindGV, ITemplataG, TemplataGV, BorrowRefGT, GroupGT, GroupTemplataG, CitizenGT, ArrayGT,
    kind_v, templata_v, templatas_v,
};
use crate::borrow_checker::experimental::keyed_map::KeyedMap;
use crate::borrow_checker::experimental::groupify_types::{rune_code, encode_rune, runes_v, rune_path};
use crate::borrow_checker::experimental::groupify::new_rune_group_expr;

verus! {

/// What walking written type `ts` against typed templata `tt` gives, under rune map `m`: the map
/// with every newly met `in g` registered, and the grouped templata; `None` where the walk has no
/// answer (a written shape it does not handle, a typed kind that does not fit the written one, a
/// group other than a bare rune, a rune bound to something other than a group, an unbound
/// placeholder).
pub open spec fn simple_matched(co: CompilerOutputs, m: Map<IRuneS, TemplataGV>, ts: ITypeST, tt: ITemplataT)
    -> Option<(Map<IRuneS, TemplataGV>, TemplataGV)>
    decreases tt, 2int,
{
    match tt {
        ITemplataT::Kind(k) => simple_matched_kind(co, m, ts, k),
        _ => None,
    }
}

/// `simple_matched` for a typed kind.
pub open spec fn simple_matched_kind(co: CompilerOutputs, m: Map<IRuneS, TemplataGV>, ts: ITypeST, kt: KindT)
    -> Option<(Map<IRuneS, TemplataGV>, TemplataGV)>
    decreases kt, 1int,
{
    match ts {
        ITypeST::BorrowRef(bst) => match kt {
            KindT::BorrowRef(b) => match simple_matched_kind(co, m, *bst.inner, *b.inner) {
                Some((m1, TemplataGV::Kind(inner))) => match bst.region {
                    RegionS::Group(GroupS::Rune(r)) => if m1.contains_key(r) {
                        match m1[r] {
                            TemplataGV::Group { group, kind } =>
                                Some((m1, TemplataGV::Kind(KindGV::BorrowRef { group, inner: Box::new(inner) }))),
                            _ => None,
                        }
                    } else {
                        Some((m1.insert(r, TemplataGV::Group { group: seq![rune_path(r)], kind: inner }),
                            TemplataGV::Kind(KindGV::BorrowRef { group: seq![rune_path(r)], inner: Box::new(inner) })))
                    },
                    _ => None,
                },
                _ => None,
            },
            _ => None,
        },
        ITypeST::RuntimeSizedArray { element } => match kt {
            KindT::RuntimeSizedArray(a) => match simple_matched_kind(co, m, *element, *a.element_type) {
                Some((m1, TemplataGV::Kind(e))) => Some((m1, TemplataGV::Kind(KindGV::RuntimeSizedArray(Box::new(e))))),
                _ => None,
            },
            _ => None,
        },
        ITypeST::Call { template, args } => match kt {
            KindT::Struct(s) => if citizen_denizen(co, s.template) == Some(true) {
                match simple_matched_args(co, m, args@, s.template_args, 0) {
                    Some((m1, gargs)) => Some((m1, TemplataGV::Kind(KindGV::Struct { id: s.id, template: s.template, args: gargs }))),
                    None => None,
                }
            } else {
                None
            },
            KindT::Int { bits } => Some((m, TemplataGV::Kind(KindGV::Int))),
            KindT::Bool => Some((m, TemplataGV::Kind(KindGV::Bool))),
            KindT::Void => Some((m, TemplataGV::Kind(KindGV::Void))),
            KindT::Float => Some((m, TemplataGV::Kind(KindGV::Float))),
            KindT::Str => Some((m, TemplataGV::Kind(KindGV::Str))),
            KindT::USize => Some((m, TemplataGV::Kind(KindGV::USize))),
            KindT::Never => Some((m, TemplataGV::Kind(KindGV::Never))),
            _ => None,
        },
        ITypeST::Rune(_) => match kt {
            KindT::KindPlaceholder(p) => if m.contains_key(p.rune) { Some((m, m[p.rune])) } else { None },
            _ => None,
        },
        _ => None,
    }
}

/// `simple_matched` over a struct's written and typed template arguments from position `i` on,
/// pairwise as far as both go, threading the rune map.
pub open spec fn simple_matched_args(co: CompilerOutputs, m: Map<IRuneS, TemplataGV>, ws: Seq<ITypeST>, args: TemplateArgsT, i: int)
    -> Option<(Map<IRuneS, TemplataGV>, Seq<TemplataGV>)>
    decreases args, 0int,
{
    match args {
        TemplateArgsT::Nil => Some((m, Seq::empty())),
        TemplateArgsT::Cons(head, tail) => if 0 <= i < ws.len() {
            match simple_matched(co, m, ws[i], *head) {
                Some((m1, x)) => match simple_matched_args(co, m1, ws, *tail, i + 1) {
                    Some((m2, rest)) => Some((m2, seq![x] + rest)),
                    None => None,
                },
                None => None,
            }
        } else {
            Some((m, Seq::empty()))
        },
    }
}

/// A rune map after one key's value changes reads the same elsewhere.
proof fn lemma_insert_view(before: KeyedMap<ITemplataG>, after: KeyedMap<ITemplataG>, rune: IRuneS, t: ITemplataG)
    requires
        after.at(rune_code(rune)) == Some(t),
        forall|c: (u32, u32)| c != rune_code(rune) ==> #[trigger] after.at(c) == before.at(c),
    ensures runes_v(after) == runes_v(before).insert(rune, templata_v(t)),
{
    assert forall|r: IRuneS| r != rune implies rune_code(r) != rune_code(rune) by {}
    assert(runes_v(after) =~= runes_v(before).insert(rune, templata_v(t)));
}

impl Compiler {
    /// Walk a parameter's written type against its typed templata, registering a group for every
    /// `in g` it meets (bound to the borrow's referent kind, unless `g` is already bound to a
    /// group, whose paths it then takes), and return the grouped templata: a rune written for a
    /// kind placeholder reads the placeholder's binding, a runtime-sized array walks its element,
    /// a struct its template arguments, and a primitive mirrors itself.
    pub fn simple_match_group_rune_types(&self, co: &CompilerOutputs, group_rune_to_type_gt: &mut KeyedMap<ITemplataG>,
        type_st: &ITypeST, templata_t: &ITemplataT) -> (r: ITemplataG)
        requires
            old(group_rune_to_type_gt).wf(),
            simple_matched(*co, runes_v(*old(group_rune_to_type_gt)), *type_st, *templata_t) is Some,
        ensures
            final(group_rune_to_type_gt).wf(),
            (runes_v(*final(group_rune_to_type_gt)), templata_v(r))
                == simple_matched(*co, runes_v(*old(group_rune_to_type_gt)), *type_st, *templata_t)->0,
        decreases templata_t, 2int,
    {
        match templata_t {
            ITemplataT::Kind(k) => self.simple_match_kind(co, group_rune_to_type_gt, type_st, k),
            _ => {
                proof { assert(false); }
                ITemplataG::Integer(0)
            },
        }
    }

    /// `simple_match_group_rune_types` for a typed kind.
    fn simple_match_kind(&self, co: &CompilerOutputs, map: &mut KeyedMap<ITemplataG>, type_st: &ITypeST, kind_t: &KindT) -> (r: ITemplataG)
        requires
            old(map).wf(),
            simple_matched_kind(*co, runes_v(*old(map)), *type_st, *kind_t) is Some,
        ensures
            final(map).wf(),
            (runes_v(*final(map)), templata_v(r)) == simple_matched_kind(*co, runes_v(*old(map)), *type_st, *kind_t)->0,
        decreases kind_t, 1int,
    {
        match type_st {
            ITypeST::BorrowRef(bst) => {
                match kind_t {
                    KindT::BorrowRef(b) => {
                        let inner_g = self.simple_match_kind(co, map, &bst.inner, &b.inner);
                        let inner_kind = match inner_g {
                            ITemplataG::Kind(k) => *k,
                            _ => {
                                proof { assert(false); }
                                return ITemplataG::Integer(0);
                            },
                        };
                        match &bst.region {
                            RegionS::Group(GroupS::Rune(rune)) => {
                                let code = encode_rune(*rune);
                                let existing: Option<Vec<crate::borrow_checker::group_expr::GroupPathG>> = match map.get(code) {
                                    Some(ITemplataG::Group(gt)) => Some(copy_paths(&gt.group)),
                                    Some(_) => {
                                        proof { assert(runes_v(*map).contains_key(*rune)); }
                                        proof { assert(false); }
                                        return ITemplataG::Integer(0);
                                    },
                                    None => None,
                                };
                                proof { assert(runes_v(*map).contains_key(*rune) == (map.at(code) is Some)); }
                                match existing {
                                    Some(group) => {
                                        ITemplataG::Kind(Box::new(KindGT::BorrowRef(BorrowRefGT { group: GroupGT { group }, inner: Box::new(inner_kind) })))
                                    },
                                    None => {
                                        let group = new_rune_group_expr(*rune);
                                        let kept = new_rune_group_expr(*rune);
                                        proof {
                                            assert(crate::borrow_checker::group_expr::paths_view(group@) =~= seq![rune_path(*rune)]);
                                            assert(crate::borrow_checker::group_expr::paths_view(kept@) =~= seq![rune_path(*rune)]);
                                        }
                                        let t = ITemplataG::Group(GroupTemplataG { group, kind: Box::new(inner_kind.copy()) });
                                        let ghost before = *map;
                                        map.insert(code, t);
                                        proof { lemma_insert_view(before, *map, *rune, t); }
                                        ITemplataG::Kind(Box::new(KindGT::BorrowRef(BorrowRefGT { group: GroupGT { group: kept }, inner: Box::new(inner_kind) })))
                                    },
                                }
                            },
                            _ => {
                                proof { assert(false); }
                                ITemplataG::Integer(0)
                            },
                        }
                    },
                    _ => {
                        proof { assert(false); }
                        ITemplataG::Integer(0)
                    },
                }
            },
            ITypeST::RuntimeSizedArray { element } => {
                match kind_t {
                    KindT::RuntimeSizedArray(a) => {
                        let e = self.simple_match_kind(co, map, element, &a.element_type);
                        match e {
                            ITemplataG::Kind(k) => ITemplataG::Kind(Box::new(KindGT::RuntimeSizedArray(ArrayGT { element_type: k }))),
                            _ => {
                                proof { assert(false); }
                                ITemplataG::Integer(0)
                            },
                        }
                    },
                    _ => {
                        proof { assert(false); }
                        ITemplataG::Integer(0)
                    },
                }
            },
            ITypeST::Call { template, args } => {
                match kind_t {
                    KindT::Struct(s) => {
                        if co.struct_template(s.template).is_none() {
                            proof { assert(false); }
                            return ITemplataG::Integer(0);
                        }
                        let mut gargs: Vec<ITemplataG> = Vec::new();
                        proof { assert(templatas_v(gargs@) =~= Seq::<TemplataGV>::empty()); }
                        self.simple_match_args(co, map, args, &s.template_args, 0, &mut gargs);
                        proof {
                            let res = (simple_matched_args(*co, runes_v(*old(map)), args@, s.template_args, 0)->0).1;
                            assert(Seq::<TemplataGV>::empty() + res =~= res);
                        }
                        ITemplataG::Kind(Box::new(KindGT::Struct(CitizenGT { id: s.id, template: s.template, template_args: gargs })))
                    },
                    KindT::Int { bits } => ITemplataG::Kind(Box::new(KindGT::Int)),
                    KindT::Bool => ITemplataG::Kind(Box::new(KindGT::Bool)),
                    KindT::Void => ITemplataG::Kind(Box::new(KindGT::Void)),
                    KindT::Float => ITemplataG::Kind(Box::new(KindGT::Float)),
                    KindT::Str => ITemplataG::Kind(Box::new(KindGT::Str)),
                    KindT::USize => ITemplataG::Kind(Box::new(KindGT::USize)),
                    KindT::Never => ITemplataG::Kind(Box::new(KindGT::Never)),
                    _ => {
                        proof { assert(false); }
                        ITemplataG::Integer(0)
                    },
                }
            },
            ITypeST::Rune(_) => {
                match kind_t {
                    KindT::KindPlaceholder(p) => {
                        match map.get(encode_rune(p.rune)) {
                            Some(t) => t.copy(),
                            None => {
                                proof { assert(!runes_v(*map).contains_key(p.rune)); }
                                proof { assert(false); }
                                ITemplataG::Integer(0)
                            },
                        }
                    },
                    _ => {
                        proof { assert(false); }
                        ITemplataG::Integer(0)
                    },
                }
            },
            _ => {
                proof { assert(false); }
                ITemplataG::Integer(0)
            },
        }
    }

    /// Walk a struct's written template arguments against its typed ones from position `i` on,
    /// pairwise as far as both go, appending each grouped argument to `out`.
    fn simple_match_args(&self, co: &CompilerOutputs, map: &mut KeyedMap<ITemplataG>, ws: &Vec<ITypeST>, args: &TemplateArgsT,
        i: usize, out: &mut Vec<ITemplataG>)
        requires
            old(map).wf(),
            simple_matched_args(*co, runes_v(*old(map)), ws@, *args, i as int) is Some,
        ensures
            final(map).wf(),
            runes_v(*final(map)) == (simple_matched_args(*co, runes_v(*old(map)), ws@, *args, i as int)->0).0,
            templatas_v(final(out)@) == templatas_v(old(out)@) + (simple_matched_args(*co, runes_v(*old(map)), ws@, *args, i as int)->0).1,
        decreases args, 0int,
    {
        match args {
            TemplateArgsT::Nil => {
                proof { assert(templatas_v(out@) + Seq::<TemplataGV>::empty() =~= templatas_v(out@)); }
            },
            TemplateArgsT::Cons(head, tail) => {
                if i < ws.len() {
                    let x = self.simple_match_group_rune_types(co, map, &ws[i], head);
                    let ghost xv = templata_v(x);
                    let ghost before = out@;
                    out.push(x);
                    proof {
                        assert(out@.subrange(0, out@.len() - 1) =~= before);
                        assert(templatas_v(out@) == templatas_v(before).push(xv));
                    }
                    self.simple_match_args(co, map, ws, tail, i + 1, out);
                    proof {
                        let rest = (simple_matched_args(*co, (simple_matched(*co, runes_v(*old(map)), ws@[i as int], **head)->0).0, ws@, **tail, i + 1)->0).1;
                        assert(templatas_v(out@) =~= templatas_v(before) + (seq![xv] + rest));
                    }
                } else {
                    proof { assert(templatas_v(out@) + Seq::<TemplataGV>::empty() =~= templatas_v(out@)); }
                }
            },
        }
    }
}

/// What the region-based walk registers is what it returns: a parameter written `&T in g` comes
/// back as a borrow whose group is exactly the group `g` is bound to afterwards (the one registered
/// now, or the one `g` already had).
pub proof fn law_simple_match_returns_registered_group(co: CompilerOutputs, m: Map<IRuneS, TemplataGV>, ts: ITypeST, kt: KindT, g: IRuneS)
    requires
        ts matches ITypeST::BorrowRef(bst) && bst.region == RegionS::Group(GroupS::Rune(g)),
        simple_matched_kind(co, m, ts, kt) is Some,
    ensures
        ({
            let (m2, t) = simple_matched_kind(co, m, ts, kt)->0;
            &&& m2.contains_key(g)
            &&& m2[g] is Group
            &&& t matches TemplataGV::Kind(KindGV::BorrowRef { group, inner }) && group == m2[g]->group
        }),
{
}

} // verus!
