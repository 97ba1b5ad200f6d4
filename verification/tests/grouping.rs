// The grouping pass: group runes bound from a function's signature, groups read off written
// types, member and element groups, callee runes bound at a call, and the group an access chain
// reaches.

use valen_borrowck::borrow_checker::ast_g::{
    ArgLookupGE, BlockGE, ConsecutorGE, ConstantIntGE, CopyPrimGE, DerefGE, DiscardGE, ExpressionGE, FunctionCallGE,
    GroupStep, LocalLookupGE, LocalVariableG, MemberLookupGE, MutEffectPath, PrototypeT, RuntimeSizedArrayLookupGE,
    StaticSizedArrayLookupGE,
};
use valen_borrowck::borrow_checker::experimental::grouped_ast::collect_subtree_churns;
use valen_borrowck::postparsing::EffectS;
use valen_borrowck::borrow_checker::experimental::groupify::{
    anonymous_group_expr, calculate_struct_callee_rune_to_caller_templata, group_path_child, new_local_group_expr,
    new_rune_group_expr, path_with_step,
};
use valen_borrowck::borrow_checker::experimental::groupify_types::{encode_rune, encode_var};
use valen_borrowck::borrow_checker::experimental::keyed_map::KeyedMap;
use valen_borrowck::borrow_checker::group_expr::{GroupChildStepG, GroupPathG, GroupRootG};
use valen_borrowck::borrow_checker::kind_g::{ArrayGT, BorrowRefGT, CitizenGT, GroupGT, GroupTemplataG, ITemplataG, KindGT};
use valen_borrowck::interner::{Interner, StrI};
use valen_borrowck::names::{IRuneS, IVarNameT};
use valen_borrowck::postparsing::{BorrowRefST, FunctionS, GroupS, ITypeST, ParameterS, RegionS};
use valen_borrowck::range::{CodeLocationS, RangeS};
use valen_borrowck::typing::ast::{FunctionHeaderT, ParameterT};
use valen_borrowck::typing::compiler::{Compiler, CompilerOutputs, Keywords, StructMemberT, StructTemplateT, TypingInterner};
use valen_borrowck::typing::types::{
    BorrowRefT, ITemplataT, KindPlaceholderT, KindT, RuntimeSizedArrayTT, StructTT, TemplateArgsT,
};

fn rg(at: i32) -> RangeS {
    RangeS { begin: CodeLocationS { file: 0, offset: at }, end: CodeLocationS { file: 0, offset: at + 1 } }
}

fn compiler() -> Compiler {
    let none = StrI(u32::MAX);
    Compiler {
        interner: Interner { strings: vec![] },
        typing_interner: TypingInterner { locs: vec![] },
        keywords: Keywords { drop: none, e: none, implicit_clone: none },
    }
}

fn outputs() -> CompilerOutputs {
    CompilerOutputs {
        functions: vec![],
        prototypes: vec![],
        structs: vec![],
        interfaces: vec![],
        return_types: vec![],
        impls: vec![],
        implicitly_cloneable: vec![],
        struct_templates: vec![],
        interface_templates: vec![],
    }
}

fn rune(i: &mut Interner, s: &str) -> IRuneS {
    IRuneS::CodeRune(i.intern(s))
}

fn written_borrow(inner: ITypeST, region: RegionS) -> ITypeST {
    ITypeST::BorrowRef(BorrowRefST { range: rg(0), inner: Box::new(inner), region })
}

fn typed_borrow(inner: KindT) -> KindT {
    KindT::BorrowRef(BorrowRefT { inner: Box::new(inner) })
}

fn ship_kind() -> KindT {
    KindT::Struct(StructTT { id: 10, template: 100, template_args: TemplateArgsT::Nil })
}

fn group_of(k: &KindGT) -> &Vec<GroupPathG> {
    match k {
        KindGT::BorrowRef(b) => &b.group.group,
        other => panic!("not a borrow: {:?}", other),
    }
}

fn path_is(p: &GroupPathG, root: GroupRootG, steps: &[GroupChildStepG], ellipsis: bool) -> bool {
    p.root == root && p.steps == steps.to_vec() && p.ellipsis == ellipsis
}

/// `func observe<T, g'>(x &T in g, y &T, z int)`, instantiated at placeholders.
fn observe(i: &mut Interner) -> (FunctionS, FunctionHeaderT) {
    let t = rune(i, "T");
    let g = rune(i, "g");
    let x = IVarNameT::Local(i.intern("x"));
    let y = IVarNameT::Local(i.intern("y"));
    let z = IVarNameT::Local(i.intern("z"));
    let f = FunctionS {
        range: rg(0),
        generic_params: vec![t, g],
        params: vec![
            ParameterS { name: x, tyype: written_borrow(ITypeST::Rune(t), RegionS::Group(GroupS::Rune(g))) },
            ParameterS { name: y, tyype: written_borrow(ITypeST::Rune(t), RegionS::Unspecified) },
            ParameterS { name: z, tyype: ITypeST::Other },
        ],
        effects: vec![],
        maybe_return_type: None,
    };
    let placeholder = || KindT::KindPlaceholder(KindPlaceholderT { id: 0, rune: t });
    let h = FunctionHeaderT {
        id: 1,
        template_args: TemplateArgsT::Cons(
            Box::new(ITemplataT::Kind(placeholder())),
            Box::new(TemplateArgsT::Cons(Box::new(ITemplataT::Group), Box::new(TemplateArgsT::Nil))),
        ),
        params: vec![
            ParameterT { name: x, tyype: typed_borrow(placeholder()) },
            ParameterT { name: y, tyype: typed_borrow(placeholder()) },
            ParameterT { name: z, tyype: KindT::Int { bits: 32 } },
        ],
        return_type: KindT::Void,
        maybe_origin_function_templata: None,
    };
    (f, h)
}

#[test]
fn function_rune_map_binds_placeholders_and_group_runes() {
    let mut i = Interner { strings: vec![] };
    let (f, h) = observe(&mut i);
    let c = compiler();
    let co = outputs();
    let m = c.build_rune_map(&co, &f, &h);
    let t = f.generic_params[0];
    let g = f.generic_params[1];
    match m.get(encode_rune(t)) {
        Some(ITemplataG::Kind(k)) => assert!(matches!(**k, KindGT::KindPlaceholder(0))),
        other => panic!("T bound to {:?}", other),
    }
    match m.get(encode_rune(g)) {
        Some(ITemplataG::Group(gt)) => {
            assert_eq!(gt.group.len(), 1);
            assert!(path_is(&gt.group[0], GroupRootG::Rune(g), &[], false));
            assert!(matches!(*gt.kind, KindGT::KindPlaceholder(0)));
        },
        other => panic!("g bound to {:?}", other),
    }
}

#[test]
fn param_group_paths_follow_the_written_groups() {
    let mut i = Interner { strings: vec![] };
    let (f, h) = observe(&mut i);
    let c = compiler();
    let co = outputs();
    let paths = c.param_group_paths(&co, &f, &h);
    assert_eq!(paths.len(), 3);
    assert_eq!(paths[0], Some(vec![GroupStep::Rune(f.generic_params[1])]));
    assert_eq!(paths[1], Some(vec![GroupStep::ParamAnonymousGroup(f.params[1].name)]));
    assert_eq!(paths[2], None);
}

#[test]
fn held_parameter_has_no_group_path() {
    let mut i = Interner { strings: vec![] };
    let (mut f, h) = observe(&mut i);
    f.params[1].tyype = written_borrow(ITypeST::Rune(f.generic_params[0]), RegionS::Held);
    let paths = compiler().param_group_paths(&outputs(), &f, &h);
    assert_eq!(paths[1], None);
}

#[test]
fn two_parameters_in_one_group_share_its_path() {
    let mut i = Interner { strings: vec![] };
    let (mut f, h) = observe(&mut i);
    let g = f.generic_params[1];
    f.params[1].tyype = written_borrow(ITypeST::Rune(f.generic_params[0]), RegionS::Group(GroupS::Rune(g)));
    let paths = compiler().param_group_paths(&outputs(), &f, &h);
    assert_eq!(paths[0], Some(vec![GroupStep::Rune(g)]));
    assert_eq!(paths[1], Some(vec![GroupStep::Rune(g)]));
}

#[test]
fn groupify_type_reads_written_groups_and_substitutes_bound_placeholders() {
    let mut i = Interner { strings: vec![] };
    let g = rune(&mut i, "g");
    let t = rune(&mut i, "T");
    let mut rm: KeyedMap<ITemplataG> = KeyedMap::new();
    rm.insert(encode_rune(g), ITemplataG::Group(GroupTemplataG { group: new_rune_group_expr(g), kind: Box::new(KindGT::Int) }));
    rm.insert(encode_rune(t), ITemplataG::Kind(Box::new(KindGT::Bool)));
    let lm: KeyedMap<KindGT> = KeyedMap::new();
    let c = compiler();
    let co = outputs();
    // `&T in g...` with T bound to bool.
    let written = written_borrow(ITypeST::Rune(t), RegionS::Group(GroupS::Ellipsis { base: Box::new(GroupS::Rune(g)) }));
    let typed = typed_borrow(KindT::KindPlaceholder(KindPlaceholderT { id: 4, rune: t }));
    let k = c.groupify_type(&co, &rm, &lm, &typed, Some(&written), None);
    let group = group_of(&k);
    assert_eq!(group.len(), 1);
    assert!(path_is(&group[0], GroupRootG::Rune(g), &[], true));
    match &k {
        KindGT::BorrowRef(b) => assert!(matches!(*b.inner, KindGT::Bool)),
        _ => unreachable!(),
    }
    // An unbound placeholder stays itself; a runtime-sized array mirrors its element.
    let arr = KindT::RuntimeSizedArray(RuntimeSizedArrayTT { element_type: Box::new(KindT::KindPlaceholder(KindPlaceholderT { id: 9, rune: IRuneS::ImplicitRune(3) })) });
    let ka = c.groupify_type(&co, &rm, &lm, &arr, None, None);
    match ka {
        KindGT::RuntimeSizedArray(a) => assert!(matches!(*a.element_type, KindGT::KindPlaceholder(9))),
        other => panic!("{:?}", other),
    }
}

#[test]
fn unannotated_parameter_borrow_takes_its_anonymous_group() {
    let mut i = Interner { strings: vec![] };
    let x = IVarNameT::Local(i.intern("x"));
    let rm: KeyedMap<ITemplataG> = KeyedMap::new();
    let lm: KeyedMap<KindGT> = KeyedMap::new();
    let written = written_borrow(ITypeST::Other, RegionS::Unspecified);
    let k = compiler().groupify_type(&outputs(), &rm, &lm, &typed_borrow(KindT::Int { bits: 32 }), Some(&written), Some(x));
    let group = group_of(&k);
    assert!(path_is(&group[0], GroupRootG::ParamAnonymousGroup(x), &[], false));
    let anon = anonymous_group_expr(Some(x));
    assert!(path_is(&anon[0], GroupRootG::ParamAnonymousGroup(x), &[], false));
}

/// `struct Level { tiles []Tile; fuel int; }`, and a rune map binding `l` to a group of levels.
fn level_setup(i: &mut Interner) -> (CompilerOutputs, KeyedMap<ITemplataG>, IRuneS, StrI, StrI) {
    let tiles = i.intern("tiles");
    let fuel = i.intern("fuel");
    let l = rune(i, "l");
    let mut co = outputs();
    co.struct_templates.push(StructTemplateT {
        template: 200,
        generic_params: vec![],
        members: vec![
            StructMemberT {
                name: tiles,
                written: ITypeST::RuntimeSizedArray { element: Box::new(ITypeST::Other) },
                tyype: KindT::RuntimeSizedArray(RuntimeSizedArrayTT { element_type: Box::new(ship_kind()) }),
            },
            StructMemberT { name: fuel, written: ITypeST::Other, tyype: KindT::Int { bits: 32 } },
        ],
    });
    let level = KindGT::Struct(CitizenGT { id: 20, template: 200, template_args: vec![] });
    let mut rm: KeyedMap<ITemplataG> = KeyedMap::new();
    rm.insert(encode_rune(l), ITemplataG::Group(GroupTemplataG { group: new_rune_group_expr(l), kind: Box::new(level) }));
    (co, rm, l, tiles, fuel)
}

#[test]
fn member_and_element_groups_follow_the_struct() {
    let mut i = Interner { strings: vec![] };
    let (co, rm, l, tiles, fuel) = level_setup(&mut i);
    let lm: KeyedMap<KindGT> = KeyedMap::new();
    let c = compiler();
    // `l.tiles[]`
    let g = GroupS::Elements { base: Box::new(GroupS::Member { base: Box::new(GroupS::Rune(l)), member_name: tiles }) };
    let ps = c.groupify_group_expr(&co, &rm, &lm, &g);
    assert_eq!(ps.len(), 1);
    assert!(path_is(&ps[0].0, GroupRootG::Rune(l), &[GroupChildStepG::Member { member_name: tiles }, GroupChildStepG::ChildElements {}], false));
    assert!(matches!(ps[0].1, KindGT::Struct(CitizenGT { id: 10, .. })));
    // `l.fuel`, unioned with `l`.
    let u = GroupS::Union { members: vec![GroupS::Member { base: Box::new(GroupS::Rune(l)), member_name: fuel }, GroupS::Rune(l)] };
    let us = c.groupify_group_expr(&co, &rm, &lm, &u);
    assert_eq!(us.len(), 2);
    assert!(path_is(&us[0].0, GroupRootG::Rune(l), &[GroupChildStepG::Member { member_name: fuel }], false));
    assert!(matches!(us[0].1, KindGT::Int));
    assert!(path_is(&us[1].0, GroupRootG::Rune(l), &[], false));
}

#[test]
fn translate_struct_members_reads_each_member() {
    let mut i = Interner { strings: vec![] };
    let (co, _rm, _l, tiles, fuel) = level_setup(&mut i);
    let level = CitizenGT { id: 20, template: 200, template_args: vec![] };
    let members = compiler().translate_struct_members(&co, &level);
    assert_eq!(members.len(), 2);
    assert!(matches!(members.get((0, tiles.0)), Some(KindGT::RuntimeSizedArray(_))));
    assert!(matches!(members.get((0, fuel.0)), Some(KindGT::Int)));
    assert!(members.get((0, u32::MAX)).is_none());
}

#[test]
fn local_group_resolves_through_the_local_map() {
    let mut i = Interner { strings: vec![] };
    let x = i.intern("x");
    let rm: KeyedMap<ITemplataG> = KeyedMap::new();
    let mut lm: KeyedMap<KindGT> = KeyedMap::new();
    lm.insert(encode_var(IVarNameT::Local(x)), KindGT::Str);
    let ps = compiler().groupify_group_expr(&outputs(), &rm, &lm, &GroupS::Local(x));
    assert_eq!(ps.len(), 1);
    assert!(path_is(&ps[0].0, GroupRootG::Local(IVarNameT::Local(x)), &[], false));
    assert!(matches!(ps[0].1, KindGT::Str));
    let own = new_local_group_expr(IVarNameT::Local(x));
    assert!(path_is(&own[0], GroupRootG::Local(IVarNameT::Local(x)), &[], false));
}

#[test]
fn match_types_binds_callee_runes_to_the_callers_groups() {
    let mut i = Interner { strings: vec![] };
    let g = rune(&mut i, "g");
    let t = rune(&mut i, "T");
    let a = IVarNameT::Local(i.intern("a"));
    let c = compiler();
    let co = outputs();
    // callee parameter `&T in g`, caller argument `&int in a`.
    let written = written_borrow(ITypeST::Rune(t), RegionS::Group(GroupS::Rune(g)));
    let arg = ITemplataG::Kind(Box::new(KindGT::BorrowRef(BorrowRefGT {
        group: GroupGT { group: new_local_group_expr(a) },
        inner: Box::new(KindGT::Int),
    })));
    let mut map: KeyedMap<ITemplataG> = KeyedMap::new();
    c.match_types(&co, &written, &arg, &mut map);
    match map.get(encode_rune(g)) {
        Some(ITemplataG::Group(gt)) => {
            assert!(path_is(&gt.group[0], GroupRootG::Local(a), &[], false));
            assert!(matches!(*gt.kind, KindGT::Int));
        },
        other => panic!("g bound to {:?}", other),
    }
    assert!(matches!(map.get(encode_rune(t)), Some(ITemplataG::Kind(k)) if matches!(**k, KindGT::Int)));
}

#[test]
fn callee_rune_map_matches_each_argument() {
    let mut i = Interner { strings: vec![] };
    let g = rune(&mut i, "g");
    let a = IVarNameT::Local(i.intern("a"));
    let p = IVarNameT::Local(i.intern("p"));
    let callee = FunctionS {
        range: rg(0),
        generic_params: vec![g],
        params: vec![ParameterS { name: p, tyype: written_borrow(ITypeST::Other, RegionS::Group(GroupS::Rune(g))) }],
        effects: vec![],
        maybe_return_type: None,
    };
    let arg = ExpressionGE::LocalLookup(LocalLookupGE {
        range: rg(3),
        loct: valen_borrowck::loc::LocT { path: vec![0] },
        local_variable: LocalVariableG { name: a, tyype: KindGT::Int },
        result: KindGT::BorrowRef(BorrowRefGT { group: GroupGT { group: new_local_group_expr(a) }, inner: Box::new(KindGT::Int) }),
    });
    let map = compiler().calculate_callee_rune_to_caller_templata(&outputs(), &callee, &vec![arg]);
    match map.get(encode_rune(g)) {
        Some(ITemplataG::Group(gt)) => assert!(path_is(&gt.group[0], GroupRootG::Local(a), &[], false)),
        other => panic!("g bound to {:?}", other),
    }
}

#[test]
fn struct_callee_map_binds_generic_params_in_order() {
    let mut i = Interner { strings: vec![] };
    let t = rune(&mut i, "T");
    let u = rune(&mut i, "U");
    let m = calculate_struct_callee_rune_to_caller_templata(&vec![t, u], &vec![ITemplataG::Kind(Box::new(KindGT::Bool)), ITemplataG::Integer(3)]);
    assert!(matches!(m.get(encode_rune(t)), Some(ITemplataG::Kind(k)) if matches!(**k, KindGT::Bool)));
    assert!(matches!(m.get(encode_rune(u)), Some(ITemplataG::Integer(3))));
}

fn borrow_into(root: GroupRootG, inner: KindGT) -> KindGT {
    KindGT::BorrowRef(BorrowRefGT { group: GroupGT { group: vec![GroupPathG { root, steps: vec![], ellipsis: false }] }, inner: Box::new(inner) })
}

#[test]
fn base_ref_and_group_cuts_after_the_last_element_step() {
    let mut i = Interner { strings: vec![] };
    let l = rune(&mut i, "l");
    let lvl = IVarNameT::Local(i.intern("lvl"));
    let tiles = i.intern("tiles");
    let hp = i.intern("hp");
    let c = compiler();
    let header = FunctionHeaderT {
        id: 1,
        template_args: TemplateArgsT::Nil,
        params: vec![ParameterT { name: lvl, tyype: KindT::Void }],
        return_type: KindT::Void,
        maybe_origin_function_templata: None,
    };
    let base = || ExpressionGE::ArgLookup(ArgLookupGE { range: rg(0), param_index: 0, result: borrow_into(GroupRootG::Rune(l), KindGT::Void) });
    let idx = || Box::new(ExpressionGE::ConstantInt(ConstantIntGE { range: rg(1), value: 0, bits: 32, result: KindGT::Int }));
    // `lvl.tiles[0].hp`
    let tiles_e = ExpressionGE::MemberLookup(MemberLookupGE { range: rg(2), struct_expr: Box::new(base()), member_name: tiles, result: KindGT::Void });
    let elem = ExpressionGE::RuntimeSizedArrayLookup(RuntimeSizedArrayLookupGE { range: rg(3), array_expr: Box::new(tiles_e), index_expr: idx(), result: KindGT::Void });
    let hp_e = ExpressionGE::MemberLookup(MemberLookupGE { range: rg(4), struct_expr: Box::new(elem), member_name: hp, result: KindGT::Int });
    let got = c.base_ref_and_group(&header, &ExpressionGE::CopyPrim(CopyPrimGE { range: rg(5), inner: Box::new(hp_e), result: KindGT::Int }));
    assert_eq!(got, Some((lvl, vec![GroupStep::Rune(l), GroupStep::Member { member_name: tiles }, GroupStep::ChildElements])));
    // `lvl.fuel` reports the root group; an inline array's element adds nothing.
    let fuel_e = ExpressionGE::MemberLookup(MemberLookupGE { range: rg(6), struct_expr: Box::new(base()), member_name: hp, result: KindGT::Int });
    let inline = ExpressionGE::StaticSizedArrayLookup(StaticSizedArrayLookupGE { range: rg(7), array_expr: Box::new(fuel_e), index_expr: idx(), result: KindGT::Int });
    let got2 = c.base_ref_and_group(&header, &ExpressionGE::Deref(DerefGE { range: rg(8), inner: Box::new(inline), result: KindGT::Int }));
    assert_eq!(got2, Some((lvl, vec![GroupStep::Rune(l)])));
    // An argument index out of range, or a temporary, has no base reference.
    let bad = ExpressionGE::ArgLookup(ArgLookupGE { range: rg(0), param_index: 5, result: borrow_into(GroupRootG::Rune(l), KindGT::Void) });
    assert_eq!(c.base_ref_and_group(&header, &bad), None);
    assert_eq!(c.base_ref_and_group(&header, &idx()), None);
}

#[test]
fn path_with_step_appends_one_step() {
    let mut i = Interner { strings: vec![] };
    let l = rune(&mut i, "l");
    let p = GroupPathG { root: GroupRootG::Rune(l), steps: vec![], ellipsis: true };
    let q = path_with_step(&p, GroupChildStepG::ChildElements {});
    assert!(path_is(&q, GroupRootG::Rune(l), &[GroupChildStepG::ChildElements {}], true));
}

#[test]
fn element_group_of_a_runtime_sized_array_element_borrow() {
    let mut i = Interner { strings: vec![] };
    let a = rune(&mut i, "a");
    let arr = KindGT::RuntimeSizedArray(ArrayGT { element_type: Box::new(KindGT::Int) });
    let mut rm: KeyedMap<ITemplataG> = KeyedMap::new();
    rm.insert(encode_rune(a), ITemplataG::Group(GroupTemplataG { group: new_rune_group_expr(a), kind: Box::new(arr) }));
    let lm: KeyedMap<KindGT> = KeyedMap::new();
    let written = written_borrow(ITypeST::Other, RegionS::Group(GroupS::Elements { base: Box::new(GroupS::Rune(a)) }));
    let k = compiler().groupify_type(&outputs(), &rm, &lm, &typed_borrow(KindT::Int { bits: 32 }), Some(&written), None);
    assert!(path_is(&group_of(&k)[0], GroupRootG::Rune(a), &[GroupChildStepG::ChildElements {}], false));
}

#[test]
fn effect_churns_each_union_member_without_its_ellipsis() {
    let mut i = Interner { strings: vec![] };
    let (co, rm, l, tiles, fuel) = level_setup(&mut i);
    let c = compiler();
    let eff = EffectS::Mut(GroupS::Union { members: vec![
        GroupS::Ellipsis { base: Box::new(GroupS::Member { base: Box::new(GroupS::Rune(l)), member_name: tiles }) },
        GroupS::Member { base: Box::new(GroupS::Rune(l)), member_name: fuel },
    ] });
    let churns = c.groupify_effect(&co, &eff, &rm);
    assert_eq!(churns, vec![
        vec![GroupStep::Rune(l), GroupStep::Member { member_name: tiles }],
        vec![GroupStep::Rune(l), GroupStep::Member { member_name: fuel }],
    ]);
    assert!(c.groupify_effect(&co, &EffectS::NotMut(GroupS::Rune(l)), &rm).is_empty());
}

#[test]
fn cast_keeps_the_operand_group() {
    let mut i = Interner { strings: vec![] };
    let a = IVarNameT::Local(i.intern("a"));
    let c = compiler();
    let co = outputs();
    let rm: KeyedMap<ITemplataG> = KeyedMap::new();
    let lm: KeyedMap<KindGT> = KeyedMap::new();
    let operand = KindGT::BorrowRef(BorrowRefGT { group: GroupGT { group: new_local_group_expr(a) }, inner: Box::new(KindGT::Int) });
    let cast = c.cast_result(&co, &rm, &lm, &typed_borrow(KindT::Bool), &operand);
    assert!(path_is(&group_of(&cast)[0], GroupRootG::Local(a), &[], false));
    match &cast {
        KindGT::BorrowRef(b) => assert!(matches!(*b.inner, KindGT::Bool)),
        _ => unreachable!(),
    }
    assert!(matches!(c.cast_result(&co, &rm, &lm, &KindT::Str, &operand), KindGT::Str));
}

#[test]
fn citizen_and_array_mirrors() {
    let c = compiler();
    let co = outputs();
    let rm: KeyedMap<ITemplataG> = KeyedMap::new();
    let lm: KeyedMap<KindGT> = KeyedMap::new();
    let st = StructTT { id: 10, template: 100, template_args: TemplateArgsT::Cons(Box::new(ITemplataT::Integer(4)), Box::new(TemplateArgsT::Nil)) };
    let g = c.struct_gt(&co, &rm, &lm, &st);
    assert_eq!((g.id, g.template), (10, 100));
    assert!(matches!(g.template_args.as_slice(), [ITemplataG::Integer(4)]));
    let a = c.rsa_gt(&co, &rm, &lm, &RuntimeSizedArrayTT { element_type: Box::new(KindT::USize) });
    assert!(matches!(*a.element_type, KindGT::USize));
}

#[test]
fn child_group_appends_the_step_to_every_path() {
    let mut i = Interner { strings: vec![] };
    let l = rune(&mut i, "l");
    let m = rune(&mut i, "m");
    let mut group = new_rune_group_expr(l);
    group.extend(new_rune_group_expr(m));
    let parent = GroupTemplataG { group, kind: Box::new(KindGT::Void) };
    let child = group_path_child(&parent, GroupChildStepG::InlineElements {}, KindGT::Int);
    assert_eq!(child.group.len(), 2);
    assert!(path_is(&child.group[0], GroupRootG::Rune(l), &[GroupChildStepG::InlineElements {}], false));
    assert!(path_is(&child.group[1], GroupRootG::Rune(m), &[GroupChildStepG::InlineElements {}], false));
    assert!(matches!(*child.kind, KindGT::Int));
}

fn churning_call(at: i32, path: Vec<i32>, steps: Vec<GroupStep>, args: Vec<ExpressionGE>) -> ExpressionGE {
    ExpressionGE::FunctionCall(FunctionCallGE {
        range: rg(at),
        parent_ranges: vec![rg(at)],
        loct: valen_borrowck::loc::LocT { path: path.clone() },
        callable: PrototypeT { id: 1 },
        args,
        mut_effects: vec![MutEffectPath { effecting_node_loc: valen_borrowck::loc::LocT { path }, range: rg(at), steps }],
        result: KindGT::Void,
    })
}

#[test]
fn subtree_churns_come_in_pre_order() {
    let mut i = Interner { strings: vec![] };
    let g = rune(&mut i, "g");
    let h = rune(&mut i, "h");
    let inner = churning_call(2, vec![0, 0], vec![GroupStep::Rune(h)], vec![]);
    let outer = churning_call(1, vec![0], vec![GroupStep::Rune(g)], vec![inner]);
    let tail = churning_call(3, vec![1], vec![GroupStep::Rune(h), GroupStep::ChildElements], vec![]);
    let body = ExpressionGE::Block(BlockGE {
        range: rg(0),
        inner: Box::new(ExpressionGE::Consecutor(ConsecutorGE {
            range: rg(0),
            exprs: vec![outer, ExpressionGE::Discard(DiscardGE { range: rg(9), expr: Box::new(tail), result: KindGT::Void })],
            result: KindGT::Void,
        })),
        result: KindGT::Void,
    });
    let mut out = Vec::new();
    collect_subtree_churns(&body, &mut out);
    let seen: Vec<(Vec<i32>, Vec<GroupStep>)> = out.iter().map(|m| (m.effecting_node_loc.path.clone(), m.steps.clone())).collect();
    assert_eq!(seen, vec![
        (vec![0], vec![GroupStep::Rune(g)]),
        (vec![0, 0], vec![GroupStep::Rune(h)]),
        (vec![1], vec![GroupStep::Rune(h), GroupStep::ChildElements]),
    ]);
}

#[test]
fn symphony_walk_registers_and_returns_each_group() {
    let mut i = Interner { strings: vec![] };
    let g = rune(&mut i, "g");
    let t = rune(&mut i, "T");
    let c = compiler();
    let co = outputs();
    let mut m: KeyedMap<ITemplataG> = KeyedMap::new();
    m.insert(encode_rune(t), ITemplataG::Kind(Box::new(KindGT::KindPlaceholder(0))));
    // `&T in g` against `&T`: registers g as a group of T and returns `&T in g`.
    let written = written_borrow(ITypeST::Rune(t), RegionS::Group(GroupS::Rune(g)));
    let typed = ITemplataT::Kind(typed_borrow(KindT::KindPlaceholder(KindPlaceholderT { id: 0, rune: t })));
    let r = c.simple_match_group_rune_types(&co, &mut m, &written, &typed);
    match &r {
        ITemplataG::Kind(k) => {
            assert!(path_is(&group_of(k)[0], GroupRootG::Rune(g), &[], false));
        },
        other => panic!("{:?}", other),
    }
    match m.get(encode_rune(g)) {
        Some(ITemplataG::Group(gt)) => {
            assert!(path_is(&gt.group[0], GroupRootG::Rune(g), &[], false));
            assert!(matches!(*gt.kind, KindGT::KindPlaceholder(0)));
        },
        other => panic!("g bound to {:?}", other),
    }
    // A primitive written as a call mirrors itself.
    let int_call = ITypeST::Call { template: Box::new(ITypeST::Other), args: vec![] };
    let r2 = c.simple_match_group_rune_types(&co, &mut m, &int_call, &ITemplataT::Kind(KindT::Int { bits: 32 }));
    assert!(matches!(r2, ITemplataG::Kind(k) if matches!(*k, KindGT::Int)));
}
