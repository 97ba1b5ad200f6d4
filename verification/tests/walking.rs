// Grouping a whole typed body: locals take their values' groups, loads through named references
// and calls are logged in walk order, calls take their callees' churns.

use valen_borrowck::borrow_checker::access_event::AccessEventG;
use valen_borrowck::borrow_checker::borrow_error::BorrowErrorKind;
use valen_borrowck::borrow_checker::check_usages_types::RefKey;
use valen_borrowck::compiler_error_reporter::ICompileErrorT;
use valen_borrowck::borrow_checker::ast_g::{ExpressionGE, GroupStep};
use valen_borrowck::borrow_checker::group_expr::{GroupChildStepG, GroupRootG};
use valen_borrowck::borrow_checker::kind_g::KindGT;
use valen_borrowck::interner::{Interner, StrI};
use valen_borrowck::loc::LocT;
use valen_borrowck::names::{IRuneS, IVarNameT};
use valen_borrowck::postparsing::{BorrowRefST, EffectS, FunctionS, GroupS, ITypeST, ParameterS, RegionS};
use valen_borrowck::range::{CodeLocationS, RangeS};
use valen_borrowck::typing::ast::{FunctionHeaderT, ParameterT};
use valen_borrowck::typing::compiler::{Compiler, CompilerOutputs, Keywords, StructMemberT, StructTemplateT, TypingInterner};
use valen_borrowck::typing::expressions::{ExpressionTE, LocalVariableT, PrototypeTT};
use valen_borrowck::typing::types::{
    BorrowRefT, ITemplataT, KindPlaceholderT, KindT, RuntimeSizedArrayTT, StaticSizedArrayTT, StructTT, TemplateArgsT,
};

fn at(offset: i32) -> RangeS {
    RangeS { begin: CodeLocationS { file: 0, offset }, end: CodeLocationS { file: 0, offset: offset + 1 } }
}

fn loc(path: &[i32]) -> LocT {
    LocT { path: path.to_vec() }
}

fn checker() -> Compiler {
    let none = StrI(u32::MAX);
    Compiler {
        interner: Interner { strings: vec![] },
        typing_interner: TypingInterner { locs: vec![] },
        keywords: Keywords { drop: none, e: none, implicit_clone: none },
    }
}

fn outputs_with(functions: Vec<(u32, FunctionS)>) -> CompilerOutputs {
    CompilerOutputs {
        functions,
        prototypes: vec![],
        structs: vec![],
        interfaces: vec![],
        return_types: vec![],
        impls: vec![],
        implicitly_cloneable: vec![],
        struct_templates: vec![],
        interface_templates: vec![],
    }
}

fn borrow_written(inner: ITypeST, region: RegionS) -> ITypeST {
    ITypeST::BorrowRef(BorrowRefST { range: at(0), inner: Box::new(inner), region })
}

fn borrow_typed(inner: KindT) -> KindT {
    KindT::BorrowRef(BorrowRefT { inner: Box::new(inner) })
}

/// `func look<T, g'>(x &T in g, y &T)`, instantiated at a placeholder.
fn look(i: &mut Interner) -> (FunctionS, FunctionHeaderT) {
    let t = IRuneS::CodeRune(i.intern("T"));
    let g = IRuneS::CodeRune(i.intern("g"));
    let x = IVarNameT::Local(i.intern("x"));
    let y = IVarNameT::Local(i.intern("y"));
    let f = FunctionS {
        range: at(0),
        generic_params: vec![t, g],
        params: vec![
            ParameterS { name: x, tyype: borrow_written(ITypeST::Rune(t), RegionS::Group(GroupS::Rune(g))) },
            ParameterS { name: y, tyype: borrow_written(ITypeST::Rune(t), RegionS::Unspecified) },
        ],
        effects: vec![],
        maybe_return_type: None,
    };
    let placeholder = KindT::KindPlaceholder(KindPlaceholderT { id: 0, rune: t });
    let h = FunctionHeaderT {
        id: 1,
        template_args: TemplateArgsT::Cons(
            Box::new(ITemplataT::Kind(placeholder.copy())),
            Box::new(TemplateArgsT::Cons(Box::new(ITemplataT::Group), Box::new(TemplateArgsT::Nil))),
        ),
        params: vec![
            ParameterT { name: x, tyype: borrow_typed(placeholder.copy()) },
            ParameterT { name: y, tyype: borrow_typed(placeholder) },
        ],
        return_type: KindT::Void,
        maybe_origin_function_templata: None,
    };
    (f, h)
}

fn arg(index: u32, h: &FunctionHeaderT, path: &[i32]) -> ExpressionTE {
    ExpressionTE::ArgLookup { range: at(index as i32 + 10), loct: loc(path), index, tyype: h.params[index as usize].tyype.copy() }
}

fn deref(inner: ExpressionTE, path: &[i32]) -> ExpressionTE {
    ExpressionTE::Deref { range: at(20), loct: loc(path), inner: Box::new(inner) }
}

fn read_group(e: &AccessEventG) -> (Vec<GroupStep>, Vec<i32>) {
    match e {
        AccessEventG::Read { group, loct } => (group.clone(), loct.path.clone()),
        other => panic!("not a read: {:?}", other),
    }
}

#[test]
fn load_through_a_parameter_is_logged_in_its_group() {
    let mut i = Interner { strings: vec![] };
    let (f, h) = look(&mut i);
    let g = f.generic_params[1];
    // `*x`: x is `&T in g`, so the load reads g.
    let body = deref(arg(0, &h, &[0, 0]), &[0]);
    let (body_g, log) = checker().groupify_function(&outputs_with(vec![]), &f, &h, &body);
    assert!(matches!(body_g, ExpressionGE::Deref(_)));
    assert!(matches!(body_g.result(), KindGT::KindPlaceholder(0)));
    assert_eq!(log.len(), 1);
    assert_eq!(read_group(&log[0]), (vec![GroupStep::Rune(g)], vec![0]));
}

#[test]
fn decay_of_a_borrowed_borrow_is_no_load() {
    let mut i = Interner { strings: vec![] };
    let (f, h) = look(&mut i);
    let y = f.params[1].name;
    let w = IVarNameT::Local(i.intern("w"));
    let wv = LocalVariableT { name: w, tyype: h.params[1].tyype.copy() };
    // `w = y; **&w`: the outer deref decays `&&T` (no load), the inner one loads from y's anonymous group.
    let body = ExpressionTE::Consecutor {
        range: at(1),
        exprs: vec![
            ExpressionTE::LetNormal { range: at(2), variable: wv.copy(), expr: Box::new(arg(1, &h, &[0, 0])) },
            deref(deref(ExpressionTE::LocalLookup { range: at(3), loct: loc(&[1, 0, 0]), variable: wv }, &[1, 0]), &[1]),
        ],
    };
    let (body_g, log) = checker().groupify_function(&outputs_with(vec![]), &f, &h, &body);
    assert_eq!(log.len(), 1);
    assert_eq!(read_group(&log[0]), (vec![GroupStep::ParamAnonymousGroup(y)], vec![1]));
    match &body_g {
        ExpressionGE::Consecutor(c) => {
            assert_eq!(c.exprs.len(), 2);
            match &c.exprs[0] {
                ExpressionGE::LetNormal(l) => match &l.variable.tyype {
                    KindGT::BorrowRef(b) => assert_eq!(b.group.group[0].root, GroupRootG::ParamAnonymousGroup(y)),
                    other => panic!("w is {:?}", other),
                },
                other => panic!("first is {:?}", other),
            }
            assert!(matches!(c.result, KindGT::KindPlaceholder(0)));
        },
        other => panic!("body is {:?}", other),
    }
}

#[test]
fn lookup_of_a_local_borrows_into_the_local_group() {
    let mut i = Interner { strings: vec![] };
    let (f, h) = look(&mut i);
    let w = IVarNameT::Local(i.intern("w"));
    let wv = LocalVariableT { name: w, tyype: KindT::Int { bits: 32 } };
    let body = ExpressionTE::Consecutor {
        range: at(1),
        exprs: vec![
            ExpressionTE::LetNormal {
                range: at(2), variable: wv.copy(), expr: Box::new(ExpressionTE::ConstantInt { range: at(3), value: 5, bits: 32 }),
            },
            ExpressionTE::LocalLookup { range: at(4), loct: loc(&[1]), variable: wv },
        ],
    };
    let (body_g, log) = checker().groupify_function(&outputs_with(vec![]), &f, &h, &body);
    assert!(log.is_empty());
    match body_g.result() {
        KindGT::BorrowRef(b) => {
            assert_eq!(b.group.group.len(), 1);
            assert_eq!(b.group.group[0].root, GroupRootG::Local(w));
            assert!(b.group.group[0].steps.is_empty());
            assert!(matches!(*b.inner, KindGT::Int));
        },
        other => panic!("lookup is {:?}", other),
    }
}

#[test]
fn sequence_with_a_return_never_completes() {
    let mut i = Interner { strings: vec![] };
    let (f, h) = look(&mut i);
    let body = ExpressionTE::Consecutor {
        range: at(1),
        exprs: vec![
            ExpressionTE::Return { range: at(2), expr: Box::new(ExpressionTE::VoidLiteral { range: at(3) }) },
            ExpressionTE::ConstantBool { range: at(4), value: true },
        ],
    };
    let (body_g, _) = checker().groupify_function(&outputs_with(vec![]), &f, &h, &body);
    assert!(matches!(body_g.result(), KindGT::Never));
}

#[test]
fn call_takes_the_callee_churns_through_its_argument_groups() {
    let mut i = Interner { strings: vec![] };
    let (f, h) = look(&mut i);
    let g = f.generic_params[1];
    // `func poke<U, cg'>(p &U in cg) mut(cg)`, called as `poke(x)`.
    let u = IRuneS::CodeRune(i.intern("U"));
    let cg = IRuneS::CodeRune(i.intern("cg"));
    let p = IVarNameT::Local(i.intern("p"));
    let poke = FunctionS {
        range: at(50),
        generic_params: vec![u, cg],
        params: vec![ParameterS { name: p, tyype: borrow_written(ITypeST::Rune(u), RegionS::Group(GroupS::Rune(cg))) }],
        effects: vec![EffectS::Mut(GroupS::Rune(cg))],
        maybe_return_type: Some(ITypeST::Other),
    };
    let co = outputs_with(vec![(7, poke)]);
    let callable = PrototypeTT { id: 7, name: i.intern("poke"), params: vec![h.params[0].tyype.copy()], return_type: KindT::Void };
    let body = ExpressionTE::FunctionCall {
        loct: loc(&[]), range: vec![at(30), at(31)], callable, args: vec![arg(0, &h, &[0])], result: KindT::Void,
    };
    let (body_g, log) = checker().groupify_function(&co, &f, &h, &body);
    match &body_g {
        ExpressionGE::FunctionCall(c) => {
            assert_eq!(c.range, at(30));
            assert_eq!(c.parent_ranges, vec![at(30), at(31)]);
            assert_eq!(c.callable.id, 7);
            assert_eq!(c.mut_effects.len(), 1);
            assert_eq!(c.mut_effects[0].steps, vec![GroupStep::Rune(g)]);
            assert_eq!(c.mut_effects[0].range, at(30));
            assert!(matches!(c.result, KindGT::Void));
        },
        other => panic!("body is {:?}", other),
    }
    assert_eq!(log.len(), 1);
    match &log[0] {
        AccessEventG::Call { touched, loct } => {
            assert_eq!(touched, &vec![vec![GroupStep::Rune(g)]]);
            assert!(loct.path.is_empty());
        },
        other => panic!("logged {:?}", other),
    }
}

#[test]
fn call_of_an_unknown_callee_churns_nothing() {
    let mut i = Interner { strings: vec![] };
    let (f, h) = look(&mut i);
    let y = f.params[1].name;
    let callable = PrototypeTT { id: 99, name: i.intern("lambda"), params: vec![], return_type: KindT::Bool };
    let body = ExpressionTE::FunctionCall {
        loct: loc(&[]), range: vec![at(30)], callable, args: vec![arg(1, &h, &[0])], result: KindT::Bool,
    };
    let (body_g, log) = checker().groupify_function(&outputs_with(vec![]), &f, &h, &body);
    match &body_g {
        ExpressionGE::FunctionCall(c) => {
            assert!(c.mut_effects.is_empty());
            assert!(matches!(c.result, KindGT::Bool));
        },
        other => panic!("body is {:?}", other),
    }
    match &log[0] {
        AccessEventG::Call { touched, .. } => assert_eq!(touched, &vec![vec![GroupStep::ParamAnonymousGroup(y)]]),
        other => panic!("logged {:?}", other),
    }
}

/// `struct Level { tiles []Ship; fuel int; }` and `func tend<l'>(lvl &Level in l)`.
fn tend(i: &mut Interner) -> (CompilerOutputs, FunctionS, FunctionHeaderT, StrI, StrI) {
    let tiles = i.intern("tiles");
    let fuel = i.intern("fuel");
    let l = IRuneS::CodeRune(i.intern("l"));
    let lvl = IVarNameT::Local(i.intern("lvl"));
    let mut co = outputs_with(vec![]);
    co.struct_templates.push(StructTemplateT {
        template: 200,
        generic_params: vec![],
        members: vec![
            StructMemberT {
                name: tiles,
                written: ITypeST::RuntimeSizedArray { element: Box::new(ITypeST::Other) },
                tyype: KindT::RuntimeSizedArray(RuntimeSizedArrayTT { element_type: Box::new(ship()) }),
            },
            StructMemberT { name: fuel, written: ITypeST::Other, tyype: KindT::Int { bits: 32 } },
        ],
    });
    let f = FunctionS {
        range: at(0),
        generic_params: vec![l],
        params: vec![ParameterS { name: lvl, tyype: borrow_written(ITypeST::Other, RegionS::Group(GroupS::Rune(l))) }],
        effects: vec![],
        maybe_return_type: None,
    };
    let h = FunctionHeaderT {
        id: 2,
        template_args: TemplateArgsT::Cons(Box::new(ITemplataT::Group), Box::new(TemplateArgsT::Nil)),
        params: vec![ParameterT { name: lvl, tyype: borrow_typed(level()) }],
        return_type: KindT::Void,
        maybe_origin_function_templata: None,
    };
    (co, f, h, tiles, fuel)
}

fn ship() -> KindT {
    KindT::Struct(StructTT { id: 10, template: 100, template_args: TemplateArgsT::Nil })
}

fn level() -> KindT {
    KindT::Struct(StructTT { id: 20, template: 200, template_args: TemplateArgsT::Nil })
}

fn member(base: ExpressionTE, name: StrI, kind: KindT, path: &[i32]) -> ExpressionTE {
    ExpressionTE::MemberLookup {
        range: at(40), loct: loc(path), struct_expr: Box::new(base), member_name: IVarNameT::Member(name), result: borrow_typed(kind),
    }
}

#[test]
fn member_read_reports_the_struct_group() {
    let mut i = Interner { strings: vec![] };
    let (co, f, h, _tiles, fuel) = tend(&mut i);
    let l = f.generic_params[0];
    // `lvl.fuel` copied out: an inline member shares the struct's group.
    let body = ExpressionTE::CopyPrim {
        range: at(1), loct: loc(&[]), expr: Box::new(member(arg(0, &h, &[0, 0]), fuel, KindT::Int { bits: 32 }, &[0])),
        result: KindT::Int { bits: 32 },
    };
    let (body_g, log) = checker().groupify_function(&co, &f, &h, &body);
    assert!(matches!(body_g.result(), KindGT::Int));
    assert_eq!(log.len(), 1);
    assert_eq!(read_group(&log[0]), (vec![GroupStep::Rune(l)], vec![]));
    match &body_g {
        ExpressionGE::CopyPrim(c) => match c.inner.result() {
            KindGT::BorrowRef(b) => {
                assert_eq!(b.group.group.len(), 1);
                assert_eq!(b.group.group[0].root, GroupRootG::Rune(l));
                assert_eq!(b.group.group[0].steps, vec![GroupChildStepG::Member { member_name: fuel }]);
                assert!(matches!(*b.inner, KindGT::Int));
            },
            other => panic!("member is {:?}", other),
        },
        other => panic!("body is {:?}", other),
    }
}

#[test]
fn element_read_reports_the_elements_group() {
    let mut i = Interner { strings: vec![] };
    let (co, f, h, tiles, _fuel) = tend(&mut i);
    let l = f.generic_params[0];
    // `lvl.tiles[0]` loaded: the read reaches `l.tiles[]`.
    let tiles_kind = KindT::RuntimeSizedArray(RuntimeSizedArrayTT { element_type: Box::new(ship()) });
    let element = ExpressionTE::RuntimeSizedArrayLookup {
        range: at(2), loct: loc(&[0]), array_expr: Box::new(member(arg(0, &h, &[0, 0, 0]), tiles, tiles_kind, &[0, 0])),
        index_expr: Box::new(ExpressionTE::ConstantInt { range: at(3), value: 0, bits: 32 }), element_type: borrow_typed(ship()),
    };
    let body = deref(element, &[]);
    let (body_g, log) = checker().groupify_function(&co, &f, &h, &body);
    assert!(matches!(body_g.result(), KindGT::Struct(_)));
    assert_eq!(
        read_group(&log[0]),
        (vec![GroupStep::Rune(l), GroupStep::Member { member_name: tiles }, GroupStep::ChildElements], vec![])
    );
}

#[test]
fn store_into_a_member_is_logged_and_yields_the_old_value() {
    let mut i = Interner { strings: vec![] };
    let (co, f, h, _tiles, fuel) = tend(&mut i);
    let l = f.generic_params[0];
    let body = ExpressionTE::Mutate {
        range: at(5), loct: loc(&[]), destination_expr: Box::new(member(arg(0, &h, &[0, 0]), fuel, KindT::Int { bits: 32 }, &[0])),
        source_expr: Box::new(ExpressionTE::ConstantInt { range: at(6), value: 3, bits: 32 }), result: KindT::Int { bits: 32 },
    };
    let (body_g, log) = checker().groupify_function(&co, &f, &h, &body);
    assert!(matches!(body_g, ExpressionGE::Mutate(_)));
    assert!(matches!(body_g.result(), KindGT::Int));
    assert_eq!(log.len(), 1);
    match &log[0] {
        AccessEventG::Store { group, loct } => {
            assert_eq!(group, &vec![GroupStep::Rune(l)]);
            assert!(loct.path.is_empty());
        },
        other => panic!("logged {:?}", other),
    }
}

#[test]
fn conditional_takes_the_branch_that_completes() {
    let mut i = Interner { strings: vec![] };
    let (f, h) = look(&mut i);
    let body = ExpressionTE::If {
        range: at(1), loct: loc(&[]),
        condition: Box::new(ExpressionTE::ConstantBool { range: at(2), value: true }),
        then_call: Box::new(ExpressionTE::Return { range: at(3), expr: Box::new(ExpressionTE::VoidLiteral { range: at(4) }) }),
        else_call: Box::new(ExpressionTE::ConstantInt { range: at(5), value: 1, bits: 32 }),
        result: KindT::Int { bits: 32 },
    };
    let (body_g, _) = checker().groupify_function(&outputs_with(vec![]), &f, &h, &body);
    assert!(matches!(body_g.result(), KindGT::Int));
}

#[test]
fn restacked_local_keeps_its_bound_kind() {
    let mut i = Interner { strings: vec![] };
    let (f, h) = look(&mut i);
    let w = IVarNameT::Local(i.intern("w"));
    let wv = LocalVariableT { name: w, tyype: KindT::Bool };
    let body = ExpressionTE::Consecutor {
        range: at(1),
        exprs: vec![
            ExpressionTE::LetNormal { range: at(2), variable: wv.copy(), expr: Box::new(ExpressionTE::ConstantBool { range: at(3), value: true }) },
            ExpressionTE::Discard { range: at(4), expr: Box::new(ExpressionTE::Unlet { range: at(5), variable: wv.copy() }) },
            ExpressionTE::Restackify { range: at(6), variable: wv, source_expr: Box::new(ExpressionTE::ConstantBool { range: at(7), value: false }) },
        ],
    };
    let (body_g, log) = checker().groupify_function(&outputs_with(vec![]), &f, &h, &body);
    assert!(log.is_empty());
    match &body_g {
        ExpressionGE::Consecutor(c) => match &c.exprs[2] {
            ExpressionGE::Restackify(r) => {
                assert_eq!(r.variable.name, w);
                assert!(matches!(r.variable.tyype, KindGT::Bool));
                assert!(matches!(r.result, KindGT::Void));
            },
            other => panic!("third is {:?}", other),
        },
        other => panic!("body is {:?}", other),
    }
}

#[test]
fn construction_and_string_literal_are_groupless() {
    let mut i = Interner { strings: vec![] };
    let (co, f, h, _tiles, _fuel) = tend(&mut i);
    let hello = i.intern("hello");
    let body = ExpressionTE::Consecutor {
        range: at(1),
        exprs: vec![
            ExpressionTE::Discard { range: at(2), expr: Box::new(ExpressionTE::ConstantStr { range: at(3), value: hello }) },
            ExpressionTE::Construct { range: at(4), args: vec![ExpressionTE::ConstantInt { range: at(5), value: 7, bits: 32 }], result: level() },
        ],
    };
    let (body_g, log) = checker().groupify_function(&co, &f, &h, &body);
    assert!(log.is_empty());
    match &body_g {
        ExpressionGE::Consecutor(c) => {
            match &c.exprs[0] {
                ExpressionGE::Discard(d) => match &*d.expr {
                    ExpressionGE::ConstantStr(s) => assert!(matches!(&s.result, KindGT::ShareRef(w) if matches!(*w.inner, KindGT::Str))),
                    other => panic!("discarded {:?}", other),
                },
                other => panic!("first is {:?}", other),
            }
            assert!(matches!(&c.result, KindGT::Struct(s) if s.id == 20 && s.template == 200));
        },
        other => panic!("body is {:?}", other),
    }
}

#[test]
fn accesses_are_logged_in_walk_order() {
    let mut i = Interner { strings: vec![] };
    let (f, h) = look(&mut i);
    let g = f.generic_params[1];
    let y = f.params[1].name;
    let body = ExpressionTE::Consecutor {
        range: at(1),
        exprs: vec![
            ExpressionTE::Discard { range: at(2), expr: Box::new(deref(arg(1, &h, &[0, 0, 0]), &[0, 0])) },
            deref(arg(0, &h, &[1, 0]), &[1]),
        ],
    };
    let (_, log) = checker().groupify_function(&outputs_with(vec![]), &f, &h, &body);
    assert_eq!(log.len(), 2);
    assert_eq!(read_group(&log[0]), (vec![GroupStep::ParamAnonymousGroup(y)], vec![0, 0]));
    assert_eq!(read_group(&log[1]), (vec![GroupStep::Rune(g)], vec![1]));
}

#[test]
fn destructured_struct_binds_each_member_in_order() {
    let mut i = Interner { strings: vec![] };
    let (co, f, h, _tiles, _fuel) = tend(&mut i);
    let t = IVarNameT::Local(i.intern("t"));
    let u = IVarNameT::Local(i.intern("u"));
    let tv = LocalVariableT { name: t, tyype: KindT::RuntimeSizedArray(RuntimeSizedArrayTT { element_type: Box::new(ship()) }) };
    let uv = LocalVariableT { name: u, tyype: KindT::Int { bits: 32 } };
    let body = ExpressionTE::Consecutor {
        range: at(1),
        exprs: vec![
            ExpressionTE::Destroy {
                range: at(2), loct: loc(&[0]),
                expr: Box::new(ExpressionTE::Construct { range: at(3), args: vec![], result: level() }),
                destination_reference_variables: vec![tv, uv.copy()],
            },
            ExpressionTE::Unlet { range: at(4), variable: uv },
        ],
    };
    let (body_g, _) = checker().groupify_function(&co, &f, &h, &body);
    match &body_g {
        ExpressionGE::Consecutor(c) => {
            match &c.exprs[0] {
                ExpressionGE::Destroy(d) => {
                    assert_eq!(d.destination_reference_variables.len(), 2);
                    assert_eq!(d.destination_reference_variables[0].name, t);
                    assert!(matches!(d.destination_reference_variables[0].tyype, KindGT::RuntimeSizedArray(_)));
                    assert_eq!(d.destination_reference_variables[1].name, u);
                    assert!(matches!(d.destination_reference_variables[1].tyype, KindGT::Int));
                    assert!(matches!(d.result, KindGT::Void));
                },
                other => panic!("first is {:?}", other),
            }
            assert!(matches!(c.result, KindGT::Int));
        },
        other => panic!("body is {:?}", other),
    }
}

#[test]
fn inline_array_moved_into_locals_gives_each_the_element_kind() {
    let mut i = Interner { strings: vec![] };
    let (f, h) = look(&mut i);
    let a = IVarNameT::Local(i.intern("a"));
    let b = IVarNameT::Local(i.intern("b"));
    let pair = StaticSizedArrayTT { size: 2, element_type: Box::new(KindT::Bool) };
    let bv = LocalVariableT { name: b, tyype: KindT::Bool };
    let body = ExpressionTE::Consecutor {
        range: at(1),
        exprs: vec![
            ExpressionTE::DestroyStaticSizedArrayIntoLocals {
                range: at(2),
                expr: Box::new(ExpressionTE::StaticArrayFromValues {
                    range: at(3),
                    elements: vec![ExpressionTE::ConstantBool { range: at(4), value: true }, ExpressionTE::ConstantBool { range: at(5), value: false }],
                    result: KindT::StaticSizedArray(StaticSizedArrayTT { size: 2, element_type: Box::new(KindT::Bool) }),
                }),
                static_sized_array: pair,
                destination_reference_variables: vec![LocalVariableT { name: a, tyype: KindT::Bool }, bv.copy()],
            },
            ExpressionTE::Unlet { range: at(6), variable: bv },
        ],
    };
    let (body_g, log) = checker().groupify_function(&outputs_with(vec![]), &f, &h, &body);
    assert!(log.is_empty());
    assert!(matches!(body_g.result(), KindGT::Bool));
}

#[test]
fn identity_test_and_downcast_keep_their_operands_groups() {
    let mut i = Interner { strings: vec![] };
    let (f, h) = look(&mut i);
    let g = f.generic_params[1];
    let body = ExpressionTE::Consecutor {
        range: at(1),
        exprs: vec![
            ExpressionTE::Discard {
                range: at(2),
                expr: Box::new(ExpressionTE::IsSameInstance {
                    range: at(3), left: Box::new(arg(0, &h, &[0, 0, 0])), right: Box::new(arg(1, &h, &[0, 0, 1])), result: KindT::Bool,
                }),
            },
            ExpressionTE::AsSubtype { range: at(4), source_expr: Box::new(arg(0, &h, &[1, 0])), result: h.params[0].tyype.copy() },
        ],
    };
    let (body_g, _) = checker().groupify_function(&outputs_with(vec![]), &f, &h, &body);
    match &body_g {
        ExpressionGE::Consecutor(c) => {
            match &c.exprs[0] {
                ExpressionGE::Discard(d) => assert!(matches!(d.expr.result(), KindGT::Bool)),
                other => panic!("first is {:?}", other),
            }
            match &c.result {
                KindGT::BorrowRef(b) => assert_eq!(b.group.group[0].root, GroupRootG::Rune(g)),
                other => panic!("downcast is {:?}", other),
            }
        },
        other => panic!("body is {:?}", other),
    }
}

#[test]
fn loop_churns_what_its_body_churns() {
    let mut i = Interner { strings: vec![] };
    let (f, h) = look(&mut i);
    let g = f.generic_params[1];
    let u = IRuneS::CodeRune(i.intern("U"));
    let cg = IRuneS::CodeRune(i.intern("cg"));
    let p = IVarNameT::Local(i.intern("p"));
    let poke = FunctionS {
        range: at(50),
        generic_params: vec![u, cg],
        params: vec![ParameterS { name: p, tyype: borrow_written(ITypeST::Rune(u), RegionS::Group(GroupS::Rune(cg))) }],
        effects: vec![EffectS::Mut(GroupS::Rune(cg))],
        maybe_return_type: Some(ITypeST::Other),
    };
    let co = outputs_with(vec![(7, poke)]);
    let callable = PrototypeTT { id: 7, name: i.intern("poke"), params: vec![h.params[0].tyype.copy()], return_type: KindT::Void };
    // `while { poke(x); }`
    let call = ExpressionTE::FunctionCall {
        loct: loc(&[0]), range: vec![at(30)], callable, args: vec![arg(0, &h, &[0, 0])], result: KindT::Void,
    };
    let body = ExpressionTE::While { range: at(20), loct: loc(&[]), block_range: at(21), body: Box::new(call), result: KindT::Void };
    let (body_g, _) = checker().groupify_function(&co, &f, &h, &body);
    match &body_g {
        ExpressionGE::While(w) => {
            assert_eq!(w.block.range, at(21));
            assert_eq!(w.mut_effects.len(), 1);
            assert_eq!(w.mut_effects[0].steps, vec![GroupStep::Rune(g)]);
            assert_eq!(w.mut_effects[0].effecting_node_loc.path, vec![0]);
            assert!(matches!(w.result, KindGT::Void));
        },
        other => panic!("body is {:?}", other),
    }
}

/// `func tend<l'>(lvl &Level in l) mut(l)` whose body borrows an element of `lvl.tiles`, calls
/// `poke(lvl)` (which churns its argument's group), and hands the element borrow to an unknown
/// `observe`, in the order `churn_first` says.
fn tend_and_check(churn_first: bool) -> (Result<(), ICompileErrorT>, RangeS, RangeS, IVarNameT) {
    let mut i = Interner { strings: vec![] };
    let (mut co, mut f, h, tiles, _fuel) = tend(&mut i);
    let l = f.generic_params[0];
    f.effects.push(EffectS::Mut(GroupS::Rune(l)));
    let cg = IRuneS::CodeRune(i.intern("cg"));
    let p = IVarNameT::Local(i.intern("p"));
    co.functions.push((7, FunctionS {
        range: at(50),
        generic_params: vec![cg],
        params: vec![ParameterS { name: p, tyype: borrow_written(ITypeST::Other, RegionS::Group(GroupS::Rune(cg))) }],
        effects: vec![EffectS::Mut(GroupS::Rune(cg))],
        maybe_return_type: Some(ITypeST::Other),
    }));
    let e = IVarNameT::Local(i.intern("e"));
    let ev = LocalVariableT { name: e, tyype: borrow_typed(ship()) };
    let tiles_kind = KindT::RuntimeSizedArray(RuntimeSizedArrayTT { element_type: Box::new(ship()) });
    let element = ExpressionTE::RuntimeSizedArrayLookup {
        range: at(2), loct: loc(&[0, 0]), array_expr: Box::new(member(arg(0, &h, &[0, 0, 0, 0]), tiles, tiles_kind, &[0, 0, 0])),
        index_expr: Box::new(ExpressionTE::ConstantInt { range: at(3), value: 0, bits: 32 }), element_type: borrow_typed(ship()),
    };
    let let_e = ExpressionTE::LetNormal { range: at(4), variable: ev.copy(), expr: Box::new(element) };
    let poke_range = at(30);
    let poke = ExpressionTE::FunctionCall {
        loct: loc(&[1]), range: vec![poke_range],
        callable: PrototypeTT { id: 7, name: i.intern("poke"), params: vec![h.params[0].tyype.copy()], return_type: KindT::Void },
        args: vec![arg(0, &h, &[1, 0])], result: KindT::Void,
    };
    let use_range = at(60);
    let observe = ExpressionTE::FunctionCall {
        loct: loc(&[2]), range: vec![at(61)],
        callable: PrototypeTT { id: 99, name: i.intern("observe"), params: vec![borrow_typed(ship())], return_type: KindT::Void },
        args: vec![deref(ExpressionTE::LocalLookup { range: use_range, loct: loc(&[2, 0, 0]), variable: ev }, &[2, 0])],
        result: KindT::Void,
    };
    let exprs = if churn_first { vec![let_e, poke, observe] } else { vec![let_e, observe, poke] };
    let body = ExpressionTE::Consecutor { range: at(1), exprs };
    let c = checker();
    let (body_g, log) = c.groupify_function(&co, &f, &h, &body);
    let paths = c.param_group_paths(&co, &f, &h);
    let verdict = c.check_function(&co, &f, &body_g, &log, &paths).map(|_| ());
    (verdict, use_range, poke_range, e)
}

#[test]
fn element_borrow_used_after_its_array_is_churned_is_rejected() {
    let (verdict, use_range, poke_range, e) = tend_and_check(true);
    match verdict {
        Err(ICompileErrorT::BorrowCheckError { range, kind: BorrowErrorKind::UseAfterChurn { local, churned_at } }) => {
            assert_eq!(range, use_range);
            assert_eq!(local, RefKey::Named(e));
            assert_eq!(churned_at, poke_range);
        },
        other => panic!("expected one use-after-churn, got {:?}", other),
    }
}

#[test]
fn element_borrow_used_before_the_churn_is_accepted() {
    let (verdict, _, _, _) = tend_and_check(false);
    assert!(verdict.is_ok(), "expected acceptance, got {:?}", verdict);
}
