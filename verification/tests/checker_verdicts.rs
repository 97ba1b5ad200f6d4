// The checker's other verdicts: undeclared churns, joint-argument violations, temporaries, several
// errors at once, groupless returns, and the aliasing info of a clean function.

use valen_borrowck::borrow_checker::access_event::AccessEventG;
use valen_borrowck::borrow_checker::ast_g::{
    BlockGE, ConsecutorGE, ConstantIntGE, ExpressionGE, FunctionCallGE, GroupStep, LocalLookupGE, LocalVariableG,
    MemberLookupGE, MutEffectPath, PrototypeT, UnletGE, VoidLiteralGE,
};
use valen_borrowck::borrow_checker::borrow_error::BorrowErrorKind;
use valen_borrowck::borrow_checker::borrowing_ast::GroupIdStepT;
use valen_borrowck::borrow_checker::check_usages_types::RefKey;
use valen_borrowck::borrow_checker::group_expr::{GroupChildStepG, GroupPathG, GroupRootG};
use valen_borrowck::borrow_checker::kind_g::{ArrayGT, BorrowRefGT, CitizenGT, GroupGT, KindGT};
use valen_borrowck::compiler_error_reporter::ICompileErrorT;
use valen_borrowck::interner::{Interner, StrI};
use valen_borrowck::loc::LocT;
use valen_borrowck::names::{IRuneS, IVarNameT};
use valen_borrowck::postparsing::{BorrowRefST, EffectS, FunctionS, GroupS, ITypeST, ParameterS, RegionS};
use valen_borrowck::range::{CodeLocationS, RangeS};
use valen_borrowck::typing::compiler::{Compiler, CompilerOutputs, Keywords, TypingInterner};

fn rg(offset: i32) -> RangeS {
    RangeS { begin: CodeLocationS { file: 0, offset }, end: CodeLocationS { file: 0, offset: offset + 1 } }
}

fn loc(path: &[i32]) -> LocT {
    LocT { path: path.to_vec() }
}

fn ship() -> KindGT {
    KindGT::Struct(CitizenGT { id: 2, template: 2, template_args: vec![] })
}

fn borrow_into(root: GroupRootG, steps: Vec<GroupChildStepG>, ellipsis: bool, inner: KindGT) -> KindGT {
    KindGT::BorrowRef(BorrowRefGT { group: GroupGT { group: vec![GroupPathG { root, steps, ellipsis }] }, inner: Box::new(inner) })
}

fn lookup(range: RangeS, name: StrI, kind: KindGT, kind_again: KindGT) -> ExpressionGE {
    ExpressionGE::LocalLookup(LocalLookupGE {
        range,
        loct: loc(&[0]),
        local_variable: LocalVariableG { name: IVarNameT::Local(name), tyype: kind_again },
        result: kind,
    })
}

fn call(range: RangeS, callee: u32, args: Vec<ExpressionGE>, churns: Vec<MutEffectPath>, result: KindGT) -> ExpressionGE {
    ExpressionGE::FunctionCall(FunctionCallGE { range, parent_ranges: vec![range], loct: loc(&[1]), callable: PrototypeT { id: callee }, args, mut_effects: churns, result })
}

fn churn(range: RangeS, steps: Vec<GroupStep>) -> MutEffectPath {
    MutEffectPath { effecting_node_loc: loc(&[1]), range, steps }
}

fn body(exprs: Vec<ExpressionGE>) -> ExpressionGE {
    let inner = ExpressionGE::Consecutor(ConsecutorGE { range: rg(0), exprs, result: KindGT::Void });
    ExpressionGE::Block(BlockGE { range: rg(0), inner: Box::new(inner), result: KindGT::Void })
}

fn void() -> ExpressionGE {
    ExpressionGE::VoidLiteral(VoidLiteralGE { range: rg(0), result: KindGT::Void })
}

fn borrow_param(name: StrI, r: StrI) -> ParameterS {
    ParameterS { name: IVarNameT::Local(name), tyype: ITypeST::BorrowRef(BorrowRefST { range: rg(0), inner: Box::new(ITypeST::Other), region: RegionS::Group(GroupS::Rune(IRuneS::CodeRune(r))) }) }
}

fn header(params: Vec<ParameterS>, muts: Vec<StrI>) -> FunctionS {
    FunctionS { range: rg(0), generic_params: vec![], params, effects: muts.into_iter().map(|r| EffectS::Mut(GroupS::Rune(IRuneS::CodeRune(r)))).collect(), maybe_return_type: None }
}

fn setup() -> (Interner, StrI, StrI, StrI, StrI) {
    let mut i = Interner::new();
    let r = i.intern("r");
    let s = i.intern("s");
    let a = i.intern("a");
    let d = i.intern("d");
    (i, r, s, a, d)
}

fn compiler(interner: Interner) -> Compiler {
    Compiler { interner, typing_interner: TypingInterner { locs: vec![] }, keywords: Keywords { drop: StrI(900), e: StrI(901), implicit_clone: StrI(902) } }
}

fn outputs(functions: Vec<(u32, FunctionS)>) -> CompilerOutputs {
    CompilerOutputs { functions, prototypes: vec![], structs: vec![], interfaces: vec![], return_types: vec![], impls: vec![], implicitly_cloneable: vec![], struct_templates: vec![], interface_templates: vec![] }
}

fn rune(r: StrI) -> GroupStep {
    GroupStep::Rune(IRuneS::CodeRune(r))
}

#[test]
fn undeclared_churn_of_a_parameter_group_is_reported() {
    let (i, r, _, a, _) = setup();
    let in_r = || borrow_into(GroupRootG::Rune(IRuneS::CodeRune(r)), vec![], false, ship());
    // `func f<r'>(a &Ship in r) { churn(a); }` declares no `mut(r)`.
    let b = body(vec![call(rg(30), 5, vec![lookup(rg(36), a, in_r(), in_r())], vec![churn(rg(30), vec![rune(r)])], KindGT::Void), void()]);
    let f = header(vec![borrow_param(a, r)], vec![]);
    let c = compiler(i);
    let co = outputs(vec![]);
    match c.check_function(&co, &f, &b, &vec![], &vec![Some(vec![rune(r)])]) {
        Err(ICompileErrorT::BorrowCheckError { range, kind }) => {
            assert_eq!(range, rg(30));
            assert_eq!(kind, BorrowErrorKind::UndeclaredChurn);
        }
        other => panic!("expected an undeclared churn, got {:?}", other),
    }
    // Declaring it makes the same body clean.
    let declared = header(vec![borrow_param(a, r)], vec![r]);
    assert!(c.check_usages(&co, &declared, &b).is_ok());
}

#[test]
fn borrow_into_a_moved_argument_is_reported() {
    let (mut i, r, _, a, _) = setup();
    let x = i.intern("x");
    let m = i.intern("m");
    // `take(&x.m, x)`: the first argument borrows into `x`, the second moves it.
    let member = ExpressionGE::MemberLookup(MemberLookupGE {
        range: rg(12),
        struct_expr: Box::new(lookup(rg(12), x, borrow_into(GroupRootG::Local(IVarNameT::Local(x)), vec![], false, ship()), ship())),
        member_name: m,
        result: borrow_into(GroupRootG::Local(IVarNameT::Local(x)), vec![GroupChildStepG::Member { member_name: m }], false, KindGT::Int),
    });
    let moved = ExpressionGE::Unlet(UnletGE { range: rg(18), variable: LocalVariableG { name: IVarNameT::Local(x), tyype: ship() }, result: ship() });
    let take = header(vec![borrow_param(a, r), ParameterS { name: IVarNameT::Local(m), tyype: ITypeST::Other }], vec![]);
    let b = body(vec![call(rg(10), 6, vec![member, moved], vec![], KindGT::Void), void()]);
    let c = compiler(i);
    let co = outputs(vec![(6, take)]);
    match c.check_function(&co, &header(vec![], vec![]), &b, &vec![], &vec![]) {
        Err(ICompileErrorT::BorrowCheckError { range, kind }) => {
            assert_eq!(range, rg(12));
            assert_eq!(kind, BorrowErrorKind::BorrowIntoMovedArgument { local: IVarNameT::Local(x), borrow_arg: 0, move_arg: 1 });
        }
        other => panic!("expected a borrow into a moved argument, got {:?}", other),
    }
}

#[test]
fn aliasing_into_disjoint_mutated_groups_is_reported() {
    let (mut i, r, s, a, d) = setup();
    let e = i.intern("e");
    // `attack2<r', s'>(a &Ship in r, d &Ship in s) mut(r) mut(s)` called as `attack2(&e, &e)`.
    let attack2 = header(vec![borrow_param(a, r), borrow_param(d, s)], vec![r, s]);
    let in_e = || borrow_into(GroupRootG::Local(IVarNameT::Local(e)), vec![], false, ship());
    let b = body(vec![
        call(rg(40), 7, vec![lookup(rg(48), e, in_e(), ship()), lookup(rg(52), e, in_e(), ship())],
            vec![churn(rg(40), vec![GroupStep::Local(IVarNameT::Local(e))])], KindGT::Void),
        void(),
    ]);
    let c = compiler(i);
    let co = outputs(vec![(7, attack2)]);
    match c.check_function(&co, &header(vec![], vec![]), &b, &vec![], &vec![]) {
        Err(ICompileErrorT::BorrowCheckError { range, kind }) => {
            assert_eq!(range, rg(48));
            assert_eq!(kind, BorrowErrorKind::AliasingIntoDisjointMutGroups { local: IVarNameT::Local(e), arg_a: 0, arg_b: 1, group_a: r, group_b: s });
        }
        other => panic!("expected aliasing into disjoint groups, got {:?}", other),
    }
}

#[test]
fn a_temporary_spoiled_before_its_use_is_reported() {
    let (mut i, _, _, _, _) = setup();
    let arr = i.intern("arr");
    let arr_group = || GroupRootG::Local(IVarNameT::Local(arr));
    let arr_kind = || KindGT::RuntimeSizedArray(ArrayGT { element_type: Box::new(KindGT::Int) });
    // `observe(peek(&arr), churn(&arr))`: the element reference peek returns is spoiled by the churn
    // in the next argument, before observe uses it.
    let peeked = call(rg(20), 8, vec![lookup(rg(25), arr, borrow_into(arr_group(), vec![], false, arr_kind()), arr_kind())], vec![],
        borrow_into(arr_group(), vec![GroupChildStepG::ChildElements {}], false, KindGT::Int));
    let churned = call(rg(32), 9, vec![lookup(rg(38), arr, borrow_into(arr_group(), vec![], false, arr_kind()), arr_kind())],
        vec![churn(rg(32), vec![GroupStep::Local(IVarNameT::Local(arr))])], KindGT::Void);
    let b = body(vec![call(rg(12), 10, vec![peeked, churned], vec![], KindGT::Void), void()]);
    let c = compiler(i);
    let co = outputs(vec![]);
    match c.check_function(&co, &header(vec![], vec![]), &b, &vec![], &vec![]) {
        Err(ICompileErrorT::BorrowCheckError { range, kind }) => {
            assert_eq!(range, rg(20));
            assert_eq!(kind, BorrowErrorKind::UseAfterChurnTemporary { churned_at: rg(32) });
        }
        other => panic!("expected a spoiled temporary, got {:?}", other),
    }
}

#[test]
fn several_violations_report_together_in_source_order() {
    let (mut i, r, _, a, _) = setup();
    let e1 = i.intern("e1");
    let e2 = i.intern("e2");
    let elem = || borrow_into(GroupRootG::Rune(IRuneS::CodeRune(r)), vec![GroupChildStepG::ChildElements {}], false, KindGT::Int);
    let whole = || borrow_into(GroupRootG::Rune(IRuneS::CodeRune(r)), vec![], false, KindGT::RuntimeSizedArray(ArrayGT { element_type: Box::new(KindGT::Int) }));
    let elem_of = |at: i32| ExpressionGE::RuntimeSizedArrayLookup(valen_borrowck::borrow_checker::ast_g::RuntimeSizedArrayLookupGE {
        range: rg(at),
        array_expr: Box::new(lookup(rg(at), a, whole(), whole())),
        index_expr: Box::new(ExpressionGE::ConstantInt(ConstantIntGE { range: rg(at), value: 0, bits: 32, result: KindGT::Int })),
        result: elem(),
    });
    let let_e = |name: StrI, at: i32| ExpressionGE::LetNormal(valen_borrowck::borrow_checker::ast_g::LetNormalGE {
        range: rg(at),
        variable: LocalVariableG { name: IVarNameT::Local(name), tyype: elem() },
        expr: Box::new(elem_of(at)),
        result: KindGT::Void,
    });
    // e1 = &a[0]; e2 = &a[0]; churn(a); observe(e2); observe(e1);
    let b = body(vec![
        let_e(e1, 10),
        let_e(e2, 20),
        call(rg(30), 11, vec![lookup(rg(36), a, whole(), whole())], vec![churn(rg(30), vec![rune(r)])], KindGT::Void),
        call(rg(40), 12, vec![lookup(rg(48), e2, elem(), elem())], vec![], KindGT::Void),
        call(rg(60), 12, vec![lookup(rg(68), e1, elem(), elem())], vec![], KindGT::Void),
        void(),
    ]);
    let c = compiler(i);
    let co = outputs(vec![]);
    match c.check_function(&co, &header(vec![borrow_param(a, r)], vec![r]), &b, &vec![], &vec![Some(vec![rune(r)])]) {
        Err(ICompileErrorT::BorrowCheckErrors { errors }) => {
            assert_eq!(errors.len(), 2);
            match (&errors[0], &errors[1]) {
                (ICompileErrorT::BorrowCheckError { range: first, kind: k1 }, ICompileErrorT::BorrowCheckError { range: second, kind: k2 }) => {
                    assert_eq!(*first, rg(48));
                    assert_eq!(*second, rg(68));
                    assert_eq!(*k1, BorrowErrorKind::UseAfterChurn { local: RefKey::Named(IVarNameT::Local(e2)), churned_at: rg(30) });
                    assert_eq!(*k2, BorrowErrorKind::UseAfterChurn { local: RefKey::Named(IVarNameT::Local(e1)), churned_at: rg(30) });
                }
                _ => panic!("expected two borrow errors"),
            }
        }
        other => panic!("expected two errors, got {:?}", other),
    }
}

#[test]
fn a_returned_borrow_needs_a_group() {
    let (i, _, _, _, _) = setup();
    let c = compiler(i);
    let co = outputs(vec![]);
    let mut f = header(vec![], vec![]);
    f.maybe_return_type = Some(ITypeST::BorrowRef(BorrowRefST { range: rg(77), inner: Box::new(ITypeST::Other), region: RegionS::Unspecified }));
    match c.check_function(&co, &f, &body(vec![void()]), &vec![], &vec![]) {
        Err(ICompileErrorT::BorrowCheckError { range, kind }) => {
            assert_eq!(range, rg(77));
            assert_eq!(kind, BorrowErrorKind::GrouplessReturnBorrow);
        }
        other => panic!("expected a groupless return, got {:?}", other),
    }
}

#[test]
fn aliasing_info_numbers_parameter_groups_first() {
    let (mut i, r, s, _, _) = setup();
    let tiles = i.intern("tiles");
    let l = i.intern("l");
    let c = compiler(i);
    let co = outputs(vec![]);
    let r_path = vec![rune(r)];
    let tiles_path = vec![rune(r), GroupStep::Member { member_name: tiles }, GroupStep::ChildElements];
    let local_path = vec![GroupStep::Local(IVarNameT::Local(l))];
    let log = vec![
        AccessEventG::Read { group: local_path.clone(), loct: loc(&[0, 3]) },
        AccessEventG::Store { group: tiles_path.clone(), loct: loc(&[0, 1]) },
        AccessEventG::Call { touched: vec![r_path.clone()], loct: loc(&[0, 2]) },
        AccessEventG::Marker { loct: loc(&[0, 0]) },
    ];
    // Two parameters in r, one in s, one that borrows into no group.
    let params = vec![Some(r_path.clone()), Some(r_path.clone()), Some(vec![rune(s)]), None];
    let info = match c.check_function(&co, &header(vec![], vec![]), &body(vec![void()]), &log, &params) {
        Ok(info) => info,
        Err(e) => panic!("{:?}", e),
    };
    // The two parameters in r alias each other; the one in s does not alias anything.
    assert_eq!(info.param_index_to_noalias, vec![false, false, true, false]);
    // r, s numbered first (even though s is never accessed), then l, then r.tiles[].
    assert_eq!(info.group_paths.len(), 4);
    assert_eq!(info.group_paths[0].steps, vec![GroupIdStepT::Rune(r)]);
    assert_eq!(info.group_paths[1].steps, vec![GroupIdStepT::Rune(s)]);
    assert_eq!(info.group_paths[2].steps, vec![GroupIdStepT::Local(l)]);
    assert_eq!(info.group_paths[3].steps, vec![GroupIdStepT::Rune(r), GroupIdStepT::Member(tiles), GroupIdStepT::Elements]);
    // Entries sorted by location: the store, the call (r and everything under it), the read.
    let entries: Vec<(Vec<i32>, Vec<u32>)> = info.instruction_loc_to_accessed_groups.iter().map(|(l, g)| (l.path.clone(), g.clone())).collect();
    assert_eq!(entries, vec![(vec![0, 1], vec![3]), (vec![0, 2], vec![0, 3]), (vec![0, 3], vec![2])]);
    let copied = c.copy_aliasing_info_to_typing_arena(&info);
    assert_eq!(copied.param_index_to_noalias, info.param_index_to_noalias);
    assert_eq!(copied.group_paths.len(), 4);
    assert_eq!(copied.instruction_loc_to_accessed_groups.len(), 3);
}
