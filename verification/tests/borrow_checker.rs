// Borrow-check scenarios: each builds the grouped body of the function under test, as the grouping
// pass would for the Vale source shown, runs the checker, and compares the verdict (and for a
// rejected program, the rendered diagnostic) with the expected one.

use valen_borrowck::borrow_checker::access_event::AccessEventG;
use valen_borrowck::borrow_checker::ast_g::{
    ArgLookupGE, BlockGE, ConsecutorGE, ConstantIntGE, ExpressionGE, FunctionCallGE, GroupStep, LetNormalGE,
    LocalLookupGE, LocalVariableG, MemberLookupGE, MutEffectPath, MutateGE, PrototypeT, ReturnGE,
    RuntimeSizedArrayLookupGE, VoidLiteralGE,
};
use valen_borrowck::borrow_checker::group_expr::{GroupChildStepG, GroupPathG, GroupRootG};
use valen_borrowck::borrow_checker::kind_g::{ArrayGT, BorrowRefGT, CitizenGT, GroupGT, KindGT};
use valen_borrowck::compiler_error_reporter::{render_borrow_check_error, ICompileErrorT};
use valen_borrowck::interner::{Interner, StrI};
use valen_borrowck::loc::LocT;
use valen_borrowck::names::{IRuneS, IVarNameT};
use valen_borrowck::postparsing::{BorrowRefST, EffectS, FunctionS, GroupS, ITypeST, ParameterS, RegionS};
use valen_borrowck::range::{CodeLocationS, RangeS};
use valen_borrowck::typing::compiler::{Compiler, CompilerOutputs, Keywords, TypingInterner};

const FILE: &str = "test:0.vale";

/// The range of `needle`'s first occurrence in `src`, starting `skip` characters into it.
fn at(src: &str, needle: &str, skip: usize) -> RangeS {
    let byte = src.find(needle).expect("needle in source");
    let begin = src[..byte].chars().count() + skip;
    let end = src[..byte].chars().count() + needle.chars().count();
    RangeS {
        begin: CodeLocationS { file: 0, offset: begin as i32 },
        end: CodeLocationS { file: 0, offset: end as i32 },
    }
}

fn loc(path: &[i32]) -> LocT {
    LocT { path: path.to_vec() }
}

fn entity() -> KindGT {
    KindGT::Struct(CitizenGT { id: 1, template: 1, template_args: vec![] })
}

fn int_array() -> KindGT {
    KindGT::RuntimeSizedArray(ArrayGT { element_type: Box::new(KindGT::Int) })
}

fn rune_path(r: StrI, steps: Vec<GroupChildStepG>, ellipsis: bool) -> GroupPathG {
    GroupPathG { root: GroupRootG::Rune(IRuneS::CodeRune(r)), steps, ellipsis }
}

fn local_path(name: StrI, steps: Vec<GroupChildStepG>, ellipsis: bool) -> GroupPathG {
    GroupPathG { root: GroupRootG::Local(IVarNameT::Local(name)), steps, ellipsis }
}

fn borrow(path: GroupPathG, inner: KindGT) -> KindGT {
    KindGT::BorrowRef(BorrowRefGT { group: GroupGT { group: vec![path] }, inner: Box::new(inner) })
}

/// A copy of a grouped kind (the grouped kinds carry no `Clone`).
fn kind_copy(k: &KindGT) -> KindGT {
    match k {
        KindGT::BorrowRef(b) => KindGT::BorrowRef(BorrowRefGT {
            group: GroupGT {
                group: b
                    .group
                    .group
                    .iter()
                    .map(|p| GroupPathG { root: p.root, steps: p.steps.clone(), ellipsis: p.ellipsis })
                    .collect(),
            },
            inner: Box::new(kind_copy(&b.inner)),
        }),
        KindGT::Struct(c) => KindGT::Struct(CitizenGT { id: c.id, template: c.template, template_args: vec![] }),
        KindGT::RuntimeSizedArray(a) => KindGT::RuntimeSizedArray(ArrayGT { element_type: Box::new(kind_copy(&a.element_type)) }),
        KindGT::Int => KindGT::Int,
        KindGT::Void => KindGT::Void,
        KindGT::Bool => KindGT::Bool,
        _ => panic!("kind not used by these scenarios"),
    }
}

fn local(name: StrI, kind: &KindGT) -> LocalVariableG {
    LocalVariableG { name: IVarNameT::Local(name), tyype: kind_copy(kind) }
}

/// A read of local `name` of kind `kind`.
fn lookup(range: RangeS, name: StrI, kind: &KindGT) -> ExpressionGE {
    ExpressionGE::LocalLookup(LocalLookupGE { range, loct: loc(&[0]), local_variable: local(name, kind), result: kind_copy(kind) })
}

/// `name = expr;`
fn let_local(range: RangeS, name: StrI, kind: &KindGT, expr: ExpressionGE) -> ExpressionGE {
    ExpressionGE::LetNormal(LetNormalGE { range, variable: local(name, kind), expr: Box::new(expr), result: KindGT::Void })
}

/// The head of a body: a parameter bound to its argument.
fn bind_param(range: RangeS, name: StrI, index: i32, kind: &KindGT) -> ExpressionGE {
    let_local(range, name, kind, ExpressionGE::ArgLookup(ArgLookupGE { range, param_index: index, result: kind_copy(kind) }))
}

fn int_lit(range: RangeS, value: i64) -> ExpressionGE {
    ExpressionGE::ConstantInt(ConstantIntGE { range, value, bits: 32, result: KindGT::Int })
}

fn churn_of(range: RangeS, steps: Vec<GroupStep>) -> MutEffectPath {
    MutEffectPath { effecting_node_loc: loc(&[1]), range, steps }
}

fn call(range: RangeS, callee: u32, args: Vec<ExpressionGE>, churns: Vec<MutEffectPath>, result: KindGT) -> ExpressionGE {
    ExpressionGE::FunctionCall(FunctionCallGE {
        range,
        parent_ranges: vec![range],
        loct: loc(&[2]),
        callable: PrototypeT { id: callee },
        args,
        mut_effects: churns,
        result,
    })
}

fn body(range: RangeS, exprs: Vec<ExpressionGE>) -> ExpressionGE {
    let inner = ExpressionGE::Consecutor(ConsecutorGE { range, exprs, result: KindGT::Void });
    ExpressionGE::Block(BlockGE { range, inner: Box::new(inner), result: KindGT::Void })
}

fn void(range: RangeS) -> ExpressionGE {
    ExpressionGE::VoidLiteral(VoidLiteralGE { range, result: KindGT::Void })
}

/// A borrow parameter `name &T in r`.
fn borrow_param(range: RangeS, name: StrI, r: StrI) -> ParameterS {
    ParameterS {
        name: IVarNameT::Local(name),
        tyype: ITypeST::BorrowRef(BorrowRefST { range, inner: Box::new(ITypeST::Other), region: RegionS::Group(GroupS::Rune(IRuneS::CodeRune(r))) }),
    }
}

fn value_param(name: StrI) -> ParameterS {
    ParameterS { name: IVarNameT::Local(name), tyype: ITypeST::Other }
}

fn header(range: RangeS, params: Vec<ParameterS>, muts: Vec<GroupS>) -> FunctionS {
    FunctionS { range, generic_params: vec![], params, effects: muts.into_iter().map(EffectS::Mut).collect(), maybe_return_type: None }
}

fn rune_group(r: StrI) -> GroupS {
    GroupS::Rune(IRuneS::CodeRune(r))
}

fn compiler(interner: Interner) -> Compiler {
    let drop = StrI(u32::MAX - 1);
    Compiler {
        interner,
        typing_interner: TypingInterner { locs: vec![] },
        keywords: Keywords { drop, e: drop, implicit_clone: drop },
    }
}

fn outputs(functions: Vec<(u32, FunctionS)>) -> CompilerOutputs {
    CompilerOutputs {
        functions,
        prototypes: vec![],
        structs: vec![],
        interfaces: vec![],
        return_types: vec![],
        impls: vec![],
        implicitly_cloneable: vec![],
        struct_templates: vec![],
        interface_templates: vec![],
    }
}

/// Check one function and insist it is clean.
fn assert_clean(c: &Compiler, co: &CompilerOutputs, f: &FunctionS, b: &ExpressionGE, params: Vec<Option<Vec<GroupStep>>>) {
    let log: Vec<AccessEventG> = vec![];
    match c.check_function(co, f, b, &log, &params) {
        Ok(info) => assert_eq!(info.param_index_to_noalias.len(), params.len()),
        Err(e) => panic!("expected a clean borrow check, got {:?}", e),
    }
}

/// Check one function and insist it is rejected with exactly the rendered diagnostic.
fn assert_renders(c: &Compiler, co: &CompilerOutputs, f: &FunctionS, b: &ExpressionGE, params: Vec<Option<Vec<GroupStep>>>, src: &str, expected: &str) {
    let log: Vec<AccessEventG> = vec![];
    match c.check_function(co, f, b, &log, &params) {
        Ok(_) => panic!("expected a borrow error"),
        Err(ICompileErrorT::BorrowCheckError { range, kind }) => {
            assert_eq!(render_borrow_check_error(&c.interner, FILE, src, range, &kind), expected);
        }
        Err(e) => panic!("expected one borrow error, got {:?}", e),
    }
}

const ATTACK_CALLEE: u32 = 10;

/// `attack<r'>(a &Entity in r, d &Entity in r) mut(r)` as a callee, and a `main` that calls it
/// with `&x` and `&y`.
fn main_calling_attack(src: &str, i: &mut Interner, calls: &[(&str, &str, &str)]) -> (CompilerOutputs, FunctionS, ExpressionGE) {
    let r = i.intern("r");
    let a = i.intern("a");
    let d = i.intern("d");
    let attack = header(at(src, "func attack", 0), vec![borrow_param(at(src, "a &Entity", 0), a, r), borrow_param(at(src, "d &Entity", 0), d, r)], vec![rune_group(r)]);
    let co = outputs(vec![(ATTACK_CALLEE, attack)]);
    let mut exprs = vec![];
    let mut declared: Vec<StrI> = vec![];
    for (call_text, x, y) in calls {
        for name in [*x, *y] {
            let n = i.intern(name);
            if !declared.contains(&n) {
                declared.push(n);
                let ctor = format!("{} = Entity(", name);
                let rg = at(src, &ctor, 0);
                exprs.push(let_local(rg, n, &entity(), call(rg, 99, vec![int_lit(rg, 5)], vec![], entity())));
            }
        }
        let rg = at(src, call_text, 0);
        let xn = i.intern(x);
        let yn = i.intern(y);
        let args = vec![
            lookup(rg, xn, &borrow(local_path(xn, vec![], false), entity())),
            lookup(rg, yn, &borrow(local_path(yn, vec![], false), entity())),
        ];
        let churns = vec![churn_of(rg, vec![GroupStep::Local(IVarNameT::Local(xn))]), churn_of(rg, vec![GroupStep::Local(IVarNameT::Local(yn))])];
        exprs.push(call(rg, ATTACK_CALLEE, args, churns, KindGT::Void));
    }
    let ret = at(src, "return 0;", 0);
    exprs.push(ExpressionGE::Return(ReturnGE { range: ret, source_expr: Box::new(int_lit(ret, 0)), result: KindGT::Never }));
    let main = header(at(src, "exported func main", 0), vec![], vec![]);
    (co, main, body(at(src, "exported func main", 0), exprs))
}

#[test]
fn test_common_group_attack_aliasing_call_is_safe() {
    let src = r#"
struct Entity { hp int; }
func attack<r'>(a &Entity in r, d &Entity in r) mut(r) { }
exported func main() int {
  e = Entity(5);
  attack(&e, &e);
  return 0;
}
"#;
    let mut i = Interner::new();
    let (co, main, b) = main_calling_attack(src, &mut i, &[("attack(&e, &e);", "e", "e")]);
    assert_clean(&compiler(i), &co, &main, &b, vec![]);
}

#[test]
fn test_disjoint_fields_attack_is_safe() {
    let src = r#"
struct Ship { fuel int; }
struct Fleet { flagship Ship; escort Ship; }
func attack2<r', s'>(a &Ship in r, d &Ship in s) mut(r) mut(s) { }
exported func main() int {
  fleet = Fleet(Ship(1), Ship(2));
  attack2(&fleet.flagship, &fleet.escort);
  return 0;
}
"#;
    let mut i = Interner::new();
    let r = i.intern("r");
    let s = i.intern("s");
    let a = i.intern("a");
    let d = i.intern("d");
    let fleet = i.intern("fleet");
    let flagship = i.intern("flagship");
    let escort = i.intern("escort");
    let attack2 = header(
        at(src, "func attack2", 0),
        vec![borrow_param(at(src, "a &Ship", 0), a, r), borrow_param(at(src, "d &Ship", 0), d, s)],
        vec![rune_group(r), rune_group(s)],
    );
    let co = outputs(vec![(ATTACK_CALLEE, attack2)]);
    let ship = KindGT::Struct(CitizenGT { id: 2, template: 2, template_args: vec![] });
    let fleet_kind = KindGT::Struct(CitizenGT { id: 3, template: 3, template_args: vec![] });
    let let_rg = at(src, "fleet = Fleet(", 0);
    let make = call(let_rg, 98, vec![], vec![], kind_copy(&fleet_kind));
    let call_rg = at(src, "attack2(&fleet", 0);
    let member_arg = |name: StrI, text: &str| {
        let rg = at(src, text, 0);
        let k = borrow(local_path(fleet, vec![GroupChildStepG::Member { member_name: name }], false), kind_copy(&ship));
        ExpressionGE::MemberLookup(MemberLookupGE {
            range: rg,
            struct_expr: Box::new(lookup(rg, fleet, &borrow(local_path(fleet, vec![], false), kind_copy(&fleet_kind)))),
            member_name: name,
            result: k,
        })
    };
    let args = vec![member_arg(flagship, "&fleet.flagship"), member_arg(escort, "&fleet.escort")];
    let churns = vec![
        churn_of(call_rg, vec![GroupStep::Local(IVarNameT::Local(fleet)), GroupStep::Member { member_name: flagship }]),
        churn_of(call_rg, vec![GroupStep::Local(IVarNameT::Local(fleet)), GroupStep::Member { member_name: escort }]),
    ];
    let ret = at(src, "return 0;", 0);
    let b = body(
        at(src, "exported func main", 0),
        vec![
            let_local(let_rg, fleet, &fleet_kind, make),
            call(call_rg, ATTACK_CALLEE, args, churns, KindGT::Void),
            ExpressionGE::Return(ReturnGE { range: ret, source_expr: Box::new(int_lit(ret, 0)), result: KindGT::Never }),
        ],
    );
    let main = header(at(src, "exported func main", 0), vec![], vec![]);
    assert_clean(&compiler(i), &co, &main, &b, vec![]);
}

/// The body of the method-call `attack<r'>(a &Entity in r, d &Entity in r) mut(r)`: each method
/// call borrows `a` or `d`, and `use_energy` and `damage` churn `r`.
fn method_attack(src: &str, i: &mut Interner) -> (FunctionS, ExpressionGE) {
    let r = i.intern("r");
    let a = i.intern("a");
    let d = i.intern("d");
    let in_r = borrow(rune_path(r, vec![], false), entity());
    let head = at(src, "func attack", 0);
    let arg = |name: StrI, text: &str, skip: usize| lookup(at(src, text, skip), name, &in_r);
    let read = |name: StrI, text: &str| lookup(at(src, text, 0), name, &KindGT::Int);
    let churn_r = |text: &str| churn_of(at(src, text, 1), vec![GroupStep::Rune(IRuneS::CodeRune(r))]);
    let a_power = i.intern("a_power");
    let a_cost = i.intern("a_energy_cost");
    let d_armor = i.intern("d_armor");
    let d_cost = i.intern("d_energy_cost");
    let exprs = vec![
        bind_param(head, a, 0, &in_r),
        bind_param(head, d, 1, &in_r),
        let_local(at(src, "a_power =", 0), a_power, &KindGT::Int,
            call(at(src, "a.calculate_attack_power", 1), 20, vec![arg(a, "a.calculate_attack_power", 0)], vec![], KindGT::Int)),
        let_local(at(src, "a_energy_cost =", 0), a_cost, &KindGT::Int,
            call(at(src, "a.calculate_attack_cost", 1), 21, vec![arg(a, "a.calculate_attack_cost", 0), arg(d, "calculate_attack_cost(d)", 22)], vec![], KindGT::Int)),
        let_local(at(src, "d_armor =", 0), d_armor, &KindGT::Int,
            call(at(src, "d.calculate_defense", 1), 22, vec![arg(d, "d.calculate_defense", 0)], vec![], KindGT::Int)),
        let_local(at(src, "d_energy_cost =", 0), d_cost, &KindGT::Int,
            call(at(src, "d.calculate_defend_cost", 1), 23, vec![arg(d, "d.calculate_defend_cost", 0), arg(a, "calculate_defend_cost(a)", 22)], vec![], KindGT::Int)),
        call(at(src, "a.use_energy", 1), 24, vec![arg(a, "a.use_energy", 0), read(a_cost, "(a_energy_cost)")], vec![churn_r("a.use_energy")], KindGT::Void),
        call(at(src, "d.use_energy", 1), 24, vec![arg(d, "d.use_energy", 0), read(d_cost, "(d_energy_cost)")], vec![churn_r("d.use_energy")], KindGT::Void),
        call(at(src, "d.damage", 1), 25, vec![
            arg(d, "d.damage", 0),
            call(at(src, "a_power - d_armor", 0), 26, vec![read(a_power, "a_power - d_armor"), read(d_armor, "d_armor)")], vec![], KindGT::Int),
        ], vec![churn_r("d.damage")], KindGT::Void),
        void(head),
    ];
    let f = header(head, vec![borrow_param(at(src, "a &Entity", 0), a, r), borrow_param(at(src, "d &Entity", 0), d, r)], vec![rune_group(r)]);
    (f, body(head, exprs))
}

/// Callee headers for the method-call attack program, by number.
fn method_callees(src: &str, i: &mut Interner) -> Vec<(u32, FunctionS)> {
    let r = i.intern("r");
    let this = i.intern("self");
    let d = i.intern("d");
    let a = i.intern("a");
    let cost = i.intern("cost");
    let amount = i.intern("amount");
    let rg = at(src, "func calculate_attack_power", 0);
    vec![
        (20, header(rg, vec![borrow_param(rg, this, r)], vec![])),
        (21, header(rg, vec![borrow_param(rg, this, r), borrow_param(rg, d, r)], vec![])),
        (22, header(rg, vec![borrow_param(rg, this, r)], vec![])),
        (23, header(rg, vec![borrow_param(rg, this, r), borrow_param(rg, a, r)], vec![])),
        (24, header(rg, vec![borrow_param(rg, this, r), value_param(cost)], vec![rune_group(r)])),
        (25, header(rg, vec![borrow_param(rg, this, r), value_param(amount)], vec![rune_group(r)])),
    ]
}

const METHOD_ATTACK_PRELUDE: &str = r#"
import v.builtins.arith.*;
struct Entity { hp int; energy int; }
func calculate_attack_power<r'>(self &Entity in r) int { return 5; }
func calculate_attack_cost<r'>(self &Entity in r, d &Entity in r) int { return 3; }
func calculate_defense<r'>(self &Entity in r) int { return 2; }
func calculate_defend_cost<r'>(self &Entity in r, a &Entity in r) int { return 1; }
func use_energy<r'>(self &Entity in r, cost int) mut(r) { }
func damage<r'>(self &Entity in r, amount int) mut(r) { }
func attack<r'>(a &Entity in r, d &Entity in r) mut(r) {
  a_power = a.calculate_attack_power();
  a_energy_cost = a.calculate_attack_cost(d);
  d_armor = d.calculate_defense();
  d_energy_cost = d.calculate_defend_cost(a);
  a.use_energy(a_energy_cost);
  d.use_energy(d_energy_cost);
  d.damage(a_power - d_armor);
}
"#;

#[test]
fn test_method_call_attack_distinct_entities() {
    let src = format!("{}{}", METHOD_ATTACK_PRELUDE, r#"exported func main() int {
  e = Entity(5, 100);
  e2 = Entity(6, 100);
  attack(&e, &e2);
  return 0;
}
"#);
    let mut i = Interner::new();
    let (attack_f, attack_b) = method_attack(&src, &mut i);
    let r = i.intern("r");
    let mut callees = method_callees(&src, &mut i);
    let (co_main, main, main_b) = main_calling_attack(&src, &mut i, &[("attack(&e, &e2);", "e", "e2")]);
    callees.extend(co_main.functions);
    let co = outputs(callees);
    let c = compiler(i);
    let r_path = vec![GroupStep::Rune(IRuneS::CodeRune(r))];
    assert_clean(&c, &co, &attack_f, &attack_b, vec![Some(r_path.clone()), Some(r_path)]);
    assert_clean(&c, &co, &main, &main_b, vec![]);
}

#[test]
fn test_method_call_attack_self_attack() {
    let src = format!("{}{}", METHOD_ATTACK_PRELUDE, r#"exported func main() int {
  e = Entity(5, 100);
  attack(&e, &e);
  return 0;
}
"#);
    let mut i = Interner::new();
    let (attack_f, attack_b) = method_attack(&src, &mut i);
    let r = i.intern("r");
    let mut callees = method_callees(&src, &mut i);
    let (co_main, main, main_b) = main_calling_attack(&src, &mut i, &[("attack(&e, &e);", "e", "e")]);
    callees.extend(co_main.functions);
    let co = outputs(callees);
    let c = compiler(i);
    let r_path = vec![GroupStep::Rune(IRuneS::CodeRune(r))];
    assert_clean(&c, &co, &attack_f, &attack_b, vec![Some(r_path.clone()), Some(r_path)]);
    assert_clean(&c, &co, &main, &main_b, vec![]);
}

#[test]
fn test_full_attack_program_is_safe() {
    let src = r#"
struct Entity { hp int; }
func attack<r'>(a &Entity in r, d &Entity in r) mut(r) {
  set a.hp = 1;
  set d.hp = 2;
}
exported func main() int {
  e = Entity(5);
  e2 = Entity(6);
  attack(&e, &e2);
  attack(&e, &e);
  return 0;
}
"#;
    let mut i = Interner::new();
    let r = i.intern("r");
    let a = i.intern("a");
    let d = i.intern("d");
    let hp = i.intern("hp");
    let in_r = borrow(rune_path(r, vec![], false), entity());
    let head = at(src, "func attack", 0);
    let set = |name: StrI, text: &str, value: i64| {
        let rg = at(src, text, 0);
        let member = ExpressionGE::MemberLookup(MemberLookupGE {
            range: rg,
            struct_expr: Box::new(lookup(rg, name, &in_r)),
            member_name: hp,
            result: KindGT::Int,
        });
        ExpressionGE::Mutate(MutateGE { range: rg, loct: loc(&[3]), destination_expr: Box::new(member), source_expr: Box::new(int_lit(rg, value)), result: KindGT::Int })
    };
    let attack_b = body(head, vec![bind_param(head, a, 0, &in_r), bind_param(head, d, 1, &in_r), set(a, "set a.hp", 1), set(d, "set d.hp", 2), void(head)]);
    let attack_f = header(head, vec![borrow_param(at(src, "a &Entity", 0), a, r), borrow_param(at(src, "d &Entity", 0), d, r)], vec![rune_group(r)]);
    let (co, main, main_b) = main_calling_attack(src, &mut i, &[("attack(&e, &e2);", "e", "e2"), ("attack(&e, &e);", "e", "e")]);
    let c = compiler(i);
    let r_path = vec![GroupStep::Rune(IRuneS::CodeRune(r))];
    assert_clean(&c, &co, &attack_f, &attack_b, vec![Some(r_path.clone()), Some(r_path)]);
    assert_clean(&c, &co, &main, &main_b, vec![]);
}

#[test]
fn test_attack_element_borrow_used_after_damage_churn_rejected() {
    let src = r#"
import v.builtins.arrays.*;
import v.builtins.drop.*;
#!DeriveStructDrop
struct Entity { hp int; buffs []int; }
func damage<r'>(self &Entity in r, amount int) mut(r) { }
func observe<T, g'>(x &T in g) { }
func attack<r'>(a &Entity in r, d &Entity in r) mut(r) {
  buff = &d.buffs[0];
  d.damage(5);
  observe(buff);
}
exported func main() int {
  e = Entity(5, Array<int>(3));
  attack(&e, &e);
  return 0;
}
"#;
    let mut i = Interner::new();
    let r = i.intern("r");
    let g = i.intern("g");
    let a = i.intern("a");
    let d = i.intern("d");
    let x = i.intern("x");
    let this = i.intern("self");
    let amount = i.intern("amount");
    let buffs = i.intern("buffs");
    let buff = i.intern("buff");
    let in_r = borrow(rune_path(r, vec![], false), entity());
    let buffs_kind = borrow(rune_path(r, vec![GroupChildStepG::Member { member_name: buffs }], false), int_array());
    let elem_kind = borrow(rune_path(r, vec![GroupChildStepG::Member { member_name: buffs }, GroupChildStepG::ChildElements {}], false), KindGT::Int);
    let head = at(src, "func attack", 0);
    let elem_rg = at(src, "&d.buffs[0]", 0);
    let element = ExpressionGE::RuntimeSizedArrayLookup(RuntimeSizedArrayLookupGE {
        range: elem_rg,
        array_expr: Box::new(ExpressionGE::MemberLookup(MemberLookupGE {
            range: elem_rg,
            struct_expr: Box::new(lookup(elem_rg, d, &in_r)),
            member_name: buffs,
            result: kind_copy(&buffs_kind),
        })),
        index_expr: Box::new(int_lit(elem_rg, 0)),
        result: kind_copy(&elem_kind),
    });
    let damage_rg = at(src, "d.damage(5);", 1);
    let observe_rg = at(src, "observe(buff);", 0);
    let b = body(head, vec![
        bind_param(head, a, 0, &in_r),
        bind_param(head, d, 1, &in_r),
        let_local(at(src, "buff =", 0), buff, &elem_kind, element),
        call(damage_rg, 30, vec![lookup(at(src, "d.damage", 0), d, &in_r), int_lit(damage_rg, 5)],
            vec![churn_of(damage_rg, vec![GroupStep::Rune(IRuneS::CodeRune(r))])], KindGT::Void),
        call(observe_rg, 31, vec![lookup(at(src, "observe(buff);", 8), buff, &elem_kind)], vec![], KindGT::Void),
        void(head),
    ]);
    let callee_rg = at(src, "func damage", 0);
    let co = outputs(vec![
        (30, header(callee_rg, vec![borrow_param(callee_rg, this, r), value_param(amount)], vec![rune_group(r)])),
        (31, header(callee_rg, vec![borrow_param(callee_rg, x, g)], vec![])),
    ]);
    let f = header(head, vec![borrow_param(at(src, "a &Entity", 0), a, r), borrow_param(at(src, "d &Entity", 0), d, r)], vec![rune_group(r)]);
    let c = compiler(i);
    let r_path = vec![GroupStep::Rune(IRuneS::CodeRune(r))];
    assert_renders(&c, &co, &f, &b, vec![Some(r_path.clone()), Some(r_path)], src,
        r#"At test:0.vale:11:11:
  observe(buff);
Used a borrow after invalidated.
Invalidated at test:0.vale:10:4:
  d.damage(5);
"#);
}

#[test]
fn test_borrow_struct_member_minimal_repro() {
    let src = r#"
struct Ship { fuel int; }
func peek<r'>(s &Ship in r) {
  f = &s.fuel;
}
exported func main() int {
  ship = Ship(5);
  peek(&ship);
  return 0;
}
"#;
    let mut i = Interner::new();
    let r = i.intern("r");
    let s = i.intern("s");
    let f = i.intern("f");
    let fuel = i.intern("fuel");
    let ship = KindGT::Struct(CitizenGT { id: 2, template: 2, template_args: vec![] });
    let in_r = borrow(rune_path(r, vec![], false), kind_copy(&ship));
    let fuel_kind = borrow(rune_path(r, vec![GroupChildStepG::Member { member_name: fuel }], false), KindGT::Int);
    let head = at(src, "func peek", 0);
    let member_rg = at(src, "&s.fuel", 0);
    let member = ExpressionGE::MemberLookup(MemberLookupGE {
        range: member_rg,
        struct_expr: Box::new(lookup(member_rg, s, &in_r)),
        member_name: fuel,
        result: kind_copy(&fuel_kind),
    });
    let b = body(head, vec![bind_param(head, s, 0, &in_r), let_local(at(src, "f =", 0), f, &fuel_kind, member), void(head)]);
    let peek = header(head, vec![borrow_param(at(src, "s &Ship", 0), s, r)], vec![]);
    let co = outputs(vec![]);
    let c = compiler(i);
    assert_clean(&c, &co, &peek, &b, vec![Some(vec![GroupStep::Rune(IRuneS::CodeRune(r))])]);
}

#[test]
fn test_array_element_borrow_used_after_churn_repro() {
    let src = r#"
func churn<r'>(a &[]int in r) mut(r) { }
func observe<T, g'>(x &T in g) { }
exported func peek<r'>(a &[]int in r) mut(r) {
  e = &a[0];
  churn(a);
  observe(e);
}
"#;
    let mut i = Interner::new();
    let r = i.intern("r");
    let g = i.intern("g");
    let a = i.intern("a");
    let e = i.intern("e");
    let x = i.intern("x");
    let in_r = borrow(rune_path(r, vec![], false), int_array());
    let elem_kind = borrow(rune_path(r, vec![GroupChildStepG::ChildElements {}], false), KindGT::Int);
    let head = at(src, "exported func peek", 0);
    let elem_rg = at(src, "&a[0]", 0);
    let element = ExpressionGE::RuntimeSizedArrayLookup(RuntimeSizedArrayLookupGE {
        range: elem_rg,
        array_expr: Box::new(lookup(elem_rg, a, &in_r)),
        index_expr: Box::new(int_lit(elem_rg, 0)),
        result: kind_copy(&elem_kind),
    });
    let churn_rg = at(src, "churn(a);", 0);
    let observe_rg = at(src, "observe(e);", 0);
    let b = body(head, vec![
        bind_param(head, a, 0, &in_r),
        let_local(at(src, "e =", 0), e, &elem_kind, element),
        call(churn_rg, 40, vec![lookup(at(src, "churn(a);", 6), a, &in_r)], vec![churn_of(churn_rg, vec![GroupStep::Rune(IRuneS::CodeRune(r))])], KindGT::Void),
        call(observe_rg, 41, vec![lookup(at(src, "observe(e);", 8), e, &elem_kind)], vec![], KindGT::Void),
        void(head),
    ]);
    let callee_rg = at(src, "func churn", 0);
    let co = outputs(vec![
        (40, header(callee_rg, vec![borrow_param(callee_rg, a, r)], vec![rune_group(r)])),
        (41, header(callee_rg, vec![borrow_param(callee_rg, x, g)], vec![])),
    ]);
    let peek = header(head, vec![borrow_param(at(src, "a &[]int in r) mut", 0), a, r)], vec![rune_group(r)]);
    let c = compiler(i);
    assert_renders(&c, &co, &peek, &b, vec![Some(vec![GroupStep::Rune(IRuneS::CodeRune(r))])], src,
        r#"At test:0.vale:7:11:
  observe(e);
Used a borrow after invalidated.
Invalidated at test:0.vale:6:3:
  churn(a);
"#);
}

/// A `main` over one array: `arr = Array<int>(3);`, optionally `other = Array<int>(3);`, then
/// `ref = <made>;`, a churn call that churns `churned` steps under the named array, and
/// `observe(ref);`.
struct EllipsisMain<'a> {
    src: &'a str,
    with_other: bool,
    made: &'a str,
    ref_path: Vec<GroupChildStepG>,
    ref_ellipsis: bool,
    churn_call: &'a str,
    churned_array: &'a str,
    churned_steps: Vec<GroupStep>,
}

fn ellipsis_main(m: EllipsisMain, i: &mut Interner) -> (FunctionS, ExpressionGE) {
    let src = m.src;
    let arr = i.intern("arr");
    let other = i.intern("other");
    let reff = i.intern("ref");
    let churned = i.intern(m.churned_array);
    let head = at(src, "exported func main", 0);
    let mut exprs = vec![];
    let arr_rg = at(src, "arr = Array", 0);
    exprs.push(let_local(arr_rg, arr, &int_array(), call(arr_rg, 50, vec![int_lit(arr_rg, 3)], vec![], int_array())));
    if m.with_other {
        let other_rg = at(src, "other = Array", 0);
        exprs.push(let_local(other_rg, other, &int_array(), call(other_rg, 50, vec![int_lit(other_rg, 3)], vec![], int_array())));
    }
    let ref_kind = borrow(local_path(arr, m.ref_path, m.ref_ellipsis), KindGT::Int);
    let made_rg = at(src, m.made, 0);
    let arr_borrow = borrow(local_path(arr, vec![], false), int_array());
    let made = if m.made.starts_with('&') {
        ExpressionGE::RuntimeSizedArrayLookup(RuntimeSizedArrayLookupGE {
            range: made_rg,
            array_expr: Box::new(lookup(made_rg, arr, &arr_borrow)),
            index_expr: Box::new(int_lit(made_rg, 0)),
            result: kind_copy(&ref_kind),
        })
    } else {
        call(made_rg, 51, vec![lookup(made_rg, arr, &arr_borrow)], vec![], kind_copy(&ref_kind))
    };
    exprs.push(let_local(at(src, "ref =", 0), reff, &ref_kind, made));
    let churn_rg = at(src, m.churn_call, 0);
    let mut steps = vec![GroupStep::Local(IVarNameT::Local(churned))];
    steps.extend(m.churned_steps);
    let churned_borrow = borrow(local_path(churned, vec![], false), int_array());
    exprs.push(call(churn_rg, 52, vec![lookup(churn_rg, churned, &churned_borrow)], vec![churn_of(churn_rg, steps)], KindGT::Void));
    let observe_rg = at(src, "observe(ref);", 0);
    exprs.push(call(observe_rg, 53, vec![lookup(at(src, "observe(ref);", 8), reff, &ref_kind)], vec![], KindGT::Void));
    let ret = at(src, "return 0;", 0);
    exprs.push(ExpressionGE::Return(ReturnGE { range: ret, source_expr: Box::new(int_lit(ret, 0)), result: KindGT::Never }));
    (header(head, vec![], vec![]), body(head, exprs))
}

fn ellipsis_callees(src: &str, i: &mut Interner) -> CompilerOutputs {
    let r = i.intern("r");
    let a = i.intern("a");
    let x = i.intern("x");
    let rg = at(src, "func ", 0);
    outputs(vec![
        (50, header(rg, vec![], vec![])),
        (51, header(rg, vec![borrow_param(rg, a, r)], vec![])),
        (52, header(rg, vec![borrow_param(rg, a, r)], vec![rune_group(r)])),
        (53, header(rg, vec![value_param(x)], vec![])),
    ])
}

#[test]
fn test_use_ellipsis_return_after_churn_rejected() {
    let src = r#"
import v.builtins.arrays.*;
import v.builtins.drop.*;
func churn<r'>(a &[]int in r) mut(r) { }
func peek<r'>(a &[]int in r) &int in r... { return &a[0]; }
func observe<T>(x &T) { }
exported func main() int {
  arr = Array<int>(3);
  ref = peek(&arr);
  churn(&arr);
  observe(ref);
  return 0;
}
"#;
    let mut i = Interner::new();
    let co = ellipsis_callees(src, &mut i);
    let (f, b) = ellipsis_main(EllipsisMain {
        src, with_other: false, made: "peek(&arr);", ref_path: vec![], ref_ellipsis: true,
        churn_call: "churn(&arr);", churned_array: "arr", churned_steps: vec![],
    }, &mut i);
    assert_renders(&compiler(i), &co, &f, &b, vec![], src, r#"At test:0.vale:11:11:
  observe(ref);
Used a borrow after invalidated.
Invalidated at test:0.vale:10:3:
  churn(&arr);
"#);
}

#[test]
fn test_ellipsis_ref_into_untouched_group_is_clean() {
    let src = r#"
import v.builtins.arrays.*;
import v.builtins.drop.*;
func churn<r'>(a &[]int in r) mut(r) { }
func peek<r'>(a &[]int in r) &int in r... { return &a[0]; }
func observe<T>(x &T) { }
exported func main() int {
  arr = Array<int>(3);
  other = Array<int>(3);
  ref = peek(&arr);
  churn(&other);
  observe(ref);
  return 0;
}
"#;
    let mut i = Interner::new();
    let co = ellipsis_callees(src, &mut i);
    let (f, b) = ellipsis_main(EllipsisMain {
        src, with_other: true, made: "peek(&arr);", ref_path: vec![], ref_ellipsis: true,
        churn_call: "churn(&other);", churned_array: "other", churned_steps: vec![],
    }, &mut i);
    assert_clean(&compiler(i), &co, &f, &b, vec![]);
}

#[test]
fn test_ellipsis_ref_invalidated_by_element_churn() {
    let src = r#"
import v.builtins.arrays.*;
import v.builtins.drop.*;
func churn_elems<r'>(a &[]int in r) mut(r[]) { }
func peek<r'>(a &[]int in r) &int in r... { return &a[0]; }
func observe<T>(x &T) { }
exported func main() int {
  arr = Array<int>(3);
  ref = peek(&arr);
  churn_elems(&arr);
  observe(ref);
  return 0;
}
"#;
    let mut i = Interner::new();
    let co = ellipsis_callees(src, &mut i);
    let (f, b) = ellipsis_main(EllipsisMain {
        src, with_other: false, made: "peek(&arr);", ref_path: vec![], ref_ellipsis: true,
        churn_call: "churn_elems(&arr);", churned_array: "arr", churned_steps: vec![GroupStep::ChildElements],
    }, &mut i);
    assert_renders(&compiler(i), &co, &f, &b, vec![], src, r#"At test:0.vale:11:11:
  observe(ref);
Used a borrow after invalidated.
Invalidated at test:0.vale:10:3:
  churn_elems(&arr);
"#);
}

#[test]
fn test_ellipsis_effect_invalidates_child_element() {
    let src = r#"
import v.builtins.arrays.*;
import v.builtins.drop.*;
func churn_ellipsis<r'>(a &[]int in r) mut(r...) { }
func observe<T>(x &T) { }
exported func main() int {
  arr = Array<int>(3);
  ref = &arr[0];
  churn_ellipsis(&arr);
  observe(ref);
  return 0;
}
"#;
    let mut i = Interner::new();
    let co = ellipsis_callees(src, &mut i);
    let (f, b) = ellipsis_main(EllipsisMain {
        src, with_other: false, made: "&arr[0];", ref_path: vec![GroupChildStepG::ChildElements {}], ref_ellipsis: false,
        churn_call: "churn_ellipsis(&arr);", churned_array: "arr", churned_steps: vec![],
    }, &mut i);
    assert_renders(&compiler(i), &co, &f, &b, vec![], src, r#"At test:0.vale:10:11:
  observe(ref);
Used a borrow after invalidated.
Invalidated at test:0.vale:9:3:
  churn_ellipsis(&arr);
"#);
}

#[test]
fn test_ellipsis_effect_spares_whole_array() {
    let src = r#"
import v.builtins.arrays.*;
import v.builtins.drop.*;
func churn_ellipsis<r'>(a &[]int in r) mut(r...) { }
func observe<T>(x &T) { }
exported func main() int {
  arr = Array<int>(3);
  whole = &arr;
  churn_ellipsis(&arr);
  observe(whole);
  return 0;
}
"#;
    let mut i = Interner::new();
    let co = ellipsis_callees(src, &mut i);
    let arr = i.intern("arr");
    let whole = i.intern("whole");
    let head = at(src, "exported func main", 0);
    let arr_rg = at(src, "arr = Array", 0);
    let whole_kind = borrow(local_path(arr, vec![], false), int_array());
    let churn_rg = at(src, "churn_ellipsis(&arr);", 0);
    let observe_rg = at(src, "observe(whole);", 0);
    let ret = at(src, "return 0;", 0);
    let b = body(head, vec![
        let_local(arr_rg, arr, &int_array(), call(arr_rg, 50, vec![int_lit(arr_rg, 3)], vec![], int_array())),
        let_local(at(src, "whole =", 0), whole, &whole_kind, lookup(at(src, "&arr;", 0), arr, &whole_kind)),
        call(churn_rg, 52, vec![lookup(churn_rg, arr, &whole_kind)], vec![churn_of(churn_rg, vec![GroupStep::Local(IVarNameT::Local(arr))])], KindGT::Void),
        call(observe_rg, 53, vec![lookup(at(src, "observe(whole);", 8), whole, &whole_kind)], vec![], KindGT::Void),
        ExpressionGE::Return(ReturnGE { range: ret, source_expr: Box::new(int_lit(ret, 0)), result: KindGT::Never }),
    ]);
    assert_clean(&compiler(i), &co, &header(head, vec![], vec![]), &b, vec![]);
}

#[test]
fn test_ancestor_churn_invalidates_nested_ellipsis() {
    let src = r#"
import v.builtins.arrays.*;
import v.builtins.drop.*;
func churn<r'>(a &[]int in r) mut(r) { }
func peek_deep<r'>(a &[]int in r) &int in r[]... { return &a[0]; }
func observe<T>(x &T) { }
exported func main() int {
  arr = Array<int>(3);
  ref = peek_deep(&arr);
  churn(&arr);
  observe(ref);
  return 0;
}
"#;
    let mut i = Interner::new();
    let co = ellipsis_callees(src, &mut i);
    let (f, b) = ellipsis_main(EllipsisMain {
        src, with_other: false, made: "peek_deep(&arr);", ref_path: vec![GroupChildStepG::ChildElements {}], ref_ellipsis: true,
        churn_call: "churn(&arr);", churned_array: "arr", churned_steps: vec![],
    }, &mut i);
    assert_renders(&compiler(i), &co, &f, &b, vec![], src, r#"At test:0.vale:11:11:
  observe(ref);
Used a borrow after invalidated.
Invalidated at test:0.vale:10:3:
  churn(&arr);
"#);
}
