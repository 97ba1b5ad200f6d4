// The typing-pass helpers: temporaries, dropping, coercions, lookups and generated bodies.

use valen_borrowck::compiler_error_reporter::ICompileErrorT;
use valen_borrowck::interner::{Interner, StrI};
use valen_borrowck::loc::LocT;
use valen_borrowck::names::IVarNameT;
use valen_borrowck::postparsing::{AtomSP, CaptureS, ITypeST, ParameterS};
use valen_borrowck::range::{CodeLocationS, RangeS};
use valen_borrowck::typing::ast::{FunctionEnvironmentT, ParameterT};
use valen_borrowck::typing::compiler::{Compiler, CompilerOutputs, ImplT, Keywords, TypingInterner};
use valen_borrowck::typing::env::{ITemplataT, NodeEnvironmentBox};
use valen_borrowck::typing::expression::local_helper::PendingTempDrops;
use valen_borrowck::typing::expression::call_compiler::FindFunctionResultT;
use valen_borrowck::typing::expression::optional_types::ResolveFunctionResultT;
use valen_borrowck::typing::expressions::{ExpressionTE, LocalVariableT, PrototypeTT};
use valen_borrowck::typing::types::{BorrowRefT, InterfaceTT, KindT, RuntimeSizedArrayTT, SharednessT, StaticSizedArrayTT, StructTT, TemplateArgsT};

fn rg(offset: i32) -> RangeS {
    RangeS { begin: CodeLocationS { file: 0, offset }, end: CodeLocationS { file: 0, offset: offset + 1 } }
}

fn loc(path: &[i32]) -> LocT {
    LocT { path: path.to_vec() }
}

fn compiler() -> Compiler {
    let mut interner = Interner::new();
    let drop = interner.intern("drop");
    let e = interner.intern("E");
    let implicit_clone = interner.intern("implicit_clone");
    Compiler { interner, typing_interner: TypingInterner { locs: vec![] }, keywords: Keywords { drop, e, implicit_clone } }
}

fn outputs() -> CompilerOutputs {
    CompilerOutputs {
        functions: vec![],
        prototypes: vec![],
        structs: vec![],
        interfaces: vec![],
        return_types: vec![],
        impls: vec![],
        implicitly_cloneable: vec![],
        struct_templates: vec![],
        interface_templates: vec![],
    }
}

fn ship() -> KindT {
    KindT::Struct(StructTT { id: 7, template: 7, template_args: TemplateArgsT::Nil })
}

fn borrow_of(k: KindT) -> KindT {
    KindT::BorrowRef(BorrowRefT { inner: Box::new(k) })
}

fn local(c: &mut Compiler, name: &str, tyype: KindT) -> LocalVariableT {
    LocalVariableT { name: IVarNameT::Local(c.interner.intern(name)), tyype }
}

fn drop_of(c: &Compiler, id: u32, k: KindT) -> PrototypeTT {
    PrototypeTT { id, name: c.keywords.drop, params: vec![k], return_type: KindT::Void }
}

#[test]
fn pending_temp_drops_come_out_last_made_first() {
    let mut c = compiler();
    let a = local(&mut c, "a", KindT::Int { bits: 32 });
    let b = local(&mut c, "b", KindT::Bool);
    let x = local(&mut c, "x", KindT::Str);
    let mut ours = PendingTempDrops::of_one(a.copy());
    ours.push(b.copy());
    let mut child = PendingTempDrops::none();
    child.push(x.copy());
    ours.absorb(child);
    let vars = ours.take_vars();
    assert_eq!(vars.len(), 3);
    assert_eq!(vars[0].name, x.name);
    assert_eq!(vars[1].name, b.name);
    assert_eq!(vars[2].name, a.name);
    PendingTempDrops::none().defuse_on_error();
}

#[test]
fn temporaries_are_named_by_their_location() {
    let mut c = compiler();
    let mut nenv = NodeEnvironmentBox::new();
    let first = c.make_temporary_local(&mut nenv, &loc(&[1, 2]), KindT::Bool);
    let again = c.make_temporary_local(&mut nenv, &loc(&[1, 2]), KindT::Bool);
    let other = c.make_temporary_local(&mut nenv, &loc(&[3]), KindT::Bool);
    assert_eq!(first.name, IVarNameT::TypingPassTemporaryVarName(0));
    assert_eq!(again.name, first.name);
    assert_eq!(other.name, IVarNameT::TypingPassTemporaryVarName(1));
    assert_eq!(c.typing_interner.locs.len(), 2);
    assert_eq!(nenv.declared_locals.len(), 3);
}

#[test]
fn lending_a_value_makes_one_pending_temporary() {
    let mut c = compiler();
    let co = outputs();
    let mut nenv = NodeEnvironmentBox::new();
    let value = ExpressionTE::ConstantInt { range: rg(4), value: 2, bits: 32 };
    let (lend, pending) = c.make_temporary_local_borrow(&co, &mut nenv, &vec![rg(4)], &loc(&[5]), value).unwrap();
    match &lend {
        ExpressionTE::LetAndLend { range, loct, variable, expr } => {
            assert_eq!(*range, rg(4));
            assert_eq!(loct.path, vec![5]);
            assert_eq!(variable.name, IVarNameT::TypingPassTemporaryVarName(0));
            assert!(matches!(**expr, ExpressionTE::ConstantInt { value: 2, .. }));
        }
        _ => panic!("expected a lend"),
    }
    assert!(matches!(lend.result(), KindT::BorrowRef(_)));
    let vars = pending.take_vars();
    assert_eq!(vars.len(), 1);
    assert_eq!(vars[0].name, IVarNameT::TypingPassTemporaryVarName(0));
}

#[test]
fn a_declared_local_is_found_by_name() {
    let mut c = compiler();
    let co = outputs();
    let mut nenv = NodeEnvironmentBox::new();
    let name = IVarNameT::Local(c.interner.intern("hp"));
    let v = c.make_user_local_variable(&co, &mut nenv, &vec![rg(0)], name, KindT::Int { bits: 32 });
    assert_eq!(v.name, name);
    assert_eq!(nenv.get_variable(name).map(|l| l.name), Some(name));
    assert!(nenv.get_variable(IVarNameT::SelfName).is_none());
}

#[test]
fn dropping_by_kind() {
    let mut c = compiler();
    let mut co = outputs();
    co.prototypes.push(drop_of(&c, 40, ship()));
    let range = vec![rg(9)];
    let never = ExpressionTE::Return { range: rg(1), expr: Box::new(ExpressionTE::VoidLiteral { range: rg(1) }) };
    assert!(matches!(c.drop(&co, &range, &loc(&[0]), never).unwrap(), ExpressionTE::Return { .. }));
    let int32 = ExpressionTE::ConstantInt { range: rg(2), value: 1, bits: 32 };
    match c.drop(&co, &range, &loc(&[0]), int32).unwrap() {
        ExpressionTE::Discard { range, .. } => assert_eq!(range, rg(9)),
        _ => panic!("expected a discard"),
    }
    let v = local(&mut c, "s", ship());
    let owned = ExpressionTE::Unlet { range: rg(3), variable: v };
    match c.drop(&co, &range, &loc(&[6]), owned).unwrap() {
        ExpressionTE::FunctionCall { callable, args, loct, .. } => {
            assert_eq!(callable.id, 40);
            assert_eq!(args.len(), 1);
            assert_eq!(loct.path, vec![6]);
        }
        _ => panic!("expected a call of drop"),
    }
    let iface = local(&mut c, "i", KindT::Interface(InterfaceTT { id: 3, template: 3, template_args: TemplateArgsT::Nil }));
    match c.drop(&co, &range, &loc(&[0]), ExpressionTE::Unlet { range: rg(3), variable: iface }) {
        Err(ICompileErrorT::CouldntFindFunctionToCallT { range }) => assert_eq!(range, vec![rg(9)]),
        other => panic!("expected a missing drop, got {:?}", other),
    }
    match c.get_drop_function(&co, &range, &ship()) {
        Ok(p) => assert_eq!(p.id, 40),
        Err(e) => panic!("{:?}", e),
    }
}

#[test]
fn unlet_and_drop_all_drops_in_order() {
    let mut c = compiler();
    let mut co = outputs();
    co.prototypes.push(drop_of(&c, 41, ship()));
    let mut nenv = NodeEnvironmentBox::new();
    let a = local(&mut c, "a", KindT::Int { bits: 32 });
    let s = local(&mut c, "s", ship());
    let dropped = c.unlet_and_drop_all(&co, &mut nenv, &loc(&[2]), &vec![rg(0)], &vec![a.copy(), s.copy()]).unwrap();
    assert_eq!(dropped.len(), 2);
    assert!(matches!(dropped[0], ExpressionTE::Discard { .. }));
    match &dropped[1] {
        ExpressionTE::FunctionCall { loct, callable, .. } => {
            assert_eq!(loct.path, vec![2, 1]);
            assert_eq!(callable.id, 41);
        }
        _ => panic!("expected a drop call"),
    }
    assert_eq!(nenv.unstackified_locals, vec![a.name, s.name]);
    let unlets = c.unlet_all_without_dropping(&co, &mut nenv, &vec![rg(7)], &vec![a.copy()]);
    assert!(matches!(&unlets[0], ExpressionTE::Unlet { range, .. } if *range == rg(7)));
}

#[test]
fn drop_since_drops_the_last_declared_first() {
    let mut c = compiler();
    let co = outputs();
    let mut nenv = NodeEnvironmentBox::new();
    let a = local(&mut c, "a", KindT::Int { bits: 32 });
    let b = local(&mut c, "b", KindT::Bool);
    let range = vec![rg(11)];
    // No locals: the value itself.
    let same = c.drop_since(&co, &mut nenv, &range, &loc(&[0]), ExpressionTE::VoidLiteral { range: rg(1) }, vec![]).unwrap();
    assert!(matches!(same, ExpressionTE::VoidLiteral { .. }));
    // A void block: value, drops (b before a), then a void.
    let void_block = c.drop_since(&co, &mut nenv, &range, &loc(&[0]), ExpressionTE::VoidLiteral { range: rg(1) }, vec![a.copy(), b.copy()]).unwrap();
    match &void_block {
        ExpressionTE::Consecutor { exprs, .. } => {
            assert_eq!(exprs.len(), 4);
            match &exprs[1] {
                ExpressionTE::Discard { expr, .. } => assert!(matches!(&**expr, ExpressionTE::Unlet { variable, .. } if variable.name == b.name)),
                _ => panic!("expected b dropped first"),
            }
            assert!(matches!(exprs[3], ExpressionTE::VoidLiteral { .. }));
        }
        _ => panic!("expected a consecutor"),
    }
    // A value block: the value held in a result local, the drops, then the result moved out.
    let value_block = c.drop_since(&co, &mut nenv, &range, &loc(&[4]), ExpressionTE::ConstantInt { range: rg(1), value: 3, bits: 32 }, vec![a.copy()]).unwrap();
    match &value_block {
        ExpressionTE::Consecutor { exprs, .. } => {
            assert_eq!(exprs.len(), 3);
            let held = match &exprs[0] {
                ExpressionTE::LetNormal { variable, .. } => variable.name,
                _ => panic!("expected the value held"),
            };
            assert!(matches!(held, IVarNameT::TypingPassBlockResultVarName(_)));
            assert!(matches!(&exprs[2], ExpressionTE::Unlet { variable, .. } if variable.name == held));
        }
        _ => panic!("expected a consecutor"),
    }
    // A block that never returns leaves its locals undropped, only moved out.
    let before = nenv.unstackified_locals.len();
    let never = ExpressionTE::Return { range: rg(1), expr: Box::new(ExpressionTE::VoidLiteral { range: rg(1) }) };
    let kept = c.drop_since(&co, &mut nenv, &range, &loc(&[0]), never, vec![a.copy(), b.copy()]).unwrap();
    assert!(matches!(kept, ExpressionTE::Return { .. }));
    assert_eq!(nenv.unstackified_locals.len(), before + 2);
    assert_eq!(nenv.unstackified_locals[before], b.name);
}

#[test]
fn resultify_holds_the_value() {
    let mut c = compiler();
    let mut nenv = NodeEnvironmentBox::new();
    let (held, var) = c.resultify_expressions(&mut nenv, rg(3), &loc(&[8]), ExpressionTE::ConstantInt { range: rg(3), value: 1, bits: 64 });
    assert!(matches!(held, ExpressionTE::LetNormal { .. }));
    assert!(matches!(var.tyype, KindT::Int { bits: 64 }));
    assert_eq!(var.name, IVarNameT::TypingPassBlockResultVarName(0));
    assert_eq!(c.typing_interner.locs, vec![vec![8]]);
}

#[test]
fn weak_alias_rejects_a_single_owned_struct() {
    let mut c = compiler();
    let mut co = outputs();
    co.structs.push((7, SharednessT::Single));
    let v = local(&mut c, "s", ship());
    match c.weak_alias(&co, &vec![rg(2), rg(3)], ExpressionTE::Unlet { range: rg(1), variable: v }) {
        Err(ICompileErrorT::TookWeakRefOfNonWeakableError { range }) => assert_eq!(range, vec![rg(2), rg(3)]),
        other => panic!("expected the weakable error, got {:?}", other),
    }
}

#[test]
fn overload_set_value_is_a_reinterpreted_void() {
    let c = compiler();
    let name = StrI(5);
    match c.new_global_function_group_expression(rg(6), name) {
        ExpressionTE::Reinterpret { expr, result, .. } => {
            assert!(matches!(*expr, ExpressionTE::VoidLiteral { .. }));
            assert!(matches!(result, KindT::OverloadSet(5)));
        }
        _ => panic!("expected a reinterpret"),
    }
}

#[test]
fn loads_decay_double_borrows_and_read_compile_time_values() {
    let mut c = compiler();
    let mut nenv = NodeEnvironmentBox::new();
    let plain = local(&mut c, "p", ship());
    let lent = local(&mut c, "q", borrow_of(ship()));
    let moved = local(&mut c, "m", ship());
    nenv.add_variable(plain.copy());
    nenv.add_variable(lent.copy());
    nenv.add_variable(moved.copy());
    nenv.mark_local_unstackified(moved.name);
    let n = IVarNameT::Local(c.interner.intern("N"));
    nenv.templatas.push((n, ITemplataT::Integer(12)));
    let ranges = vec![rg(1)];
    match c.evaluate_lookup_for_load(&nenv, &loc(&[0]), &ranges, plain.name).unwrap() {
        Some(ExpressionTE::LocalLookup { variable, .. }) => assert_eq!(variable.name, plain.name),
        other => panic!("expected a lookup, got {:?}", other),
    }
    let decayed = c.evaluate_lookup_for_load(&nenv, &loc(&[0]), &ranges, lent.name).unwrap().unwrap();
    assert!(matches!(decayed, ExpressionTE::Deref { .. }));
    assert!(matches!(decayed.result(), KindT::BorrowRef(b) if matches!(*b.inner, KindT::Struct(_))));
    match c.evaluate_lookup_for_load(&nenv, &loc(&[0]), &ranges, moved.name) {
        Err(ICompileErrorT::CantUseUnstackifiedLocal { local_id, .. }) => assert_eq!(local_id, moved.name),
        other => panic!("expected the moved-out error, got {:?}", other),
    }
    assert!(matches!(c.evaluate_lookup_for_load(&nenv, &loc(&[0]), &ranges, n).unwrap(), Some(ExpressionTE::ConstantInt { value: 12, .. })));
    assert!(c.evaluate_lookup_for_load(&nenv, &loc(&[0]), &ranges, IVarNameT::SelfName).unwrap().is_none());
    assert!(matches!(c.evaluate_addressible_lookup_for_mutate(&nenv, &loc(&[0]), &ranges, rg(4), plain.name), Some(ExpressionTE::LocalLookup { range, .. }) if range == rg(4)));
    assert!(c.evaluate_addressible_lookup_for_mutate(&nenv, &loc(&[0]), &ranges, rg(4), IVarNameT::SelfName).is_none());
}

#[test]
fn convert_follows_the_coercion_table() {
    let mut c = compiler();
    let mut co = outputs();
    let animal = KindT::Interface(InterfaceTT { id: 8, template: 8, template_args: TemplateArgsT::Nil });
    co.impls.push(ImplT { sub: ship(), sup: KindT::Interface(InterfaceTT { id: 8, template: 8, template_args: TemplateArgsT::Nil }), impl_id: 77, is_bound: false });
    co.implicitly_cloneable.push(KindT::Int { bits: 32 });
    let mut nenv = NodeEnvironmentBox::new();
    let range = vec![rg(3)];
    let int32 = KindT::Int { bits: 32 };
    // Same kind: unchanged.
    let same = c.convert(&mut nenv, &loc(&[0]), &co, &range, ExpressionTE::ConstantInt { range: rg(1), value: 1, bits: 32 }, &int32).unwrap();
    assert!(matches!(same, ExpressionTE::ConstantInt { .. }));
    // A borrow of a cloneable primitive: copied out.
    let bi = local(&mut c, "bi", borrow_of(KindT::Int { bits: 32 }));
    let copied = c.convert(&mut nenv, &loc(&[0]), &co, &range, ExpressionTE::Unlet { range: rg(1), variable: bi }, &int32).unwrap();
    assert!(matches!(copied, ExpressionTE::CopyPrim { .. }));
    // A borrow of a citizen to a borrow of an interface it implements: upcast.
    let bs = local(&mut c, "bs", borrow_of(ship()));
    let up = c.convert(&mut nenv, &loc(&[0]), &co, &range, ExpressionTE::Unlet { range: rg(1), variable: bs }, &borrow_of(KindT::Interface(InterfaceTT { id: 8, template: 8, template_args: TemplateArgsT::Nil }))).unwrap();
    match &up {
        ExpressionTE::UpcastInterface { impl_id, .. } => assert_eq!(*impl_id, 77),
        _ => panic!("expected an upcast"),
    }
    assert!(matches!(up.result(), KindT::BorrowRef(b) if matches!(*b.inner, KindT::Interface(InterfaceTT { id: 8, .. }))));
    // Unrelated citizens: the upcast error; a primitive to a citizen: the conversion error.
    let other = local(&mut c, "o", KindT::Struct(StructTT { id: 9, template: 9, template_args: TemplateArgsT::Nil }));
    assert!(matches!(c.convert(&mut nenv, &loc(&[0]), &co, &range, ExpressionTE::Unlet { range: rg(1), variable: other }, &animal), Err(ICompileErrorT::CouldntUpcastT { .. })));
    assert!(matches!(c.convert(&mut nenv, &loc(&[0]), &co, &range, ExpressionTE::ConstantInt { range: rg(1), value: 1, bits: 32 }, &ship()), Err(ICompileErrorT::CouldntConvertT { .. })));
    // A borrow of a citizen to the citizen itself, with no implicit_clone: the missing-clone error.
    let bs2 = local(&mut c, "bs2", borrow_of(ship()));
    assert!(matches!(c.convert(&mut nenv, &loc(&[0]), &co, &range, ExpressionTE::Unlet { range: rg(1), variable: bs2 }, &ship()), Err(ICompileErrorT::NoImplicitCloneDefinedT { .. })));
    // With an implicit_clone for it: a call.
    co.prototypes.push(PrototypeTT { id: 60, name: c.keywords.implicit_clone, params: vec![borrow_of(ship())], return_type: ship() });
    let bs3 = local(&mut c, "bs3", borrow_of(ship()));
    assert!(matches!(c.convert(&mut nenv, &loc(&[0]), &co, &range, ExpressionTE::Unlet { range: rg(1), variable: bs3 }, &ship()), Ok(ExpressionTE::FunctionCall { .. })));
    // A share of a kind to a borrow of it: relabeled.
    let sh = local(&mut c, "sh", KindT::ShareRef(BorrowRefT { inner: Box::new(KindT::Str) }));
    assert!(matches!(c.convert(&mut nenv, &loc(&[0]), &co, &range, ExpressionTE::Unlet { range: rg(1), variable: sh }, &borrow_of(KindT::Str)), Ok(ExpressionTE::Reinterpret { .. })));
    // A list: each converted at its own location.
    let listed = c.convert_exprs(&mut nenv, &loc(&[1]), &co, &range, vec![ExpressionTE::ConstantInt { range: rg(1), value: 1, bits: 32 }], &vec![KindT::Int { bits: 32 }]).unwrap();
    assert_eq!(listed.len(), 1);
}

#[test]
fn body_head_binds_each_parameter() {
    let mut c = compiler();
    let co = outputs();
    let mut nenv = NodeEnvironmentBox::new();
    let a = IVarNameT::Local(c.interner.intern("a"));
    let b = IVarNameT::Local(c.interner.intern("b"));
    let params_1 = vec![ParameterS { name: a, tyype: ITypeST::Other }, ParameterS { name: b, tyype: ITypeST::Other }];
    let params_2 = vec![ParameterT { name: a, tyype: KindT::Bool }, ParameterT { name: b, tyype: ship() }];
    let head = c.evaluate_lets(&mut nenv, &co, &loc(&[0]), &vec![rg(2)], &params_1, &params_2);
    match &head {
        ExpressionTE::Consecutor { exprs, .. } => {
            assert_eq!(exprs.len(), 3);
            match &exprs[1] {
                ExpressionTE::LetNormal { variable, expr, .. } => {
                    assert_eq!(variable.name, b);
                    assert!(matches!(&**expr, ExpressionTE::ArgLookup { index: 1, loct, .. } if loct.path == vec![0, 1]));
                }
                _ => panic!("expected a let"),
            }
            assert!(matches!(exprs[2], ExpressionTE::VoidLiteral { .. }));
        }
        _ => panic!("expected a consecutor"),
    }
    assert_eq!(nenv.declared_locals.len(), 2);
    c.check_types(&vec![KindT::Bool, ship()], &vec![KindT::Bool, KindT::Never], true);
}

#[test]
fn generated_array_builtins() {
    let c = compiler();
    let mut co = outputs();
    let env = FunctionEnvironmentT { id: 90, template_args: TemplateArgsT::Nil, templata: 91, rune_kinds: vec![(c.keywords.e, KindT::Bool)] };
    let ssa = KindT::StaticSizedArray(StaticSizedArrayTT { size: 4, element_type: Box::new(KindT::Bool) });
    let (h, body) = c.generate_function_body_ssa_len(&mut co, &env, &loc(&[0]), &vec![ParameterT { name: IVarNameT::SelfName, tyype: borrow_of(ssa) }], Some(KindT::Int { bits: 32 }));
    assert_eq!(h.id, 90);
    assert_eq!(h.maybe_origin_function_templata, Some(91));
    assert_eq!(co.return_types.len(), 1);
    match body {
        ExpressionTE::Block { inner, .. } => match *inner {
            ExpressionTE::Consecutor { exprs, .. } => {
                assert!(matches!(&exprs[1], ExpressionTE::Return { expr, .. } if matches!(**expr, ExpressionTE::ConstantInt { value: 4, bits: 32, .. })));
            }
            _ => panic!("expected a consecutor"),
        },
        _ => panic!("expected a block"),
    }
    let rsa = KindT::RuntimeSizedArray(RuntimeSizedArrayTT { element_type: Box::new(ship()) });
    let (_, pop) = c.generate_function_body_rsa_pop(&mut co, &env, &loc(&[0]), &vec![ParameterT { name: IVarNameT::SelfName, tyype: rsa }], Some(ship()));
    assert!(matches!(pop.result(), KindT::Never));
    match pop {
        ExpressionTE::Block { inner, .. } => match *inner {
            ExpressionTE::Return { expr, .. } => assert!(matches!(expr.result(), KindT::Struct(StructTT { id: 7, .. }))),
            _ => panic!("expected a return"),
        },
        _ => panic!("expected a block"),
    }
    let (_, made) = c.generate_function_body_rsa_new(&mut co, &env, &loc(&[0]), &vec![ParameterT { name: IVarNameT::SelfName, tyype: KindT::Int { bits: 32 } }], Some(KindT::Void));
    match made {
        ExpressionTE::Block { inner, .. } => match *inner {
            ExpressionTE::Return { expr, .. } => assert!(matches!(expr.result(), KindT::RuntimeSizedArray(a) if matches!(*a.element_type, KindT::Bool))),
            _ => panic!("expected a return"),
        },
        _ => panic!("expected a block"),
    }
    assert_eq!(co.return_types.len(), 2);
    let ssa_t = StaticSizedArrayTT { size: 4, element_type: Box::new(KindT::Bool) };
    let element = c.load_from_static_sized_array(rg(1), &loc(&[3]), &ssa_t, ExpressionTE::VoidLiteral { range: rg(1) }, 2);
    assert!(matches!(element, ExpressionTE::StaticSizedArrayLookup { ref index_expr, .. } if matches!(**index_expr, ExpressionTE::ConstantInt { value: 2, .. })));
    assert!(matches!(element.result(), KindT::Bool));
}

#[test]
fn interning_twice_gives_one_handle() {
    let mut i = Interner::new();
    let a = i.intern("abc");
    let b = i.intern("xyz");
    let again = i.intern("abc");
    assert_eq!(a, again);
    assert_ne!(a, b);
    assert_eq!(i.strings.len(), 2);
    assert_eq!(i.lookup(b), "xyz");
    let mut t = TypingInterner { locs: vec![] };
    let h1 = t.intern_loc(&loc(&[1, 2]));
    let h2 = t.intern_loc(&loc(&[1, 2]));
    assert_eq!(h1, h2);
    assert_eq!(t.locs.len(), 1);
}

#[test]
fn abstract_body_calls_the_override_with_its_own_arguments() {
    let c = compiler();
    let env = FunctionEnvironmentT { id: 40, template_args: TemplateArgsT::Nil, templata: 41, rune_kinds: vec![] };
    let animal = KindT::Interface(InterfaceTT { id: 8, template: 8, template_args: TemplateArgsT::Nil });
    let params = vec![
        ParameterT { name: IVarNameT::SelfName, tyype: borrow_of(animal.copy()) },
        ParameterT { name: IVarNameT::ClosureParamName, tyype: KindT::Int { bits: 32 } },
    ];
    let found = PrototypeTT { id: 42, name: c.keywords.e, params: vec![borrow_of(animal), KindT::Int { bits: 32 }], return_type: KindT::Bool };
    let (h, body) = c.generate_function_body_abstract_body(&env, &loc(&[3]), None, &params, Some(KindT::Bool), &found);
    assert_eq!(h.id, 40);
    assert_eq!(h.params.len(), 2);
    assert!(matches!(h.return_type, KindT::Bool));
    assert_eq!(h.maybe_origin_function_templata, None);
    match body {
        ExpressionTE::Block { inner, .. } => match *inner {
            ExpressionTE::Return { expr, .. } => match *expr {
                ExpressionTE::InterfaceFunctionCall { args, result, range } => {
                    assert_eq!(range.begin.offset, -70100);
                    assert!(matches!(result, KindT::Bool));
                    assert_eq!(args.len(), 2);
                    match &args[1] {
                        ExpressionTE::ArgLookup { index, loct, tyype, .. } => {
                            assert_eq!(*index, 1);
                            assert_eq!(loct.path, vec![3, 1]);
                            assert!(matches!(tyype, KindT::Int { bits: 32 }));
                        },
                        other => panic!("argument is {:?}", other),
                    }
                },
                other => panic!("returns {:?}", other),
            },
            other => panic!("block holds {:?}", other),
        },
        other => panic!("body is {:?}", other),
    }
}

#[test]
fn conversions_and_drops_that_build_nothing_need_no_range() {
    let c = compiler();
    let co = outputs();
    let mut nenv = NodeEnvironmentBox::new();
    let same = c.convert(&mut nenv, &loc(&[0]), &co, &vec![], ExpressionTE::ConstantInt { range: rg(1), value: 4, bits: 32 }, &KindT::Int { bits: 32 });
    assert!(matches!(same, Ok(ExpressionTE::ConstantInt { value: 4, .. })));
    let never = ExpressionTE::Return { range: rg(2), expr: Box::new(ExpressionTE::VoidLiteral { range: rg(3) }) };
    assert!(matches!(c.drop(&co, &vec![], &loc(&[0]), never).unwrap(), ExpressionTE::Return { .. }));
}

fn overload_set() -> ExpressionTE {
    ExpressionTE::Reinterpret { range: rg(1), expr: Box::new(ExpressionTE::VoidLiteral { range: rg(1) }), result: KindT::OverloadSet(3) }
}

#[test]
fn failed_downcast_names_the_unrelated_kinds() {
    let mut c = compiler();
    let co = outputs();
    let mut nenv = NodeEnvironmentBox::new();
    let animal = KindT::Interface(InterfaceTT { id: 8, template: 8, template_args: TemplateArgsT::Nil });
    let resolved = FindFunctionResultT::NotFound { called_as: true, isa_failures: vec![(ship(), animal)] };
    match c.evaluate_call(&co, &mut nenv, &loc(&[0]), &vec![rg(5)], overload_set(), vec![], resolved) {
        Err(ICompileErrorT::CantDowncastUnrelatedTypes { range, source_kind, target_kind }) => {
            assert_eq!(range, vec![rg(5)]);
            assert!(matches!(source_kind, KindT::Interface(_)));
            assert!(matches!(target_kind, KindT::Struct(_)));
        },
        other => panic!("expected a downcast error, got {:?}", other.map(|_| ())),
    }
}

#[test]
fn call_with_no_function_found_is_an_error() {
    let mut c = compiler();
    let co = outputs();
    let mut nenv = NodeEnvironmentBox::new();
    let resolved = FindFunctionResultT::NotFound { called_as: false, isa_failures: vec![] };
    let r = c.evaluate_call(&co, &mut nenv, &loc(&[0]), &vec![rg(6)], overload_set(), vec![], resolved);
    assert!(matches!(r, Err(ICompileErrorT::CouldntFindFunctionToCallT { .. })));
}

#[test]
fn call_of_the_chosen_function_takes_its_arguments() {
    let mut c = compiler();
    let co = outputs();
    let mut nenv = NodeEnvironmentBox::new();
    let chosen = PrototypeTT { id: 12, name: c.keywords.e, params: vec![KindT::Int { bits: 32 }], return_type: KindT::Bool };
    let resolved = FindFunctionResultT::Found { prototype: chosen, maybe_virtual_index: None };
    let args = vec![ExpressionTE::ConstantInt { range: rg(2), value: 7, bits: 32 }];
    let (call, pending) = c.evaluate_call(&co, &mut nenv, &loc(&[4]), &vec![rg(7)], overload_set(), args, resolved).unwrap();
    assert!(pending.take_vars().is_empty());
    match call {
        ExpressionTE::FunctionCall { callable, args, result, loct, .. } => {
            assert_eq!(callable.id, 12);
            assert_eq!(args.len(), 1);
            assert!(matches!(result, KindT::Bool));
            assert_eq!(loct.path, vec![4]);
        },
        other => panic!("expected a call, got {:?}", other),
    }
}

#[test]
fn callable_value_is_lent_to_its_call_function() {
    let mut c = compiler();
    let co = outputs();
    let mut nenv = NodeEnvironmentBox::new();
    let call_fn = PrototypeTT { id: 13, name: c.keywords.e, params: vec![borrow_of(KindT::Int { bits: 32 }), KindT::Bool], return_type: KindT::Void };
    let resolved = FindFunctionResultT::Found { prototype: call_fn, maybe_virtual_index: None };
    let callable = ExpressionTE::ConstantInt { range: rg(3), value: 1, bits: 32 };
    let args = vec![ExpressionTE::ConstantBool { range: rg(4), value: true }];
    let (call, pending) = c.evaluate_call(&co, &mut nenv, &loc(&[2]), &vec![rg(8)], callable, args, resolved).unwrap();
    assert_eq!(pending.take_vars().len(), 1);
    assert_eq!(nenv.declared_locals.len(), 1);
    match call {
        ExpressionTE::FunctionCall { args, .. } => {
            assert_eq!(args.len(), 2);
            assert!(matches!(args[0], ExpressionTE::LetAndLend { .. }));
            assert!(matches!(args[1], ExpressionTE::ConstantBool { value: true, .. }));
        },
        other => panic!("expected a call, got {:?}", other),
    }
}

#[test]
fn capturing_pattern_lets_a_new_local_and_keeps_it_live() {
    let mut c = compiler();
    let co = outputs();
    let mut nenv = NodeEnvironmentBox::new();
    let x = IVarNameT::Local(c.interner.intern("x"));
    let pattern = AtomSP { range: rg(10), name: Some(CaptureS { name: x, mutate: false }), destructure: None };
    let input = ExpressionTE::ConstantInt { range: rg(11), value: 9, bits: 32 };
    let rest = ExpressionTE::VoidLiteral { range: rg(12) };
    let (built, live) = c.inner_translate_sub_pattern_and_maybe_continue(&co, &mut nenv, &loc(&[1]), &vec![rg(13)], &pattern, &vec![], input, rest);
    assert_eq!(live.len(), 1);
    assert_eq!(live[0].name, x);
    assert!(matches!(live[0].tyype, KindT::Int { bits: 32 }));
    assert_eq!(nenv.declared_locals.len(), 1);
    let passed = c.sub_pattern_passed_value(&pattern, &loc(&[1]), &live[0], ExpressionTE::VoidLiteral { range: rg(0) });
    match passed {
        ExpressionTE::LocalLookup { loct, variable, .. } => {
            assert_eq!(loct.path, vec![1, 3]);
            assert_eq!(variable.name, x);
        },
        other => panic!("passed {:?}", other),
    }
    match built {
        ExpressionTE::Consecutor { range, exprs } => {
            assert_eq!(range, rg(10));
            assert_eq!(exprs.len(), 2);
            assert!(matches!(&exprs[0], ExpressionTE::LetNormal { variable, .. } if variable.name == x));
            assert!(matches!(exprs[1], ExpressionTE::VoidLiteral { .. }));
        },
        other => panic!("built {:?}", other),
    }
}

#[test]
fn ignored_value_is_dropped_before_the_rest() {
    let mut c = compiler();
    let co = outputs();
    let mut nenv = NodeEnvironmentBox::new();
    let pattern = AtomSP { range: rg(20), name: None, destructure: None };
    let input = ExpressionTE::ConstantInt { range: rg(21), value: 1, bits: 32 };
    let (built, live) = c.inner_translate_sub_pattern_and_maybe_continue(
        &co, &mut nenv, &loc(&[2]), &vec![], &pattern, &vec![], input, ExpressionTE::VoidLiteral { range: rg(22) });
    assert!(live.is_empty());
    match built {
        ExpressionTE::Consecutor { exprs, .. } => {
            assert_eq!(exprs.len(), 2);
            assert!(matches!(exprs[0], ExpressionTE::Discard { .. }));
        },
        other => panic!("built {:?}", other),
    }
}

#[test]
fn mutating_capture_restackifies_the_existing_local() {
    let mut c = compiler();
    let co = outputs();
    let mut nenv = NodeEnvironmentBox::new();
    let y = local(&mut c, "y", KindT::Bool);
    nenv.add_variable(y.copy());
    nenv.mark_local_unstackified(y.name);
    let pattern = AtomSP { range: rg(30), name: Some(CaptureS { name: y.name, mutate: true }), destructure: None };
    let input = ExpressionTE::ConstantBool { range: rg(31), value: false };
    let (built, live) = c.inner_translate_sub_pattern_and_maybe_continue(
        &co, &mut nenv, &loc(&[3]), &vec![], &pattern, &vec![], input, ExpressionTE::VoidLiteral { range: rg(32) });
    assert_eq!(live.len(), 1);
    assert!(nenv.unstackified_locals.is_empty());
    match built {
        ExpressionTE::Consecutor { exprs, .. } => assert!(matches!(exprs[0], ExpressionTE::Restackify { .. })),
        other => panic!("built {:?}", other),
    }
}

fn result_outputs() -> (CompilerOutputs, InterfaceTT, PrototypeTT, PrototypeTT) {
    let mut co = outputs();
    let iface = InterfaceTT { id: 50, template: 50, template_args: TemplateArgsT::Nil };
    let ok_case = KindT::Struct(StructTT { id: 51, template: 51, template_args: TemplateArgsT::Nil });
    let err_case = KindT::Struct(StructTT { id: 52, template: 52, template_args: TemplateArgsT::Nil });
    co.impls.push(ImplT { sub: ok_case.copy(), sup: KindT::Interface(InterfaceTT { id: 50, template: 50, template_args: TemplateArgsT::Nil }), impl_id: 501, is_bound: false });
    co.impls.push(ImplT { sub: err_case.copy(), sup: KindT::Interface(InterfaceTT { id: 50, template: 50, template_args: TemplateArgsT::Nil }), impl_id: 502, is_bound: false });
    let ok_p = PrototypeTT { id: 61, name: StrI(1), params: vec![KindT::Int { bits: 32 }], return_type: ok_case };
    let err_p = PrototypeTT { id: 62, name: StrI(2), params: vec![KindT::Str], return_type: err_case };
    (co, iface, ok_p, err_p)
}

#[test]
fn result_type_pairs_each_constructor_with_its_impl() {
    let c = compiler();
    let (co, iface, ok_p, err_p) = result_outputs();
    let (kind, ok, ok_impl, err, err_impl) = c.get_result(&co, &vec![rg(1)], &iface,
        ResolveFunctionResultT::Success(ok_p), ResolveFunctionResultT::Success(err_p)).unwrap();
    assert!(matches!(kind, KindT::Interface(InterfaceTT { id: 50, .. })));
    assert_eq!((ok.id, ok_impl, err.id, err_impl), (61, 501, 62, 502));
}

#[test]
fn unresolved_result_constructor_is_a_resolving_error() {
    let c = compiler();
    let (co, iface, ok_p, _err_p) = result_outputs();
    let r = c.get_result(&co, &vec![rg(2)], &iface, ResolveFunctionResultT::Success(ok_p), ResolveFunctionResultT::Failure);
    match r {
        Err(ICompileErrorT::TypingPassResolvingError { range }) => assert_eq!(range, vec![rg(2)]),
        other => panic!("expected a resolving error, got {:?}", other.map(|_| ())),
    }
}

#[test]
fn optional_type_pairs_each_constructor_with_its_impl() {
    let c = compiler();
    let (co, iface, some_p, none_p) = result_outputs();
    let (kind, some, none, some_impl, none_impl) = c.get_option(&co, &iface,
        ResolveFunctionResultT::Success(some_p), ResolveFunctionResultT::Success(none_p));
    assert!(matches!(kind, KindT::Interface(_)));
    assert_eq!((some.id, none.id, some_impl, none_impl), (61, 62, 501, 502));
}

#[test]
fn lock_of_a_weak_reference_returns_the_optional() {
    let c = compiler();
    let (co, iface, some_p, none_p) = result_outputs();
    let env = FunctionEnvironmentT { id: 70, template_args: TemplateArgsT::Nil, templata: 71, rune_kinds: vec![] };
    let weak = KindT::WeakRef(BorrowRefT { inner: Box::new(ship()) });
    let params = vec![ParameterT { name: IVarNameT::SelfName, tyype: weak }];
    let (h, body) = c.generate_function_body_lock_weak(&co, &env, &loc(&[6]), &params, Some(KindT::Interface(InterfaceTT { id: 50, template: 50, template_args: TemplateArgsT::Nil })),
        &iface, ResolveFunctionResultT::Success(some_p), ResolveFunctionResultT::Success(none_p));
    assert_eq!(h.id, 70);
    match body {
        ExpressionTE::Block { inner, .. } => match *inner {
            ExpressionTE::Return { expr, .. } => match *expr {
                ExpressionTE::LockWeak { inner_expr, result, .. } => {
                    assert!(matches!(result, KindT::Interface(InterfaceTT { id: 50, .. })));
                    assert!(matches!(*inner_expr, ExpressionTE::ArgLookup { index: 0, .. }));
                },
                other => panic!("returns {:?}", other),
            },
            other => panic!("block holds {:?}", other),
        },
        other => panic!("body is {:?}", other),
    }
}
