//! Grouping a typed function body: every typed node becomes its grouped twin, each reference's kind
//! carrying its group, each call its instantiated churns, while the accesses the body makes are
//! logged.

use vstd::prelude::*;
use crate::names::{IRuneS, IVarNameT};
use crate::interner::StrI;
use crate::range::RangeS;
use crate::borrow_checker::ast_g::{
    LockWeakGE, StaticArrayFromValuesGE, ArraySizeGE, IsSameInstanceGE, AsSubtypeGE, ConstantFloatGE, StaticArrayFromCallableGE,
    DestroyStaticSizedArrayIntoFunctionGE, DestroyStaticSizedArrayIntoLocalsGE, DestroyRuntimeSizedArrayGE,
    RuntimeSizedArrayCapacityGE, PushRuntimeSizedArrayGE, InterfaceToInterfaceUpcastGE,
    ExpressionGE, GroupStep, MutEffectPath, PrototypeT, result_of, LocalVariableG, VoidLiteralGE, ConstantIntGE, ConstantBoolGE,
    ArgLookupGE, LocalLookupGE, UnletGE, DerefGE, LetNormalGE, LetAndLendGE, DiscardGE, ReturnGE, BlockGE, ConsecutorGE,
    ReinterpretGE, BorrowToWeakGE, FunctionCallGE, PopRuntimeSizedArrayGE, NewRuntimeSizedArrayGE, CopyPrimGE,
    UpcastInterfaceGE, UpcastGenericGE, StaticSizedArrayLookupGE, MemberLookupGE, RuntimeSizedArrayLookupGE, IfGE, MutateGE,
    RestackifyGE, BreakGE, ConstantStrGE, ArrayLengthGE, ConstructGE, InterfaceFunctionCallGE, ExternFunctionCallGE,
    BoundFunctionCallGE, DestroyGE, WhileGE, children_of, lemma_children_smaller,
};
use crate::borrow_checker::access_event::AccessEventG;
use crate::borrow_checker::group_expr::{GroupPathV, GroupRootG, GroupChildStepG, paths_view, copy_paths};
use crate::borrow_checker::kind_g::{
    KindGT, KindGV, TemplataGV, ITemplataG, BorrowRefGT, CitizenGT, GroupGT, GroupTemplataG, WrapRefGT, kind_v, templatas_v,
};
use crate::borrow_checker::experimental::grouped_ast::{
    flat, effect_v, effects_v, diverges, subtree_churns, kids_churns, own_churns, collect_subtree_churns,
};
use crate::borrow_checker::experimental::groupify::{
    access_chain, chain_ok, reached_group, single_group, borrow_group_of, borrowref_group, new_local_group_expr,
    group_path_child, name_code_of,
};
use crate::borrow_checker::experimental::check_usages::copy_steps;
use crate::compiler_error_reporter::copy_ranges;
use crate::loc::LocT;
use crate::borrow_checker::experimental::groupify_types::{
    grouped_kind, group_paths, resolves, var_code, code_var, callee_runes, matched, matched_args, kind_valid, args_valid,
    runes_valid, locals_valid, locals_v, lemma_args_valid, encode_var, runes_v, function_rune_map, struct_members, member_of,
    with_step, member_v, citizen_v, members_grouped, last_named, bind_params,
};
use crate::borrow_checker::experimental::keyed_map::KeyedMap;
use crate::index_map::{find_key, lemma_find_key, slot_entries};
use crate::postparsing::{EffectS, FunctionS, ITypeST, ParameterS};
use crate::typing::ast::{FunctionHeaderT, ParameterT};
use crate::typing::compiler::{Compiler, CompilerOutputs, StructMemberT, function_template};
use crate::typing::expressions::{ExpressionTE, LocalVariableT, PrototypeTT, result_of_te, deref_of, rewrap, rewrap_exec};
use crate::typing::types::{KindT, RuntimeSizedArrayTT, StaticSizedArrayTT};

verus! {

/// The mathematical value of a grouped node, for the node kinds the grouping pass builds (and the
/// access nodes a chain goes through); any other node is `Other`.
pub enum GEV {
    VoidLiteral { range: RangeS, result: KindGV },
    ConstantInt { range: RangeS, value: i64, bits: i32, result: KindGV },
    ConstantBool { range: RangeS, value: bool, result: KindGV },
    ArgLookup { range: RangeS, param_index: i32, result: KindGV },
    LocalLookup { range: RangeS, loct: Seq<i32>, name: IVarNameT, tyype: KindGV, result: KindGV },
    Deref { range: RangeS, inner: Box<GEV>, result: KindGV },
    Unlet { range: RangeS, name: IVarNameT, tyype: KindGV, result: KindGV },
    LetNormal { range: RangeS, name: IVarNameT, tyype: KindGV, expr: Box<GEV>, result: KindGV },
    LetAndLend { range: RangeS, loct: Seq<i32>, name: IVarNameT, tyype: KindGV, expr: Box<GEV>, result: KindGV },
    Discard { range: RangeS, expr: Box<GEV>, result: KindGV },
    Return { range: RangeS, source_expr: Box<GEV>, result: KindGV },
    Block { range: RangeS, inner: Box<GEV>, result: KindGV },
    Consecutor { range: RangeS, exprs: Seq<GEV>, result: KindGV },
    Reinterpret { range: RangeS, expr: Box<GEV>, result: KindGV },
    BorrowToWeak { range: RangeS, inner_expr: Box<GEV>, result: KindGV },
    FunctionCall {
        range: RangeS,
        parent_ranges: Seq<RangeS>,
        loct: Seq<i32>,
        callable: u32,
        args: Seq<GEV>,
        mut_effects: Seq<(Seq<i32>, RangeS, Seq<GroupStep>)>,
        result: KindGV,
    },
    PopRuntimeSizedArray { range: RangeS, array_expr: Box<GEV>, result: KindGV },
    NewRuntimeSizedArray { range: RangeS, capacity_expr: Box<GEV>, result: KindGV },
    CopyPrim { range: RangeS, inner: Box<GEV>, result: KindGV },
    UpcastInterface { range: RangeS, inner_expr: Box<GEV>, result: KindGV },
    UpcastGeneric { range: RangeS, inner_expr: Box<GEV>, result: KindGV },
    StaticSizedArrayLookup { range: RangeS, array_expr: Box<GEV>, index_expr: Box<GEV>, result: KindGV },
    RuntimeSizedArrayLookup { range: RangeS, array_expr: Box<GEV>, index_expr: Box<GEV>, result: KindGV },
    MemberLookup { range: RangeS, struct_expr: Box<GEV>, member_name: crate::interner::StrI, result: KindGV },
    If { range: RangeS, condition: Box<GEV>, then_call: Box<GEV>, else_call: Box<GEV>, result: KindGV },
    Mutate { range: RangeS, loct: Seq<i32>, destination_expr: Box<GEV>, source_expr: Box<GEV>, result: KindGV },
    Restackify { range: RangeS, name: IVarNameT, tyype: KindGV, source_expr: Box<GEV>, result: KindGV },
    Break { range: RangeS, result: KindGV },
    ConstantStr { range: RangeS, value: crate::interner::StrI, result: KindGV },
    ArrayLength { range: RangeS, array_expr: Box<GEV>, result: KindGV },
    Construct { range: RangeS, args: Seq<GEV>, result: KindGV },
    InterfaceFunctionCall { range: RangeS, args: Seq<GEV>, result: KindGV },
    ExternFunctionCall { range: RangeS, args: Seq<GEV>, result: KindGV },
    BoundFunctionCall { range: RangeS, args: Seq<GEV>, result: KindGV },
    LockWeak { range: RangeS, inner_expr: Box<GEV>, result: KindGV },
    StaticArrayFromValues { range: RangeS, elements: Seq<GEV>, result: KindGV },
    ArraySize { range: RangeS, array: Box<GEV>, result: KindGV },
    IsSameInstance { range: RangeS, left: Box<GEV>, right: Box<GEV>, result: KindGV },
    AsSubtype { range: RangeS, source_expr: Box<GEV>, result: KindGV },
    ConstantFloat { range: RangeS, result: KindGV },
    StaticArrayFromCallable { range: RangeS, generator: Box<GEV>, result: KindGV },
    DestroyStaticSizedArrayIntoFunction { range: RangeS, array_expr: Box<GEV>, consumer: Box<GEV>, result: KindGV },
    DestroyStaticSizedArrayIntoLocals { range: RangeS, expr: Box<GEV>, variables: Seq<(IVarNameT, KindGV)>, result: KindGV },
    DestroyRuntimeSizedArray { range: RangeS, array_expr: Box<GEV>, result: KindGV },
    RuntimeSizedArrayCapacity { range: RangeS, array_expr: Box<GEV>, result: KindGV },
    PushRuntimeSizedArray { range: RangeS, array_expr: Box<GEV>, new_element_expr: Box<GEV>, result: KindGV },
    InterfaceToInterfaceUpcast { range: RangeS, inner_expr: Box<GEV>, result: KindGV },
    Destroy { range: RangeS, loct: Seq<i32>, expr: Box<GEV>, variables: Seq<(IVarNameT, KindGV)>, result: KindGV },
    While {
        range: RangeS,
        block_range: RangeS,
        body: Box<GEV>,
        block_result: KindGV,
        mut_effects: Seq<(Seq<i32>, RangeS, Seq<GroupStep>)>,
        result: KindGV,
    },
    Other,
}

/// The value of a grouped node.
pub open spec fn gev(e: ExpressionGE) -> GEV
    decreases e, 1int,
{
    match e {
        ExpressionGE::VoidLiteral(x) => GEV::VoidLiteral { range: x.range, result: kind_v(x.result) },
        ExpressionGE::ConstantInt(x) => GEV::ConstantInt { range: x.range, value: x.value, bits: x.bits, result: kind_v(x.result) },
        ExpressionGE::ConstantBool(x) => GEV::ConstantBool { range: x.range, value: x.value, result: kind_v(x.result) },
        ExpressionGE::ArgLookup(x) => GEV::ArgLookup { range: x.range, param_index: x.param_index, result: kind_v(x.result) },
        ExpressionGE::LocalLookup(x) => GEV::LocalLookup {
            range: x.range, loct: x.loct@, name: x.local_variable.name, tyype: kind_v(x.local_variable.tyype), result: kind_v(x.result),
        },
        ExpressionGE::Deref(x) => GEV::Deref { range: x.range, inner: Box::new(gev(*x.inner)), result: kind_v(x.result) },
        ExpressionGE::Unlet(x) => GEV::Unlet { range: x.range, name: x.variable.name, tyype: kind_v(x.variable.tyype), result: kind_v(x.result) },
        ExpressionGE::LetNormal(x) => GEV::LetNormal {
            range: x.range, name: x.variable.name, tyype: kind_v(x.variable.tyype), expr: Box::new(gev(*x.expr)), result: kind_v(x.result),
        },
        ExpressionGE::LetAndLend(x) => GEV::LetAndLend {
            range: x.range, loct: x.loct@, name: x.variable.name, tyype: kind_v(x.variable.tyype), expr: Box::new(gev(*x.expr)),
            result: kind_v(x.result),
        },
        ExpressionGE::Discard(x) => GEV::Discard { range: x.range, expr: Box::new(gev(*x.expr)), result: kind_v(x.result) },
        ExpressionGE::Return(x) => GEV::Return { range: x.range, source_expr: Box::new(gev(*x.source_expr)), result: kind_v(x.result) },
        ExpressionGE::Block(x) => GEV::Block { range: x.range, inner: Box::new(gev(*x.inner)), result: kind_v(x.result) },
        ExpressionGE::Consecutor(x) => {
            proof { assert(decreases_to!(x.exprs => x.exprs@)); }
            GEV::Consecutor { range: x.range, exprs: gevs(x.exprs@), result: kind_v(x.result) }
        },
        ExpressionGE::Reinterpret(x) => GEV::Reinterpret { range: x.range, expr: Box::new(gev(*x.expr)), result: kind_v(x.result) },
        ExpressionGE::BorrowToWeak(x) => GEV::BorrowToWeak { range: x.range, inner_expr: Box::new(gev(*x.inner_expr)), result: kind_v(x.result) },
        ExpressionGE::FunctionCall(x) => {
            proof { assert(decreases_to!(x.args => x.args@)); }
            GEV::FunctionCall {
                range: x.range, parent_ranges: x.parent_ranges@, loct: x.loct@, callable: x.callable.id, args: gevs(x.args@),
                mut_effects: effects_v(x.mut_effects@), result: kind_v(x.result),
            }
        },
        ExpressionGE::PopRuntimeSizedArray(x) => GEV::PopRuntimeSizedArray { range: x.range, array_expr: Box::new(gev(*x.array_expr)), result: kind_v(x.result) },
        ExpressionGE::NewRuntimeSizedArray(x) => GEV::NewRuntimeSizedArray { range: x.range, capacity_expr: Box::new(gev(*x.capacity_expr)), result: kind_v(x.result) },
        ExpressionGE::CopyPrim(x) => GEV::CopyPrim { range: x.range, inner: Box::new(gev(*x.inner)), result: kind_v(x.result) },
        ExpressionGE::UpcastInterface(x) => GEV::UpcastInterface { range: x.range, inner_expr: Box::new(gev(*x.inner_expr)), result: kind_v(x.result) },
        ExpressionGE::UpcastGeneric(x) => GEV::UpcastGeneric { range: x.range, inner_expr: Box::new(gev(*x.inner_expr)), result: kind_v(x.result) },
        ExpressionGE::StaticSizedArrayLookup(x) => GEV::StaticSizedArrayLookup {
            range: x.range, array_expr: Box::new(gev(*x.array_expr)), index_expr: Box::new(gev(*x.index_expr)), result: kind_v(x.result),
        },
        ExpressionGE::RuntimeSizedArrayLookup(x) => GEV::RuntimeSizedArrayLookup {
            range: x.range, array_expr: Box::new(gev(*x.array_expr)), index_expr: Box::new(gev(*x.index_expr)), result: kind_v(x.result),
        },
        ExpressionGE::MemberLookup(x) => GEV::MemberLookup {
            range: x.range, struct_expr: Box::new(gev(*x.struct_expr)), member_name: x.member_name, result: kind_v(x.result),
        },
        ExpressionGE::If(x) => GEV::If {
            range: x.range, condition: Box::new(gev(*x.condition)), then_call: Box::new(gev(*x.then_call)),
            else_call: Box::new(gev(*x.else_call)), result: kind_v(x.result),
        },
        ExpressionGE::Mutate(x) => GEV::Mutate {
            range: x.range, loct: x.loct@, destination_expr: Box::new(gev(*x.destination_expr)), source_expr: Box::new(gev(*x.source_expr)),
            result: kind_v(x.result),
        },
        ExpressionGE::Restackify(x) => GEV::Restackify {
            range: x.range, name: x.variable.name, tyype: kind_v(x.variable.tyype), source_expr: Box::new(gev(*x.source_expr)),
            result: kind_v(x.result),
        },
        ExpressionGE::Break(x) => GEV::Break { range: x.range, result: kind_v(x.result) },
        ExpressionGE::ConstantStr(x) => GEV::ConstantStr { range: x.range, value: x.value, result: kind_v(x.result) },
        ExpressionGE::ArrayLength(x) => GEV::ArrayLength { range: x.range, array_expr: Box::new(gev(*x.array_expr)), result: kind_v(x.result) },
        ExpressionGE::Construct(x) => {
            proof { assert(decreases_to!(x.args => x.args@)); }
            GEV::Construct { range: x.range, args: gevs(x.args@), result: kind_v(x.result) }
        },
        ExpressionGE::InterfaceFunctionCall(x) => {
            proof { assert(decreases_to!(x.args => x.args@)); }
            GEV::InterfaceFunctionCall { range: x.range, args: gevs(x.args@), result: kind_v(x.result) }
        },
        ExpressionGE::ExternFunctionCall(x) => {
            proof { assert(decreases_to!(x.args => x.args@)); }
            GEV::ExternFunctionCall { range: x.range, args: gevs(x.args@), result: kind_v(x.result) }
        },
        ExpressionGE::BoundFunctionCall(x) => {
            proof { assert(decreases_to!(x.args => x.args@)); }
            GEV::BoundFunctionCall { range: x.range, args: gevs(x.args@), result: kind_v(x.result) }
        },
        ExpressionGE::LockWeak(x) => GEV::LockWeak { range: x.range, inner_expr: Box::new(gev(*x.inner_expr)), result: kind_v(x.result) },
        ExpressionGE::StaticArrayFromValues(x) => {
            proof { assert(decreases_to!(x.elements => x.elements@)); }
            GEV::StaticArrayFromValues { range: x.range, elements: gevs(x.elements@), result: kind_v(x.result) }
        },
        ExpressionGE::ArraySize(x) => GEV::ArraySize { range: x.range, array: Box::new(gev(*x.array)), result: kind_v(x.result) },
        ExpressionGE::IsSameInstance(x) => GEV::IsSameInstance {
            range: x.range, left: Box::new(gev(*x.left)), right: Box::new(gev(*x.right)), result: kind_v(x.result),
        },
        ExpressionGE::AsSubtype(x) => GEV::AsSubtype { range: x.range, source_expr: Box::new(gev(*x.source_expr)), result: kind_v(x.result) },
        ExpressionGE::ConstantFloat(x) => GEV::ConstantFloat { range: x.range, result: kind_v(x.result) },
        ExpressionGE::StaticArrayFromCallable(x) => GEV::StaticArrayFromCallable {
            range: x.range, generator: Box::new(gev(*x.generator)), result: kind_v(x.result),
        },
        ExpressionGE::DestroyStaticSizedArrayIntoFunction(x) => GEV::DestroyStaticSizedArrayIntoFunction {
            range: x.range, array_expr: Box::new(gev(*x.array_expr)), consumer: Box::new(gev(*x.consumer)), result: kind_v(x.result),
        },
        ExpressionGE::DestroyStaticSizedArrayIntoLocals(x) => GEV::DestroyStaticSizedArrayIntoLocals {
            range: x.range, expr: Box::new(gev(*x.expr)), variables: variables_v(x.destination_reference_variables@), result: kind_v(x.result),
        },
        ExpressionGE::DestroyRuntimeSizedArray(x) => GEV::DestroyRuntimeSizedArray {
            range: x.range, array_expr: Box::new(gev(*x.array_expr)), result: kind_v(x.result),
        },
        ExpressionGE::RuntimeSizedArrayCapacity(x) => GEV::RuntimeSizedArrayCapacity {
            range: x.range, array_expr: Box::new(gev(*x.array_expr)), result: kind_v(x.result),
        },
        ExpressionGE::PushRuntimeSizedArray(x) => GEV::PushRuntimeSizedArray {
            range: x.range, array_expr: Box::new(gev(*x.array_expr)), new_element_expr: Box::new(gev(*x.new_element_expr)),
            result: kind_v(x.result),
        },
        ExpressionGE::InterfaceToInterfaceUpcast(x) => GEV::InterfaceToInterfaceUpcast {
            range: x.range, inner_expr: Box::new(gev(*x.inner_expr)), result: kind_v(x.result),
        },
        ExpressionGE::While(x) => GEV::While {
            range: x.range, block_range: x.block.range, body: Box::new(gev(*x.block.inner)), block_result: kind_v(x.block.result),
            mut_effects: effects_v(x.mut_effects@), result: kind_v(x.result),
        },
        ExpressionGE::Destroy(x) => GEV::Destroy {
            range: x.range, loct: x.loct@, expr: Box::new(gev(*x.expr)), variables: variables_v(x.destination_reference_variables@),
            result: kind_v(x.result),
        },
        _ => GEV::Other,
    }
}

/// The values of a list of grouped locals: each name with its grouped kind.
pub open spec fn variables_v(vs: Seq<LocalVariableG>) -> Seq<(IVarNameT, KindGV)> {
    vs.map_values(|v: LocalVariableG| (v.name, kind_v(v.tyype)))
}

/// The values of a list of grouped nodes.
pub open spec fn gevs(es: Seq<ExpressionGE>) -> Seq<GEV>
    decreases es, 0int,
{
    if es.len() == 0 {
        Seq::empty()
    } else {
        gevs(es.subrange(0, es.len() - 1)).push(gev(es[es.len() - 1]))
    }
}

/// `gevs` is taken node by node.
pub proof fn lemma_gevs(es: Seq<ExpressionGE>)
    ensures
        gevs(es).len() == es.len(),
        forall|i: int| 0 <= i < es.len() ==> #[trigger] gevs(es)[i] == gev(es[i]),
    decreases es.len(),
{
    if es.len() > 0 {
        let pre = es.subrange(0, es.len() - 1);
        lemma_gevs(pre);
        assert forall|i: int| 0 <= i < es.len() implies #[trigger] gevs(es)[i] == gev(es[i]) by {
            if i < es.len() - 1 {
        assert(pre[i] == es[i]);
            }
        }
    }
}

/// Every churn a grouped value holds, in walk order: each call's own churns, then its children's.
pub open spec fn churns_of(g: GEV) -> Seq<(Seq<i32>, RangeS, Seq<GroupStep>)>
    decreases g, 1int,
{
    match g {
        GEV::Deref { inner, .. } => churns_of(*inner),
        GEV::LetNormal { expr, .. } => churns_of(*expr),
        GEV::LetAndLend { expr, .. } => churns_of(*expr),
        GEV::Discard { expr, .. } => churns_of(*expr),
        GEV::Return { source_expr, .. } => churns_of(*source_expr),
        GEV::Block { inner, .. } => churns_of(*inner),
        GEV::Consecutor { exprs, .. } => churns_list(exprs),
        GEV::Reinterpret { expr, .. } => churns_of(*expr),
        GEV::BorrowToWeak { inner_expr, .. } => churns_of(*inner_expr),
        GEV::FunctionCall { args, mut_effects, .. } => mut_effects + churns_list(args),
        GEV::PopRuntimeSizedArray { array_expr, .. } => churns_of(*array_expr),
        GEV::NewRuntimeSizedArray { capacity_expr, .. } => churns_of(*capacity_expr),
        GEV::CopyPrim { inner, .. } => churns_of(*inner),
        GEV::UpcastInterface { inner_expr, .. } => churns_of(*inner_expr),
        GEV::UpcastGeneric { inner_expr, .. } => churns_of(*inner_expr),
        GEV::StaticSizedArrayLookup { array_expr, index_expr, .. } => churns_of(*array_expr) + churns_of(*index_expr),
        GEV::RuntimeSizedArrayLookup { array_expr, index_expr, .. } => churns_of(*array_expr) + churns_of(*index_expr),
        GEV::MemberLookup { struct_expr, .. } => churns_of(*struct_expr),
        GEV::If { condition, then_call, else_call, .. } => churns_of(*condition) + churns_of(*then_call) + churns_of(*else_call),
        GEV::Mutate { destination_expr, source_expr, .. } => churns_of(*destination_expr) + churns_of(*source_expr),
        GEV::Restackify { source_expr, .. } => churns_of(*source_expr),
        GEV::ArrayLength { array_expr, .. } => churns_of(*array_expr),
        GEV::Construct { args, .. } => churns_list(args),
        GEV::InterfaceFunctionCall { args, .. } => churns_list(args),
        GEV::ExternFunctionCall { args, .. } => churns_list(args),
        GEV::BoundFunctionCall { args, .. } => churns_list(args),
        GEV::LockWeak { inner_expr, .. } => churns_of(*inner_expr),
        GEV::StaticArrayFromValues { elements, .. } => churns_list(elements),
        GEV::ArraySize { array, .. } => churns_of(*array),
        GEV::IsSameInstance { left, right, .. } => churns_of(*left) + churns_of(*right),
        GEV::AsSubtype { source_expr, .. } => churns_of(*source_expr),
        GEV::StaticArrayFromCallable { generator, .. } => churns_of(*generator),
        GEV::DestroyStaticSizedArrayIntoFunction { array_expr, consumer, .. } => churns_of(*array_expr) + churns_of(*consumer),
        GEV::DestroyStaticSizedArrayIntoLocals { expr, .. } => churns_of(*expr),
        GEV::DestroyRuntimeSizedArray { array_expr, .. } => churns_of(*array_expr),
        GEV::RuntimeSizedArrayCapacity { array_expr, .. } => churns_of(*array_expr),
        GEV::PushRuntimeSizedArray { array_expr, new_element_expr, .. } => churns_of(*array_expr) + churns_of(*new_element_expr),
        GEV::InterfaceToInterfaceUpcast { inner_expr, .. } => churns_of(*inner_expr),
        GEV::Destroy { expr, .. } => churns_of(*expr),
        GEV::While { body, .. } => churns_of(*body),
        _ => Seq::empty(),
    }
}

/// Every churn a list of grouped values holds, in order.
pub open spec fn churns_list(gs: Seq<GEV>) -> Seq<(Seq<i32>, RangeS, Seq<GroupStep>)>
    decreases gs, 0int,
{
    if gs.len() == 0 {
        Seq::empty()
    } else {
        churns_list(gs.drop_last()) + churns_of(gs.last())
    }
}

/// The kind a grouped node's value results in.
pub open spec fn result_v(g: GEV) -> KindGV {
    match g {
        GEV::VoidLiteral { result, .. } => result,
        GEV::ConstantInt { result, .. } => result,
        GEV::ConstantBool { result, .. } => result,
        GEV::ArgLookup { result, .. } => result,
        GEV::LocalLookup { result, .. } => result,
        GEV::Deref { result, .. } => result,
        GEV::Unlet { result, .. } => result,
        GEV::LetNormal { result, .. } => result,
        GEV::LetAndLend { result, .. } => result,
        GEV::Discard { result, .. } => result,
        GEV::Return { result, .. } => result,
        GEV::Block { result, .. } => result,
        GEV::Consecutor { result, .. } => result,
        GEV::Reinterpret { result, .. } => result,
        GEV::BorrowToWeak { result, .. } => result,
        GEV::FunctionCall { result, .. } => result,
        GEV::PopRuntimeSizedArray { result, .. } => result,
        GEV::NewRuntimeSizedArray { result, .. } => result,
        GEV::CopyPrim { result, .. } => result,
        GEV::UpcastInterface { result, .. } => result,
        GEV::UpcastGeneric { result, .. } => result,
        GEV::StaticSizedArrayLookup { result, .. } => result,
        GEV::RuntimeSizedArrayLookup { result, .. } => result,
        GEV::MemberLookup { result, .. } => result,
        GEV::If { result, .. } => result,
        GEV::Mutate { result, .. } => result,
        GEV::Restackify { result, .. } => result,
        GEV::Break { result, .. } => result,
        GEV::ConstantStr { result, .. } => result,
        GEV::ArrayLength { result, .. } => result,
        GEV::Construct { result, .. } => result,
        GEV::InterfaceFunctionCall { result, .. } => result,
        GEV::ExternFunctionCall { result, .. } => result,
        GEV::BoundFunctionCall { result, .. } => result,
        GEV::LockWeak { result, .. } => result,
        GEV::StaticArrayFromValues { result, .. } => result,
        GEV::ArraySize { result, .. } => result,
        GEV::IsSameInstance { result, .. } => result,
        GEV::AsSubtype { result, .. } => result,
        GEV::ConstantFloat { result, .. } => result,
        GEV::StaticArrayFromCallable { result, .. } => result,
        GEV::DestroyStaticSizedArrayIntoFunction { result, .. } => result,
        GEV::DestroyStaticSizedArrayIntoLocals { result, .. } => result,
        GEV::DestroyRuntimeSizedArray { result, .. } => result,
        GEV::RuntimeSizedArrayCapacity { result, .. } => result,
        GEV::PushRuntimeSizedArray { result, .. } => result,
        GEV::InterfaceToInterfaceUpcast { result, .. } => result,
        GEV::Destroy { result, .. } => result,
        GEV::While { result, .. } => result,
        GEV::Other => KindGV::Void,
    }
}

/// The single group a borrow kind points into, flattened; `None` for a non-borrow.
pub open spec fn borrow_group_v(k: KindGV) -> Option<Seq<GroupStep>> {
    match k {
        KindGV::BorrowRef { group, inner } => Some(flat(group[0])),
        _ => None,
    }
}

/// A borrow kind with a single group (a non-borrow trivially).
pub open spec fn single_group_v(k: KindGV) -> bool {
    match k {
        KindGV::BorrowRef { group, inner } => group.len() == 1,
        _ => true,
    }
}

/// `access_chain` read off the values of grouped nodes.
pub open spec fn chain_v(params: Seq<ParameterT>, g: GEV) -> Option<(IVarNameT, Seq<GroupStep>, Seq<GroupStep>)>
    decreases g,
{
    match g {
        GEV::LocalLookup { name, tyype, .. } => match borrow_group_v(tyype) {
            Some(gr) => Some((name, gr, Seq::empty())),
            None => None,
        },
        GEV::ArgLookup { param_index, result, .. } => if 0 <= param_index < params.len() {
            match borrow_group_v(result) {
                Some(gr) => Some((params[param_index as int].name, gr, Seq::empty())),
                None => None,
            }
        } else {
            None
        },
        GEV::Deref { inner, .. } => chain_v(params, *inner),
        GEV::CopyPrim { inner, .. } => chain_v(params, *inner),
        GEV::MemberLookup { struct_expr, member_name, .. } => match chain_v(params, *struct_expr) {
            Some((n, gr, s)) => Some((n, gr, s.push(GroupStep::Member { member_name }))),
            None => None,
        },
        GEV::RuntimeSizedArrayLookup { array_expr, .. } => match chain_v(params, *array_expr) {
            Some((n, gr, s)) => Some((n, gr, s.push(GroupStep::ChildElements))),
            None => None,
        },
        GEV::StaticSizedArrayLookup { array_expr, .. } => chain_v(params, *array_expr),
        _ => None,
    }
}

/// `chain_ok` read off the values of grouped nodes.
pub open spec fn chain_ok_v(params: Seq<ParameterT>, g: GEV) -> bool
    decreases g,
{
    match g {
        GEV::LocalLookup { tyype, .. } => single_group_v(tyype),
        GEV::ArgLookup { param_index, result, .. } => 0 <= param_index < params.len() ==> single_group_v(result),
        GEV::Deref { inner, .. } => chain_ok_v(params, *inner),
        GEV::CopyPrim { inner, .. } => chain_ok_v(params, *inner),
        GEV::MemberLookup { struct_expr, .. } => chain_ok_v(params, *struct_expr),
        GEV::RuntimeSizedArrayLookup { array_expr, .. } => chain_ok_v(params, *array_expr),
        GEV::StaticSizedArrayLookup { array_expr, .. } => chain_ok_v(params, *array_expr),
        _ => true,
    }
}

/// A grouped node's chain is the chain of its value.
pub proof fn lemma_chain_v(params: Seq<ParameterT>, e: ExpressionGE)
    ensures
        chain_ok_v(params, gev(e)) == chain_ok(params, e),
        chain_ok(params, e) ==> chain_v(params, gev(e)) == access_chain(params, e),
    decreases e,
{
    match e {
        ExpressionGE::Deref(x) => { lemma_chain_v(params, *x.inner); },
        ExpressionGE::CopyPrim(x) => { lemma_chain_v(params, *x.inner); },
        ExpressionGE::MemberLookup(x) => { lemma_chain_v(params, *x.struct_expr); },
        ExpressionGE::RuntimeSizedArrayLookup(x) => { lemma_chain_v(params, *x.array_expr); },
        ExpressionGE::StaticSizedArrayLookup(x) => { lemma_chain_v(params, *x.array_expr); },
        _ => {},
    }
}

/// The value of a logged access.
pub enum EventV {
    Read { group: Seq<GroupStep>, loct: Seq<i32> },
    Store { group: Seq<GroupStep>, loct: Seq<i32> },
    Call { touched: Seq<Seq<GroupStep>>, loct: Seq<i32> },
    Marker { loct: Seq<i32> },
}

/// The value of a logged access.
pub open spec fn event_v(e: AccessEventG) -> EventV {
    match e {
        AccessEventG::Read { group, loct } => EventV::Read { group: group@, loct: loct@ },
        AccessEventG::Store { group, loct } => EventV::Store { group: group@, loct: loct@ },
        AccessEventG::Call { touched, loct } => EventV::Call { touched: touched@.map_values(|t: Vec<GroupStep>| t@), loct: loct@ },
        AccessEventG::Marker { loct } => EventV::Marker { loct: loct@ },
    }
}

/// The values of an access log.
pub open spec fn log_v(log: Seq<AccessEventG>) -> Seq<EventV> {
    log.map_values(|e: AccessEventG| event_v(e))
}

/// What the grouping walk reads throughout a body: the outputs, the function's written and typed
/// headers, and its own rune map.
pub struct GroupingCtx {
    pub co: CompilerOutputs,
    pub fs: FunctionS,
    pub h: FunctionHeaderT,
    pub rm: Map<IRuneS, TemplataGV>,
}

/// What the grouping walk has built up so far: each local's grouped kind (by key code, in the
/// order the locals were first bound) and the accesses logged.
pub struct GroupingState {
    pub locals: Seq<((u32, u32), KindGV)>,
    pub log: Seq<EventV>,
}

/// The locals as the group reading sees them: each variable with its grouped kind.
pub open spec fn lview(ls: Seq<((u32, u32), KindGV)>) -> Seq<(IVarNameT, KindGV)> {
    ls.map_values(|e: ((u32, u32), KindGV)| (code_var(e.0), e.1))
}

/// The grouped kind a local was bound with, if it was.
pub open spec fn lget(ls: Seq<((u32, u32), KindGV)>, name: IVarNameT) -> Option<KindGV> {
    match find_key(ls, var_code(name)) {
        Some(i) => Some(ls[i].1),
        None => None,
    }
}

/// The locals after binding `name` to `k`: a bound local keeps its place and takes the new kind.
pub open spec fn lput(ls: Seq<((u32, u32), KindGV)>, name: IVarNameT, k: KindGV) -> Seq<((u32, u32), KindGV)> {
    match find_key(ls, var_code(name)) {
        Some(i) => ls.update(i, (var_code(name), k)),
        None => ls.push((var_code(name), k)),
    }
}

/// The locals a local map holds.
pub open spec fn lstate(m: KeyedMap<KindGT>) -> Seq<((u32, u32), KindGV)> {
    m.entries().map_values(|e: ((u32, u32), KindGT)| (e.0, kind_v(e.1)))
}

/// The borrow a lookup of local `name` makes: into the local's own group.
pub open spec fn local_borrow(name: IVarNameT, k: KindGV) -> KindGV {
    KindGV::BorrowRef {
        group: seq![GroupPathV { root: GroupRootG::Local(name), steps: Seq::empty(), ellipsis: false }],
        inner: Box::new(k),
    }
}

/// The log after a load through `source`: a load from the group its access chain reaches, if it
/// starts at a named borrow; `None` where a borrow on the chain has a union group.
pub open spec fn read_logged(params: Seq<ParameterT>, source: GEV, loct: Seq<i32>, log: Seq<EventV>) -> Option<Seq<EventV>> {
    if chain_ok_v(params, source) {
        match chain_v(params, source) {
            Some((n, g, st)) => Some(log.push(EventV::Read { group: reached_group(g, st), loct })),
            None => Some(log),
        }
    } else {
        None
    }
}

/// The grouped kind of a cast's result: a cast to a borrow of a borrow keeps the operand's group,
/// the referent mirrored without groups; anything else is the cast kind's groupless mirror.
pub open spec fn cast_v(f: bool, co: CompilerOutputs, rm: Map<IRuneS, TemplataGV>, lv: Seq<(IVarNameT, KindGV)>, cast_kind: KindT, operand: KindGV)
    -> Option<KindGV>
{
    match (cast_kind, operand) {
        (KindT::BorrowRef(b), KindGV::BorrowRef { group, inner }) => match grouped_kind(f, co, rm, lv, *b.inner, None, None) {
            Some(ik) => Some(KindGV::BorrowRef { group, inner: Box::new(ik) }),
            None => None,
        },
        _ => grouped_kind(f, co, rm, lv, cast_kind, None, None),
    }
}

/// The groups a call's arguments reach: each borrow argument's group, in order.
pub open spec fn call_touched(args: Seq<GEV>) -> Seq<Seq<GroupStep>>
    decreases args.len(),
{
    if args.len() == 0 {
        Seq::empty()
    } else {
        let pre = call_touched(args.drop_last());
        match borrow_group_v(result_v(args.last())) {
            Some(g) => pre.push(g),
            None => pre,
        }
    }
}

/// Every argument borrow has a single group.
pub open spec fn args_single(args: Seq<GEV>) -> bool {
    forall|i: int| 0 <= i < args.len() ==> single_group_v(#[trigger] result_v(args[i]))
}

/// The churns a callee's declared effects make at a call at `loct`, reported at `range`: each
/// `mut(g)` read through the callee's rune map, one flat path per union member.
pub open spec fn call_effects(co: CompilerOutputs, cm: Map<IRuneS, TemplataGV>, effects: Seq<EffectS>, loct: Seq<i32>, range: RangeS)
    -> Option<Seq<(Seq<i32>, RangeS, Seq<GroupStep>)>>
    decreases effects.len(),
{
    if effects.len() == 0 {
        Some(Seq::empty())
    } else {
        let last = match effects.last() {
            EffectS::Mut(g) => match group_paths(resolves(cm, Seq::empty()), co, cm, Seq::empty(), g) {
                Some(ps) => Some(ps.map_values(|x: (GroupPathV, KindGV)| (loct, range, flat(x.0)))),
                None => None,
            },
            EffectS::NotMut(_) => Some(Seq::empty()),
        };
        match (call_effects(co, cm, effects.drop_last(), loct, range), last) {
            (Some(a), Some(b)) => Some(a + b),
            _ => None,
        }
    }
}

/// Whether any of a sequence's nodes results in `Never`.
pub open spec fn some_diverges(gs: Seq<GEV>) -> bool {
    exists|i: int| 0 <= i < gs.len() && (#[trigger] result_v(gs[i])) is Never
}

/// A parameter read: its grouped kind, read against its written type under its own name.
#[verifier::opaque]
pub open spec fn node_arg(c: GroupingCtx, range: RangeS, index: u32, s: GroupingState) -> Option<(GEV, GroupingState)> {
    if index < c.fs.params@.len() && index < c.h.params@.len() && index <= i32::MAX {
        match grouped_kind(resolves(c.rm, lview(s.locals)), c.co, c.rm, lview(s.locals), c.h.params@[index as int].tyype,
            Some(c.fs.params@[index as int].tyype), Some(c.h.params@[index as int].name)) {
            Some(k) => Some((GEV::ArgLookup { range, param_index: index as i32, result: k }, s)),
            None => None,
        }
    } else {
        None
    }
}

/// A borrow of a bound local, into the local's own group.
#[verifier::opaque]
pub open spec fn node_local(range: RangeS, loct: Seq<i32>, name: IVarNameT, s: GroupingState) -> Option<(GEV, GroupingState)> {
    match lget(s.locals, name) {
        Some(k) => Some((GEV::LocalLookup { range, loct, name, tyype: k, result: local_borrow(name, k) }, s)),
        None => None,
    }
}

/// A move out of a bound local: the local's kind.
#[verifier::opaque]
pub open spec fn node_unlet(range: RangeS, name: IVarNameT, s: GroupingState) -> Option<(GEV, GroupingState)> {
    match lget(s.locals, name) {
        Some(k) => Some((GEV::Unlet { range, name, tyype: k, result: k }, s)),
        None => None,
    }
}

/// A load or decay through the borrow the operand walked to: the referent's kind; a load (a
/// referent that is no borrow) is logged through the operand's access chain.
#[verifier::opaque]
pub open spec fn node_deref(c: GroupingCtx, range: RangeS, loct: Seq<i32>, walked: Option<(GEV, GroupingState)>) -> Option<(GEV, GroupingState)> {
    match walked {
        Some((gi, s1)) => match result_v(gi) {
            KindGV::BorrowRef { group, inner: ik } => {
                let log = if *ik is BorrowRef { Some(s1.log) } else { read_logged(c.h.params@, gi, loct, s1.log) };
                match log {
                    Some(l) => Some((GEV::Deref { range, inner: Box::new(gi), result: *ik }, GroupingState { locals: s1.locals, log: l })),
                    None => None,
                }
            },
            _ => None,
        },
        None => None,
    }
}

/// A binding of a local to the value walked: the local takes the value's kind.
#[verifier::opaque]
pub open spec fn node_let_normal(range: RangeS, name: IVarNameT, walked: Option<(GEV, GroupingState)>) -> Option<(GEV, GroupingState)> {
    match walked {
        Some((ge, s1)) => Some((
            GEV::LetNormal { range, name, tyype: result_v(ge), expr: Box::new(ge), result: KindGV::Void },
            GroupingState { locals: lput(s1.locals, name, result_v(ge)), log: s1.log },
        )),
        None => None,
    }
}

/// A binding of a local that lends it: the local takes the value's kind, the loan points into the
/// local's own group.
#[verifier::opaque]
pub open spec fn node_let_and_lend(range: RangeS, loct: Seq<i32>, name: IVarNameT, walked: Option<(GEV, GroupingState)>) -> Option<(GEV, GroupingState)> {
    match walked {
        Some((ge, s1)) => Some((
            GEV::LetAndLend { range, loct, name, tyype: result_v(ge), expr: Box::new(ge), result: local_borrow(name, result_v(ge)) },
            GroupingState { locals: lput(s1.locals, name, result_v(ge)), log: s1.log },
        )),
        None => None,
    }
}

/// A sequence of the nodes walked: `Never` if any diverges, else the last one's kind; an empty
/// sequence has no answer.
#[verifier::opaque]
pub open spec fn node_seq(range: RangeS, walked: Option<(Seq<GEV>, GroupingState)>) -> Option<(GEV, GroupingState)> {
    match walked {
        Some((gs, s1)) => if gs.len() == 0 {
            None
        } else {
            let result = if some_diverges(gs) { KindGV::Never } else { result_v(gs.last()) };
            Some((GEV::Consecutor { range, exprs: gs, result }, s1))
        },
        None => None,
    }
}

/// A cast that keeps the value walked, to `cast_kind`.
#[verifier::opaque]
pub open spec fn node_reinterpret(c: GroupingCtx, range: RangeS, cast_kind: KindT, walked: Option<(GEV, GroupingState)>) -> Option<(GEV, GroupingState)> {
    match walked {
        Some((ge, s1)) => match cast_v(resolves(c.rm, lview(s1.locals)), c.co, c.rm, lview(s1.locals), cast_kind, result_v(ge)) {
            Some(k) => Some((GEV::Reinterpret { range, expr: Box::new(ge), result: k }, s1)),
            None => None,
        },
        None => None,
    }
}

/// An upcast of the value walked (to an interface, or through a generic bound), to `cast_kind`.
#[verifier::opaque]
pub open spec fn node_upcast(c: GroupingCtx, range: RangeS, to_interface: bool, cast_kind: KindT, walked: Option<(GEV, GroupingState)>)
    -> Option<(GEV, GroupingState)>
{
    match walked {
        Some((ge, s1)) => match cast_v(resolves(c.rm, lview(s1.locals)), c.co, c.rm, lview(s1.locals), cast_kind, result_v(ge)) {
            Some(k) => if to_interface {
                Some((GEV::UpcastInterface { range, inner_expr: Box::new(ge), result: k }, s1))
            } else {
                Some((GEV::UpcastGeneric { range, inner_expr: Box::new(ge), result: k }, s1))
            },
            None => None,
        },
        None => None,
    }
}

/// A weak reference to the value walked, whose typed referent is `referent`: weak references
/// carry no group.
#[verifier::opaque]
pub open spec fn node_weak(c: GroupingCtx, range: RangeS, referent: KindT, walked: Option<(GEV, GroupingState)>) -> Option<(GEV, GroupingState)> {
    match walked {
        Some((ge, s1)) => match grouped_kind(resolves(c.rm, lview(s1.locals)), c.co, c.rm, lview(s1.locals), referent, None, None) {
            Some(k) => Some((GEV::BorrowToWeak { range, inner_expr: Box::new(ge), result: KindGV::WeakRef(Box::new(k)) }, s1)),
            None => None,
        },
        None => None,
    }
}

/// A pop from the array walked: the element kind, groupless.
#[verifier::opaque]
pub open spec fn node_pop(c: GroupingCtx, range: RangeS, element_type: KindT, walked: Option<(GEV, GroupingState)>) -> Option<(GEV, GroupingState)> {
    match walked {
        Some((ga, s1)) => match grouped_kind(resolves(c.rm, lview(s1.locals)), c.co, c.rm, lview(s1.locals), element_type, None, None) {
            Some(k) => Some((GEV::PopRuntimeSizedArray { range, array_expr: Box::new(ga), result: k }, s1)),
            None => None,
        },
        None => None,
    }
}

/// A new runtime-sized array of the capacity walked: the array kind, groupless.
#[verifier::opaque]
pub open spec fn node_new_array(c: GroupingCtx, range: RangeS, array_type: RuntimeSizedArrayTT, walked: Option<(GEV, GroupingState)>)
    -> Option<(GEV, GroupingState)>
{
    match walked {
        Some((gc, s1)) => match grouped_kind(resolves(c.rm, lview(s1.locals)), c.co, c.rm, lview(s1.locals), KindT::RuntimeSizedArray(array_type), None, None) {
            Some(k) => Some((GEV::NewRuntimeSizedArray { range, capacity_expr: Box::new(gc), result: k }, s1)),
            None => None,
        },
        None => None,
    }
}

/// A copy of a primitive through the reference walked: a load, logged through its access chain.
#[verifier::opaque]
pub open spec fn node_copy_prim(c: GroupingCtx, range: RangeS, loct: Seq<i32>, result: KindT, walked: Option<(GEV, GroupingState)>)
    -> Option<(GEV, GroupingState)>
{
    match walked {
        Some((gi, s1)) => match (read_logged(c.h.params@, gi, loct, s1.log),
            grouped_kind(resolves(c.rm, lview(s1.locals)), c.co, c.rm, lview(s1.locals), result, None, None)) {
            (Some(l), Some(k)) => Some((GEV::CopyPrim { range, inner: Box::new(gi), result: k }, GroupingState { locals: s1.locals, log: l })),
            _ => None,
        },
        None => None,
    }
}

/// An element of the inline array `ga` (walked first), at the index walked: a borrow into the
/// array's own group.
#[verifier::opaque]
pub open spec fn node_element(range: RangeS, ga: GEV, walked: Option<(GEV, GroupingState)>) -> Option<(GEV, GroupingState)> {
    match walked {
        Some((gi, s2)) => match result_v(ga) {
            KindGV::BorrowRef { group, inner } => match *inner {
                KindGV::StaticSizedArray(e) => Some((
                    GEV::StaticSizedArrayLookup { range, array_expr: Box::new(ga), index_expr: Box::new(gi), result: KindGV::BorrowRef { group, inner: e } },
                    s2,
                )),
                _ => None,
            },
            _ => None,
        },
        None => None,
    }
}

/// A call of function `callable` (kind `result`, at `loct`, reported at `ranges`) on the
/// arguments walked: every argument borrow has a single group; a callee the outputs know takes
/// its rune map from its parameters matched against the arguments' kinds, groups the result
/// against its written return type through it, and churns what its effects declare through it;
/// an unknown callee is groupless and churns nothing. The call is logged with the groups its
/// arguments reach.
#[verifier::opaque]
pub open spec fn node_call(c: GroupingCtx, loct: Seq<i32>, ranges: Seq<RangeS>, callable: u32, result: KindT,
    walked: Option<(Seq<GEV>, GroupingState)>) -> Option<(GEV, GroupingState)>
{
    match walked {
        Some((gas, s1)) => if ranges.len() == 0 || !args_single(gas) {
            None
        } else {
            let lv = lview(s1.locals);
            let call = match function_template(c.co, callable) {
                Some(cf) => if cf.params@.len() != gas.len() {
                    None
                } else {
                    match callee_runes(c.co, cf.params@, gas.map_values(|g: GEV| result_v(g)), gas.len() as int) {
                        Some(cm) => {
                            let rk = match cf.maybe_return_type {
                                Some(rt) => grouped_kind(resolves(cm, lv), c.co, cm, lv, result, Some(rt), None),
                                None => grouped_kind(resolves(cm, lv), c.co, cm, lv, result, None, None),
                            };
                            match (rk, call_effects(c.co, cm, cf.effects@, loct, ranges[0])) {
                                (Some(k), Some(effs)) => Some((k, effs)),
                                _ => None,
                            }
                        },
                        None => None,
                    }
                },
                None => match grouped_kind(resolves(c.rm, lv), c.co, c.rm, lv, result, None, None) {
                    Some(k) => Some((k, Seq::empty())),
                    None => None,
                },
            };
            match call {
                Some((k, effs)) => Some((
                    GEV::FunctionCall { range: ranges[0], parent_ranges: ranges, loct, callable, args: gas, mut_effects: effs, result: k },
                    GroupingState { locals: s1.locals, log: s1.log.push(EventV::Call { touched: call_touched(gas), loct }) },
                )),
                None => None,
            }
        },
        None => None,
    }
}

/// The log after a store through `dest`: a store into the group its access chain reaches, if it
/// starts at a named borrow; `None` where a borrow on the chain has a union group.
pub open spec fn store_logged(params: Seq<ParameterT>, dest: GEV, loct: Seq<i32>, log: Seq<EventV>) -> Option<Seq<EventV>> {
    if chain_ok_v(params, dest) {
        match chain_v(params, dest) {
            Some((n, g, st)) => Some(log.push(EventV::Store { group: reached_group(g, st), loct })),
            None => Some(log),
        }
    } else {
        None
    }
}

/// The borrow a member access goes through, read through any borrow of a borrow: the group of
/// the borrow that points at the referent, and the referent.
pub open spec fn peel(k: KindGV) -> Option<(Seq<GroupPathV>, KindGV)>
    decreases k,
{
    match k {
        KindGV::BorrowRef { group, inner } => match *inner {
            KindGV::BorrowRef { .. } => peel(*inner),
            other => Some((group, other)),
        },
        _ => None,
    }
}

/// A member of the struct the walked operand borrows: a borrow of the member's kind (as the struct
/// declares it under its template arguments) into the member's group below the struct's.
#[verifier::opaque]
pub open spec fn node_member(c: GroupingCtx, range: RangeS, member_name: IVarNameT, walked: Option<(GEV, GroupingState)>)
    -> Option<(GEV, GroupingState)>
{
    match walked {
        Some((gs, s1)) => match (member_name, peel(result_v(gs))) {
            (IVarNameT::Member(name), Some((group, k))) => match struct_members(c.co, k) {
                Some(ms) => match member_of(ms, name) {
                    Some(mk) => Some((
                        GEV::MemberLookup {
                            range, struct_expr: Box::new(gs), member_name: name,
                            result: KindGV::BorrowRef {
                                group: group.map_values(|p: GroupPathV| with_step(p, GroupChildStepG::Member { member_name: name })),
                                inner: Box::new(mk),
                            },
                        },
                        s1,
                    )),
                    None => None,
                },
                None => None,
            },
            _ => None,
        },
        None => None,
    }
}

/// An element of the runtime-sized array `ga` (walked first), at the index walked: a borrow into
/// the array's elements group.
#[verifier::opaque]
pub open spec fn node_rsa_element(range: RangeS, ga: GEV, walked: Option<(GEV, GroupingState)>) -> Option<(GEV, GroupingState)> {
    match walked {
        Some((gi, s2)) => match result_v(ga) {
            KindGV::BorrowRef { group, inner } => match *inner {
                KindGV::RuntimeSizedArray(e) => Some((
                    GEV::RuntimeSizedArrayLookup {
                        range, array_expr: Box::new(ga), index_expr: Box::new(gi),
                        result: KindGV::BorrowRef {
                            group: group.map_values(|p: GroupPathV| with_step(p, GroupChildStepG::ChildElements {})),
                            inner: e,
                        },
                    },
                    s2,
                )),
                _ => None,
            },
            _ => None,
        },
        None => None,
    }
}

/// A conditional on `gc` with then-branch `gt` (walked in that order), and the else-branch walked:
/// the then-branch's kind unless it diverges, else the else-branch's.
#[verifier::opaque]
pub open spec fn node_if(range: RangeS, gc: GEV, gt: GEV, walked: Option<(GEV, GroupingState)>) -> Option<(GEV, GroupingState)> {
    match walked {
        Some((ge, s3)) => Some((
            GEV::If {
                range, condition: Box::new(gc), then_call: Box::new(gt), else_call: Box::new(ge),
                result: if result_v(gt) is Never { result_v(ge) } else { result_v(gt) },
            },
            s3,
        )),
        None => None,
    }
}

/// A store through the borrow `gd` (walked first) of the source walked: the value replaced, the
/// destination's referent; the store is logged through the destination's access chain.
#[verifier::opaque]
pub open spec fn node_mutate(c: GroupingCtx, range: RangeS, loct: Seq<i32>, gd: GEV, walked: Option<(GEV, GroupingState)>)
    -> Option<(GEV, GroupingState)>
{
    match walked {
        Some((gsrc, s2)) => match result_v(gd) {
            KindGV::BorrowRef { group, inner } => match store_logged(c.h.params@, gd, loct, s2.log) {
                Some(l) => Some((
                    GEV::Mutate { range, loct, destination_expr: Box::new(gd), source_expr: Box::new(gsrc), result: *inner },
                    GroupingState { locals: s2.locals, log: l },
                )),
                None => None,
            },
            _ => None,
        },
        None => None,
    }
}

/// Putting the value walked back into local `name`, bound (before the walk) to `bound`.
#[verifier::opaque]
pub open spec fn node_restackify(range: RangeS, name: IVarNameT, bound: Option<KindGV>, walked: Option<(GEV, GroupingState)>)
    -> Option<(GEV, GroupingState)>
{
    match (bound, walked) {
        (Some(k), Some((gsrc, s1))) => Some((
            GEV::Restackify { range, name, tyype: k, source_expr: Box::new(gsrc), result: KindGV::Void },
            s1,
        )),
        _ => None,
    }
}

/// The arguments walked of a node with no callee signature to read (a construction, a virtual,
/// extern or bound call), with its kind `result` groupless.
#[verifier::opaque]
pub open spec fn node_groupless(c: GroupingCtx, result: KindT, walked: Option<(Seq<GEV>, GroupingState)>)
    -> Option<(Seq<GEV>, KindGV, GroupingState)>
{
    match walked {
        Some((gas, s1)) => match grouped_kind(resolves(c.rm, lview(s1.locals)), c.co, c.rm, lview(s1.locals), result, None, None) {
            Some(k) => Some((gas, k, s1)),
            None => None,
        },
        None => None,
    }
}

/// The node walked under a node whose own kind `result` is groupless: the walked node, the kind,
/// and the state after.
#[verifier::opaque]
pub open spec fn node_one_groupless(c: GroupingCtx, result: KindT, walked: Option<(GEV, GroupingState)>) -> Option<(GEV, KindGV, GroupingState)> {
    match walked {
        Some((g, s1)) => match grouped_kind(resolves(c.rm, lview(s1.locals)), c.co, c.rm, lview(s1.locals), result, None, None) {
            Some(k) => Some((g, k, s1)),
            None => None,
        },
        None => None,
    }
}

/// The node walked under a cast to `cast_kind`: the walked node, the cast's kind (the operand's
/// group, the cast kind's structure), and the state after.
#[verifier::opaque]
pub open spec fn node_cast(c: GroupingCtx, cast_kind: KindT, walked: Option<(GEV, GroupingState)>) -> Option<(GEV, KindGV, GroupingState)> {
    match walked {
        Some((g, s1)) => match cast_v(resolves(c.rm, lview(s1.locals)), c.co, c.rm, lview(s1.locals), cast_kind, result_v(g)) {
            Some(k) => Some((g, k, s1)),
            None => None,
        },
        None => None,
    }
}

/// The locals after binding each of `names`, in order, to `k`.
pub open spec fn lput_all(ls: Seq<((u32, u32), KindGV)>, names: Seq<IVarNameT>, k: KindGV) -> Seq<((u32, u32), KindGV)>
    decreases names.len(),
{
    if names.len() == 0 {
        ls
    } else {
        lput(lput_all(ls, names.drop_last(), k), names.last(), k)
    }
}

/// The inline array walked, moved element by element into the locals `names`: each local takes
/// the array's element kind.
#[verifier::opaque]
pub open spec fn node_destroy_into_locals(c: GroupingCtx, range: RangeS, array_type: StaticSizedArrayTT, names: Seq<IVarNameT>,
    walked: Option<(GEV, GroupingState)>) -> Option<(GEV, GroupingState)>
{
    match walked {
        Some((ge, s1)) => match grouped_kind(resolves(c.rm, lview(s1.locals)), c.co, c.rm, lview(s1.locals), KindT::StaticSizedArray(array_type), None, None) {
            Some(KindGV::StaticSizedArray(e)) => Some((
                GEV::DestroyStaticSizedArrayIntoLocals {
                    range, expr: Box::new(ge), variables: names.map_values(|n: IVarNameT| (n, *e)), result: KindGV::Void,
                },
                GroupingState { locals: lput_all(s1.locals, names, *e), log: s1.log },
            )),
            _ => None,
        },
        None => None,
    }
}

/// No two members share a name.
pub open spec fn names_distinct(ms: Seq<(StrI, KindGV)>) -> bool {
    forall|i: int, j: int| 0 <= i < ms.len() && 0 <= j < ms.len() && i != j ==> ms[i].0 != ms[j].0
}

/// The locals after binding each name to its kind, in order.
pub open spec fn lput_pairs(ls: Seq<((u32, u32), KindGV)>, pairs: Seq<(IVarNameT, KindGV)>) -> Seq<((u32, u32), KindGV)>
    decreases pairs.len(),
{
    if pairs.len() == 0 {
        ls
    } else {
        lput(lput_pairs(ls, pairs.drop_last()), pairs.last().0, pairs.last().1)
    }
}

/// The struct walked, destructured member by member into the locals `names`: each local takes its
/// member's kind as the struct declares it, in member order; a struct whose member count differs
/// from the locals', or with two members of one name, has no answer.
#[verifier::opaque]
pub open spec fn node_destroy(c: GroupingCtx, range: RangeS, loct: Seq<i32>, names: Seq<IVarNameT>, walked: Option<(GEV, GroupingState)>)
    -> Option<(GEV, GroupingState)>
{
    match walked {
        Some((ge, s1)) => match struct_members(c.co, result_v(ge)) {
            Some(ms) => if ms.len() == names.len() && names_distinct(ms) {
                let vars = Seq::new(names.len(), |i: int| (names[i], ms[i].1));
                Some((
                    GEV::Destroy { range, loct, expr: Box::new(ge), variables: vars, result: KindGV::Void },
                    GroupingState { locals: lput_pairs(s1.locals, vars), log: s1.log },
                ))
            } else {
                None
            },
            None => None,
        },
        None => None,
    }
}

/// A loop around the body walked: the loop churns every group its body churns (a reference is
/// spoiled on the first iteration by a churn from any later one); its own kind `result` groupless.
#[verifier::opaque]
pub open spec fn node_while(c: GroupingCtx, range: RangeS, block_range: RangeS, result: KindT, walked: Option<(GEV, GroupingState)>)
    -> Option<(GEV, GroupingState)>
{
    match walked {
        Some((gb, s1)) => match grouped_kind(resolves(c.rm, lview(s1.locals)), c.co, c.rm, lview(s1.locals), result, None, None) {
            Some(k) => Some((
                GEV::While { range, block_range, body: Box::new(gb), block_result: result_v(gb), mut_effects: churns_of(gb), result: k },
                s1,
            )),
            None => None,
        },
        None => None,
    }
}

/// The grouped twin of typed node `te` walked from state `s`, and the state after it; `None` where
/// the walk has no answer (an unbound local, an argument out of range, a dereference of a
/// non-borrow, a union borrow on an access chain or a call argument, a callee whose parameters do
/// not match its arguments, an empty sequence, a kind with no grouped form).
pub open spec fn grouped_node(c: GroupingCtx, te: ExpressionTE, s: GroupingState) -> Option<(GEV, GroupingState)>
    decreases te, 1int,
{
    match te {
        ExpressionTE::VoidLiteral { range } => Some((GEV::VoidLiteral { range, result: KindGV::Void }, s)),
        ExpressionTE::ConstantInt { range, value, bits } => Some((GEV::ConstantInt { range, value, bits, result: KindGV::Int }, s)),
        ExpressionTE::ConstantBool { range, value } => Some((GEV::ConstantBool { range, value, result: KindGV::Bool }, s)),
        ExpressionTE::ArgLookup { range, loct, index, tyype } => node_arg(c, range, index, s),
        ExpressionTE::LocalLookup { range, loct, variable } => node_local(range, loct@, variable.name, s),
        ExpressionTE::Deref { range, loct, inner } => node_deref(c, range, loct@, grouped_node(c, *inner, s)),
        ExpressionTE::Unlet { range, variable } => node_unlet(range, variable.name, s),
        ExpressionTE::LetNormal { range, variable, expr } => node_let_normal(range, variable.name, grouped_node(c, *expr, s)),
        ExpressionTE::LetAndLend { range, loct, variable, expr } => node_let_and_lend(range, loct@, variable.name, grouped_node(c, *expr, s)),
        ExpressionTE::Discard { range, expr } => match grouped_node(c, *expr, s) {
            Some((ge, s1)) => Some((GEV::Discard { range, expr: Box::new(ge), result: KindGV::Void }, s1)),
            None => None,
        },
        ExpressionTE::Return { range, expr } => match grouped_node(c, *expr, s) {
            Some((ge, s1)) => Some((GEV::Return { range, source_expr: Box::new(ge), result: KindGV::Never }, s1)),
            None => None,
        },
        ExpressionTE::Block { range, inner } => match grouped_node(c, *inner, s) {
            Some((gi, s1)) => Some((GEV::Block { range, inner: Box::new(gi), result: result_v(gi) }, s1)),
            None => None,
        },
        ExpressionTE::Consecutor { range, exprs } => {
            proof { assert(decreases_to!(exprs => exprs@)); }
            node_seq(range, grouped_nodes(c, exprs@, s))
        },
        ExpressionTE::Reinterpret { range, expr, result } => node_reinterpret(c, range, result, grouped_node(c, *expr, s)),
        ExpressionTE::BorrowToWeak { range, expr } => node_weak(c, range, deref_of(result_of_te(*expr)), grouped_node(c, *expr, s)),
        ExpressionTE::FunctionCall { loct, range, callable, args, result } => {
            proof { assert(decreases_to!(args => args@)); }
            node_call(c, loct@, range@, callable.id, result, grouped_nodes(c, args@, s))
        },
        ExpressionTE::PopRuntimeSizedArray { range, array_expr, element_type } => node_pop(c, range, element_type, grouped_node(c, *array_expr, s)),
        ExpressionTE::NewRuntimeSizedArray { range, array_type, capacity_expr } => node_new_array(c, range, array_type, grouped_node(c, *capacity_expr, s)),
        ExpressionTE::CopyPrim { range, loct, expr, result } => node_copy_prim(c, range, loct@, result, grouped_node(c, *expr, s)),
        ExpressionTE::UpcastInterface { range, expr, target_super, impl_id } =>
            node_upcast(c, range, true, rewrap(result_of_te(*expr), target_super), grouped_node(c, *expr, s)),
        ExpressionTE::UpcastGeneric { range, expr, target_super, impl_id } =>
            node_upcast(c, range, false, rewrap(result_of_te(*expr), target_super), grouped_node(c, *expr, s)),
        ExpressionTE::StaticSizedArrayLookup { range, loct, array_expr, index_expr, element_type } => match grouped_node(c, *array_expr, s) {
            Some((ga, s1)) => node_element(range, ga, grouped_node(c, *index_expr, s1)),
            None => None,
        },
        ExpressionTE::MemberLookup { range, loct, struct_expr, member_name, result } =>
            node_member(c, range, member_name, grouped_node(c, *struct_expr, s)),
        ExpressionTE::RuntimeSizedArrayLookup { range, loct, array_expr, index_expr, element_type } => match grouped_node(c, *array_expr, s) {
            Some((ga, s1)) => node_rsa_element(range, ga, grouped_node(c, *index_expr, s1)),
            None => None,
        },
        ExpressionTE::If { range, loct, condition, then_call, else_call, result } => match grouped_node(c, *condition, s) {
            Some((gc, s1)) => match grouped_node(c, *then_call, s1) {
                Some((gt, s2)) => node_if(range, gc, gt, grouped_node(c, *else_call, s2)),
                None => None,
            },
            None => None,
        },
        ExpressionTE::Mutate { range, loct, destination_expr, source_expr, result } => match grouped_node(c, *destination_expr, s) {
            Some((gd, s1)) => node_mutate(c, range, loct@, gd, grouped_node(c, *source_expr, s1)),
            None => None,
        },
        ExpressionTE::Restackify { range, variable, source_expr } =>
            node_restackify(range, variable.name, lget(s.locals, variable.name), grouped_node(c, *source_expr, s)),
        ExpressionTE::Break { range } => Some((GEV::Break { range, result: KindGV::Never }, s)),
        ExpressionTE::ConstantStr { range, value } =>
            Some((GEV::ConstantStr { range, value, result: KindGV::ShareRef(Box::new(KindGV::Str)) }, s)),
        ExpressionTE::ArrayLength { range, array_expr } => match grouped_node(c, *array_expr, s) {
            Some((ga, s1)) => Some((GEV::ArrayLength { range, array_expr: Box::new(ga), result: KindGV::Int }, s1)),
            None => None,
        },
        ExpressionTE::Construct { range, args, result } => {
            proof { assert(decreases_to!(args => args@)); }
            match node_groupless(c, result, grouped_nodes(c, args@, s)) {
                Some((gas, k, s1)) => Some((GEV::Construct { range, args: gas, result: k }, s1)),
                None => None,
            }
        },
        ExpressionTE::InterfaceFunctionCall { range, args, result } => {
            proof { assert(decreases_to!(args => args@)); }
            match node_groupless(c, result, grouped_nodes(c, args@, s)) {
                Some((gas, k, s1)) => Some((GEV::InterfaceFunctionCall { range, args: gas, result: k }, s1)),
                None => None,
            }
        },
        ExpressionTE::ExternFunctionCall { range, args, result } => {
            proof { assert(decreases_to!(args => args@)); }
            match node_groupless(c, result, grouped_nodes(c, args@, s)) {
                Some((gas, k, s1)) => Some((GEV::ExternFunctionCall { range, args: gas, result: k }, s1)),
                None => None,
            }
        },
        ExpressionTE::BoundFunctionCall { range, args, result } => {
            proof { assert(decreases_to!(args => args@)); }
            match node_groupless(c, result, grouped_nodes(c, args@, s)) {
                Some((gas, k, s1)) => Some((GEV::BoundFunctionCall { range, args: gas, result: k }, s1)),
                None => None,
            }
        },
        ExpressionTE::LockWeak { range, inner_expr, result } => match node_one_groupless(c, result, grouped_node(c, *inner_expr, s)) {
            Some((g, k, s1)) => Some((GEV::LockWeak { range, inner_expr: Box::new(g), result: k }, s1)),
            None => None,
        },
        ExpressionTE::StaticArrayFromValues { range, elements, result } => {
            proof { assert(decreases_to!(elements => elements@)); }
            match node_groupless(c, result, grouped_nodes(c, elements@, s)) {
                Some((gs, k, s1)) => Some((GEV::StaticArrayFromValues { range, elements: gs, result: k }, s1)),
                None => None,
            }
        },
        ExpressionTE::ArraySize { range, array, result } => match node_one_groupless(c, result, grouped_node(c, *array, s)) {
            Some((g, k, s1)) => Some((GEV::ArraySize { range, array: Box::new(g), result: k }, s1)),
            None => None,
        },
        ExpressionTE::IsSameInstance { range, left, right, result } => match grouped_node(c, *left, s) {
            Some((gl, s1)) => match node_one_groupless(c, result, grouped_node(c, *right, s1)) {
                Some((gr, k, s2)) => Some((GEV::IsSameInstance { range, left: Box::new(gl), right: Box::new(gr), result: k }, s2)),
                None => None,
            },
            None => None,
        },
        ExpressionTE::AsSubtype { range, source_expr, result } => match node_cast(c, result, grouped_node(c, *source_expr, s)) {
            Some((g, k, s1)) => Some((GEV::AsSubtype { range, source_expr: Box::new(g), result: k }, s1)),
            None => None,
        },
        ExpressionTE::ConstantFloat { range } => Some((GEV::ConstantFloat { range, result: KindGV::Float }, s)),
        ExpressionTE::StaticArrayFromCallable { range, generator, result } => match node_one_groupless(c, result, grouped_node(c, *generator, s)) {
            Some((g, k, s1)) => Some((GEV::StaticArrayFromCallable { range, generator: Box::new(g), result: k }, s1)),
            None => None,
        },
        ExpressionTE::DestroyStaticSizedArrayIntoFunction { range, array_expr, consumer } => match grouped_node(c, *array_expr, s) {
            Some((ga, s1)) => match grouped_node(c, *consumer, s1) {
                Some((gc, s2)) => Some((
                    GEV::DestroyStaticSizedArrayIntoFunction { range, array_expr: Box::new(ga), consumer: Box::new(gc), result: KindGV::Void },
                    s2,
                )),
                None => None,
            },
            None => None,
        },
        ExpressionTE::DestroyStaticSizedArrayIntoLocals { range, expr, static_sized_array, destination_reference_variables } => {
            proof { assert(decreases_to!(destination_reference_variables => destination_reference_variables@)); }
            node_destroy_into_locals(c, range, static_sized_array,
                destination_reference_variables@.map_values(|v: LocalVariableT| v.name), grouped_node(c, *expr, s))
        },
        ExpressionTE::DestroyRuntimeSizedArray { range, array_expr } => match grouped_node(c, *array_expr, s) {
            Some((ga, s1)) => Some((GEV::DestroyRuntimeSizedArray { range, array_expr: Box::new(ga), result: KindGV::Void }, s1)),
            None => None,
        },
        ExpressionTE::RuntimeSizedArrayCapacity { range, array_expr, result } => match node_one_groupless(c, result, grouped_node(c, *array_expr, s)) {
            Some((g, k, s1)) => Some((GEV::RuntimeSizedArrayCapacity { range, array_expr: Box::new(g), result: k }, s1)),
            None => None,
        },
        ExpressionTE::PushRuntimeSizedArray { range, array_expr, new_element_expr } => match grouped_node(c, *array_expr, s) {
            Some((ga, s1)) => match grouped_node(c, *new_element_expr, s1) {
                Some((ge, s2)) => Some((
                    GEV::PushRuntimeSizedArray { range, array_expr: Box::new(ga), new_element_expr: Box::new(ge), result: KindGV::Void },
                    s2,
                )),
                None => None,
            },
            None => None,
        },
        ExpressionTE::InterfaceToInterfaceUpcast { range, inner_expr, result } => match node_cast(c, result, grouped_node(c, *inner_expr, s)) {
            Some((g, k, s1)) => Some((GEV::InterfaceToInterfaceUpcast { range, inner_expr: Box::new(g), result: k }, s1)),
            None => None,
        },
        ExpressionTE::While { range, loct, block_range, body, result } => node_while(c, range, block_range, result, grouped_node(c, *body, s)),
        ExpressionTE::Destroy { range, loct, expr, destination_reference_variables } => {
            proof { assert(decreases_to!(destination_reference_variables => destination_reference_variables@)); }
            node_destroy(c, range, loct@, destination_reference_variables@.map_values(|v: LocalVariableT| v.name), grouped_node(c, *expr, s))
        },
    }
}

/// The grouped twins of a sequence of typed nodes walked in order, and the state after them.
pub open spec fn grouped_nodes(c: GroupingCtx, tes: Seq<ExpressionTE>, s: GroupingState) -> Option<(Seq<GEV>, GroupingState)>
    decreases tes, 0int,
{
    if tes.len() == 0 {
        Some((Seq::empty(), s))
    } else {
        match grouped_nodes(c, tes.drop_last(), s) {
            Some((gs, s1)) => match grouped_node(c, tes.last(), s1) {
                Some((g, s2)) => Some((gs.push(g), s2)),
                None => None,
            },
            None => None,
        }
    }
}

/// A template argument or rune binding as the pass builds it (its kinds valid).
pub open spec fn templata_valid(t: TemplataGV) -> bool {
    match t {
        TemplataGV::Kind(k) => kind_valid(k),
        TemplataGV::Group { group, kind } => kind_valid(kind),
        _ => true,
    }
}

/// Two entry lists with the same keys find each key at the same place.
proof fn lemma_find_key_same<A, B>(s1: Seq<((u32, u32), A)>, s2: Seq<((u32, u32), B)>, k: (u32, u32))
    requires
        s1.len() == s2.len(),
        forall|i: int| 0 <= i < s1.len() ==> s1[i].0 == s2[i].0,
    ensures find_key(s1, k) == find_key(s2, k),
    decreases s1.len(),
{
    if s1.len() > 0 && s1[0].0 != k {
        assert forall|i: int| 0 <= i < s1.len() - 1 implies s1.drop_first()[i].0 == s2.drop_first()[i].0 by {
            assert(s1.drop_first()[i] == s1[i + 1]);
            assert(s2.drop_first()[i] == s2[i + 1]);
        }
        lemma_find_key_same(s1.drop_first(), s2.drop_first(), k);
    }
}

/// A local map read as the walk's locals: the same locals the grouping of kinds reads, found by
/// the same key.
proof fn lemma_lstate(m: KeyedMap<KindGT>, name: IVarNameT)
    requires m.wf(),
    ensures
        lview(lstate(m)) == locals_v(m),
        find_key(lstate(m), var_code(name)) == find_key(slot_entries(m.index), var_code(name)),
        lget(lstate(m), name) == (match m.at(var_code(name)) {
            Some(k) => Some(kind_v(k)),
            None => None,
        }),
        locals_valid(locals_v(m)) ==> (lget(lstate(m), name) matches Some(k) ==> kind_valid(k)),
{
    lemma_find_key_same(lstate(m), slot_entries(m.index), var_code(name));
    lemma_find_key(slot_entries(m.index), var_code(name));
    match find_key(slot_entries(m.index), var_code(name)) {
        Some(i) => {
            assert(lstate(m)[i].1 == kind_v(m.values@[slot_entries(m.index)[i].1 as int]));
            assert(lview(lstate(m))[i].1 == lstate(m)[i].1);
        },
        None => {},
    }
    assert(lview(lstate(m)) =~= locals_v(m));
}

/// Storing a local's kind in a local map binds it in the walk's locals; valid locals stay valid.
proof fn lemma_lput(old_m: KeyedMap<KindGT>, new_m: KeyedMap<KindGT>, name: IVarNameT, v: KindGT)
    requires
        old_m.wf(),
        old_m.at(var_code(name)) is None ==> new_m.entries() == old_m.entries().push((var_code(name), v)),
        old_m.at(var_code(name)) is Some ==> new_m.entries()
            == old_m.entries().update(find_key(slot_entries(old_m.index), var_code(name))->0, (var_code(name), v)),
    ensures
        lstate(new_m) == lput(lstate(old_m), name, kind_v(v)),
        locals_valid(locals_v(old_m)) && kind_valid(kind_v(v)) ==> locals_valid(locals_v(new_m)),
{
    let c = var_code(name);
    lemma_find_key(slot_entries(old_m.index), c);
    lemma_lstate(old_m, name);
    assert(lstate(new_m) =~= lput(lstate(old_m), name, kind_v(v)));
    if locals_valid(locals_v(old_m)) && kind_valid(kind_v(v)) {
        assert forall|i: int| 0 <= i < locals_v(new_m).len() implies kind_valid(#[trigger] locals_v(new_m)[i].1) by {
            if i < old_m.entries().len() && !(old_m.at(c) is Some && i == find_key(slot_entries(old_m.index), c)->0) {
        assert(locals_v(new_m)[i] == locals_v(old_m)[i]);
            }
        }
    }
}

/// A grouped node's value results in the node's own kind.
pub proof fn lemma_result_v(e: ExpressionGE)
    requires !(gev(e) is Other),
    ensures result_v(gev(e)) == kind_v(result_of(e)),
{
}

/// Matching a written type against a valid templata keeps a valid rune map valid.
proof fn lemma_matched_valid(co: CompilerOutputs, ts: ITypeST, tg: TemplataGV, m: Map<IRuneS, TemplataGV>)
    requires runes_valid(m), templata_valid(tg),
    ensures matched(co, ts, tg, m) matches Some(m1) ==> runes_valid(m1),
    decreases ts, 1int, 0int,
{
    match ts {
        ITypeST::BorrowRef(bst) => match tg {
            TemplataGV::Kind(KindGV::BorrowRef { group, inner }) => {
                lemma_matched_valid(co, *bst.inner, TemplataGV::Kind(*inner), m);
            },
            _ => {},
        },
        ITypeST::Call { template, args } => {
            assert(decreases_to!(args => args@));
            match tg {
                TemplataGV::Kind(KindGV::Struct { id, template: t, args: gargs }) => {
                    lemma_matched_valid(co, *template, TemplataGV::StructDefinition(t), m);
                    match matched(co, *template, TemplataGV::StructDefinition(t), m) {
                        Some(m1) => { lemma_matched_args_valid(co, args@, gargs, m1, 0); },
                        None => {},
                    }
                },
                TemplataGV::Kind(KindGV::Interface { id, template: t, args: gargs }) => {
                    lemma_matched_valid(co, *template, TemplataGV::InterfaceDefinition(t), m);
                    match matched(co, *template, TemplataGV::InterfaceDefinition(t), m) {
                        Some(m1) => { lemma_matched_args_valid(co, args@, gargs, m1, 0); },
                        None => {},
                    }
                },
                _ => {},
            }
        },
        ITypeST::RuntimeSizedArray { element } => match tg {
            TemplataGV::Kind(KindGV::RuntimeSizedArray(e)) => {
                lemma_matched_valid(co, *element, TemplataGV::Kind(*e), m);
            },
            _ => {},
        },
        _ => {},
    }
}

/// Matching written arguments against valid citizen arguments keeps a valid rune map valid.
proof fn lemma_matched_args_valid(co: CompilerOutputs, ws: Seq<ITypeST>, gs: Seq<TemplataGV>, m: Map<IRuneS, TemplataGV>, i: int)
    requires runes_valid(m), args_valid(gs),
    ensures matched_args(co, ws, gs, m, i) matches Some(m1) ==> runes_valid(m1),
    decreases ws, 0int, ws.len() - i,
{
    if 0 <= i < ws.len() && i < gs.len() {
        lemma_args_valid(gs);
        assert(templata_valid(gs[i]));
        lemma_matched_valid(co, ws[i], gs[i], m);
        match matched(co, ws[i], gs[i], m) {
            Some(m1) => { lemma_matched_args_valid(co, ws, gs, m1, i + 1); },
            None => {},
        }
    }
}

/// A callee's rune map read off valid argument kinds is valid.
proof fn lemma_callee_runes_valid(co: CompilerOutputs, params: Seq<ParameterS>, arg_kinds: Seq<KindGV>, k: int)
    requires
        k <= arg_kinds.len(),
        forall|i: int| 0 <= i < arg_kinds.len() ==> kind_valid(#[trigger] arg_kinds[i]),
    ensures callee_runes(co, params, arg_kinds, k) matches Some(m) ==> runes_valid(m),
    decreases k,
{
    if k > 0 {
        lemma_callee_runes_valid(co, params, arg_kinds, k - 1);
        match callee_runes(co, params, arg_kinds, k - 1) {
            Some(m) => {
        assert(kind_valid(arg_kinds[k - 1]));
                lemma_matched_valid(co, params[k - 1].tyype, TemplataGV::Kind(arg_kinds[k - 1]), m);
            },
            None => {},
        }
    } else {
        assert(runes_valid(Map::<IRuneS, TemplataGV>::empty()));
    }
}

/// A call's churns resolve on every prefix of the callee's effects.
proof fn lemma_call_effects_prefix(co: CompilerOutputs, cm: Map<IRuneS, TemplataGV>, effects: Seq<EffectS>, loct: Seq<i32>,
    range: RangeS, j: int)
    requires call_effects(co, cm, effects, loct, range) is Some, 0 <= j <= effects.len(),
    ensures call_effects(co, cm, effects.subrange(0, j), loct, range) is Some,
    decreases effects.len(),
{
    if j < effects.len() {
        assert(effects.drop_last().subrange(0, j) =~= effects.subrange(0, j));
        lemma_call_effects_prefix(co, cm, effects.drop_last(), loct, range, j);
    } else {
        assert(effects.subrange(0, j) =~= effects);
    }
}

/// A walk over a sequence has an answer on every prefix.
proof fn lemma_grouped_nodes_prefix(c: GroupingCtx, tes: Seq<ExpressionTE>, s: GroupingState, j: int)
    requires grouped_nodes(c, tes, s) is Some, 0 <= j <= tes.len(),
    ensures grouped_nodes(c, tes.subrange(0, j), s) is Some,
    decreases tes.len(),
{
    if j < tes.len() {
        assert(tes.drop_last().subrange(0, j) =~= tes.subrange(0, j));
        lemma_grouped_nodes_prefix(c, tes.drop_last(), s, j);
    } else {
        assert(tes.subrange(0, j) =~= tes);
    }
}


/// The walk's context for a body: the outputs, the written and typed headers, the rune map.
pub open spec fn grouping_ctx(co: CompilerOutputs, fs: FunctionS, h: FunctionHeaderT, rm: KeyedMap<ITemplataG>) -> GroupingCtx {
    GroupingCtx { co, fs, h, rm: runes_v(rm) }
}

/// The walk's state as a local map and an access log hold it.
pub open spec fn grouping_state(lm: KeyedMap<KindGT>, log: Seq<AccessEventG>) -> GroupingState {
    GroupingState { locals: lstate(lm), log: log_v(log) }
}

/// Walking `te` from `s` gives the node `g` and ends in state `s2`.
pub open spec fn walks_to(c: GroupingCtx, te: ExpressionTE, s: GroupingState, g: GEV, s2: GroupingState) -> bool {
    grouped_node(c, te, s) == Some((g, s2))
}

/// Walking `tes` in order from `s` gives the nodes `gs` and ends in state `s2`.
pub open spec fn walks_all_to(c: GroupingCtx, tes: Seq<ExpressionTE>, s: GroupingState, gs: Seq<GEV>, s2: GroupingState) -> bool {
    grouped_nodes(c, tes, s) == Some((gs, s2))
}

/// Every node of a list is one the walk builds, with a valid kind.
pub open spec fn all_built(es: Seq<ExpressionGE>) -> bool {
    forall|i: int| 0 <= i < es.len() ==> !(#[trigger] gev(es[i]) is Other) && kind_valid(kind_v(result_of(es[i])))
}

/// A function's grouped body and the accesses it makes, in walk order: the body walked under the
/// function's own rune map from no locals and an empty log.
pub open spec fn grouped_function(co: CompilerOutputs, fs: FunctionS, h: FunctionHeaderT, body: ExpressionTE) -> Option<(GEV, Seq<EventV>)> {
    match function_rune_map(co, fs, h) {
        Some(rm) => match grouped_node(GroupingCtx { co, fs, h, rm }, body, GroupingState { locals: Seq::empty(), log: Seq::empty() }) {
            Some((g, s)) => Some((g, s.log)),
            None => None,
        },
        None => None,
    }
}

impl Compiler {
    /// The grouped body of a function with header `h` (written as `fs`) and typed body `body`, and
    /// the accesses it makes in walk order: locals are bound as the body binds them, starting from
    /// none.
    pub fn groupify_function(&self, co: &CompilerOutputs, fs: &FunctionS, h: &FunctionHeaderT, body: &ExpressionTE)
        -> (r: (ExpressionGE, Vec<AccessEventG>))
        requires
            grouped_function(*co, *fs, *h, *body) is Some,
        ensures
            grouped_function(*co, *fs, *h, *body) == Some((gev(r.0), log_v(r.1@))),
    {
        let mut access_log: Vec<AccessEventG> = Vec::new();
        let rm = self.build_rune_map(co, fs, h);
        let mut lm: KeyedMap<KindGT> = KeyedMap::new();
        proof {
            assert(lstate(lm) =~= Seq::<((u32, u32), KindGV)>::empty());
            assert(log_v(access_log@) =~= Seq::<EventV>::empty());
            assert(locals_v(lm) =~= Seq::<(IVarNameT, KindGV)>::empty());
            assert(grouping_state(lm, access_log@) == (GroupingState { locals: Seq::empty(), log: Seq::empty() }));
        }
        let body_g = self.groupify_expression(co, fs, h, &mut access_log, body, &rm, &mut lm);
        (body_g, access_log)
    }

    /// The grouped twin of typed node `te`: each reference's kind carries its group, each call its
    /// instantiated churns; locals are bound in `lm` as their binding nodes are walked, and every
    /// load through a named reference and every call is logged, in walk order.
    pub fn groupify_expression(&self, co: &CompilerOutputs, fs: &FunctionS, h: &FunctionHeaderT, access_log: &mut Vec<AccessEventG>, te: &ExpressionTE,
        rm: &KeyedMap<ITemplataG>, lm: &mut KeyedMap<KindGT>) -> (r: ExpressionGE)
        requires
            rm.wf(),
            runes_valid(runes_v(*rm)),
            old(lm).wf(),
            locals_valid(locals_v(*old(lm))),
            grouped_node(grouping_ctx(*co, *fs, *h, *rm), *te, grouping_state(*old(lm), old(access_log)@)) is Some,
        ensures
            final(lm).wf(),
            locals_valid(locals_v(*final(lm))),
            walks_to(grouping_ctx(*co, *fs, *h, *rm), *te, grouping_state(*old(lm), old(access_log)@), gev(r),
                grouping_state(*final(lm), final(access_log)@)),
            !(gev(r) is Other),
            kind_valid(kind_v(result_of(r))),
        decreases te, 1int,
    {
        proof { lemma_lstate(*lm, IVarNameT::SelfName); }
        match te {
            ExpressionTE::VoidLiteral { range } => ExpressionGE::VoidLiteral(VoidLiteralGE { range: *range, result: KindGT::Void }),
            ExpressionTE::ConstantInt { range, value, bits } =>
                ExpressionGE::ConstantInt(ConstantIntGE { range: *range, value: *value, bits: *bits, result: KindGT::Int }),
            ExpressionTE::ConstantBool { range, value } =>
                ExpressionGE::ConstantBool(ConstantBoolGE { range: *range, value: *value, result: KindGT::Bool }),
            ExpressionTE::ArgLookup { range, loct, index, tyype } => {
                proof { reveal(node_arg); }
                let i: usize = *index as usize;
                let result = self.groupify_type(co, rm, lm, &h.params[i].tyype, Some(&fs.params[i].tyype), Some(h.params[i].name));
                ExpressionGE::ArgLookup(ArgLookupGE { range: *range, param_index: *index as i32, result })
            },
            ExpressionTE::LocalLookup { range, loct, variable } => self.groupify_local_lookup(co, fs, h, access_log, te, range, loct, variable, rm, lm),
            ExpressionTE::Unlet { range, variable } => self.groupify_unlet(co, fs, h, access_log, te, range, variable, rm, lm),
            ExpressionTE::Deref { range, loct, inner } => self.groupify_deref(co, fs, h, access_log, te, range, loct, inner, rm, lm),
            ExpressionTE::LetNormal { range, variable, expr } => self.groupify_let_normal(co, fs, h, access_log, te, range, variable, expr, rm, lm),
            ExpressionTE::LetAndLend { range, loct, variable, expr } =>
                self.groupify_let_and_lend(co, fs, h, access_log, te, range, loct, variable, expr, rm, lm),
            ExpressionTE::Discard { range, expr } => {
                let e = self.groupify_expression(co, fs, h, access_log, expr, rm, lm);
                ExpressionGE::Discard(DiscardGE { range: *range, expr: Box::new(e), result: KindGT::Void })
            },
            ExpressionTE::Return { range, expr } => {
                let e = self.groupify_expression(co, fs, h, access_log, expr, rm, lm);
                ExpressionGE::Return(ReturnGE { range: *range, source_expr: Box::new(e), result: KindGT::Never })
            },
            ExpressionTE::Block { range, inner } => {
                let e = self.groupify_expression(co, fs, h, access_log, inner, rm, lm);
                proof { lemma_result_v(e); }
                let result = e.result().copy();
                ExpressionGE::Block(BlockGE { range: *range, inner: Box::new(e), result })
            },
            ExpressionTE::Consecutor { range, exprs } => self.groupify_consecutor(co, fs, h, access_log, te, range, exprs, rm, lm),
            ExpressionTE::Reinterpret { range, expr, result } => self.groupify_reinterpret(co, fs, h, access_log, te, range, expr, result, rm, lm),
            ExpressionTE::BorrowToWeak { range, expr } => self.groupify_borrow_to_weak(co, fs, h, access_log, te, range, expr, rm, lm),
            ExpressionTE::FunctionCall { loct, range, callable, args, result } =>
                self.groupify_call(co, fs, h, access_log, te, loct, range, callable, args, result, rm, lm),
            ExpressionTE::PopRuntimeSizedArray { range, array_expr, element_type } =>
                self.groupify_pop(co, fs, h, access_log, te, range, array_expr, element_type, rm, lm),
            ExpressionTE::NewRuntimeSizedArray { range, array_type, capacity_expr } =>
                self.groupify_new_array(co, fs, h, access_log, te, range, array_type, capacity_expr, rm, lm),
            ExpressionTE::CopyPrim { range, loct, expr, result } => self.groupify_copy_prim(co, fs, h, access_log, te, range, loct, expr, result, rm, lm),
            ExpressionTE::UpcastInterface { range, expr, target_super, impl_id } =>
                self.groupify_upcast(co, fs, h, access_log, te, range, expr, target_super, true, rm, lm),
            ExpressionTE::UpcastGeneric { range, expr, target_super, impl_id } =>
                self.groupify_upcast(co, fs, h, access_log, te, range, expr, target_super, false, rm, lm),
            ExpressionTE::StaticSizedArrayLookup { range, loct, array_expr, index_expr, element_type } =>
                self.groupify_ssa_lookup(co, fs, h, access_log, te, range, loct, array_expr, index_expr, element_type, rm, lm),
            ExpressionTE::MemberLookup { range, loct, struct_expr, member_name, result } =>
                self.groupify_member_lookup(co, fs, h, access_log, te, range, struct_expr, member_name, rm, lm),
            ExpressionTE::RuntimeSizedArrayLookup { range, loct, array_expr, index_expr, element_type } =>
                self.groupify_rsa_lookup(co, fs, h, access_log, te, range, array_expr, index_expr, rm, lm),
            ExpressionTE::If { range, loct, condition, then_call, else_call, result } =>
                self.groupify_if(co, fs, h, access_log, te, range, condition, then_call, else_call, rm, lm),
            ExpressionTE::Mutate { range, loct, destination_expr, source_expr, result } =>
                self.groupify_mutate(co, fs, h, access_log, te, range, loct, destination_expr, source_expr, rm, lm),
            ExpressionTE::Restackify { range, variable, source_expr } =>
                self.groupify_restackify(co, fs, h, access_log, te, range, variable, source_expr, rm, lm),
            ExpressionTE::Break { range } => ExpressionGE::Break(BreakGE { range: *range, result: KindGT::Never }),
            ExpressionTE::ConstantStr { range, value } => {
                let result = KindGT::ShareRef(WrapRefGT { inner: Box::new(KindGT::Str) });
                proof {
                    assert(kind_v(result) == KindGV::ShareRef(Box::new(kind_v(KindGT::Str))));
                    assert(kind_valid(KindGV::Str));
                }
                ExpressionGE::ConstantStr(ConstantStrGE { range: *range, value: *value, result })
            },
            ExpressionTE::ArrayLength { range, array_expr } => self.groupify_array_length(co, fs, h, access_log, te, range, array_expr, rm, lm),
            ExpressionTE::Construct { range, args, result } => self.groupify_construct(co, fs, h, access_log, te, range, args, result, rm, lm),
            ExpressionTE::InterfaceFunctionCall { range, args, result } =>
                self.groupify_interface_call(co, fs, h, access_log, te, range, args, result, rm, lm),
            ExpressionTE::ExternFunctionCall { range, args, result } =>
                self.groupify_extern_call(co, fs, h, access_log, te, range, args, result, rm, lm),
            ExpressionTE::BoundFunctionCall { range, args, result } =>
                self.groupify_bound_call(co, fs, h, access_log, te, range, args, result, rm, lm),
            ExpressionTE::LockWeak { range, inner_expr, result } => self.groupify_lock_weak(co, fs, h, access_log, te, range, inner_expr, result, rm, lm),
            ExpressionTE::StaticArrayFromValues { range, elements, result } =>
                self.groupify_array_from_values(co, fs, h, access_log, te, range, elements, result, rm, lm),
            ExpressionTE::ArraySize { range, array, result } => self.groupify_array_size(co, fs, h, access_log, te, range, array, result, rm, lm),
            ExpressionTE::IsSameInstance { range, left, right, result } =>
                self.groupify_is_same_instance(co, fs, h, access_log, te, range, left, right, result, rm, lm),
            ExpressionTE::AsSubtype { range, source_expr, result } =>
                self.groupify_as_subtype(co, fs, h, access_log, te, range, source_expr, result, rm, lm),
            ExpressionTE::ConstantFloat { range } => ExpressionGE::ConstantFloat(ConstantFloatGE { range: *range, result: KindGT::Float }),
            ExpressionTE::StaticArrayFromCallable { range, generator, result } =>
                self.groupify_array_from_callable(co, fs, h, access_log, te, range, generator, result, rm, lm),
            ExpressionTE::DestroyStaticSizedArrayIntoFunction { range, array_expr, consumer } =>
                self.groupify_destroy_into_function(co, fs, h, access_log, te, range, array_expr, consumer, rm, lm),
            ExpressionTE::DestroyStaticSizedArrayIntoLocals { range, expr, static_sized_array, destination_reference_variables } =>
                self.groupify_destroy_into_locals(co, fs, h, access_log, te, range, expr, static_sized_array, destination_reference_variables, rm, lm),
            ExpressionTE::DestroyRuntimeSizedArray { range, array_expr } => self.groupify_destroy_rsa(co, fs, h, access_log, te, range, array_expr, rm, lm),
            ExpressionTE::RuntimeSizedArrayCapacity { range, array_expr, result } =>
                self.groupify_rsa_capacity(co, fs, h, access_log, te, range, array_expr, result, rm, lm),
            ExpressionTE::PushRuntimeSizedArray { range, array_expr, new_element_expr } =>
                self.groupify_push_rsa(co, fs, h, access_log, te, range, array_expr, new_element_expr, rm, lm),
            ExpressionTE::InterfaceToInterfaceUpcast { range, inner_expr, result } =>
                self.groupify_interface_to_interface(co, fs, h, access_log, te, range, inner_expr, result, rm, lm),
            ExpressionTE::While { range, loct, block_range, body, result } =>
                self.groupify_while(co, fs, h, access_log, te, range, block_range, body, result, rm, lm),
            ExpressionTE::Destroy { range, loct, expr, destination_reference_variables } =>
                self.groupify_destroy(co, fs, h, access_log, te, range, loct, expr, destination_reference_variables, rm, lm),
        }
    }

    /// A borrow of a local, into the local's own group.
    fn groupify_local_lookup(&self, co: &CompilerOutputs, fs: &FunctionS, h: &FunctionHeaderT, access_log: &mut Vec<AccessEventG>, te: &ExpressionTE, range: &RangeS, loct: &LocT, variable: &LocalVariableT,
        rm: &KeyedMap<ITemplataG>, lm: &mut KeyedMap<KindGT>) -> (r: ExpressionGE)
        requires
            *te == (ExpressionTE::LocalLookup { range: *range, loct: *loct, variable: *variable }),
            rm.wf(),
            runes_valid(runes_v(*rm)),
            old(lm).wf(),
            locals_valid(locals_v(*old(lm))),
            grouped_node(grouping_ctx(*co, *fs, *h, *rm), *te, grouping_state(*old(lm), old(access_log)@)) is Some,
        ensures
            final(lm).wf(),
            locals_valid(locals_v(*final(lm))),
            walks_to(grouping_ctx(*co, *fs, *h, *rm), *te, grouping_state(*old(lm), old(access_log)@), gev(r),
                grouping_state(*final(lm), final(access_log)@)),
            !(gev(r) is Other),
            kind_valid(kind_v(result_of(r))),
        decreases te, 0int,
    {
        proof { reveal(node_local); }
        let code = encode_var(variable.name);
        proof { lemma_lstate(*lm, variable.name); }
        let k = match lm.get(code) {
            Some(k) => k.copy(),
            None => {
                proof { assert(false); }
                KindGT::Void
            },
        };
        let group = new_local_group_expr(variable.name);
        proof { assert(paths_view(group@) =~= local_borrow(variable.name, kind_v(k))->group); }
        let result = KindGT::BorrowRef(BorrowRefGT { group: GroupGT { group }, inner: Box::new(k.copy()) });
        ExpressionGE::LocalLookup(LocalLookupGE {
            range: *range, loct: loct.copy(), local_variable: LocalVariableG { name: variable.name, tyype: k }, result,
        })
    }

    /// A move out of a local: the local's grouped kind.
    fn groupify_unlet(&self, co: &CompilerOutputs, fs: &FunctionS, h: &FunctionHeaderT, access_log: &mut Vec<AccessEventG>, te: &ExpressionTE, range: &RangeS, variable: &LocalVariableT,
        rm: &KeyedMap<ITemplataG>, lm: &mut KeyedMap<KindGT>) -> (r: ExpressionGE)
        requires
            *te == (ExpressionTE::Unlet { range: *range, variable: *variable }),
            rm.wf(),
            runes_valid(runes_v(*rm)),
            old(lm).wf(),
            locals_valid(locals_v(*old(lm))),
            grouped_node(grouping_ctx(*co, *fs, *h, *rm), *te, grouping_state(*old(lm), old(access_log)@)) is Some,
        ensures
            final(lm).wf(),
            locals_valid(locals_v(*final(lm))),
            walks_to(grouping_ctx(*co, *fs, *h, *rm), *te, grouping_state(*old(lm), old(access_log)@), gev(r),
                grouping_state(*final(lm), final(access_log)@)),
            !(gev(r) is Other),
            kind_valid(kind_v(result_of(r))),
        decreases te, 0int,
    {
        proof { reveal(node_unlet); }
        let code = encode_var(variable.name);
        proof { lemma_lstate(*lm, variable.name); }
        let k = match lm.get(code) {
            Some(k) => k.copy(),
            None => {
                proof { assert(false); }
                KindGT::Void
            },
        };
        let result = k.copy();
        ExpressionGE::Unlet(UnletGE { range: *range, variable: LocalVariableG { name: variable.name, tyype: k }, result })
    }

    /// A load or decay through a borrow: the referent's kind; a load (not a decay) through a named reference is logged.
    fn groupify_deref(&self, co: &CompilerOutputs, fs: &FunctionS, h: &FunctionHeaderT, access_log: &mut Vec<AccessEventG>, te: &ExpressionTE, range: &RangeS, loct: &LocT, inner: &ExpressionTE,
        rm: &KeyedMap<ITemplataG>, lm: &mut KeyedMap<KindGT>) -> (r: ExpressionGE)
        requires
            *te == (ExpressionTE::Deref { range: *range, loct: *loct, inner: Box::new(*inner) }),
            rm.wf(),
            runes_valid(runes_v(*rm)),
            old(lm).wf(),
            locals_valid(locals_v(*old(lm))),
            grouped_node(grouping_ctx(*co, *fs, *h, *rm), *te, grouping_state(*old(lm), old(access_log)@)) is Some,
        ensures
            final(lm).wf(),
            locals_valid(locals_v(*final(lm))),
            walks_to(grouping_ctx(*co, *fs, *h, *rm), *te, grouping_state(*old(lm), old(access_log)@), gev(r),
                grouping_state(*final(lm), final(access_log)@)),
            !(gev(r) is Other),
            kind_valid(kind_v(result_of(r))),
        decreases te, 0int,
    {
        proof { reveal(node_deref); }
        let ghost log0 = log_v(access_log@);
        let gi = self.groupify_expression(co, fs, h, access_log, inner, rm, lm);
        proof { lemma_result_v(gi); lemma_chain_v(h.params@, gi); }
        let ghost log1 = log_v(access_log@);
        let result = match gi.result() {
            KindGT::BorrowRef(b) => b.inner.copy(),
            _ => {
                proof { assert(false); }
                KindGT::Void
            },
        };
        let decays = match &result {
            KindGT::BorrowRef(_) => true,
            _ => false,
        };
        if !decays {
            match self.base_ref_and_group(h, &gi) {
                Some((_base, group)) => {
                    let ghost g = group@;
                    access_log.push(AccessEventG::Read { group, loct: loct.copy() });
                    proof { assert(log_v(access_log@) =~= log1.push(EventV::Read { group: g, loct: loct@ })); }
                },
                None => {},
            }
        }
        ExpressionGE::Deref(DerefGE { range: *range, inner: Box::new(gi), result })
    }

    /// A binding of a local to a value: the local takes the value's grouped kind.
    fn groupify_let_normal(&self, co: &CompilerOutputs, fs: &FunctionS, h: &FunctionHeaderT, access_log: &mut Vec<AccessEventG>, te: &ExpressionTE, range: &RangeS, variable: &LocalVariableT, expr: &ExpressionTE,
        rm: &KeyedMap<ITemplataG>, lm: &mut KeyedMap<KindGT>) -> (r: ExpressionGE)
        requires
            *te == (ExpressionTE::LetNormal { range: *range, variable: *variable, expr: Box::new(*expr) }),
            rm.wf(),
            runes_valid(runes_v(*rm)),
            old(lm).wf(),
            locals_valid(locals_v(*old(lm))),
            grouped_node(grouping_ctx(*co, *fs, *h, *rm), *te, grouping_state(*old(lm), old(access_log)@)) is Some,
        ensures
            final(lm).wf(),
            locals_valid(locals_v(*final(lm))),
            walks_to(grouping_ctx(*co, *fs, *h, *rm), *te, grouping_state(*old(lm), old(access_log)@), gev(r),
                grouping_state(*final(lm), final(access_log)@)),
            !(gev(r) is Other),
            kind_valid(kind_v(result_of(r))),
        decreases te, 0int,
    {
        proof { reveal(node_let_normal); }
        let e = self.groupify_expression(co, fs, h, access_log, expr, rm, lm);
        proof { lemma_result_v(e); }
        let k = e.result().copy();
        let ghost before = *lm;
        let stored = e.result().copy();
        let ghost sv = stored;
        lm.insert(encode_var(variable.name), stored);
        proof { lemma_lput(before, *lm, variable.name, sv); }
        ExpressionGE::LetNormal(LetNormalGE {
            range: *range, variable: LocalVariableG { name: variable.name, tyype: k }, expr: Box::new(e), result: KindGT::Void,
        })
    }

    /// A binding of a local that lends it: the local takes the value's grouped kind, and the loan points into the local's own group.
    fn groupify_let_and_lend(&self, co: &CompilerOutputs, fs: &FunctionS, h: &FunctionHeaderT, access_log: &mut Vec<AccessEventG>, te: &ExpressionTE, range: &RangeS, loct: &LocT, variable: &LocalVariableT, expr: &ExpressionTE,
        rm: &KeyedMap<ITemplataG>, lm: &mut KeyedMap<KindGT>) -> (r: ExpressionGE)
        requires
            *te == (ExpressionTE::LetAndLend { range: *range, loct: *loct, variable: *variable, expr: Box::new(*expr) }),
            rm.wf(),
            runes_valid(runes_v(*rm)),
            old(lm).wf(),
            locals_valid(locals_v(*old(lm))),
            grouped_node(grouping_ctx(*co, *fs, *h, *rm), *te, grouping_state(*old(lm), old(access_log)@)) is Some,
        ensures
            final(lm).wf(),
            locals_valid(locals_v(*final(lm))),
            walks_to(grouping_ctx(*co, *fs, *h, *rm), *te, grouping_state(*old(lm), old(access_log)@), gev(r),
                grouping_state(*final(lm), final(access_log)@)),
            !(gev(r) is Other),
            kind_valid(kind_v(result_of(r))),
        decreases te, 0int,
    {
        proof { reveal(node_let_and_lend); }
        let e = self.groupify_expression(co, fs, h, access_log, expr, rm, lm);
        proof { lemma_result_v(e); }
        let k = e.result().copy();
        let ghost before = *lm;
        let stored = e.result().copy();
        let ghost sv = stored;
        lm.insert(encode_var(variable.name), stored);
        proof { lemma_lput(before, *lm, variable.name, sv); }
        let group = new_local_group_expr(variable.name);
        proof { assert(paths_view(group@) =~= local_borrow(variable.name, kind_v(k))->group); }
        let result = KindGT::BorrowRef(BorrowRefGT { group: GroupGT { group }, inner: Box::new(k.copy()) });
        ExpressionGE::LetAndLend(LetAndLendGE {
            range: *range, loct: loct.copy(), variable: LocalVariableG { name: variable.name, tyype: k }, expr: Box::new(e), result,
        })
    }

    /// A sequence: each node walked in order; `Never` if any node diverges, else the last node's kind.
    fn groupify_consecutor(&self, co: &CompilerOutputs, fs: &FunctionS, h: &FunctionHeaderT, access_log: &mut Vec<AccessEventG>, te: &ExpressionTE, range: &RangeS, exprs: &Vec<ExpressionTE>,
        rm: &KeyedMap<ITemplataG>, lm: &mut KeyedMap<KindGT>) -> (r: ExpressionGE)
        requires
            *te == (ExpressionTE::Consecutor { range: *range, exprs: *exprs }),
            rm.wf(),
            runes_valid(runes_v(*rm)),
            old(lm).wf(),
            locals_valid(locals_v(*old(lm))),
            grouped_node(grouping_ctx(*co, *fs, *h, *rm), *te, grouping_state(*old(lm), old(access_log)@)) is Some,
        ensures
            final(lm).wf(),
            locals_valid(locals_v(*final(lm))),
            walks_to(grouping_ctx(*co, *fs, *h, *rm), *te, grouping_state(*old(lm), old(access_log)@), gev(r),
                grouping_state(*final(lm), final(access_log)@)),
            !(gev(r) is Other),
            kind_valid(kind_v(result_of(r))),
        decreases te, 0int,
    {
        proof { reveal(node_seq); }
        let es = self.groupify_exprs(co, fs, h, access_log, exprs, rm, lm);
        let ghost gs = gevs(es@);
        proof { lemma_gevs(es@); }
        let mut diverges = false;
        let mut i: usize = 0;
        while i < es.len()
            invariant
                i <= es@.len(),
                gs == gevs(es@),
                gs.len() == es@.len(),
                forall|j: int| 0 <= j < es@.len() ==> #[trigger] gs[j] == gev(es@[j]),
                all_built(es@),
                diverges <==> exists|j: int| 0 <= j < i && (#[trigger] result_v(gs[j])) is Never,
            decreases es@.len() - i,
        {
            proof { lemma_result_v(es@[i as int]); assert(gs[i as int] == gev(es@[i as int])); }
            match es[i].result() {
                KindGT::Never => { diverges = true; },
                _ => {},
            }
            i = i + 1;
        }
        let result = if diverges {
            KindGT::Never
        } else {
            proof { lemma_result_v(es@[es@.len() - 1]); assert(gs.last() == gev(es@[es@.len() - 1])); }
            es[es.len() - 1].result().copy()
        };
        ExpressionGE::Consecutor(ConsecutorGE { range: *range, exprs: es, result })
    }

    /// A cast that keeps the value: the operand's group, the cast kind's structure.
    fn groupify_reinterpret(&self, co: &CompilerOutputs, fs: &FunctionS, h: &FunctionHeaderT, access_log: &mut Vec<AccessEventG>, te: &ExpressionTE, range: &RangeS, expr: &ExpressionTE, result: &KindT,
        rm: &KeyedMap<ITemplataG>, lm: &mut KeyedMap<KindGT>) -> (r: ExpressionGE)
        requires
            *te == (ExpressionTE::Reinterpret { range: *range, expr: Box::new(*expr), result: *result }),
            rm.wf(),
            runes_valid(runes_v(*rm)),
            old(lm).wf(),
            locals_valid(locals_v(*old(lm))),
            grouped_node(grouping_ctx(*co, *fs, *h, *rm), *te, grouping_state(*old(lm), old(access_log)@)) is Some,
        ensures
            final(lm).wf(),
            locals_valid(locals_v(*final(lm))),
            walks_to(grouping_ctx(*co, *fs, *h, *rm), *te, grouping_state(*old(lm), old(access_log)@), gev(r),
                grouping_state(*final(lm), final(access_log)@)),
            !(gev(r) is Other),
            kind_valid(kind_v(result_of(r))),
        decreases te, 0int,
    {
        proof { reveal(node_reinterpret); }
        let e = self.groupify_expression(co, fs, h, access_log, expr, rm, lm);
        proof { lemma_result_v(e); lemma_lstate(*lm, IVarNameT::SelfName); }
        let k = self.cast_result(co, rm, lm, result, e.result());
        ExpressionGE::Reinterpret(ReinterpretGE { range: *range, expr: Box::new(e), result: k })
    }

    /// A weak reference from a borrow: weak references carry no group.
    fn groupify_borrow_to_weak(&self, co: &CompilerOutputs, fs: &FunctionS, h: &FunctionHeaderT, access_log: &mut Vec<AccessEventG>, te: &ExpressionTE, range: &RangeS, expr: &ExpressionTE,
        rm: &KeyedMap<ITemplataG>, lm: &mut KeyedMap<KindGT>) -> (r: ExpressionGE)
        requires
            *te == (ExpressionTE::BorrowToWeak { range: *range, expr: Box::new(*expr) }),
            rm.wf(),
            runes_valid(runes_v(*rm)),
            old(lm).wf(),
            locals_valid(locals_v(*old(lm))),
            grouped_node(grouping_ctx(*co, *fs, *h, *rm), *te, grouping_state(*old(lm), old(access_log)@)) is Some,
        ensures
            final(lm).wf(),
            locals_valid(locals_v(*final(lm))),
            walks_to(grouping_ctx(*co, *fs, *h, *rm), *te, grouping_state(*old(lm), old(access_log)@), gev(r),
                grouping_state(*final(lm), final(access_log)@)),
            !(gev(r) is Other),
            kind_valid(kind_v(result_of(r))),
        decreases te, 0int,
    {
        proof { reveal(node_weak); }
        let e = self.groupify_expression(co, fs, h, access_log, expr, rm, lm);
        proof { lemma_lstate(*lm, IVarNameT::SelfName); }
        let referent = match expr.result() {
            KindT::BorrowRef(b) => *b.inner,
            other => other,
        };
        let k = self.groupify_type(co, rm, lm, &referent, None, None);
        ExpressionGE::BorrowToWeak(BorrowToWeakGE { range: *range, inner_expr: Box::new(e), result: KindGT::WeakRef(WrapRefGT { inner: Box::new(k) }) })
    }

    /// A pop from a runtime-sized array: the element kind, groupless.
    fn groupify_pop(&self, co: &CompilerOutputs, fs: &FunctionS, h: &FunctionHeaderT, access_log: &mut Vec<AccessEventG>, te: &ExpressionTE, range: &RangeS, array_expr: &ExpressionTE, element_type: &KindT,
        rm: &KeyedMap<ITemplataG>, lm: &mut KeyedMap<KindGT>) -> (r: ExpressionGE)
        requires
            *te == (ExpressionTE::PopRuntimeSizedArray { range: *range, array_expr: Box::new(*array_expr), element_type: *element_type }),
            rm.wf(),
            runes_valid(runes_v(*rm)),
            old(lm).wf(),
            locals_valid(locals_v(*old(lm))),
            grouped_node(grouping_ctx(*co, *fs, *h, *rm), *te, grouping_state(*old(lm), old(access_log)@)) is Some,
        ensures
            final(lm).wf(),
            locals_valid(locals_v(*final(lm))),
            walks_to(grouping_ctx(*co, *fs, *h, *rm), *te, grouping_state(*old(lm), old(access_log)@), gev(r),
                grouping_state(*final(lm), final(access_log)@)),
            !(gev(r) is Other),
            kind_valid(kind_v(result_of(r))),
        decreases te, 0int,
    {
        proof { reveal(node_pop); }
        let a = self.groupify_expression(co, fs, h, access_log, array_expr, rm, lm);
        proof { lemma_lstate(*lm, IVarNameT::SelfName); }
        let k = self.groupify_type(co, rm, lm, element_type, None, None);
        ExpressionGE::PopRuntimeSizedArray(PopRuntimeSizedArrayGE { range: *range, array_expr: Box::new(a), result: k })
    }

    /// A new runtime-sized array: the array kind, groupless.
    fn groupify_new_array(&self, co: &CompilerOutputs, fs: &FunctionS, h: &FunctionHeaderT, access_log: &mut Vec<AccessEventG>, te: &ExpressionTE, range: &RangeS, array_type: &RuntimeSizedArrayTT, capacity_expr: &ExpressionTE,
        rm: &KeyedMap<ITemplataG>, lm: &mut KeyedMap<KindGT>) -> (r: ExpressionGE)
        requires
            *te == (ExpressionTE::NewRuntimeSizedArray { range: *range, array_type: *array_type, capacity_expr: Box::new(*capacity_expr) }),
            rm.wf(),
            runes_valid(runes_v(*rm)),
            old(lm).wf(),
            locals_valid(locals_v(*old(lm))),
            grouped_node(grouping_ctx(*co, *fs, *h, *rm), *te, grouping_state(*old(lm), old(access_log)@)) is Some,
        ensures
            final(lm).wf(),
            locals_valid(locals_v(*final(lm))),
            walks_to(grouping_ctx(*co, *fs, *h, *rm), *te, grouping_state(*old(lm), old(access_log)@), gev(r),
                grouping_state(*final(lm), final(access_log)@)),
            !(gev(r) is Other),
            kind_valid(kind_v(result_of(r))),
        decreases te, 0int,
    {
        proof { reveal(node_new_array); }
        let c = self.groupify_expression(co, fs, h, access_log, capacity_expr, rm, lm);
        proof { lemma_lstate(*lm, IVarNameT::SelfName); }
        let kt = KindT::RuntimeSizedArray(RuntimeSizedArrayTT { element_type: Box::new(array_type.element_type.copy()) });
        let k = self.groupify_type(co, rm, lm, &kt, None, None);
        ExpressionGE::NewRuntimeSizedArray(NewRuntimeSizedArrayGE { range: *range, capacity_expr: Box::new(c), result: k })
    }

    /// A copy of a primitive through a reference: a load, logged when the reference is named.
    fn groupify_copy_prim(&self, co: &CompilerOutputs, fs: &FunctionS, h: &FunctionHeaderT, access_log: &mut Vec<AccessEventG>, te: &ExpressionTE, range: &RangeS, loct: &LocT, expr: &ExpressionTE, result: &KindT,
        rm: &KeyedMap<ITemplataG>, lm: &mut KeyedMap<KindGT>) -> (r: ExpressionGE)
        requires
            *te == (ExpressionTE::CopyPrim { range: *range, loct: *loct, expr: Box::new(*expr), result: *result }),
            rm.wf(),
            runes_valid(runes_v(*rm)),
            old(lm).wf(),
            locals_valid(locals_v(*old(lm))),
            grouped_node(grouping_ctx(*co, *fs, *h, *rm), *te, grouping_state(*old(lm), old(access_log)@)) is Some,
        ensures
            final(lm).wf(),
            locals_valid(locals_v(*final(lm))),
            walks_to(grouping_ctx(*co, *fs, *h, *rm), *te, grouping_state(*old(lm), old(access_log)@), gev(r),
                grouping_state(*final(lm), final(access_log)@)),
            !(gev(r) is Other),
            kind_valid(kind_v(result_of(r))),
        decreases te, 0int,
    {
        proof { reveal(node_copy_prim); }
        let gi = self.groupify_expression(co, fs, h, access_log, expr, rm, lm);
        proof { lemma_chain_v(h.params@, gi); lemma_lstate(*lm, IVarNameT::SelfName); }
        let ghost log1 = log_v(access_log@);
        match self.base_ref_and_group(h, &gi) {
            Some((_base, group)) => {
                let ghost g = group@;
                access_log.push(AccessEventG::Read { group, loct: loct.copy() });
                proof { assert(log_v(access_log@) =~= log1.push(EventV::Read { group: g, loct: loct@ })); }
            },
            None => {},
        }
        let k = self.groupify_type(co, rm, lm, result, None, None);
        ExpressionGE::CopyPrim(CopyPrimGE { range: *range, inner: Box::new(gi), result: k })
    }

    /// An upcast to an interface (`to_interface`) or through a generic bound: the operand's group, the target's structure.
    fn groupify_upcast(&self, co: &CompilerOutputs, fs: &FunctionS, h: &FunctionHeaderT, access_log: &mut Vec<AccessEventG>, te: &ExpressionTE, range: &RangeS, expr: &ExpressionTE, target_super: &KindT, to_interface: bool,
        rm: &KeyedMap<ITemplataG>, lm: &mut KeyedMap<KindGT>) -> (r: ExpressionGE)
        requires
            *te == (if to_interface {
                ExpressionTE::UpcastInterface { range: *range, expr: Box::new(*expr), target_super: *target_super, impl_id: te->UpcastInterface_impl_id }
            } else {
                ExpressionTE::UpcastGeneric { range: *range, expr: Box::new(*expr), target_super: *target_super, impl_id: te->UpcastGeneric_impl_id }
            }),
            rm.wf(),
            runes_valid(runes_v(*rm)),
            old(lm).wf(),
            locals_valid(locals_v(*old(lm))),
            grouped_node(grouping_ctx(*co, *fs, *h, *rm), *te, grouping_state(*old(lm), old(access_log)@)) is Some,
        ensures
            final(lm).wf(),
            locals_valid(locals_v(*final(lm))),
            walks_to(grouping_ctx(*co, *fs, *h, *rm), *te, grouping_state(*old(lm), old(access_log)@), gev(r),
                grouping_state(*final(lm), final(access_log)@)),
            !(gev(r) is Other),
            kind_valid(kind_v(result_of(r))),
        decreases te, 0int,
    {
        proof { reveal(node_upcast); }
        let e = self.groupify_expression(co, fs, h, access_log, expr, rm, lm);
        proof { lemma_result_v(e); lemma_lstate(*lm, IVarNameT::SelfName); }
        let cast_kind = rewrap_exec(&expr.result(), target_super);
        let k = self.cast_result(co, rm, lm, &cast_kind, e.result());
        if to_interface {
            ExpressionGE::UpcastInterface(UpcastInterfaceGE { range: *range, inner_expr: Box::new(e), result: k })
        } else {
            ExpressionGE::UpcastGeneric(UpcastGenericGE { range: *range, inner_expr: Box::new(e), result: k })
        }
    }

    /// An element of an inline array: a borrow into the array's own group (inline elements share it).
    fn groupify_ssa_lookup(&self, co: &CompilerOutputs, fs: &FunctionS, h: &FunctionHeaderT, access_log: &mut Vec<AccessEventG>, te: &ExpressionTE, range: &RangeS, loct: &LocT, array_expr: &ExpressionTE, index_expr: &ExpressionTE, element_type: &KindT,
        rm: &KeyedMap<ITemplataG>, lm: &mut KeyedMap<KindGT>) -> (r: ExpressionGE)
        requires
            *te == (ExpressionTE::StaticSizedArrayLookup { range: *range, loct: *loct, array_expr: Box::new(*array_expr), index_expr: Box::new(*index_expr), element_type: *element_type }),
            rm.wf(),
            runes_valid(runes_v(*rm)),
            old(lm).wf(),
            locals_valid(locals_v(*old(lm))),
            grouped_node(grouping_ctx(*co, *fs, *h, *rm), *te, grouping_state(*old(lm), old(access_log)@)) is Some,
        ensures
            final(lm).wf(),
            locals_valid(locals_v(*final(lm))),
            walks_to(grouping_ctx(*co, *fs, *h, *rm), *te, grouping_state(*old(lm), old(access_log)@), gev(r),
                grouping_state(*final(lm), final(access_log)@)),
            !(gev(r) is Other),
            kind_valid(kind_v(result_of(r))),
        decreases te, 0int,
    {
        proof { reveal(node_element); }
        let ghost c = grouping_ctx(*co, *fs, *h, *rm);
        let ghost s0 = grouping_state(*lm, access_log@);
        let a = self.groupify_expression(co, fs, h, access_log, array_expr, rm, lm);
        let ghost s1 = grouping_state(*lm, access_log@);
        proof {
            lemma_result_v(a);
            assert(grouped_node(c, *te, s0) == node_element(*range, gev(a), grouped_node(c, *index_expr, s1)));
            assert(grouped_node(c, *index_expr, s1) is Some);
            assert(result_v(gev(a)) matches KindGV::BorrowRef { group, inner } && *inner is StaticSizedArray);
        }
        let result = element_borrow(a.result());
        let i = self.groupify_expression(co, fs, h, access_log, index_expr, rm, lm);
        let ghost s2 = grouping_state(*lm, access_log@);
        let r = ExpressionGE::StaticSizedArrayLookup(StaticSizedArrayLookupGE { range: *range, array_expr: Box::new(a), index_expr: Box::new(i), result });
        proof {
            assert(grouped_node(c, *array_expr, s0) == Some((gev(a), s1)));
            assert(grouped_node(c, *index_expr, s1) == Some((gev(i), s2)));
            assert(node_element(*range, gev(a), Some((gev(i), s2))) == Some((gev(r), s2)));
            assert(grouped_node(c, *te, s0) == node_element(*range, gev(a), grouped_node(c, *index_expr, s1)));
        }
        r
    }

    /// A member of a struct, through a borrow of it: a borrow of the member's kind into the member's group below the struct's.
    fn groupify_member_lookup(&self, co: &CompilerOutputs, fs: &FunctionS, h: &FunctionHeaderT, access_log: &mut Vec<AccessEventG>, te: &ExpressionTE, range: &RangeS, struct_expr: &ExpressionTE, member_name: &IVarNameT,
        rm: &KeyedMap<ITemplataG>, lm: &mut KeyedMap<KindGT>) -> (r: ExpressionGE)
        requires
            *te == (ExpressionTE::MemberLookup { range: *range, loct: te->MemberLookup_loct, struct_expr: Box::new(*struct_expr), member_name: *member_name, result: te->MemberLookup_result }),
            rm.wf(),
            runes_valid(runes_v(*rm)),
            old(lm).wf(),
            locals_valid(locals_v(*old(lm))),
            grouped_node(grouping_ctx(*co, *fs, *h, *rm), *te, grouping_state(*old(lm), old(access_log)@)) is Some,
        ensures
            final(lm).wf(),
            locals_valid(locals_v(*final(lm))),
            walks_to(grouping_ctx(*co, *fs, *h, *rm), *te, grouping_state(*old(lm), old(access_log)@), gev(r),
                grouping_state(*final(lm), final(access_log)@)),
            !(gev(r) is Other),
            kind_valid(kind_v(result_of(r))),
        decreases te, 0int,
    {
        proof { reveal(node_member); }
        let se = self.groupify_expression(co, fs, h, access_log, struct_expr, rm, lm);
        proof { lemma_result_v(se); }
        let name = match member_name {
            IVarNameT::Member(n) => *n,
            _ => {
                proof { assert(false); }
                StrI(0)
            },
        };
        let result = self.member_borrow(co, se.result(), name);
        ExpressionGE::MemberLookup(MemberLookupGE { range: *range, struct_expr: Box::new(se), member_name: name, result })
    }

    /// An element of a runtime-sized array, through a borrow of it: a borrow into the array's elements group.
    fn groupify_rsa_lookup(&self, co: &CompilerOutputs, fs: &FunctionS, h: &FunctionHeaderT, access_log: &mut Vec<AccessEventG>, te: &ExpressionTE, range: &RangeS, array_expr: &ExpressionTE, index_expr: &ExpressionTE,
        rm: &KeyedMap<ITemplataG>, lm: &mut KeyedMap<KindGT>) -> (r: ExpressionGE)
        requires
            *te == (ExpressionTE::RuntimeSizedArrayLookup { range: *range, loct: te->RuntimeSizedArrayLookup_loct, array_expr: Box::new(*array_expr), index_expr: Box::new(*index_expr), element_type: te->RuntimeSizedArrayLookup_element_type }),
            rm.wf(),
            runes_valid(runes_v(*rm)),
            old(lm).wf(),
            locals_valid(locals_v(*old(lm))),
            grouped_node(grouping_ctx(*co, *fs, *h, *rm), *te, grouping_state(*old(lm), old(access_log)@)) is Some,
        ensures
            final(lm).wf(),
            locals_valid(locals_v(*final(lm))),
            walks_to(grouping_ctx(*co, *fs, *h, *rm), *te, grouping_state(*old(lm), old(access_log)@), gev(r),
                grouping_state(*final(lm), final(access_log)@)),
            !(gev(r) is Other),
            kind_valid(kind_v(result_of(r))),
        decreases te, 0int,
    {
        proof { reveal(node_rsa_element); }
        let ghost c = grouping_ctx(*co, *fs, *h, *rm);
        let ghost s0 = grouping_state(*lm, access_log@);
        let a = self.groupify_expression(co, fs, h, access_log, array_expr, rm, lm);
        let ghost s1 = grouping_state(*lm, access_log@);
        proof {
            lemma_result_v(a);
            assert(grouped_node(c, *te, s0) == node_rsa_element(*range, gev(a), grouped_node(c, *index_expr, s1)));
            assert(grouped_node(c, *index_expr, s1) is Some);
        }
        let result = rsa_element_borrow(a.result());
        let i = self.groupify_expression(co, fs, h, access_log, index_expr, rm, lm);
        ExpressionGE::RuntimeSizedArrayLookup(RuntimeSizedArrayLookupGE { range: *range, array_expr: Box::new(a), index_expr: Box::new(i), result })
    }

    /// A conditional: the condition, the then-branch and the else-branch walked in that order; the then-branch's kind unless it diverges, else the else-branch's.
    fn groupify_if(&self, co: &CompilerOutputs, fs: &FunctionS, h: &FunctionHeaderT, access_log: &mut Vec<AccessEventG>, te: &ExpressionTE, range: &RangeS, condition: &ExpressionTE, then_call: &ExpressionTE, else_call: &ExpressionTE,
        rm: &KeyedMap<ITemplataG>, lm: &mut KeyedMap<KindGT>) -> (r: ExpressionGE)
        requires
            *te == (ExpressionTE::If { range: *range, loct: te->If_loct, condition: Box::new(*condition), then_call: Box::new(*then_call), else_call: Box::new(*else_call), result: te->If_result }),
            rm.wf(),
            runes_valid(runes_v(*rm)),
            old(lm).wf(),
            locals_valid(locals_v(*old(lm))),
            grouped_node(grouping_ctx(*co, *fs, *h, *rm), *te, grouping_state(*old(lm), old(access_log)@)) is Some,
        ensures
            final(lm).wf(),
            locals_valid(locals_v(*final(lm))),
            walks_to(grouping_ctx(*co, *fs, *h, *rm), *te, grouping_state(*old(lm), old(access_log)@), gev(r),
                grouping_state(*final(lm), final(access_log)@)),
            !(gev(r) is Other),
            kind_valid(kind_v(result_of(r))),
        decreases te, 0int,
    {
        proof { reveal(node_if); }
        let ghost c = grouping_ctx(*co, *fs, *h, *rm);
        let ghost s0 = grouping_state(*lm, access_log@);
        let gc = self.groupify_expression(co, fs, h, access_log, condition, rm, lm);
        let ghost s1 = grouping_state(*lm, access_log@);
        proof { assert(grouped_node(c, *condition, s0) == Some((gev(gc), s1))); }
        let gt = self.groupify_expression(co, fs, h, access_log, then_call, rm, lm);
        let ghost s2 = grouping_state(*lm, access_log@);
        proof { assert(grouped_node(c, *then_call, s1) == Some((gev(gt), s2))); }
        let ge = self.groupify_expression(co, fs, h, access_log, else_call, rm, lm);
        proof { lemma_result_v(gt); lemma_result_v(ge); }
        let result = if diverges(&gt) { ge.result().copy() } else { gt.result().copy() };
        ExpressionGE::If(IfGE { range: *range, condition: Box::new(gc), then_call: Box::new(gt), else_call: Box::new(ge), result })
    }

    /// A store through a borrow: the destination walked, then the source; the value replaced is the destination's referent, and the store is logged through the destination's access chain.
    fn groupify_mutate(&self, co: &CompilerOutputs, fs: &FunctionS, h: &FunctionHeaderT, access_log: &mut Vec<AccessEventG>, te: &ExpressionTE, range: &RangeS, loct: &LocT, destination_expr: &ExpressionTE, source_expr: &ExpressionTE,
        rm: &KeyedMap<ITemplataG>, lm: &mut KeyedMap<KindGT>) -> (r: ExpressionGE)
        requires
            *te == (ExpressionTE::Mutate { range: *range, loct: *loct, destination_expr: Box::new(*destination_expr), source_expr: Box::new(*source_expr), result: te->Mutate_result }),
            rm.wf(),
            runes_valid(runes_v(*rm)),
            old(lm).wf(),
            locals_valid(locals_v(*old(lm))),
            grouped_node(grouping_ctx(*co, *fs, *h, *rm), *te, grouping_state(*old(lm), old(access_log)@)) is Some,
        ensures
            final(lm).wf(),
            locals_valid(locals_v(*final(lm))),
            walks_to(grouping_ctx(*co, *fs, *h, *rm), *te, grouping_state(*old(lm), old(access_log)@), gev(r),
                grouping_state(*final(lm), final(access_log)@)),
            !(gev(r) is Other),
            kind_valid(kind_v(result_of(r))),
        decreases te, 0int,
    {
        proof { reveal(node_mutate); }
        let ghost c = grouping_ctx(*co, *fs, *h, *rm);
        let ghost s0 = grouping_state(*lm, access_log@);
        let gd = self.groupify_expression(co, fs, h, access_log, destination_expr, rm, lm);
        let ghost s1 = grouping_state(*lm, access_log@);
        proof {
            lemma_result_v(gd);
            lemma_chain_v(h.params@, gd);
            assert(grouped_node(c, *destination_expr, s0) == Some((gev(gd), s1)));
            assert(grouped_node(c, *te, s0) == node_mutate(c, *range, loct@, gev(gd), grouped_node(c, *source_expr, s1)));
            assert(grouped_node(c, *source_expr, s1) is Some);
        }
        let result = match gd.result() {
            KindGT::BorrowRef(b) => b.inner.copy(),
            _ => {
                proof { assert(false); }
                KindGT::Void
            },
        };
        let gsrc = self.groupify_expression(co, fs, h, access_log, source_expr, rm, lm);
        let ghost log2 = log_v(access_log@);
        match self.base_ref_and_group(h, &gd) {
            Some((_base, group)) => {
                let ghost g = group@;
                access_log.push(AccessEventG::Store { group, loct: loct.copy() });
                proof { assert(log_v(access_log@) =~= log2.push(EventV::Store { group: g, loct: loct@ })); }
            },
            None => {},
        }
        ExpressionGE::Mutate(MutateGE { range: *range, loct: loct.copy(), destination_expr: Box::new(gd), source_expr: Box::new(gsrc), result })
    }

    /// Putting a value back into a moved-out local: the local keeps the kind it was bound with.
    fn groupify_restackify(&self, co: &CompilerOutputs, fs: &FunctionS, h: &FunctionHeaderT, access_log: &mut Vec<AccessEventG>, te: &ExpressionTE, range: &RangeS, variable: &LocalVariableT, source_expr: &ExpressionTE,
        rm: &KeyedMap<ITemplataG>, lm: &mut KeyedMap<KindGT>) -> (r: ExpressionGE)
        requires
            *te == (ExpressionTE::Restackify { range: *range, variable: *variable, source_expr: Box::new(*source_expr) }),
            rm.wf(),
            runes_valid(runes_v(*rm)),
            old(lm).wf(),
            locals_valid(locals_v(*old(lm))),
            grouped_node(grouping_ctx(*co, *fs, *h, *rm), *te, grouping_state(*old(lm), old(access_log)@)) is Some,
        ensures
            final(lm).wf(),
            locals_valid(locals_v(*final(lm))),
            walks_to(grouping_ctx(*co, *fs, *h, *rm), *te, grouping_state(*old(lm), old(access_log)@), gev(r),
                grouping_state(*final(lm), final(access_log)@)),
            !(gev(r) is Other),
            kind_valid(kind_v(result_of(r))),
        decreases te, 0int,
    {
        proof { reveal(node_restackify); }
        let code = encode_var(variable.name);
        proof { lemma_lstate(*lm, variable.name); }
        let k = match lm.get(code) {
            Some(k) => k.copy(),
            None => {
                proof { assert(false); }
                KindGT::Void
            },
        };
        let src = self.groupify_expression(co, fs, h, access_log, source_expr, rm, lm);
        ExpressionGE::Restackify(RestackifyGE {
            range: *range, variable: LocalVariableG { name: variable.name, tyype: k }, source_expr: Box::new(src), result: KindGT::Void,
        })
    }

    /// The arguments of a node with no callee signature to read (a construction, or a virtual,
    /// extern or bound call), walked in order, and its kind `result` groupless.
    fn groupify_groupless(&self, co: &CompilerOutputs, fs: &FunctionS, h: &FunctionHeaderT, access_log: &mut Vec<AccessEventG>,
        args: &Vec<ExpressionTE>, result: &KindT, rm: &KeyedMap<ITemplataG>, lm: &mut KeyedMap<KindGT>) -> (r: (Vec<ExpressionGE>, KindGT))
        requires
            rm.wf(),
            runes_valid(runes_v(*rm)),
            old(lm).wf(),
            locals_valid(locals_v(*old(lm))),
            node_groupless(grouping_ctx(*co, *fs, *h, *rm), *result, grouped_nodes(grouping_ctx(*co, *fs, *h, *rm), args@,
                grouping_state(*old(lm), old(access_log)@))) is Some,
        ensures
            final(lm).wf(),
            locals_valid(locals_v(*final(lm))),
            node_groupless(grouping_ctx(*co, *fs, *h, *rm), *result, grouped_nodes(grouping_ctx(*co, *fs, *h, *rm), args@,
                grouping_state(*old(lm), old(access_log)@))) == Some((gevs(r.0@), kind_v(r.1), grouping_state(*final(lm), final(access_log)@))),
            all_built(r.0@),
            kind_valid(kind_v(r.1)),
        decreases args, 1int,
    {
        proof { reveal(node_groupless); }
        let gas = self.groupify_exprs(co, fs, h, access_log, args, rm, lm);
        proof { lemma_lstate(*lm, IVarNameT::SelfName); }
        let k = self.groupify_type(co, rm, lm, result, None, None);
        (gas, k)
    }

    /// A borrow of struct member `name`, through the borrow `k` of the struct (read through any
    /// borrow of a borrow): the member's kind as the struct declares it, in the member's group below
    /// the struct's.
    fn member_borrow(&self, co: &CompilerOutputs, k: &KindGT, name: StrI) -> (r: KindGT)
        requires
            kind_valid(kind_v(*k)),
            peel(kind_v(*k)) matches Some((group, sk)) && struct_members(*co, sk) matches Some(ms) && member_of(ms, name) is Some,
        ensures
            peel(kind_v(*k)) matches Some((group, sk)) && struct_members(*co, sk) matches Some(ms) && member_of(ms, name) matches Some(mk)
                && kind_v(r) == (KindGV::BorrowRef {
                    group: group.map_values(|p: GroupPathV| with_step(p, GroupChildStepG::Member { member_name: name })),
                    inner: Box::new(mk),
                }),
            kind_valid(kind_v(r)),
    {
        match peel_borrow(k) {
            Some((group, KindGT::Struct(st))) => {
                proof { assert(kind_v(KindGT::Struct(*st)) == citizen_v(*st)); }
                let members = self.translate_struct_members(co, st);
                proof { assert(member_v(members, name) is Some); }
                let mk = match members.get(name_code_of(name)) {
                    Some(m) => m.copy(),
                    None => {
                        proof { assert(false); }
                        KindGT::Void
                    },
                };
                let child = group_path_child(&GroupTemplataG { group: copy_paths(&group.group), kind: Box::new(mk.copy()) },
                    GroupChildStepG::Member { member_name: name }, mk.copy());
                KindGT::BorrowRef(BorrowRefGT { group: GroupGT { group: child.group }, inner: Box::new(mk) })
            },
            _ => {
                proof { assert(false); }
                KindGT::Void
            },
        }
    }

    /// A runtime-sized array's length: an integer.
    fn groupify_array_length(&self, co: &CompilerOutputs, fs: &FunctionS, h: &FunctionHeaderT, access_log: &mut Vec<AccessEventG>, te: &ExpressionTE, range: &RangeS, array_expr: &ExpressionTE,
        rm: &KeyedMap<ITemplataG>, lm: &mut KeyedMap<KindGT>) -> (r: ExpressionGE)
        requires
            *te == (ExpressionTE::ArrayLength { range: *range, array_expr: Box::new(*array_expr) }),
            rm.wf(),
            runes_valid(runes_v(*rm)),
            old(lm).wf(),
            locals_valid(locals_v(*old(lm))),
            grouped_node(grouping_ctx(*co, *fs, *h, *rm), *te, grouping_state(*old(lm), old(access_log)@)) is Some,
        ensures
            final(lm).wf(),
            locals_valid(locals_v(*final(lm))),
            walks_to(grouping_ctx(*co, *fs, *h, *rm), *te, grouping_state(*old(lm), old(access_log)@), gev(r),
                grouping_state(*final(lm), final(access_log)@)),
            !(gev(r) is Other),
            kind_valid(kind_v(result_of(r))),
        decreases te, 0int,
    {
        proof { reveal(node_groupless); }
        let a = self.groupify_expression(co, fs, h, access_log, array_expr, rm, lm);
        ExpressionGE::ArrayLength(ArrayLengthGE { range: *range, array_expr: Box::new(a), result: KindGT::Int })
    }

    /// A construction: the members' values walked in order, the struct kind groupless.
    fn groupify_construct(&self, co: &CompilerOutputs, fs: &FunctionS, h: &FunctionHeaderT, access_log: &mut Vec<AccessEventG>, te: &ExpressionTE, range: &RangeS, args: &Vec<ExpressionTE>, result: &KindT,
        rm: &KeyedMap<ITemplataG>, lm: &mut KeyedMap<KindGT>) -> (r: ExpressionGE)
        requires
            *te == (ExpressionTE::Construct { range: *range, args: *args, result: *result }),
            rm.wf(),
            runes_valid(runes_v(*rm)),
            old(lm).wf(),
            locals_valid(locals_v(*old(lm))),
            grouped_node(grouping_ctx(*co, *fs, *h, *rm), *te, grouping_state(*old(lm), old(access_log)@)) is Some,
        ensures
            final(lm).wf(),
            locals_valid(locals_v(*final(lm))),
            walks_to(grouping_ctx(*co, *fs, *h, *rm), *te, grouping_state(*old(lm), old(access_log)@), gev(r),
                grouping_state(*final(lm), final(access_log)@)),
            !(gev(r) is Other),
            kind_valid(kind_v(result_of(r))),
        decreases te, 0int,
    {
        proof { reveal(node_groupless); }
        let (gas, k) = self.groupify_groupless(co, fs, h, access_log, args, result, rm, lm);
        ExpressionGE::Construct(ConstructGE { range: *range, args: gas, result: k })
    }

    /// A virtual call: no callee signature to read groups or churns off, so the arguments are walked and the result is groupless.
    fn groupify_interface_call(&self, co: &CompilerOutputs, fs: &FunctionS, h: &FunctionHeaderT, access_log: &mut Vec<AccessEventG>, te: &ExpressionTE, range: &RangeS, args: &Vec<ExpressionTE>, result: &KindT,
        rm: &KeyedMap<ITemplataG>, lm: &mut KeyedMap<KindGT>) -> (r: ExpressionGE)
        requires
            *te == (ExpressionTE::InterfaceFunctionCall { range: *range, args: *args, result: *result }),
            rm.wf(),
            runes_valid(runes_v(*rm)),
            old(lm).wf(),
            locals_valid(locals_v(*old(lm))),
            grouped_node(grouping_ctx(*co, *fs, *h, *rm), *te, grouping_state(*old(lm), old(access_log)@)) is Some,
        ensures
            final(lm).wf(),
            locals_valid(locals_v(*final(lm))),
            walks_to(grouping_ctx(*co, *fs, *h, *rm), *te, grouping_state(*old(lm), old(access_log)@), gev(r),
                grouping_state(*final(lm), final(access_log)@)),
            !(gev(r) is Other),
            kind_valid(kind_v(result_of(r))),
        decreases te, 0int,
    {
        proof { reveal(node_groupless); }
        let (gas, k) = self.groupify_groupless(co, fs, h, access_log, args, result, rm, lm);
        ExpressionGE::InterfaceFunctionCall(InterfaceFunctionCallGE { range: *range, args: gas, result: k })
    }

    /// A call into extern code: the arguments walked, the result groupless, no churns.
    fn groupify_extern_call(&self, co: &CompilerOutputs, fs: &FunctionS, h: &FunctionHeaderT, access_log: &mut Vec<AccessEventG>, te: &ExpressionTE, range: &RangeS, args: &Vec<ExpressionTE>, result: &KindT,
        rm: &KeyedMap<ITemplataG>, lm: &mut KeyedMap<KindGT>) -> (r: ExpressionGE)
        requires
            *te == (ExpressionTE::ExternFunctionCall { range: *range, args: *args, result: *result }),
            rm.wf(),
            runes_valid(runes_v(*rm)),
            old(lm).wf(),
            locals_valid(locals_v(*old(lm))),
            grouped_node(grouping_ctx(*co, *fs, *h, *rm), *te, grouping_state(*old(lm), old(access_log)@)) is Some,
        ensures
            final(lm).wf(),
            locals_valid(locals_v(*final(lm))),
            walks_to(grouping_ctx(*co, *fs, *h, *rm), *te, grouping_state(*old(lm), old(access_log)@), gev(r),
                grouping_state(*final(lm), final(access_log)@)),
            !(gev(r) is Other),
            kind_valid(kind_v(result_of(r))),
        decreases te, 0int,
    {
        proof { reveal(node_groupless); }
        let (gas, k) = self.groupify_groupless(co, fs, h, access_log, args, result, rm, lm);
        ExpressionGE::ExternFunctionCall(ExternFunctionCallGE { range: *range, args: gas, result: k })
    }

    /// A call through a generic bound: the arguments walked, the result groupless, no churns.
    fn groupify_bound_call(&self, co: &CompilerOutputs, fs: &FunctionS, h: &FunctionHeaderT, access_log: &mut Vec<AccessEventG>, te: &ExpressionTE, range: &RangeS, args: &Vec<ExpressionTE>, result: &KindT,
        rm: &KeyedMap<ITemplataG>, lm: &mut KeyedMap<KindGT>) -> (r: ExpressionGE)
        requires
            *te == (ExpressionTE::BoundFunctionCall { range: *range, args: *args, result: *result }),
            rm.wf(),
            runes_valid(runes_v(*rm)),
            old(lm).wf(),
            locals_valid(locals_v(*old(lm))),
            grouped_node(grouping_ctx(*co, *fs, *h, *rm), *te, grouping_state(*old(lm), old(access_log)@)) is Some,
        ensures
            final(lm).wf(),
            locals_valid(locals_v(*final(lm))),
            walks_to(grouping_ctx(*co, *fs, *h, *rm), *te, grouping_state(*old(lm), old(access_log)@), gev(r),
                grouping_state(*final(lm), final(access_log)@)),
            !(gev(r) is Other),
            kind_valid(kind_v(result_of(r))),
        decreases te, 0int,
    {
        proof { reveal(node_groupless); }
        let (gas, k) = self.groupify_groupless(co, fs, h, access_log, args, result, rm, lm);
        ExpressionGE::BoundFunctionCall(BoundFunctionCallGE { range: *range, args: gas, result: k })
    }

    /// Locking a weak reference: the optional borrow it yields is groupless.
    fn groupify_lock_weak(&self, co: &CompilerOutputs, fs: &FunctionS, h: &FunctionHeaderT, access_log: &mut Vec<AccessEventG>, te: &ExpressionTE, range: &RangeS, inner_expr: &ExpressionTE, result: &KindT,
        rm: &KeyedMap<ITemplataG>, lm: &mut KeyedMap<KindGT>) -> (r: ExpressionGE)
        requires
            *te == (ExpressionTE::LockWeak { range: *range, inner_expr: Box::new(*inner_expr), result: *result }),
            rm.wf(),
            runes_valid(runes_v(*rm)),
            old(lm).wf(),
            locals_valid(locals_v(*old(lm))),
            grouped_node(grouping_ctx(*co, *fs, *h, *rm), *te, grouping_state(*old(lm), old(access_log)@)) is Some,
        ensures
            final(lm).wf(),
            locals_valid(locals_v(*final(lm))),
            walks_to(grouping_ctx(*co, *fs, *h, *rm), *te, grouping_state(*old(lm), old(access_log)@), gev(r),
                grouping_state(*final(lm), final(access_log)@)),
            !(gev(r) is Other),
            kind_valid(kind_v(result_of(r))),
        decreases te, 0int,
    {
        proof { reveal(node_one_groupless); }
        let g = self.groupify_expression(co, fs, h, access_log, inner_expr, rm, lm);
        proof { lemma_lstate(*lm, IVarNameT::SelfName); }
        let k = self.groupify_type(co, rm, lm, result, None, None);
        ExpressionGE::LockWeak(LockWeakGE { range: *range, inner_expr: Box::new(g), result: k })
    }

    /// An array's static size: its kind groupless.
    fn groupify_array_size(&self, co: &CompilerOutputs, fs: &FunctionS, h: &FunctionHeaderT, access_log: &mut Vec<AccessEventG>, te: &ExpressionTE, range: &RangeS, array: &ExpressionTE, result: &KindT,
        rm: &KeyedMap<ITemplataG>, lm: &mut KeyedMap<KindGT>) -> (r: ExpressionGE)
        requires
            *te == (ExpressionTE::ArraySize { range: *range, array: Box::new(*array), result: *result }),
            rm.wf(),
            runes_valid(runes_v(*rm)),
            old(lm).wf(),
            locals_valid(locals_v(*old(lm))),
            grouped_node(grouping_ctx(*co, *fs, *h, *rm), *te, grouping_state(*old(lm), old(access_log)@)) is Some,
        ensures
            final(lm).wf(),
            locals_valid(locals_v(*final(lm))),
            walks_to(grouping_ctx(*co, *fs, *h, *rm), *te, grouping_state(*old(lm), old(access_log)@), gev(r),
                grouping_state(*final(lm), final(access_log)@)),
            !(gev(r) is Other),
            kind_valid(kind_v(result_of(r))),
        decreases te, 0int,
    {
        proof { reveal(node_one_groupless); }
        let g = self.groupify_expression(co, fs, h, access_log, array, rm, lm);
        proof { lemma_lstate(*lm, IVarNameT::SelfName); }
        let k = self.groupify_type(co, rm, lm, result, None, None);
        ExpressionGE::ArraySize(ArraySizeGE { range: *range, array: Box::new(g), result: k })
    }

    /// An inline array filled from a generator: the array kind groupless.
    fn groupify_array_from_callable(&self, co: &CompilerOutputs, fs: &FunctionS, h: &FunctionHeaderT, access_log: &mut Vec<AccessEventG>, te: &ExpressionTE, range: &RangeS, generator: &ExpressionTE, result: &KindT,
        rm: &KeyedMap<ITemplataG>, lm: &mut KeyedMap<KindGT>) -> (r: ExpressionGE)
        requires
            *te == (ExpressionTE::StaticArrayFromCallable { range: *range, generator: Box::new(*generator), result: *result }),
            rm.wf(),
            runes_valid(runes_v(*rm)),
            old(lm).wf(),
            locals_valid(locals_v(*old(lm))),
            grouped_node(grouping_ctx(*co, *fs, *h, *rm), *te, grouping_state(*old(lm), old(access_log)@)) is Some,
        ensures
            final(lm).wf(),
            locals_valid(locals_v(*final(lm))),
            walks_to(grouping_ctx(*co, *fs, *h, *rm), *te, grouping_state(*old(lm), old(access_log)@), gev(r),
                grouping_state(*final(lm), final(access_log)@)),
            !(gev(r) is Other),
            kind_valid(kind_v(result_of(r))),
        decreases te, 0int,
    {
        proof { reveal(node_one_groupless); }
        let g = self.groupify_expression(co, fs, h, access_log, generator, rm, lm);
        proof { lemma_lstate(*lm, IVarNameT::SelfName); }
        let k = self.groupify_type(co, rm, lm, result, None, None);
        ExpressionGE::StaticArrayFromCallable(StaticArrayFromCallableGE { range: *range, generator: Box::new(g), result: k })
    }

    /// A runtime-sized array's capacity: its kind groupless.
    fn groupify_rsa_capacity(&self, co: &CompilerOutputs, fs: &FunctionS, h: &FunctionHeaderT, access_log: &mut Vec<AccessEventG>, te: &ExpressionTE, range: &RangeS, array_expr: &ExpressionTE, result: &KindT,
        rm: &KeyedMap<ITemplataG>, lm: &mut KeyedMap<KindGT>) -> (r: ExpressionGE)
        requires
            *te == (ExpressionTE::RuntimeSizedArrayCapacity { range: *range, array_expr: Box::new(*array_expr), result: *result }),
            rm.wf(),
            runes_valid(runes_v(*rm)),
            old(lm).wf(),
            locals_valid(locals_v(*old(lm))),
            grouped_node(grouping_ctx(*co, *fs, *h, *rm), *te, grouping_state(*old(lm), old(access_log)@)) is Some,
        ensures
            final(lm).wf(),
            locals_valid(locals_v(*final(lm))),
            walks_to(grouping_ctx(*co, *fs, *h, *rm), *te, grouping_state(*old(lm), old(access_log)@), gev(r),
                grouping_state(*final(lm), final(access_log)@)),
            !(gev(r) is Other),
            kind_valid(kind_v(result_of(r))),
        decreases te, 0int,
    {
        proof { reveal(node_one_groupless); }
        let g = self.groupify_expression(co, fs, h, access_log, array_expr, rm, lm);
        proof { lemma_lstate(*lm, IVarNameT::SelfName); }
        let k = self.groupify_type(co, rm, lm, result, None, None);
        ExpressionGE::RuntimeSizedArrayCapacity(RuntimeSizedArrayCapacityGE { range: *range, array_expr: Box::new(g), result: k })
    }

    /// A checked downcast: the operand's group, the result kind's structure.
    fn groupify_as_subtype(&self, co: &CompilerOutputs, fs: &FunctionS, h: &FunctionHeaderT, access_log: &mut Vec<AccessEventG>, te: &ExpressionTE, range: &RangeS, source_expr: &ExpressionTE, result: &KindT,
        rm: &KeyedMap<ITemplataG>, lm: &mut KeyedMap<KindGT>) -> (r: ExpressionGE)
        requires
            *te == (ExpressionTE::AsSubtype { range: *range, source_expr: Box::new(*source_expr), result: *result }),
            rm.wf(),
            runes_valid(runes_v(*rm)),
            old(lm).wf(),
            locals_valid(locals_v(*old(lm))),
            grouped_node(grouping_ctx(*co, *fs, *h, *rm), *te, grouping_state(*old(lm), old(access_log)@)) is Some,
        ensures
            final(lm).wf(),
            locals_valid(locals_v(*final(lm))),
            walks_to(grouping_ctx(*co, *fs, *h, *rm), *te, grouping_state(*old(lm), old(access_log)@), gev(r),
                grouping_state(*final(lm), final(access_log)@)),
            !(gev(r) is Other),
            kind_valid(kind_v(result_of(r))),
        decreases te, 0int,
    {
        proof { reveal(node_cast); }
        let g = self.groupify_expression(co, fs, h, access_log, source_expr, rm, lm);
        proof { lemma_result_v(g); lemma_lstate(*lm, IVarNameT::SelfName); }
        let k = self.cast_result(co, rm, lm, result, g.result());
        ExpressionGE::AsSubtype(AsSubtypeGE { range: *range, source_expr: Box::new(g), result: k })
    }

    /// An upcast to a super-interface: the operand's group, the target's structure.
    fn groupify_interface_to_interface(&self, co: &CompilerOutputs, fs: &FunctionS, h: &FunctionHeaderT, access_log: &mut Vec<AccessEventG>, te: &ExpressionTE, range: &RangeS, inner_expr: &ExpressionTE, result: &KindT,
        rm: &KeyedMap<ITemplataG>, lm: &mut KeyedMap<KindGT>) -> (r: ExpressionGE)
        requires
            *te == (ExpressionTE::InterfaceToInterfaceUpcast { range: *range, inner_expr: Box::new(*inner_expr), result: *result }),
            rm.wf(),
            runes_valid(runes_v(*rm)),
            old(lm).wf(),
            locals_valid(locals_v(*old(lm))),
            grouped_node(grouping_ctx(*co, *fs, *h, *rm), *te, grouping_state(*old(lm), old(access_log)@)) is Some,
        ensures
            final(lm).wf(),
            locals_valid(locals_v(*final(lm))),
            walks_to(grouping_ctx(*co, *fs, *h, *rm), *te, grouping_state(*old(lm), old(access_log)@), gev(r),
                grouping_state(*final(lm), final(access_log)@)),
            !(gev(r) is Other),
            kind_valid(kind_v(result_of(r))),
        decreases te, 0int,
    {
        proof { reveal(node_cast); }
        let g = self.groupify_expression(co, fs, h, access_log, inner_expr, rm, lm);
        proof { lemma_result_v(g); lemma_lstate(*lm, IVarNameT::SelfName); }
        let k = self.cast_result(co, rm, lm, result, g.result());
        ExpressionGE::InterfaceToInterfaceUpcast(InterfaceToInterfaceUpcastGE { range: *range, inner_expr: Box::new(g), result: k })
    }

    /// An inline array literal: its elements walked in order, its kind groupless.
    fn groupify_array_from_values(&self, co: &CompilerOutputs, fs: &FunctionS, h: &FunctionHeaderT, access_log: &mut Vec<AccessEventG>, te: &ExpressionTE, range: &RangeS, elements: &Vec<ExpressionTE>, result: &KindT,
        rm: &KeyedMap<ITemplataG>, lm: &mut KeyedMap<KindGT>) -> (r: ExpressionGE)
        requires
            *te == (ExpressionTE::StaticArrayFromValues { range: *range, elements: *elements, result: *result }),
            rm.wf(),
            runes_valid(runes_v(*rm)),
            old(lm).wf(),
            locals_valid(locals_v(*old(lm))),
            grouped_node(grouping_ctx(*co, *fs, *h, *rm), *te, grouping_state(*old(lm), old(access_log)@)) is Some,
        ensures
            final(lm).wf(),
            locals_valid(locals_v(*final(lm))),
            walks_to(grouping_ctx(*co, *fs, *h, *rm), *te, grouping_state(*old(lm), old(access_log)@), gev(r),
                grouping_state(*final(lm), final(access_log)@)),
            !(gev(r) is Other),
            kind_valid(kind_v(result_of(r))),
        decreases te, 0int,
    {
        proof { reveal(node_groupless); }
        let (gs, k) = self.groupify_groupless(co, fs, h, access_log, elements, result, rm, lm);
        ExpressionGE::StaticArrayFromValues(StaticArrayFromValuesGE { range: *range, elements: gs, result: k })
    }

    /// Whether two references point at one object: both walked in order, the answer's kind groupless.
    fn groupify_is_same_instance(&self, co: &CompilerOutputs, fs: &FunctionS, h: &FunctionHeaderT, access_log: &mut Vec<AccessEventG>, te: &ExpressionTE, range: &RangeS, left: &ExpressionTE, right: &ExpressionTE, result: &KindT,
        rm: &KeyedMap<ITemplataG>, lm: &mut KeyedMap<KindGT>) -> (r: ExpressionGE)
        requires
            *te == (ExpressionTE::IsSameInstance { range: *range, left: Box::new(*left), right: Box::new(*right), result: *result }),
            rm.wf(),
            runes_valid(runes_v(*rm)),
            old(lm).wf(),
            locals_valid(locals_v(*old(lm))),
            grouped_node(grouping_ctx(*co, *fs, *h, *rm), *te, grouping_state(*old(lm), old(access_log)@)) is Some,
        ensures
            final(lm).wf(),
            locals_valid(locals_v(*final(lm))),
            walks_to(grouping_ctx(*co, *fs, *h, *rm), *te, grouping_state(*old(lm), old(access_log)@), gev(r),
                grouping_state(*final(lm), final(access_log)@)),
            !(gev(r) is Other),
            kind_valid(kind_v(result_of(r))),
        decreases te, 0int,
    {
        proof { reveal(node_one_groupless); }
        let ghost c = grouping_ctx(*co, *fs, *h, *rm);
        let ghost s0 = grouping_state(*lm, access_log@);
        let gl = self.groupify_expression(co, fs, h, access_log, left, rm, lm);
        let ghost s1 = grouping_state(*lm, access_log@);
        proof {
            assert(grouped_node(c, *left, s0) == Some((gev(gl), s1)));
            assert(grouped_node(c, *right, s1) is Some);
        }
        let gr = self.groupify_expression(co, fs, h, access_log, right, rm, lm);
        proof { lemma_lstate(*lm, IVarNameT::SelfName); }
        let k = self.groupify_type(co, rm, lm, result, None, None);
        ExpressionGE::IsSameInstance(IsSameInstanceGE { range: *range, left: Box::new(gl), right: Box::new(gr), result: k })
    }

    /// An inline array handed element by element to a consumer: both walked in order.
    fn groupify_destroy_into_function(&self, co: &CompilerOutputs, fs: &FunctionS, h: &FunctionHeaderT, access_log: &mut Vec<AccessEventG>, te: &ExpressionTE, range: &RangeS, array_expr: &ExpressionTE, consumer: &ExpressionTE,
        rm: &KeyedMap<ITemplataG>, lm: &mut KeyedMap<KindGT>) -> (r: ExpressionGE)
        requires
            *te == (ExpressionTE::DestroyStaticSizedArrayIntoFunction { range: *range, array_expr: Box::new(*array_expr), consumer: Box::new(*consumer) }),
            rm.wf(),
            runes_valid(runes_v(*rm)),
            old(lm).wf(),
            locals_valid(locals_v(*old(lm))),
            grouped_node(grouping_ctx(*co, *fs, *h, *rm), *te, grouping_state(*old(lm), old(access_log)@)) is Some,
        ensures
            final(lm).wf(),
            locals_valid(locals_v(*final(lm))),
            walks_to(grouping_ctx(*co, *fs, *h, *rm), *te, grouping_state(*old(lm), old(access_log)@), gev(r),
                grouping_state(*final(lm), final(access_log)@)),
            !(gev(r) is Other),
            kind_valid(kind_v(result_of(r))),
        decreases te, 0int,
    {
        proof { reveal(node_one_groupless); }
        let ghost c = grouping_ctx(*co, *fs, *h, *rm);
        let ghost s0 = grouping_state(*lm, access_log@);
        let ga = self.groupify_expression(co, fs, h, access_log, array_expr, rm, lm);
        let ghost s1 = grouping_state(*lm, access_log@);
        proof {
            assert(grouped_node(c, *array_expr, s0) == Some((gev(ga), s1)));
            assert(grouped_node(c, *consumer, s1) is Some);
        }
        let gb = self.groupify_expression(co, fs, h, access_log, consumer, rm, lm);
        ExpressionGE::DestroyStaticSizedArrayIntoFunction(DestroyStaticSizedArrayIntoFunctionGE { range: *range, array_expr: Box::new(ga), consumer: Box::new(gb), result: KindGT::Void })
    }

    /// A push onto a runtime-sized array: the array and the new element walked in order.
    fn groupify_push_rsa(&self, co: &CompilerOutputs, fs: &FunctionS, h: &FunctionHeaderT, access_log: &mut Vec<AccessEventG>, te: &ExpressionTE, range: &RangeS, array_expr: &ExpressionTE, new_element_expr: &ExpressionTE,
        rm: &KeyedMap<ITemplataG>, lm: &mut KeyedMap<KindGT>) -> (r: ExpressionGE)
        requires
            *te == (ExpressionTE::PushRuntimeSizedArray { range: *range, array_expr: Box::new(*array_expr), new_element_expr: Box::new(*new_element_expr) }),
            rm.wf(),
            runes_valid(runes_v(*rm)),
            old(lm).wf(),
            locals_valid(locals_v(*old(lm))),
            grouped_node(grouping_ctx(*co, *fs, *h, *rm), *te, grouping_state(*old(lm), old(access_log)@)) is Some,
        ensures
            final(lm).wf(),
            locals_valid(locals_v(*final(lm))),
            walks_to(grouping_ctx(*co, *fs, *h, *rm), *te, grouping_state(*old(lm), old(access_log)@), gev(r),
                grouping_state(*final(lm), final(access_log)@)),
            !(gev(r) is Other),
            kind_valid(kind_v(result_of(r))),
        decreases te, 0int,
    {
        proof { reveal(node_one_groupless); }
        let ghost c = grouping_ctx(*co, *fs, *h, *rm);
        let ghost s0 = grouping_state(*lm, access_log@);
        let ga = self.groupify_expression(co, fs, h, access_log, array_expr, rm, lm);
        let ghost s1 = grouping_state(*lm, access_log@);
        proof {
            assert(grouped_node(c, *array_expr, s0) == Some((gev(ga), s1)));
            assert(grouped_node(c, *new_element_expr, s1) is Some);
        }
        let gb = self.groupify_expression(co, fs, h, access_log, new_element_expr, rm, lm);
        ExpressionGE::PushRuntimeSizedArray(PushRuntimeSizedArrayGE { range: *range, array_expr: Box::new(ga), new_element_expr: Box::new(gb), result: KindGT::Void })
    }

    /// Destroying an empty runtime-sized array.
    fn groupify_destroy_rsa(&self, co: &CompilerOutputs, fs: &FunctionS, h: &FunctionHeaderT, access_log: &mut Vec<AccessEventG>, te: &ExpressionTE, range: &RangeS, array_expr: &ExpressionTE,
        rm: &KeyedMap<ITemplataG>, lm: &mut KeyedMap<KindGT>) -> (r: ExpressionGE)
        requires
            *te == (ExpressionTE::DestroyRuntimeSizedArray { range: *range, array_expr: Box::new(*array_expr) }),
            rm.wf(),
            runes_valid(runes_v(*rm)),
            old(lm).wf(),
            locals_valid(locals_v(*old(lm))),
            grouped_node(grouping_ctx(*co, *fs, *h, *rm), *te, grouping_state(*old(lm), old(access_log)@)) is Some,
        ensures
            final(lm).wf(),
            locals_valid(locals_v(*final(lm))),
            walks_to(grouping_ctx(*co, *fs, *h, *rm), *te, grouping_state(*old(lm), old(access_log)@), gev(r),
                grouping_state(*final(lm), final(access_log)@)),
            !(gev(r) is Other),
            kind_valid(kind_v(result_of(r))),
        decreases te, 0int,
    {
        proof { reveal(node_one_groupless); }
        let g = self.groupify_expression(co, fs, h, access_log, array_expr, rm, lm);
        ExpressionGE::DestroyRuntimeSizedArray(DestroyRuntimeSizedArrayGE { range: *range, array_expr: Box::new(g), result: KindGT::Void })
    }

    /// An inline array moved element by element into locals: each local takes the array's element kind, in order.
    fn groupify_destroy_into_locals(&self, co: &CompilerOutputs, fs: &FunctionS, h: &FunctionHeaderT, access_log: &mut Vec<AccessEventG>, te: &ExpressionTE, range: &RangeS, expr: &ExpressionTE, static_sized_array: &StaticSizedArrayTT, destination_reference_variables: &Vec<LocalVariableT>,
        rm: &KeyedMap<ITemplataG>, lm: &mut KeyedMap<KindGT>) -> (r: ExpressionGE)
        requires
            *te == (ExpressionTE::DestroyStaticSizedArrayIntoLocals { range: *range, expr: Box::new(*expr), static_sized_array: *static_sized_array, destination_reference_variables: *destination_reference_variables }),
            rm.wf(),
            runes_valid(runes_v(*rm)),
            old(lm).wf(),
            locals_valid(locals_v(*old(lm))),
            grouped_node(grouping_ctx(*co, *fs, *h, *rm), *te, grouping_state(*old(lm), old(access_log)@)) is Some,
        ensures
            final(lm).wf(),
            locals_valid(locals_v(*final(lm))),
            walks_to(grouping_ctx(*co, *fs, *h, *rm), *te, grouping_state(*old(lm), old(access_log)@), gev(r),
                grouping_state(*final(lm), final(access_log)@)),
            !(gev(r) is Other),
            kind_valid(kind_v(result_of(r))),
        decreases te, 0int,
    {
        proof { reveal(node_destroy_into_locals); }
        let g = self.groupify_expression(co, fs, h, access_log, expr, rm, lm);
        proof { lemma_lstate(*lm, IVarNameT::SelfName); }
        let arr = self.ssa_gt(co, rm, lm, static_sized_array);
        let ghost names = destination_reference_variables@.map_values(|v: LocalVariableT| v.name);
        let ghost ek = kind_v(*arr.element_type);
        let ghost l0 = lstate(*lm);
        proof {
            assert(kind_v(KindGT::StaticSizedArray(arr)) == KindGV::StaticSizedArray(Box::new(ek)));
            assert(kind_valid(ek));
            assert(names.subrange(0, 0) =~= Seq::<IVarNameT>::empty());
        }
        let mut vars: Vec<LocalVariableG> = Vec::new();
        let mut i: usize = 0;
        proof { assert(variables_v(vars@) =~= names.subrange(0, 0).map_values(|n: IVarNameT| (n, ek))); }
        while i < destination_reference_variables.len()
            invariant
                i <= destination_reference_variables@.len(),
                names == destination_reference_variables@.map_values(|v: LocalVariableT| v.name),
                lm.wf(),
                locals_valid(locals_v(*lm)),
                kind_valid(ek),
                ek == kind_v(*arr.element_type),
                lstate(*lm) == lput_all(l0, names.subrange(0, i as int), ek),
                variables_v(vars@) == names.subrange(0, i as int).map_values(|n: IVarNameT| (n, ek)),
            decreases destination_reference_variables@.len() - i,
        {
            let name = destination_reference_variables[i].name;
            let ghost before = *lm;
            let stored = arr.element_type.copy();
            let ghost sv = stored;
            lm.insert(encode_var(name), stored);
            proof {
                lemma_lput(before, *lm, name, sv);
        assert(names.subrange(0, i + 1).drop_last() =~= names.subrange(0, i as int));
        assert(names.subrange(0, i + 1).last() == name);
            }
            let ghost vbefore = vars@;
            vars.push(LocalVariableG { name, tyype: arr.element_type.copy() });
            proof {
        assert(variables_v(vars@) =~= variables_v(vbefore).push((name, ek)));
        assert(variables_v(vars@) =~= names.subrange(0, i + 1).map_values(|n: IVarNameT| (n, ek)));
            }
            i = i + 1;
        }
        proof {
            assert(names.subrange(0, names.len() as int) =~= names);
            assert(variables_v(vars@) =~= names.map_values(|n: IVarNameT| (n, ek)));
        }
        ExpressionGE::DestroyStaticSizedArrayIntoLocals(DestroyStaticSizedArrayIntoLocalsGE {
            range: *range, expr: Box::new(g), destination_reference_variables: vars, result: KindGT::Void,
        })
    }

    /// A struct destructured into locals: the struct walked, then each local bound, in member order, to its member's kind.
    fn groupify_destroy(&self, co: &CompilerOutputs, fs: &FunctionS, h: &FunctionHeaderT, access_log: &mut Vec<AccessEventG>, te: &ExpressionTE, range: &RangeS, loct: &LocT, expr: &ExpressionTE, destination_reference_variables: &Vec<LocalVariableT>,
        rm: &KeyedMap<ITemplataG>, lm: &mut KeyedMap<KindGT>) -> (r: ExpressionGE)
        requires
            *te == (ExpressionTE::Destroy { range: *range, loct: *loct, expr: Box::new(*expr), destination_reference_variables: *destination_reference_variables }),
            rm.wf(),
            runes_valid(runes_v(*rm)),
            old(lm).wf(),
            locals_valid(locals_v(*old(lm))),
            grouped_node(grouping_ctx(*co, *fs, *h, *rm), *te, grouping_state(*old(lm), old(access_log)@)) is Some,
        ensures
            final(lm).wf(),
            locals_valid(locals_v(*final(lm))),
            walks_to(grouping_ctx(*co, *fs, *h, *rm), *te, grouping_state(*old(lm), old(access_log)@), gev(r),
                grouping_state(*final(lm), final(access_log)@)),
            !(gev(r) is Other),
            kind_valid(kind_v(result_of(r))),
        decreases te, 0int,
    {
        proof { reveal(node_destroy); }
        let g = self.groupify_expression(co, fs, h, access_log, expr, rm, lm);
        proof { lemma_result_v(g); }
        let vars = match g.result() {
            KindGT::Struct(st) => {
                proof { assert(kind_v(KindGT::Struct(*st)) == citizen_v(*st)); }
                self.bind_members(co, st, destination_reference_variables, lm)
            },
            _ => {
                proof { assert(false); }
                Vec::new()
            },
        };
        ExpressionGE::Destroy(DestroyGE {
            range: *range, loct: loct.copy(), expr: Box::new(g), destination_reference_variables: vars, result: KindGT::Void,
        })
    }

    /// The locals a destructured struct's members are moved into: each of `dvs`, in member order,
    /// bound in `lm` to its member's kind as the struct declares it.
    fn bind_members(&self, co: &CompilerOutputs, st: &CitizenGT, dvs: &Vec<LocalVariableT>, lm: &mut KeyedMap<KindGT>)
        -> (r: Vec<LocalVariableG>)
        requires
            old(lm).wf(),
            locals_valid(locals_v(*old(lm))),
            kind_valid(citizen_v(*st)),
            struct_members(*co, citizen_v(*st)) matches Some(ms) && ms.len() == dvs@.len() && names_distinct(ms),
        ensures
            final(lm).wf(),
            locals_valid(locals_v(*final(lm))),
            struct_members(*co, citizen_v(*st)) matches Some(ms) && ({
                let vars = Seq::new(dvs@.len(), |i: int| (dvs@.map_values(|v: LocalVariableT| v.name)[i], ms[i].1));
                &&& variables_v(r@) == vars
                &&& lstate(*final(lm)) == lput_pairs(lstate(*old(lm)), vars)
            }),
    {
        let ghost ms = struct_members(*co, citizen_v(*st))->0;
        let ghost names = dvs@.map_values(|v: LocalVariableT| v.name);
        let ghost vars = Seq::new(dvs@.len(), |i: int| (names[i], ms[i].1));
        let members = self.translate_struct_members(co, st);
        let tmpl = match co.struct_template(st.template) {
            Some(t) => t,
            None => {
                proof { assert(false); }
                return Vec::new();
            },
        };
        proof {
            lemma_members_grouped_names(*co, bind_params(tmpl.generic_params@, templatas_v(st.template_args@)), tmpl.members@);
        }
        let ghost l0 = lstate(*lm);
        let mut out: Vec<LocalVariableG> = Vec::new();
        let mut i: usize = 0;
        proof {
            assert(vars.subrange(0, 0) =~= Seq::<(IVarNameT, KindGV)>::empty());
            assert(variables_v(out@) =~= Seq::<(IVarNameT, KindGV)>::empty());
        }
        while i < dvs.len()
            invariant
                i <= dvs@.len(),
                ms.len() == dvs@.len(),
                tmpl.members@.len() == ms.len(),
                forall|j: int| 0 <= j < ms.len() ==> #[trigger] ms[j].0 == tmpl.members@[j].name,
                names_distinct(ms),
                names == dvs@.map_values(|v: LocalVariableT| v.name),
                vars == Seq::new(dvs@.len(), |i: int| (names[i], ms[i].1)),
                members.wf(),
                forall|name: StrI| #[trigger] member_v(members, name) == member_of(ms, name),
                forall|name: StrI| #[trigger] member_v(members, name) matches Some(k) ==> kind_valid(k),
                lm.wf(),
                locals_valid(locals_v(*lm)),
                lstate(*lm) == lput_pairs(l0, vars.subrange(0, i as int)),
                variables_v(out@) == vars.subrange(0, i as int),
            decreases dvs@.len() - i,
        {
            let mname = tmpl.members[i].name;
            proof {
                lemma_distinct_last_named(ms, i as int);
        assert(member_v(members, mname) == Some(ms[i as int].1));
            }
            let k = match members.get(name_code_of(mname)) {
                Some(k) => k.copy(),
                None => {
                    proof { assert(false); }
                    KindGT::Void
                },
            };
            let name = dvs[i].name;
            let ghost before = *lm;
            let stored = k.copy();
            let ghost sv = stored;
            lm.insert(encode_var(name), stored);
            proof {
                lemma_lput(before, *lm, name, sv);
        assert(vars.subrange(0, i + 1).drop_last() =~= vars.subrange(0, i as int));
        assert(vars.subrange(0, i + 1).last() == (name, kind_v(k)));
            }
            let ghost ob = out@;
            out.push(LocalVariableG { name, tyype: k });
            proof {
        assert(variables_v(out@) =~= variables_v(ob).push(vars[i as int]));
        assert(variables_v(out@) =~= vars.subrange(0, i + 1));
            }
            i = i + 1;
        }
        proof { assert(vars.subrange(0, vars.len() as int) =~= vars); }
        out
    }

    /// A loop: its body walked; the loop churns every group its body churns (a reference is spoiled on the first iteration by a churn from any later one).
    fn groupify_while(&self, co: &CompilerOutputs, fs: &FunctionS, h: &FunctionHeaderT, access_log: &mut Vec<AccessEventG>, te: &ExpressionTE, range: &RangeS, block_range: &RangeS, body: &ExpressionTE, result: &KindT,
        rm: &KeyedMap<ITemplataG>, lm: &mut KeyedMap<KindGT>) -> (r: ExpressionGE)
        requires
            *te == (ExpressionTE::While { range: *range, loct: te->While_loct, block_range: *block_range, body: Box::new(*body), result: *result }),
            rm.wf(),
            runes_valid(runes_v(*rm)),
            old(lm).wf(),
            locals_valid(locals_v(*old(lm))),
            grouped_node(grouping_ctx(*co, *fs, *h, *rm), *te, grouping_state(*old(lm), old(access_log)@)) is Some,
        ensures
            final(lm).wf(),
            locals_valid(locals_v(*final(lm))),
            walks_to(grouping_ctx(*co, *fs, *h, *rm), *te, grouping_state(*old(lm), old(access_log)@), gev(r),
                grouping_state(*final(lm), final(access_log)@)),
            !(gev(r) is Other),
            kind_valid(kind_v(result_of(r))),
        decreases te, 0int,
    {
        proof { reveal(node_while); }
        let b = self.groupify_expression(co, fs, h, access_log, body, rm, lm);
        proof { lemma_result_v(b); lemma_churns_of(b); lemma_lstate(*lm, IVarNameT::SelfName); }
        let mut churns: Vec<MutEffectPath> = Vec::new();
        collect_subtree_churns(&b, &mut churns);
        proof { assert(effects_v(churns@) =~= churns_of(gev(b))); }
        let k = self.groupify_type(co, rm, lm, result, None, None);
        let block_result = b.result().copy();
        ExpressionGE::While(WhileGE {
            range: *range, block: BlockGE { range: *block_range, inner: Box::new(b), result: block_result }, mut_effects: churns, result: k,
        })
    }

    /// The grouped twins of a list of typed nodes, walked in order.
    fn groupify_exprs(&self, co: &CompilerOutputs, fs: &FunctionS, h: &FunctionHeaderT, access_log: &mut Vec<AccessEventG>,
        tes: &Vec<ExpressionTE>, rm: &KeyedMap<ITemplataG>, lm: &mut KeyedMap<KindGT>) -> (r: Vec<ExpressionGE>)
        requires
            rm.wf(),
            runes_valid(runes_v(*rm)),
            old(lm).wf(),
            locals_valid(locals_v(*old(lm))),
            grouped_nodes(grouping_ctx(*co, *fs, *h, *rm), tes@, grouping_state(*old(lm), old(access_log)@)) is Some,
        ensures
            final(lm).wf(),
            locals_valid(locals_v(*final(lm))),
            walks_all_to(grouping_ctx(*co, *fs, *h, *rm), tes@, grouping_state(*old(lm), old(access_log)@), gevs(r@),
                grouping_state(*final(lm), final(access_log)@)),
            all_built(r@),
        decreases tes, 0int,
    {
        let ghost c = grouping_ctx(*co, *fs, *h, *rm);
        let ghost s0 = grouping_state(*lm, access_log@);
        let mut out: Vec<ExpressionGE> = Vec::new();
        let mut i: usize = 0;
        proof {
            assert(tes@.subrange(0, 0) =~= Seq::<ExpressionTE>::empty());
            assert(gevs(out@) =~= Seq::<GEV>::empty());
        }
        while i < tes.len()
            invariant
                i <= tes@.len(),
                c == grouping_ctx(*co, *fs, *h, *rm),
                rm.wf(),
                runes_valid(runes_v(*rm)),
                lm.wf(),
                locals_valid(locals_v(*lm)),
                grouped_nodes(c, tes@, s0) is Some,
                walks_all_to(c, tes@.subrange(0, i as int), s0, gevs(out@), grouping_state(*lm, access_log@)),
                all_built(out@),
            decreases tes@.len() - i,
        {
            proof {
                lemma_grouped_nodes_prefix(c, tes@, s0, i + 1);
        assert(tes@.subrange(0, i + 1).drop_last() =~= tes@.subrange(0, i as int));
        assert(decreases_to!(*tes => tes@));
        assert(decreases_to!(tes@ => tes@[i as int]));
            }
            let e = self.groupify_expression(co, fs, h, access_log, &tes[i], rm, lm);
            proof { assert(out@.push(e).subrange(0, out@.len() as int) =~= out@); }
            out.push(e);
            i = i + 1;
        }
        proof { assert(tes@.subrange(0, tes@.len() as int) =~= tes@); }
        out
    }

    /// The churns a callee's declared effects make at a call at `loct`, reported at `range`, read
    /// through the callee's rune map `cm`: one flat path per union member of each `mut(g)`.
    fn call_churns(&self, co: &CompilerOutputs, cf: &FunctionS, cm: &KeyedMap<ITemplataG>, loct: &LocT, range: RangeS)
        -> (r: Vec<MutEffectPath>)
        requires
            cm.wf(),
            runes_valid(runes_v(*cm)),
            call_effects(*co, runes_v(*cm), cf.effects@, loct@, range) is Some,
        ensures
            effects_v(r@) == call_effects(*co, runes_v(*cm), cf.effects@, loct@, range)->0,
    {
        let ghost cmv = runes_v(*cm);
        let mut out: Vec<MutEffectPath> = Vec::new();
        let mut i: usize = 0;
        proof {
            assert(cf.effects@.subrange(0, 0) =~= Seq::<EffectS>::empty());
            assert(effects_v(out@) =~= Seq::<(Seq<i32>, RangeS, Seq<GroupStep>)>::empty());
        }
        while i < cf.effects.len()
            invariant
                i <= cf.effects@.len(),
                cm.wf(),
                cmv == runes_v(*cm),
                runes_valid(cmv),
                call_effects(*co, cmv, cf.effects@, loct@, range) is Some,
                call_effects(*co, cmv, cf.effects@.subrange(0, i as int), loct@, range) == Some(effects_v(out@)),
            decreases cf.effects@.len() - i,
        {
            proof {
                lemma_call_effects_prefix(*co, cmv, cf.effects@, loct@, range, i + 1);
        assert(cf.effects@.subrange(0, i + 1).drop_last() =~= cf.effects@.subrange(0, i as int));
        assert(cf.effects@.subrange(0, i + 1).last() == cf.effects@[i as int]);
            }
            let paths = self.groupify_effect(co, &cf.effects[i], cm);
            let ghost base = effects_v(out@);
            let mut j: usize = 0;
            proof { assert(base + Seq::new(0, |k: int| (loct@, range, paths@[k]@)) =~= base); }
            while j < paths.len()
                invariant
                    j <= paths@.len(),
                    effects_v(out@) == base + Seq::new(j as nat, |k: int| (loct@, range, paths@[k]@)),
                decreases paths@.len() - j,
            {
                let ghost before = out@;
                let m = MutEffectPath { effecting_node_loc: loct.copy(), range, steps: copy_steps(&paths[j]) };
                proof { assert(effect_v(m) == (loct@, range, paths@[j as int]@)); }
                out.push(m);
                proof {
                    assert(effects_v(out@) =~= effects_v(before).push(effect_v(m)));
                    assert(effects_v(out@) =~= base + Seq::new((j + 1) as nat, |k: int| (loct@, range, paths@[k]@)));
                }
                j = j + 1;
            }
            proof {
                match cf.effects@[i as int] {
                    EffectS::Mut(g) => {
                        let ps = group_paths(resolves(cmv, Seq::empty()), *co, cmv, Seq::empty(), g)->0;
                        assert(Seq::new(paths@.len() as nat, |k: int| (loct@, range, paths@[k]@))
                            =~= ps.map_values(|x: (GroupPathV, KindGV)| (loct@, range, flat(x.0))));
                    },
                    EffectS::NotMut(_) => {
                        assert(Seq::new(paths@.len() as nat, |k: int| (loct@, range, paths@[k]@))
                            =~= Seq::<(Seq<i32>, RangeS, Seq<GroupStep>)>::empty());
                    },
                }
            }
            i = i + 1;
        }
        proof { assert(cf.effects@.subrange(0, cf.effects@.len() as int) =~= cf.effects@); }
        out
    }

    /// A call: the arguments walked in order; the result grouped through the callee's own rune map (read off the arguments' groups) against its written return type, with the churns its effects declare; a callee the outputs do not know is groupless and churns nothing. The call is logged with the groups its arguments reach.
    fn groupify_call(&self, co: &CompilerOutputs, fs: &FunctionS, h: &FunctionHeaderT, access_log: &mut Vec<AccessEventG>, te: &ExpressionTE, loct: &LocT, range: &Vec<RangeS>, callable: &PrototypeTT, args: &Vec<ExpressionTE>, result: &KindT,
        rm: &KeyedMap<ITemplataG>, lm: &mut KeyedMap<KindGT>) -> (r: ExpressionGE)
        requires
            *te == (ExpressionTE::FunctionCall { loct: *loct, range: *range, callable: *callable, args: *args, result: *result }),
            rm.wf(),
            runes_valid(runes_v(*rm)),
            old(lm).wf(),
            locals_valid(locals_v(*old(lm))),
            grouped_node(grouping_ctx(*co, *fs, *h, *rm), *te, grouping_state(*old(lm), old(access_log)@)) is Some,
        ensures
            final(lm).wf(),
            locals_valid(locals_v(*final(lm))),
            walks_to(grouping_ctx(*co, *fs, *h, *rm), *te, grouping_state(*old(lm), old(access_log)@), gev(r),
                grouping_state(*final(lm), final(access_log)@)),
            !(gev(r) is Other),
            kind_valid(kind_v(result_of(r))),
        decreases te, 0int,
    {
        proof { reveal(node_call); }
        let gas_exec = self.groupify_exprs(co, fs, h, access_log, args, rm, lm);
        let ghost gas = gevs(gas_exec@);
        proof { lemma_gevs(gas_exec@); lemma_lstate(*lm, IVarNameT::SelfName); }
        let ghost log1 = log_v(access_log@);
        let ghost kinds = Seq::new(gas_exec@.len(), |i: int| kind_v(result_of(gas_exec@[i])));
        proof {
            assert forall|i: int| 0 <= i < gas_exec@.len() implies #[trigger] kinds[i] == gas.map_values(|g: GEV| result_v(g))[i] by {
                lemma_result_v(gas_exec@[i]);
            }
            assert(kinds =~= gas.map_values(|g: GEV| result_v(g)));
            assert forall|i: int| 0 <= i < kinds.len() implies kind_valid(#[trigger] kinds[i]) by {}
        }
        let callee = self.resolve_callee(co, &PrototypeT { id: callable.id });
        let (k, effs) = match callee {
            Some(cf) => {
                proof { lemma_callee_runes_valid(*co, cf.params@, kinds, kinds.len() as int); }
                let cm = self.calculate_callee_rune_to_caller_templata(co, cf, &gas_exec);
                let k = match &cf.maybe_return_type {
                    Some(rt) => self.groupify_type(co, &cm, lm, result, Some(rt), None),
                    None => self.groupify_type(co, &cm, lm, result, None, None),
                };
                let effs = self.call_churns(co, cf, &cm, loct, range[0]);
                (k, effs)
            },
            None => {
                let none: Vec<MutEffectPath> = Vec::new();
                proof { assert(effects_v(none@) =~= Seq::<(Seq<i32>, RangeS, Seq<GroupStep>)>::empty()); }
                (self.groupify_type(co, rm, lm, result, None, None), none)
            },
        };
        let touched = touched_groups(&gas_exec);
        let ghost tv = touched@;
        access_log.push(AccessEventG::Call { touched, loct: loct.copy() });
        proof {
            assert(log_v(access_log@) =~= log1.push(EventV::Call { touched: tv.map_values(|t: Vec<GroupStep>| t@), loct: loct@ }));
        }
        ExpressionGE::FunctionCall(FunctionCallGE {
            range: range[0], parent_ranges: copy_ranges(range), loct: loct.copy(), callable: PrototypeT { id: callable.id },
            args: gas_exec, mut_effects: effs, result: k,
        })
    }
}

/// Each union borrow and its single group, read off the kind or off its value.
proof fn lemma_borrow_group(k: KindGT)
    ensures
        single_group_v(kind_v(k)) == single_group(k),
        single_group(k) ==> borrow_group_of(k) == borrow_group_v(kind_v(k)),
{
    match k {
        KindGT::BorrowRef(b) => {
            assert(paths_view(b.group.group@).len() == b.group.group@.len());
            if b.group.group@.len() == 1 {
        assert(paths_view(b.group.group@)[0] == b.group.group@[0]@);
            }
        },
        _ => {},
    }
}

/// The groups a call's arguments reach: each borrow argument's group, in order.
fn touched_groups(args: &Vec<ExpressionGE>) -> (r: Vec<Vec<GroupStep>>)
    requires
        all_built(args@),
        args_single(gevs(args@)),
    ensures
        r@.map_values(|t: Vec<GroupStep>| t@) == call_touched(gevs(args@)),
{
    let ghost gs = gevs(args@);
    proof { lemma_gevs(args@); }
    let mut out: Vec<Vec<GroupStep>> = Vec::new();
    let mut i: usize = 0;
    proof {
        assert(gs.subrange(0, 0) =~= Seq::<GEV>::empty());
        assert(out@.map_values(|t: Vec<GroupStep>| t@) =~= Seq::<Seq<GroupStep>>::empty());
    }
    while i < args.len()
        invariant
            i <= args@.len(),
            gs == gevs(args@),
            gs.len() == args@.len(),
            forall|j: int| 0 <= j < args@.len() ==> #[trigger] gs[j] == gev(args@[j]),
            all_built(args@),
            args_single(gs),
            out@.map_values(|t: Vec<GroupStep>| t@) == call_touched(gs.subrange(0, i as int)),
        decreases args@.len() - i,
    {
        proof {
            lemma_result_v(args@[i as int]);
            lemma_borrow_group(result_of(args@[i as int]));
            assert(gs.subrange(0, i + 1).drop_last() =~= gs.subrange(0, i as int));
            assert(gs.subrange(0, i + 1).last() == gs[i as int]);
            assert(single_group_v(result_v(gs[i as int])));
        }
        match borrowref_group(args[i].result()) {
            Some(g) => {
                let ghost gv = g@;
                let ghost before = out@;
                out.push(g);
                proof {
                    assert(out@.map_values(|t: Vec<GroupStep>| t@) =~= before.map_values(|t: Vec<GroupStep>| t@).push(gv));
                }
            },
            None => {},
        }
        i = i + 1;
    }
    proof { assert(gs.subrange(0, gs.len() as int) =~= gs); }
    out
}

/// A borrow of an inline array's element, from a borrow of the array: the array's own group (inline
/// elements share it), the element's kind.
fn element_borrow(k: &KindGT) -> (r: KindGT)
    requires
        kind_v(*k) matches KindGV::BorrowRef { group, inner } && *inner is StaticSizedArray,
    ensures
        kind_v(*k) matches KindGV::BorrowRef { group, inner } && *inner matches KindGV::StaticSizedArray(e)
            && kind_v(r) == (KindGV::BorrowRef { group, inner: e }),
        kind_valid(kind_v(*k)) ==> kind_valid(kind_v(r)),
{
    match k {
        KindGT::BorrowRef(b) => {
            proof { assert(kind_v(*b.inner) is StaticSizedArray); }
            match &*b.inner {
                KindGT::StaticSizedArray(arr) => {
                    proof {
                        assert(kind_v(*b.inner) == KindGV::StaticSizedArray(Box::new(kind_v(*arr.element_type))));
                        assert(kind_valid(kind_v(*b.inner)) ==> kind_valid(kind_v(*arr.element_type)));
                        assert(kind_valid(kind_v(*k)) ==> kind_valid(kind_v(*b.inner)));
                    }
                    KindGT::BorrowRef(BorrowRefGT {
                        group: GroupGT { group: copy_paths(&b.group.group) }, inner: Box::new(arr.element_type.copy()),
                    })
                },
                _ => {
                    proof { assert(false); }
                    KindGT::Void
                },
            }
        },
        _ => {
            proof { assert(false); }
            KindGT::Void
        },
    }
}

/// The borrow a member access goes through, read through any borrow of a borrow: the group of the
/// borrow that points at the referent, and the referent.
fn peel_borrow(k: &KindGT) -> (r: Option<(&GroupGT, &KindGT)>)
    ensures
        match peel(kind_v(*k)) {
            Some((g, inner)) => r matches Some((rg, ri)) && paths_view(rg.group@) == g && kind_v(*ri) == inner
                && (kind_valid(kind_v(*k)) ==> kind_valid(inner)),
            None => r is None,
        },
    decreases k,
{
    match k {
        KindGT::BorrowRef(b) => {
            proof {
        assert(kind_v(*k) == KindGV::BorrowRef { group: paths_view(b.group.group@), inner: Box::new(kind_v(*b.inner)) });
        assert(kind_valid(kind_v(*k)) ==> kind_valid(kind_v(*b.inner)));
            }
            match &*b.inner {
                KindGT::BorrowRef(_) => peel_borrow(&b.inner),
                other => Some((&b.group, other)),
            }
        },
        _ => None,
    }
}

/// A borrow of a runtime-sized array's element, from a borrow of the array: the array's elements
/// group, the element's kind.
fn rsa_element_borrow(k: &KindGT) -> (r: KindGT)
    requires
        kind_v(*k) matches KindGV::BorrowRef { group, inner } && *inner is RuntimeSizedArray,
    ensures
        kind_v(*k) matches KindGV::BorrowRef { group, inner } && *inner matches KindGV::RuntimeSizedArray(e)
            && kind_v(r) == (KindGV::BorrowRef {
                group: group.map_values(|p: GroupPathV| with_step(p, GroupChildStepG::ChildElements {})),
                inner: e,
            }),
        kind_valid(kind_v(*k)) ==> kind_valid(kind_v(r)),
{
    match k {
        KindGT::BorrowRef(b) => {
            proof { assert(kind_v(*b.inner) is RuntimeSizedArray); }
            match &*b.inner {
                KindGT::RuntimeSizedArray(arr) => {
                    proof {
                        assert(kind_v(*b.inner) == KindGV::RuntimeSizedArray(Box::new(kind_v(*arr.element_type))));
                        assert(kind_valid(kind_v(*b.inner)) ==> kind_valid(kind_v(*arr.element_type)));
                        assert(kind_valid(kind_v(*k)) ==> kind_valid(kind_v(*b.inner)));
                    }
                    let child = group_path_child(&GroupTemplataG { group: copy_paths(&b.group.group), kind: Box::new(arr.element_type.copy()) },
                        GroupChildStepG::ChildElements {}, arr.element_type.copy());
                    KindGT::BorrowRef(BorrowRefGT { group: GroupGT { group: child.group }, inner: Box::new(arr.element_type.copy()) })
                },
                _ => {
                    proof { assert(false); }
                    KindGT::Void
                },
            }
        },
        _ => {
            proof { assert(false); }
            KindGT::Void
        },
    }
}

/// Struct members grouped one by one keep their names, in order.
proof fn lemma_members_grouped_names(co: CompilerOutputs, rm: Map<IRuneS, TemplataGV>, mems: Seq<StructMemberT>)
    ensures
        members_grouped(co, rm, mems) matches Some(ms) ==> ms.len() == mems.len()
            && forall|i: int| 0 <= i < ms.len() ==> #[trigger] ms[i].0 == mems[i].name,
    decreases mems.len(),
{
    if mems.len() > 0 {
        lemma_members_grouped_names(co, rm, mems.drop_last());
        match members_grouped(co, rm, mems) {
            Some(ms) => {
                let a = members_grouped(co, rm, mems.drop_last())->0;
                assert forall|i: int| 0 <= i < ms.len() implies #[trigger] ms[i].0 == mems[i].name by {
                    if i < ms.len() - 1 {
                        assert(ms[i] == a[i]);
                        assert(mems.drop_last()[i] == mems[i]);
                    }
                }
            },
            None => {},
        }
    }
}

/// With no two members of one name, a member's name finds that member.
proof fn lemma_distinct_last_named(ms: Seq<(StrI, KindGV)>, i: int)
    requires names_distinct(ms), 0 <= i < ms.len(),
    ensures last_named(ms, ms[i].0) == Some(i), member_of(ms, ms[i].0) == Some(ms[i].1),
    decreases ms.len(),
{
    if i < ms.len() - 1 {
        let pre = ms.drop_last();
        assert(names_distinct(pre)) by {
            assert forall|a: int, b: int| 0 <= a < pre.len() && 0 <= b < pre.len() && a != b implies pre[a].0 != pre[b].0 by {
        assert(pre[a] == ms[a]);
        assert(pre[b] == ms[b]);
            }
        }
        assert(pre[i] == ms[i]);
        assert(ms.last().0 != ms[i].0);
        lemma_distinct_last_named(pre, i);
    }
}

/// A grouped node's churns, read off its value, are the churns its subtree holds.
pub proof fn lemma_churns_of(e: ExpressionGE)
    ensures subtree_churns(e) == churns_of(gev(e)),
    decreases e, 1int, 0int,
{
    match e {
        ExpressionGE::LetAndLend(_) => { lemma_churns_let_and_lend(e); },
        ExpressionGE::LockWeak(_) => { lemma_churns_lock_weak(e); },
        ExpressionGE::BorrowToWeak(_) => { lemma_churns_borrow_to_weak(e); },
        ExpressionGE::LetNormal(_) => { lemma_churns_let_normal(e); },
        ExpressionGE::Unlet(_) => { lemma_churns_unlet(e); },
        ExpressionGE::Discard(_) => { lemma_churns_discard(e); },
        ExpressionGE::If(_) => { lemma_churns_if(e); },
        ExpressionGE::While(_) => { lemma_churns_while(e); },
        ExpressionGE::Mutate(_) => { lemma_churns_mutate(e); },
        ExpressionGE::Restackify(_) => { lemma_churns_restackify(e); },
        ExpressionGE::Return(_) => { lemma_churns_return(e); },
        ExpressionGE::Break(_) => { lemma_churns_break(e); },
        ExpressionGE::Block(_) => { lemma_churns_block(e); },
        ExpressionGE::Consecutor(_) => { lemma_churns_consecutor(e); },
        ExpressionGE::StaticArrayFromValues(_) => { lemma_churns_static_array_from_values(e); },
        ExpressionGE::ArraySize(_) => { lemma_churns_array_size(e); },
        ExpressionGE::IsSameInstance(_) => { lemma_churns_is_same_instance(e); },
        ExpressionGE::AsSubtype(_) => { lemma_churns_as_subtype(e); },
        ExpressionGE::VoidLiteral(_) => { lemma_churns_void_literal(e); },
        ExpressionGE::ConstantInt(_) => { lemma_churns_constant_int(e); },
        ExpressionGE::ConstantBool(_) => { lemma_churns_constant_bool(e); },
        ExpressionGE::ConstantStr(_) => { lemma_churns_constant_str(e); },
        ExpressionGE::ConstantFloat(_) => { lemma_churns_constant_float(e); },
        ExpressionGE::ArgLookup(_) => { lemma_churns_arg_lookup(e); },
        ExpressionGE::ArrayLength(_) => { lemma_churns_array_length(e); },
        ExpressionGE::InterfaceFunctionCall(_) => { lemma_churns_interface_function_call(e); },
        ExpressionGE::ExternFunctionCall(_) => { lemma_churns_extern_function_call(e); },
        ExpressionGE::FunctionCall(_) => { lemma_churns_function_call(e); },
        ExpressionGE::BoundFunctionCall(_) => { lemma_churns_bound_function_call(e); },
        ExpressionGE::Reinterpret(_) => { lemma_churns_reinterpret(e); },
        ExpressionGE::Construct(_) => { lemma_churns_construct(e); },
        ExpressionGE::NewRuntimeSizedArray(_) => { lemma_churns_new_runtime_sized_array(e); },
        ExpressionGE::StaticArrayFromCallable(_) => { lemma_churns_static_array_from_callable(e); },
        ExpressionGE::DestroyStaticSizedArrayIntoFunction(_) => { lemma_churns_destroy_static_sized_array_into_function(e); },
        ExpressionGE::DestroyStaticSizedArrayIntoLocals(_) => { lemma_churns_destroy_static_sized_array_into_locals(e); },
        ExpressionGE::DestroyRuntimeSizedArray(_) => { lemma_churns_destroy_runtime_sized_array(e); },
        ExpressionGE::RuntimeSizedArrayCapacity(_) => { lemma_churns_runtime_sized_array_capacity(e); },
        ExpressionGE::PushRuntimeSizedArray(_) => { lemma_churns_push_runtime_sized_array(e); },
        ExpressionGE::PopRuntimeSizedArray(_) => { lemma_churns_pop_runtime_sized_array(e); },
        ExpressionGE::InterfaceToInterfaceUpcast(_) => { lemma_churns_interface_to_interface_upcast(e); },
        ExpressionGE::UpcastInterface(_) => { lemma_churns_upcast_interface(e); },
        ExpressionGE::UpcastGeneric(_) => { lemma_churns_upcast_generic(e); },
        ExpressionGE::Destroy(_) => { lemma_churns_destroy(e); },
        ExpressionGE::CopyPrim(_) => { lemma_churns_copy_prim(e); },
        ExpressionGE::LocalLookup(_) => { lemma_churns_local_lookup(e); },
        ExpressionGE::StaticSizedArrayLookup(_) => { lemma_churns_static_sized_array_lookup(e); },
        ExpressionGE::RuntimeSizedArrayLookup(_) => { lemma_churns_runtime_sized_array_lookup(e); },
        ExpressionGE::MemberLookup(_) => { lemma_churns_member_lookup(e); },
        ExpressionGE::Deref(_) => { lemma_churns_deref(e); },
    }
}

/// `lemma_churns_of` for a `LetAndLend` node.
proof fn lemma_churns_let_and_lend(e: ExpressionGE)
    requires e is LetAndLend,
    ensures subtree_churns(e) == churns_of(gev(e)),
    decreases e, 0int, children_of(e).len() + 1,
{
    if let ExpressionGE::LetAndLend(x) = e {
        lemma_churns_of(*x.expr);
        assert(children_of(e) == seq![*x.expr]);
        assert(own_churns(e) == Seq::<(Seq<i32>, RangeS, Seq<GroupStep>)>::empty());
        assert(kids_churns(e, 0) == Seq::<(Seq<i32>, RangeS, Seq<GroupStep>)>::empty());
        assert(kids_churns(e, 1) == kids_churns(e, 0) + subtree_churns(children_of(e)[0]));
        assert(subtree_churns(e) == own_churns(e) + kids_churns(e, 1));
        assert(subtree_churns(e) =~= churns_of(gev(e)));
    }
}

/// `lemma_churns_of` for a `LockWeak` node.
proof fn lemma_churns_lock_weak(e: ExpressionGE)
    requires e is LockWeak,
    ensures subtree_churns(e) == churns_of(gev(e)),
    decreases e, 0int, children_of(e).len() + 1,
{
    if let ExpressionGE::LockWeak(x) = e {
        lemma_churns_of(*x.inner_expr);
        assert(children_of(e) == seq![*x.inner_expr]);
        assert(own_churns(e) == Seq::<(Seq<i32>, RangeS, Seq<GroupStep>)>::empty());
        assert(kids_churns(e, 0) == Seq::<(Seq<i32>, RangeS, Seq<GroupStep>)>::empty());
        assert(kids_churns(e, 1) == kids_churns(e, 0) + subtree_churns(children_of(e)[0]));
        assert(subtree_churns(e) == own_churns(e) + kids_churns(e, 1));
        assert(subtree_churns(e) =~= churns_of(gev(e)));
    }
}

/// `lemma_churns_of` for a `BorrowToWeak` node.
proof fn lemma_churns_borrow_to_weak(e: ExpressionGE)
    requires e is BorrowToWeak,
    ensures subtree_churns(e) == churns_of(gev(e)),
    decreases e, 0int, children_of(e).len() + 1,
{
    if let ExpressionGE::BorrowToWeak(x) = e {
        lemma_churns_of(*x.inner_expr);
        assert(children_of(e) == seq![*x.inner_expr]);
        assert(own_churns(e) == Seq::<(Seq<i32>, RangeS, Seq<GroupStep>)>::empty());
        assert(kids_churns(e, 0) == Seq::<(Seq<i32>, RangeS, Seq<GroupStep>)>::empty());
        assert(kids_churns(e, 1) == kids_churns(e, 0) + subtree_churns(children_of(e)[0]));
        assert(subtree_churns(e) == own_churns(e) + kids_churns(e, 1));
        assert(subtree_churns(e) =~= churns_of(gev(e)));
    }
}

/// `lemma_churns_of` for a `LetNormal` node.
proof fn lemma_churns_let_normal(e: ExpressionGE)
    requires e is LetNormal,
    ensures subtree_churns(e) == churns_of(gev(e)),
    decreases e, 0int, children_of(e).len() + 1,
{
    if let ExpressionGE::LetNormal(x) = e {
        lemma_churns_of(*x.expr);
        assert(children_of(e) == seq![*x.expr]);
        assert(own_churns(e) == Seq::<(Seq<i32>, RangeS, Seq<GroupStep>)>::empty());
        assert(kids_churns(e, 0) == Seq::<(Seq<i32>, RangeS, Seq<GroupStep>)>::empty());
        assert(kids_churns(e, 1) == kids_churns(e, 0) + subtree_churns(children_of(e)[0]));
        assert(subtree_churns(e) == own_churns(e) + kids_churns(e, 1));
        assert(subtree_churns(e) =~= churns_of(gev(e)));
    }
}

/// `lemma_churns_of` for a `Unlet` node.
proof fn lemma_churns_unlet(e: ExpressionGE)
    requires e is Unlet,
    ensures subtree_churns(e) == churns_of(gev(e)),
    decreases e, 0int, children_of(e).len() + 1,
{
    if let ExpressionGE::Unlet(x) = e {
        assert(children_of(e) == Seq::<ExpressionGE>::empty());
        assert(own_churns(e) == Seq::<(Seq<i32>, RangeS, Seq<GroupStep>)>::empty());
        assert(kids_churns(e, 0) == Seq::<(Seq<i32>, RangeS, Seq<GroupStep>)>::empty());
        assert(subtree_churns(e) == own_churns(e) + kids_churns(e, 0));
        assert(subtree_churns(e) =~= churns_of(gev(e)));
    }
}

/// `lemma_churns_of` for a `Discard` node.
proof fn lemma_churns_discard(e: ExpressionGE)
    requires e is Discard,
    ensures subtree_churns(e) == churns_of(gev(e)),
    decreases e, 0int, children_of(e).len() + 1,
{
    if let ExpressionGE::Discard(x) = e {
        lemma_churns_of(*x.expr);
        assert(children_of(e) == seq![*x.expr]);
        assert(own_churns(e) == Seq::<(Seq<i32>, RangeS, Seq<GroupStep>)>::empty());
        assert(kids_churns(e, 0) == Seq::<(Seq<i32>, RangeS, Seq<GroupStep>)>::empty());
        assert(kids_churns(e, 1) == kids_churns(e, 0) + subtree_churns(children_of(e)[0]));
        assert(subtree_churns(e) == own_churns(e) + kids_churns(e, 1));
        assert(subtree_churns(e) =~= churns_of(gev(e)));
    }
}

/// `lemma_churns_of` for a `If` node.
proof fn lemma_churns_if(e: ExpressionGE)
    requires e is If,
    ensures subtree_churns(e) == churns_of(gev(e)),
    decreases e, 0int, children_of(e).len() + 1,
{
    if let ExpressionGE::If(x) = e {
        lemma_churns_of(*x.condition);
        lemma_churns_of(*x.then_call);
        lemma_churns_of(*x.else_call);
        assert(children_of(e) == seq![*x.condition, *x.then_call, *x.else_call]);
        assert(own_churns(e) == Seq::<(Seq<i32>, RangeS, Seq<GroupStep>)>::empty());
        assert(kids_churns(e, 0) == Seq::<(Seq<i32>, RangeS, Seq<GroupStep>)>::empty());
        assert(kids_churns(e, 1) == kids_churns(e, 0) + subtree_churns(children_of(e)[0]));
        assert(kids_churns(e, 2) == kids_churns(e, 1) + subtree_churns(children_of(e)[1]));
        assert(kids_churns(e, 3) == kids_churns(e, 2) + subtree_churns(children_of(e)[2]));
        assert(subtree_churns(e) == own_churns(e) + kids_churns(e, 3));
        assert(subtree_churns(e) =~= churns_of(gev(e)));
    }
}

/// `lemma_churns_of` for a `While` node.
proof fn lemma_churns_while(e: ExpressionGE)
    requires e is While,
    ensures subtree_churns(e) == churns_of(gev(e)),
    decreases e, 0int, children_of(e).len() + 1,
{
    if let ExpressionGE::While(x) = e {
        lemma_churns_of(*x.block.inner);
        assert(children_of(e) == seq![*x.block.inner]);
        assert(own_churns(e) == Seq::<(Seq<i32>, RangeS, Seq<GroupStep>)>::empty());
        assert(kids_churns(e, 0) == Seq::<(Seq<i32>, RangeS, Seq<GroupStep>)>::empty());
        assert(kids_churns(e, 1) == kids_churns(e, 0) + subtree_churns(children_of(e)[0]));
        assert(subtree_churns(e) == own_churns(e) + kids_churns(e, 1));
        assert(subtree_churns(e) =~= churns_of(gev(e)));
    }
}

/// `lemma_churns_of` for a `Mutate` node.
proof fn lemma_churns_mutate(e: ExpressionGE)
    requires e is Mutate,
    ensures subtree_churns(e) == churns_of(gev(e)),
    decreases e, 0int, children_of(e).len() + 1,
{
    if let ExpressionGE::Mutate(x) = e {
        lemma_churns_of(*x.destination_expr);
        lemma_churns_of(*x.source_expr);
        assert(children_of(e) == seq![*x.destination_expr, *x.source_expr]);
        assert(own_churns(e) == Seq::<(Seq<i32>, RangeS, Seq<GroupStep>)>::empty());
        assert(kids_churns(e, 0) == Seq::<(Seq<i32>, RangeS, Seq<GroupStep>)>::empty());
        assert(kids_churns(e, 1) == kids_churns(e, 0) + subtree_churns(children_of(e)[0]));
        assert(kids_churns(e, 2) == kids_churns(e, 1) + subtree_churns(children_of(e)[1]));
        assert(subtree_churns(e) == own_churns(e) + kids_churns(e, 2));
        assert(subtree_churns(e) =~= churns_of(gev(e)));
    }
}

/// `lemma_churns_of` for a `Restackify` node.
proof fn lemma_churns_restackify(e: ExpressionGE)
    requires e is Restackify,
    ensures subtree_churns(e) == churns_of(gev(e)),
    decreases e, 0int, children_of(e).len() + 1,
{
    if let ExpressionGE::Restackify(x) = e {
        lemma_churns_of(*x.source_expr);
        assert(children_of(e) == seq![*x.source_expr]);
        assert(own_churns(e) == Seq::<(Seq<i32>, RangeS, Seq<GroupStep>)>::empty());
        assert(kids_churns(e, 0) == Seq::<(Seq<i32>, RangeS, Seq<GroupStep>)>::empty());
        assert(kids_churns(e, 1) == kids_churns(e, 0) + subtree_churns(children_of(e)[0]));
        assert(subtree_churns(e) == own_churns(e) + kids_churns(e, 1));
        assert(subtree_churns(e) =~= churns_of(gev(e)));
    }
}

/// `lemma_churns_of` for a `Return` node.
proof fn lemma_churns_return(e: ExpressionGE)
    requires e is Return,
    ensures subtree_churns(e) == churns_of(gev(e)),
    decreases e, 0int, children_of(e).len() + 1,
{
    if let ExpressionGE::Return(x) = e {
        lemma_churns_of(*x.source_expr);
        assert(children_of(e) == seq![*x.source_expr]);
        assert(own_churns(e) == Seq::<(Seq<i32>, RangeS, Seq<GroupStep>)>::empty());
        assert(kids_churns(e, 0) == Seq::<(Seq<i32>, RangeS, Seq<GroupStep>)>::empty());
        assert(kids_churns(e, 1) == kids_churns(e, 0) + subtree_churns(children_of(e)[0]));
        assert(subtree_churns(e) == own_churns(e) + kids_churns(e, 1));
        assert(subtree_churns(e) =~= churns_of(gev(e)));
    }
}

/// `lemma_churns_of` for a `Break` node.
proof fn lemma_churns_break(e: ExpressionGE)
    requires e is Break,
    ensures subtree_churns(e) == churns_of(gev(e)),
    decreases e, 0int, children_of(e).len() + 1,
{
    if let ExpressionGE::Break(x) = e {
        assert(children_of(e) == Seq::<ExpressionGE>::empty());
        assert(own_churns(e) == Seq::<(Seq<i32>, RangeS, Seq<GroupStep>)>::empty());
        assert(kids_churns(e, 0) == Seq::<(Seq<i32>, RangeS, Seq<GroupStep>)>::empty());
        assert(subtree_churns(e) == own_churns(e) + kids_churns(e, 0));
        assert(subtree_churns(e) =~= churns_of(gev(e)));
    }
}

/// `lemma_churns_of` for a `Block` node.
proof fn lemma_churns_block(e: ExpressionGE)
    requires e is Block,
    ensures subtree_churns(e) == churns_of(gev(e)),
    decreases e, 0int, children_of(e).len() + 1,
{
    if let ExpressionGE::Block(x) = e {
        lemma_churns_of(*x.inner);
        assert(children_of(e) == seq![*x.inner]);
        assert(own_churns(e) == Seq::<(Seq<i32>, RangeS, Seq<GroupStep>)>::empty());
        assert(kids_churns(e, 0) == Seq::<(Seq<i32>, RangeS, Seq<GroupStep>)>::empty());
        assert(kids_churns(e, 1) == kids_churns(e, 0) + subtree_churns(children_of(e)[0]));
        assert(subtree_churns(e) == own_churns(e) + kids_churns(e, 1));
        assert(subtree_churns(e) =~= churns_of(gev(e)));
    }
}

/// `lemma_churns_of` for a `Consecutor` node.
proof fn lemma_churns_consecutor(e: ExpressionGE)
    requires e is Consecutor,
    ensures subtree_churns(e) == churns_of(gev(e)),
    decreases e, 0int, children_of(e).len() + 1,
{
    if let ExpressionGE::Consecutor(x) = e {
        lemma_kids_list(e, x.exprs@, x.exprs@.len() as int);
        assert(x.exprs@.subrange(0, x.exprs@.len() as int) =~= x.exprs@);
        assert(own_churns(e) == Seq::<(Seq<i32>, RangeS, Seq<GroupStep>)>::empty());
        assert(subtree_churns(e) == own_churns(e) + kids_churns(e, x.exprs@.len() as int));
        assert(subtree_churns(e) =~= churns_of(gev(e)));
    }
}

/// `lemma_churns_of` for a `StaticArrayFromValues` node.
proof fn lemma_churns_static_array_from_values(e: ExpressionGE)
    requires e is StaticArrayFromValues,
    ensures subtree_churns(e) == churns_of(gev(e)),
    decreases e, 0int, children_of(e).len() + 1,
{
    if let ExpressionGE::StaticArrayFromValues(x) = e {
        lemma_kids_list(e, x.elements@, x.elements@.len() as int);
        assert(x.elements@.subrange(0, x.elements@.len() as int) =~= x.elements@);
        assert(own_churns(e) == Seq::<(Seq<i32>, RangeS, Seq<GroupStep>)>::empty());
        assert(subtree_churns(e) == own_churns(e) + kids_churns(e, x.elements@.len() as int));
        assert(subtree_churns(e) =~= churns_of(gev(e)));
    }
}

/// `lemma_churns_of` for a `ArraySize` node.
proof fn lemma_churns_array_size(e: ExpressionGE)
    requires e is ArraySize,
    ensures subtree_churns(e) == churns_of(gev(e)),
    decreases e, 0int, children_of(e).len() + 1,
{
    if let ExpressionGE::ArraySize(x) = e {
        lemma_churns_of(*x.array);
        assert(children_of(e) == seq![*x.array]);
        assert(own_churns(e) == Seq::<(Seq<i32>, RangeS, Seq<GroupStep>)>::empty());
        assert(kids_churns(e, 0) == Seq::<(Seq<i32>, RangeS, Seq<GroupStep>)>::empty());
        assert(kids_churns(e, 1) == kids_churns(e, 0) + subtree_churns(children_of(e)[0]));
        assert(subtree_churns(e) == own_churns(e) + kids_churns(e, 1));
        assert(subtree_churns(e) =~= churns_of(gev(e)));
    }
}

/// `lemma_churns_of` for a `IsSameInstance` node.
proof fn lemma_churns_is_same_instance(e: ExpressionGE)
    requires e is IsSameInstance,
    ensures subtree_churns(e) == churns_of(gev(e)),
    decreases e, 0int, children_of(e).len() + 1,
{
    if let ExpressionGE::IsSameInstance(x) = e {
        lemma_churns_of(*x.left);
        lemma_churns_of(*x.right);
        assert(children_of(e) == seq![*x.left, *x.right]);
        assert(own_churns(e) == Seq::<(Seq<i32>, RangeS, Seq<GroupStep>)>::empty());
        assert(kids_churns(e, 0) == Seq::<(Seq<i32>, RangeS, Seq<GroupStep>)>::empty());
        assert(kids_churns(e, 1) == kids_churns(e, 0) + subtree_churns(children_of(e)[0]));
        assert(kids_churns(e, 2) == kids_churns(e, 1) + subtree_churns(children_of(e)[1]));
        assert(subtree_churns(e) == own_churns(e) + kids_churns(e, 2));
        assert(subtree_churns(e) =~= churns_of(gev(e)));
    }
}

/// `lemma_churns_of` for a `AsSubtype` node.
proof fn lemma_churns_as_subtype(e: ExpressionGE)
    requires e is AsSubtype,
    ensures subtree_churns(e) == churns_of(gev(e)),
    decreases e, 0int, children_of(e).len() + 1,
{
    if let ExpressionGE::AsSubtype(x) = e {
        lemma_churns_of(*x.source_expr);
        assert(children_of(e) == seq![*x.source_expr]);
        assert(own_churns(e) == Seq::<(Seq<i32>, RangeS, Seq<GroupStep>)>::empty());
        assert(kids_churns(e, 0) == Seq::<(Seq<i32>, RangeS, Seq<GroupStep>)>::empty());
        assert(kids_churns(e, 1) == kids_churns(e, 0) + subtree_churns(children_of(e)[0]));
        assert(subtree_churns(e) == own_churns(e) + kids_churns(e, 1));
        assert(subtree_churns(e) =~= churns_of(gev(e)));
    }
}

/// `lemma_churns_of` for a `VoidLiteral` node.
proof fn lemma_churns_void_literal(e: ExpressionGE)
    requires e is VoidLiteral,
    ensures subtree_churns(e) == churns_of(gev(e)),
    decreases e, 0int, children_of(e).len() + 1,
{
    if let ExpressionGE::VoidLiteral(x) = e {
        assert(children_of(e) == Seq::<ExpressionGE>::empty());
        assert(own_churns(e) == Seq::<(Seq<i32>, RangeS, Seq<GroupStep>)>::empty());
        assert(kids_churns(e, 0) == Seq::<(Seq<i32>, RangeS, Seq<GroupStep>)>::empty());
        assert(subtree_churns(e) == own_churns(e) + kids_churns(e, 0));
        assert(subtree_churns(e) =~= churns_of(gev(e)));
    }
}

/// `lemma_churns_of` for a `ConstantInt` node.
proof fn lemma_churns_constant_int(e: ExpressionGE)
    requires e is ConstantInt,
    ensures subtree_churns(e) == churns_of(gev(e)),
    decreases e, 0int, children_of(e).len() + 1,
{
    if let ExpressionGE::ConstantInt(x) = e {
        assert(children_of(e) == Seq::<ExpressionGE>::empty());
        assert(own_churns(e) == Seq::<(Seq<i32>, RangeS, Seq<GroupStep>)>::empty());
        assert(kids_churns(e, 0) == Seq::<(Seq<i32>, RangeS, Seq<GroupStep>)>::empty());
        assert(subtree_churns(e) == own_churns(e) + kids_churns(e, 0));
        assert(subtree_churns(e) =~= churns_of(gev(e)));
    }
}

/// `lemma_churns_of` for a `ConstantBool` node.
proof fn lemma_churns_constant_bool(e: ExpressionGE)
    requires e is ConstantBool,
    ensures subtree_churns(e) == churns_of(gev(e)),
    decreases e, 0int, children_of(e).len() + 1,
{
    if let ExpressionGE::ConstantBool(x) = e {
        assert(children_of(e) == Seq::<ExpressionGE>::empty());
        assert(own_churns(e) == Seq::<(Seq<i32>, RangeS, Seq<GroupStep>)>::empty());
        assert(kids_churns(e, 0) == Seq::<(Seq<i32>, RangeS, Seq<GroupStep>)>::empty());
        assert(subtree_churns(e) == own_churns(e) + kids_churns(e, 0));
        assert(subtree_churns(e) =~= churns_of(gev(e)));
    }
}

/// `lemma_churns_of` for a `ConstantStr` node.
proof fn lemma_churns_constant_str(e: ExpressionGE)
    requires e is ConstantStr,
    ensures subtree_churns(e) == churns_of(gev(e)),
    decreases e, 0int, children_of(e).len() + 1,
{
    if let ExpressionGE::ConstantStr(x) = e {
        assert(children_of(e) == Seq::<ExpressionGE>::empty());
        assert(own_churns(e) == Seq::<(Seq<i32>, RangeS, Seq<GroupStep>)>::empty());
        assert(kids_churns(e, 0) == Seq::<(Seq<i32>, RangeS, Seq<GroupStep>)>::empty());
        assert(subtree_churns(e) == own_churns(e) + kids_churns(e, 0));
        assert(subtree_churns(e) =~= churns_of(gev(e)));
    }
}

/// `lemma_churns_of` for a `ConstantFloat` node.
proof fn lemma_churns_constant_float(e: ExpressionGE)
    requires e is ConstantFloat,
    ensures subtree_churns(e) == churns_of(gev(e)),
    decreases e, 0int, children_of(e).len() + 1,
{
    if let ExpressionGE::ConstantFloat(x) = e {
        assert(children_of(e) == Seq::<ExpressionGE>::empty());
        assert(own_churns(e) == Seq::<(Seq<i32>, RangeS, Seq<GroupStep>)>::empty());
        assert(kids_churns(e, 0) == Seq::<(Seq<i32>, RangeS, Seq<GroupStep>)>::empty());
        assert(subtree_churns(e) == own_churns(e) + kids_churns(e, 0));
        assert(subtree_churns(e) =~= churns_of(gev(e)));
    }
}

/// `lemma_churns_of` for a `ArgLookup` node.
proof fn lemma_churns_arg_lookup(e: ExpressionGE)
    requires e is ArgLookup,
    ensures subtree_churns(e) == churns_of(gev(e)),
    decreases e, 0int, children_of(e).len() + 1,
{
    if let ExpressionGE::ArgLookup(x) = e {
        assert(children_of(e) == Seq::<ExpressionGE>::empty());
        assert(own_churns(e) == Seq::<(Seq<i32>, RangeS, Seq<GroupStep>)>::empty());
        assert(kids_churns(e, 0) == Seq::<(Seq<i32>, RangeS, Seq<GroupStep>)>::empty());
        assert(subtree_churns(e) == own_churns(e) + kids_churns(e, 0));
        assert(subtree_churns(e) =~= churns_of(gev(e)));
    }
}

/// `lemma_churns_of` for a `ArrayLength` node.
proof fn lemma_churns_array_length(e: ExpressionGE)
    requires e is ArrayLength,
    ensures subtree_churns(e) == churns_of(gev(e)),
    decreases e, 0int, children_of(e).len() + 1,
{
    if let ExpressionGE::ArrayLength(x) = e {
        lemma_churns_of(*x.array_expr);
        assert(children_of(e) == seq![*x.array_expr]);
        assert(own_churns(e) == Seq::<(Seq<i32>, RangeS, Seq<GroupStep>)>::empty());
        assert(kids_churns(e, 0) == Seq::<(Seq<i32>, RangeS, Seq<GroupStep>)>::empty());
        assert(kids_churns(e, 1) == kids_churns(e, 0) + subtree_churns(children_of(e)[0]));
        assert(subtree_churns(e) == own_churns(e) + kids_churns(e, 1));
        assert(subtree_churns(e) =~= churns_of(gev(e)));
    }
}

/// `lemma_churns_of` for a `InterfaceFunctionCall` node.
proof fn lemma_churns_interface_function_call(e: ExpressionGE)
    requires e is InterfaceFunctionCall,
    ensures subtree_churns(e) == churns_of(gev(e)),
    decreases e, 0int, children_of(e).len() + 1,
{
    if let ExpressionGE::InterfaceFunctionCall(x) = e {
        lemma_kids_list(e, x.args@, x.args@.len() as int);
        assert(x.args@.subrange(0, x.args@.len() as int) =~= x.args@);
        assert(own_churns(e) == Seq::<(Seq<i32>, RangeS, Seq<GroupStep>)>::empty());
        assert(subtree_churns(e) == own_churns(e) + kids_churns(e, x.args@.len() as int));
        assert(subtree_churns(e) =~= churns_of(gev(e)));
    }
}

/// `lemma_churns_of` for a `ExternFunctionCall` node.
proof fn lemma_churns_extern_function_call(e: ExpressionGE)
    requires e is ExternFunctionCall,
    ensures subtree_churns(e) == churns_of(gev(e)),
    decreases e, 0int, children_of(e).len() + 1,
{
    if let ExpressionGE::ExternFunctionCall(x) = e {
        lemma_kids_list(e, x.args@, x.args@.len() as int);
        assert(x.args@.subrange(0, x.args@.len() as int) =~= x.args@);
        assert(own_churns(e) == Seq::<(Seq<i32>, RangeS, Seq<GroupStep>)>::empty());
        assert(subtree_churns(e) == own_churns(e) + kids_churns(e, x.args@.len() as int));
        assert(subtree_churns(e) =~= churns_of(gev(e)));
    }
}

/// `lemma_churns_of` for a `FunctionCall` node.
proof fn lemma_churns_function_call(e: ExpressionGE)
    requires e is FunctionCall,
    ensures subtree_churns(e) == churns_of(gev(e)),
    decreases e, 0int, children_of(e).len() + 1,
{
    if let ExpressionGE::FunctionCall(x) = e {
        lemma_kids_list(e, x.args@, x.args@.len() as int);
        assert(x.args@.subrange(0, x.args@.len() as int) =~= x.args@);
        assert(own_churns(e) == effects_v(x.mut_effects@));
        assert(subtree_churns(e) == own_churns(e) + kids_churns(e, x.args@.len() as int));
        assert(subtree_churns(e) =~= churns_of(gev(e)));
    }
}

/// `lemma_churns_of` for a `BoundFunctionCall` node.
proof fn lemma_churns_bound_function_call(e: ExpressionGE)
    requires e is BoundFunctionCall,
    ensures subtree_churns(e) == churns_of(gev(e)),
    decreases e, 0int, children_of(e).len() + 1,
{
    if let ExpressionGE::BoundFunctionCall(x) = e {
        lemma_kids_list(e, x.args@, x.args@.len() as int);
        assert(x.args@.subrange(0, x.args@.len() as int) =~= x.args@);
        assert(own_churns(e) == Seq::<(Seq<i32>, RangeS, Seq<GroupStep>)>::empty());
        assert(subtree_churns(e) == own_churns(e) + kids_churns(e, x.args@.len() as int));
        assert(subtree_churns(e) =~= churns_of(gev(e)));
    }
}

/// `lemma_churns_of` for a `Reinterpret` node.
proof fn lemma_churns_reinterpret(e: ExpressionGE)
    requires e is Reinterpret,
    ensures subtree_churns(e) == churns_of(gev(e)),
    decreases e, 0int, children_of(e).len() + 1,
{
    if let ExpressionGE::Reinterpret(x) = e {
        lemma_churns_of(*x.expr);
        assert(children_of(e) == seq![*x.expr]);
        assert(own_churns(e) == Seq::<(Seq<i32>, RangeS, Seq<GroupStep>)>::empty());
        assert(kids_churns(e, 0) == Seq::<(Seq<i32>, RangeS, Seq<GroupStep>)>::empty());
        assert(kids_churns(e, 1) == kids_churns(e, 0) + subtree_churns(children_of(e)[0]));
        assert(subtree_churns(e) == own_churns(e) + kids_churns(e, 1));
        assert(subtree_churns(e) =~= churns_of(gev(e)));
    }
}

/// `lemma_churns_of` for a `Construct` node.
proof fn lemma_churns_construct(e: ExpressionGE)
    requires e is Construct,
    ensures subtree_churns(e) == churns_of(gev(e)),
    decreases e, 0int, children_of(e).len() + 1,
{
    if let ExpressionGE::Construct(x) = e {
        lemma_kids_list(e, x.args@, x.args@.len() as int);
        assert(x.args@.subrange(0, x.args@.len() as int) =~= x.args@);
        assert(own_churns(e) == Seq::<(Seq<i32>, RangeS, Seq<GroupStep>)>::empty());
        assert(subtree_churns(e) == own_churns(e) + kids_churns(e, x.args@.len() as int));
        assert(subtree_churns(e) =~= churns_of(gev(e)));
    }
}

/// `lemma_churns_of` for a `NewRuntimeSizedArray` node.
proof fn lemma_churns_new_runtime_sized_array(e: ExpressionGE)
    requires e is NewRuntimeSizedArray,
    ensures subtree_churns(e) == churns_of(gev(e)),
    decreases e, 0int, children_of(e).len() + 1,
{
    if let ExpressionGE::NewRuntimeSizedArray(x) = e {
        lemma_churns_of(*x.capacity_expr);
        assert(children_of(e) == seq![*x.capacity_expr]);
        assert(own_churns(e) == Seq::<(Seq<i32>, RangeS, Seq<GroupStep>)>::empty());
        assert(kids_churns(e, 0) == Seq::<(Seq<i32>, RangeS, Seq<GroupStep>)>::empty());
        assert(kids_churns(e, 1) == kids_churns(e, 0) + subtree_churns(children_of(e)[0]));
        assert(subtree_churns(e) == own_churns(e) + kids_churns(e, 1));
        assert(subtree_churns(e) =~= churns_of(gev(e)));
    }
}

/// `lemma_churns_of` for a `StaticArrayFromCallable` node.
proof fn lemma_churns_static_array_from_callable(e: ExpressionGE)
    requires e is StaticArrayFromCallable,
    ensures subtree_churns(e) == churns_of(gev(e)),
    decreases e, 0int, children_of(e).len() + 1,
{
    if let ExpressionGE::StaticArrayFromCallable(x) = e {
        lemma_churns_of(*x.generator);
        assert(children_of(e) == seq![*x.generator]);
        assert(own_churns(e) == Seq::<(Seq<i32>, RangeS, Seq<GroupStep>)>::empty());
        assert(kids_churns(e, 0) == Seq::<(Seq<i32>, RangeS, Seq<GroupStep>)>::empty());
        assert(kids_churns(e, 1) == kids_churns(e, 0) + subtree_churns(children_of(e)[0]));
        assert(subtree_churns(e) == own_churns(e) + kids_churns(e, 1));
        assert(subtree_churns(e) =~= churns_of(gev(e)));
    }
}

/// `lemma_churns_of` for a `DestroyStaticSizedArrayIntoFunction` node.
proof fn lemma_churns_destroy_static_sized_array_into_function(e: ExpressionGE)
    requires e is DestroyStaticSizedArrayIntoFunction,
    ensures subtree_churns(e) == churns_of(gev(e)),
    decreases e, 0int, children_of(e).len() + 1,
{
    if let ExpressionGE::DestroyStaticSizedArrayIntoFunction(x) = e {
        lemma_churns_of(*x.array_expr);
        lemma_churns_of(*x.consumer);
        assert(children_of(e) == seq![*x.array_expr, *x.consumer]);
        assert(own_churns(e) == Seq::<(Seq<i32>, RangeS, Seq<GroupStep>)>::empty());
        assert(kids_churns(e, 0) == Seq::<(Seq<i32>, RangeS, Seq<GroupStep>)>::empty());
        assert(kids_churns(e, 1) == kids_churns(e, 0) + subtree_churns(children_of(e)[0]));
        assert(kids_churns(e, 2) == kids_churns(e, 1) + subtree_churns(children_of(e)[1]));
        assert(subtree_churns(e) == own_churns(e) + kids_churns(e, 2));
        assert(subtree_churns(e) =~= churns_of(gev(e)));
    }
}

/// `lemma_churns_of` for a `DestroyStaticSizedArrayIntoLocals` node.
proof fn lemma_churns_destroy_static_sized_array_into_locals(e: ExpressionGE)
    requires e is DestroyStaticSizedArrayIntoLocals,
    ensures subtree_churns(e) == churns_of(gev(e)),
    decreases e, 0int, children_of(e).len() + 1,
{
    if let ExpressionGE::DestroyStaticSizedArrayIntoLocals(x) = e {
        lemma_churns_of(*x.expr);
        assert(children_of(e) == seq![*x.expr]);
        assert(own_churns(e) == Seq::<(Seq<i32>, RangeS, Seq<GroupStep>)>::empty());
        assert(kids_churns(e, 0) == Seq::<(Seq<i32>, RangeS, Seq<GroupStep>)>::empty());
        assert(kids_churns(e, 1) == kids_churns(e, 0) + subtree_churns(children_of(e)[0]));
        assert(subtree_churns(e) == own_churns(e) + kids_churns(e, 1));
        assert(subtree_churns(e) =~= churns_of(gev(e)));
    }
}

/// `lemma_churns_of` for a `DestroyRuntimeSizedArray` node.
proof fn lemma_churns_destroy_runtime_sized_array(e: ExpressionGE)
    requires e is DestroyRuntimeSizedArray,
    ensures subtree_churns(e) == churns_of(gev(e)),
    decreases e, 0int, children_of(e).len() + 1,
{
    if let ExpressionGE::DestroyRuntimeSizedArray(x) = e {
        lemma_churns_of(*x.array_expr);
        assert(children_of(e) == seq![*x.array_expr]);
        assert(own_churns(e) == Seq::<(Seq<i32>, RangeS, Seq<GroupStep>)>::empty());
        assert(kids_churns(e, 0) == Seq::<(Seq<i32>, RangeS, Seq<GroupStep>)>::empty());
        assert(kids_churns(e, 1) == kids_churns(e, 0) + subtree_churns(children_of(e)[0]));
        assert(subtree_churns(e) == own_churns(e) + kids_churns(e, 1));
        assert(subtree_churns(e) =~= churns_of(gev(e)));
    }
}

/// `lemma_churns_of` for a `RuntimeSizedArrayCapacity` node.
proof fn lemma_churns_runtime_sized_array_capacity(e: ExpressionGE)
    requires e is RuntimeSizedArrayCapacity,
    ensures subtree_churns(e) == churns_of(gev(e)),
    decreases e, 0int, children_of(e).len() + 1,
{
    if let ExpressionGE::RuntimeSizedArrayCapacity(x) = e {
        lemma_churns_of(*x.array_expr);
        assert(children_of(e) == seq![*x.array_expr]);
        assert(own_churns(e) == Seq::<(Seq<i32>, RangeS, Seq<GroupStep>)>::empty());
        assert(kids_churns(e, 0) == Seq::<(Seq<i32>, RangeS, Seq<GroupStep>)>::empty());
        assert(kids_churns(e, 1) == kids_churns(e, 0) + subtree_churns(children_of(e)[0]));
        assert(subtree_churns(e) == own_churns(e) + kids_churns(e, 1));
        assert(subtree_churns(e) =~= churns_of(gev(e)));
    }
}

/// `lemma_churns_of` for a `PushRuntimeSizedArray` node.
proof fn lemma_churns_push_runtime_sized_array(e: ExpressionGE)
    requires e is PushRuntimeSizedArray,
    ensures subtree_churns(e) == churns_of(gev(e)),
    decreases e, 0int, children_of(e).len() + 1,
{
    if let ExpressionGE::PushRuntimeSizedArray(x) = e {
        lemma_churns_of(*x.array_expr);
        lemma_churns_of(*x.new_element_expr);
        assert(children_of(e) == seq![*x.array_expr, *x.new_element_expr]);
        assert(own_churns(e) == Seq::<(Seq<i32>, RangeS, Seq<GroupStep>)>::empty());
        assert(kids_churns(e, 0) == Seq::<(Seq<i32>, RangeS, Seq<GroupStep>)>::empty());
        assert(kids_churns(e, 1) == kids_churns(e, 0) + subtree_churns(children_of(e)[0]));
        assert(kids_churns(e, 2) == kids_churns(e, 1) + subtree_churns(children_of(e)[1]));
        assert(subtree_churns(e) == own_churns(e) + kids_churns(e, 2));
        assert(subtree_churns(e) =~= churns_of(gev(e)));
    }
}

/// `lemma_churns_of` for a `PopRuntimeSizedArray` node.
proof fn lemma_churns_pop_runtime_sized_array(e: ExpressionGE)
    requires e is PopRuntimeSizedArray,
    ensures subtree_churns(e) == churns_of(gev(e)),
    decreases e, 0int, children_of(e).len() + 1,
{
    if let ExpressionGE::PopRuntimeSizedArray(x) = e {
        lemma_churns_of(*x.array_expr);
        assert(children_of(e) == seq![*x.array_expr]);
        assert(own_churns(e) == Seq::<(Seq<i32>, RangeS, Seq<GroupStep>)>::empty());
        assert(kids_churns(e, 0) == Seq::<(Seq<i32>, RangeS, Seq<GroupStep>)>::empty());
        assert(kids_churns(e, 1) == kids_churns(e, 0) + subtree_churns(children_of(e)[0]));
        assert(subtree_churns(e) == own_churns(e) + kids_churns(e, 1));
        assert(subtree_churns(e) =~= churns_of(gev(e)));
    }
}

/// `lemma_churns_of` for a `InterfaceToInterfaceUpcast` node.
proof fn lemma_churns_interface_to_interface_upcast(e: ExpressionGE)
    requires e is InterfaceToInterfaceUpcast,
    ensures subtree_churns(e) == churns_of(gev(e)),
    decreases e, 0int, children_of(e).len() + 1,
{
    if let ExpressionGE::InterfaceToInterfaceUpcast(x) = e {
        lemma_churns_of(*x.inner_expr);
        assert(children_of(e) == seq![*x.inner_expr]);
        assert(own_churns(e) == Seq::<(Seq<i32>, RangeS, Seq<GroupStep>)>::empty());
        assert(kids_churns(e, 0) == Seq::<(Seq<i32>, RangeS, Seq<GroupStep>)>::empty());
        assert(kids_churns(e, 1) == kids_churns(e, 0) + subtree_churns(children_of(e)[0]));
        assert(subtree_churns(e) == own_churns(e) + kids_churns(e, 1));
        assert(subtree_churns(e) =~= churns_of(gev(e)));
    }
}

/// `lemma_churns_of` for a `UpcastInterface` node.
proof fn lemma_churns_upcast_interface(e: ExpressionGE)
    requires e is UpcastInterface,
    ensures subtree_churns(e) == churns_of(gev(e)),
    decreases e, 0int, children_of(e).len() + 1,
{
    if let ExpressionGE::UpcastInterface(x) = e {
        lemma_churns_of(*x.inner_expr);
        assert(children_of(e) == seq![*x.inner_expr]);
        assert(own_churns(e) == Seq::<(Seq<i32>, RangeS, Seq<GroupStep>)>::empty());
        assert(kids_churns(e, 0) == Seq::<(Seq<i32>, RangeS, Seq<GroupStep>)>::empty());
        assert(kids_churns(e, 1) == kids_churns(e, 0) + subtree_churns(children_of(e)[0]));
        assert(subtree_churns(e) == own_churns(e) + kids_churns(e, 1));
        assert(subtree_churns(e) =~= churns_of(gev(e)));
    }
}

/// `lemma_churns_of` for a `UpcastGeneric` node.
proof fn lemma_churns_upcast_generic(e: ExpressionGE)
    requires e is UpcastGeneric,
    ensures subtree_churns(e) == churns_of(gev(e)),
    decreases e, 0int, children_of(e).len() + 1,
{
    if let ExpressionGE::UpcastGeneric(x) = e {
        lemma_churns_of(*x.inner_expr);
        assert(children_of(e) == seq![*x.inner_expr]);
        assert(own_churns(e) == Seq::<(Seq<i32>, RangeS, Seq<GroupStep>)>::empty());
        assert(kids_churns(e, 0) == Seq::<(Seq<i32>, RangeS, Seq<GroupStep>)>::empty());
        assert(kids_churns(e, 1) == kids_churns(e, 0) + subtree_churns(children_of(e)[0]));
        assert(subtree_churns(e) == own_churns(e) + kids_churns(e, 1));
        assert(subtree_churns(e) =~= churns_of(gev(e)));
    }
}

/// `lemma_churns_of` for a `Destroy` node.
proof fn lemma_churns_destroy(e: ExpressionGE)
    requires e is Destroy,
    ensures subtree_churns(e) == churns_of(gev(e)),
    decreases e, 0int, children_of(e).len() + 1,
{
    if let ExpressionGE::Destroy(x) = e {
        lemma_churns_of(*x.expr);
        assert(children_of(e) == seq![*x.expr]);
        assert(own_churns(e) == Seq::<(Seq<i32>, RangeS, Seq<GroupStep>)>::empty());
        assert(kids_churns(e, 0) == Seq::<(Seq<i32>, RangeS, Seq<GroupStep>)>::empty());
        assert(kids_churns(e, 1) == kids_churns(e, 0) + subtree_churns(children_of(e)[0]));
        assert(subtree_churns(e) == own_churns(e) + kids_churns(e, 1));
        assert(subtree_churns(e) =~= churns_of(gev(e)));
    }
}

/// `lemma_churns_of` for a `CopyPrim` node.
proof fn lemma_churns_copy_prim(e: ExpressionGE)
    requires e is CopyPrim,
    ensures subtree_churns(e) == churns_of(gev(e)),
    decreases e, 0int, children_of(e).len() + 1,
{
    if let ExpressionGE::CopyPrim(x) = e {
        lemma_churns_of(*x.inner);
        assert(children_of(e) == seq![*x.inner]);
        assert(own_churns(e) == Seq::<(Seq<i32>, RangeS, Seq<GroupStep>)>::empty());
        assert(kids_churns(e, 0) == Seq::<(Seq<i32>, RangeS, Seq<GroupStep>)>::empty());
        assert(kids_churns(e, 1) == kids_churns(e, 0) + subtree_churns(children_of(e)[0]));
        assert(subtree_churns(e) == own_churns(e) + kids_churns(e, 1));
        assert(subtree_churns(e) =~= churns_of(gev(e)));
    }
}

/// `lemma_churns_of` for a `LocalLookup` node.
proof fn lemma_churns_local_lookup(e: ExpressionGE)
    requires e is LocalLookup,
    ensures subtree_churns(e) == churns_of(gev(e)),
    decreases e, 0int, children_of(e).len() + 1,
{
    if let ExpressionGE::LocalLookup(x) = e {
        assert(children_of(e) == Seq::<ExpressionGE>::empty());
        assert(own_churns(e) == Seq::<(Seq<i32>, RangeS, Seq<GroupStep>)>::empty());
        assert(kids_churns(e, 0) == Seq::<(Seq<i32>, RangeS, Seq<GroupStep>)>::empty());
        assert(subtree_churns(e) == own_churns(e) + kids_churns(e, 0));
        assert(subtree_churns(e) =~= churns_of(gev(e)));
    }
}

/// `lemma_churns_of` for a `StaticSizedArrayLookup` node.
proof fn lemma_churns_static_sized_array_lookup(e: ExpressionGE)
    requires e is StaticSizedArrayLookup,
    ensures subtree_churns(e) == churns_of(gev(e)),
    decreases e, 0int, children_of(e).len() + 1,
{
    if let ExpressionGE::StaticSizedArrayLookup(x) = e {
        lemma_churns_of(*x.array_expr);
        lemma_churns_of(*x.index_expr);
        assert(children_of(e) == seq![*x.array_expr, *x.index_expr]);
        assert(own_churns(e) == Seq::<(Seq<i32>, RangeS, Seq<GroupStep>)>::empty());
        assert(kids_churns(e, 0) == Seq::<(Seq<i32>, RangeS, Seq<GroupStep>)>::empty());
        assert(kids_churns(e, 1) == kids_churns(e, 0) + subtree_churns(children_of(e)[0]));
        assert(kids_churns(e, 2) == kids_churns(e, 1) + subtree_churns(children_of(e)[1]));
        assert(subtree_churns(e) == own_churns(e) + kids_churns(e, 2));
        assert(subtree_churns(e) =~= churns_of(gev(e)));
    }
}

/// `lemma_churns_of` for a `RuntimeSizedArrayLookup` node.
proof fn lemma_churns_runtime_sized_array_lookup(e: ExpressionGE)
    requires e is RuntimeSizedArrayLookup,
    ensures subtree_churns(e) == churns_of(gev(e)),
    decreases e, 0int, children_of(e).len() + 1,
{
    if let ExpressionGE::RuntimeSizedArrayLookup(x) = e {
        lemma_churns_of(*x.array_expr);
        lemma_churns_of(*x.index_expr);
        assert(children_of(e) == seq![*x.array_expr, *x.index_expr]);
        assert(own_churns(e) == Seq::<(Seq<i32>, RangeS, Seq<GroupStep>)>::empty());
        assert(kids_churns(e, 0) == Seq::<(Seq<i32>, RangeS, Seq<GroupStep>)>::empty());
        assert(kids_churns(e, 1) == kids_churns(e, 0) + subtree_churns(children_of(e)[0]));
        assert(kids_churns(e, 2) == kids_churns(e, 1) + subtree_churns(children_of(e)[1]));
        assert(subtree_churns(e) == own_churns(e) + kids_churns(e, 2));
        assert(subtree_churns(e) =~= churns_of(gev(e)));
    }
}

/// `lemma_churns_of` for a `MemberLookup` node.
proof fn lemma_churns_member_lookup(e: ExpressionGE)
    requires e is MemberLookup,
    ensures subtree_churns(e) == churns_of(gev(e)),
    decreases e, 0int, children_of(e).len() + 1,
{
    if let ExpressionGE::MemberLookup(x) = e {
        lemma_churns_of(*x.struct_expr);
        assert(children_of(e) == seq![*x.struct_expr]);
        assert(own_churns(e) == Seq::<(Seq<i32>, RangeS, Seq<GroupStep>)>::empty());
        assert(kids_churns(e, 0) == Seq::<(Seq<i32>, RangeS, Seq<GroupStep>)>::empty());
        assert(kids_churns(e, 1) == kids_churns(e, 0) + subtree_churns(children_of(e)[0]));
        assert(subtree_churns(e) == own_churns(e) + kids_churns(e, 1));
        assert(subtree_churns(e) =~= churns_of(gev(e)));
    }
}

/// `lemma_churns_of` for a `Deref` node.
proof fn lemma_churns_deref(e: ExpressionGE)
    requires e is Deref,
    ensures subtree_churns(e) == churns_of(gev(e)),
    decreases e, 0int, children_of(e).len() + 1,
{
    if let ExpressionGE::Deref(x) = e {
        lemma_churns_of(*x.inner);
        assert(children_of(e) == seq![*x.inner]);
        assert(own_churns(e) == Seq::<(Seq<i32>, RangeS, Seq<GroupStep>)>::empty());
        assert(kids_churns(e, 0) == Seq::<(Seq<i32>, RangeS, Seq<GroupStep>)>::empty());
        assert(kids_churns(e, 1) == kids_churns(e, 0) + subtree_churns(children_of(e)[0]));
        assert(subtree_churns(e) == own_churns(e) + kids_churns(e, 1));
        assert(subtree_churns(e) =~= churns_of(gev(e)));
    }
}

/// The churns under the first `n` children of a node whose children are the list `es`.
proof fn lemma_kids_list(e: ExpressionGE, es: Seq<ExpressionGE>, n: int)
    requires children_of(e) == es, 0 <= n <= es.len(),
    ensures kids_churns(e, n) == churns_list(gevs(es.subrange(0, n))),
    decreases e, 0int, n,
{
    if n > 0 {
        lemma_children_smaller(e);
        lemma_kids_list(e, es, n - 1);
        assert(decreases_to!(e => es[n - 1]));
        lemma_churns_of(es[n - 1]);
        assert(kids_churns(e, n) == kids_churns(e, n - 1) + subtree_churns(es[n - 1]));
        assert(es.subrange(0, n).subrange(0, n - 1) =~= es.subrange(0, n - 1));
        assert(gevs(es.subrange(0, n)) == gevs(es.subrange(0, n - 1)).push(gev(es[n - 1])));
        assert(gevs(es.subrange(0, n)).drop_last() =~= gevs(es.subrange(0, n - 1)));
    } else {
        assert(es.subrange(0, 0) =~= Seq::<ExpressionGE>::empty());
        assert(gevs(es.subrange(0, 0)) =~= Seq::<GEV>::empty());
    }
}

} // verus!
