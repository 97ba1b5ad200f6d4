//! The grouped AST: the typed function body with every reference's group resolved.

use vstd::prelude::*;
use crate::interner::StrI;
use crate::names::{IRuneS, IVarNameT};
use crate::loc::LocT;
use crate::range::RangeS;
use crate::borrow_checker::kind_g::KindGT;

verus! {

/// One step of a flattened group path.
#[derive(Clone, Copy, PartialEq, Eq, Structural, Debug)]
pub enum GroupStep {
    /// A group parameter, such as `<g'>`.
    Rune(IRuneS),
    /// A parameter's group when it names no rune.
    ParamAnonymousGroup(IVarNameT),
    /// A local's implicitly declared group.
    Local(IVarNameT),
    /// `x.items`.
    Member { member_name: StrI },
    /// The `[]` of `x.items[]` when `items` is a destructible collection.
    ChildElements,
    /// The `[]` of `x.items[]` when `items` is an inline array.
    InlineElements,
    /// An enum's variant.
    Variant { variant_name: StrI },
}

/// A specific mutation of a specific group: which node churned, where, and the group's path.
#[derive(Debug)]
pub struct MutEffectPath {
    pub effecting_node_loc: LocT,
    pub range: RangeS,
    pub steps: Vec<GroupStep>,
}


/// A local variable of the grouped body, with its grouped kind.
#[derive(Debug)]
pub struct LocalVariableG {
    pub name: IVarNameT,
    pub tyype: KindGT,
}

/// The function a call invokes, by the number of its function template.
#[derive(Clone, Copy, PartialEq, Eq, Structural, Debug)]
pub struct PrototypeT {
    pub id: u32,
}

/// Binds a local and lends it.
#[derive(Debug)]
pub struct LetAndLendGE {
    pub range: RangeS,
    pub loct: LocT,
    pub variable: LocalVariableG,
    pub expr: Box<ExpressionGE>,
    pub result: KindGT,
}

/// Locks a weak reference into an optional borrow.
#[derive(Debug)]
pub struct LockWeakGE {
    pub range: RangeS,
    pub inner_expr: Box<ExpressionGE>,
    pub result: KindGT,
}

/// Turns a borrow into a weak reference.
#[derive(Debug)]
pub struct BorrowToWeakGE {
    pub range: RangeS,
    pub inner_expr: Box<ExpressionGE>,
    pub result: KindGT,
}

/// Binds a local to a value.
#[derive(Debug)]
pub struct LetNormalGE {
    pub range: RangeS,
    pub variable: LocalVariableG,
    pub expr: Box<ExpressionGE>,
    pub result: KindGT,
}

/// Moves a local out of its stack slot.
#[derive(Debug)]
pub struct UnletGE {
    pub range: RangeS,
    pub variable: LocalVariableG,
    pub result: KindGT,
}

/// Evaluates and drops a value.
#[derive(Debug)]
pub struct DiscardGE {
    pub range: RangeS,
    pub expr: Box<ExpressionGE>,
    pub result: KindGT,
}

/// A conditional.
#[derive(Debug)]
pub struct IfGE {
    pub range: RangeS,
    pub condition: Box<ExpressionGE>,
    pub then_call: Box<ExpressionGE>,
    pub else_call: Box<ExpressionGE>,
    pub result: KindGT,
}

/// A loop, with every churn its body may make.
#[derive(Debug)]
pub struct WhileGE {
    pub range: RangeS,
    pub block: BlockGE,
    pub mut_effects: Vec<MutEffectPath>,
    pub result: KindGT,
}

/// A store.
#[derive(Debug)]
pub struct MutateGE {
    pub range: RangeS,
    pub loct: LocT,
    pub destination_expr: Box<ExpressionGE>,
    pub source_expr: Box<ExpressionGE>,
    pub result: KindGT,
}

/// Puts a value back into a moved-out local.
#[derive(Debug)]
pub struct RestackifyGE {
    pub range: RangeS,
    pub variable: LocalVariableG,
    pub source_expr: Box<ExpressionGE>,
    pub result: KindGT,
}

/// Returns a value.
#[derive(Debug)]
pub struct ReturnGE {
    pub range: RangeS,
    pub source_expr: Box<ExpressionGE>,
    pub result: KindGT,
}

/// Leaves the innermost loop.
#[derive(Debug)]
pub struct BreakGE {
    pub range: RangeS,
    pub result: KindGT,
}

/// A block.
#[derive(Debug)]
pub struct BlockGE {
    pub range: RangeS,
    pub inner: Box<ExpressionGE>,
    pub result: KindGT,
}

/// Expressions evaluated in order; the last one's value is the result.
#[derive(Debug)]
pub struct ConsecutorGE {
    pub range: RangeS,
    pub exprs: Vec<ExpressionGE>,
    pub result: KindGT,
}

/// An inline array literal.
#[derive(Debug)]
pub struct StaticArrayFromValuesGE {
    pub range: RangeS,
    pub elements: Vec<ExpressionGE>,
    pub result: KindGT,
}

/// An array's static size.
#[derive(Debug)]
pub struct ArraySizeGE {
    pub range: RangeS,
    pub array: Box<ExpressionGE>,
    pub result: KindGT,
}

/// Whether two references point at one object.
#[derive(Debug)]
pub struct IsSameInstanceGE {
    pub range: RangeS,
    pub left: Box<ExpressionGE>,
    pub right: Box<ExpressionGE>,
    pub result: KindGT,
}

/// A downcast.
#[derive(Debug)]
pub struct AsSubtypeGE {
    pub range: RangeS,
    pub source_expr: Box<ExpressionGE>,
    pub result: KindGT,
}

/// The void value.
#[derive(Debug)]
pub struct VoidLiteralGE {
    pub range: RangeS,
    pub result: KindGT,
}

/// An integer literal.
#[derive(Debug)]
pub struct ConstantIntGE {
    pub range: RangeS,
    pub value: i64,
    pub bits: i32,
    pub result: KindGT,
}

/// A boolean literal.
#[derive(Debug)]
pub struct ConstantBoolGE {
    pub range: RangeS,
    pub value: bool,
    pub result: KindGT,
}

/// A string literal.
#[derive(Debug)]
pub struct ConstantStrGE {
    pub range: RangeS,
    pub value: StrI,
    pub result: KindGT,
}

/// A floating-point literal (the checker reads only its range and kind).
#[derive(Debug)]
pub struct ConstantFloatGE {
    pub range: RangeS,
    pub result: KindGT,
}

/// Reads a parameter.
#[derive(Debug)]
pub struct ArgLookupGE {
    pub range: RangeS,
    pub param_index: i32,
    pub result: KindGT,
}

/// A runtime-sized array's length.
#[derive(Debug)]
pub struct ArrayLengthGE {
    pub range: RangeS,
    pub array_expr: Box<ExpressionGE>,
    pub result: KindGT,
}

/// A virtual call.
#[derive(Debug)]
pub struct InterfaceFunctionCallGE {
    pub range: RangeS,
    pub args: Vec<ExpressionGE>,
    pub result: KindGT,
}

/// How many generic parameters a generated denizen takes over from the one it is made for.
#[derive(Clone, Copy, PartialEq, Eq, Structural, Hash, Debug)]
pub struct GenericParametersInheritance {
    pub num_inherited_generic_parameters: i32,
}

/// A call into extern code.
#[derive(Debug)]
pub struct ExternFunctionCallGE {
    pub range: RangeS,
    pub args: Vec<ExpressionGE>,
    pub result: KindGT,
}

/// A call, with the churns the callee declares, instantiated at this call.
#[derive(Debug)]
pub struct FunctionCallGE {
    pub range: RangeS,
    pub parent_ranges: Vec<RangeS>,
    pub loct: LocT,
    pub callable: PrototypeT,
    pub args: Vec<ExpressionGE>,
    pub mut_effects: Vec<MutEffectPath>,
    pub result: KindGT,
}

/// A call through a generic bound.
#[derive(Debug)]
pub struct BoundFunctionCallGE {
    pub range: RangeS,
    pub args: Vec<ExpressionGE>,
    pub result: KindGT,
}

/// A cast that keeps the value.
#[derive(Debug)]
pub struct ReinterpretGE {
    pub range: RangeS,
    pub expr: Box<ExpressionGE>,
    pub result: KindGT,
}

/// Constructs a struct.
#[derive(Debug)]
pub struct ConstructGE {
    pub range: RangeS,
    pub args: Vec<ExpressionGE>,
    pub result: KindGT,
}

/// Makes a runtime-sized array.
#[derive(Debug)]
pub struct NewRuntimeSizedArrayGE {
    pub range: RangeS,
    pub capacity_expr: Box<ExpressionGE>,
    pub result: KindGT,
}

/// Fills an inline array from a generator.
#[derive(Debug)]
pub struct StaticArrayFromCallableGE {
    pub range: RangeS,
    pub generator: Box<ExpressionGE>,
    pub result: KindGT,
}

/// Hands each element of an inline array to a consumer.
#[derive(Debug)]
pub struct DestroyStaticSizedArrayIntoFunctionGE {
    pub range: RangeS,
    pub array_expr: Box<ExpressionGE>,
    pub consumer: Box<ExpressionGE>,
    pub result: KindGT,
}

/// Destructures an inline array into locals.
#[derive(Debug)]
pub struct DestroyStaticSizedArrayIntoLocalsGE {
    pub range: RangeS,
    pub expr: Box<ExpressionGE>,
    pub destination_reference_variables: Vec<LocalVariableG>,
    pub result: KindGT,
}

/// Destroys an empty runtime-sized array.
#[derive(Debug)]
pub struct DestroyRuntimeSizedArrayGE {
    pub range: RangeS,
    pub array_expr: Box<ExpressionGE>,
    pub result: KindGT,
}

/// A runtime-sized array's capacity.
#[derive(Debug)]
pub struct RuntimeSizedArrayCapacityGE {
    pub range: RangeS,
    pub array_expr: Box<ExpressionGE>,
    pub result: KindGT,
}

/// Pushes onto a runtime-sized array.
#[derive(Debug)]
pub struct PushRuntimeSizedArrayGE {
    pub range: RangeS,
    pub array_expr: Box<ExpressionGE>,
    pub new_element_expr: Box<ExpressionGE>,
    pub result: KindGT,
}

/// Pops from a runtime-sized array.
#[derive(Debug)]
pub struct PopRuntimeSizedArrayGE {
    pub range: RangeS,
    pub array_expr: Box<ExpressionGE>,
    pub result: KindGT,
}

/// Upcasts an interface to a super-interface.
#[derive(Debug)]
pub struct InterfaceToInterfaceUpcastGE {
    pub range: RangeS,
    pub inner_expr: Box<ExpressionGE>,
    pub result: KindGT,
}

/// Upcasts a struct to an interface.
#[derive(Debug)]
pub struct UpcastInterfaceGE {
    pub range: RangeS,
    pub inner_expr: Box<ExpressionGE>,
    pub result: KindGT,
}

/// Upcasts through a generic bound.
#[derive(Debug)]
pub struct UpcastGenericGE {
    pub range: RangeS,
    pub inner_expr: Box<ExpressionGE>,
    pub result: KindGT,
}

/// Destructures a struct into locals.
#[derive(Debug)]
pub struct DestroyGE {
    pub range: RangeS,
    pub loct: LocT,
    pub expr: Box<ExpressionGE>,
    pub destination_reference_variables: Vec<LocalVariableG>,
    pub result: KindGT,
}

/// Loads a primitive through a reference.
#[derive(Debug)]
pub struct CopyPrimGE {
    pub range: RangeS,
    pub inner: Box<ExpressionGE>,
    pub result: KindGT,
}

/// A reference to a local.
#[derive(Debug)]
pub struct LocalLookupGE {
    pub range: RangeS,
    pub loct: LocT,
    pub local_variable: LocalVariableG,
    pub result: KindGT,
}

/// A reference to an inline array's element.
#[derive(Debug)]
pub struct StaticSizedArrayLookupGE {
    pub range: RangeS,
    pub array_expr: Box<ExpressionGE>,
    pub index_expr: Box<ExpressionGE>,
    pub result: KindGT,
}

/// A reference to a runtime-sized array's element.
#[derive(Debug)]
pub struct RuntimeSizedArrayLookupGE {
    pub range: RangeS,
    pub array_expr: Box<ExpressionGE>,
    pub index_expr: Box<ExpressionGE>,
    pub result: KindGT,
}

/// A reference to a struct's member.
#[derive(Debug)]
pub struct MemberLookupGE {
    pub range: RangeS,
    pub struct_expr: Box<ExpressionGE>,
    pub member_name: StrI,
    pub result: KindGT,
}

/// A load through a reference (or the decay of `&&T` to `&T`).
#[derive(Debug)]
pub struct DerefGE {
    pub range: RangeS,
    pub inner: Box<ExpressionGE>,
    pub result: KindGT,
}

/// A node of the grouped function body.
#[derive(Debug)]
pub enum ExpressionGE {
    LetAndLend(LetAndLendGE),
    LockWeak(LockWeakGE),
    BorrowToWeak(BorrowToWeakGE),
    LetNormal(LetNormalGE),
    Unlet(UnletGE),
    Discard(DiscardGE),
    If(IfGE),
    While(WhileGE),
    Mutate(MutateGE),
    Restackify(RestackifyGE),
    Return(ReturnGE),
    Break(BreakGE),
    Block(BlockGE),
    Consecutor(ConsecutorGE),
    StaticArrayFromValues(StaticArrayFromValuesGE),
    ArraySize(ArraySizeGE),
    IsSameInstance(IsSameInstanceGE),
    AsSubtype(AsSubtypeGE),
    VoidLiteral(VoidLiteralGE),
    ConstantInt(ConstantIntGE),
    ConstantBool(ConstantBoolGE),
    ConstantStr(ConstantStrGE),
    ConstantFloat(ConstantFloatGE),
    ArgLookup(ArgLookupGE),
    ArrayLength(ArrayLengthGE),
    InterfaceFunctionCall(InterfaceFunctionCallGE),
    ExternFunctionCall(ExternFunctionCallGE),
    FunctionCall(FunctionCallGE),
    BoundFunctionCall(BoundFunctionCallGE),
    Reinterpret(ReinterpretGE),
    Construct(ConstructGE),
    NewRuntimeSizedArray(NewRuntimeSizedArrayGE),
    StaticArrayFromCallable(StaticArrayFromCallableGE),
    DestroyStaticSizedArrayIntoFunction(DestroyStaticSizedArrayIntoFunctionGE),
    DestroyStaticSizedArrayIntoLocals(DestroyStaticSizedArrayIntoLocalsGE),
    DestroyRuntimeSizedArray(DestroyRuntimeSizedArrayGE),
    RuntimeSizedArrayCapacity(RuntimeSizedArrayCapacityGE),
    PushRuntimeSizedArray(PushRuntimeSizedArrayGE),
    PopRuntimeSizedArray(PopRuntimeSizedArrayGE),
    InterfaceToInterfaceUpcast(InterfaceToInterfaceUpcastGE),
    UpcastInterface(UpcastInterfaceGE),
    UpcastGeneric(UpcastGenericGE),
    Destroy(DestroyGE),
    CopyPrim(CopyPrimGE),
    LocalLookup(LocalLookupGE),
    StaticSizedArrayLookup(StaticSizedArrayLookupGE),
    RuntimeSizedArrayLookup(RuntimeSizedArrayLookupGE),
    MemberLookup(MemberLookupGE),
    Deref(DerefGE),
}

/// A node's child sub-expressions, in evaluation order.
pub open spec fn children_of(e: ExpressionGE) -> Seq<ExpressionGE> {
    match e {
        ExpressionGE::LetAndLend(x) => seq![*x.expr],
        ExpressionGE::LockWeak(x) => seq![*x.inner_expr],
        ExpressionGE::BorrowToWeak(x) => seq![*x.inner_expr],
        ExpressionGE::LetNormal(x) => seq![*x.expr],
        ExpressionGE::Unlet(x) => Seq::empty(),
        ExpressionGE::Discard(x) => seq![*x.expr],
        ExpressionGE::If(x) => seq![*x.condition, *x.then_call, *x.else_call],
        ExpressionGE::While(x) => seq![*x.block.inner],
        ExpressionGE::Mutate(x) => seq![*x.destination_expr, *x.source_expr],
        ExpressionGE::Restackify(x) => seq![*x.source_expr],
        ExpressionGE::Return(x) => seq![*x.source_expr],
        ExpressionGE::Break(x) => Seq::empty(),
        ExpressionGE::Block(x) => seq![*x.inner],
        ExpressionGE::Consecutor(x) => x.exprs@,
        ExpressionGE::StaticArrayFromValues(x) => x.elements@,
        ExpressionGE::ArraySize(x) => seq![*x.array],
        ExpressionGE::IsSameInstance(x) => seq![*x.left, *x.right],
        ExpressionGE::AsSubtype(x) => seq![*x.source_expr],
        ExpressionGE::VoidLiteral(x) => Seq::empty(),
        ExpressionGE::ConstantInt(x) => Seq::empty(),
        ExpressionGE::ConstantBool(x) => Seq::empty(),
        ExpressionGE::ConstantStr(x) => Seq::empty(),
        ExpressionGE::ConstantFloat(x) => Seq::empty(),
        ExpressionGE::ArgLookup(x) => Seq::empty(),
        ExpressionGE::ArrayLength(x) => seq![*x.array_expr],
        ExpressionGE::InterfaceFunctionCall(x) => x.args@,
        ExpressionGE::ExternFunctionCall(x) => x.args@,
        ExpressionGE::FunctionCall(x) => x.args@,
        ExpressionGE::BoundFunctionCall(x) => x.args@,
        ExpressionGE::Reinterpret(x) => seq![*x.expr],
        ExpressionGE::Construct(x) => x.args@,
        ExpressionGE::NewRuntimeSizedArray(x) => seq![*x.capacity_expr],
        ExpressionGE::StaticArrayFromCallable(x) => seq![*x.generator],
        ExpressionGE::DestroyStaticSizedArrayIntoFunction(x) => seq![*x.array_expr, *x.consumer],
        ExpressionGE::DestroyStaticSizedArrayIntoLocals(x) => seq![*x.expr],
        ExpressionGE::DestroyRuntimeSizedArray(x) => seq![*x.array_expr],
        ExpressionGE::RuntimeSizedArrayCapacity(x) => seq![*x.array_expr],
        ExpressionGE::PushRuntimeSizedArray(x) => seq![*x.array_expr, *x.new_element_expr],
        ExpressionGE::PopRuntimeSizedArray(x) => seq![*x.array_expr],
        ExpressionGE::InterfaceToInterfaceUpcast(x) => seq![*x.inner_expr],
        ExpressionGE::UpcastInterface(x) => seq![*x.inner_expr],
        ExpressionGE::UpcastGeneric(x) => seq![*x.inner_expr],
        ExpressionGE::Destroy(x) => seq![*x.expr],
        ExpressionGE::CopyPrim(x) => seq![*x.inner],
        ExpressionGE::LocalLookup(x) => Seq::empty(),
        ExpressionGE::StaticSizedArrayLookup(x) => seq![*x.array_expr, *x.index_expr],
        ExpressionGE::RuntimeSizedArrayLookup(x) => seq![*x.array_expr, *x.index_expr],
        ExpressionGE::MemberLookup(x) => seq![*x.struct_expr],
        ExpressionGE::Deref(x) => seq![*x.inner],
    }
}

/// Every child of a node is smaller than the node.
pub proof fn lemma_children_smaller(e: ExpressionGE)
    ensures forall|i: int| 0 <= i < children_of(e).len() ==> decreases_to!(e => #[trigger] children_of(e)[i]),
{
    match e {
        ExpressionGE::LetAndLend(x) => {},
        ExpressionGE::LockWeak(x) => {},
        ExpressionGE::BorrowToWeak(x) => {},
        ExpressionGE::LetNormal(x) => {},
        ExpressionGE::Unlet(x) => {},
        ExpressionGE::Discard(x) => {},
        ExpressionGE::If(x) => {},
        ExpressionGE::While(x) => {},
        ExpressionGE::Mutate(x) => {},
        ExpressionGE::Restackify(x) => {},
        ExpressionGE::Return(x) => {},
        ExpressionGE::Break(x) => {},
        ExpressionGE::Block(x) => {},
        ExpressionGE::Consecutor(x) => {
            assert forall|i: int| 0 <= i < x.exprs@.len() implies decreases_to!(e => #[trigger] x.exprs@[i]) by {
                assert(decreases_to!(x.exprs => x.exprs@));
                assert(decreases_to!(x.exprs@ => x.exprs@[i]));
            }
        },
        ExpressionGE::StaticArrayFromValues(x) => {
            assert forall|i: int| 0 <= i < x.elements@.len() implies decreases_to!(e => #[trigger] x.elements@[i]) by {
                assert(decreases_to!(x.elements => x.elements@));
                assert(decreases_to!(x.elements@ => x.elements@[i]));
            }
        },
        ExpressionGE::ArraySize(x) => {},
        ExpressionGE::IsSameInstance(x) => {},
        ExpressionGE::AsSubtype(x) => {},
        ExpressionGE::VoidLiteral(x) => {},
        ExpressionGE::ConstantInt(x) => {},
        ExpressionGE::ConstantBool(x) => {},
        ExpressionGE::ConstantStr(x) => {},
        ExpressionGE::ConstantFloat(x) => {},
        ExpressionGE::ArgLookup(x) => {},
        ExpressionGE::ArrayLength(x) => {},
        ExpressionGE::InterfaceFunctionCall(x) => {
            assert forall|i: int| 0 <= i < x.args@.len() implies decreases_to!(e => #[trigger] x.args@[i]) by {
                assert(decreases_to!(x.args => x.args@));
                assert(decreases_to!(x.args@ => x.args@[i]));
            }
        },
        ExpressionGE::ExternFunctionCall(x) => {
            assert forall|i: int| 0 <= i < x.args@.len() implies decreases_to!(e => #[trigger] x.args@[i]) by {
                assert(decreases_to!(x.args => x.args@));
                assert(decreases_to!(x.args@ => x.args@[i]));
            }
        },
        ExpressionGE::FunctionCall(x) => {
            assert forall|i: int| 0 <= i < x.args@.len() implies decreases_to!(e => #[trigger] x.args@[i]) by {
                assert(decreases_to!(x.args => x.args@));
                assert(decreases_to!(x.args@ => x.args@[i]));
            }
        },
        ExpressionGE::BoundFunctionCall(x) => {
            assert forall|i: int| 0 <= i < x.args@.len() implies decreases_to!(e => #[trigger] x.args@[i]) by {
                assert(decreases_to!(x.args => x.args@));
                assert(decreases_to!(x.args@ => x.args@[i]));
            }
        },
        ExpressionGE::Reinterpret(x) => {},
        ExpressionGE::Construct(x) => {
            assert forall|i: int| 0 <= i < x.args@.len() implies decreases_to!(e => #[trigger] x.args@[i]) by {
                assert(decreases_to!(x.args => x.args@));
                assert(decreases_to!(x.args@ => x.args@[i]));
            }
        },
        ExpressionGE::NewRuntimeSizedArray(x) => {},
        ExpressionGE::StaticArrayFromCallable(x) => {},
        ExpressionGE::DestroyStaticSizedArrayIntoFunction(x) => {},
        ExpressionGE::DestroyStaticSizedArrayIntoLocals(x) => {},
        ExpressionGE::DestroyRuntimeSizedArray(x) => {},
        ExpressionGE::RuntimeSizedArrayCapacity(x) => {},
        ExpressionGE::PushRuntimeSizedArray(x) => {},
        ExpressionGE::PopRuntimeSizedArray(x) => {},
        ExpressionGE::InterfaceToInterfaceUpcast(x) => {},
        ExpressionGE::UpcastInterface(x) => {},
        ExpressionGE::UpcastGeneric(x) => {},
        ExpressionGE::Destroy(x) => {},
        ExpressionGE::CopyPrim(x) => {},
        ExpressionGE::LocalLookup(x) => {},
        ExpressionGE::StaticSizedArrayLookup(x) => {},
        ExpressionGE::RuntimeSizedArrayLookup(x) => {},
        ExpressionGE::MemberLookup(x) => {},
        ExpressionGE::Deref(x) => {},
    }
}

impl ExpressionGE {
    /// This node's child sub-expressions, in evaluation order.
    pub fn children(&self) -> (r: Vec<&ExpressionGE>)
        ensures r@.map_values(|c: &ExpressionGE| *c) == children_of(*self),
    {
        let mut v: Vec<&ExpressionGE> = Vec::new();
        match self {
            ExpressionGE::LetAndLend(x) => {
                v.push(&x.expr);
                proof { assert(v@.map_values(|c: &ExpressionGE| *c) =~= children_of(*self)); }
            },
            ExpressionGE::LockWeak(x) => {
                v.push(&x.inner_expr);
                proof { assert(v@.map_values(|c: &ExpressionGE| *c) =~= children_of(*self)); }
            },
            ExpressionGE::BorrowToWeak(x) => {
                v.push(&x.inner_expr);
                proof { assert(v@.map_values(|c: &ExpressionGE| *c) =~= children_of(*self)); }
            },
            ExpressionGE::LetNormal(x) => {
                v.push(&x.expr);
                proof { assert(v@.map_values(|c: &ExpressionGE| *c) =~= children_of(*self)); }
            },
            ExpressionGE::Unlet(x) => {
                proof { assert(v@.map_values(|c: &ExpressionGE| *c) =~= children_of(*self)); }
            },
            ExpressionGE::Discard(x) => {
                v.push(&x.expr);
                proof { assert(v@.map_values(|c: &ExpressionGE| *c) =~= children_of(*self)); }
            },
            ExpressionGE::If(x) => {
                v.push(&x.condition);
                v.push(&x.then_call);
                v.push(&x.else_call);
                proof { assert(v@.map_values(|c: &ExpressionGE| *c) =~= children_of(*self)); }
            },
            ExpressionGE::While(x) => {
                v.push(&x.block.inner);
                proof { assert(v@.map_values(|c: &ExpressionGE| *c) =~= children_of(*self)); }
            },
            ExpressionGE::Mutate(x) => {
                v.push(&x.destination_expr);
                v.push(&x.source_expr);
                proof { assert(v@.map_values(|c: &ExpressionGE| *c) =~= children_of(*self)); }
            },
            ExpressionGE::Restackify(x) => {
                v.push(&x.source_expr);
                proof { assert(v@.map_values(|c: &ExpressionGE| *c) =~= children_of(*self)); }
            },
            ExpressionGE::Return(x) => {
                v.push(&x.source_expr);
                proof { assert(v@.map_values(|c: &ExpressionGE| *c) =~= children_of(*self)); }
            },
            ExpressionGE::Break(x) => {
                proof { assert(v@.map_values(|c: &ExpressionGE| *c) =~= children_of(*self)); }
            },
            ExpressionGE::Block(x) => {
                v.push(&x.inner);
                proof { assert(v@.map_values(|c: &ExpressionGE| *c) =~= children_of(*self)); }
            },
            ExpressionGE::Consecutor(x) => {
                let mut i: usize = 0;
                while i < x.exprs.len()
                    invariant
                        i <= x.exprs@.len(),
                        v@.len() == i,
                        forall|j: int| 0 <= j < i ==> *v@[j] == x.exprs@[j],
                    decreases x.exprs@.len() - i,
                {
                    v.push(&x.exprs[i]);
                    i = i + 1;
                }
                proof { assert(v@.map_values(|c: &ExpressionGE| *c) =~= x.exprs@); }
            },
            ExpressionGE::StaticArrayFromValues(x) => {
                let mut i: usize = 0;
                while i < x.elements.len()
                    invariant
                        i <= x.elements@.len(),
                        v@.len() == i,
                        forall|j: int| 0 <= j < i ==> *v@[j] == x.elements@[j],
                    decreases x.elements@.len() - i,
                {
                    v.push(&x.elements[i]);
                    i = i + 1;
                }
                proof { assert(v@.map_values(|c: &ExpressionGE| *c) =~= x.elements@); }
            },
            ExpressionGE::ArraySize(x) => {
                v.push(&x.array);
                proof { assert(v@.map_values(|c: &ExpressionGE| *c) =~= children_of(*self)); }
            },
            ExpressionGE::IsSameInstance(x) => {
                v.push(&x.left);
                v.push(&x.right);
                proof { assert(v@.map_values(|c: &ExpressionGE| *c) =~= children_of(*self)); }
            },
            ExpressionGE::AsSubtype(x) => {
                v.push(&x.source_expr);
                proof { assert(v@.map_values(|c: &ExpressionGE| *c) =~= children_of(*self)); }
            },
            ExpressionGE::VoidLiteral(x) => {
                proof { assert(v@.map_values(|c: &ExpressionGE| *c) =~= children_of(*self)); }
            },
            ExpressionGE::ConstantInt(x) => {
                proof { assert(v@.map_values(|c: &ExpressionGE| *c) =~= children_of(*self)); }
            },
            ExpressionGE::ConstantBool(x) => {
                proof { assert(v@.map_values(|c: &ExpressionGE| *c) =~= children_of(*self)); }
            },
            ExpressionGE::ConstantStr(x) => {
                proof { assert(v@.map_values(|c: &ExpressionGE| *c) =~= children_of(*self)); }
            },
            ExpressionGE::ConstantFloat(x) => {
                proof { assert(v@.map_values(|c: &ExpressionGE| *c) =~= children_of(*self)); }
            },
            ExpressionGE::ArgLookup(x) => {
                proof { assert(v@.map_values(|c: &ExpressionGE| *c) =~= children_of(*self)); }
            },
            ExpressionGE::ArrayLength(x) => {
                v.push(&x.array_expr);
                proof { assert(v@.map_values(|c: &ExpressionGE| *c) =~= children_of(*self)); }
            },
            ExpressionGE::InterfaceFunctionCall(x) => {
                let mut i: usize = 0;
                while i < x.args.len()
                    invariant
                        i <= x.args@.len(),
                        v@.len() == i,
                        forall|j: int| 0 <= j < i ==> *v@[j] == x.args@[j],
                    decreases x.args@.len() - i,
                {
                    v.push(&x.args[i]);
                    i = i + 1;
                }
                proof { assert(v@.map_values(|c: &ExpressionGE| *c) =~= x.args@); }
            },
            ExpressionGE::ExternFunctionCall(x) => {
                let mut i: usize = 0;
                while i < x.args.len()
                    invariant
                        i <= x.args@.len(),
                        v@.len() == i,
                        forall|j: int| 0 <= j < i ==> *v@[j] == x.args@[j],
                    decreases x.args@.len() - i,
                {
                    v.push(&x.args[i]);
                    i = i + 1;
                }
                proof { assert(v@.map_values(|c: &ExpressionGE| *c) =~= x.args@); }
            },
            ExpressionGE::FunctionCall(x) => {
                let mut i: usize = 0;
                while i < x.args.len()
                    invariant
                        i <= x.args@.len(),
                        v@.len() == i,
                        forall|j: int| 0 <= j < i ==> *v@[j] == x.args@[j],
                    decreases x.args@.len() - i,
                {
                    v.push(&x.args[i]);
                    i = i + 1;
                }
                proof { assert(v@.map_values(|c: &ExpressionGE| *c) =~= x.args@); }
            },
            ExpressionGE::BoundFunctionCall(x) => {
                let mut i: usize = 0;
                while i < x.args.len()
                    invariant
                        i <= x.args@.len(),
                        v@.len() == i,
                        forall|j: int| 0 <= j < i ==> *v@[j] == x.args@[j],
                    decreases x.args@.len() - i,
                {
                    v.push(&x.args[i]);
                    i = i + 1;
                }
                proof { assert(v@.map_values(|c: &ExpressionGE| *c) =~= x.args@); }
            },
            ExpressionGE::Reinterpret(x) => {
                v.push(&x.expr);
                proof { assert(v@.map_values(|c: &ExpressionGE| *c) =~= children_of(*self)); }
            },
            ExpressionGE::Construct(x) => {
                let mut i: usize = 0;
                while i < x.args.len()
                    invariant
                        i <= x.args@.len(),
                        v@.len() == i,
                        forall|j: int| 0 <= j < i ==> *v@[j] == x.args@[j],
                    decreases x.args@.len() - i,
                {
                    v.push(&x.args[i]);
                    i = i + 1;
                }
                proof { assert(v@.map_values(|c: &ExpressionGE| *c) =~= x.args@); }
            },
            ExpressionGE::NewRuntimeSizedArray(x) => {
                v.push(&x.capacity_expr);
                proof { assert(v@.map_values(|c: &ExpressionGE| *c) =~= children_of(*self)); }
            },
            ExpressionGE::StaticArrayFromCallable(x) => {
                v.push(&x.generator);
                proof { assert(v@.map_values(|c: &ExpressionGE| *c) =~= children_of(*self)); }
            },
            ExpressionGE::DestroyStaticSizedArrayIntoFunction(x) => {
                v.push(&x.array_expr);
                v.push(&x.consumer);
                proof { assert(v@.map_values(|c: &ExpressionGE| *c) =~= children_of(*self)); }
            },
            ExpressionGE::DestroyStaticSizedArrayIntoLocals(x) => {
                v.push(&x.expr);
                proof { assert(v@.map_values(|c: &ExpressionGE| *c) =~= children_of(*self)); }
            },
            ExpressionGE::DestroyRuntimeSizedArray(x) => {
                v.push(&x.array_expr);
                proof { assert(v@.map_values(|c: &ExpressionGE| *c) =~= children_of(*self)); }
            },
            ExpressionGE::RuntimeSizedArrayCapacity(x) => {
                v.push(&x.array_expr);
                proof { assert(v@.map_values(|c: &ExpressionGE| *c) =~= children_of(*self)); }
            },
            ExpressionGE::PushRuntimeSizedArray(x) => {
                v.push(&x.array_expr);
                v.push(&x.new_element_expr);
                proof { assert(v@.map_values(|c: &ExpressionGE| *c) =~= children_of(*self)); }
            },
            ExpressionGE::PopRuntimeSizedArray(x) => {
                v.push(&x.array_expr);
                proof { assert(v@.map_values(|c: &ExpressionGE| *c) =~= children_of(*self)); }
            },
            ExpressionGE::InterfaceToInterfaceUpcast(x) => {
                v.push(&x.inner_expr);
                proof { assert(v@.map_values(|c: &ExpressionGE| *c) =~= children_of(*self)); }
            },
            ExpressionGE::UpcastInterface(x) => {
                v.push(&x.inner_expr);
                proof { assert(v@.map_values(|c: &ExpressionGE| *c) =~= children_of(*self)); }
            },
            ExpressionGE::UpcastGeneric(x) => {
                v.push(&x.inner_expr);
                proof { assert(v@.map_values(|c: &ExpressionGE| *c) =~= children_of(*self)); }
            },
            ExpressionGE::Destroy(x) => {
                v.push(&x.expr);
                proof { assert(v@.map_values(|c: &ExpressionGE| *c) =~= children_of(*self)); }
            },
            ExpressionGE::CopyPrim(x) => {
                v.push(&x.inner);
                proof { assert(v@.map_values(|c: &ExpressionGE| *c) =~= children_of(*self)); }
            },
            ExpressionGE::LocalLookup(x) => {
                proof { assert(v@.map_values(|c: &ExpressionGE| *c) =~= children_of(*self)); }
            },
            ExpressionGE::StaticSizedArrayLookup(x) => {
                v.push(&x.array_expr);
                v.push(&x.index_expr);
                proof { assert(v@.map_values(|c: &ExpressionGE| *c) =~= children_of(*self)); }
            },
            ExpressionGE::RuntimeSizedArrayLookup(x) => {
                v.push(&x.array_expr);
                v.push(&x.index_expr);
                proof { assert(v@.map_values(|c: &ExpressionGE| *c) =~= children_of(*self)); }
            },
            ExpressionGE::MemberLookup(x) => {
                v.push(&x.struct_expr);
                proof { assert(v@.map_values(|c: &ExpressionGE| *c) =~= children_of(*self)); }
            },
            ExpressionGE::Deref(x) => {
                v.push(&x.inner);
                proof { assert(v@.map_values(|c: &ExpressionGE| *c) =~= children_of(*self)); }
            },
        }
        v
    }

    /// The kind of this node's value.
    pub fn result(&self) -> (r: &KindGT)
        ensures *r == result_of(*self),
    {
        match self {
            ExpressionGE::LetAndLend(x) => &x.result,
            ExpressionGE::LockWeak(x) => &x.result,
            ExpressionGE::BorrowToWeak(x) => &x.result,
            ExpressionGE::LetNormal(x) => &x.result,
            ExpressionGE::Unlet(x) => &x.result,
            ExpressionGE::Discard(x) => &x.result,
            ExpressionGE::If(x) => &x.result,
            ExpressionGE::While(x) => &x.result,
            ExpressionGE::Mutate(x) => &x.result,
            ExpressionGE::Restackify(x) => &x.result,
            ExpressionGE::Return(x) => &x.result,
            ExpressionGE::Break(x) => &x.result,
            ExpressionGE::Block(x) => &x.result,
            ExpressionGE::Consecutor(x) => &x.result,
            ExpressionGE::StaticArrayFromValues(x) => &x.result,
            ExpressionGE::ArraySize(x) => &x.result,
            ExpressionGE::IsSameInstance(x) => &x.result,
            ExpressionGE::AsSubtype(x) => &x.result,
            ExpressionGE::VoidLiteral(x) => &x.result,
            ExpressionGE::ConstantInt(x) => &x.result,
            ExpressionGE::ConstantBool(x) => &x.result,
            ExpressionGE::ConstantStr(x) => &x.result,
            ExpressionGE::ConstantFloat(x) => &x.result,
            ExpressionGE::ArgLookup(x) => &x.result,
            ExpressionGE::ArrayLength(x) => &x.result,
            ExpressionGE::InterfaceFunctionCall(x) => &x.result,
            ExpressionGE::ExternFunctionCall(x) => &x.result,
            ExpressionGE::FunctionCall(x) => &x.result,
            ExpressionGE::BoundFunctionCall(x) => &x.result,
            ExpressionGE::Reinterpret(x) => &x.result,
            ExpressionGE::Construct(x) => &x.result,
            ExpressionGE::NewRuntimeSizedArray(x) => &x.result,
            ExpressionGE::StaticArrayFromCallable(x) => &x.result,
            ExpressionGE::DestroyStaticSizedArrayIntoFunction(x) => &x.result,
            ExpressionGE::DestroyStaticSizedArrayIntoLocals(x) => &x.result,
            ExpressionGE::DestroyRuntimeSizedArray(x) => &x.result,
            ExpressionGE::RuntimeSizedArrayCapacity(x) => &x.result,
            ExpressionGE::PushRuntimeSizedArray(x) => &x.result,
            ExpressionGE::PopRuntimeSizedArray(x) => &x.result,
            ExpressionGE::InterfaceToInterfaceUpcast(x) => &x.result,
            ExpressionGE::UpcastInterface(x) => &x.result,
            ExpressionGE::UpcastGeneric(x) => &x.result,
            ExpressionGE::Destroy(x) => &x.result,
            ExpressionGE::CopyPrim(x) => &x.result,
            ExpressionGE::LocalLookup(x) => &x.result,
            ExpressionGE::StaticSizedArrayLookup(x) => &x.result,
            ExpressionGE::RuntimeSizedArrayLookup(x) => &x.result,
            ExpressionGE::MemberLookup(x) => &x.result,
            ExpressionGE::Deref(x) => &x.result,
        }
    }

    /// This node's source range (for a call, the outermost of the ranges it carries).
    pub fn range(&self) -> (r: RangeS)
        ensures r == range_of(*self),
    {
        match self {
            ExpressionGE::LetAndLend(x) => x.range,
            ExpressionGE::LockWeak(x) => x.range,
            ExpressionGE::BorrowToWeak(x) => x.range,
            ExpressionGE::LetNormal(x) => x.range,
            ExpressionGE::Unlet(x) => x.range,
            ExpressionGE::Discard(x) => x.range,
            ExpressionGE::If(x) => x.range,
            ExpressionGE::While(x) => x.range,
            ExpressionGE::Mutate(x) => x.range,
            ExpressionGE::Restackify(x) => x.range,
            ExpressionGE::Return(x) => x.range,
            ExpressionGE::Break(x) => x.range,
            ExpressionGE::Block(x) => x.range,
            ExpressionGE::Consecutor(x) => x.range,
            ExpressionGE::StaticArrayFromValues(x) => x.range,
            ExpressionGE::ArraySize(x) => x.range,
            ExpressionGE::IsSameInstance(x) => x.range,
            ExpressionGE::AsSubtype(x) => x.range,
            ExpressionGE::VoidLiteral(x) => x.range,
            ExpressionGE::ConstantInt(x) => x.range,
            ExpressionGE::ConstantBool(x) => x.range,
            ExpressionGE::ConstantStr(x) => x.range,
            ExpressionGE::ConstantFloat(x) => x.range,
            ExpressionGE::ArgLookup(x) => x.range,
            ExpressionGE::ArrayLength(x) => x.range,
            ExpressionGE::InterfaceFunctionCall(x) => x.range,
            ExpressionGE::ExternFunctionCall(x) => x.range,
            ExpressionGE::FunctionCall(x) => if x.parent_ranges.len() == 0 { x.range } else { x.parent_ranges[x.parent_ranges.len() - 1] },
            ExpressionGE::BoundFunctionCall(x) => x.range,
            ExpressionGE::Reinterpret(x) => x.range,
            ExpressionGE::Construct(x) => x.range,
            ExpressionGE::NewRuntimeSizedArray(x) => x.range,
            ExpressionGE::StaticArrayFromCallable(x) => x.range,
            ExpressionGE::DestroyStaticSizedArrayIntoFunction(x) => x.range,
            ExpressionGE::DestroyStaticSizedArrayIntoLocals(x) => x.range,
            ExpressionGE::DestroyRuntimeSizedArray(x) => x.range,
            ExpressionGE::RuntimeSizedArrayCapacity(x) => x.range,
            ExpressionGE::PushRuntimeSizedArray(x) => x.range,
            ExpressionGE::PopRuntimeSizedArray(x) => x.range,
            ExpressionGE::InterfaceToInterfaceUpcast(x) => x.range,
            ExpressionGE::UpcastInterface(x) => x.range,
            ExpressionGE::UpcastGeneric(x) => x.range,
            ExpressionGE::Destroy(x) => x.range,
            ExpressionGE::CopyPrim(x) => x.range,
            ExpressionGE::LocalLookup(x) => x.range,
            ExpressionGE::StaticSizedArrayLookup(x) => x.range,
            ExpressionGE::RuntimeSizedArrayLookup(x) => x.range,
            ExpressionGE::MemberLookup(x) => x.range,
            ExpressionGE::Deref(x) => x.range,
        }
    }
}

/// The kind of a node's value.
pub open spec fn result_of(e: ExpressionGE) -> KindGT {
    match e {
        ExpressionGE::LetAndLend(x) => x.result,
        ExpressionGE::LockWeak(x) => x.result,
        ExpressionGE::BorrowToWeak(x) => x.result,
        ExpressionGE::LetNormal(x) => x.result,
        ExpressionGE::Unlet(x) => x.result,
        ExpressionGE::Discard(x) => x.result,
        ExpressionGE::If(x) => x.result,
        ExpressionGE::While(x) => x.result,
        ExpressionGE::Mutate(x) => x.result,
        ExpressionGE::Restackify(x) => x.result,
        ExpressionGE::Return(x) => x.result,
        ExpressionGE::Break(x) => x.result,
        ExpressionGE::Block(x) => x.result,
        ExpressionGE::Consecutor(x) => x.result,
        ExpressionGE::StaticArrayFromValues(x) => x.result,
        ExpressionGE::ArraySize(x) => x.result,
        ExpressionGE::IsSameInstance(x) => x.result,
        ExpressionGE::AsSubtype(x) => x.result,
        ExpressionGE::VoidLiteral(x) => x.result,
        ExpressionGE::ConstantInt(x) => x.result,
        ExpressionGE::ConstantBool(x) => x.result,
        ExpressionGE::ConstantStr(x) => x.result,
        ExpressionGE::ConstantFloat(x) => x.result,
        ExpressionGE::ArgLookup(x) => x.result,
        ExpressionGE::ArrayLength(x) => x.result,
        ExpressionGE::InterfaceFunctionCall(x) => x.result,
        ExpressionGE::ExternFunctionCall(x) => x.result,
        ExpressionGE::FunctionCall(x) => x.result,
        ExpressionGE::BoundFunctionCall(x) => x.result,
        ExpressionGE::Reinterpret(x) => x.result,
        ExpressionGE::Construct(x) => x.result,
        ExpressionGE::NewRuntimeSizedArray(x) => x.result,
        ExpressionGE::StaticArrayFromCallable(x) => x.result,
        ExpressionGE::DestroyStaticSizedArrayIntoFunction(x) => x.result,
        ExpressionGE::DestroyStaticSizedArrayIntoLocals(x) => x.result,
        ExpressionGE::DestroyRuntimeSizedArray(x) => x.result,
        ExpressionGE::RuntimeSizedArrayCapacity(x) => x.result,
        ExpressionGE::PushRuntimeSizedArray(x) => x.result,
        ExpressionGE::PopRuntimeSizedArray(x) => x.result,
        ExpressionGE::InterfaceToInterfaceUpcast(x) => x.result,
        ExpressionGE::UpcastInterface(x) => x.result,
        ExpressionGE::UpcastGeneric(x) => x.result,
        ExpressionGE::Destroy(x) => x.result,
        ExpressionGE::CopyPrim(x) => x.result,
        ExpressionGE::LocalLookup(x) => x.result,
        ExpressionGE::StaticSizedArrayLookup(x) => x.result,
        ExpressionGE::RuntimeSizedArrayLookup(x) => x.result,
        ExpressionGE::MemberLookup(x) => x.result,
        ExpressionGE::Deref(x) => x.result,
    }
}

/// A node's source range (for a call, the outermost of the ranges it carries).
pub open spec fn range_of(e: ExpressionGE) -> RangeS {
    match e {
        ExpressionGE::LetAndLend(x) => x.range,
        ExpressionGE::LockWeak(x) => x.range,
        ExpressionGE::BorrowToWeak(x) => x.range,
        ExpressionGE::LetNormal(x) => x.range,
        ExpressionGE::Unlet(x) => x.range,
        ExpressionGE::Discard(x) => x.range,
        ExpressionGE::If(x) => x.range,
        ExpressionGE::While(x) => x.range,
        ExpressionGE::Mutate(x) => x.range,
        ExpressionGE::Restackify(x) => x.range,
        ExpressionGE::Return(x) => x.range,
        ExpressionGE::Break(x) => x.range,
        ExpressionGE::Block(x) => x.range,
        ExpressionGE::Consecutor(x) => x.range,
        ExpressionGE::StaticArrayFromValues(x) => x.range,
        ExpressionGE::ArraySize(x) => x.range,
        ExpressionGE::IsSameInstance(x) => x.range,
        ExpressionGE::AsSubtype(x) => x.range,
        ExpressionGE::VoidLiteral(x) => x.range,
        ExpressionGE::ConstantInt(x) => x.range,
        ExpressionGE::ConstantBool(x) => x.range,
        ExpressionGE::ConstantStr(x) => x.range,
        ExpressionGE::ConstantFloat(x) => x.range,
        ExpressionGE::ArgLookup(x) => x.range,
        ExpressionGE::ArrayLength(x) => x.range,
        ExpressionGE::InterfaceFunctionCall(x) => x.range,
        ExpressionGE::ExternFunctionCall(x) => x.range,
        ExpressionGE::FunctionCall(x) => if x.parent_ranges@.len() == 0 { x.range } else { x.parent_ranges@.last() },
        ExpressionGE::BoundFunctionCall(x) => x.range,
        ExpressionGE::Reinterpret(x) => x.range,
        ExpressionGE::Construct(x) => x.range,
        ExpressionGE::NewRuntimeSizedArray(x) => x.range,
        ExpressionGE::StaticArrayFromCallable(x) => x.range,
        ExpressionGE::DestroyStaticSizedArrayIntoFunction(x) => x.range,
        ExpressionGE::DestroyStaticSizedArrayIntoLocals(x) => x.range,
        ExpressionGE::DestroyRuntimeSizedArray(x) => x.range,
        ExpressionGE::RuntimeSizedArrayCapacity(x) => x.range,
        ExpressionGE::PushRuntimeSizedArray(x) => x.range,
        ExpressionGE::PopRuntimeSizedArray(x) => x.range,
        ExpressionGE::InterfaceToInterfaceUpcast(x) => x.range,
        ExpressionGE::UpcastInterface(x) => x.range,
        ExpressionGE::UpcastGeneric(x) => x.range,
        ExpressionGE::Destroy(x) => x.range,
        ExpressionGE::CopyPrim(x) => x.range,
        ExpressionGE::LocalLookup(x) => x.range,
        ExpressionGE::StaticSizedArrayLookup(x) => x.range,
        ExpressionGE::RuntimeSizedArrayLookup(x) => x.range,
        ExpressionGE::MemberLookup(x) => x.range,
        ExpressionGE::Deref(x) => x.range,
    }
}

/// Any node's own source range (a call's is the call itself).
pub open spec fn own_range(e: ExpressionGE) -> RangeS {
    match e {
        ExpressionGE::LetAndLend(x) => x.range,
        ExpressionGE::LockWeak(x) => x.range,
        ExpressionGE::BorrowToWeak(x) => x.range,
        ExpressionGE::LetNormal(x) => x.range,
        ExpressionGE::Unlet(x) => x.range,
        ExpressionGE::Discard(x) => x.range,
        ExpressionGE::If(x) => x.range,
        ExpressionGE::While(x) => x.range,
        ExpressionGE::Mutate(x) => x.range,
        ExpressionGE::Restackify(x) => x.range,
        ExpressionGE::Return(x) => x.range,
        ExpressionGE::Break(x) => x.range,
        ExpressionGE::Block(x) => x.range,
        ExpressionGE::Consecutor(x) => x.range,
        ExpressionGE::StaticArrayFromValues(x) => x.range,
        ExpressionGE::ArraySize(x) => x.range,
        ExpressionGE::IsSameInstance(x) => x.range,
        ExpressionGE::AsSubtype(x) => x.range,
        ExpressionGE::VoidLiteral(x) => x.range,
        ExpressionGE::ConstantInt(x) => x.range,
        ExpressionGE::ConstantBool(x) => x.range,
        ExpressionGE::ConstantStr(x) => x.range,
        ExpressionGE::ConstantFloat(x) => x.range,
        ExpressionGE::ArgLookup(x) => x.range,
        ExpressionGE::ArrayLength(x) => x.range,
        ExpressionGE::InterfaceFunctionCall(x) => x.range,
        ExpressionGE::ExternFunctionCall(x) => x.range,
        ExpressionGE::FunctionCall(x) => x.range,
        ExpressionGE::BoundFunctionCall(x) => x.range,
        ExpressionGE::Reinterpret(x) => x.range,
        ExpressionGE::Construct(x) => x.range,
        ExpressionGE::NewRuntimeSizedArray(x) => x.range,
        ExpressionGE::StaticArrayFromCallable(x) => x.range,
        ExpressionGE::DestroyStaticSizedArrayIntoFunction(x) => x.range,
        ExpressionGE::DestroyStaticSizedArrayIntoLocals(x) => x.range,
        ExpressionGE::DestroyRuntimeSizedArray(x) => x.range,
        ExpressionGE::RuntimeSizedArrayCapacity(x) => x.range,
        ExpressionGE::PushRuntimeSizedArray(x) => x.range,
        ExpressionGE::PopRuntimeSizedArray(x) => x.range,
        ExpressionGE::InterfaceToInterfaceUpcast(x) => x.range,
        ExpressionGE::UpcastInterface(x) => x.range,
        ExpressionGE::UpcastGeneric(x) => x.range,
        ExpressionGE::Destroy(x) => x.range,
        ExpressionGE::CopyPrim(x) => x.range,
        ExpressionGE::LocalLookup(x) => x.range,
        ExpressionGE::StaticSizedArrayLookup(x) => x.range,
        ExpressionGE::RuntimeSizedArrayLookup(x) => x.range,
        ExpressionGE::MemberLookup(x) => x.range,
        ExpressionGE::Deref(x) => x.range,
    }
}

/// Any node's own source range, for a diagnostic at that node (a call's is the call itself).
pub fn node_range(expr: &ExpressionGE) -> (r: RangeS)
    ensures r == own_range(*expr),
{
    match expr {
        ExpressionGE::LetAndLend(x) => x.range,
        ExpressionGE::LockWeak(x) => x.range,
        ExpressionGE::BorrowToWeak(x) => x.range,
        ExpressionGE::LetNormal(x) => x.range,
        ExpressionGE::Unlet(x) => x.range,
        ExpressionGE::Discard(x) => x.range,
        ExpressionGE::If(x) => x.range,
        ExpressionGE::While(x) => x.range,
        ExpressionGE::Mutate(x) => x.range,
        ExpressionGE::Restackify(x) => x.range,
        ExpressionGE::Return(x) => x.range,
        ExpressionGE::Break(x) => x.range,
        ExpressionGE::Block(x) => x.range,
        ExpressionGE::Consecutor(x) => x.range,
        ExpressionGE::StaticArrayFromValues(x) => x.range,
        ExpressionGE::ArraySize(x) => x.range,
        ExpressionGE::IsSameInstance(x) => x.range,
        ExpressionGE::AsSubtype(x) => x.range,
        ExpressionGE::VoidLiteral(x) => x.range,
        ExpressionGE::ConstantInt(x) => x.range,
        ExpressionGE::ConstantBool(x) => x.range,
        ExpressionGE::ConstantStr(x) => x.range,
        ExpressionGE::ConstantFloat(x) => x.range,
        ExpressionGE::ArgLookup(x) => x.range,
        ExpressionGE::ArrayLength(x) => x.range,
        ExpressionGE::InterfaceFunctionCall(x) => x.range,
        ExpressionGE::ExternFunctionCall(x) => x.range,
        ExpressionGE::FunctionCall(x) => x.range,
        ExpressionGE::BoundFunctionCall(x) => x.range,
        ExpressionGE::Reinterpret(x) => x.range,
        ExpressionGE::Construct(x) => x.range,
        ExpressionGE::NewRuntimeSizedArray(x) => x.range,
        ExpressionGE::StaticArrayFromCallable(x) => x.range,
        ExpressionGE::DestroyStaticSizedArrayIntoFunction(x) => x.range,
        ExpressionGE::DestroyStaticSizedArrayIntoLocals(x) => x.range,
        ExpressionGE::DestroyRuntimeSizedArray(x) => x.range,
        ExpressionGE::RuntimeSizedArrayCapacity(x) => x.range,
        ExpressionGE::PushRuntimeSizedArray(x) => x.range,
        ExpressionGE::PopRuntimeSizedArray(x) => x.range,
        ExpressionGE::InterfaceToInterfaceUpcast(x) => x.range,
        ExpressionGE::UpcastInterface(x) => x.range,
        ExpressionGE::UpcastGeneric(x) => x.range,
        ExpressionGE::Destroy(x) => x.range,
        ExpressionGE::CopyPrim(x) => x.range,
        ExpressionGE::LocalLookup(x) => x.range,
        ExpressionGE::StaticSizedArrayLookup(x) => x.range,
        ExpressionGE::RuntimeSizedArrayLookup(x) => x.range,
        ExpressionGE::MemberLookup(x) => x.range,
        ExpressionGE::Deref(x) => x.range,
    }
}


/// The number of nodes in a grouped tree.
pub open spec fn ge_size(e: ExpressionGE) -> nat
    decreases e, 1int, 0int,
{
    1 + kids_size(e, children_of(e).len() as int)
}

/// The number of nodes under the first `n` children of `e`.
pub open spec fn kids_size(e: ExpressionGE, n: int) -> nat
    decreases e, 0int, n,
{
    if n <= 0 || n > children_of(e).len() {
        0
    } else {
        proof { lemma_children_smaller(e); }
        kids_size(e, n - 1) + ge_size(children_of(e)[n - 1])
    }
}

/// A well-formed grouped tree: every `break` sits inside a loop, and every call argument that
/// borrows into a local's place names exactly one group path.
pub open spec fn ge_ok(e: ExpressionGE, in_loop: bool) -> bool
    decreases e, 1int, 0int,
{
    node_ok(e, in_loop) && kids_ok(e, if e is While { true } else { in_loop }, children_of(e).len() as int)
}

/// The first `n` children of `e` are well formed.
pub open spec fn kids_ok(e: ExpressionGE, in_loop: bool, n: int) -> bool
    decreases e, 0int, n,
{
    if n <= 0 || n > children_of(e).len() {
        true
    } else {
        proof { lemma_children_smaller(e); }
        kids_ok(e, in_loop, n - 1) && ge_ok(children_of(e)[n - 1], in_loop)
    }
}

/// The node itself is well formed.
pub open spec fn node_ok(e: ExpressionGE, in_loop: bool) -> bool {
    match e {
        ExpressionGE::Break(_) => in_loop,
        ExpressionGE::FunctionCall(c) => forall|i: int| 0 <= i < c.args@.len() ==> #[trigger] arg_group_single(c.args@[i]),
        _ => true,
    }
}

/// A call argument that is a borrow into a local's place has a single group path.
pub open spec fn arg_group_single(arg: ExpressionGE) -> bool {
    (place_root(arg) is Some && result_of(arg) is BorrowRef) ==> result_of(arg)->BorrowRef_0.group.group@.len() == 1
}

/// The innermost local a place expression is rooted in.
pub open spec fn place_root(e: ExpressionGE) -> Option<IVarNameT>
    decreases e,
{
    match e {
        ExpressionGE::LocalLookup(l) => Some(l.local_variable.name),
        ExpressionGE::RuntimeSizedArrayLookup(a) => place_root(*a.array_expr),
        ExpressionGE::StaticSizedArrayLookup(a) => place_root(*a.array_expr),
        ExpressionGE::MemberLookup(m) => place_root(*m.struct_expr),
        ExpressionGE::Deref(d) => place_root(*d.inner),
        _ => None,
    }
}

/// Facts about the sizes of the children of a node.
pub proof fn lemma_kids_size(e: ExpressionGE, n: int)
    requires 0 <= n <= children_of(e).len(),
    ensures
        kids_size(e, n) <= kids_size(e, children_of(e).len() as int),
        forall|i: int| 0 <= i < n ==> ge_size(#[trigger] children_of(e)[i]) >= 1,
    decreases children_of(e).len() - n,
{
    if n < children_of(e).len() {
        lemma_kids_size(e, n + 1);
    }
}

/// The first `n` children are well formed when all of them are.
pub proof fn lemma_kids_ok(e: ExpressionGE, in_loop: bool, n: int)
    requires 0 <= n <= children_of(e).len(), kids_ok(e, in_loop, children_of(e).len() as int),
    ensures
        kids_ok(e, in_loop, n),
        forall|i: int| 0 <= i < n ==> ge_ok(#[trigger] children_of(e)[i], in_loop),
    decreases children_of(e).len() - n,
{
    if n < children_of(e).len() {
        lemma_kids_ok(e, in_loop, n + 1);
    }
    if n > 0 {
        lemma_kids_ok_prefix(e, in_loop, n);
    }
}

proof fn lemma_kids_ok_prefix(e: ExpressionGE, in_loop: bool, n: int)
    requires 0 <= n <= children_of(e).len(), kids_ok(e, in_loop, n),
    ensures forall|i: int| 0 <= i < n ==> ge_ok(#[trigger] children_of(e)[i], in_loop),
    decreases n,
{
    if n > 0 {
        lemma_kids_ok_prefix(e, in_loop, n - 1);
    }
}


/// Whether a node or anything under it could report a violation: only a call (its churns and its
/// joint-argument facts) and a loop with churns in its body can.
pub open spec fn may_err(e: ExpressionGE) -> bool
    decreases e, 1int, 0int,
{
    node_may_err(e) || kids_may_err(e, children_of(e).len() as int)
}

pub open spec fn kids_may_err(e: ExpressionGE, n: int) -> bool
    decreases e, 0int, n,
{
    if n <= 0 || n > children_of(e).len() {
        false
    } else {
        proof { lemma_children_smaller(e); }
        kids_may_err(e, n - 1) || may_err(children_of(e)[n - 1])
    }
}

/// The node itself is a call, or a loop that churns.
pub open spec fn node_may_err(e: ExpressionGE) -> bool {
    match e {
        ExpressionGE::FunctionCall(_) => true,
        ExpressionGE::While(w) => w.mut_effects@.len() > 0,
        _ => false,
    }
}

pub proof fn lemma_kids_prefix(e: ExpressionGE, in_loop: bool, n: int)
    requires 0 <= n <= children_of(e).len(),
    ensures
        kids_ok(e, in_loop, n) ==> forall|i: int| 0 <= i < n ==> ge_ok(#[trigger] children_of(e)[i], in_loop),
        !kids_may_err(e, n) ==> forall|i: int| 0 <= i < n ==> !may_err(#[trigger] children_of(e)[i]),
        kids_size(e, n) >= n,
        forall|i: int| 0 <= i < n ==> 1 <= ge_size(#[trigger] children_of(e)[i]) <= kids_size(e, n),
    decreases n,
{
    if n > 0 {
        lemma_kids_prefix(e, in_loop, n - 1);
        assert(kids_size(e, n) == kids_size(e, n - 1) + ge_size(children_of(e)[n - 1]));
    }
}

/// What the walk needs to know of a node's children: their sizes add up to the node's, and a
/// well-formed (or quiet) node has well-formed (quiet) children.
pub proof fn lemma_node_kids(e: ExpressionGE, in_loop: bool)
    ensures
        ge_size(e) == 1 + kids_size(e, children_of(e).len() as int),
        kids_size(e, children_of(e).len() as int) >= children_of(e).len(),
        forall|i: int| 0 <= i < children_of(e).len() ==> 1 <= ge_size(#[trigger] children_of(e)[i]) <= kids_size(e, children_of(e).len() as int),
        ge_ok(e, in_loop) ==> forall|i: int| 0 <= i < children_of(e).len()
            ==> ge_ok(#[trigger] children_of(e)[i], if e is While { true } else { in_loop }),
        ge_ok(e, in_loop) ==> node_ok(e, in_loop),
        !may_err(e) ==> forall|i: int| 0 <= i < children_of(e).len() ==> !may_err(#[trigger] children_of(e)[i]),
        !may_err(e) ==> !node_may_err(e),
        children_of(e).len() == 1 ==> kids_size(e, 1) == ge_size(children_of(e)[0]),
        children_of(e).len() == 2 ==> kids_size(e, 2) == ge_size(children_of(e)[0]) + ge_size(children_of(e)[1]),
        children_of(e).len() == 3 ==> kids_size(e, 3) == ge_size(children_of(e)[0]) + ge_size(children_of(e)[1]) + ge_size(children_of(e)[2]),
{
    let n = children_of(e).len() as int;
    let il = if e is While { true } else { in_loop };
    lemma_kids_prefix(e, il, n);
    if n >= 1 {
        assert(kids_size(e, 1) == kids_size(e, 0) + ge_size(children_of(e)[0]));
    }
    if n >= 2 {
        assert(kids_size(e, 2) == kids_size(e, 1) + ge_size(children_of(e)[1]));
    }
    if n >= 3 {
        assert(kids_size(e, 3) == kids_size(e, 2) + ge_size(children_of(e)[2]));
    }
}

} // verus!
