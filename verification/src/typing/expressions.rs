//! Typed expressions: what the typing pass builds from a postparsed body.

use vstd::prelude::*;
use crate::interner::StrI;
use crate::names::IVarNameT;
use crate::range::RangeS;
use crate::loc::LocT;
use crate::typing::types::{KindT, BorrowRefT, RuntimeSizedArrayTT, StaticSizedArrayTT};

verus! {

/// A local variable of a typed body, with the kind it holds.
#[derive(Debug)]
pub struct LocalVariableT {
    pub name: IVarNameT,
    pub tyype: KindT,
}

impl LocalVariableT {
    /// A copy of this local.
    pub fn copy(&self) -> (r: LocalVariableT)
        ensures r == *self,
    {
        LocalVariableT { name: self.name, tyype: self.tyype.copy() }
    }
}

/// A function a typed call invokes: its number, its name, its parameters' kinds and its return kind.
#[derive(Debug)]
pub struct PrototypeTT {
    pub id: u32,
    pub name: StrI,
    pub params: Vec<KindT>,
    pub return_type: KindT,
}

/// A copy of a list of kinds.
pub fn copy_kinds(kinds: &Vec<KindT>) -> (r: Vec<KindT>)
    ensures r@ == kinds@,
{
    let mut out: Vec<KindT> = Vec::new();
    let mut i: usize = 0;
    while i < kinds.len()
        invariant i <= kinds@.len(), out@ == kinds@.subrange(0, i as int),
        decreases kinds@.len() - i,
    {
        out.push(kinds[i].copy());
        i = i + 1;
    }
    assert(kinds@.subrange(0, kinds@.len() as int) =~= kinds@);
    out
}

impl PrototypeTT {
    /// A copy of this prototype.
    pub fn copy(&self) -> (r: PrototypeTT)
        ensures r.same(*self),
    {
        PrototypeTT { id: self.id, name: self.name, params: copy_kinds(&self.params), return_type: self.return_type.copy() }
    }

    /// The two prototypes name the same function with the same signature.
    pub open spec fn same(self, other: PrototypeTT) -> bool {
        self.id == other.id && self.name == other.name && self.params@ == other.params@ && self.return_type == other.return_type
    }
}

/// A typed expression.
#[derive(Debug)]
pub enum ExpressionTE {
    VoidLiteral { range: RangeS },
    ConstantInt { range: RangeS, value: i64, bits: i32 },
    /// The `index`th argument of the function.
    ArgLookup { range: RangeS, loct: LocT, index: u32, tyype: KindT },
    ConstantBool { range: RangeS, value: bool },
    /// A borrow of a local.
    LocalLookup { range: RangeS, loct: LocT, variable: LocalVariableT },
    /// A `&&T` decayed to a `&T`.
    Deref { range: RangeS, loct: LocT, inner: Box<ExpressionTE> },
    /// Move a local's value out, ending the local.
    Unlet { range: RangeS, variable: LocalVariableT },
    /// Bind a local to a value.
    LetNormal { range: RangeS, variable: LocalVariableT, expr: Box<ExpressionTE> },
    /// Bind a local to a value and lend it.
    LetAndLend { range: RangeS, loct: LocT, variable: LocalVariableT, expr: Box<ExpressionTE> },
    /// Evaluate a value and throw it away.
    Discard { range: RangeS, expr: Box<ExpressionTE> },
    Return { range: RangeS, expr: Box<ExpressionTE> },
    Block { range: RangeS, inner: Box<ExpressionTE> },
    /// Evaluate each in order; the last is the result.
    Consecutor { range: RangeS, exprs: Vec<ExpressionTE> },
    /// The same value, seen as another kind.
    Reinterpret { range: RangeS, expr: Box<ExpressionTE>, result: KindT },
    /// A weak reference from a borrow.
    BorrowToWeak { range: RangeS, expr: Box<ExpressionTE> },
    FunctionCall { loct: LocT, range: Vec<RangeS>, callable: PrototypeTT, args: Vec<ExpressionTE>, result: KindT },
    PopRuntimeSizedArray { range: RangeS, array_expr: Box<ExpressionTE>, element_type: KindT },
    NewRuntimeSizedArray { range: RangeS, array_type: RuntimeSizedArrayTT, capacity_expr: Box<ExpressionTE> },
    /// A copy of the primitive a reference points to.
    CopyPrim { range: RangeS, loct: LocT, expr: Box<ExpressionTE>, result: KindT },
    /// A value seen as an interface it implements, through the impl numbered `impl_id`.
    UpcastInterface { range: RangeS, expr: Box<ExpressionTE>, target_super: KindT, impl_id: u32 },
    /// A value seen as a placeholder bound by the impl numbered `impl_id`.
    UpcastGeneric { range: RangeS, expr: Box<ExpressionTE>, target_super: KindT, impl_id: u32 },
    /// An element of an inline array.
    StaticSizedArrayLookup { range: RangeS, loct: LocT, array_expr: Box<ExpressionTE>, index_expr: Box<ExpressionTE>, element_type: KindT },
    /// A struct's member, through a borrow of the struct; `result` is the typed member borrow.
    MemberLookup { range: RangeS, loct: LocT, struct_expr: Box<ExpressionTE>, member_name: IVarNameT, result: KindT },
    /// An element of a runtime-sized array, through a borrow of the array.
    RuntimeSizedArrayLookup { range: RangeS, loct: LocT, array_expr: Box<ExpressionTE>, index_expr: Box<ExpressionTE>, element_type: KindT },
    /// A conditional: the condition, then the branch taken.
    If { range: RangeS, loct: LocT, condition: Box<ExpressionTE>, then_call: Box<ExpressionTE>, else_call: Box<ExpressionTE>, result: KindT },
    /// A store into the place the destination borrows; the result is the value replaced.
    Mutate { range: RangeS, loct: LocT, destination_expr: Box<ExpressionTE>, source_expr: Box<ExpressionTE>, result: KindT },
    /// Puts a value back into a moved-out local.
    Restackify { range: RangeS, variable: LocalVariableT, source_expr: Box<ExpressionTE> },
    /// Leaves the innermost loop.
    Break { range: RangeS },
    /// A string literal.
    ConstantStr { range: RangeS, value: StrI },
    /// A runtime-sized array's length.
    ArrayLength { range: RangeS, array_expr: Box<ExpressionTE> },
    /// Constructs a struct from its members' values.
    Construct { range: RangeS, args: Vec<ExpressionTE>, result: KindT },
    /// A virtual call through an interface.
    InterfaceFunctionCall { range: RangeS, args: Vec<ExpressionTE>, result: KindT },
    /// A call into extern code.
    ExternFunctionCall { range: RangeS, args: Vec<ExpressionTE>, result: KindT },
    /// A call through a generic bound.
    BoundFunctionCall { range: RangeS, args: Vec<ExpressionTE>, result: KindT },
    /// Locks a weak reference into an optional borrow.
    LockWeak { range: RangeS, inner_expr: Box<ExpressionTE>, result: KindT },
    /// An inline array literal.
    StaticArrayFromValues { range: RangeS, elements: Vec<ExpressionTE>, result: KindT },
    /// An array's static size.
    ArraySize { range: RangeS, array: Box<ExpressionTE>, result: KindT },
    /// Whether two references point at one object.
    IsSameInstance { range: RangeS, left: Box<ExpressionTE>, right: Box<ExpressionTE>, result: KindT },
    /// A checked downcast, to an optional result of kind `result`.
    AsSubtype { range: RangeS, source_expr: Box<ExpressionTE>, result: KindT },
    /// A floating-point literal (its value is not modelled: only its range and kind are read).
    ConstantFloat { range: RangeS },
    /// Fills an inline array from a generator.
    StaticArrayFromCallable { range: RangeS, generator: Box<ExpressionTE>, result: KindT },
    /// Hands each element of an inline array to a consumer.
    DestroyStaticSizedArrayIntoFunction { range: RangeS, array_expr: Box<ExpressionTE>, consumer: Box<ExpressionTE> },
    /// Moves each element of an inline array into a local of its own.
    DestroyStaticSizedArrayIntoLocals {
        range: RangeS,
        expr: Box<ExpressionTE>,
        static_sized_array: StaticSizedArrayTT,
        destination_reference_variables: Vec<LocalVariableT>,
    },
    /// Destroys an empty runtime-sized array.
    DestroyRuntimeSizedArray { range: RangeS, array_expr: Box<ExpressionTE> },
    /// A runtime-sized array's capacity.
    RuntimeSizedArrayCapacity { range: RangeS, array_expr: Box<ExpressionTE>, result: KindT },
    /// Pushes onto a runtime-sized array.
    PushRuntimeSizedArray { range: RangeS, array_expr: Box<ExpressionTE>, new_element_expr: Box<ExpressionTE> },
    /// Upcasts an interface to a super-interface, to kind `result`.
    InterfaceToInterfaceUpcast { range: RangeS, inner_expr: Box<ExpressionTE>, result: KindT },
    /// Destructures a struct, moving each member into a local of its own, in member order.
    Destroy { range: RangeS, loct: LocT, expr: Box<ExpressionTE>, destination_reference_variables: Vec<LocalVariableT> },
    /// A loop whose body is the block at `block_range`.
    While { range: RangeS, loct: LocT, block_range: RangeS, body: Box<ExpressionTE>, result: KindT },
}

/// The kind a weak reference made from a value of kind `k` has.
pub open spec fn weak_of(k: KindT) -> KindT {
    match k {
        KindT::BorrowRef(b) => KindT::WeakRef(b),
        other => KindT::WeakRef(BorrowRefT { inner: Box::new(other) }),
    }
}

/// A kind with the citizen under its reference wrappers replaced by `c`, the wrappers kept.
pub open spec fn rewrap(k: KindT, c: KindT) -> KindT
    decreases k,
{
    match k {
        KindT::BorrowRef(b) => KindT::BorrowRef(BorrowRefT { inner: Box::new(rewrap(*b.inner, c)) }),
        KindT::WeakRef(b) => KindT::WeakRef(BorrowRefT { inner: Box::new(rewrap(*b.inner, c)) }),
        KindT::OwnRef(b) => KindT::OwnRef(BorrowRefT { inner: Box::new(rewrap(*b.inner, c)) }),
        KindT::ShareRef(b) => KindT::ShareRef(BorrowRefT { inner: Box::new(rewrap(*b.inner, c)) }),
        _ => c,
    }
}

/// A kind with the citizen under its reference wrappers replaced by `c`, the wrappers kept.
pub fn rewrap_exec(k: &KindT, c: &KindT) -> (r: KindT)
    ensures r == rewrap(*k, *c),
    decreases k,
{
    match k {
        KindT::BorrowRef(b) => KindT::BorrowRef(BorrowRefT { inner: Box::new(rewrap_exec(&b.inner, c)) }),
        KindT::WeakRef(b) => KindT::WeakRef(BorrowRefT { inner: Box::new(rewrap_exec(&b.inner, c)) }),
        KindT::OwnRef(b) => KindT::OwnRef(BorrowRefT { inner: Box::new(rewrap_exec(&b.inner, c)) }),
        KindT::ShareRef(b) => KindT::ShareRef(BorrowRefT { inner: Box::new(rewrap_exec(&b.inner, c)) }),
        _ => c.copy(),
    }
}

/// The kind a decay of a value of kind `k` has: one borrow taken off.
pub open spec fn deref_of(k: KindT) -> KindT {
    match k {
        KindT::BorrowRef(b) => *b.inner,
        other => other,
    }
}

/// The kind a typed expression evaluates to.
pub open spec fn result_of_te(e: ExpressionTE) -> KindT
    decreases e,
{
    match e {
        ExpressionTE::VoidLiteral { .. } => KindT::Void,
        ExpressionTE::ConstantInt { bits, .. } => KindT::Int { bits },
        ExpressionTE::ArgLookup { tyype, .. } => tyype,
        ExpressionTE::ConstantBool { .. } => KindT::Bool,
        ExpressionTE::LocalLookup { variable, .. } => KindT::BorrowRef(BorrowRefT { inner: Box::new(variable.tyype) }),
        ExpressionTE::Deref { inner, .. } => deref_of(result_of_te(*inner)),
        ExpressionTE::Unlet { variable, .. } => variable.tyype,
        ExpressionTE::LetNormal { .. } => KindT::Void,
        ExpressionTE::LetAndLend { variable, .. } => KindT::BorrowRef(BorrowRefT { inner: Box::new(variable.tyype) }),
        ExpressionTE::Discard { .. } => KindT::Void,
        ExpressionTE::Return { .. } => KindT::Never,
        ExpressionTE::Block { inner, .. } => result_of_te(*inner),
        ExpressionTE::Consecutor { exprs, .. } => if exprs@.len() == 0 {
            KindT::Void
        } else {
            proof { assert(decreases_to!(exprs => exprs@)); }
            result_of_te(exprs@.last())
        },
        ExpressionTE::Reinterpret { result, .. } => result,
        ExpressionTE::BorrowToWeak { expr, .. } => weak_of(result_of_te(*expr)),
        ExpressionTE::FunctionCall { result, .. } => result,
        ExpressionTE::PopRuntimeSizedArray { element_type, .. } => element_type,
        ExpressionTE::NewRuntimeSizedArray { array_type, .. } => KindT::RuntimeSizedArray(array_type),
        ExpressionTE::StaticSizedArrayLookup { element_type, .. } => element_type,
        ExpressionTE::CopyPrim { result, .. } => result,
        ExpressionTE::UpcastInterface { expr, target_super, .. } => rewrap(result_of_te(*expr), target_super),
        ExpressionTE::UpcastGeneric { expr, target_super, .. } => rewrap(result_of_te(*expr), target_super),
        ExpressionTE::MemberLookup { result, .. } => result,
        ExpressionTE::RuntimeSizedArrayLookup { element_type, .. } => element_type,
        ExpressionTE::If { result, .. } => result,
        ExpressionTE::Mutate { result, .. } => result,
        ExpressionTE::Restackify { .. } => KindT::Void,
        ExpressionTE::Break { .. } => KindT::Never,
        ExpressionTE::ConstantStr { .. } => KindT::ShareRef(BorrowRefT { inner: Box::new(KindT::Str) }),
        ExpressionTE::ArrayLength { .. } => KindT::Int { bits: 32 },
        ExpressionTE::Construct { result, .. } => result,
        ExpressionTE::InterfaceFunctionCall { result, .. } => result,
        ExpressionTE::ExternFunctionCall { result, .. } => result,
        ExpressionTE::BoundFunctionCall { result, .. } => result,
        ExpressionTE::LockWeak { result, .. } => result,
        ExpressionTE::StaticArrayFromValues { result, .. } => result,
        ExpressionTE::ArraySize { result, .. } => result,
        ExpressionTE::IsSameInstance { result, .. } => result,
        ExpressionTE::AsSubtype { result, .. } => result,
        ExpressionTE::ConstantFloat { .. } => KindT::Float,
        ExpressionTE::StaticArrayFromCallable { result, .. } => result,
        ExpressionTE::DestroyStaticSizedArrayIntoFunction { .. } => KindT::Void,
        ExpressionTE::DestroyStaticSizedArrayIntoLocals { .. } => KindT::Void,
        ExpressionTE::DestroyRuntimeSizedArray { .. } => KindT::Void,
        ExpressionTE::RuntimeSizedArrayCapacity { result, .. } => result,
        ExpressionTE::PushRuntimeSizedArray { .. } => KindT::Void,
        ExpressionTE::InterfaceToInterfaceUpcast { result, .. } => result,
        ExpressionTE::Destroy { .. } => KindT::Void,
        ExpressionTE::While { result, .. } => result,
    }
}

impl ExpressionTE {
    /// The kind this expression evaluates to.
    pub fn result(&self) -> (r: KindT)
        ensures r == result_of_te(*self),
        decreases self,
    {
        match self {
            ExpressionTE::VoidLiteral { .. } => KindT::Void,
            ExpressionTE::ConstantInt { bits, .. } => KindT::Int { bits: *bits },
            ExpressionTE::ArgLookup { tyype, .. } => tyype.copy(),
            ExpressionTE::ConstantBool { .. } => KindT::Bool,
            ExpressionTE::LocalLookup { variable, .. } => KindT::BorrowRef(BorrowRefT { inner: Box::new(variable.tyype.copy()) }),
            ExpressionTE::Deref { inner, .. } => match inner.result() {
                KindT::BorrowRef(b) => *b.inner,
                other => other,
            },
            ExpressionTE::Unlet { variable, .. } => variable.tyype.copy(),
            ExpressionTE::LetNormal { .. } => KindT::Void,
            ExpressionTE::LetAndLend { variable, .. } => KindT::BorrowRef(BorrowRefT { inner: Box::new(variable.tyype.copy()) }),
            ExpressionTE::Discard { .. } => KindT::Void,
            ExpressionTE::Return { .. } => KindT::Never,
            ExpressionTE::Block { inner, .. } => inner.result(),
            ExpressionTE::Consecutor { exprs, .. } => {
                if exprs.len() == 0 {
                    KindT::Void
                } else {
                    proof {
                        assert(decreases_to!(*exprs => exprs@));
                        assert(decreases_to!(exprs@ => exprs@[exprs@.len() - 1]));
                    }
                    exprs[exprs.len() - 1].result()
                }
            },
            ExpressionTE::Reinterpret { result, .. } => result.copy(),
            ExpressionTE::BorrowToWeak { expr, .. } => match expr.result() {
                KindT::BorrowRef(b) => KindT::WeakRef(b),
                other => KindT::WeakRef(BorrowRefT { inner: Box::new(other) }),
            },
            ExpressionTE::FunctionCall { result, .. } => result.copy(),
            ExpressionTE::PopRuntimeSizedArray { element_type, .. } => element_type.copy(),
            ExpressionTE::NewRuntimeSizedArray { array_type, .. } => KindT::RuntimeSizedArray(
                RuntimeSizedArrayTT { element_type: Box::new(array_type.element_type.copy()) },
            ),
            ExpressionTE::StaticSizedArrayLookup { element_type, .. } => element_type.copy(),
            ExpressionTE::CopyPrim { result, .. } => result.copy(),
            ExpressionTE::UpcastInterface { expr, target_super, .. } => rewrap_exec(&expr.result(), target_super),
            ExpressionTE::UpcastGeneric { expr, target_super, .. } => rewrap_exec(&expr.result(), target_super),
            ExpressionTE::MemberLookup { result, .. } => result.copy(),
            ExpressionTE::RuntimeSizedArrayLookup { element_type, .. } => element_type.copy(),
            ExpressionTE::If { result, .. } => result.copy(),
            ExpressionTE::Mutate { result, .. } => result.copy(),
            ExpressionTE::Restackify { .. } => KindT::Void,
            ExpressionTE::Break { .. } => KindT::Never,
            ExpressionTE::ConstantStr { .. } => KindT::ShareRef(BorrowRefT { inner: Box::new(KindT::Str) }),
            ExpressionTE::ArrayLength { .. } => KindT::Int { bits: 32 },
            ExpressionTE::Construct { result, .. } => result.copy(),
            ExpressionTE::InterfaceFunctionCall { result, .. } => result.copy(),
            ExpressionTE::ExternFunctionCall { result, .. } => result.copy(),
            ExpressionTE::BoundFunctionCall { result, .. } => result.copy(),
            ExpressionTE::LockWeak { result, .. } => result.copy(),
            ExpressionTE::StaticArrayFromValues { result, .. } => result.copy(),
            ExpressionTE::ArraySize { result, .. } => result.copy(),
            ExpressionTE::IsSameInstance { result, .. } => result.copy(),
            ExpressionTE::AsSubtype { result, .. } => result.copy(),
            ExpressionTE::ConstantFloat { .. } => KindT::Float,
            ExpressionTE::StaticArrayFromCallable { result, .. } => result.copy(),
            ExpressionTE::DestroyStaticSizedArrayIntoFunction { .. } => KindT::Void,
            ExpressionTE::DestroyStaticSizedArrayIntoLocals { .. } => KindT::Void,
            ExpressionTE::DestroyRuntimeSizedArray { .. } => KindT::Void,
            ExpressionTE::RuntimeSizedArrayCapacity { result, .. } => result.copy(),
            ExpressionTE::PushRuntimeSizedArray { .. } => KindT::Void,
            ExpressionTE::InterfaceToInterfaceUpcast { result, .. } => result.copy(),
            ExpressionTE::Destroy { .. } => KindT::Void,
            ExpressionTE::While { result, .. } => result.copy(),
        }
    }
}

} // verus!
