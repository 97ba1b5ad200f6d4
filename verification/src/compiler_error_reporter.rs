//! Compile errors, the places they point at, and their rendering as diagnostics.

use vstd::prelude::*;
use crate::interner::StrI;
use crate::names::{IRuneS, IVarNameT};
use crate::range::RangeS;
use crate::borrow_checker::ast_g::PrototypeT;
use crate::borrow_checker::borrow_error::BorrowErrorKind;
use crate::typing::types::{InterfaceTT, KindT, SharednessT};
use crate::interner::Interner;
use crate::text::{decimal, push_decimal};
use crate::borrow_checker::experimental::errors::{borrow_message, humanize_borrow_error};

verus! {

/// Why a resolved Rust item's signature has no Valen form.
#[derive(Clone, Copy, PartialEq, Eq, Structural, Debug)]
pub enum CouldNotPostparseReason {
    /// An integer width other than 32 and 64.
    IntWidth,
    /// An unsigned integer, which would silently become its signed counterpart.
    UnsignedInteger,
    /// A float, whose widths would intern identically.
    Float,
    /// An unsized type (`str`, `[T]`, `dyn Trait`).
    Unsized,
    /// A type reached only through this signature and never imported.
    UnimportedType,
    /// A projection such as `<I as Iterator>::Item`, which cannot be normalized without predicates.
    UnnormalizableAlias,
    /// A type parameter inherited from a parent impl.
    InheritedParameter,
    /// Two or more parameters share one lifetime.
    SharedParameterLifetime,
    /// A type kind with no Valen representation yet.
    Unrepresentable,
}

/// A copy of a list of ranges.
pub fn copy_ranges(ranges: &Vec<RangeS>) -> (r: Vec<RangeS>)
    ensures r@ == ranges@,
{
    let mut v: Vec<RangeS> = Vec::new();
    let mut i: usize = 0;
    while i < ranges.len()
        invariant
            i <= ranges@.len(),
            v@ == ranges@.subrange(0, i as int),
        decreases ranges@.len() - i,
    {
        v.push(ranges[i]);
        i = i + 1;
    }
    assert(ranges@.subrange(0, ranges@.len() as int) =~= ranges@);
    v
}

/// A compile error of the typing pass (and of the borrow checker that runs after it).
#[derive(Debug)]
pub enum ICompileErrorT {
    CouldntNarrowDownCandidates { range: Vec<RangeS>, candidates: Vec<PrototypeT> },
    CouldntSolveRuneTypesT { range: Vec<RangeS> },
    NotEnoughGenericArgs { range: Vec<RangeS> },
    ImplSubCitizenNotFound { range: Vec<RangeS>, name: StrI },
    ImplSuperInterfaceNotFound { range: Vec<RangeS>, name: StrI },
    ImmStructCantHaveVaryingMember { range: Vec<RangeS>, struct_name: StrI, member_name: StrI },
    ImmStructCantHaveMutableMember { range: Vec<RangeS>, struct_name: StrI, member_name: StrI },
    CantReconcileBranchesResults { range: Vec<RangeS>, then_result: KindT, else_result: KindT },
    IndexedArrayWithNonInteger { range: Vec<RangeS>, types: KindT },
    WrongNumberOfDestructuresError { range: Vec<RangeS>, actual_num: i32, expected_num: i32 },
    CantDowncastUnrelatedTypes { range: Vec<RangeS>, source_kind: KindT, target_kind: KindT },
    CantDowncastToInterface { range: Vec<RangeS>, target_kind: InterfaceTT },
    CantUseRuneValueAsExpression { range: Vec<RangeS>, rune: IRuneS },
    CouldntFindTypeT { range: Vec<RangeS>, name: StrI },
    TooManyTypesWithNameT { range: Vec<RangeS>, name: StrI },
    /// An import of a Rust item that resolves to nothing importable; `path` is the dotted path as written.
    UnresolvableRustImport { range: Vec<RangeS>, path: String },
    /// A resolved Rust item whose signature has no Valen form.
    CouldNotPostparseFunction { range: Vec<RangeS>, path: String, reason: CouldNotPostparseReason },
    ArrayElementsHaveDifferentTypes { range: Vec<RangeS>, types: Vec<KindT> },
    UnexpectedArrayElementType { range: Vec<RangeS>, expected_type: KindT, actual_type: KindT },
    InitializedWrongNumberOfElements { range: Vec<RangeS>, expected_num_elements: i32, num_elements_initialized: i32 },
    CannotSubscriptT { range: Vec<RangeS>, tyype: KindT },
    NonReadonlyReferenceFoundInPureFunctionParameter { range: Vec<RangeS>, param_name: IVarNameT },
    CouldntFindIdentifierToLoadT { range: Vec<RangeS>, name: StrI },
    CouldntFindMemberT { range: Vec<RangeS>, member_name: StrI },
    BodyResultDoesntMatch { range: Vec<RangeS>, function_name: StrI, expected_return_type: KindT, result_type: KindT },
    CouldntConvertForReturnT { range: Vec<RangeS>, expected_type: KindT, actual_type: KindT },
    CouldntConvertForMutateT { range: Vec<RangeS>, expected_type: KindT, actual_type: KindT },
    /// The two types are unrelated (one of them is not a citizen), so neither can be an upcast.
    CouldntConvertT { range: Vec<RangeS>, source_type: KindT, target_type: KindT },
    /// Both are citizens, but no impl makes the source a subtype of the target.
    CouldntUpcastT { range: Vec<RangeS>, source_type: KindT, target_type: KindT },
    CantMoveOutOfMemberT { range: Vec<RangeS>, name: IVarNameT },
    CouldntFindFunctionToCallT { range: Vec<RangeS> },
    CouldntEvaluateFunction { range: Vec<RangeS> },
    CouldntEvaluatImpl { range: Vec<RangeS> },
    CouldntEvaluateStruct { range: Vec<RangeS> },
    CouldntEvaluateInterface { range: Vec<RangeS> },
    CouldntFindOverrideT { range: Vec<RangeS> },
    ExportedFunctionDependedOnNonExportedKind { range: Vec<RangeS>, non_exported_kind: KindT },
    ExternFunctionDependedOnNonExportedKind { range: Vec<RangeS>, non_exported_kind: KindT },
    ExportedKindDependedOnNonExportedKind { range: Vec<RangeS>, exported_kind: KindT, non_exported_kind: KindT },
    TypeExportedMultipleTimes { range: Vec<RangeS> },
    CantUseUnstackifiedLocal { range: Vec<RangeS>, local_id: IVarNameT },
    CantUnstackifyOutsideLocalFromInsideWhile { range: Vec<RangeS>, local_id: IVarNameT },
    CantRestackifyOutsideLocalFromInsideWhile { range: Vec<RangeS>, local_id: IVarNameT },
    FunctionAlreadyExists { old_function_range: RangeS, new_function_range: RangeS },
    CantUseReadonlyReferenceAsReadwrite { range: Vec<RangeS> },
    LambdaReturnDoesntMatchInterfaceConstructor { range: Vec<RangeS> },
    ConditionIsntBoolean { range: Vec<RangeS>, actual_type: KindT },
    HigherTypingInferError { range: Vec<RangeS> },
    AbstractMethodOutsideOpenInterface { range: Vec<RangeS> },
    TypingPassSolverError { range: Vec<RangeS> },
    TypingPassResolvingError { range: Vec<RangeS> },
    TypingPassDefiningError { range: Vec<RangeS> },
    CantImplNonInterface { range: Vec<RangeS> },
    NonCitizenCantImpl { range: Vec<RangeS> },
    RangedInternalErrorT { range: Vec<RangeS>, message: StrI },
    /// One borrow-check violation and where it is reported.
    BorrowCheckError { range: RangeS, kind: BorrowErrorKind },
    /// Several borrow-check violations in one function, in source order (a single one is reported bare).
    BorrowCheckErrors { errors: Vec<ICompileErrorT> },
    SharedImplingMismatch { range: Vec<RangeS>, struct_shared: SharednessT, interface_shared: SharednessT },
    TookWeakRefOfNonWeakableError { range: Vec<RangeS> },
    NoImplicitCloneDefinedT { range: Vec<RangeS>, source_type: KindT, target_type: KindT },
    ImplicitCloneRejectedT { range: Vec<RangeS>, source_type: KindT, target_type: KindT },
}

/// The source ranges an error is reported at (several for a nested call).
pub open spec fn error_ranges(e: ICompileErrorT) -> Seq<RangeS>
    decreases e,
{
    match e {
        ICompileErrorT::CouldntNarrowDownCandidates { range, .. } => range@,
        ICompileErrorT::CouldntSolveRuneTypesT { range, .. } => range@,
        ICompileErrorT::NotEnoughGenericArgs { range, .. } => range@,
        ICompileErrorT::ImplSubCitizenNotFound { range, .. } => range@,
        ICompileErrorT::ImplSuperInterfaceNotFound { range, .. } => range@,
        ICompileErrorT::ImmStructCantHaveVaryingMember { range, .. } => range@,
        ICompileErrorT::ImmStructCantHaveMutableMember { range, .. } => range@,
        ICompileErrorT::CantReconcileBranchesResults { range, .. } => range@,
        ICompileErrorT::IndexedArrayWithNonInteger { range, .. } => range@,
        ICompileErrorT::WrongNumberOfDestructuresError { range, .. } => range@,
        ICompileErrorT::CantDowncastUnrelatedTypes { range, .. } => range@,
        ICompileErrorT::CantDowncastToInterface { range, .. } => range@,
        ICompileErrorT::CantUseRuneValueAsExpression { range, .. } => range@,
        ICompileErrorT::CouldntFindTypeT { range, .. } => range@,
        ICompileErrorT::TooManyTypesWithNameT { range, .. } => range@,
        ICompileErrorT::UnresolvableRustImport { range, .. } => range@,
        ICompileErrorT::CouldNotPostparseFunction { range, .. } => range@,
        ICompileErrorT::ArrayElementsHaveDifferentTypes { range, .. } => range@,
        ICompileErrorT::UnexpectedArrayElementType { range, .. } => range@,
        ICompileErrorT::InitializedWrongNumberOfElements { range, .. } => range@,
        ICompileErrorT::CannotSubscriptT { range, .. } => range@,
        ICompileErrorT::NonReadonlyReferenceFoundInPureFunctionParameter { range, .. } => range@,
        ICompileErrorT::CouldntFindIdentifierToLoadT { range, .. } => range@,
        ICompileErrorT::CouldntFindMemberT { range, .. } => range@,
        ICompileErrorT::BodyResultDoesntMatch { range, .. } => range@,
        ICompileErrorT::CouldntConvertForReturnT { range, .. } => range@,
        ICompileErrorT::CouldntConvertForMutateT { range, .. } => range@,
        ICompileErrorT::CouldntConvertT { range, .. } => range@,
        ICompileErrorT::CouldntUpcastT { range, .. } => range@,
        ICompileErrorT::CantMoveOutOfMemberT { range, .. } => range@,
        ICompileErrorT::CouldntFindFunctionToCallT { range, .. } => range@,
        ICompileErrorT::CouldntEvaluateFunction { range, .. } => range@,
        ICompileErrorT::CouldntEvaluatImpl { range, .. } => range@,
        ICompileErrorT::CouldntEvaluateStruct { range, .. } => range@,
        ICompileErrorT::CouldntEvaluateInterface { range, .. } => range@,
        ICompileErrorT::CouldntFindOverrideT { range, .. } => range@,
        ICompileErrorT::ExportedFunctionDependedOnNonExportedKind { range, .. } => range@,
        ICompileErrorT::ExternFunctionDependedOnNonExportedKind { range, .. } => range@,
        ICompileErrorT::ExportedKindDependedOnNonExportedKind { range, .. } => range@,
        ICompileErrorT::TypeExportedMultipleTimes { range, .. } => range@,
        ICompileErrorT::CantUseUnstackifiedLocal { range, .. } => range@,
        ICompileErrorT::CantUnstackifyOutsideLocalFromInsideWhile { range, .. } => range@,
        ICompileErrorT::CantRestackifyOutsideLocalFromInsideWhile { range, .. } => range@,
        ICompileErrorT::FunctionAlreadyExists { new_function_range, .. } => seq![new_function_range],
        ICompileErrorT::CantUseReadonlyReferenceAsReadwrite { range, .. } => range@,
        ICompileErrorT::LambdaReturnDoesntMatchInterfaceConstructor { range, .. } => range@,
        ICompileErrorT::ConditionIsntBoolean { range, .. } => range@,
        ICompileErrorT::HigherTypingInferError { range, .. } => range@,
        ICompileErrorT::AbstractMethodOutsideOpenInterface { range, .. } => range@,
        ICompileErrorT::TypingPassSolverError { range, .. } => range@,
        ICompileErrorT::TypingPassResolvingError { range, .. } => range@,
        ICompileErrorT::TypingPassDefiningError { range, .. } => range@,
        ICompileErrorT::CantImplNonInterface { range, .. } => range@,
        ICompileErrorT::NonCitizenCantImpl { range, .. } => range@,
        ICompileErrorT::RangedInternalErrorT { range, .. } => range@,
        ICompileErrorT::BorrowCheckError { range, .. } => seq![range],
        ICompileErrorT::BorrowCheckErrors { errors } => if errors@.len() == 0 { Seq::empty() } else { error_ranges(errors@[0]) },
        ICompileErrorT::SharedImplingMismatch { range, .. } => range@,
        ICompileErrorT::TookWeakRefOfNonWeakableError { range, .. } => range@,
        ICompileErrorT::NoImplicitCloneDefinedT { range, .. } => range@,
        ICompileErrorT::ImplicitCloneRejectedT { range, .. } => range@,
    }
}

impl ICompileErrorT {
    /// Extra places a diagnostic points at: where a spoiled borrow was invalidated.
    pub fn notes(&self) -> (r: Vec<(&'static str, RangeS)>)
        ensures
            match *self {
                ICompileErrorT::BorrowCheckError { kind: BorrowErrorKind::UseAfterChurn { churned_at, .. }, .. }
                | ICompileErrorT::BorrowCheckError { kind: BorrowErrorKind::UseAfterChurnTemporary { churned_at }, .. } =>
                    r@.len() == 1 && r@[0].0@ == "Invalidated"@ && r@[0].1 == churned_at,
                _ => r@.len() == 0,
            },
    {
        let mut v: Vec<(&'static str, RangeS)> = Vec::new();
        match self {
            ICompileErrorT::BorrowCheckError { kind: BorrowErrorKind::UseAfterChurn { churned_at, .. }, .. }
            | ICompileErrorT::BorrowCheckError { kind: BorrowErrorKind::UseAfterChurnTemporary { churned_at }, .. } => {
                v.push(("Invalidated", *churned_at));
            },
            _ => {},
        }
        v
    }

    /// The source ranges this error is reported at.
    pub fn range(&self) -> (r: Vec<RangeS>)
        ensures r@ == error_ranges(*self),
        decreases self,
    {
        match self {
            ICompileErrorT::CouldntNarrowDownCandidates { range, .. } => copy_ranges(range),
            ICompileErrorT::CouldntSolveRuneTypesT { range, .. } => copy_ranges(range),
            ICompileErrorT::NotEnoughGenericArgs { range, .. } => copy_ranges(range),
            ICompileErrorT::ImplSubCitizenNotFound { range, .. } => copy_ranges(range),
            ICompileErrorT::ImplSuperInterfaceNotFound { range, .. } => copy_ranges(range),
            ICompileErrorT::ImmStructCantHaveVaryingMember { range, .. } => copy_ranges(range),
            ICompileErrorT::ImmStructCantHaveMutableMember { range, .. } => copy_ranges(range),
            ICompileErrorT::CantReconcileBranchesResults { range, .. } => copy_ranges(range),
            ICompileErrorT::IndexedArrayWithNonInteger { range, .. } => copy_ranges(range),
            ICompileErrorT::WrongNumberOfDestructuresError { range, .. } => copy_ranges(range),
            ICompileErrorT::CantDowncastUnrelatedTypes { range, .. } => copy_ranges(range),
            ICompileErrorT::CantDowncastToInterface { range, .. } => copy_ranges(range),
            ICompileErrorT::CantUseRuneValueAsExpression { range, .. } => copy_ranges(range),
            ICompileErrorT::CouldntFindTypeT { range, .. } => copy_ranges(range),
            ICompileErrorT::TooManyTypesWithNameT { range, .. } => copy_ranges(range),
            ICompileErrorT::UnresolvableRustImport { range, .. } => copy_ranges(range),
            ICompileErrorT::CouldNotPostparseFunction { range, .. } => copy_ranges(range),
            ICompileErrorT::ArrayElementsHaveDifferentTypes { range, .. } => copy_ranges(range),
            ICompileErrorT::UnexpectedArrayElementType { range, .. } => copy_ranges(range),
            ICompileErrorT::InitializedWrongNumberOfElements { range, .. } => copy_ranges(range),
            ICompileErrorT::CannotSubscriptT { range, .. } => copy_ranges(range),
            ICompileErrorT::NonReadonlyReferenceFoundInPureFunctionParameter { range, .. } => copy_ranges(range),
            ICompileErrorT::CouldntFindIdentifierToLoadT { range, .. } => copy_ranges(range),
            ICompileErrorT::CouldntFindMemberT { range, .. } => copy_ranges(range),
            ICompileErrorT::BodyResultDoesntMatch { range, .. } => copy_ranges(range),
            ICompileErrorT::CouldntConvertForReturnT { range, .. } => copy_ranges(range),
            ICompileErrorT::CouldntConvertForMutateT { range, .. } => copy_ranges(range),
            ICompileErrorT::CouldntConvertT { range, .. } => copy_ranges(range),
            ICompileErrorT::CouldntUpcastT { range, .. } => copy_ranges(range),
            ICompileErrorT::CantMoveOutOfMemberT { range, .. } => copy_ranges(range),
            ICompileErrorT::CouldntFindFunctionToCallT { range, .. } => copy_ranges(range),
            ICompileErrorT::CouldntEvaluateFunction { range, .. } => copy_ranges(range),
            ICompileErrorT::CouldntEvaluatImpl { range, .. } => copy_ranges(range),
            ICompileErrorT::CouldntEvaluateStruct { range, .. } => copy_ranges(range),
            ICompileErrorT::CouldntEvaluateInterface { range, .. } => copy_ranges(range),
            ICompileErrorT::CouldntFindOverrideT { range, .. } => copy_ranges(range),
            ICompileErrorT::ExportedFunctionDependedOnNonExportedKind { range, .. } => copy_ranges(range),
            ICompileErrorT::ExternFunctionDependedOnNonExportedKind { range, .. } => copy_ranges(range),
            ICompileErrorT::ExportedKindDependedOnNonExportedKind { range, .. } => copy_ranges(range),
            ICompileErrorT::TypeExportedMultipleTimes { range, .. } => copy_ranges(range),
            ICompileErrorT::CantUseUnstackifiedLocal { range, .. } => copy_ranges(range),
            ICompileErrorT::CantUnstackifyOutsideLocalFromInsideWhile { range, .. } => copy_ranges(range),
            ICompileErrorT::CantRestackifyOutsideLocalFromInsideWhile { range, .. } => copy_ranges(range),
            ICompileErrorT::FunctionAlreadyExists { new_function_range, .. } => {
                let mut v: Vec<RangeS> = Vec::new();
                v.push(*new_function_range);
                v
            },
            ICompileErrorT::CantUseReadonlyReferenceAsReadwrite { range, .. } => copy_ranges(range),
            ICompileErrorT::LambdaReturnDoesntMatchInterfaceConstructor { range, .. } => copy_ranges(range),
            ICompileErrorT::ConditionIsntBoolean { range, .. } => copy_ranges(range),
            ICompileErrorT::HigherTypingInferError { range, .. } => copy_ranges(range),
            ICompileErrorT::AbstractMethodOutsideOpenInterface { range, .. } => copy_ranges(range),
            ICompileErrorT::TypingPassSolverError { range, .. } => copy_ranges(range),
            ICompileErrorT::TypingPassResolvingError { range, .. } => copy_ranges(range),
            ICompileErrorT::TypingPassDefiningError { range, .. } => copy_ranges(range),
            ICompileErrorT::CantImplNonInterface { range, .. } => copy_ranges(range),
            ICompileErrorT::NonCitizenCantImpl { range, .. } => copy_ranges(range),
            ICompileErrorT::RangedInternalErrorT { range, .. } => copy_ranges(range),
            ICompileErrorT::BorrowCheckError { range, .. } => {
                let mut v: Vec<RangeS> = Vec::new();
                v.push(*range);
                v
            },
            ICompileErrorT::BorrowCheckErrors { errors } => {
                if errors.len() == 0 {
                    Vec::new()
                } else {
                    proof {
                        assert(decreases_to!(*errors => errors@));
                        assert(decreases_to!(errors@ => errors@[0]));
                    }
                    errors[0].range()
                }
            },
            ICompileErrorT::SharedImplingMismatch { range, .. } => copy_ranges(range),
            ICompileErrorT::TookWeakRefOfNonWeakableError { range, .. } => copy_ranges(range),
            ICompileErrorT::NoImplicitCloneDefinedT { range, .. } => copy_ranges(range),
            ICompileErrorT::ImplicitCloneRejectedT { range, .. } => copy_ranges(range),
        }
    }
}

/// Where the line holding offset `off` starts.
pub open spec fn line_start(src: Seq<char>, off: int) -> int
    decreases off,
{
    if off <= 0 { 0 } else if src[off - 1] == '\n' { off } else { line_start(src, off - 1) }
}

/// The number, from 1, of the line holding offset `off`.
pub open spec fn line_number(src: Seq<char>, off: int) -> nat
    decreases off,
{
    if off <= 0 { 1 } else { line_number(src, off - 1) + (if src[off - 1] == '\n' { 1nat } else { 0nat }) }
}

/// Where the line holding offset `off` ends: at its newline, or at the end of the text.
pub open spec fn line_end(src: Seq<char>, off: int) -> int
    decreases src.len() - off,
{
    if off < 0 || off >= src.len() || src[off] == '\n' { off } else { line_end(src, off + 1) }
}

/// `file:line:column` of an offset, the column counted from 1.
pub open spec fn position_text(file: Seq<char>, src: Seq<char>, off: int) -> Seq<char> {
    file + ":"@ + decimal(line_number(src, off)) + ":"@ + decimal((off - line_start(src, off) + 1) as nat)
}

/// A position and, on the next line, the source line that holds it.
pub open spec fn located(file: Seq<char>, src: Seq<char>, off: int) -> Seq<char> {
    position_text(file, src, off) + ":\n"@ + src.subrange(line_start(src, off), line_end(src, off)) + "\n"@
}

/// A borrow-check diagnostic as the compiler prints it: where the violation is, its message, and
/// where the churn that caused it happened, if one did.
pub open spec fn rendered_borrow_error(interner: Interner, file: Seq<char>, src: Seq<char>, range: RangeS, kind: BorrowErrorKind) -> Seq<char> {
    "At "@ + located(file, src, range.begin.offset as int) + borrow_message(interner, kind) + "\n"@ + match kind {
        BorrowErrorKind::UseAfterChurn { churned_at, .. } => "Invalidated at "@ + located(file, src, churned_at.begin.offset as int),
        BorrowErrorKind::UseAfterChurnTemporary { churned_at } => "Invalidated at "@ + located(file, src, churned_at.begin.offset as int),
        _ => Seq::empty(),
    }
}

/// The offsets a borrow-check diagnostic shows lie in the source.
pub open spec fn renders_in(src: Seq<char>, range: RangeS, kind: BorrowErrorKind) -> bool {
    &&& 0 <= range.begin.offset <= src.len()
    &&& match kind {
        BorrowErrorKind::UseAfterChurn { churned_at, .. } => 0 <= churned_at.begin.offset <= src.len(),
        BorrowErrorKind::UseAfterChurnTemporary { churned_at } => 0 <= churned_at.begin.offset <= src.len(),
        _ => true,
    }
}

/// Append an offset's position and the source line that holds it.
fn push_located(file: &str, source: &str, off: usize, out: &mut String)
    requires off <= source@.len(), off <= i32::MAX,
    ensures final(out)@ == old(out)@ + located(file@, source@, off as int),
{
    let len = source.unicode_len();
    let mut line: usize = 1;
    let mut start: usize = 0;
    let mut i: usize = 0;
    while i < off
        invariant
            len == source@.len(),
            off <= len,
            off <= i32::MAX,
            i <= off,
            1 <= line <= i + 1,
            start <= i,
            line == line_number(source@, i as int),
            start == line_start(source@, i as int),
        decreases off - i,
    {
        if source.get_char(i) == '\n' {
            line = line + 1;
            start = i + 1;
        }
        i = i + 1;
    }
    let mut end: usize = off;
    while end < len && source.get_char(end) != '\n'
        invariant
            len == source@.len(),
            off <= end <= len,
            line_end(source@, off as int) == line_end(source@, end as int),
        decreases len - end,
    {
        end = end + 1;
    }
    out.append(file);
    out.append(":");
    push_decimal(out, line);
    out.append(":");
    push_decimal(out, off - start + 1);
    out.append(":\n");
    out.append(source.substring_char(start, end));
    out.append("\n");
    assert(out@ =~= old(out)@ + located(file@, source@, off as int));
}

/// Render a borrow-check diagnostic for a source file: `At file:line:col:`, the source line, the
/// message, and for a use after a churn, where the churn happened.
pub fn render_borrow_check_error(interner: &Interner, file: &str, source: &str, range: RangeS, kind: &BorrowErrorKind) -> (r: String)
    requires renders_in(source@, range, *kind),
    ensures r@ == rendered_borrow_error(*interner, file@, source@, range, *kind),
{
    let mut out = String::new();
    out.append("At ");
    push_located(file, source, range.begin.offset as usize, &mut out);
    let message = humanize_borrow_error(interner, range, kind);
    out.append(message.as_str());
    out.append("\n");
    match kind {
        BorrowErrorKind::UseAfterChurn { churned_at, .. } | BorrowErrorKind::UseAfterChurnTemporary { churned_at } => {
            out.append("Invalidated at ");
            push_located(file, source, churned_at.begin.offset as usize, &mut out);
        },
        _ => {},
    }
    assert(out@ =~= rendered_borrow_error(*interner, file@, source@, range, *kind));
    out
}

} // verus!
