// Ordering, de-duplicating and rendering diagnostics, and the group-path rules they report on.

use valen_borrowck::borrow_checker::ast_g::GroupStep;
use valen_borrowck::borrow_checker::borrow_error::BorrowErrorKind;
use valen_borrowck::borrow_checker::check_usages_types::RefKey;
use valen_borrowck::borrow_checker::experimental::check_usages::{dedup_same_use, sort_by_offset};
use valen_borrowck::borrow_checker::experimental::errors::humanize_borrow_error;
use valen_borrowck::borrow_checker::experimental::grouped_ast::{flatten, paths_alias, reaches, sole_path};
use valen_borrowck::borrow_checker::group_expr::{GroupChildStepG, GroupPathG, GroupRootG};
use valen_borrowck::borrow_checker::symphony::errors::humanize_borrow_error as symphony_humanize;
use valen_borrowck::compiler_error_reporter::{render_borrow_check_error, ICompileErrorT};
use valen_borrowck::interner::Interner;
use valen_borrowck::loc::path_le_exec;
use valen_borrowck::names::{IRuneS, IVarNameT};
use valen_borrowck::range::{CodeLocationS, RangeS};
use valen_borrowck::text::push_decimal;

fn rg(offset: i32) -> RangeS {
    RangeS { begin: CodeLocationS { file: 0, offset }, end: CodeLocationS { file: 0, offset: offset + 1 } }
}

fn bce(offset: i32, kind: BorrowErrorKind) -> ICompileErrorT {
    ICompileErrorT::BorrowCheckError { range: rg(offset), kind }
}

fn offset_of(e: &ICompileErrorT) -> i32 {
    match e {
        ICompileErrorT::BorrowCheckError { range, .. } => range.begin.offset,
        _ => i32::MAX,
    }
}

#[test]
fn errors_sort_by_offset_and_keep_their_order_at_one_offset() {
    let churn_a = rg(100);
    let churn_b = rg(200);
    let errors = vec![
        bce(50, BorrowErrorKind::UseAfterChurnTemporary { churned_at: churn_a }),
        bce(10, BorrowErrorKind::UndeclaredChurn),
        bce(50, BorrowErrorKind::UseAfterChurnTemporary { churned_at: churn_b }),
        ICompileErrorT::TookWeakRefOfNonWeakableError { range: vec![rg(1)] },
        bce(30, BorrowErrorKind::GrouplessReturnBorrow),
    ];
    let sorted = sort_by_offset(errors);
    let offsets: Vec<i32> = sorted.iter().map(offset_of).collect();
    assert_eq!(offsets, vec![10, 30, 50, 50, i32::MAX]);
    assert!(matches!(sorted[2], ICompileErrorT::BorrowCheckError { kind: BorrowErrorKind::UseAfterChurnTemporary { churned_at }, .. } if churned_at == churn_a));
    assert!(matches!(sorted[3], ICompileErrorT::BorrowCheckError { kind: BorrowErrorKind::UseAfterChurnTemporary { churned_at }, .. } if churned_at == churn_b));
    // The two reports of one use at 50 are cut to the first; other neighbors stay.
    let deduped = dedup_same_use(sorted);
    let offsets: Vec<i32> = deduped.iter().map(offset_of).collect();
    assert_eq!(offsets, vec![10, 30, 50, i32::MAX]);
    assert!(matches!(deduped[2], ICompileErrorT::BorrowCheckError { kind: BorrowErrorKind::UseAfterChurnTemporary { churned_at }, .. } if churned_at == churn_a));
}

#[test]
fn one_use_of_two_locals_is_two_reports() {
    let mut i = Interner::new();
    let x = IVarNameT::Local(i.intern("x"));
    let y = IVarNameT::Local(i.intern("y"));
    let errors = vec![
        bce(5, BorrowErrorKind::UseAfterChurn { local: RefKey::Named(x), churned_at: rg(1) }),
        bce(5, BorrowErrorKind::UseAfterChurn { local: RefKey::Named(y), churned_at: rg(1) }),
        bce(5, BorrowErrorKind::UseAfterChurn { local: RefKey::Named(y), churned_at: rg(2) }),
    ];
    assert_eq!(dedup_same_use(errors).len(), 2);
}

#[test]
fn every_violation_has_its_message() {
    let mut i = Interner::new();
    let hp = IVarNameT::Local(i.intern("hp"));
    let r = i.intern("r");
    let s = i.intern("s");
    let cases = vec![
        (BorrowErrorKind::AliasingIntoDisjointMutGroups { local: hp, arg_a: 0, arg_b: 12, group_a: r, group_b: s },
            "Arguments 0 and 12 both borrow into hp, but their parameters are in disjoint mutated groups r and s, which the callee may treat as non-aliasing."),
        (BorrowErrorKind::BorrowIntoMovedArgument { local: IVarNameT::SelfName, borrow_arg: 3, move_arg: 105 },
            "Argument 3 borrows into a local, but argument 105 moves it, so the borrow would dangle."),
        (BorrowErrorKind::UseAfterChurn { local: RefKey::Held(1), churned_at: rg(0) }, "Used a borrow after invalidated."),
        (BorrowErrorKind::UseAfterChurnTemporary { churned_at: rg(0) }, "Used a borrow after invalidated."),
        (BorrowErrorKind::GrouplessReturnBorrow,
            "This function returns a borrow reference with no group. Annotate the group it points into, like `&T in g`."),
        (BorrowErrorKind::UnderivableBorrowGroup,
            "The group of this borrow reference can't be determined from the expression that produces it."),
        (BorrowErrorKind::UndeclaredChurn,
            "this call churns a group reached through a parameter, but the enclosing function does not declare a mut effect for it."),
    ];
    for (kind, expected) in cases {
        assert_eq!(humanize_borrow_error(&i, rg(0), &kind), expected);
    }
    assert_eq!(symphony_humanize(rg(0), &BorrowErrorKind::UseAfterChurnTemporary { churned_at: rg(0) }), "Used a borrow after invalidated.");
}

#[test]
fn rendering_points_at_line_and_column() {
    let src = "\nfirst line\n  second(x);\nthird";
    let i = Interner::new();
    let use_at = RangeS { begin: CodeLocationS { file: 0, offset: 21 }, end: CodeLocationS { file: 0, offset: 22 } };
    let churn_at = RangeS { begin: CodeLocationS { file: 0, offset: 1 }, end: CodeLocationS { file: 0, offset: 6 } };
    let kind = BorrowErrorKind::UseAfterChurnTemporary { churned_at: churn_at };
    assert_eq!(
        render_borrow_check_error(&i, "f.vale", src, use_at, &kind),
        "At f.vale:3:10:\n  second(x);\nUsed a borrow after invalidated.\nInvalidated at f.vale:2:1:\nfirst line\n"
    );
    let last = RangeS { begin: CodeLocationS { file: 0, offset: 27 }, end: CodeLocationS { file: 0, offset: 28 } };
    assert_eq!(
        render_borrow_check_error(&i, "f.vale", src, last, &BorrowErrorKind::UndeclaredChurn),
        "At f.vale:4:3:\nthird\nthis call churns a group reached through a parameter, but the enclosing function does not declare a mut effect for it.\n"
    );
    let err = ICompileErrorT::BorrowCheckError { range: use_at, kind };
    let notes = err.notes();
    assert_eq!(notes.len(), 1);
    assert_eq!(notes[0].0, "Invalidated");
    assert_eq!(notes[0].1, churn_at);
    assert_eq!(err.range(), vec![use_at]);
    let several = ICompileErrorT::BorrowCheckErrors { errors: vec![err] };
    assert_eq!(several.range(), vec![use_at]);
    assert!(several.notes().is_empty());
}

#[test]
fn decimals_and_internal_ranges() {
    let mut s = String::new();
    push_decimal(&mut s, 0);
    s.push(' ');
    push_decimal(&mut s, 4096);
    s.push(' ');
    push_decimal(&mut s, 18446744073709551615);
    assert_eq!(s, "0 4096 18446744073709551615");
    let marker = RangeS::internal(-70090);
    assert_eq!(marker.begin.offset, -70090);
    assert_eq!(marker.begin.file, u32::MAX);
}

#[test]
fn location_paths_sort_lexicographically() {
    assert!(path_le_exec(&vec![0, 1], &vec![0, 2]));
    assert!(path_le_exec(&vec![0], &vec![0, 2]));
    assert!(!path_le_exec(&vec![0, 2], &vec![0]));
    assert!(path_le_exec(&vec![3, 4], &vec![3, 4]));
    assert!(!path_le_exec(&vec![1], &vec![0, 9]));
}

fn arr_path(steps: Vec<GroupChildStepG>, ellipsis: bool) -> GroupPathG {
    GroupPathG { root: GroupRootG::Local(IVarNameT::Local(valen_borrowck::interner::StrI(0))), steps, ellipsis }
}

#[test]
fn churns_reach_what_the_group_rules_say() {
    let arr = GroupStep::Local(IVarNameT::Local(valen_borrowck::interner::StrI(0)));
    let other = GroupStep::Local(IVarNameT::Local(valen_borrowck::interner::StrI(1)));
    let m = valen_borrowck::interner::StrI(2);
    let churn_arr = vec![arr];
    // A reference to the churned group itself survives; one to its elements dies.
    assert!(!reaches(&churn_arr, &arr_path(vec![], false)));
    assert!(reaches(&churn_arr, &arr_path(vec![GroupChildStepG::ChildElements {}], false)));
    // An inline member or inline element below the churned group survives.
    assert!(!reaches(&churn_arr, &arr_path(vec![GroupChildStepG::Member { member_name: m }], false)));
    assert!(!reaches(&churn_arr, &arr_path(vec![GroupChildStepG::InlineElements {}], false)));
    // An ellipsis reference dies to a churn at, above, or below its group.
    assert!(reaches(&churn_arr, &arr_path(vec![], true)));
    assert!(reaches(&vec![arr, GroupStep::ChildElements], &arr_path(vec![], true)));
    assert!(reaches(&churn_arr, &arr_path(vec![GroupChildStepG::ChildElements {}], true)));
    // A churn of another root reaches nothing here.
    assert!(!reaches(&vec![other], &arr_path(vec![GroupChildStepG::ChildElements {}], true)));
    // Aliasing is symmetric and reflexive.
    let a = vec![arr, GroupStep::Member { member_name: m }];
    assert!(paths_alias(&churn_arr, &a) && paths_alias(&a, &churn_arr));
    assert!(paths_alias(&a, &a));
    assert!(!paths_alias(&vec![other], &a));
    let p = arr_path(vec![GroupChildStepG::Member { member_name: m }, GroupChildStepG::ChildElements {}], false);
    assert_eq!(flatten(&p), vec![arr, GroupStep::Member { member_name: m }, GroupStep::ChildElements]);
    let group = vec![p];
    assert_eq!(sole_path(&group).steps.len(), 2);
    let _ = IRuneS::ImplicitRune(0);
}
