use abi_cafe::error::CheckFailure;
use abi_cafe::harness::matrix::{minimized_failures, summarize, summary_failed, test_matrix, FinishedRun, Matrix};
use abi_cafe::harness::report::{TestCheckMode, TestConclusion, TestKey, TestRules, TestRunMode};
use abi_cafe::harness::test::{ArgSelector, CallingConvention, FunctionSelector, LangRepr, TestOptions, ValSelector, WriteImpl};
use abi_cafe::harness::vals::ValueGeneratorKind;

fn strings(v: &[&str]) -> Vec<String> {
    v.iter().map(|s| s.to_string()).collect()
}

fn matrix(toolchains: &[&str]) -> Matrix {
    Matrix {
        pairs: vec![
            ("rustc".to_owned(), "cc".to_owned()),
            ("cc".to_owned(), "rustc".to_owned()),
            ("clang".to_owned(), "gcc".to_owned()),
        ],
        toolchains: strings(toolchains),
        reprs: vec![LangRepr::C, LangRepr::Rust],
        generators: vec![ValueGeneratorKind::Graffiti],
        writers: vec![WriteImpl::HarnessCallback, WriteImpl::Print],
        selections: vec![FunctionSelector::All],
    }
}

#[test]
fn matrix_runs_every_selected_combination_in_order() {
    let keys = test_matrix(
        &strings(&["simple", "structs"]),
        &strings(&[]),
        &vec![CallingConvention::C, CallingConvention::Cdecl],
        &matrix(&[]),
    );
    // 2 tests x 2 conventions x 3 pairs x 2 reprs x 1 generator x 2 writers x 1 selection
    assert_eq!(keys.len(), 48);
    let first = &keys[0];
    assert_eq!((first.test.as_str(), first.caller.as_str(), first.callee.as_str()), ("simple", "rustc", "cc"));
    assert_eq!(first.options.convention, CallingConvention::C);
    assert_eq!(first.options.repr, LangRepr::C);
    assert_eq!(first.options.val_writer, WriteImpl::HarnessCallback);
    assert_eq!(keys[1].options.val_writer, WriteImpl::Print);
    assert_eq!(keys[2].options.repr, LangRepr::Rust);
    assert_eq!(keys[4].caller, "cc");
    assert_eq!(keys[12].options.convention, CallingConvention::Cdecl);
    assert_eq!(keys[24].test, "structs");
}

#[test]
fn matrix_filters_tests_and_toolchains() {
    let keys = test_matrix(
        &strings(&["simple", "structs"]),
        &strings(&["structs"]),
        &vec![CallingConvention::C],
        &matrix(&["gcc"]),
    );
    assert_eq!(keys.len(), 4);
    assert!(keys.iter().all(|k| k.test == "structs" && k.caller == "clang" && k.callee == "gcc"));
    let none = test_matrix(&strings(&["simple"]), &strings(&["other"]), &vec![CallingConvention::C], &matrix(&[]));
    assert!(none.is_empty());
    let rustc_only = test_matrix(&strings(&["simple"]), &strings(&[]), &vec![CallingConvention::C], &matrix(&["rustc"]));
    assert_eq!(rustc_only.len(), 8);
}

#[test]
fn summary_counts_each_conclusion() {
    let s = summarize(&vec![TestConclusion::Passed, TestConclusion::Failed, TestConclusion::Skipped, TestConclusion::Passed, TestConclusion::Busted]);
    assert_eq!((s.num_tests, s.num_passed, s.num_busted, s.num_failed, s.num_skipped), (5, 2, 1, 1, 1));
    assert!(summary_failed(&s));
    let ok = summarize(&vec![TestConclusion::Passed, TestConclusion::Busted]);
    assert!(!summary_failed(&ok));
    assert_eq!(summarize(&vec![]).num_tests, 0);
}

fn mismatch(func_idx: usize, arg_idx: usize, val_idx: usize) -> CheckFailure {
    CheckFailure::ValMismatch {
        func_idx,
        arg_idx,
        val_idx,
        func_name: String::new(),
        arg_name: String::new(),
        arg_kind: String::new(),
        arg_ty_name: String::new(),
        val_path: String::new(),
        val_ty_name: String::new(),
        expected: vec![],
        caller: vec![1],
        callee: vec![2],
    }
}

#[test]
fn each_failure_is_narrowed_to_its_value() {
    let key = |test: &str| TestKey {
        test: test.to_owned(),
        caller: "rustc".to_owned(),
        callee: "cc".to_owned(),
        options: TestOptions {
            convention: CallingConvention::C,
            functions: FunctionSelector::All,
            val_writer: WriteImpl::HarnessCallback,
            val_generator: ValueGeneratorKind::Graffiti,
            repr: LangRepr::C,
        },
    };
    let rules = TestRules { run: TestRunMode::Check, check: TestCheckMode::Pass(TestRunMode::Check) };
    let runs = vec![
        FinishedRun { key: key("a"), rules, checks: Some(vec![Ok(()), Err(mismatch(0, 1, 2))]) },
        FinishedRun { key: key("b"), rules, checks: None },
        FinishedRun { key: key("c"), rules, checks: Some(vec![Err(mismatch(3, 0, 0)), Err(mismatch(4, 5, 6))]) },
    ];
    let out = minimized_failures(&runs, WriteImpl::Print);
    assert_eq!(out.len(), 3);
    assert_eq!(out[0].0.test, "a");
    assert_eq!(
        out[0].0.options.functions,
        FunctionSelector::One { idx: 0, args: ArgSelector::One { idx: 1, vals: ValSelector::One { idx: 2 } } }
    );
    assert_eq!(out[0].0.options.val_writer, WriteImpl::Print);
    assert_eq!(out[0].1.run, TestRunMode::Generate);
    assert_eq!(out[1].0.test, "c");
    assert_eq!(
        out[2].0.options.functions,
        FunctionSelector::One { idx: 4, args: ArgSelector::One { idx: 5, vals: ValSelector::One { idx: 6 } } }
    );
}
