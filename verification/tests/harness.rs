use abi_cafe::compiler::Compiler;
use abi_cafe::error::{CheckFailure, CliParseError};
use abi_cafe::harness::report::{minimized_tests, report_details, report_order, subtests_passed};
use abi_cafe::harness::report::{
    get_test_rules, next_step, record_step, report_test, success_at_step, StepOutcomes, TestCheckMode, TestConclusion, TestKey,
    TestKeyPattern, TestOptionsPattern, TestRules, TestRulesPattern, TestRunMode,
};
use abi_cafe::harness::report::{base_id, full_subtest_name, full_test_name, failed_step, rules_from_files, summary_line, verdict, ExpectFile, ReportColor, TestSummary};
use abi_cafe::harness::run::{RunError, TestBuffer};
use abi_cafe::session::OutputFormat;
use abi_cafe::harness::test::{
    ArgSelector, CallSide, CallingConvention, FunctionSelector, LangRepr, TestOptions, ValSelector, WriteImpl,
};
use abi_cafe::harness::vals::{select_at, ValueGenerator, ValueGeneratorKind, ValueTree};
use abi_cafe::abis::GenerateError;

fn options() -> TestOptions {
    TestOptions {
        convention: CallingConvention::C,
        functions: FunctionSelector::All,
        val_writer: WriteImpl::HarnessCallback,
        val_generator: ValueGeneratorKind::Graffiti,
        repr: LangRepr::C,
    }
}

fn key(test: &str, caller: &str, callee: &str) -> TestKey {
    TestKey { test: test.to_owned(), caller: caller.to_owned(), callee: callee.to_owned(), options: options() }
}

fn any_pattern() -> TestKeyPattern {
    TestKeyPattern {
        test: None,
        caller: None,
        callee: None,
        toolchain: None,
        options: TestOptionsPattern { convention: None, val_generator: None, repr: None },
    }
}

#[test]
fn convention_names_read_back() {
    let all = [
        CallingConvention::C,
        CallingConvention::Rust,
        CallingConvention::Cdecl,
        CallingConvention::System,
        CallingConvention::Win64,
        CallingConvention::Sysv64,
        CallingConvention::Aapcs,
        CallingConvention::Stdcall,
        CallingConvention::Fastcall,
        CallingConvention::Vectorcall,
    ];
    for c in all {
        assert_eq!(CallingConvention::from_str(c.name()), Ok(c));
    }
    assert_eq!(CallingConvention::Sysv64.name(), "sysv64");
}

#[test]
fn convention_unknown_name() {
    assert_eq!(
        CallingConvention::from_str("pascal"),
        Err("unknown CallingConvention: pascal".to_owned())
    );
}

#[test]
fn write_impl_names() {
    assert_eq!(WriteImpl::from_str("harness").unwrap(), WriteImpl::HarnessCallback);
    assert_eq!(WriteImpl::from_str("noop").unwrap(), WriteImpl::Noop);
    assert_eq!(WriteImpl::Print.name(), "print");
    match WriteImpl::from_str("loud") {
        Err(CliParseError::Other(m)) => assert_eq!(m, "loud is not a write impl"),
        Ok(_) => panic!("accepted an unknown write impl"),
    }
}

#[test]
fn call_side_names() {
    assert_eq!(CallSide::Caller.name(), "caller");
    assert_eq!(CallSide::Callee.name(), "callee");
}

#[test]
fn selectors_pick_values() {
    let s = FunctionSelector::One { idx: 2, args: ArgSelector::One { idx: 1, vals: ValSelector::One { idx: 3 } } };
    assert!(s.should_write_arg(2, 1));
    assert!(!s.should_write_arg(2, 0));
    assert!(!s.should_write_arg(1, 1));
    assert!(s.should_write_val(2, 1, 3));
    assert!(!s.should_write_val(2, 1, 2));
    assert!(!s.should_write_val(2, 0, 3));
    let all = FunctionSelector::All;
    assert!(all.should_write_arg(7, 9));
    assert!(all.should_write_val(7, 9, 11));
    let func_only = FunctionSelector::One { idx: 0, args: ArgSelector::All };
    assert!(func_only.should_write_val(0, 5, 6));
    assert!(!func_only.should_write_val(1, 5, 6));
}

#[test]
fn graffiti_bytes() {
    let g = ValueGenerator::Graffiti { idx: 3 };
    let mut buf = [0u8; 18];
    g.fill_bytes(&mut buf);
    assert_eq!(&buf[..4], &[0x30, 0x31, 0x32, 0x33]);
    assert_eq!(buf[15], 0x3f);
    assert_eq!(buf[16], 0x30);
    assert_eq!(g.generate_u8(), 0x30);
    assert_eq!(g.generate_u16(), 0x3130);
    assert_eq!(g.generate_u32(), 0x33323130);
    assert_eq!(g.generate_u64(), 0x3736353433323130);
    assert_eq!(g.generate_i8(), 0x30);
    let big = ValueGenerator::Graffiti { idx: 0x1f };
    assert_eq!(big.generate_u8(), 0xf0);
    assert_eq!(big.generate_i8(), -16);
}

#[test]
fn random_bytes_repeat_for_a_seed() {
    let a = ValueGenerator::Random { seed: 42 };
    let b = ValueGenerator::Random { seed: 42 };
    assert_eq!(a.generate_u128(), b.generate_u128());
    let mut x = [0u8; 5];
    a.fill_bytes(&mut x);
    assert_eq!(x.len(), 5);
    let mut y = [0u8; 5];
    b.fill_bytes(&mut y);
    assert_eq!(x, y);
    let mut z = [0u8; 5];
    ValueGenerator::Random { seed: 43 }.fill_bytes(&mut z);
    assert_ne!(x, z);
    assert_ne!(x, [0u8; 5]);
}

#[test]
fn generated_indices_in_range() {
    let g = ValueGenerator::Graffiti { idx: 9 };
    assert_eq!(g.generate_idx(0), 0);
    for len in 1..20 {
        assert!(g.generate_idx(len) < len);
    }
    let empty: [u32; 0] = [];
    assert!(g.select_val(&empty).is_none());
    let opts = [10, 20, 30];
    let picked = *g.select_val(&opts).unwrap();
    assert!(opts.contains(&picked));
    assert_eq!(picked, opts[g.generate_idx(3)]);
    assert_eq!(select_at(&opts, 2), Some(&30));
    assert_eq!(select_at(&opts, 3), None);
    assert_eq!(select_at(&empty, 0), None);
}

#[test]
fn value_tree_numbers_graffiti() {
    let program = r##"
        struct "Point" {
            x "u32"
            y "u64"
        }
        fn "move" {
            inputs { p "Point"; d "[u8; 2]"; }
            outputs { r "bool"; }
        }
    "##;
    let mut compiler = Compiler::new();
    let typed = compiler.compile_string("test.kdl", program.to_owned()).unwrap();
    let tree = ValueTree::new(&typed, ValueGeneratorKind::Graffiti).unwrap();
    assert_eq!(tree.funcs.len(), 1);
    let f = &tree.funcs[0];
    assert_eq!(f.func_name, "move");
    assert_eq!(f.args.len(), 3);
    assert_eq!(f.args[0].arg_name, "p");
    assert!(f.args[0].is_input);
    assert!(!f.args[2].is_input);
    let paths: Vec<&str> = f.args.iter().flat_map(|a| a.vals.iter().map(|v| v.path.as_str())).collect();
    assert_eq!(paths, vec!["p.x", "p.y", "d[0]", "d[1]", "r"]);
    let idxs: Vec<u64> = f
        .args
        .iter()
        .flat_map(|a| a.vals.iter())
        .map(|v| match v.val {
            ValueGenerator::Graffiti { idx } => idx,
            ValueGenerator::Random { .. } => panic!("graffiti tree made a random value"),
        })
        .collect();
    assert_eq!(idxs, vec![0, 1, 2, 3, 4]);
}

#[test]
fn value_tree_walks_values() {
    let program = r##"
        fn "pair" {
            inputs { a "u8"; b "u16"; }
        }
    "##;
    let mut compiler = Compiler::new();
    let typed = compiler.compile_string("test.kdl", program.to_owned()).unwrap();
    let tree = ValueTree::new(&typed, ValueGeneratorKind::Random { seed: 7 }).unwrap();
    let mut func = tree.at_func(0);
    let mut first = func.next_arg();
    assert_eq!(first.arg().arg_name, "a");
    let v = first.next_val();
    assert_eq!(v.value().path, "a");
    assert!(matches!(v.value().val, ValueGenerator::Random { .. }));
    let mut second = func.next_arg();
    assert_eq!(second.arg_idx, 1);
    assert_eq!(second.next_val().value().path, "b");
    assert!(second.should_write_arg(&options()));
}

#[test]
fn value_tree_unions_get_tags() {
    let program = r##"
        union "Either" {
            a "u32"
            b "u64"
        }
        fn "take" {
            inputs { e "Either"; }
        }
    "##;
    let mut compiler = Compiler::new();
    let typed = compiler.compile_string("test.kdl", program.to_owned()).unwrap();
    let tree = ValueTree::new(&typed, ValueGeneratorKind::Graffiti).unwrap();
    let vals = &tree.funcs[0].args[0].vals;
    assert_eq!(vals.len(), 2);
    assert_eq!(vals[0].path, "e");
    assert!(vals[1].path == "e.a" || vals[1].path == "e.b");
}

#[test]
fn value_tree_refuses_uneven_puns() {
    let program = r##"
        pun "Uneven" {
            lang "rust" {
                alias "Uneven" "u8"
            }
            default {
                alias "Uneven" "[u8; 2]"
            }
        }
        fn "take" {
            inputs { u "Uneven"; }
        }
    "##;
    let mut compiler = Compiler::new();
    let typed = compiler.compile_string("test.kdl", program.to_owned()).unwrap();
    match ValueTree::new(&typed, ValueGeneratorKind::Graffiti) {
        Err(GenerateError::MismatchedPunVals { pun, block1, block1_val_count, block2, block2_val_count }) => {
            assert_eq!(pun, "Uneven");
            assert_eq!(block1, "Uneven");
            assert_eq!(block2, "Uneven");
            assert_eq!(block1_val_count, 1);
            assert_eq!(block2_val_count, 2);
        }
        other => panic!("expected a pun mismatch, got {:?}", other.map(|_| ())),
    }
}

#[test]
fn test_buffer_records_writes() {
    let mut buf = TestBuffer::new();
    buf.set_func(1);
    buf.write_val(0, &[1, 2, 3]);
    buf.write_val(2, &[4]);
    assert!(buf.finish_tests().is_ok());
    buf.write_val(2, &[5]);
    assert!(matches!(buf.finish_tests(), Err(RunError::DoubleWrite { func: 1, val: 2 })));
}

#[test]
fn test_buffer_needs_a_function() {
    let mut buf = TestBuffer::new();
    buf.write_val(0, &[1]);
    assert!(matches!(buf.finish_tests(), Err(RunError::MissingSetFunc)));
}

#[test]
fn rules_follow_matching_patterns() {
    let k = key("opaque_example", "rustc", "cc");
    let mut busted = any_pattern();
    busted.toolchain = Some("cc".to_owned());
    let mut other = any_pattern();
    other.test = Some("something_else".to_owned());
    let patterns = vec![
        (busted, TestRulesPattern { run: None, check: Some(TestCheckMode::Busted(TestRunMode::Check)) }),
        (other, TestRulesPattern { run: Some(TestRunMode::Skip), check: None }),
    ];
    let rules = get_test_rules(&k, &patterns);
    assert_eq!(rules, TestRules { run: TestRunMode::Check, check: TestCheckMode::Busted(TestRunMode::Check) });
    assert_eq!(get_test_rules(&k, &Vec::new()), TestRules::default_rules());
    assert!(patterns[0].0.matches(&k));
    assert!(!patterns[1].0.matches(&k));
    assert_eq!(k.toolchain_id(CallSide::Callee), "cc");
}

#[test]
fn run_modes_are_ordered() {
    assert!(TestRunMode::Generate.before(&TestRunMode::Build));
    assert!(!TestRunMode::Check.before(&TestRunMode::Run));
    assert_eq!(TestRunMode::Link.rank(), 3);
}

fn outcomes(check: Option<bool>) -> StepOutcomes {
    StepOutcomes {
        ran_to: TestRunMode::Check,
        source: Some(true),
        source_skipped: false,
        build: Some(true),
        link: Some(true),
        run: Some(true),
        check,
    }
}

#[test]
fn reports_conclude() {
    let rules = TestRules::default_rules();
    let (c, could_be) = report_test(rules, &outcomes(Some(true)));
    assert_eq!(c, TestConclusion::Passed);
    assert_eq!(could_be, TestRulesPattern { run: None, check: Some(TestCheckMode::Pass(TestRunMode::Check)) });
    let (c, could_be) = report_test(rules, &outcomes(Some(false)));
    assert_eq!(c, TestConclusion::Failed);
    assert_eq!(could_be.check, Some(TestCheckMode::Busted(TestRunMode::Check)));
    let busted = TestRules { run: TestRunMode::Check, check: TestCheckMode::Busted(TestRunMode::Check) };
    assert_eq!(report_test(busted, &outcomes(Some(false))).0, TestConclusion::Busted);
    let skip = TestRules { run: TestRunMode::Skip, check: TestCheckMode::Pass(TestRunMode::Check) };
    assert_eq!(report_test(skip, &outcomes(Some(true))).0, TestConclusion::Skipped);
    assert_eq!(success_at_step(&outcomes(None), TestRunMode::Check, true), None);
    assert_eq!(success_at_step(&outcomes(None), TestRunMode::Skip, false), Some(true));
}

#[test]
fn expectation_files_apply_in_order() {
    let k = key("simple", "rustc", "gcc");
    let mut every_target = any_pattern();
    every_target.caller = Some("rustc".to_owned());
    let mut this_target = any_pattern();
    this_target.test = Some("simple".to_owned());
    let mut other_target = any_pattern();
    other_target.test = Some("simple".to_owned());
    let file = ExpectFile {
        targets: vec![
            (
                "x86_64-unknown-linux-gnu".to_owned(),
                vec![(this_target, TestRulesPattern { run: Some(TestRunMode::Run), check: None })],
            ),
            (
                "*".to_owned(),
                vec![(every_target, TestRulesPattern { run: None, check: Some(TestCheckMode::Random(true)) })],
            ),
            (
                "aarch64-apple-darwin".to_owned(),
                vec![(other_target, TestRulesPattern { run: Some(TestRunMode::Skip), check: None })],
            ),
        ],
    };
    let files = vec![file];
    let rules = rules_from_files(&k, &files, "x86_64-unknown-linux-gnu");
    assert_eq!(rules, TestRules { run: TestRunMode::Run, check: TestCheckMode::Random(true) });
    let elsewhere = rules_from_files(&k, &files, "riscv64gc-unknown-linux-gnu");
    assert_eq!(elsewhere, TestRules { run: TestRunMode::Check, check: TestCheckMode::Random(true) });
    assert_eq!(rules_from_files(&k, &Vec::new(), "x86_64-unknown-linux-gnu"), TestRules::default_rules());
}

#[test]
fn output_format_names() {
    for f in [OutputFormat::Human, OutputFormat::Json, OutputFormat::RustcJson] {
        assert_eq!(OutputFormat::from_str(f.name()), Ok(f));
    }
    assert_eq!(OutputFormat::RustcJson.name(), "rustc-json");
    assert_eq!(OutputFormat::from_str("xml"), Err("unknown output format: xml".to_owned()));
}

#[test]
fn human_report_verdicts() {
    assert_eq!(verdict(TestConclusion::Skipped, TestCheckMode::Pass(TestRunMode::Check)), None);
    assert_eq!(
        verdict(TestConclusion::Failed, TestCheckMode::Busted(TestRunMode::Check)),
        Some(("fixed (test was busted, congrats!)", ReportColor::Green))
    );
    assert_eq!(
        verdict(TestConclusion::Passed, TestCheckMode::Busted(TestRunMode::Run)),
        Some(("busted (known failure, ignored)", ReportColor::Blue))
    );
    assert_eq!(verdict(TestConclusion::Failed, TestCheckMode::Pass(TestRunMode::Check)), Some(("failed", ReportColor::Red)));
    assert_eq!(failed_step(TestRunMode::Link), "link both sides together");
    assert_eq!(failed_step(TestRunMode::Check), "");
    let s = TestSummary { num_tests: 12, num_passed: 9, num_busted: 1, num_failed: 0, num_skipped: 2 };
    assert_eq!(
        summary_line(&s),
        ("12 test sets run - 9 passed, 1 busted, 0 failed, 2 skipped".to_owned(), ReportColor::Blue)
    );
    let bad = TestSummary { num_failed: 3, ..s };
    assert_eq!(summary_line(&bad).1, ReportColor::Red);
}

#[test]
fn run_names() {
    let mut compiler = Compiler::new();
    let typed = compiler
        .compile_string("test.kdl", "fn \"first\" {\n    inputs { a \"u8\"; }\n}\n".to_owned())
        .unwrap();
    let mut k = key("opaque", "rustc", "cc");
    assert_eq!(full_test_name(&k, &typed), "opaque::c::rustc_calls_cc");
    assert_eq!(base_id(&k, &typed, Some(CallSide::Caller), "_"), "opaque_c_rustc_caller");
    assert_eq!(full_subtest_name(&k, &typed, "first"), "opaque::c::rustc_calls_cc::first");
    k.options.functions = FunctionSelector::One { idx: 0, args: ArgSelector::One { idx: 0, vals: ValSelector::One { idx: 3 } } };
    k.options.val_writer = WriteImpl::Print;
    k.options.val_generator = ValueGeneratorKind::Random { seed: 17 };
    assert_eq!(
        base_id(&k, &typed, Some(CallSide::Callee), "::"),
        "opaque::c::first::arg0::val3::cc_callee::print::random17"
    );
}

fn fresh_outcomes() -> StepOutcomes {
    StepOutcomes {
        ran_to: TestRunMode::Skip,
        source: None,
        source_skipped: false,
        build: None,
        link: None,
        run: None,
        check: None,
    }
}

#[test]
fn runs_go_step_by_step() {
    let mut rules = TestRules { run: TestRunMode::Link, check: TestCheckMode::Pass(TestRunMode::Check) };
    let mut o = fresh_outcomes();
    let mut steps = Vec::new();
    while let Some(step) = next_step(&rules, &o) {
        steps.push(step);
        record_step(&mut rules, &mut o, step, true, false);
    }
    assert_eq!(steps, vec![TestRunMode::Generate, TestRunMode::Build, TestRunMode::Link]);
    assert_eq!(o.link, Some(true));
    assert_eq!(o.run, None);

    // a failed build stops the run there
    let mut rules = TestRules::default_rules();
    let mut o = fresh_outcomes();
    record_step(&mut rules, &mut o, TestRunMode::Generate, true, false);
    record_step(&mut rules, &mut o, TestRunMode::Build, false, false);
    assert_eq!(next_step(&rules, &o), None);
    assert_eq!(o.build, Some(false));

    // a source the backend declines skips the whole run
    let mut rules = TestRules::default_rules();
    let mut o = fresh_outcomes();
    assert_eq!(next_step(&rules, &o), Some(TestRunMode::Generate));
    record_step(&mut rules, &mut o, TestRunMode::Generate, false, true);
    assert!(o.source_skipped);
    assert_eq!(rules.run, TestRunMode::Skip);
    assert_eq!(next_step(&rules, &o), None);
}

#[test]
fn failures_are_rerun_minimized() {
    let k = key("simple", "rustc", "cc");
    let failure = CheckFailure::ValMismatch {
        func_idx: 2,
        arg_idx: 1,
        val_idx: 4,
        func_name: "f".to_owned(),
        arg_name: "a".to_owned(),
        arg_kind: "argument".to_owned(),
        arg_ty_name: "u8".to_owned(),
        val_path: "a".to_owned(),
        val_ty_name: "u8".to_owned(),
        expected: vec![1],
        caller: vec![1],
        callee: vec![2],
    };
    let checks = vec![Ok(()), Err(failure), Ok(())];
    let rules = TestRules::default_rules();
    let runs = minimized_tests(&k, rules, &checks, WriteImpl::Print);
    assert_eq!(runs.len(), 1);
    let (mk, mr) = &runs[0];
    assert_eq!(mk.test, "simple");
    assert_eq!(mk.caller, "rustc");
    assert_eq!(mk.callee, "cc");
    assert_eq!(
        mk.options.functions,
        FunctionSelector::One { idx: 2, args: ArgSelector::One { idx: 1, vals: ValSelector::One { idx: 4 } } }
    );
    assert_eq!(mk.options.val_writer, WriteImpl::Print);
    assert_eq!(mr.run, TestRunMode::Generate);
    assert_eq!(mr.check, rules.check);
    assert!(minimized_tests(&k, rules, &vec![Ok(()), Ok(())], WriteImpl::Print).is_empty());
}

#[test]
fn human_report_lists_runs_by_conclusion() {
    let cs = vec![
        TestConclusion::Failed,
        TestConclusion::Passed,
        TestConclusion::Skipped,
        TestConclusion::Busted,
        TestConclusion::Passed,
    ];
    assert_eq!(report_order(&cs), vec![1, 4, 3, 0]);
    assert!(report_order(&vec![TestConclusion::Skipped]).is_empty());
    assert!(report_details(TestRunMode::Check, TestConclusion::Failed));
    assert!(!report_details(TestRunMode::Check, TestConclusion::Busted));
    assert!(!report_details(TestRunMode::Run, TestConclusion::Passed));
}

#[test]
fn passed_functions_are_counted() {
    let failure = CheckFailure::TagMismatch {
        func_idx: 0,
        arg_idx: 0,
        val_idx: 0,
        func_name: "f".to_owned(),
        arg_name: "a".to_owned(),
        arg_kind: "argument".to_owned(),
        arg_ty_name: "T".to_owned(),
        val_path: "a".to_owned(),
        val_ty_name: "T".to_owned(),
        expected: "A".to_owned(),
        caller: "A".to_owned(),
        callee: "B".to_owned(),
    };
    assert_eq!(subtests_passed(&vec![Ok(()), Err(failure), Ok(())]), 2);
    assert_eq!(subtests_passed(&vec![]), 0);
}
