use abi_cafe::compiler::Compiler;
use abi_cafe::error::CheckFailure;
use abi_cafe::harness::check::{check_func, check_test};
use abi_cafe::harness::report::{RunOutput, TestKey};
use abi_cafe::harness::run::{best_vals, HarnessMessage, HarnessSide, RunError, RunState, TestBuffer};
use abi_cafe::harness::test::{ArgSelector, CallingConvention, FunctionSelector, LangRepr, TestOptions, ValSelector, WriteImpl};
use abi_cafe::harness::vals::{ValueGeneratorKind, ValueTree};
use abi_cafe::types::TypedProgram;

fn options(functions: FunctionSelector) -> TestOptions {
    TestOptions {
        convention: CallingConvention::C,
        functions,
        val_writer: WriteImpl::HarnessCallback,
        val_generator: ValueGeneratorKind::Graffiti,
        repr: LangRepr::C,
    }
}

fn key(options: TestOptions) -> TestKey {
    TestKey { test: "simple".to_owned(), caller: "rustc".to_owned(), callee: "cc".to_owned(), options }
}

fn program(text: &str) -> TypedProgram {
    let mut compiler = Compiler::new();
    compiler.compile_string("test.kdl", text.to_owned()).unwrap()
}

fn record(func: u32, vals: &[&[u8]]) -> TestBuffer {
    let mut buf = TestBuffer::new();
    buf.set_func(func);
    for (i, v) in vals.iter().enumerate() {
        buf.write_val(i as u32, v);
    }
    buf
}

const TWO_ARGS: &str = r##"
    fn "pair" {
        inputs { a "u32"; b "u8"; }
    }
"##;

#[test]
fn check_passes_when_sides_agree() {
    let p = program(TWO_ARGS);
    let tree = ValueTree::new(&p, ValueGeneratorKind::Graffiti).unwrap();
    let run = RunOutput {
        caller_funcs: record(0, &[&[1, 2, 3, 4], &[5]]),
        callee_funcs: record(0, &[&[1, 2, 3, 4], &[5]]),
    };
    let out = check_test(&p, &tree, &key(options(FunctionSelector::All)), &run);
    assert!(out.all_passed);
    assert_eq!(out.subtest_names, vec!["simple::c::rustc_calls_cc::pair".to_owned()]);
    assert!(out.subtest_checks[0].is_ok());
}

#[test]
fn check_reports_the_first_difference() {
    let p = program(TWO_ARGS);
    let tree = ValueTree::new(&p, ValueGeneratorKind::Graffiti).unwrap();
    let run = RunOutput {
        caller_funcs: record(0, &[&[1, 2, 3, 4], &[5]]),
        callee_funcs: record(0, &[&[1, 2, 3, 9], &[6]]),
    };
    let out = check_test(&p, &tree, &key(options(FunctionSelector::All)), &run);
    assert!(!out.all_passed);
    match &out.subtest_checks[0] {
        Err(CheckFailure::ValMismatch { func_idx, arg_idx, val_idx, func_name, arg_name, arg_kind, arg_ty_name, val_path, expected, caller, callee, .. }) => {
            assert_eq!((*func_idx, *arg_idx, *val_idx), (0, 0, 0));
            assert_eq!(func_name, "pair");
            assert_eq!(arg_name, "a");
            assert_eq!(arg_kind, "argument");
            assert_eq!(arg_ty_name, "u32");
            assert_eq!(val_path, "a");
            assert_eq!(expected, &vec![0x00, 0x01, 0x02, 0x03]);
            assert_eq!(caller, &vec![1, 2, 3, 4]);
            assert_eq!(callee, &vec![1, 2, 3, 9]);
        }
        other => panic!("expected a value mismatch, got {:?}", other),
    }
}

#[test]
fn check_skips_unselected_values() {
    let p = program(TWO_ARGS);
    let tree = ValueTree::new(&p, ValueGeneratorKind::Graffiti).unwrap();
    let run = RunOutput {
        caller_funcs: record(0, &[&[1, 2, 3, 4], &[5]]),
        callee_funcs: record(0, &[&[9, 9, 9, 9], &[5]]),
    };
    let second_only = FunctionSelector::One { idx: 0, args: ArgSelector::One { idx: 1, vals: ValSelector::All } };
    let out = check_test(&p, &tree, &key(options(second_only)), &run);
    assert!(out.all_passed);
    assert!(check_func(&p, &tree, &options(FunctionSelector::All), 0, &run.caller_funcs, &run.callee_funcs).is_err());
}

#[test]
fn check_tags_name_the_variants() {
    let p = program(
        r##"
        tagged "Choice" {
            Left
            Right
        }
        fn "take" {
            inputs { c "Choice"; }
        }
    "##,
    );
    let tree = ValueTree::new(&p, ValueGeneratorKind::Graffiti).unwrap();
    let poison: &[u8] = &[0xff, 0xff, 0xff, 0xff];
    let run = RunOutput { caller_funcs: record(0, &[poison]), callee_funcs: record(0, &[poison]) };
    let out = check_test(&p, &tree, &key(options(FunctionSelector::All)), &run);
    match &out.subtest_checks[0] {
        Err(CheckFailure::TagMismatch { expected, caller, callee, val_path, .. }) => {
            assert!(expected == "Left" || expected == "Right");
            assert_eq!(caller, "<other variant>");
            assert_eq!(callee, "<other variant>");
            assert_eq!(val_path, "c");
        }
        other => panic!("expected a tag mismatch, got {:?}", other),
    }
}

#[test]
fn run_messages_fill_the_buffers() {
    let mut state = RunState::new();
    state.take_line(Some(HarnessMessage::Func { id: HarnessSide::Caller, func: 0 }));
    state.take_line(Some(HarnessMessage::Val { id: HarnessSide::Caller, val: 0, bytes: vec![1, 2, 3, 4] }));
    state.take_line(Some(HarnessMessage::Func { id: HarnessSide::Callee, func: 0 }));
    state.take_line(Some(HarnessMessage::Val { id: HarnessSide::Callee, val: 0, bytes: vec![1, 2, 3, 4] }));
    state.take_line(Some(HarnessMessage::Done));
    let out = state.finish().unwrap();
    let p = program(TWO_ARGS);
    let tree = ValueTree::new(&p, ValueGeneratorKind::Graffiti).unwrap();
    let only_first = FunctionSelector::One { idx: 0, args: ArgSelector::One { idx: 0, vals: ValSelector::All } };
    assert!(check_test(&p, &tree, &key(options(only_first)), &out).all_passed);

    let mut unclean = RunState::new();
    unclean.take_line(Some(HarnessMessage::Done));
    unclean.take_line(None);
    assert!(matches!(unclean.finish(), Err(RunError::InvalidMessages { .. })));

    let mut twice = RunState::new();
    twice.take_line(Some(HarnessMessage::Func { id: HarnessSide::Callee, func: 2 }));
    twice.take_line(Some(HarnessMessage::Val { id: HarnessSide::Callee, val: 1, bytes: vec![7] }));
    twice.take_line(Some(HarnessMessage::Val { id: HarnessSide::Callee, val: 1, bytes: vec![8] }));
    twice.take_line(Some(HarnessMessage::Done));
    assert!(matches!(twice.finish(), Err(RunError::DoubleWrite { func: 2, val: 1 })));
}

#[test]
fn where_a_side_stopped() {
    let p = program(TWO_ARGS);
    let buf = record(0, &[&[1], &[2], &[3]]);
    assert_eq!(best_vals(&p, &buf), (0, 2, "pair".to_owned()));
    assert_eq!(best_vals(&p, &TestBuffer::new()), (0, 0, "pair".to_owned()));
}

#[test]
fn check_names_every_function() {
    let p = program(
        r##"
        fn "first" {
            inputs { a "u8"; }
        }
        fn "second" {
            inputs { b "u8"; }
        }
    "##,
    );
    let tree = ValueTree::new(&p, ValueGeneratorKind::Graffiti).unwrap();
    let run = RunOutput { caller_funcs: record(1, &[&[7]]), callee_funcs: record(1, &[&[7]]) };
    let only_second = FunctionSelector::One { idx: 1, args: ArgSelector::All };
    let out = check_test(&p, &tree, &key(options(only_second)), &run);
    assert_eq!(out.subtest_checks.len(), 1);
    assert!(out.all_passed);
    assert_eq!(
        out.subtest_names,
        vec!["simple::c::second::rustc_calls_cc::first".to_owned(), "simple::c::second::rustc_calls_cc::second".to_owned()]
    );
}

#[test]
fn a_failed_exit_reports_where_each_side_stopped() {
    let p = program(
        r##"
    fn "first" {
        inputs { a "u32"; }
    }
    fn "second" {
        inputs { a "u32"; b "u8"; }
    }
"##,
    );
    let mut state = RunState::new();
    state.take_line(Some(HarnessMessage::Func { id: HarnessSide::Caller, func: 1 }));
    state.take_line(Some(HarnessMessage::Val { id: HarnessSide::Caller, val: 0, bytes: vec![1, 2, 3, 4] }));
    state.take_line(Some(HarnessMessage::Val { id: HarnessSide::Caller, val: 1, bytes: vec![5] }));
    match state.finish_exit(false, Some(101), &p) {
        Err(RunError::BadExit {
            code,
            caller_func_idx,
            caller_val_idx,
            caller_func,
            callee_func_idx,
            callee_val_idx,
            callee_func,
        }) => {
            assert_eq!(code, Some(101));
            assert_eq!((caller_func_idx, caller_val_idx, caller_func.as_str()), (1, 1, "second"));
            assert_eq!((callee_func_idx, callee_val_idx, callee_func.as_str()), (0, 0, "first"));
        }
        _ => panic!("a failed exit is a bad exit"),
    }

    let mut clean = RunState::new();
    clean.take_line(Some(HarnessMessage::Func { id: HarnessSide::Caller, func: 0 }));
    clean.take_line(Some(HarnessMessage::Done));
    assert!(clean.finish_exit(true, Some(0), &p).is_ok());
    let unclean = RunState::new();
    assert!(matches!(unclean.finish_exit(true, Some(0), &p), Err(RunError::InvalidMessages { .. })));
}
