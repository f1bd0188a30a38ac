use abi_cafe::abis::Platform;
use abi_cafe::ast::PunEnv;
use abi_cafe::compiler::Compiler;
use abi_cafe::fivemat::Fivemat;
use abi_cafe::harness::test::{
    ArgSelector, CallingConvention, FunctionSelector, LangRepr, TestOptions, ValSelector, WriteImpl,
};
use abi_cafe::harness::vals::{ValueGeneratorKind, ValueTree};
use abi_cafe::rust_write::{rustc_info, RustcToolchain};
use abi_cafe::types::TypedProgram;

fn toolchain() -> RustcToolchain {
    RustcToolchain {
        command: "rustc".to_owned(),
        version: "1.80.0".to_owned(),
        is_nightly: false,
        target: "x86_64-unknown-linux-gnu".to_owned(),
        platform: Platform::Unixy,
        codegen_backend: None,
    }
}

fn options(writer: WriteImpl) -> TestOptions {
    TestOptions {
        convention: CallingConvention::C,
        functions: FunctionSelector::All,
        val_writer: writer,
        val_generator: ValueGeneratorKind::Graffiti,
        repr: LangRepr::C,
    }
}

fn compile(program: &str) -> TypedProgram {
    let mut compiler = Compiler::new();
    compiler.compile_string("test.kdl", program.to_owned()).unwrap()
}

/// The text that reporting every input of the first function writes.
fn report_inputs(program: &str, opts: &TestOptions, to: &str) -> String {
    let typed = compile(program);
    let tree = ValueTree::new(&typed, ValueGeneratorKind::Graffiti).unwrap();
    let env = PunEnv { lang: "rust".to_owned() };
    let rustc = toolchain();
    let mut f = Fivemat::new("    ".to_owned());
    let func = typed.realize_func(0);
    let mut vals = tree.at_func(0);
    for arg in &func.inputs {
        let arg_vals = vals.next_arg();
        rustc
            .write_var(&mut f, &typed, &env, opts, &arg.name.val.value, arg.ty, arg_vals, to)
            .unwrap();
    }
    f.output().clone()
}

#[test]
fn struct_and_array_leaves_are_reported_in_order() {
    let program = r##"
        struct "Point" {
            x "u32"
            y "u8"
        }
        fn "f" {
            inputs { a "Point"; b "[u8; 2]"; }
        }
    "##;
    let out = report_inputs(program, &options(WriteImpl::HarnessCallback), "CALLER_VALS");
    assert_eq!(
        out,
        "write_val(CALLER_VALS, 0, &a.x);\n\
         write_val(CALLER_VALS, 1, &a.y);\n\
         write_val(CALLER_VALS, 2, &b[0]);\n\
         write_val(CALLER_VALS, 3, &b[1]);\n"
    );
}

#[test]
fn printing_writer_prints_each_leaf() {
    let program = r##"
        fn "f" {
            inputs { a "u32"; r "&u8"; }
        }
    "##;
    let out = report_inputs(program, &options(WriteImpl::Print), "CALLER_VALS");
    assert_eq!(out, "println!(\"{:?}\", a);\nprintln!(\"{:?}\", (*r));\n");
}

#[test]
fn noop_writer_writes_nothing() {
    let program = r##"
        fn "f" {
            inputs { a "u32"; }
        }
    "##;
    assert_eq!(report_inputs(program, &options(WriteImpl::Noop), "CALLER_VALS"), "");
}

#[test]
fn poisoned_callee_value_is_reported_wrong() {
    let program = r##"
        fn "f" {
            inputs { abicafepoison "u32"; b "u8"; }
        }
    "##;
    let out = report_inputs(program, &options(WriteImpl::HarnessCallback), "CALLEE_VALS");
    assert_eq!(out, "write_val(CALLEE_VALS, 0, &0x12345678u32);\nwrite_val(CALLEE_VALS, 1, &b);\n");
    let out = report_inputs(program, &options(WriteImpl::HarnessCallback), "CALLER_VALS");
    assert_eq!(out, "write_val(CALLER_VALS, 0, &abicafepoison);\nwrite_val(CALLER_VALS, 1, &b);\n");
}

#[test]
fn enum_variant_is_checked() {
    let program = r##"
        enum "E" {
            A
        }
        fn "f" {
            inputs { e "E"; }
        }
    "##;
    let out = report_inputs(program, &options(WriteImpl::HarnessCallback), "CALLER_VALS");
    assert_eq!(
        out,
        "if let E::A = &e {\n    write_val(CALLER_VALS, 0, &0u32);\n} else {\n    write_val(CALLER_VALS, 0, &4294967295u32);\n}\n"
    );
    let out = report_inputs(program, &options(WriteImpl::Print), "CALLER_VALS");
    assert_eq!(out, "if let E::A = &e {\n} else {\n    unreachable!(\"enum had unexpected variant!?\")\n}\n");
}

#[test]
fn tagged_variant_binds_its_fields() {
    let program = r##"
        tagged "T" {
            V {
                x "u8"
            }
        }
        fn "f" {
            inputs { t "T"; }
        }
    "##;
    let out = report_inputs(program, &options(WriteImpl::HarnessCallback), "CALLER_VALS");
    assert_eq!(
        out,
        "if let T::V { x } = &t {\n    write_val(CALLER_VALS, 0, &0u32);\n    write_val(CALLER_VALS, 1, &(*x));\n} else {\n    write_val(CALLER_VALS, 0, &4294967295u32);\n}\n"
    );
}

#[test]
fn union_tag_then_active_field() {
    let program = r##"
        union "U" {
            a "u16"
        }
        fn "f" {
            inputs { u "U"; }
        }
    "##;
    let out = report_inputs(program, &options(WriteImpl::HarnessCallback), "CALLER_VALS");
    assert_eq!(out, "write_val(CALLER_VALS, 0, &0u32);\nwrite_val(CALLER_VALS, 1, &u.a);\n");
}

#[test]
fn selectors_pick_the_values_reported() {
    let program = r##"
        fn "f" {
            inputs { a "[u8; 3]"; b "u8"; }
        }
    "##;
    let mut opts = options(WriteImpl::HarnessCallback);
    opts.functions = FunctionSelector::One { idx: 0, args: ArgSelector::One { idx: 0, vals: ValSelector::One { idx: 1 } } };
    assert_eq!(report_inputs(program, &opts, "CALLER_VALS"), "write_val(CALLER_VALS, 1, &a[1]);\n");
    opts.functions = FunctionSelector::One { idx: 0, args: ArgSelector::One { idx: 1, vals: ValSelector::All } };
    assert_eq!(report_inputs(program, &opts, "CALLER_VALS"), "write_val(CALLER_VALS, 3, &b);\n");
}

#[test]
fn set_function_tells_the_harness() {
    let rustc = toolchain();
    let mut f = Fivemat::new("    ".to_owned());
    rustc.write_set_function(&mut f, &options(WriteImpl::HarnessCallback), "CALLER_VALS", 3).unwrap();
    assert_eq!(f.output(), "set_func(CALLER_VALS, 3);\n");
    let mut g = Fivemat::new("    ".to_owned());
    rustc.write_set_function(&mut g, &options(WriteImpl::Print), "CALLER_VALS", 3).unwrap();
    assert_eq!(g.output(), "");
}

#[test]
fn harness_prefix_asks_for_needed_features() {
    let typed = compile(
        r##"
        fn "f" {
            inputs { a "f16"; b "u8"; }
        }
    "##,
    );
    let env = PunEnv { lang: "rust".to_owned() };
    let graph = typed.definition_graph(&env).unwrap();
    let rustc = toolchain();
    let mut f = Fivemat::new("    ".to_owned());
    rustc
        .write_harness_prefix(&mut f, &typed, &graph, &vec![0], &options(WriteImpl::HarnessCallback), "// prefix")
        .unwrap();
    assert_eq!(f.output(), "#![feature(f16)]\n// prefix\n\n");
    let mut opts = options(WriteImpl::HarnessCallback);
    opts.convention = CallingConvention::Vectorcall;
    let mut g = Fivemat::new("    ".to_owned());
    rustc.write_harness_prefix(&mut g, &typed, &graph, &vec![0], &opts, "// prefix").unwrap();
    assert_eq!(g.output(), "#![feature(abi_vectorcall)]\n#![feature(f16)]\n// prefix\n\n");
    let mut h = Fivemat::new("    ".to_owned());
    rustc.write_harness_prefix(&mut h, &typed, &graph, &vec![0], &options(WriteImpl::Print), "// prefix").unwrap();
    assert_eq!(h.output(), "");
}

#[test]
fn rustc_reports_version_and_host() {
    let out = "rustc 1.80.0 (051478957 2024-07-21)\nbinary: rustc\nhost: x86_64-unknown-linux-gnu\nrelease: 1.80.0\n";
    assert_eq!(rustc_info(out), (Some("1.80.0".to_owned()), Some("x86_64-unknown-linux-gnu".to_owned())));
    let nightly = "rustc 1.82.0-nightly (abc 2024-08-01)\r\nhost: aarch64-apple-darwin\r\n";
    assert_eq!(rustc_info(nightly), (Some("1.82.0-nightly".to_owned()), Some("aarch64-apple-darwin".to_owned())));
    assert_eq!(rustc_info("hello"), (None, None));
    assert_eq!(rustc_info("rustc 1.0"), (None, None));
    let rustc = RustcToolchain::new("rustc".to_owned(), nightly, Platform::Unixy, None);
    assert_eq!(rustc.version, "1.82.0-nightly");
    assert_eq!(rustc.target, "aarch64-apple-darwin");
    assert!(rustc.is_nightly);
    assert!(!RustcToolchain::new("rustc".to_owned(), out, Platform::Windows, None).is_nightly);
}

#[test]
fn union_walk_takes_the_variant_its_values_were_made_for() {
    let program = r##"
        union "U" {
            a "u16"
            b "u32"
            c "u64"
        }
        fn "f" {
            inputs { u "U"; }
        }
    "##;
    let typed = compile(program);
    let tree = ValueTree::new(&typed, ValueGeneratorKind::Graffiti).unwrap();
    let arg = &tree.funcs[0].args[0];
    assert_eq!(arg.picks.pick, arg.vals[0].val.generate_idx(3));
    assert_eq!(arg.vals.len(), 2);
    let field = ["u.a", "u.b", "u.c"][arg.picks.pick];
    assert_eq!(arg.vals[1].path, field);
    let out = report_inputs(program, &options(WriteImpl::HarnessCallback), "CALLER_VALS");
    assert_eq!(out, format!("write_val(CALLER_VALS, 0, &{}u32);\nwrite_val(CALLER_VALS, 1, &{});\n", arg.picks.pick, field));
}
