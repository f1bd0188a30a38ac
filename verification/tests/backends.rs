use abi_cafe::abis::{all_conventions, CCFlavor, CallingConvention, CcAbiImpl, GenerateError, Platform, RustcAbiImpl};
use abi_cafe::procgen::{perturb_list, procgen_test_for_ty_string};
use abi_cafe::harness::read::{classify_test, test_source, Pathish, TestFile};

#[test]
fn convention_names_roundtrip() {
    for c in all_conventions() {
        assert_eq!(CallingConvention::from_str(c.name()), Some(c));
    }
    assert_eq!(CallingConvention::from_str("all"), Some(CallingConvention::All));
    assert_eq!(CallingConvention::from_str("fortran"), None);
    assert_eq!(all_conventions().len(), 10);
    assert_eq!(all_conventions()[0], CallingConvention::Handwritten);
}

#[test]
fn c_convention_decls() {
    let gcc_linux = CcAbiImpl::new(CCFlavor::Gcc, Platform::Unixy, "cc".to_owned());
    assert_eq!(gcc_linux.c_convention_decl(CallingConvention::C).unwrap(), "");
    assert!(matches!(
        gcc_linux.c_convention_decl(CallingConvention::Stdcall),
        Err(GenerateError::UnsupportedConvention)
    ));
    assert!(!gcc_linux.supports_convention(CallingConvention::Fastcall));
    assert!(gcc_linux.supports_convention(CallingConvention::Handwritten));
    let msvc = CcAbiImpl::new(CCFlavor::Msvc, Platform::Windows, "msvc".to_owned());
    assert_eq!(msvc.c_convention_decl(CallingConvention::Fastcall).unwrap(), "__fastcall ");
    let clang_win = CcAbiImpl::new(CCFlavor::Clang, Platform::Windows, "clang".to_owned());
    assert_eq!(
        clang_win.c_convention_decl(CallingConvention::Vectorcall).unwrap(),
        "__attribute__((vectorcall)) "
    );
    assert!(!clang_win.supports_convention(CallingConvention::Win64));
    assert_eq!(clang_win.lang(), "c");
    assert_eq!(clang_win.src_ext(), "c");
}

#[test]
fn rust_convention_decls() {
    let rustc = RustcAbiImpl::new("rustc 1.80.0-nightly (abc 2024-05-01)", Platform::Unixy, None);
    assert_eq!(rustc.name(), "rustc");
    assert_eq!(rustc.lang(), "rust");
    assert_eq!(rustc.src_ext(), "rs");
    assert_eq!(rustc.convention_decl(CallingConvention::C).unwrap(), "C");
    assert_eq!(rustc.convention_decl(CallingConvention::Sysv64).unwrap(), "sysv64");
    assert_eq!(rustc.convention_decl(CallingConvention::Aapcs).unwrap(), "aapcs");
    assert!(matches!(rustc.convention_decl(CallingConvention::Stdcall),
        Err(GenerateError::Unsupported(m)) if m == "unsupported convention stdcall"));
    assert!(matches!(rustc.convention_decl(CallingConvention::Vectorcall),
        Err(GenerateError::Unsupported(m)) if m == "unsupported convention vectorcall"));
    assert!(!rustc.supports_convention(CallingConvention::Vectorcall));
    assert!(!rustc.supports_convention(CallingConvention::Cdecl));
    assert!(rustc.supports_convention(CallingConvention::Win64));
}

#[test]
fn rust_windows_conventions() {
    let nightly = RustcAbiImpl::new("rustc 1.80.0-nightly (abc 2024-05-01)", Platform::Windows, None);
    assert_eq!(nightly.convention_decl(CallingConvention::Cdecl).unwrap(), "cdecl");
    assert_eq!(nightly.convention_decl(CallingConvention::Stdcall).unwrap(), "stdcall");
    assert_eq!(nightly.convention_decl(CallingConvention::Fastcall).unwrap(), "fastcall");
    assert_eq!(nightly.convention_decl(CallingConvention::Vectorcall).unwrap(), "vectorcall");
    let stable = RustcAbiImpl::new("rustc 1.80.0", Platform::Windows, None);
    assert!(matches!(stable.convention_decl(CallingConvention::Vectorcall),
        Err(GenerateError::Unsupported(m)) if m == "vectorcall is an unstable rust feature, requires nightly"));
    assert!(matches!(stable.convention_decl(CallingConvention::Handwritten),
        Err(GenerateError::Unsupported(m)) if m == "unsupported convention handwritten"));
    assert!(stable.supports_convention(CallingConvention::Fastcall));
    assert!(!stable.supports_convention(CallingConvention::Vectorcall));
}

#[test]
fn perturbed_lists() {
    assert_eq!(perturb_list("u32", 4, 0), vec!["u8", "u32", "u32", "f32"]);
    assert_eq!(perturb_list("u32", 4, 1), vec!["u32", "u8", "f32", "u32"]);
    assert_eq!(perturb_list("i64", 3, 1), vec!["i64", "f32", "i64"]);
}

#[test]
fn procgen_program_text() {
    let text = procgen_test_for_ty_string("u16", None);
    assert!(text.starts_with(
        "fn \"val_in\" {\n    inputs {\n        arg0 \"u16\"\n    }\n    outputs {\n    }\n}\nfn \"val_out\" {\n"
    ));
    assert!(text.contains("fn \"ref_in\" {\n    inputs {\n        arg0 \"&u16\"\n    }\n"));
    assert!(text.contains("struct \"Many2\" {\n    f0 \"u16\"\n    f1 \"u16\"\n}\n"));
    assert!(text.contains("struct \"Perturbedsmall1\" {\n    f0 \"u16\"\n    f1 \"u8\"\n    f2 \"f32\"\n    f3 \"u16\"\n}\n"));
    assert!(text.contains("fn \"val_in_16\" {\n"));
    assert!(!text.contains("fn \"val_in_17\" {\n"));
    let with_def = procgen_test_for_ty_string("MyTy", Some("struct \"MyTy\" { x \"u8\"; }"));
    assert!(with_def.starts_with("struct \"MyTy\" { x \"u8\"; }\nfn \"val_in\" {\n"));
}

fn tyname_state(p: &abi_cafe::types::TypedProgram) -> abi_cafe::rust_decls::GenState {
    let mut tynames = std::collections::HashMap::new();
    for t in 0..p.num_tys() {
        if let abi_cafe::types::Ty::Primitive(_) = p.realize_ty(t) {
            tynames.insert(t, p.format_ty(t));
        }
    }
    abi_cafe::rust_decls::GenState { tynames, borrowed_tynames: std::collections::HashMap::new() }
}

fn find_ty(p: &abi_cafe::types::TypedProgram, name: &str) -> usize {
    (0..p.num_tys()).find(|&t| p.format_ty(t) == name).unwrap()
}

#[test]
fn rust_struct_declaration() {
    let mut compiler = abi_cafe::compiler::Compiler::new();
    let p = compiler
        .compile_string(
            "test.kdl",
            r##"
        struct "Point" {
            x "u32"
            y "u64"
        }
        enum "Color" {
            Red
            Blue
        }
        alias "Meters" "f32"
        "##
            .to_owned(),
        )
        .unwrap();
    let rustc = RustcAbiImpl::new("rustc 1.80.0", Platform::Unixy, None);
    let mut state = tyname_state(&p);
    let env = abi_cafe::ast::PunEnv { lang: "rust".to_owned() };
    let mut out = String::new();
    let (name, borrowed) = rustc.generate_tydef(&mut out, &state, &p, &env, find_ty(&p, "Point")).unwrap();
    assert_eq!(name, "Point");
    assert_eq!(borrowed, None);
    assert_eq!(out, "#[repr(C)]\n#[derive(Copy, Clone)]\nstruct Point {\n    x: u32,\n    y: u64,\n}\n\n");
    let mut out = String::new();
    rustc.generate_tydef(&mut out, &state, &p, &env, find_ty(&p, "Color")).unwrap();
    assert_eq!(out, "#[repr(C)]\n#[derive(Debug, Copy, Clone, PartialEq)]\nenum Color {\n    Red,\n    Blue,\n}\n\n");
    let mut out = String::new();
    let (name, _) = rustc.generate_tydef(&mut out, &state, &p, &env, find_ty(&p, "Meters")).unwrap();
    assert_eq!(name, "Meters");
    assert_eq!(out, "type Meters = f32;\n\n");
    state.borrowed_tynames.insert(find_ty(&p, "u32"), "Borrowed<'a>".to_owned());
    let mut out = String::new();
    let (_, borrowed) = rustc.generate_tydef(&mut out, &state, &p, &env, find_ty(&p, "Point")).unwrap();
    assert_eq!(borrowed, Some("Point<'a>".to_owned()));
    assert_eq!(out, "#[repr(C)]\nstruct Point<'a> {\n    x: Borrowed<'a>,\n    y: u64,\n}\n\n");
}

#[test]
fn rust_structural_names() {
    let mut compiler = abi_cafe::compiler::Compiler::new();
    let p = compiler
        .compile_string(
            "test.kdl",
            r##"
        struct "Holder" {
            a "[u8; 4]"
            r "&i16"
            e "()"
        }
        "##
            .to_owned(),
        )
        .unwrap();
    let rustc = RustcAbiImpl::new("rustc 1.80.0", Platform::Unixy, None);
    let state = tyname_state(&p);
    let env = abi_cafe::ast::PunEnv { lang: "rust".to_owned() };
    let mut out = String::new();
    let (name, borrowed) = rustc.generate_tydef(&mut out, &state, &p, &env, find_ty(&p, "[u8; 4]")).unwrap();
    assert_eq!((name.as_str(), borrowed), ("[u8; 4]", None));
    let (name, borrowed) = rustc.generate_tydef(&mut out, &state, &p, &env, find_ty(&p, "&i16")).unwrap();
    assert_eq!(name, "&mut i16");
    assert_eq!(borrowed, Some("&'a mut i16".to_owned()));
    assert!(out.is_empty());
}

#[test]
fn test_files_are_classified_by_suffix() {
    let (name, file) = classify_test("tests/normal/simple.kdl", "simple.kdl", true).unwrap();
    assert_eq!(name, "simple");
    assert!(matches!(&file, TestFile::Kdl(Pathish::Runtime(p)) if p == "tests/normal/simple.kdl"));
    assert_eq!(test_source("simple", &file, "fn \"f\" { }".to_owned()), "fn \"f\" { }");
    let (name, file) = classify_test("procgen/u128.procgen.kdl", "u128.procgen.kdl", false).unwrap();
    assert_eq!(name, "u128");
    assert!(matches!(&file, TestFile::KdlProcgen(Pathish::Static(_))));
    assert_eq!(
        test_source("u128", &file, "alias \"u128\" \"u128\"".to_owned()),
        procgen_test_for_ty_string("u128", Some("alias \"u128\" \"u128\""))
    );
    assert!(classify_test("README.md", "README.md", true).is_none());
}

#[test]
fn rust_signatures() {
    let mut compiler = abi_cafe::compiler::Compiler::new();
    let p = compiler
        .compile_string(
            "test.kdl",
            r##"
        fn "plain" {
            inputs { a "u32"; b "u8"; }
            outputs { r "u64"; }
        }
        fn "nothing" {
        }
        fn "two" {
            inputs { a "u32"; }
            outputs { x "u8"; y "u16"; }
        }
        "##
            .to_owned(),
        )
        .unwrap();
    let rustc = RustcAbiImpl::new("1.80.0", Platform::Unixy, None);
    let mut state = tyname_state(&p);
    let mut f = String::new();
    rustc.generate_signature(&mut f, &state, &p, 0).unwrap();
    assert_eq!(f, "fn plain(a: u32, b: u8, ) -> u64");
    let mut g = String::new();
    rustc.generate_signature(&mut g, &state, &p, 1).unwrap();
    assert_eq!(g, "fn nothing()");
    let mut h = String::new();
    assert!(matches!(rustc.generate_signature(&mut h, &state, &p, 2), Err(GenerateError::RustUnsupported(_))));
    assert_eq!(h, "fn two(a: u32, ) -> u8");
    // an output whose type borrows is passed as an out-param
    let u8_ty = find_ty(&p, "u8");
    state.borrowed_tynames.insert(u8_ty, "u8".to_owned());
    let mut k = String::new();
    rustc.generate_signature(&mut k, &state, &p, 2).unwrap();
    assert_eq!(k, "fn two(a: u32, x: u8, ) -> u16");
}

#[test]
fn rust_tagged_and_refused_declarations() {
    let mut compiler = abi_cafe::compiler::Compiler::new();
    let p = compiler
        .compile_string(
            "test.kdl",
            r##"
        tagged "Shape" {
            Circle { r "u32"; }
            Nothing
        }
        struct "Wide" {
            a "i256"
            b "f16"
        }
        "##
            .to_owned(),
        )
        .unwrap();
    let rustc = RustcAbiImpl::new("rustc 1.80.0", Platform::Unixy, None);
    let state = tyname_state(&p);
    let env = abi_cafe::ast::PunEnv { lang: "rust".to_owned() };
    let mut out = String::new();
    let (name, borrowed) = rustc.generate_tydef(&mut out, &state, &p, &env, find_ty(&p, "Shape")).unwrap();
    assert_eq!((name.as_str(), borrowed), ("Shape", None));
    assert_eq!(
        out,
        "#[repr(C)]\n#[derive(Copy, Clone)]\nenum Shape {\n    Circle {\n        r: u32,\n    },\n    Nothing,\n}\n\n"
    );
    let mut out = String::new();
    assert!(matches!(rustc.generate_tydef(&mut out, &state, &p, &env, find_ty(&p, "i256")),
        Err(GenerateError::Unsupported(m)) if m == "rust doesn't have i256"));
    assert!(matches!(rustc.generate_tydef(&mut out, &state, &p, &env, find_ty(&p, "f16")),
        Err(GenerateError::Unsupported(m)) if m == "rust doesn't have f16"));
    assert!(out.is_empty());
}

#[test]
fn interning_a_name_twice_keeps_the_first() {
    let mut compiler = abi_cafe::compiler::Compiler::new();
    let p = compiler
        .compile_string(
            "test.kdl",
            r##"
        struct "Point" {
            x "u32"
            y "&u8"
        }
        fn "f" {
            inputs { a "i256"; }
        }
        "##
            .to_owned(),
        )
        .unwrap();
    let rustc = RustcAbiImpl::new("rustc 1.80.0", Platform::Unixy, None);
    let mut state = abi_cafe::rust_decls::GenState {
        tynames: std::collections::HashMap::new(),
        borrowed_tynames: std::collections::HashMap::new(),
    };
    let env = abi_cafe::ast::PunEnv { lang: "rust".to_owned() };
    let u8_ty = find_ty(&p, "u8");
    let u32_ty = find_ty(&p, "u32");
    let ref_ty = find_ty(&p, "&u8");
    let point = find_ty(&p, "Point");
    rustc.intern_tyname(&mut state, &p, &env, u8_ty).unwrap();
    rustc.intern_tyname(&mut state, &p, &env, u32_ty).unwrap();
    rustc.intern_tyname(&mut state, &p, &env, ref_ty).unwrap();
    assert_eq!(state.tynames[&ref_ty], "&mut u8");
    assert_eq!(state.borrowed_tynames[&ref_ty], "&'a mut u8");
    rustc.intern_tyname(&mut state, &p, &env, point).unwrap();
    assert_eq!(state.tynames[&point], "Point");
    assert_eq!(state.borrowed_tynames[&point], "Point<'a>");
    state.tynames.insert(point, "Renamed".to_owned());
    rustc.intern_tyname(&mut state, &p, &env, point).unwrap();
    assert_eq!(state.tynames[&point], "Renamed");
    assert_eq!(state.tynames.len(), 4);
    let wide = find_ty(&p, "i256");
    assert!(matches!(rustc.intern_tyname(&mut state, &p, &env, wide),
        Err(GenerateError::Unsupported(m)) if m == "rust doesn't have i256"));
    assert!(!state.tynames.contains_key(&wide));
}

#[test]
fn rust_attributes_become_repr_options() {
    let mut compiler = abi_cafe::compiler::Compiler::new();
    let p = compiler
        .compile_string(
            "test.kdl",
            r##"
        @packed
        @ "#[allow(dead_code)]"
        struct "Tight" {
            x "u8"
        }
        "##
            .to_owned(),
        )
        .unwrap();
    let rustc = RustcAbiImpl::new("rustc 1.80.0", Platform::Unixy, None);
    let state = tyname_state(&p);
    let env = abi_cafe::ast::PunEnv { lang: "rust".to_owned() };
    let mut out = String::new();
    rustc.generate_tydef(&mut out, &state, &p, &env, find_ty(&p, "Tight")).unwrap();
    assert_eq!(
        out,
        "#[repr(packed, C)]\n#[allow(dead_code)]\n#[derive(Copy, Clone)]\nstruct Tight {\n    x: u8,\n}\n\n"
    );
    let mut attrs = String::new();
    rustc.generate_repr_attr(&mut attrs, &Vec::new()).unwrap();
    assert_eq!(attrs, "#[repr(C)]\n");
}
