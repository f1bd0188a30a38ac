use abi_cafe::ast::PunEnv;
use abi_cafe::compiler::Compiler;
use abi_cafe::graph::Definition;
use abi_cafe::types::{Ty, TypedProgram};

fn compile(program: &str) -> TypedProgram {
    let mut compiler = Compiler::new();
    compiler.compile_string("test.kdl", program.to_owned()).unwrap()
}

fn ty_named(p: &TypedProgram, name: &str) -> usize {
    (0..p.num_tys()).find(|&t| p.format_ty(t) == name).unwrap()
}

fn position(defs: &[Definition], d: Definition) -> usize {
    defs.iter().position(|x| *x == d).unwrap()
}

fn rust_env() -> PunEnv {
    PunEnv { lang: "rust".to_owned() }
}

#[test]
fn dependencies_defined_first() {
    let p = compile(
        r##"
        struct "Outer" {
            inner "Inner"
        }
        struct "Inner" {
            x "u32"
        }
        fn "take" {
            inputs { o "Outer"; }
        }
    "##,
    );
    let graph = p.definition_graph(&rust_env()).unwrap();
    let defs = graph.definitions(&vec![0]);
    let outer = ty_named(&p, "Outer");
    let inner = ty_named(&p, "Inner");
    let u32_ty = ty_named(&p, "u32");
    let d_u32 = position(&defs, Definition::DefineTy(u32_ty));
    let d_inner = position(&defs, Definition::DefineTy(inner));
    let d_outer = position(&defs, Definition::DefineTy(outer));
    let d_func = position(&defs, Definition::DefineFunc(0));
    assert!(d_u32 < d_inner && d_inner < d_outer && d_outer < d_func);
    assert_eq!(defs.len(), 4);
    assert!(!defs.iter().any(|d| matches!(d, Definition::DeclareTy(_) | Definition::DeclareFunc(_))));
}

#[test]
fn only_what_the_functions_reach() {
    let p = compile(
        r##"
        struct "Used" {
            x "u8"
        }
        struct "Unused" {
            y "u64"
        }
        fn "first" {
            inputs { a "Used"; }
        }
        fn "second" {
            inputs { b "Unused"; }
        }
    "##,
    );
    let graph = p.definition_graph(&rust_env()).unwrap();
    let defs = graph.definitions(&vec![0]);
    let used = ty_named(&p, "Used");
    let unused = ty_named(&p, "Unused");
    assert!(defs.contains(&Definition::DefineTy(used)));
    assert!(!defs.contains(&Definition::DefineTy(unused)));
    assert!(!defs.contains(&Definition::DefineFunc(1)));
    let both = graph.definitions(&vec![0, 1]);
    assert!(both.contains(&Definition::DefineTy(unused)));
    assert!(graph.definitions(&Vec::new()).is_empty());
}

#[test]
fn cycles_get_forward_declarations() {
    let p = compile(
        r##"
        struct "Node" {
            next "&Node"
            val "u32"
        }
        fn "walk" {
            inputs { n "Node"; }
        }
    "##,
    );
    let graph = p.definition_graph(&rust_env()).unwrap();
    let defs = graph.definitions(&vec![0]);
    let node = ty_named(&p, "Node");
    let node_ref = ty_named(&p, "&Node");
    let declares: Vec<&Definition> =
        defs.iter().filter(|d| matches!(d, Definition::DeclareTy(_) | Definition::DeclareFunc(_))).collect();
    assert_eq!(declares.len(), 1);
    assert!(defs.contains(&Definition::DefineTy(node)));
    assert!(defs.contains(&Definition::DefineTy(node_ref)));
    let first_define = defs.iter().position(|d| matches!(d, Definition::DefineTy(t) if *t == node || *t == node_ref)).unwrap();
    let declare_at = defs.iter().position(|d| matches!(d, Definition::DeclareTy(_))).unwrap();
    assert!(declare_at < first_define);
}

#[test]
fn puns_follow_the_language() {
    let p = compile(
        r##"
        pun "Blah" {
            lang "rust" {
                alias "Blah" "i32"
            }
            default {
                alias "Blah" "u32"
            }
        }
        fn "take" {
            inputs { b "Blah"; }
        }
    "##,
    );
    let i32_ty = ty_named(&p, "i32");
    let u32_ty = ty_named(&p, "u32");
    let rust = p.definition_graph(&rust_env()).unwrap().definitions(&vec![0]);
    assert!(rust.contains(&Definition::DefineTy(i32_ty)));
    assert!(!rust.contains(&Definition::DefineTy(u32_ty)));
    let c = p.definition_graph(&PunEnv { lang: "c".to_owned() }).unwrap().definitions(&vec![0]);
    assert!(c.contains(&Definition::DefineTy(u32_ty)));
    assert!(!c.contains(&Definition::DefineTy(i32_ty)));
}

#[test]
fn pun_without_a_block_for_the_language() {
    let p = compile(
        r##"
        pun "OnlyRust" {
            lang "rust" {
                alias "OnlyRust" "i32"
            }
        }
    "##,
    );
    let pun = (0..p.num_tys()).find(|&t| matches!(p.realize_ty(t), Ty::Pun(_))).unwrap();
    let pun_ty = match p.realize_ty(pun) {
        Ty::Pun(pt) => pt,
        _ => unreachable!(),
    };
    assert!(p.resolve_pun(pun_ty, &rust_env()).is_ok());
    let err = p.resolve_pun(pun_ty, &PunEnv { lang: "c".to_owned() }).unwrap_err();
    assert_eq!(err.message, "Failed to find applicable pun for this target environment");
    assert_eq!(
        err.help,
        Some("Add another block that matches PunEnv {\n    lang: \"c\",\n}".to_owned())
    );
    assert!(p.definition_graph(&PunEnv { lang: "c".to_owned() }).is_err());
}

#[test]
fn type_names() {
    let p = compile(
        r##"
        struct "Pair" {
            a "[u16; 3]"
            b "&u64"
        }
    "##,
    );
    let arr = ty_named(&p, "[u16; 3]");
    let r = ty_named(&p, "&u64");
    assert!(matches!(p.realize_ty(arr), Ty::Array(a) if a.len == 3));
    assert!(matches!(p.realize_ty(r), Ty::Ref(_)));
    assert_eq!(p.format_ty(ty_named(&p, "Pair")), "Pair");
}

#[test]
fn kdl_syntax_errors_are_reported() {
    let mut compiler = Compiler::new();
    let err = compiler.compile_string("broken.kdl", "struct \"A\" {\n".to_owned()).unwrap_err();
    assert!(matches!(err, abi_cafe::compiler::KdlScriptError::Kdl(_)));
    let err = compiler.compile_string("generic.kdl", "struct \"A\" {\n    x \"Option<u8>\"\n}\n".to_owned()).unwrap_err();
    assert!(!matches!(err, abi_cafe::compiler::KdlScriptError::Kdl(_)));
}
