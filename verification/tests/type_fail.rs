use abi_cafe::compiler::{Compiler, KdlScriptError};

fn describe_error(e: &KdlScriptError) -> String {
    match e {
        KdlScriptError::Kdl(k) => format!("{}\n{:?}", k.message, k.help),
        KdlScriptError::Parse(p) => format!("{}\n{:?}", p.message, p.help),
        KdlScriptError::Type(t) => format!("{}\n{:?}", t.message, t.help),
        KdlScriptError::Rejected(m) => m.clone(),
        KdlScriptError::SpanOverflow => "a position in the document is too large".to_owned(),
    }
}

fn compile_checked(program: &str) {
    let mut compiler = Compiler::new();
    if let Err(e) = compiler.compile_string("test.kdl", program.to_owned()) {
        panic!("{}", describe_error(&e));
    }
}

#[test]
#[should_panic = "undefined type name"]
fn no_primitive() {
    let program = r##"
        struct "wrong" {
            x "i1"
        }
    "##;
    compile_checked(program);
}

#[test]
#[should_panic = "undefined type name"]
fn no_arg_type() {
    let program = r##"
        fn "bad" {
            inputs { x "bad"; }
        }
    "##;
    compile_checked(program);
}
