use abi_cafe::compiler::{Compiler, KdlScriptError};

#[test]
fn prim_struct() -> Result<(), KdlScriptError> {
    let program = r##"
        struct "Primitives" {
            _0 "u8"
            _1 "u16"
            _2 "u32"
            _3 "u64"
            _4 "u128"
            _5 "u256"
            _6 "i8"
            _7 "i16"
            _8 "i32"
            _9 "i64"
            _10 "i128"
            _11 "i256"
            _12 "bool"
            _13 "f16"
            _14 "f32"
            _15 "f64"
            _16 "f128"
            _17 "ptr"
            _18 "()"
        }
    "##;
    let mut compiler = Compiler::new();
    compiler.compile_string("test.kdl", program.to_owned())?;
    Ok(())
}

#[test]
fn c_enum_simple() -> Result<(), KdlScriptError> {
    let program = r##"
        enum "Cases" {
            A
            B
            C
        }
    "##;
    let mut compiler = Compiler::new();
    compiler.compile_string("test.kdl", program.to_owned())?;
    Ok(())
}

#[test]
fn c_enum_literals1() -> Result<(), KdlScriptError> {
    let program = r##"
        enum "Cases" {
            A 8
            B
            C
        }
    "##;
    let mut compiler = Compiler::new();
    compiler.compile_string("test.kdl", program.to_owned())?;
    Ok(())
}

#[test]
fn c_enum_literals2() -> Result<(), KdlScriptError> {
    let program = r##"
        enum "Cases" {
            A 8
            B 10
            C 52
        }
    "##;
    let mut compiler = Compiler::new();
    compiler.compile_string("test.kdl", program.to_owned())?;
    Ok(())
}

#[test]
fn c_enum_literals3() -> Result<(), KdlScriptError> {
    let program = r##"
        enum "Cases" {
            A 8
            B 10
            C 10
        }
    "##;
    let mut compiler = Compiler::new();
    compiler.compile_string("test.kdl", program.to_owned())?;
    Ok(())
}

#[test]
fn tagged_simple() -> Result<(), KdlScriptError> {
    let program = r##"
        tagged "MyOption" {
            None
            Some {
                _0 "i32"
            }
        }
    "##;
    let mut compiler = Compiler::new();
    compiler.compile_string("test.kdl", program.to_owned())?;
    Ok(())
}

#[test]
fn union_simple() -> Result<(), KdlScriptError> {
    let program = r##"
        union "IntFloat" {
            A "i32"
            B "f32"
        }
    "##;
    let mut compiler = Compiler::new();
    compiler.compile_string("test.kdl", program.to_owned())?;
    Ok(())
}

#[test]
fn alias_simple() -> Result<(), KdlScriptError> {
    let program = r##"
        alias "BigMeters" "u128"
    "##;
    let mut compiler = Compiler::new();
    compiler.compile_string("test.kdl", program.to_owned())?;
    Ok(())
}

#[test]
fn pun_simple() -> Result<(), KdlScriptError> {
    let program = r##"
        pun "Blah" {
            lang "rust" {
                alias "Blah" "i32"
            }
            default {
                alias "Blah" "u32"
            }
        }
    "##;
    let mut compiler = Compiler::new();
    compiler.compile_string("test.kdl", program.to_owned())?;
    Ok(())
}

#[test]
fn empty_struct() -> Result<(), KdlScriptError> {
    let program = r##"
        struct "Empty" { }
    "##;
    let mut compiler = Compiler::new();
    compiler.compile_string("test.kdl", program.to_owned())?;
    Ok(())
}

#[test]
fn empty_enum() -> Result<(), KdlScriptError> {
    let program = r##"
        enum "Empty" { }
    "##;
    let mut compiler = Compiler::new();
    compiler.compile_string("test.kdl", program.to_owned())?;
    Ok(())
}

#[test]
fn empty_tagged() -> Result<(), KdlScriptError> {
    let program = r##"
        tagged "Empty" { }
    "##;
    let mut compiler = Compiler::new();
    compiler.compile_string("test.kdl", program.to_owned())?;
    Ok(())
}

#[test]
fn empty_union() -> Result<(), KdlScriptError> {
    let program = r##"
        union "Empty" { }
    "##;
    let mut compiler = Compiler::new();
    compiler.compile_string("test.kdl", program.to_owned())?;
    Ok(())
}

#[test]
fn array_basics() -> Result<(), KdlScriptError> {
    let program = r##"
        fn "arrays" {
            inputs {
                arr0 "[i32; 0]"
                arr1 "[bool;1]"
                arr2 "[ [ u128 ; 10 ] ; 100 ]"
            }
        }
    "##;
    let mut compiler = Compiler::new();
    compiler.compile_string("test.kdl", program.to_owned())?;
    Ok(())
}

#[test]
fn ref_basics() -> Result<(), KdlScriptError> {
    let program = r##"
        fn "arrays" {
            inputs {
                ref0 "&bool"
                ref1 "& i32"
                ref2 "&()"
                ref4 "&&&f64"
                ref5 "[&u8; 100]"
                ref6 "&[&[&&[&u32; 10]; 11]; 12]"
            }
        }
    "##;
    let mut compiler = Compiler::new();
    compiler.compile_string("test.kdl", program.to_owned())?;
    Ok(())
}

#[test]
fn anon_vars() -> Result<(), KdlScriptError> {
    let program = r##"
        struct "MyTupleStruct" {
            _ "bool"
            _ "i32"
            _ "u64"
        }
        tagged "MyTagged" {
            TupleVariant {
                _ "bool"
                _ "i32"
                _ "u64"
            }
            HybridVariant {
                x "bool"
                _ "u32"
            }
            StructVariant {
                x "u8"
                z "i64"
            }
            EmptyVariant {
            }
            NoneLike
        }
        fn "anons" {
            inputs {
                _ "u32"
                _ "MyTupleStruct"
                z "i8"
            }
            outputs {
                _ "MyTagged"
                _ "&i32"
                w "&i64"
            }
        }
    "##;
    let mut compiler = Compiler::new();
    compiler.compile_string("test.kdl", program.to_owned())?;
    Ok(())
}

#[test]
fn positional_fields_get_made_up_blank_names() {
    let mut compiler = Compiler::new();
    let p = compiler
        .compile_string(
            "test.kdl",
            r##"
        struct "T" {
            _ "bool"
            _ "i32"
        }
        struct "Named" {
            x "bool"
            _ "i32"
        }
        "##
            .to_owned(),
        )
        .unwrap();
    let find = |name: &str| (0..p.num_tys()).find(|&t| p.format_ty(t) == name).unwrap();
    match p.realize_ty(find("T")) {
        abi_cafe::types::Ty::Struct(s) => {
            assert!(s.all_fields_were_blank);
            assert_eq!(s.fields[0].ident.val.value, "field0");
            assert_eq!(s.fields[1].ident.val.value, "field1");
            assert!(s.fields[0].ident.was_blank && s.fields[1].ident.was_blank);
            assert_eq!((s.fields[0].idx, s.fields[1].idx), (0, 1));
        }
        _ => panic!("T is a struct"),
    }
    match p.realize_ty(find("Named")) {
        abi_cafe::types::Ty::Struct(s) => {
            assert!(!s.all_fields_were_blank);
            assert_eq!(s.fields[0].ident.val.value, "x");
            assert!(!s.fields[0].ident.was_blank);
            assert_eq!(s.fields[1].ident.val.value, "field1");
        }
        _ => panic!("Named is a struct"),
    }
}
