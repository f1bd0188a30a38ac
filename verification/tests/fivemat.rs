use abi_cafe::fivemat::Fivemat;

#[test]
fn fivemat_basic() {
    let mut f = Fivemat::new("    ".to_owned());
    let ident_inner = "Inner";
    let ident_x = "x";
    let ty_f64 = "f64";
    f.write_str("\n");
    {
        f.write_str("struct MyStruct {\n");
        f.add_indent(1);
        {
            f.write_str("field1: ");
            f.write_str("bool");
            f.write_str(",\n");
        }
        {
            f.write_str("field2: ");
            f.write_str(&format!("{} {{\n", ident_inner));
            f.add_indent(1);
            {
                f.write_str(&format!("{}: {},\n", ident_x, ty_f64));
                f.write_str("y: f32,\n");
            }
            f.sub_indent(1);
            f.write_str("},\n");
        }
        f.write_str(
            r#"field3: MyThing {
    a: i32,
    b: i64,
},
"#,
        );
        f.sub_indent(1);
        f.write_str("}\n");
    }
    f.write_str("\n");

    {
        f.write_str("fn my_func() {\n");
        f.add_indent(1);
        {
            f.write_str("let x = 0;\n");
            f.write_str("\n");
            f.write_str("let y = 5;\n");
            f.write_str("\n\n");
            f.write_str("let z = 10;\n");
            f.write_str("let w = 100;\nlet q = ");
            f.write_str("20");
            f.write_str(";\n");
        }
        f.sub_indent(1);
        f.write_str("}\n");
    }

    assert_eq!(
        f.output(),
        r#"
struct MyStruct {
    field1: bool,
    field2: Inner {
        x: f64,
        y: f32,
    },
    field3: MyThing {
        a: i32,
        b: i64,
    },
}

fn my_func() {
    let x = 0;

    let y = 5;


    let z = 10;
    let w = 100;
    let q = 20;
}
"#
    );
}

#[test]
fn fivemat_indent_guard_gives_back_its_levels() {
    let mut f = Fivemat::new("  ".to_owned());
    let guard = f.indent_many(2);
    f.write_str("a\n");
    guard.end(&mut f);
    f.write_str("b\n");
    let one = f.indent();
    f.write_str("c");
    one.end(&mut f);
    assert_eq!(f.output(), "    a\nb\n  c");
}

#[test]
fn fivemat_crlf_lines() {
    let mut f = Fivemat::new("\t".to_owned());
    f.add_indent(1);
    f.write_str("x\r\ny\r\n");
    assert_eq!(f.output(), "\tx\n\ty\n");
}

#[test]
fn fivemat_empty_lines_get_no_indent() {
    let mut f = Fivemat::new("--".to_owned());
    f.add_indent(1);
    f.write_str("\n\nz");
    f.ensure_indent();
    f.newline();
    assert_eq!(f.output(), "\n\n--z\n");
}
