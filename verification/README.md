# abi_cafe

The verified core of an ABI compatibility tester. A test is a kdl-script
program of types and function signatures; both sides of each call are
generated for two toolchains, built, run, and what each side saw is compared.

Layout of `src/`:

- `kdl_doc`, `kdl_text`: the KDL document model, read through the `kdl` crate.
- `ast`, `tydent`, `parse`, `stable_map`: kdl-script's syntax and its parser.
- `types`: the type checker, with structural interning of types.
- `compiler`: text to typed program.
- `graph`: the dependency graph of definitions (through `petgraph`) and the
  order in which a backend declares and defines them.
- `harness`: test options and selectors (`test`), value generation (`vals`),
  the buffers a running test writes to (`run`), the check of a run
  (`check`), expectations and reports (`report`), the human-readable
  report (`human`), the runs of a session, its counts and the narrowed
  reruns of its failures (`matrix`), and which files are tests (`read`).
- `abis`, `rust_decls`, `rust_write`, `procgen`, `fivemat`: what backends write
  (`rust_write`: what rustc reports of itself, and the statements a Rust
  test uses to report its values to the harness, walking each value with
  the variants recorded when the values were made).
- `session`: the report formats.

`app/main.rs` is a small command line front end: it compiles a kdl-script
file and lists the declarations and definitions for a target language.
