//! The Rust toolchain: what rustc reports of itself, and the statements a
//! generated Rust test runs to report each leaf of an argument's value to
//! the harness, or to print it, found by walking the argument's type.
//!
//! Each leaf reported consumes the argument's next value, in the order the
//! values were made; a c-style enum, a union or a tagged union consumes one
//! value for its variant, the one its value's generator drew when the values
//! were made, as the argument's recorded picks say.

use vstd::prelude::*;
use crate::abis::{GenerateError, Platform};
use crate::graph::{Definition, DefinitionGraph, DefinitionGraphV, spec_definitions, wanted_of};
use crate::ast::{PunEnv, spec_matches};
use crate::fivemat::{Fivemat, FivematV, spec_write_str, lemma_write_str_keeps, lemma_write_str_empty, find_newline,
    lemma_find_newline, strip_cr};
use crate::harness::test::{CallingConvention, TestOptions, WriteImpl, FunctionSelector, selects_val, selects_arg};
use crate::harness::vals::{ArgValuesIter, ArgValues, ValueRef, Picks, VariantPicks, kid, arg_ok, value_finite, depth_of, lemma_leaves_fuel, picks_views, picks_leaf, kid_at, lemma_picks_view, variant_fields, spec_leaves, spec_fields_leaves, spec_array_leaves,
    spec_pun_leaves};
use crate::types::{TypedProgram, PrimitiveTy, Ty, TyV, FieldTy, FieldTyV, TaggedTy, TaggedVariantTy, TaggedVariantTyV, PunBlockTy, PunBlockTyV, PunTy,
    fields_view};
use crate::types::spec_pick_block;
use crate::text::{owned, push_str, push_decimal, decimal, str_contains, seq_contains, chars_of, string_of_range};

verus! {

/// The Rust toolchain: the rustc that builds the tests and what is known of it.
pub struct RustcToolchain {
    /// The command that runs rustc.
    pub command: String,
    /// The version of rustc.
    pub version: String,
    /// Whether the rustc is a nightly.
    pub is_nightly: bool,
    /// The target triple the tests are built for.
    pub target: String,
    /// Windows-like or Unix-like.
    pub platform: Platform,
    /// The codegen backend rustc is told to use, if any.
    pub codegen_backend: Option<String>,
}

/// What a walk over one argument's value is done for: the types, the
/// language whose pun blocks apply, which values the options select and
/// how they are reported, where the argument sits, and the buffer written to.
pub struct WriteCtx {
    pub tys: Seq<TyV>,
    pub lang: Seq<char>,
    pub sel: FunctionSelector,
    pub writer: WriteImpl,
    pub func: usize,
    pub arg: usize,
    /// The index, among the function's values, of the argument's first value.
    pub base: nat,
    /// The number of values the argument has.
    pub count: nat,
    /// The buffer the values are reported to.
    pub to: Seq<char>,
}

/// Where a walk stands: what has been written, the position of the
/// argument's next value, and whether the values have lasted so far.
pub struct WriteState {
    pub f: FivematV,
    pub next: nat,
    pub ok: bool,
}

/// The context of a walk over the argument that `vals` walks.
pub open spec fn ctx_of(types: TypedProgram, env: PunEnv, options: TestOptions, to: Seq<char>, vals: ArgValuesIter) -> WriteCtx {
    WriteCtx {
        tys: types@.tcx.tys,
        lang: env.lang@,
        sel: options.functions,
        writer: options.val_writer,
        func: vals.func_idx(),
        arg: vals.arg_pos(),
        base: vals.val_base() as nat,
        count: vals.arg_vals().len(),
        to,
    }
}

/// Every walk down type `t`'s parts (fields, variants' fields, elements,
/// pointees, aliased types and, for a pun, its block for `lang`) reaches a
/// leaf in fewer than `d` steps, and every pun met has a block for `lang`.
pub open spec fn walkable(tys: Seq<TyV>, lang: Seq<char>, t: int, d: nat) -> bool
    decreases d,
{
    if d == 0 || t < 0 || t >= tys.len() {
        false
    } else {
        let d1 = (d - 1) as nat;
        match tys[t] {
            TyV::Struct { fields, .. } => forall|i: int| 0 <= i < fields.len() ==> walkable(tys, lang, (#[trigger] fields[i]).ty as int, d1),
            TyV::Union { fields, .. } => forall|i: int| 0 <= i < fields.len() ==> walkable(tys, lang, (#[trigger] fields[i]).ty as int, d1),
            TyV::Tagged { variants, .. } => forall|v: int, i: int| 0 <= v < variants.len() && 0 <= i < variant_fields(variants[v]).len()
                ==> walkable(tys, lang, (#[trigger] variant_fields(variants[v])[i]).ty as int, d1),
            TyV::Alias { real: target, .. } => walkable(tys, lang, target as int, d1),
            TyV::Pun { blocks, .. } => match spec_pick_block(blocks, lang, 0) {
                Some(r) => walkable(tys, lang, r as int, d1),
                None => false,
            },
            TyV::Array(a) => walkable(tys, lang, a.elem_ty as int, d1),
            TyV::Ref(r) => walkable(tys, lang, r.pointee_ty as int, d1),
            _ => true,
        }
    }
}

/// Type `t` can be walked: finitely, and with a block for `lang` in every
/// pun met.
pub open spec fn value_walkable(tys: Seq<TyV>, lang: Seq<char>, t: int) -> bool {
    exists|d: nat| walkable(tys, lang, t, d)
}

/// Enough steps to walk type `t`.
pub open spec fn walk_fuel(tys: Seq<TyV>, lang: Seq<char>, t: int) -> nat {
    choose|d: nat| walkable(tys, lang, t, d)
}

/// Whether a path names the value the tests poison on the callee's side.
pub open spec fn poisoned(to: Seq<char>, path: Seq<char>) -> bool {
    seq_contains(path, "abicafepoison"@) && seq_contains(to, "CALLEE_VALS"@)
}

/// The statement that reports the leaf at `path`, value `idx` of the
/// function (nothing for the writer that does nothing, and for the writer
/// that asserts, which the walk does not use).
pub open spec fn leaf_line(writer: WriteImpl, to: Seq<char>, path: Seq<char>, idx: nat) -> Seq<char> {
    match writer {
        WriteImpl::HarnessCallback => "write_val("@ + to + ", "@ + decimal(idx) + ", &"@
            + (if poisoned(to, path) { "0x12345678u32"@ } else { path }) + ");\n"@,
        WriteImpl::Print => "println!(\"{:?}\", "@ + path + ");\n"@,
        _ => Seq::empty(),
    }
}

/// The statement that reports a variant as not the one expected.
pub open spec fn err_tag_line(writer: WriteImpl, to: Seq<char>, idx: nat) -> Seq<char> {
    match writer {
        WriteImpl::HarnessCallback => "write_val("@ + to + ", "@ + decimal(idx) + ", &"@ + "4294967295u32);\n"@,
        WriteImpl::Assert | WriteImpl::Print => "unreachable!(\"enum had unexpected variant!?\")\n"@,
        WriteImpl::Noop => Seq::empty(),
    }
}

/// The statement that reports variant `variant` of the value at `path`.
pub open spec fn tag_line(writer: WriteImpl, to: Seq<char>, path: Seq<char>, variant: nat, idx: nat) -> Seq<char> {
    match writer {
        WriteImpl::HarnessCallback => if poisoned(to, path) {
            err_tag_line(writer, to, idx)
        } else {
            "write_val("@ + to + ", "@ + decimal(idx) + ", &"@ + decimal(variant) + "u32);\n"@
        },
        _ => Seq::empty(),
    }
}

/// `s` written one indent level deeper than `f`'s.
pub open spec fn indented(f: FivematV, s: Seq<char>) -> FivematV {
    FivematV { indent: f.indent, ..spec_write_str(FivematV { indent: f.indent + 1, ..f }, s) }
}

/// The check of a c-style enum's variant: the tag report if the value is
/// the expected variant, the mismatch report if not.
pub open spec fn enum_text(c: WriteCtx, f: FivematV, ename: Seq<char>, vname: Seq<char>, from: Seq<char>, variant: nat, idx: nat) -> FivematV {
    let f1 = spec_write_str(f, "if let "@ + ename + "::"@ + vname + " = &"@ + from + " {\n"@);
    let f2 = indented(f1, tag_line(c.writer, c.to, from, variant, idx));
    let f3 = spec_write_str(f2, "} else {\n"@);
    let f4 = indented(f3, err_tag_line(c.writer, c.to, idx));
    spec_write_str(f4, "}\n"@)
}

/// The names of the first `k` fields, separated by `", "`.
pub open spec fn joined_names(fs: Seq<FieldTyV>, k: int) -> Seq<char>
    decreases k,
{
    if k <= 0 || k > fs.len() {
        Seq::empty()
    } else if k == 1 {
        fs[0].ident.text()
    } else {
        joined_names(fs, k - 1) + ", "@ + fs[k - 1].ident.text()
    }
}

/// The pattern that matches variant `v` of the tagged union `tname`,
/// binding its fields.
pub open spec fn tagged_pattern(tname: Seq<char>, v: TaggedVariantTyV) -> Seq<char> {
    match v.fields {
        Some(fs) => tname + "::"@ + v.name.text() + " { "@ + joined_names(fs, fs.len() as int) + " }"@,
        None => tname + "::"@ + v.name.text(),
    }
}

/// A tagged union's check: an `if let` on the expected variant holding the
/// reports made inside it, then, if the mismatch report is not empty, an
/// `else` holding it.
pub open spec fn tagged_text(f: FivematV, pat: Seq<char>, from: Seq<char>, if_text: Seq<char>, else_text: Seq<char>) -> FivematV {
    let f1 = if if_text.len() > 0 || else_text.len() > 0 {
        spec_write_str(spec_write_str(spec_write_str(f, "if let "@ + pat + " = &"@ + from + " {\n"@), if_text), "}"@)
    } else {
        f
    };
    if else_text.len() > 0 {
        spec_write_str(spec_write_str(spec_write_str(f1, " else {\n"@), else_text), "}\n"@)
    } else {
        f1
    }
}

/// The buffer a branch is written to before it is placed: empty, one
/// level indented.
pub open spec fn branch_buffer() -> FivematV {
    FivematV { indent_text: "    "@, indent: 1, indent_pending: true, out: Seq::empty() }
}

/// The path of a field: `from.name`, or, for a field bound by a pattern,
/// `(*name)`.
pub open spec fn field_path(from: Seq<char>, deref: bool, name: Seq<char>) -> Seq<char> {
    if deref { "(*"@ + name + ")"@ } else { from + "."@ + name }
}

/// The walk stopped: the argument had no value left.
pub open spec fn stopped(st: WriteState) -> WriteState {
    WriteState { ok: false, ..st }
}

/// What reporting the value at `from`, of type `t`, does to the state
/// `st`, the generator's picks of variants being `pk`: each leaf and each
/// variant takes the argument's next value; a leaf whose value the options
/// select is reported; an enum's or a tagged union's variant is checked
/// and a union's reported; a union or a tagged union goes on into its
/// picked variant, a pun into its block for the language. When the
/// argument runs out of values the walk stops there.
pub open spec fn spec_write_fields(c: WriteCtx, from: Seq<char>, t: int, pk: Picks, st: WriteState, d: nat) -> WriteState
    decreases d, 0int,
{
    if !st.ok || d == 0 || t < 0 || t >= c.tys.len() {
        st
    } else {
        let d1 = (d - 1) as nat;
        let idx = c.base + st.next;
        let selected = selects_val(c.sel, c.func, c.arg, st.next as usize);
        match c.tys[t] {
            TyV::Primitive(_) => if st.next >= c.count {
                stopped(st)
            } else {
                WriteState {
                    f: if selected { spec_write_str(st.f, leaf_line(c.writer, c.to, from, idx)) } else { st.f },
                    next: st.next + 1,
                    ok: true,
                }
            },
            TyV::Enum { name, variants, .. } => if st.next >= c.count {
                stopped(st)
            } else {
                WriteState {
                    f: if pk.pick < variants.len() && selected {
                        enum_text(c, st.f, name.text(), variants[pk.pick as int].text(), from, pk.pick as nat, idx)
                    } else {
                        st.f
                    },
                    next: st.next + 1,
                    ok: true,
                }
            },
            TyV::Empty => st,
            TyV::Alias { real: target, .. } => spec_write_fields(c, from, target as int, pk, st, d1),
            TyV::Pun { blocks, .. } => match spec_pick_block(blocks, c.lang, 0) {
                Some(r) => spec_write_fields(c, from, r as int, pk, st, d1),
                None => st,
            },
            TyV::Ref(r) => spec_write_fields(c, "(*"@ + from + ")"@, r.pointee_ty as int, pk, st, d1),
            TyV::Array(a) => spec_write_elems(c, from, a.elem_ty as int, a.len as int, pk.kids, st, d1),
            TyV::Struct { fields, .. } => spec_write_list(c, from, false, fields, fields.len() as int, pk.kids, st, d1),
            TyV::Union { fields, .. } => if st.next >= c.count {
                stopped(st)
            } else {
                let st1 = WriteState {
                    f: if selected { spec_write_str(st.f, tag_line(c.writer, c.to, from, pk.pick as nat, idx)) } else { st.f },
                    next: st.next + 1,
                    ok: true,
                };
                if pk.pick < fields.len() {
                    let fd = fields[pk.pick as int];
                    spec_write_fields(c, from + "."@ + fd.ident.text(), fd.ty as int, pk.kids[0], st1, d1)
                } else {
                    st1
                }
            },
            TyV::Tagged { name, variants, .. } => if st.next >= c.count {
                stopped(st)
            } else if pk.pick >= variants.len() {
                WriteState { next: st.next + 1, ..st }
            } else {
                let v = variants[pk.pick as int];
                let fs = variant_fields(v);
                let i1 = if selected {
                    spec_write_str(branch_buffer(), tag_line(c.writer, c.to, from, pk.pick as nat, idx))
                } else {
                    branch_buffer()
                };
                let inner = spec_write_list(c, from, true, fs, fs.len() as int, pk.kids, WriteState { f: i1, next: st.next + 1, ok: true }, d1);
                if !inner.ok {
                    WriteState { f: st.f, next: inner.next, ok: false }
                } else {
                    let e1 = if selected { spec_write_str(branch_buffer(), err_tag_line(c.writer, c.to, idx)) } else { branch_buffer() };
                    WriteState { f: tagged_text(st.f, tagged_pattern(name.text(), v), from, inner.f.out, e1.out), next: inner.next, ok: true }
                }
            },
        }
    }
}

/// The walk over the first `k` fields of `fs`, the field `i` at
/// [`field_path`] with picks `kids[i]`.
pub open spec fn spec_write_list(c: WriteCtx, from: Seq<char>, deref: bool, fs: Seq<FieldTyV>, k: int, kids: Seq<Picks>, st: WriteState, d: nat) -> WriteState
    decreases d, k,
{
    if k <= 0 || k > fs.len() {
        st
    } else {
        spec_write_fields(c, field_path(from, deref, fs[k - 1].ident.text()), fs[k - 1].ty as int, kids[k - 1],
            spec_write_list(c, from, deref, fs, k - 1, kids, st, d), d)
    }
}

/// The walk over the first `k` elements of an array, element `i` at
/// `from[i]` with picks `kids[i]`.
pub open spec fn spec_write_elems(c: WriteCtx, from: Seq<char>, elem: int, k: int, kids: Seq<Picks>, st: WriteState, d: nat) -> WriteState
    decreases d, k,
{
    if k <= 0 {
        st
    } else {
        spec_write_fields(c, from + "["@ + decimal((k - 1) as nat) + "]"@, elem, kids[k - 1],
            spec_write_elems(c, from, elem, k - 1, kids, st, d), d)
    }
}

/// The walk over the value at `from`, of type `t`, from `f0` with the
/// argument's next value at `n0`, with picks `pk`, ends at `f1` and `n1`,
/// having lasted or not as `ok` says.
pub open spec fn walked(c: WriteCtx, from: Seq<char>, t: int, pk: Picks, f0: FivematV, n0: nat, f1: FivematV, n1: nat, ok: bool, d: nat) -> bool {
    let st = spec_write_fields(c, from, t, pk, WriteState { f: f0, next: n0, ok: true }, d);
    st.f == f1 && st.next == n1 && st.ok == ok
}

} // verus!

verus! {

/// The statement that tells the harness which function's values follow.
pub open spec fn set_func_line(writer: WriteImpl, vals: Seq<char>, idx: nat) -> Seq<char> {
    match writer {
        WriteImpl::HarnessCallback => "set_func("@ + vals + ", "@ + decimal(idx) + ");\n"@,
        _ => Seq::empty(),
    }
}

/// `b` walks the same argument as `a`, still no further than its end.
pub open spec fn same_arg(a: ArgValuesIter, b: ArgValuesIter) -> bool {
    &&& b.tree() == a.tree()
    &&& b.func_idx() == a.func_idx()
    &&& b.arg_pos() == a.arg_pos()
    &&& b.val_base() == a.val_base()
    &&& b.counts_fit()
}

/// The path names the poisoned value on the callee's side.
fn is_poisoned(to: &str, path: &str) -> (r: bool)
    ensures
        r == poisoned(to@, path@),
{
    str_contains(path, "abicafepoison") && str_contains(to, "CALLEE_VALS")
}

/// `"write_val(" + to + ", " + idx + ", &"`.
fn write_val_start(to: &str, idx: usize) -> (r: String)
    ensures
        r@ == "write_val("@ + to@ + ", "@ + decimal(idx as nat) + ", &"@,
{
    let mut line = owned("write_val(");
    push_str(&mut line, to);
    push_str(&mut line, ", ");
    push_decimal(&mut line, idx as u64);
    push_str(&mut line, ", &");
    line
}

impl RustcToolchain {
    /// Reports the leaf at `path`, whose value is `val`, as the options'
    /// writer does: to the harness (the poisoned value as a wrong one), by
    /// printing it, or not at all.
    pub fn write_leaf_field(&self, f: &mut Fivemat, options: &TestOptions, to: &str, path: &str, val: &ValueRef)
        -> (r: Result<(), GenerateError>)
        requires
            options.val_writer != WriteImpl::Assert,
        ensures
            r is Ok,
            final(f)@ == spec_write_str(old(f)@, leaf_line(options.val_writer, to@, path@, val.absolute_idx() as nat)),
    {
        match options.val_writer {
            WriteImpl::HarnessCallback => {
                let mut line = write_val_start(to, val.absolute_val_idx());
                if is_poisoned(to, path) {
                    push_str(&mut line, "0x12345678u32");
                } else {
                    push_str(&mut line, path);
                }
                push_str(&mut line, ");\n");
                assert(line@ =~= leaf_line(options.val_writer, to@, path@, val.absolute_idx() as nat));
                f.write_str(line.as_str());
            },
            WriteImpl::Print => {
                let mut line = owned("println!(\"{:?}\", ");
                push_str(&mut line, path);
                push_str(&mut line, ");\n");
                assert(line@ =~= leaf_line(options.val_writer, to@, path@, val.absolute_idx() as nat));
                f.write_str(line.as_str());
            },
            WriteImpl::Assert => {},
            WriteImpl::Noop => {
                proof { lemma_write_str_empty(f@); }
            },
        }
        Ok(())
    }

    /// Reports variant `variant_idx` of the value at `path`, to the harness
    /// (the poisoned value as a wrong variant); the other writers report
    /// nothing here.
    pub fn write_tag_field(&self, f: &mut Fivemat, options: &TestOptions, to: &str, path: &str, variant_idx: usize,
        val: &ValueRef) -> (r: Result<(), GenerateError>)
        ensures
            r is Ok,
            final(f)@ == spec_write_str(old(f)@, tag_line(options.val_writer, to@, path@, variant_idx as nat, val.absolute_idx() as nat)),
    {
        match options.val_writer {
            WriteImpl::HarnessCallback => {
                if is_poisoned(to, path) {
                    return self.write_error_tag_field(f, options, to, val);
                }
                let mut line = write_val_start(to, val.absolute_val_idx());
                push_decimal(&mut line, variant_idx as u64);
                push_str(&mut line, "u32);\n");
                assert(line@ =~= tag_line(options.val_writer, to@, path@, variant_idx as nat, val.absolute_idx() as nat));
                f.write_str(line.as_str());
            },
            _ => {
                proof { lemma_write_str_empty(f@); }
            },
        }
        Ok(())
    }

    /// Reports that a value is not the variant expected: to the harness as
    /// an impossible variant, or as an unreachable statement.
    pub fn write_error_tag_field(&self, f: &mut Fivemat, options: &TestOptions, to: &str, val: &ValueRef)
        -> (r: Result<(), GenerateError>)
        ensures
            r is Ok,
            final(f)@ == spec_write_str(old(f)@, err_tag_line(options.val_writer, to@, val.absolute_idx() as nat)),
    {
        match options.val_writer {
            WriteImpl::HarnessCallback => {
                let mut line = write_val_start(to, val.absolute_val_idx());
                push_str(&mut line, "4294967295u32);\n");
                assert(line@ =~= err_tag_line(options.val_writer, to@, val.absolute_idx() as nat));
                f.write_str(line.as_str());
            },
            WriteImpl::Assert | WriteImpl::Print => {
                let line = owned("unreachable!(\"enum had unexpected variant!?\")\n");
                f.write_str(line.as_str());
            },
            WriteImpl::Noop => {
                proof { lemma_write_str_empty(f@); }
            },
        }
        Ok(())
    }

    /// Tells the harness, through `vals`, that the values of function `idx`
    /// follow; the other writers need not be told.
    pub fn write_set_function(&self, f: &mut Fivemat, options: &TestOptions, vals: &str, idx: usize)
        -> (r: Result<(), GenerateError>)
        ensures
            r is Ok,
            final(f)@ == spec_write_str(old(f)@, set_func_line(options.val_writer, vals@, idx as nat)),
    {
        match options.val_writer {
            WriteImpl::HarnessCallback => {
                let mut line = owned("set_func(");
                push_str(&mut line, vals);
                push_str(&mut line, ", ");
                push_decimal(&mut line, idx as u64);
                push_str(&mut line, ");\n");
                assert(line@ =~= set_func_line(options.val_writer, vals@, idx as nat));
                f.write_str(line.as_str());
            },
            _ => {
                proof { lemma_write_str_empty(f@); }
            },
        }
        Ok(())
    }
}

} // verus!

verus! {

/// The walk over the first `k` fields ends at `f1` and `n1`, having lasted
/// or not as `ok` says.
pub open spec fn listed(c: WriteCtx, from: Seq<char>, deref: bool, fs: Seq<FieldTyV>, kids: Seq<Picks>, f0: FivematV, n0: nat,
    f1: FivematV, n1: nat, ok: bool, d: nat) -> bool {
    let st = spec_write_list(c, from, deref, fs, fs.len() as int, kids, WriteState { f: f0, next: n0, ok: true }, d);
    st.f == f1 && st.next == n1 && st.ok == ok
}

/// The walk over the elements ends at `f1` and `n1`, having lasted or not
/// as `ok` says.
pub open spec fn elems_walked(c: WriteCtx, from: Seq<char>, elem: int, len: int, kids: Seq<Picks>, f0: FivematV, n0: nat,
    f1: FivematV, n1: nat, ok: bool, d: nat) -> bool {
    let st = spec_write_elems(c, from, elem, len, kids, WriteState { f: f0, next: n0, ok: true }, d);
    st.f == f1 && st.next == n1 && st.ok == ok
}

proof fn lemma_list_frame(c: WriteCtx, from: Seq<char>, deref: bool, fs: Seq<FieldTyV>, k: int, a: Seq<Picks>, b: Seq<Picks>,
    st: WriteState, d: nat)
    requires
        0 <= k <= a.len(),
        k <= b.len(),
        forall|j: int| 0 <= j < k ==> a[j] == b[j],
    ensures
        spec_write_list(c, from, deref, fs, k, a, st, d) == spec_write_list(c, from, deref, fs, k, b, st, d),
    decreases k,
{
    if k > 0 {
        lemma_list_frame(c, from, deref, fs, k - 1, a, b, st, d);
    }
}

proof fn lemma_list_stop(c: WriteCtx, from: Seq<char>, deref: bool, fs: Seq<FieldTyV>, k: int, n: int, kids: Seq<Picks>,
    st: WriteState, d: nat)
    requires
        0 <= k <= n <= fs.len(),
        !spec_write_list(c, from, deref, fs, k, kids, st, d).ok,
    ensures
        spec_write_list(c, from, deref, fs, n, kids, st, d) == spec_write_list(c, from, deref, fs, k, kids, st, d),
    decreases n - k,
{
    if k < n {
        lemma_list_stop(c, from, deref, fs, k, n - 1, kids, st, d);
        let prev = spec_write_list(c, from, deref, fs, n - 1, kids, st, d);
        assert(spec_write_fields(c, field_path(from, deref, fs[n - 1].ident.text()), fs[n - 1].ty as int, kids[n - 1], prev, d) == prev);
    }
}

proof fn lemma_elems_frame(c: WriteCtx, from: Seq<char>, elem: int, k: int, a: Seq<Picks>, b: Seq<Picks>, st: WriteState, d: nat)
    requires
        0 <= k <= a.len(),
        k <= b.len(),
        forall|j: int| 0 <= j < k ==> a[j] == b[j],
    ensures
        spec_write_elems(c, from, elem, k, a, st, d) == spec_write_elems(c, from, elem, k, b, st, d),
    decreases k,
{
    if k > 0 {
        lemma_elems_frame(c, from, elem, k - 1, a, b, st, d);
    }
}

proof fn lemma_elems_stop(c: WriteCtx, from: Seq<char>, elem: int, k: int, n: int, kids: Seq<Picks>, st: WriteState, d: nat)
    requires
        0 <= k <= n,
        !spec_write_elems(c, from, elem, k, kids, st, d).ok,
    ensures
        spec_write_elems(c, from, elem, n, kids, st, d) == spec_write_elems(c, from, elem, k, kids, st, d),
    decreases n - k,
{
    if k < n {
        lemma_elems_stop(c, from, elem, k, n - 1, kids, st, d);
        let prev = spec_write_elems(c, from, elem, n - 1, kids, st, d);
        assert(spec_write_fields(c, from + "["@ + decimal((n - 1) as nat) + "]"@, elem, kids[n - 1], prev, d) == prev);
    }
}

/// The pattern that matches variant `v` of the tagged union `name`.
fn tagged_pattern_text(name: &str, v: &TaggedVariantTy) -> (r: String)
    ensures
        r@ == tagged_pattern(name@, v@),
{
    let mut p = owned(name);
    push_str(&mut p, "::");
    push_str(&mut p, v.name.val.value.as_str());
    match &v.fields {
        Some(fs) => {
            let ghost fv = fields_view(fs@);
            let ghost p0 = p@;
            push_str(&mut p, " { ");
            let ghost p1 = p@;
            let mut i: usize = 0;
            while i < fs.len()
                invariant
                    i <= fs@.len(),
                    fv == fields_view(fs@),
                    p@ == p1 + joined_names(fv, i as int),
                decreases fs@.len() - i,
            {
                assert(fv[i as int] == fs@[i as int]@);
                if i > 0 {
                    push_str(&mut p, ", ");
                }
                push_str(&mut p, fs[i].ident.val.value.as_str());
                i = i + 1;
                assert(p@ =~= p1 + joined_names(fv, i as int));
            }
            push_str(&mut p, " }");
            assert(p@ =~= tagged_pattern(name@, v@));
        },
        None => {
            assert(p@ =~= tagged_pattern(name@, v@));
        },
    }
    p
}

/// `"(*" + name + ")"` or `from + "." + name`.
fn field_path_text(from: &str, deref: bool, name: &str) -> (r: String)
    ensures
        r@ == field_path(from@, deref, name@),
{
    if deref {
        let mut p = owned("(*");
        push_str(&mut p, name);
        push_str(&mut p, ")");
        p
    } else {
        let mut p = owned(from);
        push_str(&mut p, ".");
        push_str(&mut p, name);
        p
    }
}

} // verus!

verus! {

/// The position of the pun's first block for the language, if any.
fn pun_block(pt: &PunTy, env: &PunEnv) -> (r: Option<usize>)
    ensures
        match r {
            Some(b) => block_index(pt.blocks@.map_values(|x: PunBlockTy| x@), env.lang@, 0) == Some(b as int),
            None => block_index(pt.blocks@.map_values(|x: PunBlockTy| x@), env.lang@, 0) is None,
        },
{
    let ghost bv = pt.blocks@.map_values(|x: PunBlockTy| x@);
    let mut i: usize = 0;
    while i < pt.blocks.len()
        invariant
            i <= pt.blocks@.len(),
            bv == pt.blocks@.map_values(|x: PunBlockTy| x@),
            block_index(bv, env.lang@, 0) == block_index(bv, env.lang@, i as int),
        decreases pt.blocks@.len() - i,
    {
        assert(bv[i as int] == pt.blocks@[i as int]@);
        if pt.blocks[i].selector.matches(env) {
            return Some(i);
        }
        i = i + 1;
    }
    None
}

impl RustcToolchain {
    /// The walk behind [`RustcToolchain::write_fields`], with the steps it
    /// may take and the picks it made.
    fn walk(&self, f: &mut Fivemat, types: &TypedProgram, env: &PunEnv, options: &TestOptions, to: &str, from: &str, ty: usize,
        pb: &VariantPicks, vals: &mut ArgValuesIter, Ghost(d): Ghost<nat>) -> (r: (Result<(), GenerateError>, Ghost<Picks>))
        requires
            walkable(types@.tcx.tys, env.lang@, ty as int, d),
            old(vals).counts_fit(),
            old(f)@.indent < usize::MAX,
            options.val_writer != WriteImpl::Assert,
        ensures
            same_arg(*old(vals), *final(vals)),
            walked(ctx_of(*types, *env, *options, to@, *old(vals)), from@, ty as int, r.1@, old(f)@, old(vals).val_idx() as nat,
                final(f)@, final(vals).val_idx() as nat, r.0 is Ok, d),
            final(f)@.indent == old(f)@.indent,
            final(f)@.indent_text == old(f)@.indent_text,
            r.0 matches Err(e) ==> e is ValueTreeExhausted,
            r.0 is Ok ==> picks_agree(types@.tcx.tys, env.lang@, ty as int, r.1@, pb@, d),
        decreases d, 1int,
    {
        let ghost c = ctx_of(*types, *env, *options, to@, *vals);
        let ghost tys = types@.tcx.tys;
        let ghost d1 = (d - 1) as nat;
        let ghost f0 = f@;
        let ghost n0 = vals.val_idx() as nat;
        let ghost st0 = WriteState { f: f0, next: n0, ok: true };
        let ghost leaf = Picks { pick: 0, kids: Seq::empty() };
        let none = picks_leaf(0);
        proof { lemma_picks_view(*pb); }
        match types.realize_ty(ty) {
            Ty::Primitive(_) => {
                if vals.remaining() == 0 {
                    return (Err(GenerateError::ValueTreeExhausted), Ghost(leaf));
                }
                let val = vals.next_val();
                if val.should_write_val(options) {
                    let _ = self.write_leaf_field(f, options, to, from, &val);
                    proof { lemma_write_str_keeps(f0, leaf_line(c.writer, c.to, from@, c.base + n0)); }
                }
                (Ok(()), Ghost(leaf))
            },
            Ty::Enum(et) => {
                if vals.remaining() == 0 {
                    return (Err(GenerateError::ValueTreeExhausted), Ghost(leaf));
                }
                let tag = vals.next_val();
                let tag_idx = pb.pick;
                if tag_idx < et.variants.len() && tag.should_write_val(options) {
                    let mut line = owned("if let ");
                    push_str(&mut line, et.name.val.value.as_str());
                    push_str(&mut line, "::");
                    push_str(&mut line, et.variants[tag_idx].name.val.value.as_str());
                    push_str(&mut line, " = &");
                    push_str(&mut line, from);
                    push_str(&mut line, " {\n");
                    let ghost ename = tys[ty as int]->Enum_name.text();
                    let ghost vname = tys[ty as int]->Enum_variants[tag_idx as int].text();
                    assert(line@ =~= "if let "@ + ename + "::"@ + vname + " = &"@ + from@ + " {\n"@);
                    f.write_str(line.as_str());
                    let ghost f1 = f@;
                    proof { lemma_write_str_keeps(f0, line@); }
                    f.add_indent(1);
                    let _ = self.write_tag_field(f, options, to, from, tag_idx, &tag);
                    proof { lemma_write_str_keeps(FivematV { indent: f1.indent + 1, ..f1 }, tag_line(c.writer, c.to, from@, tag_idx as nat, c.base + n0)); }
                    f.sub_indent(1);
                    let ghost f2 = f@;
                    assert(f2 == indented(f1, tag_line(c.writer, c.to, from@, tag_idx as nat, c.base + n0)));
                    f.write_str("} else {\n");
                    let ghost f3 = f@;
                    proof { lemma_write_str_keeps(f2, "} else {\n"@); }
                    f.add_indent(1);
                    let _ = self.write_error_tag_field(f, options, to, &tag);
                    proof { lemma_write_str_keeps(FivematV { indent: f3.indent + 1, ..f3 }, err_tag_line(c.writer, c.to, c.base + n0)); }
                    f.sub_indent(1);
                    assert(f@ == indented(f3, err_tag_line(c.writer, c.to, c.base + n0)));
                    let ghost f4 = f@;
                    f.write_str("}\n");
                    proof { lemma_write_str_keeps(f4, "}\n"@); }
                    assert(f@ == enum_text(c, f0, ename, vname, from@, tag_idx as nat, c.base + n0));
                }
                (Ok(()), Ghost(Picks { pick: tag_idx, kids: Seq::empty() }))
            },
            Ty::Empty => (Ok(()), Ghost(leaf)),
            Ty::Alias(at) => self.walk(f, types, env, options, to, from, at.real, pb, vals, Ghost(d1)),
            Ty::Pun(pt) => {
                proof { lemma_block_index(pt.blocks@.map_values(|x: PunBlockTy| x@), env.lang@, 0); }
                let b = match pun_block(pt, env) {
                    Some(b) => b,
                    None => {
                        proof { assert(false); }
                        return (Ok(()), Ghost(leaf));
                    },
                };
                let ghost bv = pt.blocks@.map_values(|x: PunBlockTy| x@);
                proof { lemma_block_index(bv, env.lang@, 0); }
                assert(bv[b as int] == pt.blocks@[b as int]@);
                let child = kid_at(&pb.kids, b, &none);
                self.walk(f, types, env, options, to, from, pt.blocks[b].real, child, vals, Ghost(d1))
            },
            Ty::Ref(rt) => {
                let mut p = owned("(*");
                push_str(&mut p, from);
                push_str(&mut p, ")");
                self.walk(f, types, env, options, to, p.as_str(), rt.pointee_ty, pb, vals, Ghost(d1))
            },
            Ty::Array(at) => {
                let (res, Ghost(kids)) = self.walk_elems(f, types, env, options, to, from, at.elem_ty, at.len, &pb.kids, vals, Ghost(d1));
                (res, Ghost(Picks { pick: 0, kids }))
            },
            Ty::Struct(st) => {
                assert(fields_view(st.fields@) == tys[ty as int]->Struct_fields);
                assert forall|i: int| 0 <= i < st.fields@.len() implies walkable(tys, env.lang@, (#[trigger] st.fields@[i]).ty as int, d1) by {
                    assert(fields_view(st.fields@)[i] == st.fields@[i]@);
                }
                let (res, Ghost(kids)) = self.walk_list(f, types, env, options, to, from, false, &st.fields, &pb.kids, vals, Ghost(d1));
                (res, Ghost(Picks { pick: 0, kids }))
            },
            Ty::Union(ut) => {
                if vals.remaining() == 0 {
                    return (Err(GenerateError::ValueTreeExhausted), Ghost(leaf));
                }
                let tag = vals.next_val();
                let tag_idx = if ut.fields.len() == 0 { 0 } else { pb.pick % ut.fields.len() };
                if tag.should_write_val(options) {
                    let _ = self.write_tag_field(f, options, to, from, tag_idx, &tag);
                    proof { lemma_write_str_keeps(f0, tag_line(c.writer, c.to, from@, tag_idx as nat, c.base + n0)); }
                }
                if tag_idx < ut.fields.len() {
                    let field = &ut.fields[tag_idx];
                    assert(fields_view(ut.fields@)[tag_idx as int] == ut.fields@[tag_idx as int]@);
                    let p = field_path_text(from, false, field.ident.val.value.as_str());
                    let child = kid_at(&pb.kids, 0, &none);
                    let (res, Ghost(pk)) = self.walk(f, types, env, options, to, p.as_str(), field.ty, child, vals, Ghost(d1));
                    let ghost picks = Picks { pick: tag_idx, kids: seq![pk] };
                    assert(picks.kids[0] == pk);
                    (res, Ghost(picks))
                } else {
                    (Ok(()), Ghost(Picks { pick: tag_idx, kids: Seq::empty() }))
                }
            },
            Ty::Tagged(tt) => self.walk_tagged(f, types, env, options, to, from, ty, tt, pb, vals, Ghost(d)),
        }
    }

    /// The walk over a tagged union: its variant, checked, and the fields
    /// of its picked variant, bound by the check's pattern.
    fn walk_tagged(&self, f: &mut Fivemat, types: &TypedProgram, env: &PunEnv, options: &TestOptions, to: &str, from: &str,
        ty: usize, tt: &TaggedTy, pb: &VariantPicks, vals: &mut ArgValuesIter, Ghost(d): Ghost<nat>) -> (r: (Result<(), GenerateError>, Ghost<Picks>))
        requires
            walkable(types@.tcx.tys, env.lang@, ty as int, d),
            ty < types@.tcx.tys.len(),
            types@.tcx.tys[ty as int] == (Ty::Tagged(*tt))@,
            old(vals).counts_fit(),
            old(f)@.indent < usize::MAX,
            options.val_writer != WriteImpl::Assert,
        ensures
            same_arg(*old(vals), *final(vals)),
            walked(ctx_of(*types, *env, *options, to@, *old(vals)), from@, ty as int, r.1@, old(f)@, old(vals).val_idx() as nat,
                final(f)@, final(vals).val_idx() as nat, r.0 is Ok, d),
            final(f)@.indent == old(f)@.indent,
            final(f)@.indent_text == old(f)@.indent_text,
            r.0 matches Err(e) ==> e is ValueTreeExhausted,
            r.0 is Ok ==> picks_agree(types@.tcx.tys, env.lang@, ty as int, r.1@, pb@, d),
        decreases d, 0int,
    {
        let ghost c = ctx_of(*types, *env, *options, to@, *vals);
        let ghost tys = types@.tcx.tys;
        let ghost d1 = (d - 1) as nat;
        let ghost f0 = f@;
        let ghost n0 = vals.val_idx() as nat;
        let ghost leaf = Picks { pick: 0, kids: Seq::empty() };
        let ghost vv = tt.variants@.map_values(|v: TaggedVariantTy| v@);
        assert(tys[ty as int]->Tagged_variants == vv);
        if vals.remaining() == 0 {
            return (Err(GenerateError::ValueTreeExhausted), Ghost(leaf));
        }
        proof { lemma_picks_view(*pb); }
        let tag = vals.next_val();
        let tag_idx = if tt.variants.len() == 0 { 0 } else { pb.pick % tt.variants.len() };
        if tag_idx >= tt.variants.len() {
            return (Ok(()), Ghost(Picks { pick: tag_idx, kids: Seq::empty() }));
        }
        let variant = &tt.variants[tag_idx];
        assert(vv[tag_idx as int] == variant@);
        let selected = tag.should_write_val(options);
        let mut fi = Fivemat::new(owned("    "));
        fi.add_indent(1);
        assert(fi@ == branch_buffer());
        if selected {
            let _ = self.write_tag_field(&mut fi, options, to, from, tag_idx, &tag);
            proof { lemma_write_str_keeps(branch_buffer(), tag_line(c.writer, c.to, from@, tag_idx as nat, c.base + n0)); }
        }
        let ghost i1 = fi@;
        let ghost mut kids: Seq<Picks> = Seq::empty();
        match &variant.fields {
            Some(fields) => {
                assert(variant_fields(variant@) == fields_view(fields@));
                assert forall|i: int| 0 <= i < fields@.len() implies walkable(tys, env.lang@, (#[trigger] fields@[i]).ty as int, d1) by {
                    assert(fields_view(fields@)[i] == fields@[i]@);
                    assert(variant_fields(vv[tag_idx as int])[i] == fields@[i]@);
                }
                let (res, Ghost(ks)) = self.walk_list(&mut fi, types, env, options, to, from, true, fields, &pb.kids, vals, Ghost(d1));
                proof { kids = ks; }
                if res.is_err() {
                    return (res, Ghost(Picks { pick: tag_idx, kids }));
                }
            },
            None => {
                assert(variant_fields(variant@) =~= Seq::<FieldTyV>::empty());
            },
        }
        let ghost fs_v = variant_fields(vv[tag_idx as int]);
        let ghost inner = spec_write_list(c, from@, true, fs_v, fs_v.len() as int, kids,
            WriteState { f: i1, next: n0 + 1, ok: true }, d1);
        assert(inner.ok);
        assert(inner.f == fi@);
        assert(inner.next == vals.val_idx());
        fi.sub_indent(1);
        let mut fe = Fivemat::new(owned("    "));
        fe.add_indent(1);
        assert(fe@ == branch_buffer());
        if selected {
            let _ = self.write_error_tag_field(&mut fe, options, to, &tag);
            proof { lemma_write_str_keeps(branch_buffer(), err_tag_line(c.writer, c.to, c.base + n0)); }
        }
        fe.sub_indent(1);
        let if_text = fi.output();
        let else_text = fe.output();
        let pat = tagged_pattern_text(tt.name.val.value.as_str(), variant);
        let if_has = if_text.as_str().unicode_len() > 0;
        let else_has = else_text.as_str().unicode_len() > 0;
        if if_has || else_has {
            let mut line = owned("if let ");
            push_str(&mut line, pat.as_str());
            push_str(&mut line, " = &");
            push_str(&mut line, from);
            push_str(&mut line, " {\n");
            f.write_str(line.as_str());
            f.write_str(if_text.as_str());
            f.write_str("}");
        }
        if else_has {
            f.write_str(" else {\n");
            f.write_str(else_text.as_str());
            f.write_str("}\n");
        }
        assert(else_text@ == (if selected { spec_write_str(branch_buffer(), err_tag_line(c.writer, c.to, c.base + n0)) } else { branch_buffer() }).out);
        assert(if_text@ == inner.f.out);
        assert(pat@ == tagged_pattern(tys[ty as int]->Tagged_name.text(), vv[tag_idx as int]));
        assert(selected == selects_val(c.sel, c.func, c.arg, n0 as usize));
        proof {
            let pattern = tagged_pattern(tys[ty as int]->Tagged_name.text(), vv[tag_idx as int]);
            let g1 = spec_write_str(f0, "if let "@ + pattern + " = &"@ + from@ + " {\n"@);
            let g2 = spec_write_str(g1, if_text@);
            let g3 = spec_write_str(g2, "}"@);
            lemma_write_str_keeps(f0, "if let "@ + pattern + " = &"@ + from@ + " {\n"@);
            lemma_write_str_keeps(g1, if_text@);
            lemma_write_str_keeps(g2, "}"@);
            let h0 = if if_text@.len() > 0 || else_text@.len() > 0 { g3 } else { f0 };
            let h1 = spec_write_str(h0, " else {\n"@);
            let h2 = spec_write_str(h1, else_text@);
            lemma_write_str_keeps(h0, " else {\n"@);
            lemma_write_str_keeps(h1, else_text@);
            lemma_write_str_keeps(h2, "}\n"@);
        }
        (Ok(()), Ghost(Picks { pick: tag_idx, kids }))
    }

    /// The walk over each field in turn, at [`field_path`].
    fn walk_list(&self, f: &mut Fivemat, types: &TypedProgram, env: &PunEnv, options: &TestOptions, to: &str, from: &str,
        deref: bool, fs: &Vec<FieldTy>, kb: &Vec<VariantPicks>, vals: &mut ArgValuesIter, Ghost(d): Ghost<nat>)
        -> (r: (Result<(), GenerateError>, Ghost<Seq<Picks>>))
        requires
            forall|i: int| 0 <= i < fs@.len() ==> walkable(types@.tcx.tys, env.lang@, (#[trigger] fs@[i]).ty as int, d),
            old(vals).counts_fit(),
            old(f)@.indent < usize::MAX,
            options.val_writer != WriteImpl::Assert,
        ensures
            same_arg(*old(vals), *final(vals)),
            listed(ctx_of(*types, *env, *options, to@, *old(vals)), from@, deref, fields_view(fs@), r.1@, old(f)@,
                old(vals).val_idx() as nat, final(f)@, final(vals).val_idx() as nat, r.0 is Ok, d),
            final(f)@.indent == old(f)@.indent,
            final(f)@.indent_text == old(f)@.indent_text,
            r.0 matches Err(e) ==> e is ValueTreeExhausted,
            r.0 is Ok ==> r.1@.len() == fs@.len() && forall|i: int| 0 <= i < fs@.len()
                ==> picks_agree(types@.tcx.tys, env.lang@, (#[trigger] fields_view(fs@)[i]).ty as int, r.1@[i], kid(picks_views(kb@), i), d),
        decreases d, 2int,
    {
        let ghost c = ctx_of(*types, *env, *options, to@, *vals);
        let ghost fv = fields_view(fs@);
        let ghost kbv = picks_views(kb@);
        let none = picks_leaf(0);
        let ghost st0 = WriteState { f: f@, next: vals.val_idx() as nat, ok: true };
        let ghost v0 = *vals;
        let ghost mut kids: Seq<Picks> = Seq::empty();
        let mut i: usize = 0;
        while i < fs.len()
            invariant
                i <= fs@.len(),
                fv == fields_view(fs@),
                kids.len() == i,
                kbv == picks_views(kb@),
                none@ == (Picks { pick: 0, kids: Seq::empty() }),
                forall|j: int| 0 <= j < i ==> picks_agree(types@.tcx.tys, env.lang@, (#[trigger] fv[j]).ty as int, kids[j], kid(kbv, j), d),
                v0 == *old(vals),
                st0 == (WriteState { f: old(f)@, next: old(vals).val_idx() as nat, ok: true }),
                same_arg(v0, *vals),
                c == ctx_of(*types, *env, *options, to@, v0),
                spec_write_list(c, from@, deref, fv, i as int, kids, st0, d).ok,
                spec_write_list(c, from@, deref, fv, i as int, kids, st0, d).f == f@,
                spec_write_list(c, from@, deref, fv, i as int, kids, st0, d).next == vals.val_idx(),
                f@.indent == st0.f.indent,
                f@.indent_text == st0.f.indent_text,
                f@.indent < usize::MAX,
                forall|j: int| 0 <= j < fs@.len() ==> walkable(types@.tcx.tys, env.lang@, (#[trigger] fs@[j]).ty as int, d),
                options.val_writer != WriteImpl::Assert,
            decreases fs@.len() - i,
        {
            assert(fv[i as int] == fs@[i as int]@);
            let p = field_path_text(from, deref, fs[i].ident.val.value.as_str());
            let child = kid_at(kb, i, &none);
            let (res, Ghost(pk)) = self.walk(f, types, env, options, to, p.as_str(), fs[i].ty, child, vals, Ghost(d));
            let ghost old_kids = kids;
            proof {
                lemma_list_frame(c, from@, deref, fv, i as int, kids, kids.push(pk), st0, d);
                kids = kids.push(pk);
                assert(kids[i as int] == pk);
            }
            if res.is_err() {
                proof { lemma_list_stop(c, from@, deref, fv, i + 1, fs@.len() as int, kids, st0, d); }
                return (res, Ghost(kids));
            }
            assert forall|j: int| 0 <= j < i + 1 implies picks_agree(types@.tcx.tys, env.lang@, (#[trigger] fv[j]).ty as int, kids[j], kid(kbv, j), d) by {
                if j < i {
                    assert(kids[j] == old_kids[j]);
                }
            }
            i = i + 1;
        }
        (Ok(()), Ghost(kids))
    }

    /// The walk over each element in turn, at `from[i]`.
    fn walk_elems(&self, f: &mut Fivemat, types: &TypedProgram, env: &PunEnv, options: &TestOptions, to: &str, from: &str,
        elem: usize, len: u64, kb: &Vec<VariantPicks>, vals: &mut ArgValuesIter, Ghost(d): Ghost<nat>)
        -> (r: (Result<(), GenerateError>, Ghost<Seq<Picks>>))
        requires
            walkable(types@.tcx.tys, env.lang@, elem as int, d),
            old(vals).counts_fit(),
            old(f)@.indent < usize::MAX,
            options.val_writer != WriteImpl::Assert,
        ensures
            same_arg(*old(vals), *final(vals)),
            elems_walked(ctx_of(*types, *env, *options, to@, *old(vals)), from@, elem as int, len as int, r.1@, old(f)@,
                old(vals).val_idx() as nat, final(f)@, final(vals).val_idx() as nat, r.0 is Ok, d),
            final(f)@.indent == old(f)@.indent,
            final(f)@.indent_text == old(f)@.indent_text,
            r.0 matches Err(e) ==> e is ValueTreeExhausted,
            r.0 is Ok ==> r.1@.len() == len && forall|i: int| #![trigger kid(picks_views(kb@), i)] 0 <= i < len
                ==> picks_agree(types@.tcx.tys, env.lang@, elem as int, r.1@[i], kid(picks_views(kb@), i), d),
        decreases d, 2int,
    {
        let ghost c = ctx_of(*types, *env, *options, to@, *vals);
        let ghost kbv = picks_views(kb@);
        let none = picks_leaf(0);
        let ghost st0 = WriteState { f: f@, next: vals.val_idx() as nat, ok: true };
        let ghost v0 = *vals;
        let ghost mut kids: Seq<Picks> = Seq::empty();
        let mut i: u64 = 0;
        while i < len
            invariant
                i <= len,
                kids.len() == i,
                kbv == picks_views(kb@),
                none@ == (Picks { pick: 0, kids: Seq::empty() }),
                forall|j: int| #![trigger kid(kbv, j)] 0 <= j < i ==> picks_agree(types@.tcx.tys, env.lang@, elem as int, kids[j], kid(kbv, j), d),
                v0 == *old(vals),
                st0 == (WriteState { f: old(f)@, next: old(vals).val_idx() as nat, ok: true }),
                same_arg(v0, *vals),
                c == ctx_of(*types, *env, *options, to@, v0),
                spec_write_elems(c, from@, elem as int, i as int, kids, st0, d).ok,
                spec_write_elems(c, from@, elem as int, i as int, kids, st0, d).f == f@,
                spec_write_elems(c, from@, elem as int, i as int, kids, st0, d).next == vals.val_idx(),
                f@.indent == st0.f.indent,
                f@.indent_text == st0.f.indent_text,
                f@.indent < usize::MAX,
                walkable(types@.tcx.tys, env.lang@, elem as int, d),
                options.val_writer != WriteImpl::Assert,
            decreases len - i,
        {
            let mut p = owned(from);
            push_str(&mut p, "[");
            push_decimal(&mut p, i);
            push_str(&mut p, "]");
            let child = if i < kb.len() as u64 { &kb[i as usize] } else { &none };
            assert(child@ == kid(kbv, i as int));
            let (res, Ghost(pk)) = self.walk(f, types, env, options, to, p.as_str(), elem, child, vals, Ghost(d));
            let ghost old_kids = kids;
            proof {
                lemma_elems_frame(c, from@, elem as int, i as int, kids, kids.push(pk), st0, d);
                kids = kids.push(pk);
                assert(kids[i as int] == pk);
            }
            if res.is_err() {
                proof { lemma_elems_stop(c, from@, elem as int, i + 1, len as int, kids, st0, d); }
                return (res, Ghost(kids));
            }
            assert forall|j: int| #![trigger kid(kbv, j)] 0 <= j < i + 1 implies picks_agree(types@.tcx.tys, env.lang@, elem as int, kids[j], kid(kbv, j), d) by {
                if j < i {
                    assert(kids[j] == old_kids[j]);
                }
            }
            i = i + 1;
        }
        (Ok(()), Ghost(kids))
    }
}

} // verus!

verus! {

impl RustcToolchain {
    /// Reports the value at `from`, of type `var_ty`, taking its values
    /// from `vals`: each leaf the options select is reported with the
    /// index of its value among the function's; an enum's variant is
    /// checked with an `if let`, a union's reported and its picked field
    /// walked, a tagged union's checked with an `if let` on the picked
    /// variant that binds its fields, which are walked inside it; a pun is
    /// walked as its block for the language. Each union, tagged union and
    /// enum has the variant `picks` records for it, the one its value's
    /// generator drew when the values were made (a pun's block takes the
    /// picks of that block). Fails only if the argument runs out of values.
    pub fn write_fields(&self, f: &mut Fivemat, types: &TypedProgram, env: &PunEnv, options: &TestOptions, to: &str, from: &str,
        var_ty: usize, picks: &VariantPicks, vals: &mut ArgValuesIter) -> (r: Result<(), GenerateError>)
        requires
            value_walkable(types@.tcx.tys, env.lang@, var_ty as int),
            old(vals).counts_fit(),
            old(f)@.indent < usize::MAX,
            options.val_writer != WriteImpl::Assert,
        ensures
            same_arg(*old(vals), *final(vals)),
            exists|pk: Picks| #[trigger] walked(ctx_of(*types, *env, *options, to@, *old(vals)), from@, var_ty as int, pk, old(f)@,
                old(vals).val_idx() as nat, final(f)@, final(vals).val_idx() as nat, r is Ok,
                walk_fuel(types@.tcx.tys, env.lang@, var_ty as int))
                && (r is Ok ==> picks_agree(types@.tcx.tys, env.lang@, var_ty as int, pk, picks@,
                    walk_fuel(types@.tcx.tys, env.lang@, var_ty as int))),
            r matches Err(e) ==> e is ValueTreeExhausted,
    {
        let ghost d = walk_fuel(types@.tcx.tys, env.lang@, var_ty as int);
        let (r, Ghost(pk)) = self.walk(f, types, env, options, to, from, var_ty, picks, vals, Ghost(d));
        r
    }

    /// Reports the argument `var_name`, of type `var_ty`, whose values
    /// `vals` walks, into the buffer `to`: nothing if the options do not
    /// select the argument or report nothing; otherwise as
    /// [`RustcToolchain::write_fields`] does, with the variants recorded for
    /// the argument. Started at the argument's first value, over values made
    /// for its type, a walk that succeeds uses exactly those values.
    pub fn write_var(&self, f: &mut Fivemat, types: &TypedProgram, env: &PunEnv, options: &TestOptions, var_name: &str,
        var_ty: usize, vals: ArgValuesIter, to: &str) -> (r: Result<(), GenerateError>)
        requires
            value_walkable(types@.tcx.tys, env.lang@, var_ty as int),
            vals.counts_fit(),
            old(f)@.indent < usize::MAX,
            options.val_writer != WriteImpl::Assert,
        ensures
            !selects_arg(options.functions, vals.func_idx(), vals.arg_pos()) || options.val_writer == WriteImpl::Noop
                ==> r is Ok && final(f)@ == old(f)@,
            selects_arg(options.functions, vals.func_idx(), vals.arg_pos()) && options.val_writer != WriteImpl::Noop
                ==> exists|pk: Picks, n: nat| #[trigger] walked(ctx_of(*types, *env, *options, to@, vals), var_name@, var_ty as int, pk,
                    old(f)@, vals.val_idx() as nat, final(f)@, n, r is Ok, walk_fuel(types@.tcx.tys, env.lang@, var_ty as int))
                    && (r is Ok ==> picks_agree(types@.tcx.tys, env.lang@, var_ty as int, pk,
                        vals.tree().funcs@[vals.func_idx() as int].args@[vals.arg_pos() as int].picks@,
                        walk_fuel(types@.tcx.tys, env.lang@, var_ty as int)))
                    && ({
                        let av = vals.tree().funcs@[vals.func_idx() as int].args@[vals.arg_pos() as int];
                        r is Ok && vals.val_idx() == 0 && av.ty == var_ty && arg_ok(types@.tcx.tys, av)
                            && value_finite(types@.tcx.tys, var_ty as int) ==> n == av.vals@.len()
                    }),
            r matches Err(e) ==> e is ValueTreeExhausted,
    {
        let mut vals = vals;
        if !vals.should_write_arg(options) {
            return Ok(());
        }
        if let WriteImpl::Noop = options.val_writer {
            return Ok(());
        }
        let ghost v0 = vals;
        let picks = &vals.arg().picks;
        let r = self.write_fields(f, types, env, options, to, var_name, var_ty, picks, &mut vals);
        let ghost fuel = walk_fuel(types@.tcx.tys, env.lang@, var_ty as int);
        let ghost av = v0.tree().funcs@[v0.func_idx() as int].args@[v0.arg_pos() as int];
        let ghost c = ctx_of(*types, *env, *options, to@, v0);
        let ghost pk = choose|pk: Picks| #[trigger] walked(c, var_name@, var_ty as int, pk,
            old(f)@, v0.val_idx() as nat, f@, vals.val_idx() as nat, r is Ok, fuel)
            && (r is Ok ==> picks_agree(types@.tcx.tys, env.lang@, var_ty as int, pk, av.picks@, fuel));
        proof {
            if r is Ok && v0.val_idx() == 0 && av.ty == var_ty && arg_ok(types@.tcx.tys, av)
                && value_finite(types@.tcx.tys, var_ty as int) {
                lemma_arg_walk_uses_its_values(c, var_name@, av, pk, old(f)@);
            }
        }
        assert(walked(c, var_name@, var_ty as int, pk, old(f)@, v0.val_idx() as nat, f@, vals.val_idx() as nat, r is Ok, fuel)
            && (r is Ok ==> picks_agree(types@.tcx.tys, env.lang@, var_ty as int, pk, av.picks@, fuel))
            && (r is Ok && v0.val_idx() == 0 && av.ty == var_ty && arg_ok(types@.tcx.tys, av)
                && value_finite(types@.tcx.tys, var_ty as int) ==> vals.val_idx() as nat == av.vals@.len()));
        r
    }
}

} // verus!

verus! {

/// The type a definition declares or defines, if it is one of a type.
pub open spec fn def_ty(d: Definition) -> Option<usize> {
    match d {
        Definition::DeclareTy(t) | Definition::DefineTy(t) => Some(t),
        _ => None,
    }
}

/// Whether the definition is of the primitive `p`.
pub open spec fn is_prim_def(tys: Seq<TyV>, d: Definition, p: PrimitiveTy) -> bool {
    match def_ty(d) {
        Some(t) => t < tys.len() && tys[t as int] == TyV::Primitive(p),
        None => false,
    }
}

/// Whether one of the definitions is of the primitive `p`.
pub open spec fn defines_prim(tys: Seq<TyV>, defs: Seq<Definition>, p: PrimitiveTy) -> bool {
    exists|i: int| 0 <= i < defs.len() && #[trigger] is_prim_def(tys, defs[i], p)
}

/// The definitions the functions `funcs` need, in the order they come.
pub open spec fn needed_defs(g: DefinitionGraphV, funcs: Seq<usize>) -> Seq<Definition> {
    spec_definitions(g.adj, g.order, wanted_of(g, funcs), g.order.len() as int)
}

/// What starts a test that reports to the harness: the features it needs
/// (the vectorcall convention, the half and quad precision floats), then
/// the harness's prefix and an empty line. A test that does not report to
/// the harness needs none of it.
pub open spec fn prefix_written(options: TestOptions, half: bool, quad: bool, prefix: Seq<char>, f: FivematV) -> FivematV {
    if options.val_writer != WriteImpl::HarnessCallback {
        f
    } else {
        let f1 = if options.convention == CallingConvention::Vectorcall { spec_write_str(f, "#![feature(abi_vectorcall)]\n"@) } else { f };
        let f2 = if half { spec_write_str(f1, "#![feature(f16)]\n"@) } else { f1 };
        let f3 = if quad { spec_write_str(f2, "#![feature(f128)]\n"@) } else { f2 };
        spec_write_str(spec_write_str(spec_write_str(f3, prefix), "\n"@), "\n"@)
    }
}

impl RustcToolchain {
    /// Starts a test that reports to the harness: the features its
    /// definitions and convention need, then `harness_prefix`, the harness's
    /// declarations for Rust.
    pub fn write_harness_prefix(&self, f: &mut Fivemat, types: &TypedProgram, defs: &DefinitionGraph, desired_funcs: &Vec<usize>,
        options: &TestOptions, harness_prefix: &str) -> (r: Result<(), GenerateError>)
        requires
            forall|i: int| 0 <= i < desired_funcs@.len() ==> #[trigger] desired_funcs@[i] < defs@.func_nodes.len(),
        ensures
            r is Ok,
            final(f)@ == prefix_written(*options,
                defines_prim(types@.tcx.tys, needed_defs(defs@, desired_funcs@), PrimitiveTy::F16),
                defines_prim(types@.tcx.tys, needed_defs(defs@, desired_funcs@), PrimitiveTy::F128),
                harness_prefix@, old(f)@),
    {
        match options.val_writer {
            WriteImpl::HarnessCallback => {},
            _ => return Ok(()),
        }
        if matches!(options.convention, CallingConvention::Vectorcall) {
            f.write_str("#![feature(abi_vectorcall)]\n");
        }
        let list = defs.definitions(desired_funcs);
        let ghost tys = types@.tcx.tys;
        let mut has_half = false;
        let mut has_quad = false;
        let mut i: usize = 0;
        while i < list.len()
            invariant
                i <= list@.len(),
                tys == types@.tcx.tys,
                has_half <==> exists|j: int| 0 <= j < i && #[trigger] is_prim_def(tys, list@[j], PrimitiveTy::F16),
                has_quad <==> exists|j: int| 0 <= j < i && #[trigger] is_prim_def(tys, list@[j], PrimitiveTy::F128),
            decreases list@.len() - i,
        {
            let t = match list[i] {
                Definition::DeclareTy(t) | Definition::DefineTy(t) => Some(t),
                _ => None,
            };
            assert(def_ty(list@[i as int]) == t);
            let mut is_half = false;
            let mut is_quad = false;
            if let Some(t) = t {
                if t < types.num_tys() {
                    match types.realize_ty(t) {
                        Ty::Primitive(PrimitiveTy::F16) => { is_half = true; },
                        Ty::Primitive(PrimitiveTy::F128) => { is_quad = true; },
                        _ => {},
                    }
                }
            }
            assert(is_half == is_prim_def(tys, list@[i as int], PrimitiveTy::F16));
            assert(is_quad == is_prim_def(tys, list@[i as int], PrimitiveTy::F128));
            has_half = has_half || is_half;
            has_quad = has_quad || is_quad;
            i = i + 1;
        }
        if has_half {
            f.write_str("#![feature(f16)]\n");
        }
        if has_quad {
            f.write_str("#![feature(f128)]\n");
        }
        f.write_str(harness_prefix);
        f.write_str("\n");
        f.write_str("\n");
        Ok(())
    }
}

} // verus!

verus! {

/// The lines of `s`: split at each `'\n'`, a `'\r'` just before one
/// dropped, and no empty line after a final `'\n'`.
pub open spec fn text_lines(s: Seq<char>) -> Seq<Seq<char>>
    decreases s.len(),
{
    if s.len() == 0 {
        Seq::empty()
    } else {
        proof { lemma_find_newline(s, 0); }
        match find_newline(s, 0) {
            Some(p) => seq![strip_cr(s.subrange(0, p))] + text_lines(s.subrange(p + 1, s.len() as int)),
            None => seq![s],
        }
    }
}

/// Whether `s` starts with `p`.
pub open spec fn starts_with(s: Seq<char>, p: Seq<char>) -> bool {
    p.len() <= s.len() && s.subrange(0, p.len() as int) == p
}

/// The position of the first `c` of `s` at or after `i`.
pub open spec fn find_char(s: Seq<char>, c: char, i: int) -> Option<int>
    decreases s.len() - i,
{
    if i < 0 || i >= s.len() {
        None
    } else if s[i] == c {
        Some(i)
    } else {
        find_char(s, c, i + 1)
    }
}

proof fn lemma_find_char(s: Seq<char>, c: char, i: int)
    ensures
        find_char(s, c, i) matches Some(p) ==> 0 <= i <= p < s.len() && s[p] == c,
    decreases s.len() - i,
{
    if 0 <= i < s.len() && s[i] != c {
        lemma_find_char(s, c, i + 1);
    }
}

/// What one line of `rustc -vV` adds to the version and host read so far:
/// a line `host: H` gives the host `H`; a line `rustc V ...` the version
/// `V` (the text up to the first space after `rustc `).
pub open spec fn info_step(acc: (Option<Seq<char>>, Option<Seq<char>>), line: Seq<char>) -> (Option<Seq<char>>, Option<Seq<char>>) {
    let host = if starts_with(line, "host: "@) { Some(line.subrange("host: "@.len() as int, line.len() as int)) } else { acc.1 };
    let version = if starts_with(line, "rustc "@) {
        let rest = line.subrange("rustc "@.len() as int, line.len() as int);
        match find_char(rest, ' ', 0) {
            Some(i) => Some(rest.subrange(0, i)),
            None => acc.0,
        }
    } else {
        acc.0
    };
    (version, host)
}

/// The version and host read from the lines `ls`, starting from `acc`; a
/// later line wins.
pub open spec fn info_of(acc: (Option<Seq<char>>, Option<Seq<char>>), ls: Seq<Seq<char>>) -> (Option<Seq<char>>, Option<Seq<char>>)
    decreases ls.len(),
{
    if ls.len() == 0 {
        acc
    } else {
        info_of(info_step(acc, ls[0]), ls.drop_first())
    }
}

/// The text of a string, if there is one.
pub open spec fn opt_text(o: Option<String>) -> Option<Seq<char>> {
    match o {
        Some(s) => Some(s@),
        None => None,
    }
}

/// The version and host that the output of `rustc -vV` reports.
pub open spec fn spec_rustc_info(out: Seq<char>) -> (Option<Seq<char>>, Option<Seq<char>>) {
    info_of((None, None), text_lines(out))
}

/// Whether `cs[from..to]` starts with `p`.
fn range_starts_with(cs: &Vec<char>, from: usize, to: usize, p: &str) -> (r: bool)
    requires
        from <= to <= cs@.len(),
    ensures
        r == starts_with(cs@.subrange(from as int, to as int), p@),
{
    let pc = chars_of(p);
    let n = pc.len();
    if n > to - from {
        return false;
    }
    let mut k: usize = 0;
    while k < n && cs[from + k] == pc[k]
        invariant
            k <= n,
            n == pc@.len(),
            pc@ == p@,
            from + n <= to <= cs@.len(),
            forall|m: int| 0 <= m < k ==> cs@[from + m] == pc@[m],
        decreases n - k,
    {
        k = k + 1;
    }
    let ghost line = cs@.subrange(from as int, to as int);
    if k == n {
        assert(line.subrange(0, n as int) =~= p@);
        true
    } else {
        assert(line.subrange(0, n as int)[k as int] != p@[k as int]);
        false
    }
}

/// The position of the first `c` in `cs[from..to]`, counted from `from`.
fn range_find_char(cs: &Vec<char>, from: usize, to: usize, c: char) -> (r: Option<usize>)
    requires
        from <= to <= cs@.len(),
    ensures
        match find_char(cs@.subrange(from as int, to as int), c, 0) {
            Some(i) => r == Some(i as usize),
            None => r is None,
        },
{
    let ghost line = cs@.subrange(from as int, to as int);
    let mut i: usize = from;
    while i < to
        invariant
            from <= i <= to <= cs@.len(),
            line == cs@.subrange(from as int, to as int),
            find_char(line, c, 0) == find_char(line, c, (i - from) as int),
        decreases to - i,
    {
        if cs[i] == c {
            return Some(i - from);
        }
        i = i + 1;
    }
    None
}

/// The text of `cs[from..to]`.
fn range_string(cs: &Vec<char>, from: usize, to: usize) -> (r: String)
    requires
        from <= to <= cs@.len(),
    ensures
        r@ == cs@.subrange(from as int, to as int),
{
    string_of_range(cs.as_slice(), from, to)
}

/// The version of rustc and its host triple, as its `-vV` output `out`
/// reports them: the last line `host: H` gives the host, the last line
/// `rustc V ...` with a space after the version gives the version.
pub fn rustc_info(out: &str) -> (r: (Option<String>, Option<String>))
    ensures
        (opt_text(r.0), opt_text(r.1)) == spec_rustc_info(out@),
{
    let cs = chars_of(out);
    let n = cs.len();
    let mut version: Option<String> = None;
    let mut host: Option<String> = None;
    let mut start: usize = 0;
    assert(cs@.subrange(0, n as int) =~= out@);
    while start < n
        invariant
            n == cs@.len(),
            cs@ == out@,
            start <= n,
            info_of((None, None), text_lines(out@)) == info_of(
                (opt_text(version), opt_text(host)),
                text_lines(cs@.subrange(start as int, n as int))),
        decreases n - start,
    {
        let ghost rest = cs@.subrange(start as int, n as int);
        let ghost acc = (opt_text(version), opt_text(host));
        let mut p: usize = start;
        while p < n && cs[p] != '\n'
            invariant
                start <= p <= n,
                n == cs@.len(),
                rest == cs@.subrange(start as int, n as int),
                find_newline(rest, 0) == find_newline(rest, (p - start) as int),
            decreases n - p,
        {
            p = p + 1;
        }
        let mut end = p;
        let next;
        if p < n {
            assert(find_newline(rest, 0) == Some((p - start) as int));
            if end > start && cs[end - 1] == '\r' {
                end = end - 1;
            }
            assert(cs@.subrange(start as int, end as int) =~= strip_cr(rest.subrange(0, (p - start) as int)));
            assert(rest.subrange((p - start) + 1, rest.len() as int) =~= cs@.subrange(p + 1, n as int));
            next = p + 1;
        } else {
            assert(find_newline(rest, 0) is None);
            assert(cs@.subrange(start as int, end as int) =~= rest);
            assert(cs@.subrange(n as int, n as int) =~= Seq::<char>::empty());
            next = n;
        }
        let ghost line = cs@.subrange(start as int, end as int);
        assert(text_lines(rest) == seq![line] + text_lines(cs@.subrange(next as int, n as int)));
        assert((seq![line] + text_lines(cs@.subrange(next as int, n as int))).drop_first()
            =~= text_lines(cs@.subrange(next as int, n as int)));
        if range_starts_with(&cs, start, end, "host: ") {
            let k = chars_of("host: ").len();
            assert(line.subrange(k as int, line.len() as int) =~= cs@.subrange(start + k, end as int));
            host = Some(range_string(&cs, start + k, end));
        }
        if range_starts_with(&cs, start, end, "rustc ") {
            let k = chars_of("rustc ").len();
            let rest_from = start + k;
            assert(line.subrange(k as int, line.len() as int) =~= cs@.subrange(rest_from as int, end as int));
            proof { lemma_find_char(cs@.subrange(rest_from as int, end as int), ' ', 0); }
            match range_find_char(&cs, rest_from, end, ' ') {
                Some(i) => {
                    assert(cs@.subrange(rest_from as int, end as int).subrange(0, i as int)
                        =~= cs@.subrange(rest_from as int, rest_from + i));
                    version = Some(range_string(&cs, rest_from, rest_from + i));
                },
                None => {},
            }
        }
        assert((opt_text(version), opt_text(host)) == info_step(acc, line));
        start = next;
    }
    assert(cs@.subrange(n as int, n as int) =~= Seq::<char>::empty());
    (version, host)
}

} // verus!

verus! {

impl RustcToolchain {
    /// The toolchain of the rustc run by `command`, from what it reported
    /// of itself (`rustc_vv`, the output of `rustc -vV`): its version, a
    /// nightly if the version says so, and its host as the target; and
    /// the platform its configuration names.
    pub fn new(command: String, rustc_vv: &str, platform: Platform, codegen_backend: Option<String>) -> (r: RustcToolchain)
        requires
            spec_rustc_info(rustc_vv@).0 is Some,
            spec_rustc_info(rustc_vv@).1 is Some,
        ensures
            r.command@ == command@,
            r.version@ == spec_rustc_info(rustc_vv@).0->Some_0,
            r.target@ == spec_rustc_info(rustc_vv@).1->Some_0,
            r.is_nightly == seq_contains(r.version@, "nightly"@),
            r.platform == platform,
            r.codegen_backend == codegen_backend,
    {
        let (version, host) = rustc_info(rustc_vv);
        let version = match version {
            Some(v) => v,
            None => owned(""),
        };
        let target = match host {
            Some(h) => h,
            None => owned(""),
        };
        let is_nightly = str_contains(version.as_str(), "nightly");
        RustcToolchain { command, version, is_nightly, target, platform, codegen_backend }
    }
}

} // verus!

verus! {

/// The position of the first of `blocks`, from `i` on, that applies to
/// `lang`.
pub open spec fn block_index(blocks: Seq<PunBlockTyV>, lang: Seq<char>, i: int) -> Option<int>
    decreases blocks.len() - i,
{
    if i < 0 || i >= blocks.len() {
        None
    } else if spec_matches(blocks[i].selector, lang) {
        Some(i)
    } else {
        block_index(blocks, lang, i + 1)
    }
}

proof fn lemma_block_index(blocks: Seq<PunBlockTyV>, lang: Seq<char>, i: int)
    ensures
        match block_index(blocks, lang, i) {
            Some(b) => i <= b < blocks.len() && spec_pick_block(blocks, lang, i) == Some(blocks[b].real),
            None => spec_pick_block(blocks, lang, i) is None,
        },
    decreases blocks.len() - i,
{
    if 0 <= i < blocks.len() && !spec_matches(blocks[i].selector, lang) {
        lemma_block_index(blocks, lang, i + 1);
    }
}

/// The picks `pw` of a walk over type `t` agree with the picks `pb` the
/// type's values were made with: each union and tagged union has the
/// variant the values were made for, and a pun's block for `lang` is
/// walked with the picks of that block.
pub open spec fn picks_agree(tys: Seq<TyV>, lang: Seq<char>, t: int, pw: Picks, pb: Picks, d: nat) -> bool
    decreases d,
{
    if d == 0 || t < 0 || t >= tys.len() {
        true
    } else {
        let d1 = (d - 1) as nat;
        match tys[t] {
            TyV::Alias { real: target, .. } => picks_agree(tys, lang, target as int, pw, pb, d1),
            TyV::Ref(r) => picks_agree(tys, lang, r.pointee_ty as int, pw, pb, d1),
            TyV::Struct { fields, .. } => forall|i: int| 0 <= i < fields.len()
                ==> picks_agree(tys, lang, (#[trigger] fields[i]).ty as int, pw.kids[i], kid(pb.kids, i), d1),
            TyV::Array(a) => forall|i: int| #![trigger kid(pb.kids, i)] 0 <= i < a.len
                ==> picks_agree(tys, lang, a.elem_ty as int, pw.kids[i], kid(pb.kids, i), d1),
            TyV::Union { fields, .. } => fields.len() == 0 || (pw.pick as int == pb.pick as int % fields.len() as int
                && picks_agree(tys, lang, fields[pw.pick as int].ty as int, pw.kids[0], kid(pb.kids, 0), d1)),
            TyV::Tagged { variants, .. } => variants.len() == 0 || (pw.pick as int == pb.pick as int % variants.len() as int
                && forall|i: int| 0 <= i < variant_fields(variants[pw.pick as int]).len()
                    ==> picks_agree(tys, lang, (#[trigger] variant_fields(variants[pw.pick as int])[i]).ty as int, pw.kids[i], kid(pb.kids, i), d1)),
            TyV::Pun { blocks, .. } => match block_index(blocks, lang, 0) {
                Some(b) => picks_agree(tys, lang, blocks[b].real as int, pw, kid(pb.kids, b), d1),
                None => false,
            },
            _ => true,
        }
    }
}

proof fn lemma_pun_counts(tys: Seq<TyV>, name: Seq<char>, blocks: Seq<PunBlockTyV>, k: int, path: Seq<char>, kids: Seq<Picks>, d: nat)
    requires
        spec_pun_leaves(tys, name, blocks, k, path, kids, d) matches Ok(Some(_)),
    ensures
        forall|b: int| 0 <= b < k ==> (#[trigger] spec_leaves(tys, blocks[b].real as int, path, kid(kids, b), d) matches Ok(lb)
            && lb.len() == spec_pun_leaves(tys, name, blocks, k, path, kids, d)->Ok_0->Some_0.len()),
    decreases k,
{
    let prev = spec_pun_leaves(tys, name, blocks, k - 1, path, kids, d);
    let last = spec_leaves(tys, blocks[k - 1].real as int, path, kid(kids, k - 1), d);
    if let Ok(Some(pl)) = prev {
        lemma_pun_counts(tys, name, blocks, k - 1, path, kids, d);
    }
}

proof fn lemma_fields_leaves_prefix(tys: Seq<TyV>, fs: Seq<FieldTyV>, k: int, prefix: Seq<char>, kids: Seq<Picks>, d: nat)
    requires
        0 < k <= fs.len(),
        spec_fields_leaves(tys, fs, k, prefix, kids, d) is Ok,
    ensures
        spec_fields_leaves(tys, fs, k - 1, prefix, kids, d) is Ok,
        spec_leaves(tys, fs[k - 1].ty as int, prefix + "."@ + fs[k - 1].ident.text(), kid(kids, k - 1), d) is Ok,
        spec_fields_leaves(tys, fs, k, prefix, kids, d)->Ok_0 == spec_fields_leaves(tys, fs, k - 1, prefix, kids, d)->Ok_0
            + spec_leaves(tys, fs[k - 1].ty as int, prefix + "."@ + fs[k - 1].ident.text(), kid(kids, k - 1), d)->Ok_0,
{
}

/// The walk over a value whose picks agree with those its values were
/// made with uses exactly the values made for it, if the argument has
/// them left: it does not run out, and stops where they end.
pub proof fn lemma_walk_uses_made_values(c: WriteCtx, from: Seq<char>, path: Seq<char>, t: int, pw: Picks, pb: Picks,
    st: WriteState, d: nat)
    requires
        st.ok,
        picks_agree(c.tys, c.lang, t, pw, pb, d),
        spec_leaves(c.tys, t, path, pb, d) is Ok,
        st.next + spec_leaves(c.tys, t, path, pb, d)->Ok_0.len() <= c.count,
    ensures
        spec_write_fields(c, from, t, pw, st, d).ok,
        spec_write_fields(c, from, t, pw, st, d).next == st.next + spec_leaves(c.tys, t, path, pb, d)->Ok_0.len(),
    decreases d, 0int,
{
    if d == 0 || t < 0 || t >= c.tys.len() {
        return;
    }
    let d1 = (d - 1) as nat;
    match c.tys[t] {
        TyV::Alias { real: target, .. } => {
            lemma_walk_uses_made_values(c, from, path, target as int, pw, pb, st, d1);
        },
        TyV::Ref(r) => {
            lemma_walk_uses_made_values(c, "(*"@ + from + ")"@, path + ".*"@, r.pointee_ty as int, pw, pb, st, d1);
        },
        TyV::Struct { fields, .. } => {
            lemma_list_uses_made_values(c, from, false, fields, fields.len() as int, pw.kids, path, pb.kids, st, d1);
        },
        TyV::Array(a) => {
            lemma_elems_use_made_values(c, from, a.elem_ty as int, a.len as int, pw.kids, path, pb.kids, st, d1);
        },
        TyV::Union { fields, .. } => {
            if fields.len() > 0 {
                let fd = fields[pb.pick as int % fields.len() as int];
                let st1 = WriteState {
                    f: if selects_val(c.sel, c.func, c.arg, st.next as usize) {
                        spec_write_str(st.f, tag_line(c.writer, c.to, from, pw.pick as nat, c.base + st.next))
                    } else {
                        st.f
                    },
                    next: st.next + 1,
                    ok: true,
                };
                lemma_walk_uses_made_values(c, from + "."@ + fd.ident.text(), path + "."@ + fd.ident.text(), fd.ty as int,
                    pw.kids[0], kid(pb.kids, 0), st1, d1);
            }
        },
        TyV::Tagged { variants, .. } => {
            if variants.len() > 0 {
                let v = variants[pw.pick as int];
                let fs = variant_fields(v);
                let i1 = if selects_val(c.sel, c.func, c.arg, st.next as usize) {
                    spec_write_str(branch_buffer(), tag_line(c.writer, c.to, from, pw.pick as nat, c.base + st.next))
                } else {
                    branch_buffer()
                };
                lemma_list_uses_made_values(c, from, true, fs, fs.len() as int, pw.kids, path + "."@ + v.name.text(), pb.kids,
                    WriteState { f: i1, next: st.next + 1, ok: true }, d1);
            }
        },
        TyV::Pun { name, blocks, .. } => {
            lemma_block_index(blocks, c.lang, 0);
            let b = block_index(blocks, c.lang, 0)->Some_0;
            lemma_pun_counts(c.tys, name.text(), blocks, blocks.len() as int, path, pb.kids, d1);
            assert(spec_leaves(c.tys, blocks[b].real as int, path, kid(pb.kids, b), d1) is Ok);
            lemma_walk_uses_made_values(c, from, path, blocks[b].real as int, pw, kid(pb.kids, b), st, d1);
        },
        _ => {},
    }
}

/// With fuel enough to walk type `t`, more fuel walks it the same way.
proof fn lemma_write_fuel(c: WriteCtx, from: Seq<char>, t: int, pk: Picks, st: WriteState, d1: nat, d2: nat)
    requires
        walkable(c.tys, c.lang, t, d1),
        d1 <= d2,
    ensures
        spec_write_fields(c, from, t, pk, st, d1) == spec_write_fields(c, from, t, pk, st, d2),
    decreases d1, 0int,
{
    if !st.ok {
        return;
    }
    let e1 = (d1 - 1) as nat;
    let e2 = (d2 - 1) as nat;
    match c.tys[t] {
        TyV::Alias { real: target, .. } => lemma_write_fuel(c, from, target as int, pk, st, e1, e2),
        TyV::Pun { blocks, .. } => {
            if let Some(r) = spec_pick_block(blocks, c.lang, 0) {
                lemma_write_fuel(c, from, r as int, pk, st, e1, e2);
            }
        },
        TyV::Ref(r) => lemma_write_fuel(c, "(*"@ + from + ")"@, r.pointee_ty as int, pk, st, e1, e2),
        TyV::Array(a) => lemma_elems_fuel(c, from, a.elem_ty as int, a.len as int, pk.kids, st, e1, e2),
        TyV::Struct { fields, .. } => lemma_list_fuel(c, from, false, fields, fields.len() as int, pk.kids, st, e1, e2),
        TyV::Union { fields, .. } => {
            if st.next < c.count && pk.pick < fields.len() {
                let selected = selects_val(c.sel, c.func, c.arg, st.next as usize);
                let st1 = WriteState {
                    f: if selected { spec_write_str(st.f, tag_line(c.writer, c.to, from, pk.pick as nat, c.base + st.next)) } else { st.f },
                    next: st.next + 1,
                    ok: true,
                };
                let fd = fields[pk.pick as int];
                assert(walkable(c.tys, c.lang, fd.ty as int, e1));
                lemma_write_fuel(c, from + "."@ + fd.ident.text(), fd.ty as int, pk.kids[0], st1, e1, e2);
            }
        },
        TyV::Tagged { variants, .. } => {
            if st.next < c.count && pk.pick < variants.len() {
                let fs = variant_fields(variants[pk.pick as int]);
                assert forall|i: int| 0 <= i < fs.len() implies walkable(c.tys, c.lang, (#[trigger] fs[i]).ty as int, e1) by {
                    assert(walkable(c.tys, c.lang, variant_fields(variants[pk.pick as int])[i].ty as int, e1));
                }
                let selected = selects_val(c.sel, c.func, c.arg, st.next as usize);
                let i1 = if selected {
                    spec_write_str(branch_buffer(), tag_line(c.writer, c.to, from, pk.pick as nat, c.base + st.next))
                } else {
                    branch_buffer()
                };
                lemma_list_fuel(c, from, true, fs, fs.len() as int, pk.kids, WriteState { f: i1, next: st.next + 1, ok: true }, e1, e2);
            }
        },
        _ => {},
    }
}

proof fn lemma_list_fuel(c: WriteCtx, from: Seq<char>, deref: bool, fs: Seq<FieldTyV>, k: int, kids: Seq<Picks>, st: WriteState,
    d1: nat, d2: nat)
    requires
        forall|i: int| 0 <= i < fs.len() ==> walkable(c.tys, c.lang, (#[trigger] fs[i]).ty as int, d1),
        d1 <= d2,
    ensures
        spec_write_list(c, from, deref, fs, k, kids, st, d1) == spec_write_list(c, from, deref, fs, k, kids, st, d2),
    decreases d1, k,
{
    if 0 < k <= fs.len() {
        lemma_list_fuel(c, from, deref, fs, k - 1, kids, st, d1, d2);
        let prev = spec_write_list(c, from, deref, fs, k - 1, kids, st, d1);
        lemma_write_fuel(c, field_path(from, deref, fs[k - 1].ident.text()), fs[k - 1].ty as int, kids[k - 1], prev, d1, d2);
    }
}

proof fn lemma_elems_fuel(c: WriteCtx, from: Seq<char>, elem: int, k: int, kids: Seq<Picks>, st: WriteState, d1: nat, d2: nat)
    requires
        walkable(c.tys, c.lang, elem, d1),
        d1 <= d2,
    ensures
        spec_write_elems(c, from, elem, k, kids, st, d1) == spec_write_elems(c, from, elem, k, kids, st, d2),
    decreases d1, k,
{
    if k > 0 {
        lemma_elems_fuel(c, from, elem, k - 1, kids, st, d1, d2);
        let prev = spec_write_elems(c, from, elem, k - 1, kids, st, d1);
        lemma_write_fuel(c, from + "["@ + decimal((k - 1) as nat) + "]"@, elem, kids[k - 1], prev, d1, d2);
    }
}

/// With fuel enough to walk type `t`, picks that agree still agree with
/// more fuel.
proof fn lemma_agree_fuel(tys: Seq<TyV>, lang: Seq<char>, t: int, pw: Picks, pb: Picks, d1: nat, d2: nat)
    requires
        walkable(tys, lang, t, d1),
        d1 <= d2,
        picks_agree(tys, lang, t, pw, pb, d1),
    ensures
        picks_agree(tys, lang, t, pw, pb, d2),
    decreases d1,
{
    let e1 = (d1 - 1) as nat;
    let e2 = (d2 - 1) as nat;
    match tys[t] {
        TyV::Alias { real: target, .. } => lemma_agree_fuel(tys, lang, target as int, pw, pb, e1, e2),
        TyV::Ref(r) => lemma_agree_fuel(tys, lang, r.pointee_ty as int, pw, pb, e1, e2),
        TyV::Struct { fields, .. } => {
            assert forall|i: int| 0 <= i < fields.len()
                implies picks_agree(tys, lang, (#[trigger] fields[i]).ty as int, pw.kids[i], kid(pb.kids, i), e2) by {
                lemma_agree_fuel(tys, lang, fields[i].ty as int, pw.kids[i], kid(pb.kids, i), e1, e2);
            }
        },
        TyV::Array(a) => {
            assert forall|i: int| #![trigger kid(pb.kids, i)] 0 <= i < a.len
                implies picks_agree(tys, lang, a.elem_ty as int, pw.kids[i], kid(pb.kids, i), e2) by {
                lemma_agree_fuel(tys, lang, a.elem_ty as int, pw.kids[i], kid(pb.kids, i), e1, e2);
            }
        },
        TyV::Union { fields, .. } => {
            if fields.len() > 0 {
                assert(walkable(tys, lang, fields[pw.pick as int].ty as int, e1));
                lemma_agree_fuel(tys, lang, fields[pw.pick as int].ty as int, pw.kids[0], kid(pb.kids, 0), e1, e2);
            }
        },
        TyV::Tagged { variants, .. } => {
            if variants.len() > 0 {
                let fs = variant_fields(variants[pw.pick as int]);
                assert forall|i: int| 0 <= i < fs.len()
                    implies picks_agree(tys, lang, (#[trigger] variant_fields(variants[pw.pick as int])[i]).ty as int, pw.kids[i],
                        kid(pb.kids, i), e2) by {
                    assert(walkable(tys, lang, variant_fields(variants[pw.pick as int])[i].ty as int, e1));
                    lemma_agree_fuel(tys, lang, fs[i].ty as int, pw.kids[i], kid(pb.kids, i), e1, e2);
                }
            }
        },
        TyV::Pun { blocks, .. } => {
            lemma_block_index(blocks, lang, 0);
            if let Some(b) = block_index(blocks, lang, 0) {
                lemma_agree_fuel(tys, lang, blocks[b].real as int, pw, kid(pb.kids, b), e1, e2);
            }
        },
        _ => {},
    }
}

/// Reporting an argument's values, with picks that agree with those the
/// values were made with, uses exactly the argument's values: the walk
/// does not run out, and it stops at their end.
pub proof fn lemma_arg_walk_uses_its_values(c: WriteCtx, from: Seq<char>, av: ArgValues, pw: Picks, f0: FivematV)
    requires
        arg_ok(c.tys, av),
        value_finite(c.tys, av.ty as int),
        value_walkable(c.tys, c.lang, av.ty as int),
        c.count == av.vals@.len(),
        picks_agree(c.tys, c.lang, av.ty as int, pw, av.picks@, walk_fuel(c.tys, c.lang, av.ty as int)),
    ensures
        spec_write_fields(c, from, av.ty as int, pw, WriteState { f: f0, next: 0, ok: true },
            walk_fuel(c.tys, c.lang, av.ty as int)).ok,
        spec_write_fields(c, from, av.ty as int, pw, WriteState { f: f0, next: 0, ok: true },
            walk_fuel(c.tys, c.lang, av.ty as int)).next == av.vals@.len(),
{
    let t = av.ty as int;
    let dw = walk_fuel(c.tys, c.lang, t);
    let db = depth_of(c.tys, t);
    let d = if dw >= db { dw } else { db };
    let st = WriteState { f: f0, next: 0, ok: true };
    lemma_leaves_fuel(c.tys, t, av.arg_name@, av.picks@, db, d);
    lemma_write_fuel(c, from, t, pw, st, dw, d);
    lemma_agree_fuel(c.tys, c.lang, t, pw, av.picks@, dw, d);
    lemma_walk_uses_made_values(c, from, av.arg_name@, t, pw, av.picks@, st, d);
}

proof fn lemma_list_uses_made_values(c: WriteCtx, from: Seq<char>, deref: bool, fs: Seq<FieldTyV>, k: int, kw: Seq<Picks>,
    prefix: Seq<char>, kb: Seq<Picks>, st: WriteState, d: nat)
    requires
        0 <= k <= fs.len(),
        st.ok,
        forall|i: int| 0 <= i < k ==> picks_agree(c.tys, c.lang, (#[trigger] fs[i]).ty as int, kw[i], kid(kb, i), d),
        spec_fields_leaves(c.tys, fs, k, prefix, kb, d) is Ok,
        st.next + spec_fields_leaves(c.tys, fs, k, prefix, kb, d)->Ok_0.len() <= c.count,
    ensures
        spec_write_list(c, from, deref, fs, k, kw, st, d).ok,
        spec_write_list(c, from, deref, fs, k, kw, st, d).next == st.next + spec_fields_leaves(c.tys, fs, k, prefix, kb, d)->Ok_0.len(),
    decreases d, k,
{
    if k > 0 {
        lemma_fields_leaves_prefix(c.tys, fs, k, prefix, kb, d);
        lemma_list_uses_made_values(c, from, deref, fs, k - 1, kw, prefix, kb, st, d);
        let prev = spec_write_list(c, from, deref, fs, k - 1, kw, st, d);
        lemma_walk_uses_made_values(c, field_path(from, deref, fs[k - 1].ident.text()), prefix + "."@ + fs[k - 1].ident.text(),
            fs[k - 1].ty as int, kw[k - 1], kid(kb, k - 1), prev, d);
    }
}

proof fn lemma_elems_use_made_values(c: WriteCtx, from: Seq<char>, elem: int, k: int, kw: Seq<Picks>, path: Seq<char>,
    kb: Seq<Picks>, st: WriteState, d: nat)
    requires
        0 <= k,
        st.ok,
        forall|i: int| #![trigger kid(kb, i)] 0 <= i < k ==> picks_agree(c.tys, c.lang, elem, kw[i], kid(kb, i), d),
        spec_array_leaves(c.tys, elem, k, path, kb, d) is Ok,
        st.next + spec_array_leaves(c.tys, elem, k, path, kb, d)->Ok_0.len() <= c.count,
    ensures
        spec_write_elems(c, from, elem, k, kw, st, d).ok,
        spec_write_elems(c, from, elem, k, kw, st, d).next == st.next + spec_array_leaves(c.tys, elem, k, path, kb, d)->Ok_0.len(),
    decreases d, k,
{
    if k > 0 {
        lemma_elems_use_made_values(c, from, elem, k - 1, kw, path, kb, st, d);
        let prev = spec_write_elems(c, from, elem, k - 1, kw, st, d);
        lemma_walk_uses_made_values(c, from + "["@ + decimal((k - 1) as nat) + "]"@, path + "["@ + decimal((k - 1) as nat) + "]"@,
            elem, kw[k - 1], kid(kb, k - 1), prev, d);
    }
}

} // verus!
