//! Generated test programs: for one type, a kdl-script program whose
//! functions pass that type in many shapes (alone, many at once, in structs,
//! by reference, and mixed with a byte and a float).

use vstd::prelude::*;
use crate::text::{owned, push_str, push_decimal, decimal};

verus! {

/// The concatenation of `parts`.
pub open spec fn concat(parts: Seq<Seq<char>>) -> Seq<char>
    decreases parts.len(),
{
    if parts.len() == 0 { Seq::empty() } else { concat(parts.drop_last()) + parts.last() }
}

/// The declaration line of argument `idx` of type `ty`.
pub open spec fn arg_line(idx: int, ty: Seq<char>) -> Seq<char> {
    "        arg"@ + decimal(idx as nat) + " \""@ + ty + "\"\n"@
}

/// The declaration line of field `idx` of type `ty`.
pub open spec fn field_line(idx: int, ty: Seq<char>) -> Seq<char> {
    "    f"@ + decimal(idx as nat) + " \""@ + ty + "\"\n"@
}

/// The declaration lines of the types `tys`, as fields or as arguments.
pub open spec fn lines_text(tys: Seq<Seq<char>>, field: bool) -> Seq<char> {
    concat(Seq::new(tys.len(), |i: int| if field { field_line(i, tys[i]) } else { arg_line(i, tys[i]) }))
}

/// The declaration of a function with arguments of the types `inputs` and
/// `outputs`.
pub open spec fn func_text(name: Seq<char>, inputs: Seq<Seq<char>>, outputs: Seq<Seq<char>>) -> Seq<char> {
    "fn \""@ + name + "\" {\n"@ + "    inputs {\n"@ + lines_text(inputs, false)
        + "    }\n"@ + "    outputs {\n"@ + lines_text(outputs, false) + "    }\n"@ + "}\n"@
}

/// The declaration of a struct with fields of the types `fields`.
pub open spec fn struct_text(name: Seq<char>, fields: Seq<Seq<char>>) -> Seq<char> {
    "struct \""@ + name + "\" {\n"@ + lines_text(fields, true) + "}\n"@
}

/// `n` copies of `ty`.
pub open spec fn copies(ty: Seq<char>, n: nat) -> Seq<Seq<char>> {
    Seq::new(n, |i: int| ty)
}

/// `count` copies of `ty`, with a byte at `idx` and a float at `count - 1 - idx`.
pub open spec fn spec_perturb_list(ty: Seq<char>, count: nat, idx: int) -> Seq<Seq<char>> {
    copies(ty, count).update(idx, "u8"@).update(count - 1 - idx, "f32"@)
}

/// The name of the function with `len` arguments.
pub open spec fn many_name(len: int) -> Seq<char> {
    "val_in_"@ + decimal(len as nat)
}

/// The name of the struct with `len` fields.
pub open spec fn many_struct(len: int) -> Seq<char> {
    "Many"@ + decimal(len as nat)
}

/// The struct with `len` fields of type `ty`, passed by value and by reference.
pub open spec fn struct_block(ty: Seq<char>, len: int) -> Seq<char> {
    struct_text(many_struct(len), copies(ty, len as nat))
        + func_text("struct_in_"@ + decimal(len as nat), seq![many_struct(len)], Seq::empty())
        + func_text("ref_struct_in_"@ + decimal(len as nat), seq!["&"@ + many_struct(len)], Seq::empty())
}

/// The name of the function whose argument `idx` of `label` size is perturbed.
pub open spec fn perturbed_name(idx: int, label: Seq<char>) -> Seq<char> {
    "val_in_"@ + decimal(idx as nat) + "_perturbed_"@ + label
}

/// The name of the struct whose field `idx` of `label` size is perturbed.
pub open spec fn perturbed_struct(idx: int, label: Seq<char>) -> Seq<char> {
    "Perturbed"@ + label + decimal(idx as nat)
}

/// The whole generated program for the type `ty`, after `ty_def` if given.
pub open spec fn spec_procgen(ty: Seq<char>, ty_def: Option<Seq<char>>) -> Seq<char> {
    (match ty_def { Some(d) => d + "\n"@, None => Seq::empty() })
        + func_text("val_in"@, seq![ty], Seq::empty())
        + func_text("val_out"@, Seq::empty(), seq![ty])
        + func_text("val_in_out"@, seq![ty], seq![ty])
        + func_text("ref_in"@, seq!["&"@ + ty], Seq::empty())
        + concat(Seq::new(15, |i: int| func_text(many_name(i + 2), copies(ty, (i + 2) as nat), Seq::empty())))
        + concat(Seq::new(16, |i: int| struct_block(ty, i + 1)))
        + concat(Seq::new(4, |i: int| func_text(perturbed_name(i, "small"@), spec_perturb_list(ty, 4, i), Seq::empty())))
        + concat(Seq::new(16, |i: int| func_text(perturbed_name(i, "big"@), spec_perturb_list(ty, 16, i), Seq::empty())))
        + concat(Seq::new(4, |i: int| struct_text(perturbed_struct(i, "small"@), spec_perturb_list(ty, 4, i))
            + func_text(perturbed_name(i, "small"@), seq![perturbed_struct(i, "small"@)], Seq::empty())))
        + concat(Seq::new(16, |i: int| struct_text(perturbed_struct(i, "big"@), spec_perturb_list(ty, 16, i))
            + func_text(perturbed_name(i, "big"@), seq![perturbed_struct(i, "big"@)], Seq::empty())))
}

proof fn lemma_concat_step(f: spec_fn(int) -> Seq<char>, k: int)
    requires
        0 <= k,
    ensures
        concat(Seq::new((k + 1) as nat, f)) == concat(Seq::new(k as nat, f)) + f(k),
{
    assert(Seq::new((k + 1) as nat, f).drop_last() =~= Seq::new(k as nat, f));
}

/// The strings of `v`.
pub open spec fn strs_view(v: Seq<String>) -> Seq<Seq<char>> {
    v.map_values(|s: String| s@)
}

/// Appends the declaration lines of the types `tys`, as arguments (`field`
/// false) or fields.
fn push_lines(out: &mut String, tys: &Vec<String>, field: bool)
    ensures
        final(out)@ == old(out)@ + lines_text(strs_view(tys@), field),
{
    let ghost f = |i: int| if field { field_line(i, strs_view(tys@)[i]) } else { arg_line(i, strs_view(tys@)[i]) };
    let mut idx: usize = 0;
    assert(concat(Seq::new(0, f)) =~= Seq::<char>::empty());
    while idx < tys.len()
        invariant
            idx <= tys@.len(),
            f == (|i: int| if field { field_line(i, strs_view(tys@)[i]) } else { arg_line(i, strs_view(tys@)[i]) }),
            out@ == old(out)@ + concat(Seq::new(idx as nat, f)),
        decreases tys@.len() - idx,
    {
        let ghost before = out@;
        if field {
            push_str(out, "    f");
        } else {
            push_str(out, "        arg");
        }
        push_decimal(out, idx as u64);
        push_str(out, " \"");
        push_str(out, tys[idx].as_str());
        push_str(out, "\"\n");
        proof {
            lemma_concat_step(f, idx as int);
            assert(strs_view(tys@)[idx as int] == tys@[idx as int]@);
            reveal_strlit("    f");
            reveal_strlit("        arg");
            assert(out@ =~= before + f(idx as int));
        }
        idx = idx + 1;
    }
    assert(Seq::new(strs_view(tys@).len(), |i: int| if field { field_line(i, strs_view(tys@)[i]) } else { arg_line(i, strs_view(tys@)[i]) })
        =~= Seq::new(tys@.len() as nat, f));
}

/// Appends the declaration of a function.
fn add_func(out: &mut String, func_name: &str, inputs: &Vec<String>, outputs: &Vec<String>)
    ensures
        final(out)@ == old(out)@ + func_text(func_name@, strs_view(inputs@), strs_view(outputs@)),
{
    let ghost o0 = out@;
    push_str(out, "fn \"");
    push_str(out, func_name);
    push_str(out, "\" {\n");
    push_str(out, "    inputs {\n");
    push_lines(out, inputs, false);
    push_str(out, "    }\n");
    push_str(out, "    outputs {\n");
    push_lines(out, outputs, false);
    push_str(out, "    }\n");
    push_str(out, "}\n");
    assert(out@ =~= o0 + func_text(func_name@, strs_view(inputs@), strs_view(outputs@)));
}

/// Appends the declaration of a struct.
fn add_struct(out: &mut String, name: &str, fields: &Vec<String>)
    ensures
        final(out)@ == old(out)@ + struct_text(name@, strs_view(fields@)),
{
    let ghost o0 = out@;
    push_str(out, "struct \"");
    push_str(out, name);
    push_str(out, "\" {\n");
    push_lines(out, fields, true);
    push_str(out, "}\n");
    assert(out@ =~= o0 + struct_text(name@, strs_view(fields@)));
}

/// `n` copies of `ty`.
fn copies_of(ty: &str, n: usize) -> (r: Vec<String>)
    ensures
        strs_view(r@) == copies(ty@, n as nat),
{
    let mut r: Vec<String> = Vec::new();
    let mut i: usize = 0;
    while i < n
        invariant
            i <= n,
            strs_view(r@) == copies(ty@, i as nat),
        decreases n - i,
    {
        let ghost before = r@;
        let o = owned(ty);
        r.push(o);
        assert(strs_view(r@) =~= strs_view(before).push(ty@));
        assert(strs_view(r@) =~= copies(ty@, (i + 1) as nat));
        i = i + 1;
    }
    r
}

/// `count` copies of `ty`, with a byte at `idx` and a float at `count - 1 - idx`.
pub fn perturb_list(ty: &str, count: usize, idx: usize) -> (r: Vec<String>)
    requires
        idx < count,
    ensures
        strs_view(r@) == spec_perturb_list(ty@, count as nat, idx as int),
{
    let mut r = copies_of(ty, count);
    let ghost c = strs_view(r@);
    assert(r@.len() == c.len());
    r.set(idx, owned("u8"));
    assert(strs_view(r@) =~= c.update(idx as int, "u8"@));
    let ghost c2 = strs_view(r@);
    r.set(count - 1 - idx, owned("f32"));
    assert(strs_view(r@) =~= c2.update(count - 1 - idx, "f32"@));
    r
}

/// `s` followed by the decimal numeral of `n`.
fn with_number(s: &str, n: usize) -> (r: String)
    ensures
        r@ == s@ + decimal(n as nat),
{
    let mut r = owned(s);
    push_decimal(&mut r, n as u64);
    r
}

/// A one-element list.
fn single(s: String) -> (r: Vec<String>)
    ensures
        strs_view(r@) == seq![s@],
{
    let mut r: Vec<String> = Vec::new();
    r.push(s);
    assert(strs_view(r@) =~= seq![s@]);
    r
}

/// The program that exercises the type `ty`, declared by `ty_def` if given.
pub fn procgen_test_for_ty_string(ty_name: &str, ty_def: Option<&str>) -> (r: String)
    ensures
        r@ == spec_procgen(ty_name@, match ty_def { Some(d) => Some(d@), None => None }),
{
    let mut out = String::new();
    let ty = ty_name;
    let mut ty_ref = owned("&");
    push_str(&mut ty_ref, ty_name);
    if let Some(d) = ty_def {
        push_str(&mut out, d);
        push_str(&mut out, "\n");
    }
    let ghost p0 = out@;
    let none: Vec<String> = Vec::new();
    assert(strs_view(none@) =~= Seq::<Seq<char>>::empty());
    add_func(&mut out, "val_in", &single(owned(ty)), &none);
    add_func(&mut out, "val_out", &none, &single(owned(ty)));
    add_func(&mut out, "val_in_out", &single(owned(ty)), &single(owned(ty)));
    add_func(&mut out, "ref_in", &single(ty_ref), &none);
    let ghost p1 = out@;

    let ghost fm = |i: int| func_text(many_name(i + 2), copies(ty@, (i + 2) as nat), Seq::empty());
    let mut len: usize = 2;
    assert(concat(Seq::new(0, fm)) =~= Seq::<char>::empty());
    while len <= 16
        invariant
            2 <= len <= 17,
            strs_view(none@) == Seq::<Seq<char>>::empty(),
            fm == (|i: int| func_text(many_name(i + 2), copies(ty@, (i + 2) as nat), Seq::empty())),
            out@ == p1 + concat(Seq::new((len - 2) as nat, fm)),
        decreases 17 - len,
    {
        let name = with_number("val_in_", len);
        add_func(&mut out, name.as_str(), &copies_of(ty, len), &none);
        proof { lemma_concat_step(fm, len - 2); }
        len = len + 1;
    }
    let ghost p2 = out@;

    let ghost fs = |i: int| struct_block(ty@, i + 1);
    let mut len: usize = 1;
    assert(concat(Seq::new(0, fs)) =~= Seq::<char>::empty());
    while len <= 16
        invariant
            1 <= len <= 17,
            strs_view(none@) == Seq::<Seq<char>>::empty(),
            fs == (|i: int| struct_block(ty@, i + 1)),
            out@ == p2 + concat(Seq::new((len - 1) as nat, fs)),
        decreases 17 - len,
    {
        let ghost before = out@;
        let struct_ty = with_number("Many", len);
        let mut struct_ty_ref = owned("&");
        push_str(&mut struct_ty_ref, struct_ty.as_str());
        add_struct(&mut out, struct_ty.as_str(), &copies_of(ty, len));
        let f1 = with_number("struct_in_", len);
        add_func(&mut out, f1.as_str(), &single(struct_ty), &none);
        let f2 = with_number("ref_struct_in_", len);
        add_func(&mut out, f2.as_str(), &single(struct_ty_ref), &none);
        proof {
            lemma_concat_step(fs, len - 1);
            assert(out@ =~= before + struct_block(ty@, len as int));
        }
        len = len + 1;
    }
    let ghost p3 = out@;
    add_perturbs(&mut out, ty, 4, "small");
    add_perturbs(&mut out, ty, 16, "big");
    add_perturbs_struct(&mut out, ty, 4, "small");
    add_perturbs_struct(&mut out, ty, 16, "big");
    proof {
        reveal_strlit("\n");
    }
    assert(out@ =~= spec_procgen(ty_name@, match ty_def { Some(d) => Some(d@), None => None }));
    out
}

/// Appends the functions whose arguments of `label` size are perturbed.
fn add_perturbs(out: &mut String, ty: &str, count: usize, label: &str)
    requires
        count > 0,
    ensures
        final(out)@ == old(out)@ + concat(Seq::new(count as nat, |i: int|
            func_text(perturbed_name(i, label@), spec_perturb_list(ty@, count as nat, i), Seq::empty()))),
{
    let ghost f = |i: int| func_text(perturbed_name(i, label@), spec_perturb_list(ty@, count as nat, i), Seq::empty());
    let none: Vec<String> = Vec::new();
    assert(strs_view(none@) =~= Seq::<Seq<char>>::empty());
    let mut idx: usize = 0;
    assert(concat(Seq::new(0, f)) =~= Seq::<char>::empty());
    while idx < count
        invariant
            idx <= count,
            strs_view(none@) == Seq::<Seq<char>>::empty(),
            f == (|i: int| func_text(perturbed_name(i, label@), spec_perturb_list(ty@, count as nat, i), Seq::empty())),
            out@ == old(out)@ + concat(Seq::new(idx as nat, f)),
        decreases count - idx,
    {
        let inputs = perturb_list(ty, count, idx);
        let mut name = with_number("val_in_", idx);
        push_str(&mut name, "_perturbed_");
        push_str(&mut name, label);
        add_func(out, name.as_str(), &inputs, &none);
        proof { lemma_concat_step(f, idx as int); }
        idx = idx + 1;
    }
}

/// Appends the structs whose fields of `label` size are perturbed, each
/// passed to a function.
fn add_perturbs_struct(out: &mut String, ty: &str, count: usize, label: &str)
    requires
        count > 0,
    ensures
        final(out)@ == old(out)@ + concat(Seq::new(count as nat, |i: int|
            struct_text(perturbed_struct(i, label@), spec_perturb_list(ty@, count as nat, i))
                + func_text(perturbed_name(i, label@), seq![perturbed_struct(i, label@)], Seq::empty()))),
{
    let ghost f = |i: int| struct_text(perturbed_struct(i, label@), spec_perturb_list(ty@, count as nat, i))
        + func_text(perturbed_name(i, label@), seq![perturbed_struct(i, label@)], Seq::empty());
    let none: Vec<String> = Vec::new();
    assert(strs_view(none@) =~= Seq::<Seq<char>>::empty());
    let mut idx: usize = 0;
    assert(concat(Seq::new(0, f)) =~= Seq::<char>::empty());
    while idx < count
        invariant
            idx <= count,
            strs_view(none@) == Seq::<Seq<char>>::empty(),
            f == (|i: int| struct_text(perturbed_struct(i, label@), spec_perturb_list(ty@, count as nat, i))
                + func_text(perturbed_name(i, label@), seq![perturbed_struct(i, label@)], Seq::empty())),
            out@ == old(out)@ + concat(Seq::new(idx as nat, f)),
        decreases count - idx,
    {
        let ghost before = out@;
        let inputs = perturb_list(ty, count, idx);
        let mut struct_ty = owned("Perturbed");
        push_str(&mut struct_ty, label);
        push_decimal(&mut struct_ty, idx as u64);
        add_struct(out, struct_ty.as_str(), &inputs);
        let mut name = with_number("val_in_", idx);
        push_str(&mut name, "_perturbed_");
        push_str(&mut name, label);
        add_func(out, name.as_str(), &single(struct_ty), &none);
        proof {
            lemma_concat_step(f, idx as int);
            assert(out@ =~= before + f(idx as int));
        }
        idx = idx + 1;
    }
}

} // verus!
