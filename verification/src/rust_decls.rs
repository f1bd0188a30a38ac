//! The Rust backend's type declarations: the name it gives each type (and,
//! for a type that holds references, the name with its lifetime) and the
//! Rust source that declares a nominal type.

use vstd::prelude::*;
use std::collections::HashMap;
use crate::ast::{PunEnv, Attr, AttrV, attrs_view};
use crate::types::{prim_name, spec_format_ty, TypedProgram, Ty, TyV, FieldTy, FieldTyV, PrimitiveTy, TaggedVariantTy, TaggedVariantTyV, EnumVariantTy,
    PunBlockTy, spec_pick_block, fields_view, ty_refs_ok};
use crate::ast::IdentV;
use crate::types::{ArgV, FuncV};
use crate::text::{owned, push_str, push_decimal, decimal};
use crate::abis::{GenerateError, RustcAbiImpl};

verus! {

/// The names given so far, as text.
pub open spec fn names(m: HashMap<usize, String>) -> Map<usize, Seq<char>> {
    m@.map_values(|s: String| s@)
}

/// The names the backend has given to the types declared so far.
pub struct GenState {
    /// Each type's name.
    pub tynames: HashMap<usize, String>,
    /// For each type that holds references, its name with the lifetime `'a`.
    pub borrowed_tynames: HashMap<usize, String>,
}

/// The Rust name of a primitive.
pub open spec fn rust_prim_name(p: PrimitiveTy) -> Seq<char> {
    match p {
        PrimitiveTy::I8 => "i8"@,
        PrimitiveTy::I16 => "i16"@,
        PrimitiveTy::I32 => "i32"@,
        PrimitiveTy::I64 => "i64"@,
        PrimitiveTy::I128 => "i128"@,
        PrimitiveTy::I256 => "i256"@,
        PrimitiveTy::U8 => "u8"@,
        PrimitiveTy::U16 => "u16"@,
        PrimitiveTy::U32 => "u32"@,
        PrimitiveTy::U64 => "u64"@,
        PrimitiveTy::U128 => "u128"@,
        PrimitiveTy::U256 => "u256"@,
        PrimitiveTy::F16 => "f16"@,
        PrimitiveTy::F32 => "f32"@,
        PrimitiveTy::F64 => "f64"@,
        PrimitiveTy::F128 => "f128"@,
        PrimitiveTy::Bool => "bool"@,
        PrimitiveTy::Ptr => "*mut ()"@,
    }
}

/// Rust names each primitive it has as kdl-script does, but for the
/// pointer, which it writes `*mut ()`.
pub proof fn lemma_rust_prim_names_match(p: PrimitiveTy)
    ensures
        prim_supported(p) && p != PrimitiveTy::Ptr ==> rust_prim_name(p) == prim_name(p),
        p == PrimitiveTy::Ptr ==> rust_prim_name(p) == "*mut ()"@,
{
}

/// The name the backend gives a primitive type it supports (other than the
/// pointer) is the name the program writes it with.
pub proof fn lemma_prim_tydef_name(tys: Seq<TyV>, tyn: Map<usize, Seq<char>>, btyn: Map<usize, Seq<char>>, lang: Seq<char>, t: int)
    requires
        0 <= t < tys.len(),
        tys[t] matches TyV::Primitive(p) && prim_supported(p) && p != PrimitiveTy::Ptr,
    ensures
        spec_tydef(tys, tyn, btyn, lang, t).1 == spec_format_ty(tys, t),
        spec_tydef(tys, tyn, btyn, lang, t).0 == Seq::<char>::empty(),
        spec_tydef(tys, tyn, btyn, lang, t).2 is None,
{
}

/// The name a field of type `t` is declared with: the borrowed name where
/// there is one, else the plain name.
pub open spec fn field_tyname(tyn: Map<usize, Seq<char>>, btyn: Map<usize, Seq<char>>, t: usize) -> Seq<char> {
    if btyn.contains_key(t) { btyn[t] } else { tyn[t] }
}

/// The lines declaring the first `k` fields, each `indent name: type,`.
pub open spec fn fields_text(tyn: Map<usize, Seq<char>>, btyn: Map<usize, Seq<char>>, fs: Seq<FieldTyV>, k: int, indent: Seq<char>) -> Seq<char>
    decreases k,
{
    if k <= 0 || k > fs.len() {
        Seq::empty()
    } else {
        fields_text(tyn, btyn, fs, k - 1, indent) + indent + fs[k - 1].ident.text() + ": "@
            + field_tyname(tyn, btyn, fs[k - 1].ty) + ",\n"@
    }
}

/// Whether a field has a borrowed type.
pub open spec fn fields_borrow(btyn: Map<usize, Seq<char>>, fs: Seq<FieldTyV>) -> bool {
    exists|i: int| 0 <= i < fs.len() && btyn.contains_key(#[trigger] fs[i].ty)
}

/// The fields of a tagged variant (none for a variant without fields).
pub open spec fn variant_field_list(v: TaggedVariantTyV) -> Seq<FieldTyV> {
    match v.fields {
        Some(fs) => fs,
        None => Seq::empty(),
    }
}

/// Whether a field of some variant has a borrowed type.
pub open spec fn variants_borrow(btyn: Map<usize, Seq<char>>, vs: Seq<TaggedVariantTyV>) -> bool {
    exists|v: int| 0 <= v < vs.len() && fields_borrow(btyn, variant_field_list(#[trigger] vs[v]))
}

/// The lines declaring the first `k` variants of a tagged union: a variant
/// with fields as a block closed by `},`, one without as `Name,`.
pub open spec fn variants_text(tyn: Map<usize, Seq<char>>, btyn: Map<usize, Seq<char>>, vs: Seq<TaggedVariantTyV>, k: int) -> Seq<char>
    decreases k,
{
    if k <= 0 || k > vs.len() {
        Seq::empty()
    } else {
        let v = vs[k - 1];
        variants_text(tyn, btyn, vs, k - 1) + match v.fields {
            Some(fs) => "    "@ + v.name.text() + " {\n"@ + fields_text(tyn, btyn, fs, fs.len() as int, "        "@) + "    },\n"@,
            None => "    "@ + v.name.text() + ",\n"@,
        }
    }
}

/// The lines declaring the first `k` cases of a c-style enum.
pub open spec fn cases_text(vs: Seq<IdentV>, k: int) -> Seq<char>
    decreases k,
{
    if k <= 0 || k > vs.len() {
        Seq::empty()
    } else {
        cases_text(vs, k - 1) + "    "@ + vs[k - 1].text() + ",\n"@
    }
}

/// The `repr` options the first `k` attributes ask for, each followed by
/// `, `: `packed` for each packed attribute.
pub open spec fn packed_prefix(attrs: Seq<AttrV>, k: int) -> Seq<char>
    decreases k,
{
    if k <= 0 || k > attrs.len() {
        Seq::empty()
    } else {
        packed_prefix(attrs, k - 1) + if attrs[k - 1] is Packed { "packed, "@ } else { Seq::empty() }
    }
}

/// The lines the first `k` attributes pass through to Rust, one each.
pub open spec fn passthrough_lines(attrs: Seq<AttrV>, k: int) -> Seq<char>
    decreases k,
{
    if k <= 0 || k > attrs.len() {
        Seq::empty()
    } else {
        passthrough_lines(attrs, k - 1) + match attrs[k - 1] {
            AttrV::Passthrough(p) => p.value + "\n"@,
            _ => Seq::empty(),
        }
    }
}

/// The attribute lines of a nominal type: its `repr`, the C layout with
/// whatever options its attributes ask for before it, then the attributes
/// it passes through.
pub open spec fn repr_text(attrs: Seq<AttrV>) -> Seq<char> {
    "#[repr("@ + packed_prefix(attrs, attrs.len() as int) + "C)]\n"@ + passthrough_lines(attrs, attrs.len() as int)
}

/// The opening line of a declaration, with the lifetime where it borrows;
/// one that does not borrow is preceded by its `derive` line.
pub open spec fn decl_open(keyword: Seq<char>, name: Seq<char>, borrows: bool, derive: Seq<char>) -> Seq<char> {
    if borrows { keyword + " "@ + name + "<'a> {\n"@ } else { derive + keyword + " "@ + name + " {\n"@ }
}

/// The derive line of a struct, union or tagged union that does not borrow.
pub open spec fn copy_derive() -> Seq<char> {
    "#[derive(Copy, Clone)]\n"@
}

/// The derive line of a c-style enum.
pub open spec fn enum_derive() -> Seq<char> {
    "#[derive(Debug, Copy, Clone, PartialEq)]\n"@
}

/// Whether Rust has the primitive.
pub open spec fn prim_supported(p: PrimitiveTy) -> bool {
    !(p is I256 || p is U256 || p is F16 || p is F128)
}

/// Whether the backend refuses type `t`: a primitive Rust does not have,
/// or an alias with attributes.
pub open spec fn tydef_refused(tys: Seq<TyV>, t: int) -> bool {
    match tys[t] {
        TyV::Primitive(p) => !prim_supported(p),
        TyV::Alias { attrs, .. } => attrs.len() > 0,
        _ => false,
    }
}

/// The borrowed name of a nominal type that borrows.
pub open spec fn borrowed_name(name: Seq<char>, borrows: bool) -> Option<Seq<char>> {
    if borrows { Some(name + "<'a>"@) } else { None }
}

/// What the backend writes for type `t`, and the name and borrowed name it
/// gives the type: nominal types are declared `#[repr(C)]`, deriving
/// `Copy` and `Clone` where they do not borrow (a c-style enum also `Debug`
/// and `PartialEq`); structural types and puns only get names, from the
/// names of the types they use.
pub open spec fn spec_tydef(tys: Seq<TyV>, tyn: Map<usize, Seq<char>>, btyn: Map<usize, Seq<char>>, lang: Seq<char>, t: int)
    -> (Seq<char>, Seq<char>, Option<Seq<char>>)
{
    match tys[t] {
        TyV::Primitive(p) => (Seq::empty(), rust_prim_name(p), None),
        TyV::Array(a) => (Seq::empty(), "["@ + tyn[a.elem_ty] + "; "@ + decimal(a.len as nat) + "]"@,
            if btyn.contains_key(a.elem_ty) { Some("["@ + btyn[a.elem_ty] + "; "@ + decimal(a.len as nat) + "]"@) } else { None }),
        TyV::Ref(r) => (Seq::empty(), "&mut "@ + tyn[r.pointee_ty],
            Some("&'a mut "@ + field_tyname(tyn, btyn, r.pointee_ty))),
        TyV::Empty => (Seq::empty(), "()"@, None),
        TyV::Struct { name, fields, attrs, .. } => {
            let b = fields_borrow(btyn, fields);
            (repr_text(attrs) + decl_open("struct"@, name.text(), b, copy_derive()) + fields_text(tyn, btyn, fields, fields.len() as int, "    "@) + "}\n\n"@,
                name.text(), borrowed_name(name.text(), b))
        },
        TyV::Union { name, fields, attrs } => {
            let b = fields_borrow(btyn, fields);
            (repr_text(attrs) + decl_open("union"@, name.text(), b, copy_derive()) + fields_text(tyn, btyn, fields, fields.len() as int, "    "@) + "}\n\n"@,
                name.text(), borrowed_name(name.text(), b))
        },
        TyV::Enum { name, variants, attrs } => (
            repr_text(attrs) + decl_open("enum"@, name.text(), false, enum_derive()) + cases_text(variants, variants.len() as int) + "}\n\n"@,
            name.text(), None),
        TyV::Tagged { name, variants, attrs } => {
            let b = variants_borrow(btyn, variants);
            (repr_text(attrs) + decl_open("enum"@, name.text(), b, copy_derive()) + variants_text(tyn, btyn, variants, variants.len() as int) + "}\n\n"@,
                name.text(), borrowed_name(name.text(), b))
        },
        TyV::Alias { name, real: target, .. } => if btyn.contains_key(target) {
            ("type "@ + name.text() + "<'a> = "@ + btyn[target] + ";\n\n"@, name.text(), Some(name.text() + "<'a>"@))
        } else {
            ("type "@ + name.text() + " = "@ + tyn[target] + ";\n\n"@, name.text(), None)
        },
        TyV::Pun { blocks, .. } => {
            let target = spec_pick_block(blocks, lang, 0)->Some_0;
            (Seq::empty(), tyn[target], if btyn.contains_key(target) { Some(btyn[target]) } else { None })
        },
    }
}

/// The names of the fields' types are known.
pub open spec fn fields_named(tyn: Map<usize, Seq<char>>, fs: Seq<FieldTyV>) -> bool {
    forall|i: int| 0 <= i < fs.len() ==> tyn.contains_key(#[trigger] fs[i].ty)
}

/// What the backend needs to declare type `t`: the names of the types it
/// uses, and a block for `lang` in a pun.
pub open spec fn tydef_ready(tys: Seq<TyV>, tyn: Map<usize, Seq<char>>, btyn: Map<usize, Seq<char>>, lang: Seq<char>, t: int) -> bool {
    match tys[t] {
        TyV::Array(a) => tyn.contains_key(a.elem_ty),
        TyV::Ref(r) => tyn.contains_key(r.pointee_ty),
        TyV::Struct { fields, .. } => fields_named(tyn, fields),
        TyV::Union { fields, .. } => fields_named(tyn, fields),
        TyV::Tagged { variants, .. } =>
            forall|v: int| 0 <= v < variants.len() ==> fields_named(tyn, variant_field_list(#[trigger] variants[v])),
        TyV::Alias { real: target, attrs, .. } => attrs.len() > 0 || btyn.contains_key(target) || tyn.contains_key(target),
        TyV::Pun { blocks, .. } => spec_pick_block(blocks, lang, 0) matches Some(target) && tyn.contains_key(target),
        _ => true,
    }
}

/// The name given to type `t`, which must have one.
fn name_of(m: &HashMap<usize, String>, t: usize) -> (r: String)
    requires
        names(*m).contains_key(t),
    ensures
        r@ == names(*m)[t],
{
    broadcast use vstd::std_specs::hash::group_hash_axioms;
    match m.get(&t) {
        Some(s) => s.clone(),
        None => String::new(),
    }
}

/// The name given to type `t`, if any.
fn maybe_name_of(m: &HashMap<usize, String>, t: usize) -> (r: Option<String>)
    ensures
        match r {
            Some(s) => names(*m).contains_key(t) && s@ == names(*m)[t],
            None => !names(*m).contains_key(t),
        },
{
    broadcast use vstd::std_specs::hash::group_hash_axioms;
    match m.get(&t) {
        Some(s) => Some(s.clone()),
        None => None,
    }
}

/// Appends the lines declaring the fields.
fn write_fields_decl(f: &mut String, state: &GenState, fs: &Vec<FieldTy>, indent: &str)
    requires
        fields_named(names(state.tynames), fields_view(fs@)),
    ensures
        final(f)@ == old(f)@ + fields_text(names(state.tynames), names(state.borrowed_tynames), fields_view(fs@),
            fs@.len() as int, indent@),
{
    let ghost tyn = names(state.tynames);
    let ghost btyn = names(state.borrowed_tynames);
    let ghost fv = fields_view(fs@);
    let ghost f0 = f@;
    let mut i: usize = 0;
    while i < fs.len()
        invariant
            i <= fs@.len(),
            fv == fields_view(fs@),
            tyn == names(state.tynames),
            btyn == names(state.borrowed_tynames),
            fields_named(tyn, fv),
            f@ == f0 + fields_text(tyn, btyn, fv, i as int, indent@),
        decreases fs@.len() - i,
    {
        assert(fv[i as int] == fs@[i as int]@);
        assert(tyn.contains_key(fv[i as int].ty));
        let field = &fs[i];
        push_str(f, indent);
        push_str(f, field.ident.val.value.as_str());
        push_str(f, ": ");
        let tyname = match maybe_name_of(&state.borrowed_tynames, field.ty) {
            Some(b) => b,
            None => name_of(&state.tynames, field.ty),
        };
        push_str(f, tyname.as_str());
        push_str(f, ",\n");
        i = i + 1;
        assert(f@ =~= f0 + fields_text(tyn, btyn, fv, i as int, indent@));
    }
}

/// Whether a field has a borrowed type.
fn fields_have_borrows(state: &GenState, fs: &Vec<FieldTy>) -> (r: bool)
    ensures
        r == fields_borrow(names(state.borrowed_tynames), fields_view(fs@)),
{
    let ghost fv = fields_view(fs@);
    let mut i: usize = 0;
    while i < fs.len()
        invariant
            i <= fs@.len(),
            fv == fields_view(fs@),
            forall|j: int| 0 <= j < i ==> !names(state.borrowed_tynames).contains_key(#[trigger] fv[j].ty),
        decreases fs@.len() - i,
    {
        assert(fv[i as int] == fs@[i as int]@);
        if maybe_name_of(&state.borrowed_tynames, fs[i].ty).is_some() {
            assert(names(state.borrowed_tynames).contains_key(fv[i as int].ty));
            return true;
        }
        i = i + 1;
    }
    false
}

impl RustcAbiImpl {
    /// Writes the declaration of type `ty` to `f`, if it is a nominal type,
    /// and gives the name (and, where the type borrows, the borrowed name)
    /// the backend uses for it. A primitive Rust does not have, and an alias
    /// with attributes, are refused with nothing written.
    pub fn generate_tydef(&self, f: &mut String, state: &GenState, types: &TypedProgram, env: &PunEnv, ty: usize)
        -> (r: Result<(String, Option<String>), GenerateError>)
        requires
            ty < types@.tcx.tys.len(),
            tydef_ready(types@.tcx.tys, names(state.tynames), names(state.borrowed_tynames), env.lang@, ty as int),
        ensures
            tydef_refused(types@.tcx.tys, ty as int) ==> (r matches Err(GenerateError::Unsupported(_)) && final(f)@ == old(f)@),
            !tydef_refused(types@.tcx.tys, ty as int) ==> ({
                let (text, name, borrowed) = spec_tydef(types@.tcx.tys, names(state.tynames), names(state.borrowed_tynames),
                    env.lang@, ty as int);
                &&& final(f)@ == old(f)@ + text
                &&& r matches Ok((n, b)) && n@ == name && match b {
                    Some(s) => borrowed == Some(s@),
                    None => borrowed is None,
                }
            }),
    {
        let ghost tys = types@.tcx.tys;
        let ghost tyn = names(state.tynames);
        let ghost btyn = names(state.borrowed_tynames);
        let ghost f0 = f@;
        match types.realize_ty(ty) {
            Ty::Primitive(prim) => match prim {
                PrimitiveTy::I256 => Err(GenerateError::Unsupported(owned("rust doesn't have i256"))),
                PrimitiveTy::U256 => Err(GenerateError::Unsupported(owned("rust doesn't have u256"))),
                PrimitiveTy::F16 => Err(GenerateError::Unsupported(owned("rust doesn't have f16"))),
                PrimitiveTy::F128 => Err(GenerateError::Unsupported(owned("rust doesn't have f128"))),
                _ => Ok((owned(rust_prim_str(*prim)), None)),
            },
            Ty::Array(at) => {
                let elem = name_of(&state.tynames, at.elem_ty);
                let mut name = owned("[");
                push_str(&mut name, elem.as_str());
                push_str(&mut name, "; ");
                push_decimal(&mut name, at.len);
                push_str(&mut name, "]");
                let borrowed = match maybe_name_of(&state.borrowed_tynames, at.elem_ty) {
                    Some(b) => {
                        let mut s = owned("[");
                        push_str(&mut s, b.as_str());
                        push_str(&mut s, "; ");
                        push_decimal(&mut s, at.len);
                        push_str(&mut s, "]");
                        Some(s)
                    },
                    None => None,
                };
                Ok((name, borrowed))
            },
            Ty::Ref(rt) => {
                let pointee = name_of(&state.tynames, rt.pointee_ty);
                let borrowed_pointee = match maybe_name_of(&state.borrowed_tynames, rt.pointee_ty) {
                    Some(b) => b,
                    None => pointee.clone(),
                };
                let mut name = owned("&mut ");
                push_str(&mut name, pointee.as_str());
                let mut borrowed = owned("&'a mut ");
                push_str(&mut borrowed, borrowed_pointee.as_str());
                Ok((name, Some(borrowed)))
            },
            Ty::Empty => Ok((owned("()"), None)),
            Ty::Struct(st) => {
                let name = st.name.val.value.clone();
                let b = write_fields_decl_block(f, state, &st.attrs, "struct", name.as_str(), &st.fields);
                Ok((name.clone(), borrowed_of(name.as_str(), b)))
            },
            Ty::Union(ut) => {
                let name = ut.name.val.value.clone();
                let b = write_fields_decl_block(f, state, &ut.attrs, "union", name.as_str(), &ut.fields);
                Ok((name.clone(), borrowed_of(name.as_str(), b)))
            },
            Ty::Enum(et) => {
                let name = et.name.val.value.clone();
                write_decl_open(f, &et.attrs, "enum", name.as_str(), false, "#[derive(Debug, Copy, Clone, PartialEq)]\n");
                write_cases(f, &et.variants);
                push_str(f, "}\n\n");
                proof { assert(f@ =~= old(f)@ + spec_tydef(tys, tyn, btyn, env.lang@, ty as int).0); }
                Ok((name, None))
            },
            Ty::Tagged(tt) => {
                assert forall|v: int| 0 <= v < tt.variants@.len() implies
                    fields_named(tyn, variant_field_list(#[trigger] tt.variants@[v]@)) by {
                    assert(tt.variants@.map_values(|x: TaggedVariantTy| x@)[v] == tt.variants@[v]@);
                }
                let name = tt.name.val.value.clone();
                let b = write_tagged_block(f, state, &tt.attrs, name.as_str(), &tt.variants);
                Ok((name.clone(), borrowed_of(name.as_str(), b)))
            },
            Ty::Alias(at) => {
                if at.attrs.len() > 0 {
                    return Err(GenerateError::Unsupported(owned("don't yet know how to apply attrs to aliases")));
                }
                let name = at.name.val.value.clone();
                match maybe_name_of(&state.borrowed_tynames, at.real) {
                    Some(target_name) => {
                        push_str(f, "type ");
                        push_str(f, name.as_str());
                        push_str(f, "<'a> = ");
                        push_str(f, target_name.as_str());
                        push_str(f, ";\n\n");
                        let mut borrowed = name.clone();
                        push_str(&mut borrowed, "<'a>");
                        proof { assert(f@ =~= old(f)@ + spec_tydef(tys, tyn, btyn, env.lang@, ty as int).0); }
                        Ok((name, Some(borrowed)))
                    },
                    None => {
                        let target_name = name_of(&state.tynames, at.real);
                        push_str(f, "type ");
                        push_str(f, name.as_str());
                        push_str(f, " = ");
                        push_str(f, target_name.as_str());
                        push_str(f, ";\n\n");
                        proof { assert(f@ =~= old(f)@ + spec_tydef(tys, tyn, btyn, env.lang@, ty as int).0); }
                        Ok((name, None))
                    },
                }
            },
            Ty::Pun(pt) => {
                let target = match types.resolve_pun(pt, env) {
                    Ok(t) => t,
                    Err(_) => {
                        proof { assert(false); }
                        0
                    },
                };
                Ok((name_of(&state.tynames, target), maybe_name_of(&state.borrowed_tynames, target)))
            },
        }
    }
}

/// Whether type `t` is a primitive Rust does not have.
pub open spec fn prim_refused(tys: Seq<TyV>, t: int) -> bool {
    tys[t] matches TyV::Primitive(p) && !prim_supported(p)
}

/// What the backend needs to name type `t`: the names of the types its
/// name is made of.
pub open spec fn names_ready(tys: Seq<TyV>, tyn: Map<usize, Seq<char>>, lang: Seq<char>, t: int) -> bool {
    match tys[t] {
        TyV::Array(a) => tyn.contains_key(a.elem_ty),
        TyV::Ref(r) => tyn.contains_key(r.pointee_ty),
        TyV::Pun { blocks, .. } => spec_pick_block(blocks, lang, 0) matches Some(target) && tyn.contains_key(target),
        _ => true,
    }
}

/// `m` with `t` named `name` in it, where there is a name.
pub open spec fn with_name(m: Map<usize, Seq<char>>, t: usize, name: Option<Seq<char>>) -> Map<usize, Seq<char>> {
    match name {
        Some(n) => m.insert(t, n),
        None => m,
    }
}

impl RustcAbiImpl {
    /// Gives type `ty` the name (and, where it borrows, the borrowed name)
    /// the backend uses for it, unless it has one already, which is kept:
    /// interning a type twice is interning it once. A primitive Rust does
    /// not have is refused, and nothing is named.
    pub fn intern_tyname(&self, state: &mut GenState, types: &TypedProgram, env: &PunEnv, ty: usize)
        -> (r: Result<(), GenerateError>)
        requires
            !names(old(state).tynames).contains_key(ty) ==> ty < types@.tcx.tys.len()
                && names_ready(types@.tcx.tys, names(old(state).tynames), env.lang@, ty as int),
        ensures
            names(old(state).tynames).contains_key(ty) ==> r is Ok
                && names(final(state).tynames) == names(old(state).tynames)
                && names(final(state).borrowed_tynames) == names(old(state).borrowed_tynames),
            !names(old(state).tynames).contains_key(ty) && prim_refused(types@.tcx.tys, ty as int) ==> (
                r matches Err(GenerateError::Unsupported(_))
                && names(final(state).tynames) == names(old(state).tynames)
                && names(final(state).borrowed_tynames) == names(old(state).borrowed_tynames)),
            !names(old(state).tynames).contains_key(ty) && !prim_refused(types@.tcx.tys, ty as int) ==> ({
                let (_, name, borrowed) = spec_tydef(types@.tcx.tys, names(old(state).tynames), names(old(state).borrowed_tynames),
                    env.lang@, ty as int);
                &&& r is Ok
                &&& names(final(state).tynames) == names(old(state).tynames).insert(ty, name)
                &&& names(final(state).borrowed_tynames) == with_name(names(old(state).borrowed_tynames), ty, borrowed)
            }),
    {
        broadcast use vstd::std_specs::hash::group_hash_axioms;
        let ghost tys = types@.tcx.tys;
        let ghost tyn = names(state.tynames);
        let ghost btyn = names(state.borrowed_tynames);
        if state.tynames.contains_key(&ty) {
            return Ok(());
        }
        let (name, borrowed) = match types.realize_ty(ty) {
            Ty::Primitive(prim) => match prim {
                PrimitiveTy::I256 => return Err(GenerateError::Unsupported(owned("rust doesn't have i256"))),
                PrimitiveTy::U256 => return Err(GenerateError::Unsupported(owned("rust doesn't have u256"))),
                PrimitiveTy::F16 => return Err(GenerateError::Unsupported(owned("rust doesn't have f16"))),
                PrimitiveTy::F128 => return Err(GenerateError::Unsupported(owned("rust doesn't have f128"))),
                _ => (owned(rust_prim_str(*prim)), None),
            },
            Ty::Array(at) => {
                let elem = name_of(&state.tynames, at.elem_ty);
                let mut name = owned("[");
                push_str(&mut name, elem.as_str());
                push_str(&mut name, "; ");
                push_decimal(&mut name, at.len);
                push_str(&mut name, "]");
                let borrowed = match maybe_name_of(&state.borrowed_tynames, at.elem_ty) {
                    Some(b) => {
                        let mut s = owned("[");
                        push_str(&mut s, b.as_str());
                        push_str(&mut s, "; ");
                        push_decimal(&mut s, at.len);
                        push_str(&mut s, "]");
                        Some(s)
                    },
                    None => None,
                };
                (name, borrowed)
            },
            Ty::Ref(rt) => {
                let pointee = name_of(&state.tynames, rt.pointee_ty);
                let borrowed_pointee = match maybe_name_of(&state.borrowed_tynames, rt.pointee_ty) {
                    Some(b) => b,
                    None => pointee.clone(),
                };
                let mut name = owned("&mut ");
                push_str(&mut name, pointee.as_str());
                let mut borrowed = owned("&'a mut ");
                push_str(&mut borrowed, borrowed_pointee.as_str());
                (name, Some(borrowed))
            },
            Ty::Empty => (owned("()"), None),
            Ty::Struct(st) => {
                let b = fields_have_borrows(&*state, &st.fields);
                let name = st.name.val.value.clone();
                let borrowed = borrowed_of(name.as_str(), b);
                (name, borrowed)
            },
            Ty::Union(ut) => {
                let b = fields_have_borrows(&*state, &ut.fields);
                let name = ut.name.val.value.clone();
                let borrowed = borrowed_of(name.as_str(), b);
                (name, borrowed)
            },
            Ty::Enum(et) => (et.name.val.value.clone(), None),
            Ty::Tagged(tt) => {
                let b = variants_have_borrows(&*state, &tt.variants);
                let name = tt.name.val.value.clone();
                let borrowed = borrowed_of(name.as_str(), b);
                (name, borrowed)
            },
            Ty::Alias(at) => {
                let name = at.name.val.value.clone();
                let borrowed = match maybe_name_of(&state.borrowed_tynames, at.real) {
                    Some(_) => {
                        let mut s = name.clone();
                        push_str(&mut s, "<'a>");
                        Some(s)
                    },
                    None => None,
                };
                (name, borrowed)
            },
            Ty::Pun(pt) => {
                let target = match types.resolve_pun(pt, env) {
                    Ok(t) => t,
                    Err(_) => {
                        proof { assert(false); }
                        0
                    },
                };
                (name_of(&state.tynames, target), maybe_name_of(&state.borrowed_tynames, target))
            },
        };
        let ghost spec_names = spec_tydef(tys, tyn, btyn, env.lang@, ty as int);
        assert(name@ == spec_names.1);
        assert(match borrowed { Some(b) => spec_names.2 == Some(b@), None => spec_names.2 is None });
        let ghost name_v = name@;
        state.tynames.insert(ty, name);
        assert(names(state.tynames) =~= tyn.insert(ty, name_v));
        match borrowed {
            Some(b) => {
                let ghost b_v = b@;
                state.borrowed_tynames.insert(ty, b);
                assert(names(state.borrowed_tynames) =~= btyn.insert(ty, b_v));
            },
            None => {},
        }
        Ok(())
    }
}

/// Appends the declaration of a struct or union with the fields; gives
/// whether it borrows.
fn write_fields_decl_block(f: &mut String, state: &GenState, attrs: &Vec<Attr>, keyword: &str, name: &str, fs: &Vec<FieldTy>) -> (b: bool)
    requires
        fields_named(names(state.tynames), fields_view(fs@)),
    ensures
        b == fields_borrow(names(state.borrowed_tynames), fields_view(fs@)),
        final(f)@ == old(f)@ + repr_text(attrs_view(attrs@)) + decl_open(keyword@, name@, b, copy_derive())
            + fields_text(names(state.tynames), names(state.borrowed_tynames), fields_view(fs@), fs@.len() as int, "    "@)
            + "}\n\n"@,
{
    let ghost f0 = f@;
    let b = fields_have_borrows(state, fs);
    write_decl_open(f, attrs, keyword, name, b, "#[derive(Copy, Clone)]\n");
    let ghost f1 = f@;
    write_fields_decl(f, state, fs, "    ");
    let ghost f2 = f@;
    push_str(f, "}\n\n");
    assert(f@ =~= f0 + repr_text(attrs_view(attrs@)) + decl_open(keyword@, name@, b, copy_derive())
        + fields_text(names(state.tynames), names(state.borrowed_tynames), fields_view(fs@), fs@.len() as int, "    "@)
        + "}\n\n"@);
    b
}

/// Appends the declaration of a tagged union; gives whether it borrows.
fn write_tagged_block(f: &mut String, state: &GenState, attrs: &Vec<Attr>, name: &str, vs: &Vec<TaggedVariantTy>) -> (b: bool)
    requires
        forall|v: int| 0 <= v < vs@.len() ==> fields_named(names(state.tynames), variant_field_list(#[trigger] vs@[v]@)),
    ensures
        b == variants_borrow(names(state.borrowed_tynames), vs@.map_values(|v: TaggedVariantTy| v@)),
        final(f)@ == old(f)@ + repr_text(attrs_view(attrs@)) + decl_open("enum"@, name@, b, copy_derive())
            + variants_text(names(state.tynames), names(state.borrowed_tynames), vs@.map_values(|v: TaggedVariantTy| v@), vs@.len() as int)
            + "}\n\n"@,
{
    let ghost f0 = f@;
    let b = variants_have_borrows(state, vs);
    write_decl_open(f, attrs, "enum", name, b, "#[derive(Copy, Clone)]\n");
    write_variants(f, state, vs);
    push_str(f, "}\n\n");
    assert(f@ =~= f0 + repr_text(attrs_view(attrs@)) + decl_open("enum"@, name@, b, copy_derive())
        + variants_text(names(state.tynames), names(state.borrowed_tynames), vs@.map_values(|v: TaggedVariantTy| v@), vs@.len() as int)
        + "}\n\n"@);
    b
}

/// The Rust name of a primitive.
fn rust_prim_str(p: PrimitiveTy) -> (r: &'static str)
    ensures
        r@ == rust_prim_name(p),
{
    match p {
        PrimitiveTy::I8 => "i8",
        PrimitiveTy::I16 => "i16",
        PrimitiveTy::I32 => "i32",
        PrimitiveTy::I64 => "i64",
        PrimitiveTy::I128 => "i128",
        PrimitiveTy::I256 => "i256",
        PrimitiveTy::U8 => "u8",
        PrimitiveTy::U16 => "u16",
        PrimitiveTy::U32 => "u32",
        PrimitiveTy::U64 => "u64",
        PrimitiveTy::U128 => "u128",
        PrimitiveTy::U256 => "u256",
        PrimitiveTy::F16 => "f16",
        PrimitiveTy::F32 => "f32",
        PrimitiveTy::F64 => "f64",
        PrimitiveTy::F128 => "f128",
        PrimitiveTy::Bool => "bool",
        PrimitiveTy::Ptr => "*mut ()",
    }
}

/// Appends the attribute lines and the opening line of a declaration,
/// preceded by `derive` where it does not borrow.
fn write_decl_open(f: &mut String, attrs: &Vec<Attr>, keyword: &str, name: &str, borrows: bool, derive: &str)
    ensures
        final(f)@ == old(f)@ + repr_text(attrs_view(attrs@)) + decl_open(keyword@, name@, borrows, derive@),
{
    let ghost f0 = f@;
    write_repr(f, attrs);
    if !borrows {
        push_str(f, derive);
    }
    push_str(f, keyword);
    push_str(f, " ");
    push_str(f, name);
    if borrows {
        push_str(f, "<'a> {\n");
    } else {
        push_str(f, " {\n");
    }
    assert(f@ =~= f0 + repr_text(attrs_view(attrs@)) + decl_open(keyword@, name@, borrows, derive@));
}

/// Appends the attribute lines of a nominal type with the attributes.
fn write_repr(f: &mut String, attrs: &Vec<Attr>)
    ensures
        final(f)@ == old(f)@ + repr_text(attrs_view(attrs@)),
{
    let ghost av = attrs_view(attrs@);
    let ghost f0 = f@;
    push_str(f, "#[repr(");
    let mut i: usize = 0;
    while i < attrs.len()
        invariant
            i <= attrs@.len(),
            av == attrs_view(attrs@),
            f@ == f0 + "#[repr("@ + packed_prefix(av, i as int),
        decreases attrs@.len() - i,
    {
        assert(av[i as int] == attrs@[i as int]@);
        if let Attr::Packed(_) = &attrs[i] {
            push_str(f, "packed, ");
        }
        i = i + 1;
        assert(f@ =~= f0 + "#[repr("@ + packed_prefix(av, i as int));
    }
    push_str(f, "C)]\n");
    let ghost f1 = f@;
    let mut j: usize = 0;
    while j < attrs.len()
        invariant
            j <= attrs@.len(),
            av == attrs_view(attrs@),
            f@ == f1 + passthrough_lines(av, j as int),
        decreases attrs@.len() - j,
    {
        assert(av[j as int] == attrs@[j as int]@);
        if let Attr::Passthrough(p) = &attrs[j] {
            push_str(f, p.0.value.as_str());
            push_str(f, "\n");
        }
        j = j + 1;
        assert(f@ =~= f1 + passthrough_lines(av, j as int));
    }
    assert(f@ =~= f0 + repr_text(av));
}

impl RustcAbiImpl {
    /// Writes the attribute lines of a nominal type with the attributes:
    /// `#[repr(..)]` with `packed` for each packed attribute and then `C`,
    /// and a line for each attribute passed through.
    pub fn generate_repr_attr(&self, f: &mut String, attrs: &Vec<Attr>) -> (r: Result<(), GenerateError>)
        ensures
            r is Ok,
            final(f)@ == old(f)@ + repr_text(attrs_view(attrs@)),
    {
        write_repr(f, attrs);
        Ok(())
    }
}

/// The borrowed name of a nominal type, where it borrows.
fn borrowed_of(name: &str, borrows: bool) -> (r: Option<String>)
    ensures
        match r {
            Some(s) => borrowed_name(name@, borrows) == Some(s@),
            None => borrowed_name(name@, borrows) is None,
        },
{
    if borrows {
        let mut s = owned(name);
        push_str(&mut s, "<'a>");
        Some(s)
    } else {
        None
    }
}

/// Appends the lines declaring the cases of a c-style enum.
fn write_cases(f: &mut String, vs: &Vec<EnumVariantTy>)
    ensures
        final(f)@ == old(f)@ + cases_text(vs@.map_values(|v: EnumVariantTy| v.name@), vs@.len() as int),
{
    let ghost names_v = vs@.map_values(|v: EnumVariantTy| v.name@);
    let ghost f0 = f@;
    let mut i: usize = 0;
    while i < vs.len()
        invariant
            i <= vs@.len(),
            names_v == vs@.map_values(|v: EnumVariantTy| v.name@),
            f@ == f0 + cases_text(names_v, i as int),
        decreases vs@.len() - i,
    {
        assert(names_v[i as int] == vs@[i as int].name@);
        push_str(f, "    ");
        push_str(f, vs[i].name.val.value.as_str());
        push_str(f, ",\n");
        i = i + 1;
        assert(f@ =~= f0 + cases_text(names_v, i as int));
    }
}

/// Whether a field of some variant has a borrowed type.
fn variants_have_borrows(state: &GenState, vs: &Vec<TaggedVariantTy>) -> (r: bool)
    ensures
        r == variants_borrow(names(state.borrowed_tynames), vs@.map_values(|v: TaggedVariantTy| v@)),
{
    let ghost vv = vs@.map_values(|v: TaggedVariantTy| v@);
    let mut i: usize = 0;
    while i < vs.len()
        invariant
            i <= vs@.len(),
            vv == vs@.map_values(|v: TaggedVariantTy| v@),
            forall|j: int| 0 <= j < i ==> !fields_borrow(names(state.borrowed_tynames), variant_field_list(#[trigger] vv[j])),
        decreases vs@.len() - i,
    {
        assert(vv[i as int] == vs@[i as int]@);
        if let Some(fs) = &vs[i].fields {
            assert(variant_field_list(vv[i as int]) == fields_view(fs@));
            if fields_have_borrows(state, fs) {
                return true;
            }
        } else {
            assert(variant_field_list(vv[i as int]) =~= Seq::<FieldTyV>::empty());
        }
        i = i + 1;
    }
    false
}

/// Appends the lines declaring the variants of a tagged union.
fn write_variants(f: &mut String, state: &GenState, vs: &Vec<TaggedVariantTy>)
    requires
        forall|v: int| 0 <= v < vs@.len() ==> fields_named(names(state.tynames), variant_field_list(#[trigger] vs@[v]@)),
    ensures
        final(f)@ == old(f)@ + variants_text(names(state.tynames), names(state.borrowed_tynames),
            vs@.map_values(|v: TaggedVariantTy| v@), vs@.len() as int),
{
    let ghost tyn = names(state.tynames);
    let ghost btyn = names(state.borrowed_tynames);
    let ghost vv = vs@.map_values(|v: TaggedVariantTy| v@);
    let ghost f0 = f@;
    let mut i: usize = 0;
    while i < vs.len()
        invariant
            i <= vs@.len(),
            vv == vs@.map_values(|v: TaggedVariantTy| v@),
            tyn == names(state.tynames),
            btyn == names(state.borrowed_tynames),
            forall|v: int| 0 <= v < vs@.len() ==> fields_named(tyn, variant_field_list(#[trigger] vs@[v]@)),
            f@ == f0 + variants_text(tyn, btyn, vv, i as int),
        decreases vs@.len() - i,
    {
        assert(vv[i as int] == vs@[i as int]@);
        let ghost before = f@;
        let variant = &vs[i];
        push_str(f, "    ");
        push_str(f, variant.name.val.value.as_str());
        match &variant.fields {
            Some(fs) => {
                push_str(f, " {\n");
                assert(variant_field_list(vs@[i as int]@) == fields_view(fs@));
                write_fields_decl(f, state, fs, "        ");
                push_str(f, "    },\n");
            },
            None => {
                push_str(f, ",\n");
            },
        }
        i = i + 1;
        assert(f@ =~= f0 + variants_text(tyn, btyn, vv, i as int));
    }
}

} // verus!

verus! {

/// The parameters `name: type, ` of the first `k` arguments.
pub open spec fn sig_inputs(tyn: Map<usize, Seq<char>>, args: Seq<ArgV>, k: int) -> Seq<char>
    decreases k,
{
    if k <= 0 || k > args.len() {
        Seq::empty()
    } else {
        sig_inputs(tyn, args, k - 1) + args[k - 1].name.text() + ": "@ + tyn[args[k - 1].ty] + ", "@
    }
}

/// The parameters `name: type, ` of the outputs, among the first `k`,
/// passed as out-params: those whose type borrows.
pub open spec fn sig_outparams(tyn: Map<usize, Seq<char>>, btyn: Map<usize, Seq<char>>, outs: Seq<ArgV>, k: int) -> Seq<char>
    decreases k,
{
    if k <= 0 || k > outs.len() {
        Seq::empty()
    } else if btyn.contains_key(outs[k - 1].ty) {
        sig_outparams(tyn, btyn, outs, k - 1) + outs[k - 1].name.text() + ": "@ + tyn[outs[k - 1].ty] + ", "@
    } else {
        sig_outparams(tyn, btyn, outs, k - 1)
    }
}

/// The positions, among the first `k` outputs, of those returned normally:
/// those whose type does not borrow.
pub open spec fn normal_returns(btyn: Map<usize, Seq<char>>, outs: Seq<ArgV>, k: int) -> Seq<int>
    decreases k,
{
    if k <= 0 || k > outs.len() {
        Seq::empty()
    } else if btyn.contains_key(outs[k - 1].ty) {
        normal_returns(btyn, outs, k - 1)
    } else {
        normal_returns(btyn, outs, k - 1).push(k - 1)
    }
}

/// The signature of function `f`, and whether it can be written: `fn`,
/// the name, the inputs and out-params as parameters, and the one output
/// returned normally, if any. A second output returned normally cannot be
/// written; the text then stops after the first.
pub open spec fn spec_signature(tyn: Map<usize, Seq<char>>, btyn: Map<usize, Seq<char>>, f: FuncV) -> (Seq<char>, bool) {
    let head = "fn "@ + f.name.text() + "("@ + sig_inputs(tyn, f.inputs, f.inputs.len() as int)
        + sig_outparams(tyn, btyn, f.outputs, f.outputs.len() as int);
    let nr = normal_returns(btyn, f.outputs, f.outputs.len() as int);
    if nr.len() == 0 {
        (head + ")"@, true)
    } else {
        (head + ") -> "@ + tyn[f.outputs[nr[0]].ty], nr.len() == 1)
    }
}

/// The types a signature names are named: every input's, every
/// out-param's, and the first normal return's.
pub open spec fn signature_named(tyn: Map<usize, Seq<char>>, btyn: Map<usize, Seq<char>>, f: FuncV) -> bool {
    &&& forall|i: int| 0 <= i < f.inputs.len() ==> tyn.contains_key(#[trigger] f.inputs[i].ty)
    &&& forall|i: int| 0 <= i < f.outputs.len() && btyn.contains_key(#[trigger] f.outputs[i].ty) ==> tyn.contains_key(f.outputs[i].ty)
    &&& normal_returns(btyn, f.outputs, f.outputs.len() as int).len() > 0
        ==> tyn.contains_key(f.outputs[normal_returns(btyn, f.outputs, f.outputs.len() as int)[0]].ty)
}

proof fn lemma_normal_returns(btyn: Map<usize, Seq<char>>, outs: Seq<ArgV>, k: int)
    requires
        0 <= k <= outs.len(),
    ensures
        forall|j: int| 0 <= j < normal_returns(btyn, outs, k).len() ==> 0 <= #[trigger] normal_returns(btyn, outs, k)[j] < k
            && !btyn.contains_key(outs[normal_returns(btyn, outs, k)[j]].ty),
        forall|i: int| 0 <= i < k && !btyn.contains_key(#[trigger] outs[i].ty) ==> normal_returns(btyn, outs, k).len() > 0
            && normal_returns(btyn, outs, k)[0] <= i,
    decreases k,
{
    if k > 0 {
        lemma_normal_returns(btyn, outs, k - 1);
        let prev = normal_returns(btyn, outs, k - 1);
        if !btyn.contains_key(outs[k - 1].ty) {
            let cur = prev.push(k - 1);
            assert(normal_returns(btyn, outs, k) == cur);
            assert forall|j: int| 0 <= j < cur.len() implies 0 <= #[trigger] cur[j] < k && !btyn.contains_key(outs[cur[j]].ty) by {
                if j < prev.len() {
                    assert(cur[j] == prev[j]);
                }
            }
            assert forall|i: int| 0 <= i < k && !btyn.contains_key(#[trigger] outs[i].ty) implies cur.len() > 0 && cur[0] <= i by {
                if prev.len() > 0 {
                    assert(cur[0] == prev[0]);
                }
            }
        }
    }
}

impl RustcAbiImpl {
    /// Writes the signature of function `func` to `f`: its inputs, then
    /// its outputs whose type borrows as out-params, then its output
    /// returned normally; more than one output returned normally cannot be
    /// expressed, and fails.
    pub fn generate_signature(&self, f: &mut String, state: &GenState, types: &TypedProgram, func: usize)
        -> (r: Result<(), GenerateError>)
        requires
            func < types@.funcs.len(),
            signature_named(names(state.tynames), names(state.borrowed_tynames), types@.funcs[func as int]),
        ensures
            final(f)@ == old(f)@ + spec_signature(names(state.tynames), names(state.borrowed_tynames), types@.funcs[func as int]).0,
            r is Ok <==> spec_signature(names(state.tynames), names(state.borrowed_tynames), types@.funcs[func as int]).1,
            r matches Err(e) ==> e is RustUnsupported,
    {
        let ghost tyn = names(state.tynames);
        let ghost btyn = names(state.borrowed_tynames);
        let function = types.realize_func(func);
        let ghost fv = function@;
        let ghost f0 = f@;
        push_str(f, "fn ");
        push_str(f, function.name.val.value.as_str());
        push_str(f, "(");
        let ghost f1 = f@;
        let mut i: usize = 0;
        while i < function.inputs.len()
            invariant
                i <= fv.inputs.len(),
                fv == function@,
                fv.inputs.len() == function.inputs@.len(),
                tyn == names(state.tynames),
                forall|j: int| 0 <= j < fv.inputs.len() ==> tyn.contains_key(#[trigger] fv.inputs[j].ty),
                f@ == f1 + sig_inputs(tyn, fv.inputs, i as int),
            decreases fv.inputs.len() - i,
        {
            let arg = &function.inputs[i];
            assert(fv.inputs[i as int] == arg@);
            assert(tyn.contains_key(fv.inputs[i as int].ty));
            push_str(f, arg.name.val.value.as_str());
            push_str(f, ": ");
            let ty_name = name_of(&state.tynames, arg.ty);
            push_str(f, ty_name.as_str());
            push_str(f, ", ");
            i = i + 1;
            assert(f@ =~= f1 + sig_inputs(tyn, fv.inputs, i as int));
        }
        let ghost f2 = f@;
        let mut i: usize = 0;
        while i < function.outputs.len()
            invariant
                i <= fv.outputs.len(),
                fv == function@,
                fv.outputs.len() == function.outputs@.len(),
                tyn == names(state.tynames),
                btyn == names(state.borrowed_tynames),
                forall|j: int| 0 <= j < fv.outputs.len() && btyn.contains_key(#[trigger] fv.outputs[j].ty) ==> tyn.contains_key(fv.outputs[j].ty),
                f@ == f2 + sig_outparams(tyn, btyn, fv.outputs, i as int),
            decreases fv.outputs.len() - i,
        {
            let arg = &function.outputs[i];
            assert(fv.outputs[i as int] == arg@);
            if maybe_name_of(&state.borrowed_tynames, arg.ty).is_some() {
                assert(btyn.contains_key(fv.outputs[i as int].ty));
                push_str(f, arg.name.val.value.as_str());
                push_str(f, ": ");
                let ty_name = name_of(&state.tynames, arg.ty);
                push_str(f, ty_name.as_str());
                push_str(f, ", ");
            }
            i = i + 1;
            assert(f@ =~= f2 + sig_outparams(tyn, btyn, fv.outputs, i as int));
        }
        let ghost f3 = f@;
        assert(f3 == f0 + "fn "@ + fv.name.text() + "("@ + sig_inputs(tyn, fv.inputs, fv.inputs.len() as int)
            + sig_outparams(tyn, btyn, fv.outputs, fv.outputs.len() as int));
        proof { lemma_normal_returns(btyn, fv.outputs, fv.outputs.len() as int); }
        let mut has_normal_return = false;
        let ghost n = fv.outputs.len() as int;
        let mut i: usize = 0;
        while i < function.outputs.len()
            invariant
                i <= fv.outputs.len(),
                n == fv.outputs.len(),
                fv == function@,
                fv == types@.funcs[func as int],
                f3 == old(f)@ + "fn "@ + fv.name.text() + "("@ + sig_inputs(tyn, fv.inputs, fv.inputs.len() as int)
                    + sig_outparams(tyn, btyn, fv.outputs, fv.outputs.len() as int),
                fv.outputs.len() == function.outputs@.len(),
                tyn == names(state.tynames),
                btyn == names(state.borrowed_tynames),
                signature_named(tyn, btyn, fv),
                has_normal_return <==> normal_returns(btyn, fv.outputs, i as int).len() > 0,
                normal_returns(btyn, fv.outputs, i as int).len() <= 1,
                has_normal_return ==> normal_returns(btyn, fv.outputs, n).len() > 0
                    && normal_returns(btyn, fv.outputs, i as int)[0] == normal_returns(btyn, fv.outputs, n)[0],
                has_normal_return ==> f@ == f3 + ") -> "@ + tyn[fv.outputs[normal_returns(btyn, fv.outputs, n)[0]].ty],
                !has_normal_return ==> f@ == f3,
            decreases fv.outputs.len() - i,
        {
            let arg = &function.outputs[i];
            assert(fv.outputs[i as int] == arg@);
            if maybe_name_of(&state.borrowed_tynames, arg.ty).is_none() {
                assert(normal_returns(btyn, fv.outputs, i as int + 1) == normal_returns(btyn, fv.outputs, i as int).push(i as int));
                if has_normal_return {
                    proof { lemma_normal_returns_count(btyn, fv.outputs, i as int + 1, n); }
                    return Err(GenerateError::RustUnsupported(owned("multiple normal returns (should this be a tuple?)")));
                }
                has_normal_return = true;
                proof { lemma_normal_returns_prefix(btyn, fv.outputs, i as int + 1, n); }
                push_str(f, ") -> ");
                let ty_name = name_of(&state.tynames, arg.ty);
                push_str(f, ty_name.as_str());
            } else {
                assert(normal_returns(btyn, fv.outputs, i as int + 1) == normal_returns(btyn, fv.outputs, i as int));
            }
            i = i + 1;
        }
        if !has_normal_return {
            push_str(f, ")");
        }
        Ok(())
    }
}

proof fn lemma_normal_returns_prefix(btyn: Map<usize, Seq<char>>, outs: Seq<ArgV>, k: int, n: int)
    requires
        0 < k <= n <= outs.len(),
        normal_returns(btyn, outs, k).len() > 0,
    ensures
        normal_returns(btyn, outs, n).len() > 0,
        normal_returns(btyn, outs, n)[0] == normal_returns(btyn, outs, k)[0],
    decreases n - k,
{
    if k < n {
        lemma_normal_returns_prefix(btyn, outs, k, n - 1);
    }
}

proof fn lemma_normal_returns_count(btyn: Map<usize, Seq<char>>, outs: Seq<ArgV>, k: int, n: int)
    requires
        0 <= k <= n <= outs.len(),
    ensures
        normal_returns(btyn, outs, k).len() <= normal_returns(btyn, outs, n).len(),
    decreases n - k,
{
    if k < n {
        lemma_normal_returns_count(btyn, outs, k, n - 1);
    }
}

} // verus!
