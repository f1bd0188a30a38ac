//! The type checker: turns the names of a parsed program into type ids.
//!
//! Every type the program mentions gets a type id (an index into the list
//! of known types). Nominal types (structs, unions, enums, tagged unions,
//! aliases, puns) get a fresh id where they are declared and are found again
//! through the scopes in effect; structural types (`()`, `&T`, `[T; N]`) are
//! interned, so that the same structure always gets the same id.
//!
//! Each step is stated as a function on the abstract state of the checker
//! (`spec_*`), and carried out by an executable function proved to give the
//! same result.

use vstd::prelude::*;
use crate::spanned::{Span, Spanned};
use crate::ast::{
    Ident, IdentV, Attr, AttrV, attrs_view, copy_attrs, Tydent, TydentV, sty_view, TypedVar, TypedVarV,
    vars_view, PunSelector, PunSelectorV, PunEnv, spec_matches,
};
use crate::ast::{TyDecl, TyDeclV, PunBlock, PunBlockV, EnumVariantV, TaggedVariant, TaggedVariantV, EnumVariant,
    blocks_view_from, lemma_blocks_view0};
use crate::ast::{FuncDecl, FuncDeclV};
use crate::parse::{span_of, sp_str, ParsedProgram, ParsedProgramV};
use crate::stable_map::{ty_entries, func_entries, ty_map_iter, func_map_iter};
use crate::text::{owned, str_eq, push_str, push_decimal, decimal, debug_str, str_debug};

verus! {

/// A primitive type.
#[derive(Debug, Clone, Copy, PartialEq, Eq, Structural)]
pub enum PrimitiveTy {
    I8,
    I16,
    I32,
    I64,
    I128,
    I256,
    U8,
    U16,
    U32,
    U64,
    U128,
    U256,
    F16,
    F32,
    F64,
    F128,
    Bool,
    /// An opaque pointer (like `void*`).
    Ptr,
}

/// A field of a struct, union or tagged variant.
#[derive(Debug)]
pub struct FieldTy {
    /// The position of the field.
    pub idx: usize,
    pub ident: Ident,
    pub ty: usize,
}

/// The abstract form of a [`FieldTy`].
pub struct FieldTyV {
    pub idx: usize,
    pub ident: IdentV,
    pub ty: usize,
}

impl View for FieldTy {
    type V = FieldTyV;

    open spec fn view(&self) -> FieldTyV {
        FieldTyV { idx: self.idx, ident: self.ident@, ty: self.ty }
    }
}

/// The abstract forms of a list of fields.
pub open spec fn fields_view(v: Seq<FieldTy>) -> Seq<FieldTyV> {
    v.map_values(|f: FieldTy| f@)
}

/// Whether every field's name was written `_`.
pub open spec fn all_blank(fs: Seq<FieldTyV>) -> bool {
    forall|i: int| 0 <= i < fs.len() ==> (#[trigger] fs[i]).ident.was_blank
}

/// The type of a nominal struct.
#[derive(Debug)]
pub struct StructTy {
    pub name: Ident,
    pub fields: Vec<FieldTy>,
    pub attrs: Vec<Attr>,
    /// Whether every field's name was written `_` (a tuple struct).
    pub all_fields_were_blank: bool,
}

/// The type of an untagged union.
#[derive(Debug)]
pub struct UnionTy {
    pub name: Ident,
    pub fields: Vec<FieldTy>,
    pub attrs: Vec<Attr>,
}

/// A variant of a c-style enum.
#[derive(Debug)]
pub struct EnumVariantTy {
    pub name: Ident,
}

/// The type of a c-style enum.
#[derive(Debug)]
pub struct EnumTy {
    pub name: Ident,
    pub variants: Vec<EnumVariantTy>,
    pub attrs: Vec<Attr>,
}

/// A variant of a tagged union.
#[derive(Debug)]
pub struct TaggedVariantTy {
    pub name: Ident,
    pub fields: Option<Vec<FieldTy>>,
    /// Whether every field's name was written `_` (a tuple variant).
    pub all_fields_were_blank: bool,
}

/// The type of a tagged union (a rust-style enum).
#[derive(Debug)]
pub struct TaggedTy {
    pub name: Ident,
    pub variants: Vec<TaggedVariantTy>,
    pub attrs: Vec<Attr>,
}

/// The type of a transparent type alias.
#[derive(Debug)]
pub struct AliasTy {
    pub name: Ident,
    pub real: usize,
    pub attrs: Vec<Attr>,
}

/// The type of a fixed length array.
#[derive(Debug, Clone, Copy, PartialEq, Eq, Structural)]
pub struct ArrayTy {
    pub elem_ty: usize,
    pub len: u64,
}

/// The type of a reference, passed as a pointer to its pointee.
#[derive(Debug, Clone, Copy, PartialEq, Eq, Structural)]
pub struct RefTy {
    pub pointee_ty: usize,
}

/// A block of a pun: where its selector applies, the type is `real`.
#[derive(Debug)]
pub struct PunBlockTy {
    pub selector: PunSelector,
    pub real: usize,
}

/// The type of a pun: a type that each language spells its own way.
#[derive(Debug)]
pub struct PunTy {
    pub name: Ident,
    pub blocks: Vec<PunBlockTy>,
    pub attrs: Vec<Attr>,
}

/// The structure of a type, with the types it refers to given by id.
#[derive(Debug)]
pub enum Ty {
    Primitive(PrimitiveTy),
    Struct(StructTy),
    Union(UnionTy),
    Enum(EnumTy),
    Tagged(TaggedTy),
    Alias(AliasTy),
    Pun(PunTy),
    Array(ArrayTy),
    Ref(RefTy),
    /// The empty tuple `()`.
    Empty,
}

/// The abstract form of a tagged variant.
pub struct TaggedVariantTyV {
    pub name: IdentV,
    pub fields: Option<Seq<FieldTyV>>,
    pub all_fields_were_blank: bool,
}

/// The abstract form of a pun block.
pub struct PunBlockTyV {
    pub selector: PunSelectorV,
    pub real: usize,
}

/// The abstract form of a [`Ty`].
pub enum TyV {
    Primitive(PrimitiveTy),
    Struct { name: IdentV, fields: Seq<FieldTyV>, attrs: Seq<AttrV>, all_fields_were_blank: bool },
    Union { name: IdentV, fields: Seq<FieldTyV>, attrs: Seq<AttrV> },
    Enum { name: IdentV, variants: Seq<IdentV>, attrs: Seq<AttrV> },
    Tagged { name: IdentV, variants: Seq<TaggedVariantTyV>, attrs: Seq<AttrV> },
    Alias { name: IdentV, real: usize, attrs: Seq<AttrV> },
    Pun { name: IdentV, blocks: Seq<PunBlockTyV>, attrs: Seq<AttrV> },
    Array(ArrayTy),
    Ref(RefTy),
    Empty,
}

impl View for TaggedVariantTy {
    type V = TaggedVariantTyV;

    open spec fn view(&self) -> TaggedVariantTyV {
        TaggedVariantTyV {
            name: self.name@,
            fields: match self.fields { Some(f) => Some(fields_view(f@)), None => None },
            all_fields_were_blank: self.all_fields_were_blank,
        }
    }
}

impl View for PunBlockTy {
    type V = PunBlockTyV;

    open spec fn view(&self) -> PunBlockTyV {
        PunBlockTyV { selector: self.selector@, real: self.real }
    }
}

impl View for Ty {
    type V = TyV;

    open spec fn view(&self) -> TyV {
        match self {
            Ty::Primitive(p) => TyV::Primitive(*p),
            Ty::Struct(s) => TyV::Struct {
                name: s.name@,
                fields: fields_view(s.fields@),
                attrs: attrs_view(s.attrs@),
                all_fields_were_blank: s.all_fields_were_blank,
            },
            Ty::Union(u) => TyV::Union { name: u.name@, fields: fields_view(u.fields@), attrs: attrs_view(u.attrs@) },
            Ty::Enum(e) => TyV::Enum {
                name: e.name@,
                variants: e.variants@.map_values(|v: EnumVariantTy| v.name@),
                attrs: attrs_view(e.attrs@),
            },
            Ty::Tagged(t) => TyV::Tagged {
                name: t.name@,
                variants: t.variants@.map_values(|v: TaggedVariantTy| v@),
                attrs: attrs_view(t.attrs@),
            },
            Ty::Alias(a) => TyV::Alias { name: a.name@, real: a.real, attrs: attrs_view(a.attrs@) },
            Ty::Pun(p) => TyV::Pun {
                name: p.name@,
                blocks: p.blocks@.map_values(|b: PunBlockTy| b@),
                attrs: attrs_view(p.attrs@),
            },
            Ty::Array(a) => TyV::Array(*a),
            Ty::Ref(r) => TyV::Ref(*r),
            Ty::Empty => TyV::Empty,
        }
    }
}

/// The structure of a structural type, by which it is interned.
#[derive(Debug, Clone, Copy, PartialEq, Eq, Structural)]
pub enum StructKey {
    Empty,
    Ref(usize),
    Array(usize, u64),
}

/// The type a structural key stands for.
pub open spec fn key_ty(k: StructKey) -> TyV {
    match k {
        StructKey::Empty => TyV::Empty,
        StructKey::Ref(p) => TyV::Ref(RefTy { pointee_ty: p }),
        StructKey::Array(e, n) => TyV::Array(ArrayTy { elem_ty: e, len: n }),
    }
}

fn key_to_ty(k: StructKey) -> (t: Ty)
    ensures
        t@ == key_ty(k),
{
    match k {
        StructKey::Empty => Ty::Empty,
        StructKey::Ref(p) => Ty::Ref(RefTy { pointee_ty: p }),
        StructKey::Array(e, n) => Ty::Array(ArrayTy { elem_ty: e, len: n }),
    }
}

/// An error found while checking the types of a program.
#[derive(Debug)]
pub struct KdlScriptTypeError {
    pub message: String,
    pub span: Span,
    pub help: Option<String>,
}

/// The abstract form of a [`KdlScriptTypeError`].
pub struct TypeErrV {
    pub message: Seq<char>,
    pub span: Span,
    pub help: Option<Seq<char>>,
}

impl View for KdlScriptTypeError {
    type V = TypeErrV;

    open spec fn view(&self) -> TypeErrV {
        TypeErrV {
            message: self.message@,
            span: self.span,
            help: match self.help { Some(h) => Some(h@), None => None },
        }
    }
}

/// The error for a name that no scope declares.
pub open spec fn undefined_name(name: IdentV) -> TypeErrV {
    TypeErrV { message: "use of undefined type name"@, span: span_of(name.val), help: None }
}

/// A scope: names and the type ids they stand for, latest last.
pub type Scope = Seq<(Seq<char>, usize)>;

/// The abstract state of the checker.
pub struct CtxV {
    /// Every known type; a type id is an index here.
    pub tys: Seq<TyV>,
    /// The interned structural types and their ids, in the order they were first seen.
    pub memo: Seq<(StructKey, usize)>,
    /// The scopes in effect, innermost last.
    pub envs: Seq<Scope>,
}

/// Information on all the types of a program.
#[derive(Debug)]
pub struct TyCtx {
    tys: Vec<Ty>,
    ty_map: Vec<(StructKey, usize)>,
    envs: Vec<Vec<(String, usize)>>,
}

/// The abstract form of a scope.
pub open spec fn scope_view(e: Seq<(String, usize)>) -> Scope {
    e.map_values(|p: (String, usize)| (p.0@, p.1))
}

impl View for TyCtx {
    type V = CtxV;

    closed spec fn view(&self) -> CtxV {
        CtxV {
            tys: self.tys@.map_values(|t: Ty| t@),
            memo: self.ty_map@,
            envs: self.envs@.map_values(|e: Vec<(String, usize)>| scope_view(e@)),
        }
    }
}

/// The first position at or after `i` where `memo` interns `k`.
pub open spec fn memo_find(memo: Seq<(StructKey, usize)>, k: StructKey, i: int) -> Option<int>
    decreases memo.len() - i,
{
    if i < 0 || i >= memo.len() {
        None
    } else if memo[i].0 == k {
        Some(i)
    } else {
        memo_find(memo, k, i + 1)
    }
}

/// Interns a structural type: the id it already has, or a fresh one.
pub open spec fn spec_memoize_inner(c: CtxV, k: StructKey) -> (CtxV, usize) {
    match memo_find(c.memo, k, 0) {
        Some(p) => (c, c.memo[p].1),
        None => (
            CtxV { tys: c.tys.push(key_ty(k)), memo: c.memo.push((k, c.tys.len() as usize)), envs: c.envs },
            c.tys.len() as usize,
        ),
    }
}

/// The latest entry for `name` among the first `k` entries of a scope.
pub open spec fn scope_lookup(e: Scope, name: Seq<char>, k: int) -> Option<usize>
    decreases k,
{
    if k <= 0 || k > e.len() {
        None
    } else if e[k - 1].0 == name {
        Some(e[k - 1].1)
    } else {
        scope_lookup(e, name, k - 1)
    }
}

/// The id `name` stands for in the innermost of the first `k` scopes that declares it.
pub open spec fn resolve_in(envs: Seq<Scope>, name: Seq<char>, k: int) -> Option<usize>
    decreases k,
{
    if k <= 0 || k > envs.len() {
        None
    } else {
        match scope_lookup(envs[k - 1], name, envs[k - 1].len() as int) {
            Some(i) => Some(i),
            None => resolve_in(envs, name, k - 1),
        }
    }
}

/// The id `name` stands for in the scopes `envs`, if any declares it.
pub open spec fn spec_resolve(envs: Seq<Scope>, name: Seq<char>) -> Option<usize> {
    resolve_in(envs, name, envs.len() as int)
}

/// Turns a written type into a type id.
pub open spec fn spec_memoize_ty(c: CtxV, t: Spanned<TydentV>) -> Result<(CtxV, usize), TypeErrV>
    decreases t,
{
    match t.value {
        TydentV::Empty => Ok(spec_memoize_inner(c, StructKey::Empty)),
        TydentV::Ref(p) => match spec_memoize_ty(c, *p) {
            Err(e) => Err(e),
            Ok((c2, q)) => Ok(spec_memoize_inner(c2, StructKey::Ref(q))),
        },
        TydentV::Array(e, n) => match spec_memoize_ty(c, *e) {
            Err(err) => Err(err),
            Ok((c2, q)) => Ok(spec_memoize_inner(c2, StructKey::Array(q, n))),
        },
        TydentV::Name(name) => match spec_resolve(c.envs, name.text()) {
            Some(i) => Ok((c, i)),
            None => Err(undefined_name(name)),
        },
    }
}

impl TyCtx {
    /// Interns a structural type.
    fn memoize_inner(&mut self, k: StructKey) -> (r: usize)
        requires
            store_ok(old(self)@),
            key_below(k, old(self)@.tys.len() as int),
        ensures
            (final(self)@, r) == spec_memoize_inner(old(self)@, k),
            grows(old(self)@, final(self)@),
            store_ok(final(self)@),
            r < final(self)@.tys.len(),
    {
        proof { lemma_memoize_inner_grows(self@, k); }
        let mut i: usize = 0;
        while i < self.ty_map.len()
            invariant
                i <= self.ty_map@.len(),
                self@ == old(self)@,
                store_ok(self@),
                memo_find(self.ty_map@, k, 0) == memo_find(self.ty_map@, k, i as int),
            decreases self.ty_map@.len() - i,
        {
            if self.ty_map[i].0 == k {
                assert(self@.memo[i as int] == self.ty_map@[i as int]);
                return self.ty_map[i].1;
            }
            i = i + 1;
        }
        let idx = self.tys.len();
        let ghost old_tys = self.tys@;
        self.ty_map.push((k, idx));
        let t = key_to_ty(k);
        self.tys.push(t);
        assert(self.tys@.map_values(|t: Ty| t@) =~= old_tys.map_values(|t: Ty| t@).push(key_ty(k)));
        proof {
            lemma_tys_ok_push(old(self)@.tys, key_ty(k));
            let c = self@;
            assert forall|p: int| 0 <= p < c.memo.len() implies (#[trigger] c.memo[p]).1 < c.tys.len() by {
                if p < old(self)@.memo.len() {
                    assert(c.memo[p] == old(self)@.memo[p]);
                }
            }
        }
        idx
    }

    /// The id `name` stands for in the scopes in effect.
    fn resolve_nominal_ty(&self, name: &str) -> (r: Option<usize>)
        ensures
            r == spec_resolve(self@.envs, name@),
    {
        let ghost envs = self@.envs;
        let mut k: usize = self.envs.len();
        while k > 0
            invariant
                k <= self.envs@.len(),
                envs == self@.envs,
                spec_resolve(envs, name@) == resolve_in(envs, name@, k as int),
            decreases k,
        {
            let env = &self.envs[k - 1];
            let ghost sv = scope_view(env@);
            assert(envs[k - 1] == sv);
            let mut j: usize = env.len();
            while j > 0
                invariant
                    j <= env@.len(),
                    sv == scope_view(env@),
                    0 < k <= envs.len(),
                    envs == self@.envs,
                    envs[k - 1] == sv,
                    spec_resolve(envs, name@) == resolve_in(envs, name@, k as int),
                    scope_lookup(sv, name@, sv.len() as int) == scope_lookup(sv, name@, j as int),
                decreases j,
            {
                assert(sv[j - 1] == (env@[j - 1].0@, env@[j - 1].1));
                if str_eq(env[j - 1].0.as_str(), name) {
                    return Some(env[j - 1].1);
                }
                j = j - 1;
            }
            k = k - 1;
        }
        None
    }

    /// Turns a written type into a type id.
    fn memoize_ty(&mut self, t: &Spanned<Tydent>) -> (r: Result<usize, KdlScriptTypeError>)
        requires
            ctx_ok(old(self)@),
            store_ok(old(self)@),
        ensures
            final(self)@.envs == old(self)@.envs,
            r is Ok ==> grows(old(self)@, final(self)@),
            r is Ok ==> store_ok(final(self)@),
            r matches Ok(i) ==> i < final(self)@.tys.len(),
            match r {
                Ok(i) => spec_memoize_ty(old(self)@, sty_view(*t)) == Ok::<(CtxV, usize), TypeErrV>((final(self)@, i)),
                Err(e) => spec_memoize_ty(old(self)@, sty_view(*t)) == Err::<(CtxV, usize), TypeErrV>(e@),
            },
        decreases t,
    {
        proof { lemma_memoize_ty_grows(self@, sty_view(*t)); }
        match &t.value {
            Tydent::Empty => Ok(self.memoize_inner(StructKey::Empty)),
            Tydent::Ref(p) => {
                let q = self.memoize_ty(p)?;
                Ok(self.memoize_inner(StructKey::Ref(q)))
            },
            Tydent::Array(e, n) => {
                let q = self.memoize_ty(e)?;
                Ok(self.memoize_inner(StructKey::Array(q, *n)))
            },
            Tydent::Name(name) => match self.resolve_nominal_ty(name.val.value.as_str()) {
                Some(i) => {
                    proof { lemma_resolve_bound(self@, name@.text(), self@.envs.len() as int); }
                    Ok(i)
                },
                None => Err(KdlScriptTypeError {
                    message: owned("use of undefined type name"),
                    span: Spanned::span(&name.val),
                    help: None,
                }),
            },
        }
    }
}


/// Every scope entry names an existing type.
pub open spec fn ctx_ok(c: CtxV) -> bool {
    forall|k: int, j: int| 0 <= k < c.envs.len() && 0 <= j < c.envs[k].len() ==> (#[trigger] c.envs[k][j]).1 < c.tys.len()
}


/// Every field's type is below `n`.
pub open spec fn fields_below(fs: Seq<FieldTyV>, n: int) -> bool {
    forall|j: int| 0 <= j < fs.len() ==> (#[trigger] fs[j]).ty < n
}

/// Every id that the type with id `i` refers to is below `n`, and an array's
/// element or a reference's pointee is below `i` itself.
pub open spec fn ty_refs_ok(t: TyV, i: int, n: int) -> bool {
    match t {
        TyV::Struct { fields, .. } => fields_below(fields, n),
        TyV::Union { fields, .. } => fields_below(fields, n),
        TyV::Tagged { variants, .. } => forall|v: int| 0 <= v < variants.len()
            ==> ((#[trigger] variants[v]).fields matches Some(fs) ==> fields_below(fs, n)),
        TyV::Alias { real: target, .. } => target < n,
        TyV::Pun { blocks, .. } => forall|b: int| 0 <= b < blocks.len() ==> (#[trigger] blocks[b]).real < n,
        TyV::Array(a) => a.elem_ty < i,
        TyV::Ref(r) => r.pointee_ty < i,
        _ => true,
    }
}

/// Every type refers only to existing types, and arrays and references only
/// to types with smaller ids.
pub open spec fn tys_ok(tys: Seq<TyV>) -> bool {
    forall|i: int| 0 <= i < tys.len() ==> ty_refs_ok(#[trigger] tys[i], i, tys.len() as int)
}

/// The interned ids exist and the types are [`tys_ok`].
pub open spec fn store_ok(c: CtxV) -> bool {
    &&& forall|p: int| 0 <= p < c.memo.len() ==> (#[trigger] c.memo[p]).1 < c.tys.len()
    &&& tys_ok(c.tys)
}

/// Whether a type is an array or a reference.
pub open spec fn is_structural_ref(t: TyV) -> bool {
    t is Array || t is Ref
}

pub proof fn lemma_refs_ok_mono(t: TyV, i: int, n: int, m: int)
    requires
        ty_refs_ok(t, i, n),
        n <= m,
    ensures
        ty_refs_ok(t, i, m),
{
    match t {
        TyV::Tagged { variants, .. } => {
            assert forall|v: int| 0 <= v < variants.len()
                implies ((#[trigger] variants[v]).fields matches Some(fs) ==> fields_below(fs, m)) by {
                if let Some(fs) = variants[v].fields {
                    assert(fields_below(fs, n));
                }
            }
        },
        _ => {},
    }
}

pub proof fn lemma_tys_ok_push(tys: Seq<TyV>, t: TyV)
    requires
        tys_ok(tys),
        ty_refs_ok(t, tys.len() as int, (tys.len() + 1) as int),
    ensures
        tys_ok(tys.push(t)),
{
    let t2 = tys.push(t);
    assert forall|i: int| 0 <= i < t2.len() implies ty_refs_ok(#[trigger] t2[i], i, t2.len() as int) by {
        if i < tys.len() {
            assert(t2[i] == tys[i]);
            lemma_refs_ok_mono(tys[i], i, tys.len() as int, t2.len() as int);
        }
    }
}

pub proof fn lemma_tys_ok_update(tys: Seq<TyV>, idx: int, t: TyV)
    requires
        tys_ok(tys),
        0 <= idx < tys.len(),
        ty_refs_ok(t, idx, tys.len() as int),
    ensures
        tys_ok(tys.update(idx, t)),
{
    let t2 = tys.update(idx, t);
    assert forall|i: int| 0 <= i < t2.len() implies ty_refs_ok(#[trigger] t2[i], i, t2.len() as int) by {
        if i != idx {
            assert(t2[i] == tys[i]);
        }
    }
}

/// The ids a structural key refers to are below `n`.
pub open spec fn key_below(k: StructKey, n: int) -> bool {
    match k {
        StructKey::Empty => true,
        StructKey::Ref(q) => q < n,
        StructKey::Array(q, _) => q < n,
    }
}

/// `c2` has the scopes of `c` and at least its types.
pub open spec fn grows(c: CtxV, c2: CtxV) -> bool {
    &&& c2.envs == c.envs
    &&& c.tys.len() <= c2.tys.len()
    &&& ctx_ok(c) ==> ctx_ok(c2)
}

pub proof fn lemma_scope_lookup_bound(e: Scope, name: Seq<char>, k: int, n: nat)
    requires
        forall|j: int| 0 <= j < e.len() ==> (#[trigger] e[j]).1 < n,
    ensures
        scope_lookup(e, name, k) matches Some(i) ==> i < n,
    decreases k,
{
    if k > 0 && k <= e.len() && e[k - 1].0 != name {
        lemma_scope_lookup_bound(e, name, k - 1, n);
    }
}

pub proof fn lemma_resolve_bound(c: CtxV, name: Seq<char>, k: int)
    requires
        ctx_ok(c),
    ensures
        resolve_in(c.envs, name, k) matches Some(i) ==> i < c.tys.len(),
    decreases k,
{
    if k > 0 && k <= c.envs.len() {
        assert forall|j: int| 0 <= j < c.envs[k - 1].len() implies (#[trigger] c.envs[k - 1][j]).1 < c.tys.len() by {
            assert(c.envs[k - 1][j] == c.envs[k - 1][j]);
        }
        lemma_scope_lookup_bound(c.envs[k - 1], name, c.envs[k - 1].len() as int, c.tys.len());
        lemma_resolve_bound(c, name, k - 1);
    }
}

/// Interning keeps the scopes and only adds types.
pub proof fn lemma_memoize_inner_grows(c: CtxV, k: StructKey)
    ensures
        grows(c, spec_memoize_inner(c, k).0),
        spec_memoize_inner(c, k).1 < spec_memoize_inner(c, k).0.tys.len() || memo_find(c.memo, k, 0) is Some,
{
    let c2 = spec_memoize_inner(c, k).0;
    if ctx_ok(c) {
        assert forall|a: int, j: int| 0 <= a < c2.envs.len() && 0 <= j < c2.envs[a].len()
            implies (#[trigger] c2.envs[a][j]).1 < c2.tys.len() by {
            assert(c.envs[a][j].1 < c.tys.len());
        }
    }
}

/// Turning a written type into an id keeps the scopes and only adds types.
pub proof fn lemma_memoize_ty_grows(c: CtxV, t: Spanned<TydentV>)
    ensures
        spec_memoize_ty(c, t) matches Ok((c2, _)) ==> grows(c, c2),
    decreases t,
{
    match t.value {
        TydentV::Empty => lemma_memoize_inner_grows(c, StructKey::Empty),
        TydentV::Ref(p) => {
            lemma_memoize_ty_grows(c, *p);
            if let Ok((c2, q)) = spec_memoize_ty(c, *p) {
                lemma_memoize_inner_grows(c2, StructKey::Ref(q));
            }
        },
        TydentV::Array(e, n) => {
            lemma_memoize_ty_grows(c, *e);
            if let Ok((c2, q)) = spec_memoize_ty(c, *e) {
                lemma_memoize_inner_grows(c2, StructKey::Array(q, n));
            }
        },
        TydentV::Name(_) => {},
    }
}

/// The name of a field or argument: the written one, or, for one written
/// `_`, a made-up name (marked blank): `base` followed by its position, at
/// the span of its type.
pub open spec fn spec_ident_var(name: Option<IdentV>, base: Seq<char>, idx: int, backup: Span) -> IdentV {
    match name {
        Some(n) => n,
        None => IdentV { was_blank: true, val: sp_str(base + decimal(idx as nat), backup) },
    }
}

/// The name of a field or argument: `val`, or `basename` followed by `idx`
/// at the span of `backup_span`.
pub fn ident_var<T>(val: Option<Ident>, basename: &str, idx: usize, backup_span: &Spanned<T>) -> (r: Ident)
    ensures
        r@ == spec_ident_var(match val { Some(v) => Some(v@), None => None }, basename@, idx as int,
            span_of(*backup_span)),
{
    match val {
        Some(v) => v,
        None => {
            let mut s = owned(basename);
            push_decimal(&mut s, idx as u64);
            let span = Spanned::span(backup_span);
            Ident { was_blank: true, val: Spanned::new(s, span) }
        },
    }
}

fn copy_name(n: &Option<Ident>) -> (r: Option<Ident>)
    ensures
        match r { Some(v) => Some(v@), None => None::<IdentV> } == match *n { Some(v) => Some(v@), None => None },
{
    match n {
        Some(v) => Some(v.copy()),
        None => None,
    }
}

/// The fields for the declared fields `vs[i..]`, after the fields `acc`.
pub open spec fn spec_fields_from(c: CtxV, vs: Seq<TypedVarV>, i: int, acc: Seq<FieldTyV>)
    -> Result<(CtxV, Seq<FieldTyV>), TypeErrV>
    decreases vs.len() - i,
{
    if i < 0 || i >= vs.len() {
        Ok((c, acc))
    } else {
        match spec_memoize_ty(c, vs[i].ty) {
            Err(e) => Err(e),
            Ok((c2, t)) => spec_fields_from(c2, vs, i + 1, acc.push(FieldTyV {
                idx: i as usize,
                ident: spec_ident_var(vs[i].name, "field"@, i, span_of(vs[i].ty)),
                ty: t,
            })),
        }
    }
}

/// The fields for the declared fields `vs`.
pub open spec fn spec_fields(c: CtxV, vs: Seq<TypedVarV>) -> Result<(CtxV, Seq<FieldTyV>), TypeErrV> {
    spec_fields_from(c, vs, 0, Seq::empty())
}

pub proof fn lemma_fields_grows(c: CtxV, vs: Seq<TypedVarV>, i: int, acc: Seq<FieldTyV>)
    ensures
        spec_fields_from(c, vs, i, acc) matches Ok((c2, _)) ==> grows(c, c2),
    decreases vs.len() - i,
{
    if 0 <= i < vs.len() {
        lemma_memoize_ty_grows(c, vs[i].ty);
        if let Ok((c2, t)) = spec_memoize_ty(c, vs[i].ty) {
            lemma_fields_grows(c2, vs, i + 1, acc.push(FieldTyV {
                idx: i as usize,
                ident: spec_ident_var(vs[i].name, "field"@, i, span_of(vs[i].ty)),
                ty: t,
            }));
        }
    }
}

impl TyCtx {
    /// The fields for the declared fields `vs`.
    fn memoize_fields(&mut self, vs: &Vec<TypedVar>) -> (r: Result<Vec<FieldTy>, KdlScriptTypeError>)
        requires
            ctx_ok(old(self)@),
            store_ok(old(self)@),
        ensures
            final(self)@.envs == old(self)@.envs,
            r is Ok ==> grows(old(self)@, final(self)@),
            r is Ok ==> store_ok(final(self)@),
            r matches Ok(fs) ==> fields_below(fields_view(fs@), final(self)@.tys.len() as int),
            match r {
                Ok(fs) => spec_fields(old(self)@, vars_view(vs@)) == Ok::<(CtxV, Seq<FieldTyV>), TypeErrV>((final(self)@, fields_view(fs@))),
                Err(e) => spec_fields(old(self)@, vars_view(vs@)) == Err::<(CtxV, Seq<FieldTyV>), TypeErrV>(e@),
            },
    {
        let ghost c0 = self@;
        let ghost vv = vars_view(vs@);
        proof { lemma_fields_grows(c0, vv, 0, Seq::empty()); }
        let mut fs: Vec<FieldTy> = Vec::new();
        let mut i: usize = 0;
        assert(fields_view(fs@) =~= Seq::<FieldTyV>::empty());
        while i < vs.len()
            invariant
                i <= vs@.len(),
                vv == vars_view(vs@),
                c0 == old(self)@,
                self@.envs == c0.envs,
                ctx_ok(self@),
                store_ok(self@),
                c0.tys.len() <= self@.tys.len(),
                fields_below(fields_view(fs@), self@.tys.len() as int),
                spec_fields(c0, vv) matches Ok((c2, _)) ==> grows(c0, c2),
                spec_fields(c0, vv) == spec_fields_from(self@, vv, i as int, fields_view(fs@)),
            decreases vs@.len() - i,
        {
            assert(vv[i as int] == vs@[i as int]@);
            let name = ident_var(copy_name(&vs[i].name), "field", i, &vs[i].ty);
            let t = self.memoize_ty(&vs[i].ty)?;
            let ghost prev = fs@;
            let f = FieldTy { idx: i, ident: name, ty: t };
            fs.push(f);
            assert(fields_view(fs@) =~= fields_view(prev).push(f@));
            assert(fields_below(fields_view(fs@), self@.tys.len() as int)) by {
                assert forall|j: int| 0 <= j < fields_view(fs@).len()
                    implies (#[trigger] fields_view(fs@)[j]).ty < self@.tys.len() by {
                    if j < prev.len() {
                        assert(fields_view(fs@)[j] == fields_view(prev)[j]);
                    }
                }
            }
            i = i + 1;
        }
        Ok(fs)
    }
}

/// Whether every field's name was written `_`.
fn fields_all_blank(fs: &Vec<FieldTy>) -> (r: bool)
    ensures
        r == all_blank(fields_view(fs@)),
{
    let mut i: usize = 0;
    while i < fs.len()
        invariant
            i <= fs@.len(),
            forall|j: int| 0 <= j < i ==> (#[trigger] fs@[j]).ident.was_blank,
        decreases fs@.len() - i,
    {
        if !fs[i].ident.was_blank {
            assert(!fields_view(fs@)[i as int].ident.was_blank);
            return false;
        }
        i = i + 1;
    }
    assert forall|j: int| 0 <= j < fields_view(fs@).len() implies (#[trigger] fields_view(fs@)[j]).ident.was_blank by {
        assert(fields_view(fs@)[j] == fs@[j]@);
    }
    true
}


/// The variant of a tagged union.
pub open spec fn spec_variant(c: CtxV, v: TaggedVariantV) -> Result<(CtxV, TaggedVariantTyV), TypeErrV> {
    match v.fields {
        None => Ok((c, TaggedVariantTyV { name: v.name, fields: None, all_fields_were_blank: true })),
        Some(vs) => match spec_fields(c, vs) {
            Err(e) => Err(e),
            Ok((c2, fs)) => Ok((c2, TaggedVariantTyV { name: v.name, fields: Some(fs), all_fields_were_blank: all_blank(fs) })),
        },
    }
}

/// The variants for the declared variants `vs[i..]`, after the variants `acc`.
pub open spec fn spec_variants_from(c: CtxV, vs: Seq<TaggedVariantV>, i: int, acc: Seq<TaggedVariantTyV>)
    -> Result<(CtxV, Seq<TaggedVariantTyV>), TypeErrV>
    decreases vs.len() - i,
{
    if i < 0 || i >= vs.len() {
        Ok((c, acc))
    } else {
        match spec_variant(c, vs[i]) {
            Err(e) => Err(e),
            Ok((c2, v)) => spec_variants_from(c2, vs, i + 1, acc.push(v)),
        }
    }
}

/// Declares `name` in the innermost scope as a fresh type, to be completed.
pub open spec fn spec_push_incomplete(c: CtxV, name: Seq<char>) -> (CtxV, usize) {
    let last = c.envs.len() - 1;
    (
        CtxV {
            tys: c.tys.push(TyV::Empty),
            memo: c.memo,
            envs: c.envs.update(last, c.envs[last].push((name, c.tys.len() as usize))),
        },
        c.tys.len() as usize,
    )
}

/// The type of a declaration, with the types it mentions turned into ids.
pub open spec fn spec_nominal_parts(c: CtxV, d: TyDeclV) -> Result<(CtxV, TyV), TypeErrV>
    decreases d, 1int,
{
    match d {
        TyDeclV::Struct(s) => match spec_fields(c, s.fields) {
            Err(e) => Err(e),
            Ok((c2, fs)) => Ok((c2, TyV::Struct { name: s.name, fields: fs, attrs: s.attrs, all_fields_were_blank: all_blank(fs) })),
        },
        TyDeclV::Union(u) => match spec_fields(c, u.fields) {
            Err(e) => Err(e),
            Ok((c2, fs)) => Ok((c2, TyV::Union { name: u.name, fields: fs, attrs: u.attrs })),
        },
        TyDeclV::Enum(e) => Ok((c, TyV::Enum {
            name: e.name,
            variants: e.variants.map_values(|v: EnumVariantV| v.name),
            attrs: e.attrs,
        })),
        TyDeclV::Tagged(t) => match spec_variants_from(c, t.variants, 0, Seq::empty()) {
            Err(e) => Err(e),
            Ok((c2, vs)) => Ok((c2, TyV::Tagged { name: t.name, variants: vs, attrs: t.attrs })),
        },
        TyDeclV::Alias(a) => match spec_memoize_ty(c, a.alias) {
            Err(e) => Err(e),
            Ok((c2, target)) => Ok((c2, TyV::Alias { name: a.name, real: target, attrs: a.attrs })),
        },
        TyDeclV::Pun(p) => match spec_pun_blocks_from(c, p.name.text(), p.blocks, 0, Seq::empty()) {
            Err(e) => Err(e),
            Ok((c2, bs)) => Ok((c2, TyV::Pun { name: p.name, blocks: bs, attrs: p.attrs })),
        },
    }
}

/// Gives the type declared as `name` its structure, from `d`.
pub open spec fn spec_complete(c: CtxV, name: Seq<char>, d: TyDeclV) -> Result<CtxV, TypeErrV>
    decreases d, 2int,
{
    match spec_resolve(c.envs, name) {
        None => Ok(c),
        Some(idx) => match spec_nominal_parts(c, d) {
            Err(e) => Err(e),
            Ok((c2, t)) => Ok(CtxV { tys: c2.tys.update(idx as int, t), memo: c2.memo, envs: c2.envs }),
        },
    }
}

/// The blocks of the pun `name` for its declared blocks `bs[i..]`, after the
/// blocks `acc`: each block's type is declared as `name` in a scope of its own.
pub open spec fn spec_pun_blocks_from(c: CtxV, name: Seq<char>, bs: Seq<PunBlockV>, i: int, acc: Seq<PunBlockTyV>)
    -> Result<(CtxV, Seq<PunBlockTyV>), TypeErrV>
    decreases bs, bs.len() - i,
{
    if i < 0 || i >= bs.len() {
        Ok((c, acc))
    } else {
        let scoped = CtxV { tys: c.tys, memo: c.memo, envs: c.envs.push(Seq::empty()) };
        let (c2, target) = spec_push_incomplete(scoped, name);
        match spec_complete(c2, name, bs[i].decl) {
            Err(e) => Err(e),
            Ok(c3) => spec_pun_blocks_from(
                CtxV { tys: c3.tys, memo: c3.memo, envs: c3.envs.drop_last() },
                name,
                bs,
                i + 1,
                acc.push(PunBlockTyV { selector: bs[i].selector, real: target }),
            ),
        }
    }
}


pub proof fn lemma_variants_grows(c: CtxV, vs: Seq<TaggedVariantV>, i: int, acc: Seq<TaggedVariantTyV>)
    ensures
        spec_variants_from(c, vs, i, acc) matches Ok((c2, _)) ==> grows(c, c2),
    decreases vs.len() - i,
{
    if 0 <= i < vs.len() {
        if let Some(fs) = vs[i].fields {
            lemma_fields_grows(c, fs, 0, Seq::empty());
        }
        if let Ok((c2, v)) = spec_variant(c, vs[i]) {
            lemma_variants_grows(c2, vs, i + 1, acc.push(v));
        }
    }
}

/// The abstract forms of a list of tagged variants.
pub open spec fn variants_view(v: Seq<TaggedVariantTy>) -> Seq<TaggedVariantTyV> {
    v.map_values(|x: TaggedVariantTy| x@)
}

/// The abstract forms of a list of pun blocks.
pub open spec fn pun_blocks_view(v: Seq<PunBlockTy>) -> Seq<PunBlockTyV> {
    v.map_values(|x: PunBlockTy| x@)
}

/// Every field of every variant has a type below `n`.
pub open spec fn variants_below(vs: Seq<TaggedVariantTyV>, n: int) -> bool {
    forall|j: int| 0 <= j < vs.len() ==> ((#[trigger] vs[j]).fields matches Some(fs) ==> fields_below(fs, n))
}

/// Every pun block's type is below `n`.
pub open spec fn reals_below(bs: Seq<PunBlockTyV>, n: int) -> bool {
    forall|j: int| 0 <= j < bs.len() ==> (#[trigger] bs[j]).real < n
}

/// The variants of a c-style enum.
fn enum_variant_tys(vs: &Vec<EnumVariant>) -> (r: Vec<EnumVariantTy>)
    ensures
        r@.map_values(|v: EnumVariantTy| v.name@)
            == vs@.map_values(|v: EnumVariant| v@).map_values(|v: EnumVariantV| v.name),
{
    let mut r: Vec<EnumVariantTy> = Vec::new();
    let mut i: usize = 0;
    while i < vs.len()
        invariant
            i <= vs@.len(),
            r@.len() == i,
            forall|j: int| 0 <= j < i ==> (#[trigger] r@[j]).name@ == vs@[j].name@,
        decreases vs@.len() - i,
    {
        r.push(EnumVariantTy { name: vs[i].name.copy() });
        i = i + 1;
    }
    assert(r@.map_values(|v: EnumVariantTy| v.name@)
        =~= vs@.map_values(|v: EnumVariant| v@).map_values(|v: EnumVariantV| v.name));
    r
}

impl TyCtx {
    /// The variant of a tagged union.
    fn memoize_variant(&mut self, v: &TaggedVariant) -> (r: Result<TaggedVariantTy, KdlScriptTypeError>)
        requires
            ctx_ok(old(self)@),
            store_ok(old(self)@),
        ensures
            r is Ok ==> grows(old(self)@, final(self)@),
            r is Ok ==> store_ok(final(self)@),
            r matches Ok(x) ==> (x@.fields matches Some(fs) ==> fields_below(fs, final(self)@.tys.len() as int)),
            match r {
                Ok(x) => spec_variant(old(self)@, v@) == Ok::<(CtxV, TaggedVariantTyV), TypeErrV>((final(self)@, x@)),
                Err(e) => spec_variant(old(self)@, v@) == Err::<(CtxV, TaggedVariantTyV), TypeErrV>(e@),
            },
    {
        match &v.fields {
            None => Ok(TaggedVariantTy { name: v.name.copy(), fields: None, all_fields_were_blank: true }),
            Some(fs) => {
                let f = self.memoize_fields(fs)?;
                let blank = fields_all_blank(&f);
                Ok(TaggedVariantTy { name: v.name.copy(), fields: Some(f), all_fields_were_blank: blank })
            },
        }
    }

    /// The variants of a tagged union.
    fn memoize_variants(&mut self, vs: &Vec<TaggedVariant>) -> (r: Result<Vec<TaggedVariantTy>, KdlScriptTypeError>)
        requires
            ctx_ok(old(self)@),
            store_ok(old(self)@),
        ensures
            r is Ok ==> grows(old(self)@, final(self)@),
            r is Ok ==> store_ok(final(self)@),
            r matches Ok(x) ==> variants_below(variants_view(x@), final(self)@.tys.len() as int),
            match r {
                Ok(x) => spec_variants_from(old(self)@, vs@.map_values(|v: TaggedVariant| v@), 0, Seq::empty())
                    == Ok::<(CtxV, Seq<TaggedVariantTyV>), TypeErrV>((final(self)@, variants_view(x@))),
                Err(e) => spec_variants_from(old(self)@, vs@.map_values(|v: TaggedVariant| v@), 0, Seq::empty())
                    == Err::<(CtxV, Seq<TaggedVariantTyV>), TypeErrV>(e@),
            },
    {
        let ghost c0 = self@;
        let ghost vv = vs@.map_values(|v: TaggedVariant| v@);
        proof { lemma_variants_grows(c0, vv, 0, Seq::empty()); }
        let mut r: Vec<TaggedVariantTy> = Vec::new();
        let mut i: usize = 0;
        assert(variants_view(r@) =~= Seq::<TaggedVariantTyV>::empty());
        while i < vs.len()
            invariant
                i <= vs@.len(),
                vv == vs@.map_values(|v: TaggedVariant| v@),
                c0 == old(self)@,
                ctx_ok(self@),
                store_ok(self@),
                variants_below(variants_view(r@), self@.tys.len() as int),
                spec_variants_from(c0, vv, 0, Seq::empty()) matches Ok((c2, _)) ==> grows(c0, c2),
                spec_variants_from(c0, vv, 0, Seq::empty()) == spec_variants_from(self@, vv, i as int, variants_view(r@)),
            decreases vs@.len() - i,
        {
            assert(vv[i as int] == vs@[i as int]@);
            let v = self.memoize_variant(&vs[i])?;
            let ghost prev = r@;
            let ghost vw = v@;
            r.push(v);
            assert(variants_view(r@) =~= variants_view(prev).push(vw));
            proof {
                let n = self@.tys.len() as int;
                assert forall|j: int| 0 <= j < variants_view(r@).len()
                    implies ((#[trigger] variants_view(r@)[j]).fields matches Some(fs) ==> fields_below(fs, n)) by {
                    if j < prev.len() {
                        assert(variants_view(r@)[j] == variants_view(prev)[j]);
                        if let Some(fs) = variants_view(prev)[j].fields {
                            assert(fields_below(fs, n));
                        }
                    }
                }
            }
            i = i + 1;
        }
        Ok(r)
    }

    /// Declares `name` in the innermost scope as a fresh type, to be completed
    /// by [`TyCtx::complete_nominal_decl`].
    fn push_nominal_decl_incomplete(&mut self, name: String) -> (r: usize)
        requires
            old(self)@.envs.len() > 0,
        ensures
            (final(self)@, r) == spec_push_incomplete(old(self)@, name@),
            ctx_ok(old(self)@) ==> ctx_ok(final(self)@),
            store_ok(old(self)@) ==> store_ok(final(self)@),
    {
        let idx = self.tys.len();
        let ghost c0 = self@;
        let ghost old_tys = self.tys@;
        let ghost old_envs = self.envs@;
        self.tys.push(Ty::Empty);
        let mut env = self.envs.pop().unwrap();
        let ghost old_env = env@;
        env.push((name, idx));
        self.envs.push(env);
        proof {
            let last = c0.envs.len() - 1;
            assert(self.tys@.map_values(|t: Ty| t@) =~= old_tys.map_values(|t: Ty| t@).push(TyV::Empty));
            assert(old_envs[last]@ == old_env);
            assert(scope_view(env@) =~= scope_view(old_env).push((name@, idx)));
            assert(self.envs@.map_values(|e: Vec<(String, usize)>| scope_view(e@))
                =~= c0.envs.update(last, c0.envs[last].push((name@, idx))));
            if ctx_ok(c0) {
                assert forall|k: int, j: int| 0 <= k < self@.envs.len() && 0 <= j < self@.envs[k].len()
                    implies (#[trigger] self@.envs[k][j]).1 < self@.tys.len() by {
                    if k != last || j < c0.envs[last].len() {
                        assert(self@.envs[k][j] == c0.envs[k][j]);
                    }
                }
            }
            if store_ok(c0) {
                lemma_tys_ok_push(c0.tys, TyV::Empty);
                assert(self@.memo == c0.memo);
                assert forall|p: int| 0 <= p < self@.memo.len() implies (#[trigger] self@.memo[p]).1 < self@.tys.len() by {
                    assert(c0.memo[p].1 < c0.tys.len());
                }
            }
        }
        idx
    }

    /// Gives the type declared as `name` its structure, from `d`.
    fn complete_nominal_decl(&mut self, name: &str, d: &TyDecl) -> (r: Result<(), KdlScriptTypeError>)
        requires
            ctx_ok(old(self)@),
            store_ok(old(self)@),
            spec_resolve(old(self)@.envs, name@) is Some,
        ensures
            r is Ok ==> grows(old(self)@, final(self)@),
            r is Ok ==> store_ok(final(self)@),
            match r {
                Ok(_) => spec_complete(old(self)@, name@, d@) == Ok::<CtxV, TypeErrV>(final(self)@),
                Err(e) => spec_complete(old(self)@, name@, d@) == Err::<CtxV, TypeErrV>(e@),
            },
        decreases d, 2int,
    {
        let idx = self.resolve_nominal_ty(name).unwrap();
        proof { lemma_resolve_bound(self@, name@, self@.envs.len() as int); }
        let t = self.memoize_nominal_parts(d)?;
        let ghost c1 = self@;
        let ghost old_tys = self.tys@;
        let ghost tv = t@;
        self.tys.set(idx, t);
        proof {
            assert(self.tys@.map_values(|t: Ty| t@) =~= old_tys.map_values(|t: Ty| t@).update(idx as int, tv));
            assert(ty_refs_ok(tv, idx as int, c1.tys.len() as int));
            lemma_tys_ok_update(c1.tys, idx as int, tv);
            assert(self@.envs == c1.envs);
            assert forall|k: int, j: int| 0 <= k < self@.envs.len() && 0 <= j < self@.envs[k].len()
                implies (#[trigger] self@.envs[k][j]).1 < self@.tys.len() by {
                assert(self@.envs[k][j] == c1.envs[k][j]);
            }
        }
        Ok(())
    }

    /// The type of a declaration, with the types it mentions turned into ids.
    fn memoize_nominal_parts(&mut self, d: &TyDecl) -> (r: Result<Ty, KdlScriptTypeError>)
        requires
            ctx_ok(old(self)@),
            store_ok(old(self)@),
        ensures
            r is Ok ==> grows(old(self)@, final(self)@),
            r is Ok ==> store_ok(final(self)@),
            r matches Ok(t) ==> !is_structural_ref(t@) && ty_refs_ok(t@, 0, final(self)@.tys.len() as int),
            match r {
                Ok(t) => spec_nominal_parts(old(self)@, d@) == Ok::<(CtxV, TyV), TypeErrV>((final(self)@, t@)),
                Err(e) => spec_nominal_parts(old(self)@, d@) == Err::<(CtxV, TyV), TypeErrV>(e@),
            },
        decreases d, 1int,
    {
        match d {
            TyDecl::Struct(sd) => {
                let fields = self.memoize_fields(&sd.fields)?;
                let blank = fields_all_blank(&fields);
                Ok(Ty::Struct(StructTy { name: sd.name.copy(), fields, attrs: copy_attrs(&sd.attrs), all_fields_were_blank: blank }))
            },
            TyDecl::Union(ud) => {
                let fields = self.memoize_fields(&ud.fields)?;
                Ok(Ty::Union(UnionTy { name: ud.name.copy(), fields, attrs: copy_attrs(&ud.attrs) }))
            },
            TyDecl::Enum(ed) => {
                let variants = enum_variant_tys(&ed.variants);
                Ok(Ty::Enum(EnumTy { name: ed.name.copy(), variants, attrs: copy_attrs(&ed.attrs) }))
            },
            TyDecl::Tagged(td) => {
                let variants = self.memoize_variants(&td.variants)?;
                Ok(Ty::Tagged(TaggedTy { name: td.name.copy(), variants, attrs: copy_attrs(&td.attrs) }))
            },
            TyDecl::Alias(ad) => {
                let target = self.memoize_ty(&ad.alias)?;
                Ok(Ty::Alias(AliasTy { name: ad.name.copy(), real: target, attrs: copy_attrs(&ad.attrs) }))
            },
            TyDecl::Pun(pd) => {
                let acc: Vec<PunBlockTy> = Vec::new();
                assert(pun_blocks_view(acc@) =~= Seq::<PunBlockTyV>::empty());
                assert(reals_below(pun_blocks_view(acc@), self@.tys.len() as int));
                let blocks = self.pun_blocks(&pd.name, &pd.blocks, 0, acc)?;
                Ok(Ty::Pun(PunTy { name: pd.name.copy(), blocks, attrs: copy_attrs(&pd.attrs) }))
            },
        }
    }

    /// The blocks of the pun `name` for its declared blocks `bs[i..]`, after `acc`.
    fn pun_blocks(&mut self, name: &Ident, bs: &Vec<PunBlock>, i: usize, acc: Vec<PunBlockTy>)
        -> (r: Result<Vec<PunBlockTy>, KdlScriptTypeError>)
        requires
            ctx_ok(old(self)@),
            store_ok(old(self)@),
            i <= bs@.len(),
            reals_below(pun_blocks_view(acc@), old(self)@.tys.len() as int),
        ensures
            r is Ok ==> grows(old(self)@, final(self)@),
            r is Ok ==> store_ok(final(self)@),
            r matches Ok(v) ==> reals_below(pun_blocks_view(v@), final(self)@.tys.len() as int),
            match r {
                Ok(v) => spec_pun_blocks_from(old(self)@, name@.text(), blocks_view_from(bs@, 0), i as int, pun_blocks_view(acc@))
                    == Ok::<(CtxV, Seq<PunBlockTyV>), TypeErrV>((final(self)@, pun_blocks_view(v@))),
                Err(e) => spec_pun_blocks_from(old(self)@, name@.text(), blocks_view_from(bs@, 0), i as int, pun_blocks_view(acc@))
                    == Err::<(CtxV, Seq<PunBlockTyV>), TypeErrV>(e@),
            },
        decreases bs, bs@.len() - i,
    {
        proof { lemma_blocks_view0(bs@); }
        if i >= bs.len() {
            return Ok(acc);
        }
        proof { assert(decreases_to!(bs@ => bs@[i as int])); }
        let b = &bs[i];
        assert(blocks_view_from(bs@, 0)[i as int] == b@);
        let ghost c0 = self@;
        let ghost old_envs = self.envs@;
        let fresh: Vec<(String, usize)> = Vec::new();
        assert(scope_view(fresh@) =~= Seq::<(Seq<char>, usize)>::empty());
        self.envs.push(fresh);
        proof {
            assert(self@.envs =~= c0.envs.push(Seq::empty()));
            assert(self@.tys == c0.tys && self@.memo == c0.memo);
            assert forall|k: int, j: int| 0 <= k < self@.envs.len() && 0 <= j < self@.envs[k].len()
                implies (#[trigger] self@.envs[k][j]).1 < self@.tys.len() by {
                assert(self@.envs[k][j] == c0.envs[k][j]);
            }
        }
        let target = self.push_nominal_decl_incomplete(name.val.value.clone());
        let ghost c2 = self@;
        assert(scope_lookup(c2.envs[c2.envs.len() - 1], name@.text(), 1) == Some(target));
        self.complete_nominal_decl(name.val.value.as_str(), &b.decl)?;
        let ghost c3 = self@;
        let ghost envs3 = self.envs@;
        let _ = self.envs.pop();
        proof {
            assert(self.envs@ =~= envs3.drop_last());
            assert(self@.envs =~= c3.envs.drop_last());
            assert(c3.envs == c2.envs);
            assert(self@.envs =~= c0.envs);
        }
        let mut acc = acc;
        let ghost prev = acc@;
        let blk = PunBlockTy { selector: b.selector.copy(), real: target };
        let ghost bv = blk@;
        acc.push(blk);
        assert(pun_blocks_view(acc@) =~= pun_blocks_view(prev).push(bv));
        proof {
            let n = self@.tys.len() as int;
            assert forall|j: int| 0 <= j < pun_blocks_view(acc@).len() implies (#[trigger] pun_blocks_view(acc@)[j]).real < n by {
                if j < prev.len() {
                    assert(pun_blocks_view(acc@)[j] == pun_blocks_view(prev)[j]);
                }
            }
        }
        self.pun_blocks(name, bs, i + 1, acc)
    }
}


/// A function argument (input or output).
#[derive(Debug)]
pub struct Arg {
    pub name: Ident,
    pub ty: usize,
}

/// The abstract form of an [`Arg`].
pub struct ArgV {
    pub name: IdentV,
    pub ty: usize,
}

impl View for Arg {
    type V = ArgV;

    open spec fn view(&self) -> ArgV {
        ArgV { name: self.name@, ty: self.ty }
    }
}

/// The abstract forms of a list of arguments.
pub open spec fn args_view(v: Seq<Arg>) -> Seq<ArgV> {
    v.map_values(|a: Arg| a@)
}

/// Every argument's type is below `n`.
pub open spec fn args_below(args: Seq<ArgV>, n: int) -> bool {
    forall|j: int| 0 <= j < args.len() ==> (#[trigger] args[j]).ty < n
}

/// Every argument of the function has a type below `n`.
pub open spec fn func_below(f: FuncV, n: int) -> bool {
    args_below(f.inputs, n) && args_below(f.outputs, n)
}

/// A function signature, with its types turned into ids.
#[derive(Debug)]
pub struct Func {
    pub name: Ident,
    pub inputs: Vec<Arg>,
    /// Out-params appear here as references.
    pub outputs: Vec<Arg>,
    pub attrs: Vec<Attr>,
}

/// The abstract form of a [`Func`].
pub struct FuncV {
    pub name: IdentV,
    pub inputs: Seq<ArgV>,
    pub outputs: Seq<ArgV>,
    pub attrs: Seq<AttrV>,
}

impl View for Func {
    type V = FuncV;

    open spec fn view(&self) -> FuncV {
        FuncV { name: self.name@, inputs: args_view(self.inputs@), outputs: args_view(self.outputs@), attrs: attrs_view(self.attrs@) }
    }
}

/// The abstract forms of a list of functions.
pub open spec fn funcs_view(v: Seq<Func>) -> Seq<FuncV> {
    v.map_values(|f: Func| f@)
}

/// The arguments for the declared variables `vs[i..]`, named `base` and their
/// position when unnamed, after the arguments `acc`.
pub open spec fn spec_args_from(c: CtxV, vs: Seq<TypedVarV>, base: Seq<char>, i: int, acc: Seq<ArgV>)
    -> Result<(CtxV, Seq<ArgV>), TypeErrV>
    decreases vs.len() - i,
{
    if i < 0 || i >= vs.len() {
        Ok((c, acc))
    } else {
        match spec_memoize_ty(c, vs[i].ty) {
            Err(e) => Err(e),
            Ok((c2, t)) => spec_args_from(c2, vs, base, i + 1, acc.push(ArgV {
                name: spec_ident_var(vs[i].name, base, i, span_of(vs[i].ty)),
                ty: t,
            })),
        }
    }
}

/// The typed form of a function declaration.
pub open spec fn spec_func(c: CtxV, f: FuncDeclV) -> Result<(CtxV, FuncV), TypeErrV> {
    match spec_args_from(c, f.inputs, "arg"@, 0, Seq::empty()) {
        Err(e) => Err(e),
        Ok((c2, inputs)) => match spec_args_from(c2, f.outputs, "out"@, 0, Seq::empty()) {
            Err(e) => Err(e),
            Ok((c3, outputs)) => Ok((c3, FuncV { name: f.name, inputs, outputs, attrs: f.attrs })),
        },
    }
}

/// The typed forms of the function declarations `fs[i..]`, after `acc`.
pub open spec fn spec_funcs_from(c: CtxV, fs: Seq<(Seq<char>, FuncDeclV)>, i: int, acc: Seq<FuncV>)
    -> Result<(CtxV, Seq<FuncV>), TypeErrV>
    decreases fs.len() - i,
{
    if i < 0 || i >= fs.len() {
        Ok((c, acc))
    } else {
        match spec_func(c, fs[i].1) {
            Err(e) => Err(e),
            Ok((c2, f)) => spec_funcs_from(c2, fs, i + 1, acc.push(f)),
        }
    }
}

/// The builtin types, by name, in the order they get their ids.
pub open spec fn builtin_table() -> Seq<(Seq<char>, TyV)> {
    seq![
        ("i8"@, TyV::Primitive(PrimitiveTy::I8)),
        ("i16"@, TyV::Primitive(PrimitiveTy::I16)),
        ("i32"@, TyV::Primitive(PrimitiveTy::I32)),
        ("i64"@, TyV::Primitive(PrimitiveTy::I64)),
        ("i128"@, TyV::Primitive(PrimitiveTy::I128)),
        ("i256"@, TyV::Primitive(PrimitiveTy::I256)),
        ("u8"@, TyV::Primitive(PrimitiveTy::U8)),
        ("u16"@, TyV::Primitive(PrimitiveTy::U16)),
        ("u32"@, TyV::Primitive(PrimitiveTy::U32)),
        ("u64"@, TyV::Primitive(PrimitiveTy::U64)),
        ("u128"@, TyV::Primitive(PrimitiveTy::U128)),
        ("u256"@, TyV::Primitive(PrimitiveTy::U256)),
        ("f16"@, TyV::Primitive(PrimitiveTy::F16)),
        ("f32"@, TyV::Primitive(PrimitiveTy::F32)),
        ("f64"@, TyV::Primitive(PrimitiveTy::F64)),
        ("f128"@, TyV::Primitive(PrimitiveTy::F128)),
        ("bool"@, TyV::Primitive(PrimitiveTy::Bool)),
        ("ptr"@, TyV::Primitive(PrimitiveTy::Ptr)),
        ("()"@, TyV::Empty),
    ]
}

/// Each builtin type name is bound, in the outer scope, to a type that is
/// written back as that very name: `f64` names the 64-bit float, `()` the
/// empty type, and so on.
pub proof fn lemma_builtin_names_resolve_to_themselves()
    ensures
        forall|i: int| 0 <= i < spec_builtins().envs[0].len() ==> {
            let (name, t) = #[trigger] spec_builtins().envs[0][i];
            &&& t < spec_builtins().tys.len()
            &&& spec_format_ty(spec_builtins().tys, t as int) == name
        },
{
    let c = spec_builtins();
    let bt = builtin_table();
    assert forall|i: int| 0 <= i < c.envs[0].len() implies {
        let (name, t) = #[trigger] c.envs[0][i];
        &&& t < c.tys.len()
        &&& spec_format_ty(c.tys, t as int) == name
    } by {
        assert(c.envs[0][i] == (bt[i].0, i as usize));
        assert(c.tys[i] == bt[i].1);
        if i == 0 { } else if i == 1 { } else if i == 2 { } else if i == 3 { } else if i == 4 { } else if i == 5 { }
        else if i == 6 { } else if i == 7 { } else if i == 8 { } else if i == 9 { } else if i == 10 { } else if i == 11 { }
        else if i == 12 { } else if i == 13 { } else if i == 14 { } else if i == 15 { } else if i == 16 { } else if i == 17 { }
        else { }
    }
}

/// The state before any program type: the builtins in the outer scope, and an
/// empty scope for the program's own types.
pub open spec fn spec_builtins() -> CtxV {
    CtxV {
        tys: builtin_table().map_values(|p: (Seq<char>, TyV)| p.1),
        memo: Seq::empty(),
        envs: seq![
            Seq::new(builtin_table().len(), |i: int| (builtin_table()[i].0, i as usize)),
            Seq::empty(),
        ],
    }
}

/// Declares the type names of `tys[i..]` in the innermost scope.
pub open spec fn spec_declare_from(c: CtxV, tys: Seq<(Seq<char>, TyDeclV)>, i: int) -> CtxV
    decreases tys.len() - i,
{
    if i < 0 || i >= tys.len() {
        c
    } else {
        spec_declare_from(spec_push_incomplete(c, tys[i].0).0, tys, i + 1)
    }
}

/// Completes the declarations `tys[i..]`.
pub open spec fn spec_complete_from(c: CtxV, tys: Seq<(Seq<char>, TyDeclV)>, i: int) -> Result<CtxV, TypeErrV>
    decreases tys.len() - i,
{
    if i < 0 || i >= tys.len() {
        Ok(c)
    } else {
        match spec_complete(c, tys[i].0, tys[i].1) {
            Err(e) => Err(e),
            Ok(c2) => spec_complete_from(c2, tys, i + 1),
        }
    }
}

/// The abstract form of a [`TypedProgram`].
pub struct TypedProgramV {
    pub tcx: CtxV,
    pub funcs: Seq<FuncV>,
    pub builtin_funcs_start: usize,
}

/// Checks a parsed program: every type name declared (builtins first, then the
/// program's types in order, all in scope everywhere), every declaration
/// completed in order, then every function's signature in order.
pub open spec fn spec_typeck(p: ParsedProgramV) -> Result<TypedProgramV, TypeErrV> {
    let c1 = spec_declare_from(spec_builtins(), p.tys, 0);
    match spec_complete_from(c1, p.tys, 0) {
        Err(e) => Err(e),
        Ok(c2) => match spec_funcs_from(c2, p.funcs, 0, Seq::empty()) {
            Err(e) => Err(e),
            Ok((c3, fs)) => Ok(TypedProgramV { tcx: c3, funcs: fs, builtin_funcs_start: p.builtin_funcs_start }),
        },
    }
}

pub proof fn lemma_builtins_store_ok()
    ensures
        store_ok(spec_builtins()),
{
    let c = spec_builtins();
    assert forall|i: int| 0 <= i < c.tys.len() implies ty_refs_ok(#[trigger] c.tys[i], i, c.tys.len() as int) by {
        assert(c.tys[i] == builtin_table()[i].1);
        if i == 0 {} else if i == 1 {} else if i == 2 {} else if i == 3 {} else if i == 4 {}
        else if i == 5 {} else if i == 6 {} else if i == 7 {} else if i == 8 {} else if i == 9 {}
        else if i == 10 {} else if i == 11 {} else if i == 12 {} else if i == 13 {} else if i == 14 {}
        else if i == 15 {} else if i == 16 {} else if i == 17 {} else {}
    }
}

/// A program whose type names have been resolved to type ids.
#[derive(Debug)]
pub struct TypedProgram {
    tcx: TyCtx,
    funcs: Vec<Func>,
    builtin_funcs_start: usize,
}

impl View for TypedProgram {
    type V = TypedProgramV;

    closed spec fn view(&self) -> TypedProgramV {
        TypedProgramV { tcx: self.tcx@, funcs: funcs_view(self.funcs@), builtin_funcs_start: self.builtin_funcs_start }
    }
}

/// The program's types refer only to existing types (arrays and references
/// only to types with smaller ids), and its functions' arguments have
/// existing types.
pub open spec fn program_ok(p: TypedProgramV) -> bool {
    &&& tys_ok(p.tcx.tys)
    &&& forall|j: int| 0 <= j < p.funcs.len() ==> func_below(#[trigger] p.funcs[j], p.tcx.tys.len() as int)
}

impl TypedProgram {
    #[verifier::type_invariant]
    spec fn inv(self) -> bool {
        program_ok(self@)
    }
}

pub proof fn lemma_args_grows(c: CtxV, vs: Seq<TypedVarV>, base: Seq<char>, i: int, acc: Seq<ArgV>)
    ensures
        spec_args_from(c, vs, base, i, acc) matches Ok((c2, _)) ==> grows(c, c2),
    decreases vs.len() - i,
{
    if 0 <= i < vs.len() {
        lemma_memoize_ty_grows(c, vs[i].ty);
        if let Ok((c2, t)) = spec_memoize_ty(c, vs[i].ty) {
            lemma_args_grows(c2, vs, base, i + 1, acc.push(ArgV {
                name: spec_ident_var(vs[i].name, base, i, span_of(vs[i].ty)),
                ty: t,
            }));
        }
    }
}

/// A scope with an entry for `name` finds it.
pub proof fn lemma_scope_has(e: Scope, name: Seq<char>, j: int, k: int)
    requires
        0 <= j < k <= e.len(),
        e[j].0 == name,
    ensures
        scope_lookup(e, name, k) is Some,
    decreases k,
{
    if e[k - 1].0 != name {
        lemma_scope_has(e, name, j, k - 1);
    }
}

impl TyCtx {
    /// Adds a builtin type under `name` to the innermost scope.
    fn add_builtin(&mut self, name: &str, t: Ty)
        requires
            old(self)@.envs.len() > 0,
        ensures
            final(self)@ == (CtxV {
                tys: old(self)@.tys.push(t@),
                memo: old(self)@.memo,
                envs: old(self)@.envs.update(old(self)@.envs.len() - 1,
                    old(self)@.envs[old(self)@.envs.len() - 1].push((name@, old(self)@.tys.len() as usize))),
            }),
    {
        let ghost tv = t@;
        let n = self.tys.len();
        assert(old(self)@.tys.len() == n);
        let nm = owned(name);
        let ghost nv = nm@;
        let ghost c0 = self@;
        let idx = self.push_nominal_decl_incomplete(nm);
        assert(idx == spec_push_incomplete(c0, nv).1);
        assert(self@ == spec_push_incomplete(c0, nv).0);
        let ghost c1 = self@;
        let ghost old_tys = self.tys@;
        assert(c1.tys.len() == self.tys@.len());
        assert(c1.tys == old(self)@.tys.push(TyV::Empty));
        assert(idx == old(self)@.tys.len());
        self.tys.set(idx, t);
        assert(self.tys@.map_values(|t: Ty| t@) =~= old_tys.map_values(|t: Ty| t@).update(idx as int, tv));
        assert(self@.tys =~= old(self)@.tys.push(tv));
    }

    /// The checker's state with just the builtin types.
    fn with_builtins() -> (r: TyCtx)
        ensures
            r@ == spec_builtins(),
    {
        let mut t = TyCtx { tys: Vec::new(), ty_map: Vec::new(), envs: Vec::new() };
        let outer: Vec<(String, usize)> = Vec::new();
        assert(scope_view(outer@) =~= Seq::<(Seq<char>, usize)>::empty());
        t.envs.push(outer);
        assert(t@.envs =~= seq![Seq::<(Seq<char>, usize)>::empty()]);
        t.add_builtin("i8", Ty::Primitive(PrimitiveTy::I8));
        t.add_builtin("i16", Ty::Primitive(PrimitiveTy::I16));
        t.add_builtin("i32", Ty::Primitive(PrimitiveTy::I32));
        t.add_builtin("i64", Ty::Primitive(PrimitiveTy::I64));
        t.add_builtin("i128", Ty::Primitive(PrimitiveTy::I128));
        t.add_builtin("i256", Ty::Primitive(PrimitiveTy::I256));
        t.add_builtin("u8", Ty::Primitive(PrimitiveTy::U8));
        t.add_builtin("u16", Ty::Primitive(PrimitiveTy::U16));
        t.add_builtin("u32", Ty::Primitive(PrimitiveTy::U32));
        t.add_builtin("u64", Ty::Primitive(PrimitiveTy::U64));
        t.add_builtin("u128", Ty::Primitive(PrimitiveTy::U128));
        t.add_builtin("u256", Ty::Primitive(PrimitiveTy::U256));
        t.add_builtin("f16", Ty::Primitive(PrimitiveTy::F16));
        t.add_builtin("f32", Ty::Primitive(PrimitiveTy::F32));
        t.add_builtin("f64", Ty::Primitive(PrimitiveTy::F64));
        t.add_builtin("f128", Ty::Primitive(PrimitiveTy::F128));
        t.add_builtin("bool", Ty::Primitive(PrimitiveTy::Bool));
        t.add_builtin("ptr", Ty::Primitive(PrimitiveTy::Ptr));
        t.add_builtin("()", Ty::Empty);
        let inner: Vec<(String, usize)> = Vec::new();
        let ghost c = t@;
        t.envs.push(inner);
        assert(scope_view(inner@) =~= Seq::<(Seq<char>, usize)>::empty());
        assert(t@.envs =~= c.envs.push(Seq::empty()));
        assert(t@.tys =~= spec_builtins().tys);
        assert(t@.envs[0] =~= spec_builtins().envs[0]);
        assert(t@.envs =~= spec_builtins().envs);
        t
    }

    /// The arguments for the declared variables `vs`, named `base` and their
    /// position when unnamed.
    fn memoize_args(&mut self, vs: &Vec<TypedVar>, base: &str) -> (r: Result<Vec<Arg>, KdlScriptTypeError>)
        requires
            ctx_ok(old(self)@),
            store_ok(old(self)@),
        ensures
            r is Ok ==> grows(old(self)@, final(self)@),
            r is Ok ==> store_ok(final(self)@),
            r matches Ok(x) ==> args_below(args_view(x@), final(self)@.tys.len() as int),
            match r {
                Ok(x) => spec_args_from(old(self)@, vars_view(vs@), base@, 0, Seq::empty())
                    == Ok::<(CtxV, Seq<ArgV>), TypeErrV>((final(self)@, args_view(x@))),
                Err(e) => spec_args_from(old(self)@, vars_view(vs@), base@, 0, Seq::empty())
                    == Err::<(CtxV, Seq<ArgV>), TypeErrV>(e@),
            },
    {
        let ghost c0 = self@;
        let ghost vv = vars_view(vs@);
        proof { lemma_args_grows(c0, vv, base@, 0, Seq::empty()); }
        let mut r: Vec<Arg> = Vec::new();
        let mut i: usize = 0;
        assert(args_view(r@) =~= Seq::<ArgV>::empty());
        while i < vs.len()
            invariant
                i <= vs@.len(),
                vv == vars_view(vs@),
                c0 == old(self)@,
                ctx_ok(self@),
                store_ok(self@),
                args_below(args_view(r@), self@.tys.len() as int),
                spec_args_from(c0, vv, base@, 0, Seq::empty()) matches Ok((c2, _)) ==> grows(c0, c2),
                spec_args_from(c0, vv, base@, 0, Seq::empty()) == spec_args_from(self@, vv, base@, i as int, args_view(r@)),
            decreases vs@.len() - i,
        {
            assert(vv[i as int] == vs@[i as int]@);
            let name = ident_var(copy_name(&vs[i].name), base, i, &vs[i].ty);
            let t = self.memoize_ty(&vs[i].ty)?;
            let ghost prev = r@;
            let a = Arg { name, ty: t };
            let ghost av = a@;
            r.push(a);
            assert(args_view(r@) =~= args_view(prev).push(av));
            proof {
                let n = self@.tys.len() as int;
                assert forall|j: int| 0 <= j < args_view(r@).len() implies (#[trigger] args_view(r@)[j]).ty < n by {
                    if j < prev.len() {
                        assert(args_view(r@)[j] == args_view(prev)[j]);
                    }
                }
            }
            i = i + 1;
        }
        Ok(r)
    }

    /// The typed form of a function declaration.
    fn typeck_func(&mut self, f: &FuncDecl) -> (r: Result<Func, KdlScriptTypeError>)
        requires
            ctx_ok(old(self)@),
            store_ok(old(self)@),
        ensures
            r is Ok ==> grows(old(self)@, final(self)@),
            r is Ok ==> store_ok(final(self)@),
            r matches Ok(x) ==> func_below(x@, final(self)@.tys.len() as int),
            match r {
                Ok(x) => spec_func(old(self)@, f@) == Ok::<(CtxV, FuncV), TypeErrV>((final(self)@, x@)),
                Err(e) => spec_func(old(self)@, f@) == Err::<(CtxV, FuncV), TypeErrV>(e@),
            },
    {
        let inputs = self.memoize_args(&f.inputs, "arg")?;
        let ghost n1 = self@.tys.len() as int;
        let outputs = self.memoize_args(&f.outputs, "out")?;
        proof {
            let n = self@.tys.len() as int;
            assert forall|j: int| 0 <= j < args_view(inputs@).len() implies (#[trigger] args_view(inputs@)[j]).ty < n by {
                assert(args_view(inputs@)[j].ty < n1);
            }
        }
        Ok(Func { name: f.name.copy(), inputs, outputs, attrs: copy_attrs(&f.attrs) })
    }
}

/// Checks the types of a parsed program, giving each type it mentions an id.
pub fn typeck(parsed: &ParsedProgram) -> (r: Result<TypedProgram, KdlScriptTypeError>)
    ensures
        match r {
            Ok(p) => spec_typeck(parsed@) == Ok::<TypedProgramV, TypeErrV>(p@),
            Err(e) => spec_typeck(parsed@) == Err::<TypedProgramV, TypeErrV>(e@),
        },
        r matches Ok(p) ==> program_ok(p@),
        r matches Ok(p) ==> p@.funcs.len() == parsed@.funcs.len(),
{
    let mut tcx = TyCtx::with_builtins();
    let ghost c0 = tcx@;
    let ghost tv = ty_entries(parsed.tys);
    let tys = ty_map_iter(&parsed.tys);
    proof {
        assert forall|k: int, j: int| 0 <= k < c0.envs.len() && 0 <= j < c0.envs[k].len()
            implies (#[trigger] c0.envs[k][j]).1 < c0.tys.len() by {}
        lemma_builtins_store_ok();
    }
    let mut i: usize = 0;
    while i < tys.len()
        invariant
            i <= tys@.len(),
            tys@.len() == tv.len(),
            forall|j: int| 0 <= j < tys@.len() ==> ((#[trigger] tys@[j]).0@, tys@[j].1@) == tv[j],
            tv == ty_entries(parsed.tys),
            ctx_ok(tcx@),
            store_ok(tcx@),
            c0.envs.len() == 2,
            tcx@.envs.len() == 2,
            tcx@.envs[0] == c0.envs[0],
            tcx@.envs[1].len() == i,
            forall|j: int| 0 <= j < i ==> (#[trigger] tcx@.envs[1][j]).0 == tv[j].0,
            spec_declare_from(spec_builtins(), tv, 0) == spec_declare_from(tcx@, tv, i as int),
        decreases tys@.len() - i,
    {
        assert(tys@[i as int].0@ == tv[i as int].0);
        let ghost before = tcx@;
        let _ = tcx.push_nominal_decl_incomplete(tys[i].0.clone());
        proof {
            assert forall|j: int| 0 <= j < i + 1 implies (#[trigger] tcx@.envs[1][j]).0 == tv[j].0 by {
                if j < i {
                    assert(tcx@.envs[1][j] == before.envs[1][j]);
                }
            }
        }
        i = i + 1;
    }
    let ghost c1 = tcx@;
    i = 0;
    while i < tys.len()
        invariant
            i <= tys@.len(),
            tys@.len() == tv.len(),
            forall|j: int| 0 <= j < tys@.len() ==> ((#[trigger] tys@[j]).0@, tys@[j].1@) == tv[j],
            tv == ty_entries(parsed.tys),
            ctx_ok(tcx@),
            store_ok(tcx@),
            c1.envs.len() == 2,
            c1.envs[1].len() == tv.len(),
            forall|j: int| 0 <= j < tv.len() ==> (#[trigger] c1.envs[1][j]).0 == tv[j].0,
            tcx@.envs == c1.envs,
            spec_typeck(parsed@) == match spec_complete_from(tcx@, tv, i as int) {
                Err(e) => Err(e),
                Ok(c2) => match spec_funcs_from(c2, func_entries(parsed.funcs), 0, Seq::empty()) {
                    Err(e) => Err(e),
                    Ok((c3, fs)) => Ok(TypedProgramV { tcx: c3, funcs: fs, builtin_funcs_start: parsed.builtin_funcs_start }),
                },
            },
        decreases tys@.len() - i,
    {
        assert(tys@[i as int].0@ == tv[i as int].0);
        assert(tys@[i as int].1@ == tv[i as int].1);
        proof {
            let e = tcx@.envs[1];
            assert(e[i as int].0 == tv[i as int].0);
            lemma_scope_has(e, tv[i as int].0, i as int, e.len() as int);
        }
        tcx.complete_nominal_decl(tys[i].0.as_str(), tys[i].1)?;
        i = i + 1;
    }
    let ghost fv = func_entries(parsed.funcs);
    let fs = func_map_iter(&parsed.funcs);
    let mut funcs: Vec<Func> = Vec::new();
    assert(funcs_view(funcs@) =~= Seq::<FuncV>::empty());
    let mut k: usize = 0;
    while k < fs.len()
        invariant
            k <= fs@.len(),
            fs@.len() == fv.len(),
            forall|j: int| 0 <= j < fs@.len() ==> ((#[trigger] fs@[j]).0@, fs@[j].1@) == fv[j],
            fv == func_entries(parsed.funcs),
            ctx_ok(tcx@),
            store_ok(tcx@),
            forall|j: int| 0 <= j < funcs@.len() ==> func_below(#[trigger] funcs@[j]@, tcx@.tys.len() as int),
            funcs@.len() == k,
            spec_typeck(parsed@) == match spec_funcs_from(tcx@, fv, k as int, funcs_view(funcs@)) {
                Err(e) => Err(e),
                Ok((c3, fs)) => Ok(TypedProgramV { tcx: c3, funcs: fs, builtin_funcs_start: parsed.builtin_funcs_start }),
            },
        decreases fs@.len() - k,
    {
        assert(fs@[k as int].1@ == fv[k as int].1);
        let ghost n0 = tcx@.tys.len() as int;
        let f = tcx.typeck_func(fs[k].1)?;
        let ghost prev = funcs@;
        let ghost fview = f@;
        funcs.push(f);
        assert(funcs_view(funcs@) =~= funcs_view(prev).push(fview));
        proof {
            let n = tcx@.tys.len() as int;
            assert forall|j: int| 0 <= j < funcs@.len() implies func_below(#[trigger] funcs@[j]@, n) by {
                if j < prev.len() {
                    assert(funcs@[j] == prev[j]);
                    let g = prev[j]@;
                    assert(func_below(g, n0));
                    assert forall|a: int| 0 <= a < g.inputs.len() implies (#[trigger] g.inputs[a]).ty < n by {}
                    assert forall|a: int| 0 <= a < g.outputs.len() implies (#[trigger] g.outputs[a]).ty < n by {}
                }
            }
        }
        k = k + 1;
    }
    proof {
        let n = tcx@.tys.len() as int;
        assert forall|j: int| 0 <= j < funcs_view(funcs@).len() implies func_below(#[trigger] funcs_view(funcs@)[j], n) by {
            assert(funcs_view(funcs@)[j] == funcs@[j]@);
        }
    }
    Ok(TypedProgram { tcx, funcs, builtin_funcs_start: parsed.builtin_funcs_start })
}

} // verus!

verus! {

/// `c2` interns at least what `c` interns, at the same positions.
pub open spec fn memo_extends(c: CtxV, c2: CtxV) -> bool {
    &&& c.memo.len() <= c2.memo.len()
    &&& forall|p: int| 0 <= p < c.memo.len() ==> c2.memo[p] == #[trigger] c.memo[p]
}

proof fn lemma_memo_find_extends(m: Seq<(StructKey, usize)>, m2: Seq<(StructKey, usize)>, k: StructKey, i: int)
    requires
        m.len() <= m2.len(),
        forall|p: int| 0 <= p < m.len() ==> m2[p] == #[trigger] m[p],
        memo_find(m, k, i) is Some,
    ensures
        memo_find(m2, k, i) == memo_find(m, k, i),
    decreases m.len() - i,
{
    if 0 <= i < m.len() && m[i].0 != k {
        lemma_memo_find_extends(m, m2, k, i + 1);
    }
}

proof fn lemma_memo_find_range(m: Seq<(StructKey, usize)>, k: StructKey, i: int)
    ensures
        memo_find(m, k, i) matches Some(p) ==> 0 <= i <= p < m.len() && m[p].0 == k,
    decreases m.len() - i,
{
    if 0 <= i < m.len() && m[i].0 != k {
        lemma_memo_find_range(m, k, i + 1);
    }
}

proof fn lemma_memo_find_push(m: Seq<(StructKey, usize)>, x: (StructKey, usize), i: int)
    requires
        0 <= i <= m.len(),
        memo_find(m, x.0, i) is None,
    ensures
        memo_find(m.push(x), x.0, i) == Some(m.len() as int),
    decreases m.len() - i,
{
    if i < m.len() {
        assert(m.push(x)[i] == m[i]);
        lemma_memo_find_push(m, x, i + 1);
    }
}

proof fn lemma_memoize_inner_extends(c: CtxV, k: StructKey)
    ensures
        memo_extends(c, spec_memoize_inner(c, k).0),
        spec_memoize_inner(c, k).0.envs == c.envs,
        c.tys.len() <= spec_memoize_inner(c, k).0.tys.len(),
        memo_find(spec_memoize_inner(c, k).0.memo, k, 0) matches Some(p)
            && spec_memoize_inner(c, k).0.memo[p].1 == spec_memoize_inner(c, k).1,
{
    match memo_find(c.memo, k, 0) {
        Some(p) => {},
        None => {
            lemma_memo_find_push(c.memo, (k, c.tys.len() as usize), 0);
        },
    }
}

proof fn lemma_memoize_ty_extends(c: CtxV, t: Spanned<TydentV>)
    ensures
        spec_memoize_ty(c, t) matches Ok((c2, _)) ==> memo_extends(c, c2) && c2.envs == c.envs
            && c.tys.len() <= c2.tys.len(),
    decreases t,
{
    match t.value {
        TydentV::Empty => lemma_memoize_inner_extends(c, StructKey::Empty),
        TydentV::Ref(p) => {
            lemma_memoize_ty_extends(c, *p);
            if let Ok((c1, q)) = spec_memoize_ty(c, *p) {
                lemma_memoize_inner_extends(c1, StructKey::Ref(q));
            }
        },
        TydentV::Array(e, n) => {
            lemma_memoize_ty_extends(c, *e);
            if let Ok((c1, q)) = spec_memoize_ty(c, *e) {
                lemma_memoize_inner_extends(c1, StructKey::Array(q, n));
            }
        },
        TydentV::Name(_) => {},
    }
}

/// Interning a key that `c` already interns changes nothing, in `c` or in any
/// state that interns at least what `c` does.
proof fn lemma_memoize_inner_stable(c: CtxV, c3: CtxV, k: StructKey, i: usize)
    requires
        spec_memoize_inner(c, k) == (c, i),
        memo_extends(c, c3),
    ensures
        spec_memoize_inner(c3, k) == (c3, i),
{
    match memo_find(c.memo, k, 0) {
        Some(p) => {
            lemma_memo_find_range(c.memo, k, 0);
            lemma_memo_find_extends(c.memo, c3.memo, k, 0);
            assert(c3.memo[p] == c.memo[p]);
        },
        None => {
            assert(spec_memoize_inner(c, k).0.tys.len() == c.tys.len() + 1);
        },
    }
}

/// A written type that turns into an id without changing the state turns
/// into the same id, again without change, in any state with the same scopes
/// that interns at least what the first one does.
proof fn lemma_memoize_ty_stable(c: CtxV, c3: CtxV, t: Spanned<TydentV>, i: usize)
    requires
        spec_memoize_ty(c, t) == Ok::<(CtxV, usize), TypeErrV>((c, i)),
        memo_extends(c, c3),
        c3.envs == c.envs,
    ensures
        spec_memoize_ty(c3, t) == Ok::<(CtxV, usize), TypeErrV>((c3, i)),
    decreases t,
{
    match t.value {
        TydentV::Empty => lemma_memoize_inner_stable(c, c3, StructKey::Empty, i),
        TydentV::Ref(p) => {
            lemma_memoize_ty_extends(c, *p);
            let (c1, q) = spec_memoize_ty(c, *p)->Ok_0;
            lemma_memoize_inner_extends(c1, StructKey::Ref(q));
            if memo_find(c1.memo, StructKey::Ref(q), 0) is None {
                assert(spec_memoize_inner(c1, StructKey::Ref(q)).0.tys.len() == c1.tys.len() + 1);
            }
            assert(c1 == c);
            lemma_memoize_ty_stable(c, c3, *p, q);
            lemma_memoize_inner_stable(c, c3, StructKey::Ref(q), i);
        },
        TydentV::Array(e, n) => {
            lemma_memoize_ty_extends(c, *e);
            let (c1, q) = spec_memoize_ty(c, *e)->Ok_0;
            lemma_memoize_inner_extends(c1, StructKey::Array(q, n));
            if memo_find(c1.memo, StructKey::Array(q, n), 0) is None {
                assert(spec_memoize_inner(c1, StructKey::Array(q, n)).0.tys.len() == c1.tys.len() + 1);
            }
            assert(c1 == c);
            lemma_memoize_ty_stable(c, c3, *e, q);
            lemma_memoize_inner_stable(c, c3, StructKey::Array(q, n), i);
        },
        TydentV::Name(_) => {},
    }
}

/// Structural types are interned: turning a written type into an id a second
/// time gives the same id and changes nothing, and so does doing it in any
/// later state with the same scopes that interns at least as much (so every
/// use of `[u32; 5]` gets the same id).
pub proof fn lemma_memoize_ty_interned(c: CtxV, t: Spanned<TydentV>, c3: CtxV)
    requires
        spec_memoize_ty(c, t) is Ok,
        memo_extends(spec_memoize_ty(c, t)->Ok_0.0, c3),
        c3.envs == c.envs,
    ensures
        spec_memoize_ty(c3, t) == Ok::<(CtxV, usize), TypeErrV>((c3, spec_memoize_ty(c, t)->Ok_0.1)),
    decreases t,
{
    let (c2, i) = spec_memoize_ty(c, t)->Ok_0;
    lemma_memoize_ty_twice(c, t);
    lemma_memoize_ty_extends(c, t);
    lemma_memoize_ty_stable(c2, c3, t, i);
}

/// Turning a written type into an id a second time gives the same id and
/// changes nothing.
pub proof fn lemma_memoize_ty_twice(c: CtxV, t: Spanned<TydentV>)
    requires
        spec_memoize_ty(c, t) is Ok,
    ensures
        spec_memoize_ty(spec_memoize_ty(c, t)->Ok_0.0, t)
            == Ok::<(CtxV, usize), TypeErrV>(spec_memoize_ty(c, t)->Ok_0),
    decreases t,
{
    let (c2, i) = spec_memoize_ty(c, t)->Ok_0;
    match t.value {
        TydentV::Empty => {
            lemma_memoize_inner_extends(c, StructKey::Empty);
        },
        TydentV::Ref(p) => {
            let (c1, q) = spec_memoize_ty(c, *p)->Ok_0;
            lemma_memoize_ty_twice(c, *p);
            lemma_memoize_ty_extends(c, *p);
            lemma_memoize_inner_extends(c1, StructKey::Ref(q));
            lemma_memoize_ty_stable(c1, c2, *p, q);
        },
        TydentV::Array(e, n) => {
            let (c1, q) = spec_memoize_ty(c, *e)->Ok_0;
            lemma_memoize_ty_twice(c, *e);
            lemma_memoize_ty_extends(c, *e);
            lemma_memoize_inner_extends(c1, StructKey::Array(q, n));
            lemma_memoize_ty_stable(c1, c2, *e, q);
        },
        TydentV::Name(_) => {},
    }
}

} // verus!

verus! {

/// The lower-case name of a primitive.
pub open spec fn prim_name(p: PrimitiveTy) -> Seq<char> {
    match p {
        PrimitiveTy::I8 => "i8"@,
        PrimitiveTy::I16 => "i16"@,
        PrimitiveTy::I32 => "i32"@,
        PrimitiveTy::I64 => "i64"@,
        PrimitiveTy::I128 => "i128"@,
        PrimitiveTy::I256 => "i256"@,
        PrimitiveTy::U8 => "u8"@,
        PrimitiveTy::U16 => "u16"@,
        PrimitiveTy::U32 => "u32"@,
        PrimitiveTy::U64 => "u64"@,
        PrimitiveTy::U128 => "u128"@,
        PrimitiveTy::U256 => "u256"@,
        PrimitiveTy::F16 => "f16"@,
        PrimitiveTy::F32 => "f32"@,
        PrimitiveTy::F64 => "f64"@,
        PrimitiveTy::F128 => "f128"@,
        PrimitiveTy::Bool => "bool"@,
        PrimitiveTy::Ptr => "ptr"@,
    }
}

impl PrimitiveTy {
    /// The lower-case name of this primitive.
    pub fn name(&self) -> (r: &'static str)
        ensures
            r@ == prim_name(*self),
    {
        match self {
            PrimitiveTy::I8 => "i8",
            PrimitiveTy::I16 => "i16",
            PrimitiveTy::I32 => "i32",
            PrimitiveTy::I64 => "i64",
            PrimitiveTy::I128 => "i128",
            PrimitiveTy::I256 => "i256",
            PrimitiveTy::U8 => "u8",
            PrimitiveTy::U16 => "u16",
            PrimitiveTy::U32 => "u32",
            PrimitiveTy::U64 => "u64",
            PrimitiveTy::U128 => "u128",
            PrimitiveTy::U256 => "u256",
            PrimitiveTy::F16 => "f16",
            PrimitiveTy::F32 => "f32",
            PrimitiveTy::F64 => "f64",
            PrimitiveTy::F128 => "f128",
            PrimitiveTy::Bool => "bool",
            PrimitiveTy::Ptr => "ptr",
        }
    }
}

/// The text of the type with id `i`: a primitive's name, `()`, a nominal
/// type's name, `[elem; len]` or `&pointee`.
pub open spec fn spec_format_ty(tys: Seq<TyV>, i: int) -> Seq<char>
    decreases i,
{
    if 0 <= i < tys.len() {
        match tys[i] {
            TyV::Primitive(p) => prim_name(p),
            TyV::Empty => "()"@,
            TyV::Struct { name, .. } => name.text(),
            TyV::Enum { name, .. } => name.text(),
            TyV::Tagged { name, .. } => name.text(),
            TyV::Union { name, .. } => name.text(),
            TyV::Alias { name, .. } => name.text(),
            TyV::Pun { name, .. } => name.text(),
            TyV::Array(a) => if a.elem_ty < i {
                "["@ + spec_format_ty(tys, a.elem_ty as int) + "; "@ + decimal(a.len as nat) + "]"@
            } else {
                Seq::empty()
            },
            TyV::Ref(r) => if r.pointee_ty < i {
                "&"@ + spec_format_ty(tys, r.pointee_ty as int)
            } else {
                Seq::empty()
            },
        }
    } else {
        Seq::empty()
    }
}

/// The first block whose selector applies in the language `lang`.
pub open spec fn spec_pick_block(blocks: Seq<PunBlockTyV>, lang: Seq<char>, i: int) -> Option<usize>
    decreases blocks.len() - i,
{
    if i < 0 || i >= blocks.len() {
        None
    } else if spec_matches(blocks[i].selector, lang) {
        Some(blocks[i].real)
    } else {
        spec_pick_block(blocks, lang, i + 1)
    }
}

/// The error for a pun with no block for the language `lang`.
pub open spec fn no_pun_block(name: IdentV, lang: Seq<char>) -> TypeErrV {
    TypeErrV {
        message: "Failed to find applicable pun for this target environment"@,
        span: span_of(name.val),
        help: Some("Add another block that matches PunEnv {\n    lang: "@ + str_debug(lang) + ",\n}"@),
    }
}

impl TypedProgram {
    /// The structure of the type with id `ty`.
    pub fn realize_ty(&self, ty: usize) -> (r: &Ty)
        requires
            ty < self@.tcx.tys.len(),
        ensures
            r@ == self@.tcx.tys[ty as int],
            ty_refs_ok(r@, ty as int, self@.tcx.tys.len() as int),
    {
        proof { use_type_invariant(self); }
        &self.tcx.tys[ty]
    }

    /// The function with id `func`.
    pub fn realize_func(&self, func: usize) -> (r: &Func)
        requires
            func < self@.funcs.len(),
        ensures
            r@ == self@.funcs[func as int],
            func_below(r@, self@.tcx.tys.len() as int),
    {
        proof {
            use_type_invariant(self);
            assert(func_below(self@.funcs[func as int], self@.tcx.tys.len() as int));
        }
        &self.funcs[func]
    }

    /// The ids of the program's own functions (the builtins come after).
    pub fn all_funcs(&self) -> (r: std::ops::Range<usize>)
        ensures
            r.start == 0,
            r.end == self@.builtin_funcs_start,
    {
        0..self.builtin_funcs_start
    }

    /// The number of types.
    pub fn num_tys(&self) -> (r: usize)
        ensures
            r == self@.tcx.tys.len(),
    {
        self.tcx.tys.len()
    }

    /// The number of functions.
    pub fn num_funcs(&self) -> (r: usize)
        ensures
            r == self@.funcs.len(),
    {
        self.funcs.len()
    }

    /// The type that a pun stands for in the environment `env`: the type of
    /// its first block whose selector applies.
    pub fn resolve_pun(&self, pun: &PunTy, env: &PunEnv) -> (r: Result<usize, KdlScriptTypeError>)
        ensures
            match spec_pick_block(pun.blocks@.map_values(|b: PunBlockTy| b@), env.lang@, 0) {
                Some(t) => r == Ok::<usize, KdlScriptTypeError>(t),
                None => r matches Err(e) && e@ == no_pun_block(pun.name@, env.lang@),
            },
    {
        let ghost bv = pun.blocks@.map_values(|b: PunBlockTy| b@);
        let mut i: usize = 0;
        while i < pun.blocks.len()
            invariant
                i <= pun.blocks@.len(),
                bv == pun.blocks@.map_values(|b: PunBlockTy| b@),
                spec_pick_block(bv, env.lang@, 0) == spec_pick_block(bv, env.lang@, i as int),
            decreases pun.blocks@.len() - i,
        {
            assert(bv[i as int] == pun.blocks@[i as int]@);
            if pun.blocks[i].selector.matches(env) {
                return Ok(pun.blocks[i].real);
            }
            i = i + 1;
        }
        let mut help = owned("Add another block that matches PunEnv {\n    lang: ");
        let d = debug_str(env.lang.as_str());
        push_str(&mut help, d.as_str());
        push_str(&mut help, ",\n}");
        Err(KdlScriptTypeError {
            message: owned("Failed to find applicable pun for this target environment"),
            span: Spanned::span(&pun.name.val),
            help: Some(help),
        })
    }

    /// The text of the type with id `ty`.
    pub fn format_ty(&self, ty: usize) -> (r: String)
        requires
            ty < self@.tcx.tys.len(),
        ensures
            r@ == spec_format_ty(self@.tcx.tys, ty as int),
        decreases ty,
    {
        proof { use_type_invariant(self); }
        assert(ty_refs_ok(self@.tcx.tys[ty as int], ty as int, self@.tcx.tys.len() as int));
        match self.realize_ty(ty) {
            Ty::Primitive(p) => owned(p.name()),
            Ty::Empty => owned("()"),
            Ty::Struct(d) => d.name.val.value.clone(),
            Ty::Enum(d) => d.name.val.value.clone(),
            Ty::Tagged(d) => d.name.val.value.clone(),
            Ty::Union(d) => d.name.val.value.clone(),
            Ty::Alias(d) => d.name.val.value.clone(),
            Ty::Pun(d) => d.name.val.value.clone(),
            Ty::Array(a) => {
                let inner = self.format_ty(a.elem_ty);
                let mut s = owned("[");
                push_str(&mut s, inner.as_str());
                push_str(&mut s, "; ");
                push_decimal(&mut s, a.len);
                push_str(&mut s, "]");
                s
            },
            Ty::Ref(r) => {
                let inner = self.format_ty(r.pointee_ty);
                let mut s = owned("&");
                push_str(&mut s, inner.as_str());
                s
            },
        }
    }
}

} // verus!
