//! The syntax tree of a kdl-script program.

use vstd::prelude::*;
use crate::spanned::{Span, Spanned};
use crate::text::owned;

verus! {

/// The abstract form of a spanned string.
pub open spec fn sstr_view(s: Spanned<String>) -> Spanned<Seq<char>> {
    Spanned { start: s.start, end: s.end, value: s.value@ }
}

/// Copies a spanned string.
pub fn copy_sstr(s: &Spanned<String>) -> (r: Spanned<String>)
    ensures
        sstr_view(r) == sstr_view(*s),
{
    Spanned { start: s.start, end: s.end, value: s.value.clone() }
}

/// A name that may refer to a type or a function.
#[derive(Debug)]
pub struct Ident {
    /// Whether the name was written `_` and this one was made up.
    pub was_blank: bool,
    /// The name.
    pub val: Spanned<String>,
}

/// The abstract form of an [`Ident`].
pub struct IdentV {
    pub was_blank: bool,
    pub val: Spanned<Seq<char>>,
}

impl View for Ident {
    type V = IdentV;

    open spec fn view(&self) -> IdentV {
        IdentV { was_blank: self.was_blank, val: sstr_view(self.val) }
    }
}

impl IdentV {
    /// The characters of the name.
    pub open spec fn text(self) -> Seq<char> {
        self.val.value
    }
}

/// The abstract form of an identifier made from `val`, not blank.
pub open spec fn ident_of(val: Spanned<Seq<char>>) -> IdentV {
    IdentV { was_blank: false, val }
}

impl Ident {
    /// An identifier that was written out (not blank).
    pub fn new(val: Spanned<String>) -> (r: Ident)
        ensures
            r@ == ident_of(sstr_view(val)),
    {
        Ident { val, was_blank: false }
    }

    /// An identifier with the given text and span.
    pub fn with_span(val: String, span: Span) -> (r: Ident)
        requires
            span.offset + span.len <= usize::MAX,
        ensures
            r@ == ident_of(Spanned { start: span.offset, end: (span.offset + span.len) as usize, value: val@ }),
    {
        Ident { val: Spanned::new(val, span), was_blank: false }
    }

    /// An identifier with the given text and an empty span.
    pub fn from_string(val: String) -> (r: Ident)
        ensures
            r@ == ident_of(Spanned { start: 0, end: 0, value: val@ }),
    {
        Ident::new(Spanned::from_value(val))
    }

    /// A copy of this identifier.
    pub fn copy(&self) -> (r: Ident)
        ensures
            r@ == self@,
    {
        Ident { was_blank: self.was_blank, val: copy_sstr(&self.val) }
    }

    /// Whether the text of the two identifiers is the same (spans aside).
    pub fn same_name(&self, other: &Ident) -> (r: bool)
        ensures
            r == (self@.text() == other@.text()),
    {
        self.val.value == other.val.value
    }

    /// Whether the text of this identifier is `s`.
    pub fn is(&self, s: &str) -> (r: bool)
        ensures
            r == (self@.text() == s@),
    {
        let t = owned(s);
        self.val.value == t
    }
}

/// A type "name", which may be structural like `[u32; 4]`.
#[derive(Debug)]
pub enum Tydent {
    /// A named type (resolved by the type checker)
    Name(Ident),
    /// A fixed length array
    Array(Box<Spanned<Tydent>>, u64),
    /// A by-reference type
    Ref(Box<Spanned<Tydent>>),
    /// The empty tuple -- `()`
    Empty,
}

/// The abstract form of a [`Tydent`].
pub enum TydentV {
    Name(IdentV),
    Array(Box<Spanned<TydentV>>, u64),
    Ref(Box<Spanned<TydentV>>),
    Empty,
}

/// The abstract form of a spanned [`Tydent`].
pub open spec fn sty_view(t: Spanned<Tydent>) -> Spanned<TydentV>
    decreases t,
{
    Spanned {
        start: t.start,
        end: t.end,
        value: match t.value {
            Tydent::Name(i) => TydentV::Name(i@),
            Tydent::Array(e, n) => TydentV::Array(Box::new(sty_view(*e)), n),
            Tydent::Ref(e) => TydentV::Ref(Box::new(sty_view(*e))),
            Tydent::Empty => TydentV::Empty,
        },
    }
}

/// Copies a spanned [`Tydent`].
pub fn copy_sty(t: &Spanned<Tydent>) -> (r: Spanned<Tydent>)
    ensures
        sty_view(r) == sty_view(*t),
    decreases t,
{
    let value = match &t.value {
        Tydent::Name(i) => Tydent::Name(i.copy()),
        Tydent::Array(e, n) => Tydent::Array(Box::new(copy_sty(e)), *n),
        Tydent::Ref(e) => Tydent::Ref(Box::new(copy_sty(e))),
        Tydent::Empty => Tydent::Empty,
    };
    Spanned { start: t.start, end: t.end, value }
}


/// The abstract forms of a list of spanned strings.
pub open spec fn sstrs_view(v: Seq<Spanned<String>>) -> Seq<Spanned<Seq<char>>> {
    v.map_values(|x: Spanned<String>| sstr_view(x))
}

/// An attribute declaring that the type should be packed.
#[derive(Debug)]
pub struct AttrPacked {}

/// An attribute declaring a rust-style derive.
#[derive(Debug)]
pub struct AttrDerive(pub Vec<Spanned<String>>);

/// An attribute to pass through to the target language.
#[derive(Debug)]
pub struct AttrPassthrough(pub Spanned<String>);

/// An attribute hung off a function or type.
#[derive(Debug)]
pub enum Attr {
    Derive(AttrDerive),
    Packed(AttrPacked),
    Passthrough(AttrPassthrough),
}

/// The abstract form of an [`Attr`].
pub enum AttrV {
    Derive(Seq<Spanned<Seq<char>>>),
    Packed,
    Passthrough(Spanned<Seq<char>>),
}

impl View for Attr {
    type V = AttrV;

    open spec fn view(&self) -> AttrV {
        match self {
            Attr::Derive(d) => AttrV::Derive(sstrs_view(d.0@)),
            Attr::Packed(_) => AttrV::Packed,
            Attr::Passthrough(p) => AttrV::Passthrough(sstr_view(p.0)),
        }
    }
}

/// The abstract forms of a list of attributes.
pub open spec fn attrs_view(v: Seq<Attr>) -> Seq<AttrV> {
    v.map_values(|a: Attr| a@)
}

/// Copies a list of spanned strings.
pub fn copy_sstrs(v: &Vec<Spanned<String>>) -> (r: Vec<Spanned<String>>)
    ensures
        sstrs_view(r@) == sstrs_view(v@),
{
    let mut r: Vec<Spanned<String>> = Vec::new();
    let mut i: usize = 0;
    while i < v.len()
        invariant
            i <= v@.len(),
            r@.len() == i,
            forall|j: int| 0 <= j < i ==> sstr_view(#[trigger] r@[j]) == sstr_view(v@[j]),
        decreases v@.len() - i,
    {
        r.push(copy_sstr(&v[i]));
        i = i + 1;
    }
    assert(sstrs_view(r@) =~= sstrs_view(v@));
    r
}

impl Attr {
    /// A copy of this attribute.
    pub fn copy(&self) -> (r: Attr)
        ensures
            r@ == self@,
    {
        match self {
            Attr::Derive(d) => Attr::Derive(AttrDerive(copy_sstrs(&d.0))),
            Attr::Packed(_) => Attr::Packed(AttrPacked {}),
            Attr::Passthrough(p) => Attr::Passthrough(AttrPassthrough(copy_sstr(&p.0))),
        }
    }
}

/// Copies a list of attributes.
pub fn copy_attrs(v: &Vec<Attr>) -> (r: Vec<Attr>)
    ensures
        attrs_view(r@) == attrs_view(v@),
{
    let mut r: Vec<Attr> = Vec::new();
    let mut i: usize = 0;
    while i < v.len()
        invariant
            i <= v@.len(),
            r@.len() == i,
            forall|j: int| 0 <= j < i ==> (#[trigger] r@[j])@ == v@[j]@,
        decreases v@.len() - i,
    {
        r.push(v[i].copy());
        i = i + 1;
    }
    assert(attrs_view(r@) =~= attrs_view(v@));
    r
}

/// A (name, type) pair, as in field and argument declarations.
#[derive(Debug)]
pub struct TypedVar {
    /// `None` when the name was written `_`.
    pub name: Option<Ident>,
    pub ty: Spanned<Tydent>,
}

/// The abstract form of a [`TypedVar`].
pub struct TypedVarV {
    pub name: Option<IdentV>,
    pub ty: Spanned<TydentV>,
}

impl View for TypedVar {
    type V = TypedVarV;

    open spec fn view(&self) -> TypedVarV {
        TypedVarV {
            name: match self.name { Some(n) => Some(n@), None => None },
            ty: sty_view(self.ty),
        }
    }
}

/// The abstract forms of a list of typed variables.
pub open spec fn vars_view(v: Seq<TypedVar>) -> Seq<TypedVarV> {
    v.map_values(|x: TypedVar| x@)
}

/// A struct declaration.
#[derive(Debug)]
pub struct StructDecl {
    pub name: Ident,
    pub fields: Vec<TypedVar>,
    pub attrs: Vec<Attr>,
}

/// An untagged union declaration.
#[derive(Debug)]
pub struct UnionDecl {
    pub name: Ident,
    pub fields: Vec<TypedVar>,
    pub attrs: Vec<Attr>,
}

/// The abstract form of a struct or union declaration.
pub struct FieldsDeclV {
    pub name: IdentV,
    pub fields: Seq<TypedVarV>,
    pub attrs: Seq<AttrV>,
}

impl View for StructDecl {
    type V = FieldsDeclV;

    open spec fn view(&self) -> FieldsDeclV {
        FieldsDeclV { name: self.name@, fields: vars_view(self.fields@), attrs: attrs_view(self.attrs@) }
    }
}

impl View for UnionDecl {
    type V = FieldsDeclV;

    open spec fn view(&self) -> FieldsDeclV {
        FieldsDeclV { name: self.name@, fields: vars_view(self.fields@), attrs: attrs_view(self.attrs@) }
    }
}

/// An integer literal.
#[derive(Debug, Clone, Copy)]
pub struct IntExpr {
    pub span: Span,
    pub val: i64,
}

/// A variant of a c-like enum, with an optional required value.
#[derive(Debug)]
pub struct EnumVariant {
    pub name: Ident,
    pub val: Option<IntExpr>,
}

/// The abstract form of an [`EnumVariant`].
pub struct EnumVariantV {
    pub name: IdentV,
    pub val: Option<IntExpr>,
}

impl View for EnumVariant {
    type V = EnumVariantV;

    open spec fn view(&self) -> EnumVariantV {
        EnumVariantV { name: self.name@, val: self.val }
    }
}

/// A c-like enum declaration.
#[derive(Debug)]
pub struct EnumDecl {
    pub name: Ident,
    pub variants: Vec<EnumVariant>,
    pub attrs: Vec<Attr>,
}

/// The abstract form of an [`EnumDecl`].
pub struct EnumDeclV {
    pub name: IdentV,
    pub variants: Seq<EnumVariantV>,
    pub attrs: Seq<AttrV>,
}

impl View for EnumDecl {
    type V = EnumDeclV;

    open spec fn view(&self) -> EnumDeclV {
        EnumDeclV {
            name: self.name@,
            variants: self.variants@.map_values(|v: EnumVariant| v@),
            attrs: attrs_view(self.attrs@),
        }
    }
}

/// A variant of a tagged union; `fields` is `None` for a variant without a block.
#[derive(Debug)]
pub struct TaggedVariant {
    pub name: Ident,
    pub fields: Option<Vec<TypedVar>>,
}

/// The abstract form of a [`TaggedVariant`].
pub struct TaggedVariantV {
    pub name: IdentV,
    pub fields: Option<Seq<TypedVarV>>,
}

impl View for TaggedVariant {
    type V = TaggedVariantV;

    open spec fn view(&self) -> TaggedVariantV {
        TaggedVariantV {
            name: self.name@,
            fields: match self.fields { Some(f) => Some(vars_view(f@)), None => None },
        }
    }
}

/// A tagged union (rust-like enum) declaration.
#[derive(Debug)]
pub struct TaggedDecl {
    pub name: Ident,
    pub variants: Vec<TaggedVariant>,
    pub attrs: Vec<Attr>,
}

/// The abstract form of a [`TaggedDecl`].
pub struct TaggedDeclV {
    pub name: IdentV,
    pub variants: Seq<TaggedVariantV>,
    pub attrs: Seq<AttrV>,
}

impl View for TaggedDecl {
    type V = TaggedDeclV;

    open spec fn view(&self) -> TaggedDeclV {
        TaggedDeclV {
            name: self.name@,
            variants: self.variants@.map_values(|v: TaggedVariant| v@),
            attrs: attrs_view(self.attrs@),
        }
    }
}

/// A transparent type alias.
#[derive(Debug)]
pub struct AliasDecl {
    pub name: Ident,
    pub alias: Spanned<Tydent>,
    pub attrs: Vec<Attr>,
}

/// The abstract form of an [`AliasDecl`].
pub struct AliasDeclV {
    pub name: IdentV,
    pub alias: Spanned<TydentV>,
    pub attrs: Seq<AttrV>,
}

impl View for AliasDecl {
    type V = AliasDeclV;

    open spec fn view(&self) -> AliasDeclV {
        AliasDeclV { name: self.name@, alias: sty_view(self.alias), attrs: attrs_view(self.attrs@) }
    }
}

/// The environment that selects a pun block: the target language.
#[derive(Debug)]
pub struct PunEnv {
    pub lang: String,
}

/// A selector for a pun block.
#[derive(Debug)]
pub enum PunSelector {
    /// Applies if any of these applies.
    Any(Vec<PunSelector>),
    /// Applies if all of these apply.
    All(Vec<PunSelector>),
    /// Applies if the target language is this one.
    Lang(Spanned<String>),
    /// Always applies (the fallback).
    Default,
}

/// The abstract form of a [`PunSelector`].
pub enum PunSelectorV {
    Any(Seq<PunSelectorV>),
    All(Seq<PunSelectorV>),
    Lang(Spanned<Seq<char>>),
    Default,
}

/// The abstract form of a selector.
pub open spec fn sel_view(s: PunSelector) -> PunSelectorV
    decreases s, 0int,
{
    match s {
        PunSelector::Any(v) => PunSelectorV::Any(sels_view_from(v@, 0)),
        PunSelector::All(v) => PunSelectorV::All(sels_view_from(v@, 0)),
        PunSelector::Lang(l) => PunSelectorV::Lang(sstr_view(l)),
        PunSelector::Default => PunSelectorV::Default,
    }
}

/// The abstract forms of `v[i..]`.
pub open spec fn sels_view_from(v: Seq<PunSelector>, i: int) -> Seq<PunSelectorV>
    decreases v, v.len() - i,
{
    if 0 <= i < v.len() { seq![sel_view(v[i])] + sels_view_from(v, i + 1) } else { seq![] }
}

impl View for PunSelector {
    type V = PunSelectorV;

    open spec fn view(&self) -> PunSelectorV {
        sel_view(*self)
    }
}

pub proof fn lemma_sels_view(v: Seq<PunSelector>, i: int)
    requires
        0 <= i <= v.len(),
    ensures
        sels_view_from(v, i).len() == v.len() - i,
        forall|j: int| 0 <= j < v.len() - i ==> #[trigger] sels_view_from(v, i)[j] == sel_view(v[i + j]),
    decreases v.len() - i,
{
    if i < v.len() {
        lemma_sels_view(v, i + 1);
        assert forall|j: int| 0 <= j < v.len() - i implies #[trigger] sels_view_from(v, i)[j] == sel_view(v[i + j]) by {
            if j > 0 {
                assert(sels_view_from(v, i)[j] == sels_view_from(v, i + 1)[j - 1]);
            }
        }
    }
}

/// Whether the selector applies in the environment whose language is `lang`.
pub open spec fn spec_matches(s: PunSelectorV, lang: Seq<char>) -> bool
    decreases s, 0int,
{
    match s {
        PunSelectorV::Any(v) => spec_any_matches(v, 0, lang),
        PunSelectorV::All(v) => spec_all_match(v, 0, lang),
        PunSelectorV::Lang(l) => l.value == lang,
        PunSelectorV::Default => true,
    }
}

/// Whether some selector of `v[i..]` applies.
pub open spec fn spec_any_matches(v: Seq<PunSelectorV>, i: int, lang: Seq<char>) -> bool
    decreases v, v.len() - i,
{
    if 0 <= i < v.len() {
        spec_matches(v[i], lang) || spec_any_matches(v, i + 1, lang)
    } else {
        false
    }
}

/// Whether every selector of `v[i..]` applies.
pub open spec fn spec_all_match(v: Seq<PunSelectorV>, i: int, lang: Seq<char>) -> bool
    decreases v, v.len() - i,
{
    if 0 <= i < v.len() {
        spec_matches(v[i], lang) && spec_all_match(v, i + 1, lang)
    } else {
        true
    }
}

pub proof fn lemma_sels_view0(v: Seq<PunSelector>)
    ensures
        sels_view_from(v, 0).len() == v.len(),
        forall|j: int| 0 <= j < v.len() ==> #[trigger] sels_view_from(v, 0)[j] == sel_view(v[j]),
{
    lemma_sels_view(v, 0);
    assert forall|j: int| 0 <= j < v.len() implies #[trigger] sels_view_from(v, 0)[j] == sel_view(v[j]) by {
        assert(v[0 + j] == v[j]);
    }
}

/// Whether any of `args[i..]` applies in `env`.
fn any_matches(args: &Vec<PunSelector>, i: usize, env: &PunEnv) -> (r: bool)
    requires
        i <= args@.len(),
    ensures
        r == spec_any_matches(sels_view_from(args@, 0), i as int, env.lang@),
    decreases args, args@.len() - i,
{
    proof { lemma_sels_view0(args@); }
    if i >= args.len() {
        return false;
    }
    proof { assert(decreases_to!(args@ => args@[i as int])); }
    if args[i].matches(env) {
        true
    } else {
        any_matches(args, i + 1, env)
    }
}

/// Whether all of `args[i..]` apply in `env`.
fn all_match(args: &Vec<PunSelector>, i: usize, env: &PunEnv) -> (r: bool)
    requires
        i <= args@.len(),
    ensures
        r == spec_all_match(sels_view_from(args@, 0), i as int, env.lang@),
    decreases args, args@.len() - i,
{
    proof { lemma_sels_view0(args@); }
    if i >= args.len() {
        return true;
    }
    proof { assert(decreases_to!(args@ => args@[i as int])); }
    if !args[i].matches(env) {
        false
    } else {
        all_match(args, i + 1, env)
    }
}

impl PunSelector {
    /// Whether this selector applies in `env`.
    pub fn matches(&self, env: &PunEnv) -> (r: bool)
        ensures
            r == spec_matches(self@, env.lang@),
        decreases self, 0int,
    {
        match self {
            PunSelector::Any(args) => any_matches(args, 0, env),
            PunSelector::All(args) => all_match(args, 0, env),
            PunSelector::Lang(lang) => env.lang == lang.value,
            PunSelector::Default => true,
        }
    }

    /// A copy of this selector.
    pub fn copy(&self) -> (r: PunSelector)
        ensures
            r@ == self@,
        decreases self, 0int,
    {
        match self {
            PunSelector::Any(args) => PunSelector::Any(copy_sels(args)),
            PunSelector::All(args) => PunSelector::All(copy_sels(args)),
            PunSelector::Lang(l) => PunSelector::Lang(copy_sstr(l)),
            PunSelector::Default => PunSelector::Default,
        }
    }
}

/// Copies a list of selectors.
pub fn copy_sels(v: &Vec<PunSelector>) -> (r: Vec<PunSelector>)
    ensures
        sels_view_from(r@, 0) == sels_view_from(v@, 0),
    decreases v, 1int,
{
    let mut r: Vec<PunSelector> = Vec::new();
    let mut i: usize = 0;
    proof { lemma_sels_view(v@, 0); }
    while i < v.len()
        invariant
            i <= v@.len(),
            r@.len() == i,
            forall|j: int| 0 <= j < i ==> sel_view(#[trigger] r@[j]) == sel_view(v@[j]),
        decreases v@.len() - i,
    {
        let c = v[i].copy();
        r.push(c);
        i = i + 1;
    }
    proof {
        lemma_sels_view(r@, 0);
        assert forall|j: int| 0 <= j < v@.len() implies #[trigger] sels_view_from(r@, 0)[j] == sels_view_from(v@, 0)[j] by {
            assert(r@[0 + j] == r@[j]);
            assert(v@[0 + j] == v@[j]);
        }
        assert(sels_view_from(r@, 0) =~= sels_view_from(v@, 0));
    }
    r
}

/// A block of a pun: the selector and the type it picks.
#[derive(Debug)]
pub struct PunBlock {
    pub selector: PunSelector,
    pub decl: TyDecl,
}

/// A type pun between different languages.
#[derive(Debug)]
pub struct PunDecl {
    pub name: Ident,
    pub blocks: Vec<PunBlock>,
    pub attrs: Vec<Attr>,
}

/// A type declaration.
#[derive(Debug)]
pub enum TyDecl {
    Struct(StructDecl),
    Union(UnionDecl),
    Enum(EnumDecl),
    Tagged(TaggedDecl),
    Alias(AliasDecl),
    Pun(PunDecl),
}

/// The abstract form of a [`PunBlock`].
pub struct PunBlockV {
    pub selector: PunSelectorV,
    pub decl: TyDeclV,
}

/// The abstract form of a [`PunDecl`].
pub struct PunDeclV {
    pub name: IdentV,
    pub blocks: Seq<PunBlockV>,
    pub attrs: Seq<AttrV>,
}

/// The abstract form of a [`TyDecl`].
pub enum TyDeclV {
    Struct(FieldsDeclV),
    Union(FieldsDeclV),
    Enum(EnumDeclV),
    Tagged(TaggedDeclV),
    Alias(AliasDeclV),
    Pun(PunDeclV),
}

impl TyDeclV {
    /// The declared name.
    pub open spec fn name(self) -> IdentV {
        match self {
            TyDeclV::Struct(d) => d.name,
            TyDeclV::Union(d) => d.name,
            TyDeclV::Enum(d) => d.name,
            TyDeclV::Tagged(d) => d.name,
            TyDeclV::Alias(d) => d.name,
            TyDeclV::Pun(d) => d.name,
        }
    }
}

/// The abstract form of a type declaration.
pub open spec fn decl_view(d: TyDecl) -> TyDeclV
    decreases d, 0int,
{
    match d {
        TyDecl::Struct(x) => TyDeclV::Struct(x@),
        TyDecl::Union(x) => TyDeclV::Union(x@),
        TyDecl::Enum(x) => TyDeclV::Enum(x@),
        TyDecl::Tagged(x) => TyDeclV::Tagged(x@),
        TyDecl::Alias(x) => TyDeclV::Alias(x@),
        TyDecl::Pun(x) => TyDeclV::Pun(PunDeclV {
            name: x.name@,
            blocks: blocks_view_from(x.blocks@, 0),
            attrs: attrs_view(x.attrs@),
        }),
    }
}

/// The abstract forms of the pun blocks `v[i..]`.
pub open spec fn blocks_view_from(v: Seq<PunBlock>, i: int) -> Seq<PunBlockV>
    decreases v, v.len() - i,
{
    if 0 <= i < v.len() {
        seq![PunBlockV { selector: v[i].selector@, decl: decl_view(v[i].decl) }] + blocks_view_from(v, i + 1)
    } else {
        seq![]
    }
}

pub proof fn lemma_blocks_view(v: Seq<PunBlock>, i: int)
    requires
        0 <= i <= v.len(),
    ensures
        blocks_view_from(v, i).len() == v.len() - i,
        forall|j: int| 0 <= j < v.len() - i ==> #[trigger] blocks_view_from(v, i)[j]
            == (PunBlockV { selector: v[i + j].selector@, decl: decl_view(v[i + j].decl) }),
    decreases v.len() - i,
{
    if i < v.len() {
        lemma_blocks_view(v, i + 1);
        assert forall|j: int| 0 <= j < v.len() - i implies #[trigger] blocks_view_from(v, i)[j]
            == (PunBlockV { selector: v[i + j].selector@, decl: decl_view(v[i + j].decl) }) by {
            if j > 0 {
                assert(blocks_view_from(v, i)[j] == blocks_view_from(v, i + 1)[j - 1]);
            }
        }
    }
}

impl View for TyDecl {
    type V = TyDeclV;

    open spec fn view(&self) -> TyDeclV {
        decl_view(*self)
    }
}

impl View for PunBlock {
    type V = PunBlockV;

    open spec fn view(&self) -> PunBlockV {
        PunBlockV { selector: self.selector@, decl: decl_view(self.decl) }
    }
}

impl View for PunDecl {
    type V = PunDeclV;

    open spec fn view(&self) -> PunDeclV {
        PunDeclV { name: self.name@, blocks: blocks_view_from(self.blocks@, 0), attrs: attrs_view(self.attrs@) }
    }
}

/// A function declaration (signature).
#[derive(Debug)]
pub struct FuncDecl {
    pub name: Ident,
    pub inputs: Vec<TypedVar>,
    pub outputs: Vec<TypedVar>,
    pub attrs: Vec<Attr>,
}

/// The abstract form of a [`FuncDecl`].
pub struct FuncDeclV {
    pub name: IdentV,
    pub inputs: Seq<TypedVarV>,
    pub outputs: Seq<TypedVarV>,
    pub attrs: Seq<AttrV>,
}

impl View for FuncDecl {
    type V = FuncDeclV;

    open spec fn view(&self) -> FuncDeclV {
        FuncDeclV {
            name: self.name@,
            inputs: vars_view(self.inputs@),
            outputs: vars_view(self.outputs@),
            attrs: attrs_view(self.attrs@),
        }
    }
}

/// An error found while reading a kdl-script program.
#[derive(Debug)]
pub struct KdlScriptParseError {
    pub message: String,
    pub span: Span,
    pub help: Option<String>,
}

/// The abstract form of a [`KdlScriptParseError`].
pub struct ParseErrorV {
    pub message: Seq<char>,
    pub span: Span,
    pub help: Option<Seq<char>>,
}

impl View for KdlScriptParseError {
    type V = ParseErrorV;

    open spec fn view(&self) -> ParseErrorV {
        ParseErrorV {
            message: self.message@,
            span: self.span,
            help: match self.help { Some(h) => Some(h@), None => None },
        }
    }
}

/// The abstract forms of a list of pun blocks, by index.
pub proof fn lemma_blocks_view0(v: Seq<PunBlock>)
    ensures
        blocks_view_from(v, 0).len() == v.len(),
        forall|j: int| 0 <= j < v.len() ==> #[trigger] blocks_view_from(v, 0)[j] == v[j]@,
{
    lemma_blocks_view(v, 0);
    assert forall|j: int| 0 <= j < v.len() implies #[trigger] blocks_view_from(v, 0)[j] == v[j]@ by {
        assert(v[0 + j] == v[j]);
    }
}

/// Appending a block appends its abstract form.
pub proof fn lemma_blocks_view_push(v: Seq<PunBlock>, b: PunBlock)
    ensures
        blocks_view_from(v.push(b), 0) == blocks_view_from(v, 0).push(b@),
{
    lemma_blocks_view0(v);
    lemma_blocks_view0(v.push(b));
    assert(blocks_view_from(v.push(b), 0) =~= blocks_view_from(v, 0).push(b@));
}

impl TyDecl {
    /// The declared name.
    pub fn name(&self) -> (r: &Ident)
        ensures
            r@ == self@.name(),
    {
        match self {
            TyDecl::Struct(d) => &d.name,
            TyDecl::Union(d) => &d.name,
            TyDecl::Enum(d) => &d.name,
            TyDecl::Tagged(d) => &d.name,
            TyDecl::Alias(d) => &d.name,
            TyDecl::Pun(d) => &d.name,
        }
    }
}
} // verus!
