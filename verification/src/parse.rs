//! Reading a kdl-script program from its KDL document.
//!
//! Each step is stated as a function on the abstract form of the document
//! (`spec_*`) and carried out by an executable function proved to give the
//! same result.

use vstd::prelude::*;
use crate::spanned::{Span, Spanned};
use crate::kdl_doc::{Doc, DocNode, DocEntry, DocValue, DocV, DocNodeV, DocEntryV, DocValueV, lemma_doc_view};
use crate::ast::{
    Ident, IdentV, ident_of, sstr_view, sstrs_view, Tydent, TydentV, sty_view, KdlScriptParseError,
    ParseErrorV, TypedVar, TypedVarV, vars_view, IntExpr, EnumVariant, EnumVariantV, TaggedVariant,
    TaggedVariantV, Attr, AttrV, AttrDerive, AttrPacked, AttrPassthrough,
};
use crate::ast::{StructDecl, UnionDecl, EnumDecl, TaggedDecl, AliasDecl, FieldsDeclV, EnumDeclV, TaggedDeclV,
    AliasDeclV, FuncDecl, FuncDeclV, TyDecl, TyDeclV, PunDecl, PunDeclV, PunBlock, PunBlockV, PunSelector,
    PunSelectorV, attrs_view, copy_sstr, blocks_view_from, lemma_blocks_view0, lemma_blocks_view_push, decl_view, sel_view, sels_view_from, lemma_sels_view0};
use crate::kdl_doc::{nodes_view_from, lemma_nodes_view0, node_view};
use crate::stable_map::{ty_entries, func_entries, new_ty_map, new_func_map, ty_map_insert, func_map_insert,
    func_map_len, ty_map_into_vec, func_map_iter, spec_insert, key_index, keys_distinct};
use linked_hash_map::LinkedHashMap;
use crate::tydent::{parse_tydent_chars, spec_parse_tydent, spec_tydent_generics};
use crate::text::{owned, str_eq, chars_of, push_str};
use crate::seqs::{collect_upto, lemma_collect_err};

verus! {

/// Why reading a program stopped.
#[derive(Debug)]
pub enum ParseFailure {
    /// The program is malformed.
    Error(KdlScriptParseError),
    /// The program uses something the language rejects outright:
    /// generic type arguments, or two types of one name.
    Rejected(String),
}

/// The abstract form of a [`ParseFailure`].
pub enum ParseFailureV {
    Error(ParseErrorV),
    Rejected(Seq<char>),
}

impl View for ParseFailure {
    type V = ParseFailureV;

    open spec fn view(&self) -> ParseFailureV {
        match self {
            ParseFailure::Error(e) => ParseFailureV::Error(e@),
            ParseFailure::Rejected(m) => ParseFailureV::Rejected(m@),
        }
    }
}

/// The abstract form of an outcome, given the abstract form of its value.
pub open spec fn lift<A, B>(r: Result<A, ParseFailure>, f: spec_fn(A) -> B) -> Result<B, ParseFailureV> {
    match r {
        Ok(a) => Ok(f(a)),
        Err(e) => Err(e@),
    }
}

/// An error with this message, span and help.
pub open spec fn perr(message: Seq<char>, span: Span, help: Option<Seq<char>>) -> ParseFailureV {
    ParseFailureV::Error(ParseErrorV { message, span, help })
}

fn mk_err(message: String, span: Span, help: Option<String>) -> (r: ParseFailure)
    ensures
        r@ == perr(message@, span, match help { Some(h) => Some(h@), None => None }),
{
    ParseFailure::Error(KdlScriptParseError { message, span, help })
}

fn mk_err_lit(message: &str, span: Span, help: Option<&str>) -> (r: ParseFailure)
    ensures
        r@ == perr(message@, span, match help { Some(h) => Some(h@), None => None }),
{
    let h = match help {
        Some(h) => Some(owned(h)),
        None => None,
    };
    mk_err(owned(message), span, h)
}

/// A span whose end can be computed.
pub open spec fn span_fits(s: Span) -> bool {
    s.offset + s.len <= usize::MAX
}

/// The spans that reading a node adds up fit in a `usize`.
pub open spec fn node_fits(n: DocNodeV) -> bool
    decreases n, 0int,
{
    &&& span_fits(n.name_span)
    &&& forall|i: int| 0 <= i < n.entries.len() ==> span_fits(#[trigger] n.entries[i].span)
    &&& match n.children {
        Some(d) => nodes_fit_from(d.nodes, 0),
        None => true,
    }
}

/// Every node of `ns[i..]` fits.
pub open spec fn nodes_fit_from(ns: Seq<DocNodeV>, i: int) -> bool
    decreases ns, ns.len() - i,
{
    if 0 <= i < ns.len() { node_fits(ns[i]) && nodes_fit_from(ns, i + 1) } else { true }
}

/// Every node of the document fits.
pub open spec fn doc_fits(d: DocV) -> bool {
    nodes_fit_from(d.nodes, 0)
}

pub proof fn lemma_nodes_fit(ns: Seq<DocNodeV>, i: int)
    requires
        0 <= i,
        nodes_fit_from(ns, i),
    ensures
        forall|j: int| i <= j < ns.len() ==> node_fits(#[trigger] ns[j]),
    decreases ns.len() - i,
{
    if i < ns.len() {
        lemma_nodes_fit(ns, i + 1);
    }
}

/// The span just after `s`, empty.
pub open spec fn after(s: Span) -> Span {
    Span { offset: (s.offset + s.len) as usize, len: 0 }
}

/// The spanned string `s` at `span`.
pub open spec fn sp_str(s: Seq<char>, span: Span) -> Spanned<Seq<char>> {
    Spanned { start: span.offset, end: (span.offset + span.len) as usize, value: s }
}

/// The string an entry holds, if it holds one.
pub open spec fn entry_string(e: DocEntryV) -> Option<Seq<char>> {
    match e.value {
        DocValueV::RawString(s) => Some(s),
        DocValueV::String(s) => Some(s),
        _ => None,
    }
}

fn entry_str(e: &DocEntry) -> (r: Option<&String>)
    ensures
        match r {
            Some(s) => entry_string(e@) == Some(s@),
            None => entry_string(e@) is None,
        },
{
    match &e.value {
        DocValue::RawString(s) => Some(s),
        DocValue::String(s) => Some(s),
        _ => None,
    }
}

/// The entry at `offset` should be an unnamed string.
pub open spec fn spec_string_at(n: DocNodeV, desc: Seq<char>, offset: int) -> Result<Spanned<Seq<char>>, ParseFailureV> {
    if 0 <= offset < n.entries.len() {
        let e = n.entries[offset];
        if e.name is Some {
            Err(perr("Named values don't belong here, only strings"@, e.span, Some("try removing the name"@)))
        } else {
            match entry_string(e) {
                Some(s) => Ok(sp_str(s, e.span)),
                None => Err(perr("This should be a "@ + desc + " (string)"@, e.span, Some("try adding quotes"@))),
            }
        }
    } else {
        Err(perr("Hey I need a "@ + desc + " (string) here!"@, after(n.name_span), None))
    }
}

fn string_at(n: &DocNode, desc: &str, offset: usize) -> (r: Result<Spanned<String>, ParseFailure>)
    requires
        node_fits(n@),
    ensures
        lift(r, |x: Spanned<String>| sstr_view(x)) == spec_string_at(n@, desc@, offset as int),
{
    assert(n@.entries == n.entries@.map_values(|e: DocEntry| e@));
    if offset < n.entries.len() {
        let e = &n.entries[offset];
        assert(n@.entries[offset as int] == e@);
        assert(span_fits(n@.entries[offset as int].span));
        if e.name.is_some() {
            return Err(mk_err_lit("Named values don't belong here, only strings", e.span, Some("try removing the name")));
        }
        match entry_str(e) {
            Some(s) => Ok(Spanned::new(s.clone(), e.span)),
            None => {
                let mut m = owned("This should be a ");
                push_str(&mut m, desc);
                push_str(&mut m, " (string)");
                Err(mk_err(m, e.span, Some(owned("try adding quotes"))))
            },
        }
    } else {
        let mut m = owned("Hey I need a ");
        push_str(&mut m, desc);
        push_str(&mut m, " (string) here!");
        let at = n.name_span.offset + n.name_span.len;
        Err(mk_err(m, Span { offset: at, len: 0 }, None))
    }
}

/// The node's entries should be exactly one unnamed string.
pub open spec fn spec_one_string(n: DocNodeV, desc: Seq<char>) -> Result<Spanned<Seq<char>>, ParseFailureV> {
    match spec_string_at(n, desc, 0) {
        Err(e) => Err(e),
        Ok(s) => if n.entries.len() > 1 {
            Err(perr("You have something extra after your "@ + desc, n.entries[1].span, Some("remove this?"@)))
        } else {
            Ok(s)
        },
    }
}

fn one_string(n: &DocNode, desc: &str) -> (r: Result<Spanned<String>, ParseFailure>)
    requires
        node_fits(n@),
    ensures
        lift(r, |x: Spanned<String>| sstr_view(x)) == spec_one_string(n@, desc@),
{
    let res = string_at(n, desc, 0)?;
    assert(n@.entries == n.entries@.map_values(|e: DocEntry| e@));
    if n.entries.len() > 1 {
        let mut m = owned("You have something extra after your ");
        push_str(&mut m, desc);
        return Err(mk_err(m, n.entries[1].span, Some(owned("remove this?"))));
    }
    Ok(res)
}

/// The node should have no entries.
pub open spec fn spec_no_args(n: DocNodeV) -> Result<(), ParseFailureV> {
    if n.entries.len() > 0 {
        Err(perr("This shouldn't have arguments"@, n.entries[0].span, Some("delete them?"@)))
    } else {
        Ok(())
    }
}

fn no_args(n: &DocNode) -> (r: Result<(), ParseFailure>)
    ensures
        lift(r, |x: ()| x) == spec_no_args(n@),
{
    assert(n@.entries == n.entries@.map_values(|e: DocEntry| e@));
    if n.entries.len() > 0 {
        return Err(mk_err_lit("This shouldn't have arguments", n.entries[0].span, Some("delete them?")));
    }
    Ok(())
}

/// The node should have no block of children.
pub open spec fn spec_no_children(n: DocNodeV) -> Result<(), ParseFailureV> {
    match n.children {
        Some(c) => Err(perr("These children should never have been born"@, c.span, Some("delete this block?"@))),
        None => Ok(()),
    }
}

fn no_children(n: &DocNode) -> (r: Result<(), ParseFailure>)
    ensures
        lift(r, |x: ()| x) == spec_no_children(n@),
{
    match &n.children {
        Some(c) => Err(mk_err_lit("These children should never have been born", c.span, Some("delete this block?"))),
        None => Ok(()),
    }
}

/// One entry of a list of strings.
pub open spec fn spec_list_string(e: DocEntryV) -> Result<Spanned<Seq<char>>, ParseFailureV> {
    if e.name is Some {
        Err(perr("Named values don't belong here, only strings"@, e.span, Some("try removing the name"@)))
    } else {
        match entry_string(e) {
            Some(s) => Ok(sp_str(s, e.span)),
            None => Err(perr("This should be a string"@, e.span, Some("try adding quotes?"@))),
        }
    }
}

/// The entries should all be unnamed strings.
pub open spec fn spec_string_list(es: Seq<DocEntryV>) -> Result<Seq<Spanned<Seq<char>>>, ParseFailureV> {
    collect_upto(|i: int| spec_list_string(es[i]), es.len())
}

fn string_list(n: &DocNode) -> (r: Result<Vec<Spanned<String>>, ParseFailure>)
    requires
        node_fits(n@),
    ensures
        lift(r, |x: Vec<Spanned<String>>| sstrs_view(x@)) == spec_string_list(n@.entries),
{
    let ghost es = n@.entries;
    let ghost f = |i: int| spec_list_string(es[i]);
    assert(es == n.entries@.map_values(|e: DocEntry| e@));
    let mut out: Vec<Spanned<String>> = Vec::new();
    let mut i: usize = 0;
    assert(sstrs_view(out@) =~= Seq::<Spanned<Seq<char>>>::empty());
    while i < n.entries.len()
        invariant
            i <= n.entries@.len(),
            es.len() == n.entries@.len(),
            es == n.entries@.map_values(|e: DocEntry| e@),
            node_fits(n@),
            es == n@.entries,
            f == (|i: int| spec_list_string(es[i])),
            collect_upto(f, i as nat) == Ok::<Seq<Spanned<Seq<char>>>, ParseFailureV>(sstrs_view(out@)),
        decreases n.entries@.len() - i,
    {
        let e = &n.entries[i];
        assert(es[i as int] == e@);
        assert(span_fits(es[i as int].span));
        if e.name.is_some() {
            let err = mk_err_lit("Named values don't belong here, only strings", e.span, Some("try removing the name"));
            proof { lemma_collect_err(f, (i + 1) as nat, es.len()); }
            return Err(err);
        }
        match entry_str(e) {
            Some(s) => {
                let v = Spanned::new(s.clone(), e.span);
                let ghost prev = out@;
                out.push(v);
                assert(sstrs_view(out@) =~= sstrs_view(prev).push(sstr_view(v)));
                assert(f(i as int) == Ok::<Spanned<Seq<char>>, ParseFailureV>(sstr_view(v)));
            },
            None => {
                let err = mk_err_lit("This should be a string", e.span, Some("try adding quotes?"));
                proof { lemma_collect_err(f, (i + 1) as nat, es.len()); }
                return Err(err);
            },
        }
        i = i + 1;
    }
    Ok(out)
}


/// The span of a spanned value (empty when inverted).
pub open spec fn span_of<T>(s: Spanned<T>) -> Span {
    Span { offset: s.start, len: if s.end >= s.start { (s.end - s.start) as usize } else { 0 } }
}

/// The message of the rejection of generic type arguments.
pub open spec fn generics_msg() -> Seq<char> {
    "generics aren't yet implemented!"@
}

/// Reads a type name from a spanned string.
pub open spec fn spec_tydent_of(input: Spanned<Seq<char>>) -> Result<Spanned<TydentV>, ParseFailureV> {
    if spec_tydent_generics(input.value) {
        Err(ParseFailureV::Rejected(generics_msg()))
    } else {
        match spec_parse_tydent(input.value) {
            Some(t) => Ok(t),
            None => Err(perr("couldn't parse type"@, span_of(input), None)),
        }
    }
}

fn tydent_of(input: &Spanned<String>) -> (r: Result<Spanned<Tydent>, ParseFailure>)
    ensures
        lift(r, |x: Spanned<Tydent>| sty_view(x)) == spec_tydent_of(sstr_view(*input)),
{
    let cs = chars_of(input.value.as_str());
    match parse_tydent_chars(cs.as_slice()) {
        Ok(t) => Ok(t),
        Err(true) => Err(ParseFailure::Rejected(owned("generics aren't yet implemented!"))),
        Err(false) => Err(mk_err_lit("couldn't parse type", Spanned::span(input), None)),
    }
}

/// Reads an identifier: it must read as a type name.
pub open spec fn spec_ident_of(input: Spanned<Seq<char>>) -> Result<IdentV, ParseFailureV> {
    if spec_tydent_generics(input.value) {
        Err(ParseFailureV::Rejected(generics_msg()))
    } else {
        match spec_parse_tydent(input.value) {
            Some(_) => Ok(ident_of(input)),
            None => Err(perr("invalid identifier"@, span_of(input), None)),
        }
    }
}

fn ident_of_str(input: Spanned<String>) -> (r: Result<Ident, ParseFailure>)
    ensures
        lift(r, |x: Ident| x@) == spec_ident_of(sstr_view(input)),
{
    let cs = chars_of(input.value.as_str());
    match parse_tydent_chars(cs.as_slice()) {
        Ok(_) => Ok(Ident::new(input)),
        Err(true) => Err(ParseFailure::Rejected(owned("generics aren't yet implemented!"))),
        Err(false) => Err(mk_err_lit("invalid identifier", Spanned::span(&input), None)),
    }
}

/// The node's name, as an identifier at the name's span.
pub open spec fn spec_node_ident(n: DocNodeV) -> Result<IdentV, ParseFailureV> {
    spec_ident_of(sp_str(n.name, n.name_span))
}

fn node_ident(n: &DocNode) -> (r: Result<Ident, ParseFailure>)
    requires
        node_fits(n@),
    ensures
        lift(r, |x: Ident| x@) == spec_node_ident(n@),
{
    ident_of_str(Spanned::new(n.name.clone(), n.name_span))
}

/// A variable name: `_` for none, else an identifier.
pub open spec fn spec_var_name(n: DocNodeV) -> Result<Option<IdentV>, ParseFailureV> {
    if n.name == "_"@ {
        Ok(None)
    } else {
        match spec_node_ident(n) {
            Ok(i) => Ok(Some(i)),
            Err(e) => Err(e),
        }
    }
}

/// A typed variable: `name "type"`, without children.
pub open spec fn spec_typed_var(n: DocNodeV) -> Result<TypedVarV, ParseFailureV> {
    match spec_var_name(n) {
        Err(e) => Err(e),
        Ok(name) => match spec_one_string(n, "type"@) {
            Err(e) => Err(e),
            Ok(ty_str) => match spec_tydent_of(ty_str) {
                Err(e) => Err(e),
                Ok(ty) => match spec_no_children(n) {
                    Err(e) => Err(e),
                    Ok(_) => Ok(TypedVarV { name, ty }),
                },
            },
        },
    }
}

fn typed_var(n: &DocNode) -> (r: Result<TypedVar, ParseFailure>)
    requires
        node_fits(n@),
    ensures
        lift(r, |x: TypedVar| x@) == spec_typed_var(n@),
{
    let name = if str_eq(n.name.as_str(), "_") {
        None
    } else {
        Some(node_ident(n)?)
    };
    let ty_str = one_string(n, "type")?;
    let ty = tydent_of(&ty_str)?;
    no_children(n)?;
    Ok(TypedVar { name, ty })
}

/// The nodes of a node's block of children (none without a block).
pub open spec fn child_nodes(n: DocNodeV) -> Seq<DocNodeV> {
    match n.children {
        Some(d) => d.nodes,
        None => Seq::empty(),
    }
}

/// The children should all be typed variables.
pub open spec fn spec_typed_vars(n: DocNodeV) -> Result<Seq<TypedVarV>, ParseFailureV> {
    collect_upto(|i: int| spec_typed_var(child_nodes(n)[i]), child_nodes(n).len())
}

fn typed_vars(n: &DocNode) -> (r: Result<Vec<TypedVar>, ParseFailure>)
    requires
        node_fits(n@),
    ensures
        lift(r, |x: Vec<TypedVar>| vars_view(x@)) == spec_typed_vars(n@),
{
    let ghost cs = child_nodes(n@);
    let ghost f = |i: int| spec_typed_var(child_nodes(n@)[i]);
    let mut out: Vec<TypedVar> = Vec::new();
    assert(vars_view(out@) =~= Seq::<TypedVarV>::empty());
    match &n.children {
        None => {
            return Ok(out);
        },
        Some(d) => {
            proof {
                lemma_doc_view(*d);
                lemma_nodes_fit(d@.nodes, 0);
            }
            let mut i: usize = 0;
            while i < d.nodes.len()
                invariant
                    i <= d.nodes@.len(),
                    cs == d@.nodes,
                    cs.len() == d.nodes@.len(),
                    forall|j: int| 0 <= j < d.nodes@.len() ==> #[trigger] cs[j] == d.nodes@[j]@,
                    forall|j: int| 0 <= j < cs.len() ==> node_fits(#[trigger] cs[j]),
                    f == (|i: int| spec_typed_var(child_nodes(n@)[i])),
                    cs == child_nodes(n@),
                    collect_upto(f, i as nat) == Ok::<Seq<TypedVarV>, ParseFailureV>(vars_view(out@)),
                decreases d.nodes@.len() - i,
            {
                assert(cs[i as int] == d.nodes@[i as int]@);
                match typed_var(&d.nodes[i]) {
                    Ok(v) => {
                        let ghost prev = out@;
                        let ghost vv = v@;
                        out.push(v);
                        assert(vars_view(out@) =~= vars_view(prev).push(vv));
                    },
                    Err(e) => {
                        proof { lemma_collect_err(f, (i + 1) as nat, cs.len()); }
                        return Err(e);
                    },
                }
                i = i + 1;
            }
            Ok(out)
        },
    }
}

/// An integer literal entry.
pub open spec fn spec_int_expr(e: DocEntryV) -> Result<IntExpr, ParseFailureV> {
    if e.name is Some {
        Err(perr("Named values don't belong here, only literals"@, e.span, Some("try removing the name"@)))
    } else {
        match e.value {
            DocValueV::Base2(v) => Ok(IntExpr { span: e.span, val: v }),
            DocValueV::Base8(v) => Ok(IntExpr { span: e.span, val: v }),
            DocValueV::Base10(v) => Ok(IntExpr { span: e.span, val: v }),
            DocValueV::Base16(v) => Ok(IntExpr { span: e.span, val: v }),
            _ => Err(perr("must be an integer"@, e.span, None)),
        }
    }
}

fn int_expr(e: &DocEntry) -> (r: Result<IntExpr, ParseFailure>)
    ensures
        lift(r, |x: IntExpr| x) == spec_int_expr(e@),
{
    if e.name.is_some() {
        return Err(mk_err_lit("Named values don't belong here, only literals", e.span, Some("try removing the name")));
    }
    match &e.value {
        DocValue::Base2(v) => Ok(IntExpr { span: e.span, val: *v }),
        DocValue::Base8(v) => Ok(IntExpr { span: e.span, val: *v }),
        DocValue::Base10(v) => Ok(IntExpr { span: e.span, val: *v }),
        DocValue::Base16(v) => Ok(IntExpr { span: e.span, val: *v }),
        _ => Err(mk_err_lit("must be an integer", e.span, None)),
    }
}

/// An enum variant: a name, an optional integer, nothing more.
pub open spec fn spec_enum_variant(n: DocNodeV) -> Result<EnumVariantV, ParseFailureV> {
    match spec_node_ident(n) {
        Err(e) => Err(e),
        Ok(name) => {
            let val = if n.entries.len() > 0 {
                match spec_int_expr(n.entries[0]) {
                    Ok(v) => Ok(Some(v)),
                    Err(e) => Err(e),
                }
            } else {
                Ok(None)
            };
            match val {
                Err(e) => Err(e),
                Ok(val) => if n.entries.len() > 1 {
                    Err(perr("You have something extra after your enum case"@, n.entries[1].span, Some("remove this?"@)))
                } else {
                    match spec_no_children(n) {
                        Err(e) => Err(e),
                        Ok(_) => Ok(EnumVariantV { name, val }),
                    }
                },
            }
        },
    }
}

fn enum_variant(n: &DocNode) -> (r: Result<EnumVariant, ParseFailure>)
    requires
        node_fits(n@),
    ensures
        lift(r, |x: EnumVariant| x@) == spec_enum_variant(n@),
{
    let name = node_ident(n)?;
    assert(n@.entries == n.entries@.map_values(|e: DocEntry| e@));
    let val = if n.entries.len() > 0 {
        Some(int_expr(&n.entries[0])?)
    } else {
        None
    };
    if n.entries.len() > 1 {
        return Err(mk_err_lit("You have something extra after your enum case", n.entries[1].span, Some("remove this?")));
    }
    no_children(n)?;
    Ok(EnumVariant { name, val })
}

/// The children should all be enum variants.
pub open spec fn spec_enum_variants(n: DocNodeV) -> Result<Seq<EnumVariantV>, ParseFailureV> {
    collect_upto(|i: int| spec_enum_variant(child_nodes(n)[i]), child_nodes(n).len())
}

fn enum_variants(n: &DocNode) -> (r: Result<Vec<EnumVariant>, ParseFailure>)
    requires
        node_fits(n@),
    ensures
        lift(r, |x: Vec<EnumVariant>| x@.map_values(|v: EnumVariant| v@)) == spec_enum_variants(n@),
{
    let ghost cs = child_nodes(n@);
    let ghost f = |i: int| spec_enum_variant(child_nodes(n@)[i]);
    let mut out: Vec<EnumVariant> = Vec::new();
    assert(out@.map_values(|v: EnumVariant| v@) =~= Seq::<EnumVariantV>::empty());
    match &n.children {
        None => {
            return Ok(out);
        },
        Some(d) => {
            proof {
                lemma_doc_view(*d);
                lemma_nodes_fit(d@.nodes, 0);
            }
            let mut i: usize = 0;
            while i < d.nodes.len()
                invariant
                    i <= d.nodes@.len(),
                    cs == d@.nodes,
                    cs.len() == d.nodes@.len(),
                    forall|j: int| 0 <= j < d.nodes@.len() ==> #[trigger] cs[j] == d.nodes@[j]@,
                    forall|j: int| 0 <= j < cs.len() ==> node_fits(#[trigger] cs[j]),
                    f == (|i: int| spec_enum_variant(child_nodes(n@)[i])),
                    cs == child_nodes(n@),
                    collect_upto(f, i as nat) == Ok::<Seq<EnumVariantV>, ParseFailureV>(out@.map_values(|v: EnumVariant| v@)),
                decreases d.nodes@.len() - i,
            {
                assert(cs[i as int] == d.nodes@[i as int]@);
                match enum_variant(&d.nodes[i]) {
                    Ok(v) => {
                        let ghost prev = out@;
                        let ghost vv = v@;
                        out.push(v);
                        assert(out@.map_values(|v: EnumVariant| v@) =~= prev.map_values(|v: EnumVariant| v@).push(vv));
                    },
                    Err(e) => {
                        proof { lemma_collect_err(f, (i + 1) as nat, cs.len()); }
                        return Err(e);
                    },
                }
                i = i + 1;
            }
            Ok(out)
        },
    }
}

/// A tagged variant: a name without entries, with an optional block of fields.
pub open spec fn spec_tagged_variant(n: DocNodeV) -> Result<TaggedVariantV, ParseFailureV> {
    match spec_no_args(n) {
        Err(e) => Err(e),
        Ok(_) => match spec_node_ident(n) {
            Err(e) => Err(e),
            Ok(name) => if n.children is Some {
                match spec_typed_vars(n) {
                    Err(e) => Err(e),
                    Ok(fields) => Ok(TaggedVariantV { name, fields: Some(fields) }),
                }
            } else {
                Ok(TaggedVariantV { name, fields: None })
            },
        },
    }
}

fn tagged_variant(n: &DocNode) -> (r: Result<TaggedVariant, ParseFailure>)
    requires
        node_fits(n@),
    ensures
        lift(r, |x: TaggedVariant| x@) == spec_tagged_variant(n@),
{
    no_args(n)?;
    let name = node_ident(n)?;
    let fields = if n.children.is_some() {
        Some(typed_vars(n)?)
    } else {
        None
    };
    Ok(TaggedVariant { name, fields })
}

/// The children should all be tagged variants.
pub open spec fn spec_tagged_variants(n: DocNodeV) -> Result<Seq<TaggedVariantV>, ParseFailureV> {
    collect_upto(|i: int| spec_tagged_variant(child_nodes(n)[i]), child_nodes(n).len())
}

fn tagged_variants(n: &DocNode) -> (r: Result<Vec<TaggedVariant>, ParseFailure>)
    requires
        node_fits(n@),
    ensures
        lift(r, |x: Vec<TaggedVariant>| x@.map_values(|v: TaggedVariant| v@)) == spec_tagged_variants(n@),
{
    let ghost cs = child_nodes(n@);
    let ghost f = |i: int| spec_tagged_variant(child_nodes(n@)[i]);
    let mut out: Vec<TaggedVariant> = Vec::new();
    assert(out@.map_values(|v: TaggedVariant| v@) =~= Seq::<TaggedVariantV>::empty());
    match &n.children {
        None => {
            return Ok(out);
        },
        Some(d) => {
            proof {
                lemma_doc_view(*d);
                lemma_nodes_fit(d@.nodes, 0);
            }
            let mut i: usize = 0;
            while i < d.nodes.len()
                invariant
                    i <= d.nodes@.len(),
                    cs == d@.nodes,
                    cs.len() == d.nodes@.len(),
                    forall|j: int| 0 <= j < d.nodes@.len() ==> #[trigger] cs[j] == d.nodes@[j]@,
                    forall|j: int| 0 <= j < cs.len() ==> node_fits(#[trigger] cs[j]),
                    f == (|i: int| spec_tagged_variant(child_nodes(n@)[i])),
                    cs == child_nodes(n@),
                    collect_upto(f, i as nat) == Ok::<Seq<TaggedVariantV>, ParseFailureV>(out@.map_values(|v: TaggedVariant| v@)),
                decreases d.nodes@.len() - i,
            {
                assert(cs[i as int] == d.nodes@[i as int]@);
                match tagged_variant(&d.nodes[i]) {
                    Ok(v) => {
                        let ghost prev = out@;
                        let ghost vv = v@;
                        out.push(v);
                        assert(out@.map_values(|v: TaggedVariant| v@) =~= prev.map_values(|v: TaggedVariant| v@).push(vv));
                    },
                    Err(e) => {
                        proof { lemma_collect_err(f, (i + 1) as nat, cs.len()); }
                        return Err(e);
                    },
                }
                i = i + 1;
            }
            Ok(out)
        },
    }
}

/// An `@attribute` node.
pub open spec fn spec_attr(n: DocNodeV) -> Result<AttrV, ParseFailureV> {
    if n.name == "@packed"@ {
        match spec_no_children(n) {
            Err(e) => Err(e),
            Ok(_) => Ok(AttrV::Packed),
        }
    } else if n.name == "@derive"@ {
        match spec_string_list(n.entries) {
            Err(e) => Err(e),
            Ok(traits) => match spec_no_children(n) {
                Err(e) => Err(e),
                Ok(_) => Ok(AttrV::Derive(traits)),
            },
        }
    } else if n.name == "@"@ {
        match spec_one_string(n, "attribute to pass through to target language"@) {
            Err(e) => Err(e),
            Ok(v) => Ok(AttrV::Passthrough(v)),
        }
    } else {
        Err(perr("I don't know what a '"@ + n.name + "' attribute is"@, n.name_span, None))
    }
}

fn attr(n: &DocNode) -> (r: Result<Attr, ParseFailure>)
    requires
        node_fits(n@),
    ensures
        lift(r, |x: Attr| x@) == spec_attr(n@),
{
    if str_eq(n.name.as_str(), "@packed") {
        no_children(n)?;
        Ok(Attr::Packed(AttrPacked {}))
    } else if str_eq(n.name.as_str(), "@derive") {
        let traits = string_list(n)?;
        no_children(n)?;
        Ok(Attr::Derive(AttrDerive(traits)))
    } else if str_eq(n.name.as_str(), "@") {
        let v = one_string(n, "attribute to pass through to target language")?;
        Ok(Attr::Passthrough(AttrPassthrough(v)))
    } else {
        let mut m = owned("I don't know what a '");
        push_str(&mut m, n.name.as_str());
        push_str(&mut m, "' attribute is");
        Err(mk_err(m, n.name_span, None))
    }
}

/// A struct declaration: `struct "Name" { fields }`.
pub open spec fn spec_struct_decl(n: DocNodeV, attrs: Seq<AttrV>) -> Result<FieldsDeclV, ParseFailureV> {
    match spec_one_string(n, "type name"@) {
        Err(e) => Err(e),
        Ok(s) => match spec_ident_of(s) {
            Err(e) => Err(e),
            Ok(name) => match spec_typed_vars(n) {
                Err(e) => Err(e),
                Ok(fields) => Ok(FieldsDeclV { name, fields, attrs }),
            },
        },
    }
}

fn struct_decl(n: &DocNode, attrs: Vec<Attr>) -> (r: Result<StructDecl, ParseFailure>)
    requires
        node_fits(n@),
    ensures
        lift(r, |x: StructDecl| x@) == spec_struct_decl(n@, attrs_view(attrs@)),
{
    let name = one_string(n, "type name")?;
    let name = ident_of_str(name)?;
    let fields = typed_vars(n)?;
    Ok(StructDecl { name, fields, attrs })
}

fn union_decl(n: &DocNode, attrs: Vec<Attr>) -> (r: Result<UnionDecl, ParseFailure>)
    requires
        node_fits(n@),
    ensures
        lift(r, |x: UnionDecl| x@) == spec_struct_decl(n@, attrs_view(attrs@)),
{
    let name = one_string(n, "type name")?;
    let name = ident_of_str(name)?;
    let fields = typed_vars(n)?;
    Ok(UnionDecl { name, fields, attrs })
}

/// An enum declaration: `enum "Name" { variants }`.
pub open spec fn spec_enum_decl(n: DocNodeV, attrs: Seq<AttrV>) -> Result<EnumDeclV, ParseFailureV> {
    match spec_one_string(n, "type name"@) {
        Err(e) => Err(e),
        Ok(s) => match spec_ident_of(s) {
            Err(e) => Err(e),
            Ok(name) => match spec_enum_variants(n) {
                Err(e) => Err(e),
                Ok(variants) => Ok(EnumDeclV { name, variants, attrs }),
            },
        },
    }
}

fn enum_decl(n: &DocNode, attrs: Vec<Attr>) -> (r: Result<EnumDecl, ParseFailure>)
    requires
        node_fits(n@),
    ensures
        lift(r, |x: EnumDecl| x@) == spec_enum_decl(n@, attrs_view(attrs@)),
{
    let name = one_string(n, "type name")?;
    let name = ident_of_str(name)?;
    let variants = enum_variants(n)?;
    Ok(EnumDecl { name, variants, attrs })
}

/// A tagged union declaration: `tagged "Name" { variants }`.
pub open spec fn spec_tagged_decl(n: DocNodeV, attrs: Seq<AttrV>) -> Result<TaggedDeclV, ParseFailureV> {
    match spec_one_string(n, "type name"@) {
        Err(e) => Err(e),
        Ok(s) => match spec_ident_of(s) {
            Err(e) => Err(e),
            Ok(name) => match spec_tagged_variants(n) {
                Err(e) => Err(e),
                Ok(variants) => Ok(TaggedDeclV { name, variants, attrs }),
            },
        },
    }
}

fn tagged_decl(n: &DocNode, attrs: Vec<Attr>) -> (r: Result<TaggedDecl, ParseFailure>)
    requires
        node_fits(n@),
    ensures
        lift(r, |x: TaggedDecl| x@) == spec_tagged_decl(n@, attrs_view(attrs@)),
{
    let name = one_string(n, "type name")?;
    let name = ident_of_str(name)?;
    let variants = tagged_variants(n)?;
    Ok(TaggedDecl { name, variants, attrs })
}

/// An alias declaration: `alias "Name" "type"`.
pub open spec fn spec_alias_decl(n: DocNodeV, attrs: Seq<AttrV>) -> Result<AliasDeclV, ParseFailureV> {
    match spec_string_at(n, "type name"@, 0) {
        Err(e) => Err(e),
        Ok(s) => match spec_ident_of(s) {
            Err(e) => Err(e),
            Ok(name) => match spec_string_at(n, "type name"@, 1) {
                Err(e) => Err(e),
                Ok(alias_str) => match spec_tydent_of(alias_str) {
                    Err(e) => Err(e),
                    Ok(alias) => Ok(AliasDeclV { name, alias, attrs }),
                },
            },
        },
    }
}

fn alias_decl(n: &DocNode, attrs: Vec<Attr>) -> (r: Result<AliasDecl, ParseFailure>)
    requires
        node_fits(n@),
    ensures
        lift(r, |x: AliasDecl| x@) == spec_alias_decl(n@, attrs_view(attrs@)),
{
    let name = string_at(n, "type name", 0)?;
    let name = ident_of_str(name)?;
    let alias_str = string_at(n, "type name", 1)?;
    let alias = tydent_of(&alias_str)?;
    Ok(AliasDecl { name, alias, attrs })
}

/// The statements of a function: at most one `inputs` block, then at most
/// one `outputs` block; `ins`/`outs` hold the blocks read so far.
pub open spec fn spec_func_stmts(
    ns: Seq<DocNodeV>,
    i: int,
    ins: Option<Seq<TypedVarV>>,
    outs: Option<Seq<TypedVarV>>,
) -> Result<(Seq<TypedVarV>, Seq<TypedVarV>), ParseFailureV>
    decreases ns.len() - i,
{
    if i < 0 || i >= ns.len() {
        Ok((
            match ins { Some(v) => v, None => Seq::empty() },
            match outs { Some(v) => v, None => Seq::empty() },
        ))
    } else {
        let stmt = ns[i];
        if stmt.name == "inputs"@ {
            if ins is Some {
                Err(perr("duplicate input block"@, stmt.name_span, None))
            } else if outs is Some {
                Err(perr("It's confusing to declare inputs after outputs"@, stmt.name_span,
                    Some("Move this before the output block"@)))
            } else {
                match spec_no_args(stmt) {
                    Err(e) => Err(e),
                    Ok(_) => match spec_typed_vars(stmt) {
                        Err(e) => Err(e),
                        Ok(v) => spec_func_stmts(ns, i + 1, Some(v), outs),
                    },
                }
            }
        } else if stmt.name == "outputs"@ {
            if outs is Some {
                Err(perr("duplicate output block"@, stmt.name_span, None))
            } else {
                match spec_no_args(stmt) {
                    Err(e) => Err(e),
                    Ok(_) => match spec_typed_vars(stmt) {
                        Err(e) => Err(e),
                        Ok(v) => spec_func_stmts(ns, i + 1, ins, Some(v)),
                    },
                }
            }
        } else {
            Err(perr("I don't know what a '"@ + stmt.name + "' statement is"@, stmt.name_span, None))
        }
    }
}

/// A function declaration: `fn "name" { inputs {..} outputs {..} }`.
pub open spec fn spec_func_decl(n: DocNodeV, attrs: Seq<AttrV>) -> Result<FuncDeclV, ParseFailureV> {
    match spec_one_string(n, "function name"@) {
        Err(e) => Err(e),
        Ok(s) => match spec_ident_of(s) {
            Err(e) => Err(e),
            Ok(name) => match spec_func_stmts(child_nodes(n), 0, None, None) {
                Err(e) => Err(e),
                Ok((inputs, outputs)) => Ok(FuncDeclV { name, inputs, outputs, attrs }),
            },
        },
    }
}

/// The abstract form of a block read so far.
pub open spec fn block_state(seen: bool, v: Seq<TypedVar>) -> Option<Seq<TypedVarV>> {
    if seen { Some(vars_view(v)) } else { None }
}

fn func_decl(n: &DocNode, attrs: Vec<Attr>) -> (r: Result<FuncDecl, ParseFailure>)
    requires
        node_fits(n@),
    ensures
        lift(r, |x: FuncDecl| x@) == spec_func_decl(n@, attrs_view(attrs@)),
{
    let name = one_string(n, "function name")?;
    let name = ident_of_str(name)?;
    let ghost whole = spec_func_decl(n@, attrs_view(attrs@));
    assert(whole == match spec_func_stmts(child_nodes(n@), 0, None, None) {
        Err(e) => Err(e),
        Ok((ins, outs)) => Ok(FuncDeclV { name: name@, inputs: ins, outputs: outs, attrs: attrs_view(attrs@) }),
    });
    let mut inputs: Vec<TypedVar> = Vec::new();
    let mut outputs: Vec<TypedVar> = Vec::new();
    let mut in_seen = false;
    let mut out_seen = false;
    let ghost cs = child_nodes(n@);
    assert(vars_view(inputs@) =~= Seq::<TypedVarV>::empty());
    if let Some(d) = &n.children {
        proof {
            lemma_doc_view(*d);
            lemma_nodes_fit(d@.nodes, 0);
        }
        let mut i: usize = 0;
        while i < d.nodes.len()
            invariant
                i <= d.nodes@.len(),
                cs == d@.nodes,
                cs == child_nodes(n@),
                cs.len() == d.nodes@.len(),
                forall|j: int| 0 <= j < d.nodes@.len() ==> #[trigger] cs[j] == d.nodes@[j]@,
                forall|j: int| 0 <= j < cs.len() ==> node_fits(#[trigger] cs[j]),
                spec_func_stmts(cs, 0, None, None)
                    == spec_func_stmts(cs, i as int, block_state(in_seen, inputs@), block_state(out_seen, outputs@)),
                !in_seen ==> inputs@.len() == 0,
                !out_seen ==> outputs@.len() == 0,
                whole == spec_func_decl(n@, attrs_view(attrs@)),
                whole == match spec_func_stmts(child_nodes(n@), 0, None, None) {
                    Err(e) => Err(e),
                    Ok((ins, outs)) => Ok(FuncDeclV { name: name@, inputs: ins, outputs: outs, attrs: attrs_view(attrs@) }),
                },
            decreases d.nodes@.len() - i,
        {
            let stmt = &d.nodes[i];
            assert(cs[i as int] == stmt@);
            let ghost here = spec_func_stmts(cs, i as int, block_state(in_seen, inputs@), block_state(out_seen, outputs@));
            assert(stmt@.name == stmt.name@);
            if str_eq(stmt.name.as_str(), "inputs") {
                if in_seen {
                    return Err(mk_err_lit("duplicate input block", stmt.name_span, None));
                }
                if out_seen {
                    return Err(mk_err_lit("It's confusing to declare inputs after outputs", stmt.name_span,
                        Some("Move this before the output block")));
                }
                no_args(stmt)?;
                inputs = typed_vars(stmt)?;
                in_seen = true;
            } else if str_eq(stmt.name.as_str(), "outputs") {
                if out_seen {
                    return Err(mk_err_lit("duplicate output block", stmt.name_span, None));
                }
                no_args(stmt)?;
                outputs = typed_vars(stmt)?;
                out_seen = true;
            } else {
                let mut m = owned("I don't know what a '");
                push_str(&mut m, stmt.name.as_str());
                push_str(&mut m, "' statement is");
                return Err(mk_err(m, stmt.name_span, None));
            }
            i = i + 1;
        }
    }
    assert(vars_view(inputs@) =~= match block_state(in_seen, inputs@) { Some(v) => v, None => Seq::<TypedVarV>::empty() });
    assert(vars_view(outputs@) =~= match block_state(out_seen, outputs@) { Some(v) => v, None => Seq::<TypedVarV>::empty() });
    Ok(FuncDecl { name, inputs, outputs, attrs })
}

/// A parsed kdl-script program: its types and functions, by name, in order.
#[derive(Debug)]
pub struct ParsedProgram {
    /// The type definitions
    pub tys: LinkedHashMap<String, TyDecl>,
    /// The function definitions
    pub funcs: LinkedHashMap<String, FuncDecl>,
    /// Where builtin functions start in `funcs` (after all of the program's own)
    pub builtin_funcs_start: usize,
}

/// The abstract form of a [`ParsedProgram`].
pub struct ParsedProgramV {
    pub tys: Seq<(Seq<char>, TyDeclV)>,
    pub funcs: Seq<(Seq<char>, FuncDeclV)>,
    pub builtin_funcs_start: usize,
}

impl View for ParsedProgram {
    type V = ParsedProgramV;

    open spec fn view(&self) -> ParsedProgramV {
        ParsedProgramV {
            tys: ty_entries(self.tys),
            funcs: func_entries(self.funcs),
            builtin_funcs_start: self.builtin_funcs_start,
        }
    }
}

/// What reading a module has gathered so far.
pub struct ModState {
    pub tys: Seq<(Seq<char>, TyDeclV)>,
    pub funcs: Seq<(Seq<char>, FuncDeclV)>,
    /// Attributes waiting for the next item.
    pub attrs: Seq<AttrV>,
}

/// A top-level item.
pub enum ItemV {
    Func(FuncDeclV),
    Ty(TyDeclV),
}

/// A top-level item node (not an attribute).
pub open spec fn spec_item(n: DocNodeV, attrs: Seq<AttrV>) -> Result<ItemV, ParseFailureV>
    decreases n, 4int,
{
    if n.name == "fn"@ {
        match spec_func_decl(n, attrs) { Err(e) => Err(e), Ok(f) => Ok(ItemV::Func(f)) }
    } else if n.name == "struct"@ {
        match spec_struct_decl(n, attrs) { Err(e) => Err(e), Ok(d) => Ok(ItemV::Ty(TyDeclV::Struct(d))) }
    } else if n.name == "union"@ {
        match spec_struct_decl(n, attrs) { Err(e) => Err(e), Ok(d) => Ok(ItemV::Ty(TyDeclV::Union(d))) }
    } else if n.name == "enum"@ {
        match spec_enum_decl(n, attrs) { Err(e) => Err(e), Ok(d) => Ok(ItemV::Ty(TyDeclV::Enum(d))) }
    } else if n.name == "tagged"@ {
        match spec_tagged_decl(n, attrs) { Err(e) => Err(e), Ok(d) => Ok(ItemV::Ty(TyDeclV::Tagged(d))) }
    } else if n.name == "alias"@ {
        match spec_alias_decl(n, attrs) { Err(e) => Err(e), Ok(d) => Ok(ItemV::Ty(TyDeclV::Alias(d))) }
    } else if n.name == "pun"@ {
        match spec_pun_decl(n, attrs) { Err(e) => Err(e), Ok(d) => Ok(ItemV::Ty(TyDeclV::Pun(d))) }
    } else {
        Err(perr("I don't know what a '"@ + n.name + "' is"@, n.name_span, None))
    }
}

/// The message of the rejection of a second type of the same name.
pub open spec fn duplicate_msg() -> Seq<char> {
    "duplicate type def"@
}

/// Reads the nodes `ns[i..]` of a module, with `st` gathered so far.
pub open spec fn spec_module_from(ns: Seq<DocNodeV>, i: int, st: ModState) -> Result<ParsedProgramV, ParseFailureV>
    decreases ns, ns.len() - i,
{
    if i < 0 || i >= ns.len() {
        Ok(ParsedProgramV { tys: st.tys, funcs: st.funcs, builtin_funcs_start: st.funcs.len() as usize })
    } else {
        let n = ns[i];
        if n.name.len() > 0 && n.name[0] == '@' {
            match spec_attr(n) {
                Err(e) => Err(e),
                Ok(a) => spec_module_from(ns, i + 1, ModState { tys: st.tys, funcs: st.funcs, attrs: st.attrs.push(a) }),
            }
        } else {
            match spec_item(n, st.attrs) {
                Err(e) => Err(e),
                Ok(ItemV::Func(f)) => spec_module_from(ns, i + 1, ModState {
                    tys: st.tys,
                    funcs: spec_insert(st.funcs, f.name.text(), f),
                    attrs: Seq::empty(),
                }),
                Ok(ItemV::Ty(d)) => if key_index(st.tys, d.name().text()) is Some {
                    Err(ParseFailureV::Rejected(duplicate_msg()))
                } else {
                    spec_module_from(ns, i + 1, ModState {
                        tys: st.tys.push((d.name().text(), d)),
                        funcs: st.funcs,
                        attrs: Seq::empty(),
                    })
                },
            }
        }
    }
}

/// Reads a module: a whole program, or the body of a pun block.
pub open spec fn spec_module(d: DocV) -> Result<ParsedProgramV, ParseFailureV>
    decreases d, 2int,
{
    spec_module_from(d.nodes, 0, ModState { tys: Seq::empty(), funcs: Seq::empty(), attrs: Seq::empty() })
}

/// A pun declaration: `pun "Name" { lang "l".. {..} default {..} }`.
pub open spec fn spec_pun_decl(n: DocNodeV, attrs: Seq<AttrV>) -> Result<PunDeclV, ParseFailureV>
    decreases n, 3int,
{
    match spec_one_string(n, "type name"@) {
        Err(e) => Err(e),
        Ok(s) => match spec_ident_of(s) {
            Err(e) => Err(e),
            Ok(name) => match n.children {
                None => Ok(PunDeclV { name, blocks: Seq::empty(), attrs }),
                Some(d) => match spec_pun_items(d.nodes, 0, name, Seq::empty()) {
                    Err(e) => Err(e),
                    Ok(blocks) => Ok(PunDeclV { name, blocks, attrs }),
                },
            },
        },
    }
}

/// The selector for a `lang` block.
pub open spec fn lang_selector(langs: Seq<Spanned<Seq<char>>>) -> PunSelectorV {
    PunSelectorV::Any(langs.map_values(|l: Spanned<Seq<char>>| PunSelectorV::Lang(l)))
}

/// Reads the blocks `ns[i..]` of the pun `name`, after the blocks `acc`.
pub open spec fn spec_pun_items(ns: Seq<DocNodeV>, i: int, name: IdentV, acc: Seq<PunBlockV>) -> Result<Seq<PunBlockV>, ParseFailureV>
    decreases ns, ns.len() - i,
{
    if i < 0 || i >= ns.len() {
        Ok(acc)
    } else {
        let item = ns[i];
        if item.name == "lang"@ {
            match spec_string_list(item.entries) {
                Err(e) => Err(e),
                Ok(langs) => if langs.len() == 0 {
                    Err(perr("Hey I need a lang name (string) here!"@, after(item.name_span), None))
                } else {
                    match spec_pun_block(item, name) {
                        Err(e) => Err(e),
                        Ok(decl) => spec_pun_items(ns, i + 1, name, acc.push(PunBlockV { selector: lang_selector(langs), decl })),
                    }
                },
            }
        } else if item.name == "default"@ {
            match spec_no_args(item) {
                Err(e) => Err(e),
                Ok(_) => match spec_pun_block(item, name) {
                    Err(e) => Err(e),
                    Ok(decl) => spec_pun_items(ns, i + 1, name, acc.push(PunBlockV { selector: PunSelectorV::Default, decl })),
                },
            }
        } else {
            Err(perr("I don't know what a '"@ + item.name + "' is here"@, item.name_span, None))
        }
    }
}

/// Reads a pun block: a module that declares the punned type and nothing else.
pub open spec fn spec_pun_block(item: DocNodeV, name: IdentV) -> Result<TyDeclV, ParseFailureV>
    decreases item, 2int,
{
    match item.children {
        None => Err(perr("pun blocks need bodies"@, item.span, None)),
        Some(d) => match spec_module(d) {
            Err(e) => Err(e),
            Ok(defs) => if defs.funcs.len() > 0 {
                Err(perr("puns can't contain function decls"@, span_of(defs.funcs[0].1.name.val), None))
            } else {
                spec_pun_pick(defs.tys, 0, name, None, item.span)
            },
        },
    }
}

/// Picks the declaration of `name` among `tys[i..]`; any other name is an error.
pub open spec fn spec_pun_pick(
    tys: Seq<(Seq<char>, TyDeclV)>,
    i: int,
    name: IdentV,
    found: Option<TyDeclV>,
    span: Span,
) -> Result<TyDeclV, ParseFailureV>
    decreases tys.len() - i,
{
    if i < 0 || i >= tys.len() {
        match found {
            Some(d) => Ok(d),
            None => Err(perr("pun block failed to define the type it puns!"@, span, None)),
        }
    } else if tys[i].0 == name.text() {
        spec_pun_pick(tys, i + 1, name, Some(tys[i].1), span)
    } else {
        Err(perr("pun declared a type other than what it should have"@, span_of(tys[i].1.name().val), None))
    }
}

/// A top-level item.
#[derive(Debug)]
pub enum Item {
    Func(FuncDecl),
    Ty(TyDecl),
}

impl View for Item {
    type V = ItemV;

    open spec fn view(&self) -> ItemV {
        match self {
            Item::Func(f) => ItemV::Func(f@),
            Item::Ty(d) => ItemV::Ty(d@),
        }
    }
}

fn item(n: &DocNode, attrs: Vec<Attr>) -> (r: Result<Item, ParseFailure>)
    requires
        node_fits(n@),
    ensures
        lift(r, |x: Item| x@) == spec_item(n@, attrs_view(attrs@)),
    decreases n, 4int,
{
    let name = n.name.as_str();
    if str_eq(name, "fn") {
        Ok(Item::Func(func_decl(n, attrs)?))
    } else if str_eq(name, "struct") {
        Ok(Item::Ty(TyDecl::Struct(struct_decl(n, attrs)?)))
    } else if str_eq(name, "union") {
        Ok(Item::Ty(TyDecl::Union(union_decl(n, attrs)?)))
    } else if str_eq(name, "enum") {
        Ok(Item::Ty(TyDecl::Enum(enum_decl(n, attrs)?)))
    } else if str_eq(name, "tagged") {
        Ok(Item::Ty(TyDecl::Tagged(tagged_decl(n, attrs)?)))
    } else if str_eq(name, "alias") {
        Ok(Item::Ty(TyDecl::Alias(alias_decl(n, attrs)?)))
    } else if str_eq(name, "pun") {
        Ok(Item::Ty(TyDecl::Pun(pun_decl(n, attrs)?)))
    } else {
        let mut m = owned("I don't know what a '");
        push_str(&mut m, name);
        push_str(&mut m, "' is");
        Err(mk_err(m, n.name_span, None))
    }
}

fn pun_decl(n: &DocNode, attrs: Vec<Attr>) -> (r: Result<PunDecl, ParseFailure>)
    requires
        node_fits(n@),
    ensures
        lift(r, |x: PunDecl| x@) == spec_pun_decl(n@, attrs_view(attrs@)),
    decreases n, 3int,
{
    let name = one_string(n, "type name")?;
    let name = ident_of_str(name)?;
    match &n.children {
        None => {
            let blocks: Vec<PunBlock> = Vec::new();
            assert(blocks_view_from(blocks@, 0) =~= Seq::<PunBlockV>::empty());
            Ok(PunDecl { name, blocks, attrs })
        },
        Some(d) => {
            proof {
                lemma_nodes_view0(d.nodes@);
                assert(n@.children == Some(d@));
                assert(nodes_fit_from(d@.nodes, 0));
                lemma_nodes_fit(d@.nodes, 0);
                assert forall|j: int| 0 <= j < d.nodes@.len() implies node_fits(#[trigger] node_view(d.nodes@[j])) by {
                    assert(d@.nodes[j] == node_view(d.nodes@[j]));
                }
            }
            let acc: Vec<PunBlock> = Vec::new();
            assert(blocks_view_from(acc@, 0) =~= Seq::<PunBlockV>::empty());
            let blocks = pun_items(&d.nodes, 0, &name, acc)?;
            Ok(PunDecl { name, blocks, attrs })
        },
    }
}

/// The `lang` selectors for a list of language names.
fn lang_selectors(langs: &Vec<Spanned<String>>) -> (r: Vec<PunSelector>)
    ensures
        sels_view_from(r@, 0) == sstrs_view(langs@).map_values(|l: Spanned<Seq<char>>| PunSelectorV::Lang(l)),
{
    let mut r: Vec<PunSelector> = Vec::new();
    let mut i: usize = 0;
    while i < langs.len()
        invariant
            i <= langs@.len(),
            r@.len() == i,
            forall|j: int| 0 <= j < i ==> sel_view(#[trigger] r@[j]) == PunSelectorV::Lang(sstr_view(langs@[j])),
        decreases langs@.len() - i,
    {
        r.push(PunSelector::Lang(copy_sstr(&langs[i])));
        i = i + 1;
    }
    proof {
        lemma_sels_view0(r@);
        assert(sels_view_from(r@, 0) =~= sstrs_view(langs@).map_values(|l: Spanned<Seq<char>>| PunSelectorV::Lang(l)));
    }
    r
}

fn pun_items(ns: &Vec<DocNode>, i: usize, name: &Ident, acc: Vec<PunBlock>) -> (r: Result<Vec<PunBlock>, ParseFailure>)
    requires
        i <= ns@.len(),
        forall|j: int| 0 <= j < ns@.len() ==> node_fits(#[trigger] node_view(ns@[j])),
    ensures
        lift(r, |v: Vec<PunBlock>| blocks_view_from(v@, 0))
            == spec_pun_items(nodes_view_from(ns@, 0), i as int, name@, blocks_view_from(acc@, 0)),
    decreases ns, ns@.len() - i,
{
    proof { lemma_nodes_view0(ns@); }
    if i >= ns.len() {
        return Ok(acc);
    }
    proof { assert(decreases_to!(ns@ => ns@[i as int])); }
    let item = &ns[i];
    assert(nodes_view_from(ns@, 0)[i as int] == item@);
    assert(node_fits(node_view(ns@[i as int])));
    let mut acc = acc;
    if str_eq(item.name.as_str(), "lang") {
        let langs = string_list(item)?;
        if langs.len() == 0 {
            let at = item.name_span.offset + item.name_span.len;
            return Err(mk_err_lit("Hey I need a lang name (string) here!", Span { offset: at, len: 0 }, None));
        }
        let decl = pun_block(item, name)?;
        let sels = lang_selectors(&langs);
        let b = PunBlock { selector: PunSelector::Any(sels), decl };
        assert(b@ == PunBlockV { selector: lang_selector(sstrs_view(langs@)), decl: decl_view(b.decl) });
        proof { lemma_blocks_view_push(acc@, b); }
        acc.push(b);
        pun_items(ns, i + 1, name, acc)
    } else if str_eq(item.name.as_str(), "default") {
        no_args(item)?;
        let decl = pun_block(item, name)?;
        let b = PunBlock { selector: PunSelector::Default, decl };
        proof { lemma_blocks_view_push(acc@, b); }
        acc.push(b);
        pun_items(ns, i + 1, name, acc)
    } else {
        let mut m = owned("I don't know what a '");
        push_str(&mut m, item.name.as_str());
        push_str(&mut m, "' is here");
        Err(mk_err(m, item.name_span, None))
    }
}

fn pun_block(item: &DocNode, name: &Ident) -> (r: Result<TyDecl, ParseFailure>)
    requires
        node_fits(item@),
    ensures
        lift(r, |x: TyDecl| x@) == spec_pun_block(item@, name@),
    decreases item, 2int,
{
    match &item.children {
        None => Err(mk_err_lit("pun blocks need bodies", item.span, None)),
        Some(d) => {
            let defs = module(d)?;
            if func_map_len(&defs.funcs) > 0 {
                let fs = func_map_iter(&defs.funcs);
                return Err(mk_err_lit("puns can't contain function decls", Spanned::span(&fs[0].1.name.val), None));
            }
            let ghost tv = ty_entries(defs.tys);
            assert(spec_pun_block(item@, name@) == spec_pun_pick(tv, 0, name@, None, item.span));
            let mut tys = ty_map_into_vec(defs.tys);
            let mut found: Option<usize> = None;
            let mut k: usize = 0;
            while k < tys.len()
                invariant
                    k <= tys@.len(),
                    tys@.len() == tv.len(),
                    forall|j: int| 0 <= j < tys@.len() ==> ((#[trigger] tys@[j]).0@, tys@[j].1@) == tv[j],
                    found matches Some(f) ==> f < k,
                    spec_pun_block(item@, name@) == spec_pun_pick(tv, 0, name@, None, item.span),
                    spec_pun_pick(tv, 0, name@, None, item.span) == spec_pun_pick(tv, k as int, name@,
                        match found { Some(f) => Some(tv[f as int].1), None => None }, item.span),
                decreases tys@.len() - k,
            {
                assert(((tys@[k as int]).0@, tys@[k as int].1@) == tv[k as int]);
                if tys[k].0 == name.val.value {
                    found = Some(k);
                } else {
                    return Err(mk_err_lit("pun declared a type other than what it should have",
                        Spanned::span(&tys[k].1.name().val), None));
                }
                k = k + 1;
            }
            match found {
                Some(f) => {
                    let e = tys.remove(f);
                    Ok(e.1)
                },
                None => Err(mk_err_lit("pun block failed to define the type it puns!", item.span, None)),
            }
        },
    }
}

fn module(d: &Doc) -> (r: Result<ParsedProgram, ParseFailure>)
    requires
        doc_fits(d@),
    ensures
        lift(r, |p: ParsedProgram| p@) == spec_module(d@),
    decreases d, 2int,
{
    proof {
        lemma_nodes_view0(d.nodes@);
        lemma_nodes_fit(d@.nodes, 0);
        assert forall|j: int| 0 <= j < d.nodes@.len() implies node_fits(#[trigger] node_view(d.nodes@[j])) by {
            assert(d@.nodes[j] == node_view(d.nodes@[j]));
        }
    }
    let attrs: Vec<Attr> = Vec::new();
    assert(attrs_view(attrs@) =~= Seq::<AttrV>::empty());
    let tys = new_ty_map();
    let funcs = new_func_map();
    let r = module_from(&d.nodes, 0, tys, funcs, attrs);
    assert(spec_module(d@) == spec_module_from(nodes_view_from(d.nodes@, 0), 0,
        ModState { tys: ty_entries(tys), funcs: func_entries(funcs), attrs: attrs_view(attrs@) }));
    r
}

fn starts_with_at(s: &String) -> (r: bool)
    ensures
        r == (s@.len() > 0 && s@[0] == '@'),
{
    let t = s.as_str();
    t.unicode_len() > 0 && t.get_char(0) == '@'
}

fn module_from(
    ns: &Vec<DocNode>,
    i: usize,
    tys: LinkedHashMap<String, TyDecl>,
    funcs: LinkedHashMap<String, FuncDecl>,
    attrs: Vec<Attr>,
) -> (r: Result<ParsedProgram, ParseFailure>)
    requires
        i <= ns@.len(),
        forall|j: int| 0 <= j < ns@.len() ==> node_fits(#[trigger] node_view(ns@[j])),
    ensures
        lift(r, |p: ParsedProgram| p@) == spec_module_from(nodes_view_from(ns@, 0), i as int,
            ModState { tys: ty_entries(tys), funcs: func_entries(funcs), attrs: attrs_view(attrs@) }),
    decreases ns, ns@.len() - i,
{
    proof { lemma_nodes_view0(ns@); }
    if i >= ns.len() {
        let n = func_map_len(&funcs);
        return Ok(ParsedProgram { tys, funcs, builtin_funcs_start: n });
    }
    proof { assert(decreases_to!(ns@ => ns@[i as int])); }
    let n = &ns[i];
    assert(nodes_view_from(ns@, 0)[i as int] == n@);
    assert(node_fits(node_view(ns@[i as int])));
    let mut tys = tys;
    let mut funcs = funcs;
    let mut attrs = attrs;
    if starts_with_at(&n.name) {
        let a = attr(n)?;
        let ghost prev = attrs@;
        let ghost av = a@;
        attrs.push(a);
        assert(attrs_view(attrs@) =~= attrs_view(prev).push(av));
        module_from(ns, i + 1, tys, funcs, attrs)
    } else {
        let fresh: Vec<Attr> = Vec::new();
        assert(attrs_view(fresh@) =~= Seq::<AttrV>::empty());
        match item(n, attrs)? {
            Item::Func(f) => {
                let key = f.name.val.value.clone();
                func_map_insert(&mut funcs, key, f);
                module_from(ns, i + 1, tys, funcs, fresh)
            },
            Item::Ty(d) => {
                let key = d.name().val.value.clone();
                let prev = ty_map_insert(&mut tys, key, d);
                if prev.is_some() {
                    return Err(ParseFailure::Rejected(owned("duplicate type def")));
                }
                module_from(ns, i + 1, tys, funcs, fresh)
            },
        }
    }
}

/// Reads a kdl-script program from its KDL document.
///
/// A program that the language rejects outright (generic type arguments,
/// two types of one name) is not an input: see [`read_program`].
pub fn parse_kdl_script(doc: &Doc) -> (r: Result<ParsedProgram, KdlScriptParseError>)
    requires
        doc_fits(doc@),
        !(spec_module(doc@) matches Err(ParseFailureV::Rejected(_))),
    ensures
        match r {
            Ok(p) => spec_module(doc@) == Ok::<ParsedProgramV, ParseFailureV>(p@),
            Err(e) => spec_module(doc@) == Err::<ParsedProgramV, ParseFailureV>(ParseFailureV::Error(e@)),
        },
{
    match module(doc) {
        Ok(p) => Ok(p),
        Err(ParseFailure::Error(e)) => Err(e),
        Err(ParseFailure::Rejected(_)) => {
            proof { assert(false); }
            Err(KdlScriptParseError { message: String::new(), span: Span { offset: 0, len: 0 }, help: None })
        },
    }
}

/// Reads a kdl-script program from its KDL document, reporting programs the
/// language rejects outright as [`ParseFailure::Rejected`].
pub fn read_program(doc: &Doc) -> (r: Result<ParsedProgram, ParseFailure>)
    requires
        doc_fits(doc@),
    ensures
        lift(r, |p: ParsedProgram| p@) == spec_module(doc@),
{
    module(doc)
}
} // verus!
