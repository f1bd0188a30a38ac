//! The kdl-script front end: KDL text to a typed program.

use vstd::prelude::*;
use crate::spanned::Span;
use crate::kdl_doc::{Doc, DocNode, DocV, DocNodeV, KdlSyntaxError, KdlSyntaxErrorV, nodes_view_from, node_view,
    lemma_nodes_view0};
use crate::kdl_text::{parse_kdl_document, kdl_parse};
use crate::ast::{KdlScriptParseError, ParseErrorV};
use crate::parse::{read_program, spec_module, doc_fits, node_fits, nodes_fit_from, span_fits, ParseFailure,
    ParseFailureV};
use crate::types::{typeck, spec_typeck, TypedProgram, TypedProgramV, KdlScriptTypeError, TypeErrV};

verus! {

/// Why a kdl-script program could not be compiled.
#[derive(Debug)]
pub enum KdlScriptError {
    /// The text is not valid KDL.
    Kdl(KdlSyntaxError),
    /// The document does not form a kdl-script program.
    Parse(KdlScriptParseError),
    /// The program's types do not check.
    Type(KdlScriptTypeError),
    /// The program uses what the language rejects outright (generic type
    /// arguments, two types of one name).
    Rejected(String),
    /// A position in the document lies past the largest machine word.
    SpanOverflow,
}

/// The abstract form of a [`KdlScriptError`].
pub enum KdlScriptErrorV {
    Kdl(KdlSyntaxErrorV),
    Parse(ParseErrorV),
    Type(TypeErrV),
    Rejected(Seq<char>),
    SpanOverflow,
}

impl View for KdlScriptError {
    type V = KdlScriptErrorV;

    open spec fn view(&self) -> KdlScriptErrorV {
        match self {
            KdlScriptError::Kdl(e) => KdlScriptErrorV::Kdl(e@),
            KdlScriptError::Parse(e) => KdlScriptErrorV::Parse(e@),
            KdlScriptError::Type(e) => KdlScriptErrorV::Type(e@),
            KdlScriptError::Rejected(m) => KdlScriptErrorV::Rejected(m@),
            KdlScriptError::SpanOverflow => KdlScriptErrorV::SpanOverflow,
        }
    }
}

/// Compiles a KDL document: reads the program, then checks its types.
pub open spec fn spec_compile_doc(d: DocV) -> Result<TypedProgramV, KdlScriptErrorV> {
    match spec_module(d) {
        Err(ParseFailureV::Error(e)) => Err(KdlScriptErrorV::Parse(e)),
        Err(ParseFailureV::Rejected(m)) => Err(KdlScriptErrorV::Rejected(m)),
        Ok(p) => match spec_typeck(p) {
            Err(e) => Err(KdlScriptErrorV::Type(e)),
            Ok(t) => Ok(t),
        },
    }
}

/// Compiles kdl-script source text, given what the `kdl` crate reads from it.
pub open spec fn spec_compile(kdl: Result<DocV, KdlSyntaxErrorV>) -> Result<TypedProgramV, KdlScriptErrorV> {
    match kdl {
        Err(e) => Err(KdlScriptErrorV::Kdl(e)),
        Ok(d) => if doc_fits(d) { spec_compile_doc(d) } else { Err(KdlScriptErrorV::SpanOverflow) },
    }
}

fn span_ok(s: Span) -> (r: bool)
    ensures
        r == span_fits(s),
{
    s.offset <= usize::MAX - s.len
}

/// Whether the spans of a node add up within a machine word.
fn node_ok(n: &DocNode) -> (r: bool)
    ensures
        r == node_fits(n@),
    decreases n, 1int,
{
    if !span_ok(n.name_span) {
        return false;
    }
    let mut i: usize = 0;
    while i < n.entries.len()
        invariant
            i <= n.entries@.len(),
            n@.entries == n.entries@.map_values(|e: crate::kdl_doc::DocEntry| e@),
            forall|j: int| 0 <= j < i ==> span_fits(#[trigger] n@.entries[j].span),
        decreases n.entries@.len() - i,
    {
        assert(n@.entries[i as int] == n.entries@[i as int]@);
        if !span_ok(n.entries[i].span) {
            assert(!span_fits(n@.entries[i as int].span));
            assert(!node_fits(n@));
            return false;
        }
        i = i + 1;
    }
    match &n.children {
        None => true,
        Some(d) => {
            proof { lemma_nodes_view0(d.nodes@); }
            nodes_ok(&d.nodes, 0)
        },
    }
}

/// Whether the spans of the nodes `ns[i..]` add up within a machine word.
fn nodes_ok(ns: &Vec<DocNode>, i: usize) -> (r: bool)
    requires
        i <= ns@.len(),
    ensures
        r == nodes_fit_from(nodes_view_from(ns@, 0), i as int),
    decreases ns, ns@.len() - i,
{
    proof { lemma_nodes_view0(ns@); }
    if i >= ns.len() {
        return true;
    }
    proof { assert(decreases_to!(ns@ => ns@[i as int])); }
    assert(nodes_view_from(ns@, 0)[i as int] == node_view(ns@[i as int]));
    if !node_ok(&ns[i]) {
        return false;
    }
    nodes_ok(ns, i + 1)
}

/// Compiles a KDL document whose spans add up within a machine word.
pub fn compile_doc(doc: &Doc) -> (r: Result<TypedProgram, KdlScriptError>)
    requires
        doc_fits(doc@),
    ensures
        match r {
            Ok(p) => spec_compile_doc(doc@) == Ok::<TypedProgramV, KdlScriptErrorV>(p@),
            Err(e) => spec_compile_doc(doc@) == Err::<TypedProgramV, KdlScriptErrorV>(e@),
        },
{
    match read_program(doc) {
        Err(ParseFailure::Error(e)) => Err(KdlScriptError::Parse(e)),
        Err(ParseFailure::Rejected(m)) => Err(KdlScriptError::Rejected(m)),
        Ok(p) => match typeck(&p) {
            Err(e) => Err(KdlScriptError::Type(e)),
            Ok(t) => Ok(t),
        },
    }
}

/// Compiles kdl-script programs.
#[derive(Debug)]
pub struct Compiler {
    /// The name of the last source compiled.
    pub source_name: Option<String>,
}

impl Compiler {
    /// A compiler that has compiled nothing yet.
    pub fn new() -> (c: Compiler)
        ensures
            c.source_name is None,
    {
        Compiler { source_name: None }
    }

    /// Compiles the source text `src`, known as `src_path`.
    pub fn compile_string(&mut self, src_path: &str, src: String) -> (r: Result<TypedProgram, KdlScriptError>)
        ensures
            final(self).source_name matches Some(n) && n@ == src_path@,
            match r {
                Ok(p) => spec_compile(kdl_parse(src@)) == Ok::<TypedProgramV, KdlScriptErrorV>(p@),
                Err(e) => spec_compile(kdl_parse(src@)) == Err::<TypedProgramV, KdlScriptErrorV>(e@),
            },
    {
        self.source_name = Some(crate::text::owned(src_path));
        match parse_kdl_document(src.as_str()) {
            Err(e) => Err(KdlScriptError::Kdl(e)),
            Ok(doc) => {
                proof { lemma_nodes_view0(doc.nodes@); }
                if nodes_ok(&doc.nodes, 0) {
                    compile_doc(&doc)
                } else {
                    Err(KdlScriptError::SpanOverflow)
                }
            },
        }
    }
}

} // verus!
