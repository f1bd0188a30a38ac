//! The KDL document model that the kdl-script front end reads.

use vstd::prelude::*;
use crate::spanned::Span;

verus! {

/// A KDL value.
#[derive(Debug)]
pub enum DocValue {
    RawString(String),
    String(String),
    Base2(i64),
    Base8(i64),
    Base10(i64),
    /// A decimal fraction; its numeric value is not carried.
    Base10Float,
    Base16(i64),
    Bool(bool),
    Null,
}

/// The abstract form of a [`DocValue`].
pub enum DocValueV {
    RawString(Seq<char>),
    String(Seq<char>),
    Base2(i64),
    Base8(i64),
    Base10(i64),
    Base10Float,
    Base16(i64),
    Bool(bool),
    Null,
}

impl View for DocValue {
    type V = DocValueV;

    open spec fn view(&self) -> DocValueV {
        match self {
            DocValue::RawString(s) => DocValueV::RawString(s@),
            DocValue::String(s) => DocValueV::String(s@),
            DocValue::Base2(i) => DocValueV::Base2(*i),
            DocValue::Base8(i) => DocValueV::Base8(*i),
            DocValue::Base10(i) => DocValueV::Base10(*i),
            DocValue::Base10Float => DocValueV::Base10Float,
            DocValue::Base16(i) => DocValueV::Base16(*i),
            DocValue::Bool(b) => DocValueV::Bool(*b),
            DocValue::Null => DocValueV::Null,
        }
    }
}

/// An argument or property of a node.
#[derive(Debug)]
pub struct DocEntry {
    /// The property name, for `name=value` entries.
    pub name: Option<String>,
    pub value: DocValue,
    pub span: Span,
}

pub struct DocEntryV {
    pub name: Option<Seq<char>>,
    pub value: DocValueV,
    pub span: Span,
}

impl View for DocEntry {
    type V = DocEntryV;

    open spec fn view(&self) -> DocEntryV {
        DocEntryV {
            name: match self.name { Some(n) => Some(n@), None => None },
            value: self.value@,
            span: self.span,
        }
    }
}

/// A node: a name, entries, and an optional block of children.
#[derive(Debug)]
pub struct DocNode {
    pub name: String,
    pub name_span: Span,
    pub span: Span,
    pub entries: Vec<DocEntry>,
    pub children: Option<Doc>,
}

pub struct DocNodeV {
    pub name: Seq<char>,
    pub name_span: Span,
    pub span: Span,
    pub entries: Seq<DocEntryV>,
    pub children: Option<DocV>,
}

/// A sequence of nodes.
#[derive(Debug)]
pub struct Doc {
    pub nodes: Vec<DocNode>,
    pub span: Span,
}

pub struct DocV {
    pub nodes: Seq<DocNodeV>,
    pub span: Span,
}

/// The abstract form of a node.
pub open spec fn node_view(n: DocNode) -> DocNodeV
    decreases n, 0int,
{
    DocNodeV {
        name: n.name@,
        name_span: n.name_span,
        span: n.span,
        entries: n.entries@.map_values(|e: DocEntry| e@),
        children: match n.children {
            Some(d) => Some(doc_view(d)),
            None => None,
        },
    }
}

/// The abstract form of a document.
pub open spec fn doc_view(d: Doc) -> DocV
    decreases d, 0int,
{
    DocV { nodes: nodes_view_from(d.nodes@, 0), span: d.span }
}

/// The abstract forms of `ns[i..]`.
pub open spec fn nodes_view_from(ns: Seq<DocNode>, i: int) -> Seq<DocNodeV>
    decreases ns, ns.len() - i,
{
    if 0 <= i < ns.len() {
        seq![node_view(ns[i])] + nodes_view_from(ns, i + 1)
    } else {
        seq![]
    }
}

impl View for DocNode {
    type V = DocNodeV;

    open spec fn view(&self) -> DocNodeV {
        node_view(*self)
    }
}

impl View for Doc {
    type V = DocV;

    open spec fn view(&self) -> DocV {
        doc_view(*self)
    }
}

} // verus!

verus! {

/// A syntax error in KDL text.
#[derive(Debug)]
pub struct KdlSyntaxError {
    pub message: String,
    pub span: Span,
    pub help: Option<String>,
}

pub struct KdlSyntaxErrorV {
    pub message: Seq<char>,
    pub span: Span,
    pub help: Option<Seq<char>>,
}

impl View for KdlSyntaxError {
    type V = KdlSyntaxErrorV;

    open spec fn view(&self) -> KdlSyntaxErrorV {
        KdlSyntaxErrorV {
            message: self.message@,
            span: self.span,
            help: match self.help { Some(h) => Some(h@), None => None },
        }
    }
}

/// The abstract form of the outcome of reading KDL text.
pub open spec fn kdl_result_view(r: Result<Doc, KdlSyntaxError>) -> Result<DocV, KdlSyntaxErrorV> {
    match r {
        Ok(d) => Ok(d@),
        Err(e) => Err(e@),
    }
}

/// `i`-th node of a document's abstract form is the abstract form of its `i`-th node.
pub proof fn lemma_nodes_view(ns: Seq<DocNode>, i: int)
    requires
        0 <= i <= ns.len(),
    ensures
        nodes_view_from(ns, i).len() == ns.len() - i,
        forall|j: int| 0 <= j < ns.len() - i ==> #[trigger] nodes_view_from(ns, i)[j] == node_view(ns[i + j]),
    decreases ns.len() - i,
{
    if i < ns.len() {
        lemma_nodes_view(ns, i + 1);
        assert forall|j: int| 0 <= j < ns.len() - i implies #[trigger] nodes_view_from(ns, i)[j] == node_view(ns[i + j]) by {
            if j > 0 {
                assert(nodes_view_from(ns, i)[j] == nodes_view_from(ns, i + 1)[j - 1]);
            }
        }
    }
}

/// The nodes of a document's abstract form, by index.
pub proof fn lemma_doc_view(d: Doc)
    ensures
        d@.nodes.len() == d.nodes@.len(),
        forall|j: int| 0 <= j < d.nodes@.len() ==> #[trigger] d@.nodes[j] == d.nodes@[j]@,
{
    lemma_nodes_view(d.nodes@, 0);
    assert forall|j: int| 0 <= j < d.nodes@.len() implies #[trigger] d@.nodes[j] == d.nodes@[j]@ by {
        assert(d.nodes@[0 + j] == d.nodes@[j]);
    }
}


/// The abstract forms of a list of nodes, by index.
pub proof fn lemma_nodes_view0(ns: Seq<DocNode>)
    ensures
        nodes_view_from(ns, 0).len() == ns.len(),
        forall|j: int| 0 <= j < ns.len() ==> #[trigger] nodes_view_from(ns, 0)[j] == node_view(ns[j]),
{
    lemma_nodes_view(ns, 0);
    assert forall|j: int| 0 <= j < ns.len() implies #[trigger] nodes_view_from(ns, 0)[j] == node_view(ns[j]) by {
        assert(ns[0 + j] == ns[j]);
    }
}
} // verus!
