//! Reading KDL text, through the `kdl` crate.

use vstd::prelude::*;
use crate::spanned::Span;
use crate::kdl_doc::{Doc, DocNode, DocEntry, DocValue, KdlSyntaxError, kdl_result_view, DocV, KdlSyntaxErrorV};

verus! {

#[verifier::external_type_specification]
#[verifier::external_body]
pub struct ExKdlDocument(kdl::KdlDocument);

#[verifier::external_type_specification]
#[verifier::external_body]
pub struct ExKdlNode(kdl::KdlNode);

#[verifier::external_type_specification]
#[verifier::external_body]
pub struct ExKdlEntry(kdl::KdlEntry);

#[verifier::external_type_specification]
#[verifier::external_body]
pub struct ExKdlValue(kdl::KdlValue);

#[verifier::external_type_specification]
#[verifier::external_body]
pub struct ExSourceSpan(miette::SourceSpan);

/// What the `kdl` crate reads from the text `src`: the document, or the
/// syntax error it reports.
pub uninterp spec fn kdl_parse(src: Seq<char>) -> Result<DocV, KdlSyntaxErrorV>;

/// Reads KDL text.
///
/// Trusted: calls `<kdl::KdlDocument as FromStr>::from_str` and copies the
/// document it returns (or the error's message, span and help) into this
/// library's own types. The result is a function of the text alone.
#[verifier::external_body]
pub(crate) fn parse_kdl_document(src: &str) -> (r: Result<Doc, KdlSyntaxError>)
    ensures
        kdl_result_view(r) == kdl_parse(src@),
{
    match src.parse::<kdl::KdlDocument>() {
        Ok(doc) => Ok(copy_document(&doc)),
        Err(e) => Err(KdlSyntaxError {
            message: e.to_string(),
            span: copy_span(&e.span),
            help: e.help.map(|h| h.to_string()),
        }),
    }
}

/// Copies a `kdl::KdlDocument` (nodes and span) into a [`Doc`].
///
/// Trusted: reads `KdlDocument::nodes` and `KdlDocument::span`; nothing is
/// stated of the copy.
#[verifier::external_body]
fn copy_document(doc: &kdl::KdlDocument) -> Doc {
    Doc { nodes: doc.nodes().iter().map(copy_node).collect(), span: copy_span(doc.span()) }
}

/// Copies a `kdl::KdlNode` (name, spans, entries, children) into a [`DocNode`].
///
/// Trusted: reads the accessors of `KdlNode` and `KdlIdentifier`; nothing is
/// stated of the copy.
#[verifier::external_body]
fn copy_node(node: &kdl::KdlNode) -> DocNode {
    DocNode {
        name: node.name().value().to_string(),
        name_span: copy_span(node.name().span()),
        span: copy_span(node.span()),
        entries: node.entries().iter().map(copy_entry).collect(),
        children: node.children().map(copy_document),
    }
}

/// Copies a `kdl::KdlEntry` (property name, value, span) into a [`DocEntry`].
///
/// Trusted: reads `KdlEntry::name`, `KdlEntry::value`, `KdlEntry::span`;
/// nothing is stated of the copy.
#[verifier::external_body]
fn copy_entry(entry: &kdl::KdlEntry) -> DocEntry {
    DocEntry {
        name: entry.name().map(|n| n.value().to_string()),
        value: copy_value(entry.value()),
        span: copy_span(entry.span()),
    }
}

/// Copies a `kdl::KdlValue` variant by variant (a float's value is dropped).
///
/// Trusted: one match arm per variant of `kdl::KdlValue`; nothing is stated
/// of the copy.
#[verifier::external_body]
fn copy_value(value: &kdl::KdlValue) -> DocValue {
    match value {
        kdl::KdlValue::RawString(s) => DocValue::RawString(s.clone()),
        kdl::KdlValue::String(s) => DocValue::String(s.clone()),
        kdl::KdlValue::Base2(i) => DocValue::Base2(*i),
        kdl::KdlValue::Base8(i) => DocValue::Base8(*i),
        kdl::KdlValue::Base10(i) => DocValue::Base10(*i),
        kdl::KdlValue::Base10Float(_) => DocValue::Base10Float,
        kdl::KdlValue::Base16(i) => DocValue::Base16(*i),
        kdl::KdlValue::Bool(b) => DocValue::Bool(*b),
        kdl::KdlValue::Null => DocValue::Null,
    }
}

/// Copies a `miette::Span` (offset and length).
///
/// Trusted: reads `Span::offset` and `Span::len`; nothing is
/// stated of the copy.
#[verifier::external_body]
fn copy_span(span: &miette::SourceSpan) -> Span {
    Span { offset: span.offset(), len: span.len() }
}

} // verus!
