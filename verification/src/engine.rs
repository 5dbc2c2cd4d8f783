//! The boundary to the external XML engine.  Parsing and serialization are
//! performed by the `xmltree` crate; everything here that carries a contract
//! is trusted, and the rest of the crate is verified against those contracts.
//!
//! The engine's tree building and the converters below recurse on element
//! nesting depth, so a pathologically nested document can exhaust the
//! stack; the contracts say nothing about resource exhaustion.

use vstd::prelude::*;

use crate::model::{canon, parsed_form, round_trippable};
use crate::tree::{ElemModel, XmlElement, XmlNode};

verus! {

#[verifier::external_type_specification]
#[verifier::external_body]
pub struct ExParseError(xmltree::ParseError);

#[verifier::external_type_specification]
#[verifier::external_body]
pub struct ExTreeElement(xmltree::Element);

#[verifier::external_type_specification]
#[verifier::external_body]
pub struct ExTreeNode(xmltree::XMLNode);

/// The tree that the XML engine reads a given string into, if the string is
/// well-formed.  Parsing is a function of the input text alone.
pub uninterp spec fn spec_parse(s: Seq<char>) -> Option<ElemModel>;

/// The document text that the XML engine writes a given tree as.  Writing is
/// a function of the tree alone.
pub uninterp spec fn spec_ser(e: ElemModel) -> Seq<char>;

/// Carries an engine node into the library's tree, field for field.
#[verifier::external_body]
fn from_node(n: xmltree::XMLNode) -> XmlNode {
    match n {
        xmltree::XMLNode::Element(e) => XmlNode::Element(from_tree(e)),
        xmltree::XMLNode::Text(t) => XmlNode::Text(t),
        xmltree::XMLNode::Comment(c) => XmlNode::Comment(c),
        xmltree::XMLNode::CData(c) => XmlNode::CData(c),
        xmltree::XMLNode::ProcessingInstruction(p, d) => XmlNode::ProcessingInstruction(p, d),
    }
}

/// Carries an engine element into the library's tree, field for field.
#[verifier::external_body]
fn from_tree(e: xmltree::Element) -> XmlElement {
    XmlElement {
        name: e.name,
        prefix: e.prefix,
        attributes: e.attributes.into_iter().collect(),
        namespaces: e.namespaces.map_or(Vec::new(), |ns| ns.0.into_iter().collect()),
        children: e.children.into_iter().map(from_node).collect(),
    }
}

/// Rebuilds an engine node from the library's tree, field for field.
#[verifier::external_body]
fn to_node(n: &XmlNode) -> xmltree::XMLNode {
    match n {
        XmlNode::Element(e) => xmltree::XMLNode::Element(to_tree(e)),
        XmlNode::Text(t) => xmltree::XMLNode::Text(t.clone()),
        XmlNode::Comment(c) => xmltree::XMLNode::Comment(c.clone()),
        XmlNode::CData(c) => xmltree::XMLNode::CData(c.clone()),
        XmlNode::ProcessingInstruction(p, d) => {
            xmltree::XMLNode::ProcessingInstruction(p.clone(), d.clone())
        },
    }
}

/// Rebuilds an engine element from the library's tree, field for field.
#[verifier::external_body]
fn to_tree(e: &XmlElement) -> xmltree::Element {
    xmltree::Element {
        name: e.name.clone(),
        prefix: e.prefix.clone(),
        namespace: None,
        namespaces: Some(xmltree::Namespace(e.namespaces.iter().cloned().collect())),
        attributes: e.attributes.iter().cloned().collect(),
        children: e.children.iter().map(to_node).collect(),
    }
}

/// Relies on xmltree::Element::parse: it reads a string into an element tree
/// deterministically, and returns an error exactly on text it cannot read.
/// Every tree it returns is reader-shaped: the reader admits only plain
/// name characters in names, prefixes and attribute keys, records each
/// attribute under its local name once, normalizes line endings before
/// CDATA is captured, and ends CDATA at its terminator.
#[verifier::external_body]
pub(crate) fn parse_xml(s: &str) -> (r: Result<XmlElement, xmltree::ParseError>)
    ensures
        match r {
            Ok(e) => spec_parse(s@) == Option::Some(e@) && parsed_form(e@),
            Err(_) => spec_parse(s@) is None,
        },
{
    xmltree::Element::parse(s.as_bytes()).map(from_tree)
}

/// Relies on xmltree::Element::write: it writes the tree as one XML document
/// deterministically, escaping markup in text and attribute values, so that
/// a faithful tree read back from the document matches the canonical form of
/// the tree that was written.  Writing into an in-memory buffer always
/// succeeds and always yields UTF-8: the writer's only error paths are
/// I/O failures, which a byte buffer never raises, and unbalanced or
/// mismatched element events, which a tree walk never produces.
///
/// The read-back clause is deliberately conditional on wire-faithfulness.
/// A parsed tree that falls outside it — through a carriage return or tab
/// entered by character reference, an unpadded comment, or a processing
/// instruction — still writes out faithfully, but the reader normalizes
/// such content on the way back (line endings, attribute whitespace,
/// comment padding); stating equality up to those normalizations would
/// mean modelling them here, and this contract leaves them unstated
/// rather than claim them loosely.
#[verifier::external_body]
pub(crate) fn write_xml(e: &XmlElement) -> (out: String)
    ensures
        out@ == spec_ser(e@),
        round_trippable(e@) ==> (spec_parse(out@) matches Option::Some(w) ==> canon(w) == canon(
            e@,
        )),
{
    let mut out: Vec<u8> = Vec::new();
    to_tree(e).write(&mut out).expect("writing into a byte buffer cannot fail");
    String::from_utf8(out).expect("the XML writer emits UTF-8")
}

/// Relies on str's equality: two strings are equal exactly when their
/// character sequences are.
#[verifier::external_body]
pub(crate) fn str_eq(a: &str, b: &str) -> (r: bool)
    ensures
        r == (a@ == b@),
{
    a == b
}

} // verus!
