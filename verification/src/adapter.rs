//! The document adapter: the only place where the outside document-parsing
//! library is touched. Everything here is trusted; the rest of the crate sees
//! documents only as [`XmlNode`] trees.

use crate::xml::{XmlAttribute, XmlElement, XmlNode};
use vstd::prelude::*;

verus! {

#[verifier::external_type_specification]
#[verifier::external_body]
pub struct ExElement<'d>(sxd_document::dom::Element<'d>);

#[verifier::external_type_specification]
#[verifier::external_body]
pub struct ExChildOfElement<'d>(sxd_document::dom::ChildOfElement<'d>);

#[verifier::external_type_specification]
#[verifier::external_body]
pub struct ExChildOfRoot<'d>(sxd_document::dom::ChildOfRoot<'d>);

/// What the document library parses a text into, reflected as this crate's
/// node tree: the document's top-level nodes in order, or `None` where the
/// text is not a well-formed document. The result is a function of the text
/// alone.
pub uninterp spec fn parsed_document(text: Seq<char>) -> Option<Seq<XmlNode>>;

/// Relies on sxd_document::parser::parse: it turns a well-formed document
/// into a node tree and rejects anything else. The tree's top-level nodes
/// come back converted, in document order.
#[verifier::external_body]
pub(crate) fn parse_document_nodes(text: &str) -> (r: Option<Vec<XmlNode>>)
    ensures
        match r {
            Some(nodes) => parsed_document(text@) == Some(nodes@),
            None => parsed_document(text@) is None,
        },
{
    match sxd_document::parser::parse(text) {
        Err(_) => None,
        Ok(package) => {
            let mut nodes: Vec<XmlNode> = Vec::new();
            for child in package.as_document().root().children() {
                nodes.push(convert_root_child(child));
            }
            Some(nodes)
        },
    }
}

/// Relies on sxd_document::dom::ChildOfRoot: a top-level node is an element,
/// a comment or a processing instruction; each is moved into the matching
/// node of this crate.
#[verifier::external_body]
fn convert_root_child(child: sxd_document::dom::ChildOfRoot<'_>) -> XmlNode {
    match child {
        sxd_document::dom::ChildOfRoot::Element(e) => XmlNode::Element(convert_element(e)),
        sxd_document::dom::ChildOfRoot::Comment(_) => XmlNode::Other,
        sxd_document::dom::ChildOfRoot::ProcessingInstruction(_) => XmlNode::Other,
    }
}

/// Relies on sxd_document::dom::Element: its local name, attributes and
/// children are copied out one for one, in document order.
#[verifier::external_body]
fn convert_element(el: sxd_document::dom::Element<'_>) -> XmlElement {
    let name = el.name().local_part().to_string();
    let mut attributes: Vec<XmlAttribute> = Vec::new();
    for a in el.attributes() {
        let name = a.name().local_part().to_string();
        attributes.push(XmlAttribute { name, value: a.value().to_string() });
    }
    let mut children: Vec<XmlNode> = Vec::new();
    for c in el.children() {
        children.push(convert_child(c));
    }
    XmlElement { name, attributes, children }
}

/// Relies on sxd_document::dom::ChildOfElement: a child node is an element,
/// a text node, a comment or a processing instruction; each is moved into the
/// matching node of this crate.
#[verifier::external_body]
fn convert_child(child: sxd_document::dom::ChildOfElement<'_>) -> XmlNode {
    match child {
        sxd_document::dom::ChildOfElement::Element(e) => XmlNode::Element(convert_element(e)),
        sxd_document::dom::ChildOfElement::Text(t) => XmlNode::Text(t.text().to_string()),
        sxd_document::dom::ChildOfElement::Comment(_) => XmlNode::Other,
        sxd_document::dom::ChildOfElement::ProcessingInstruction(_) => XmlNode::Other,
    }
}

/// Relies on str's PartialEq: two string slices are equal exactly when their
/// character sequences are.
#[verifier::external_body]
pub(crate) fn str_eq(a: &str, b: &str) -> (r: bool)
    ensures
        r == (a@ == b@),
{
    a == b
}

} // verus!
