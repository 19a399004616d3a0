//! The document tree that the builder works on: elements with local names,
//! attributes and ordered children, plus the traversal helpers shared by the
//! builder.

use vstd::prelude::*;

verus! {

/// One attribute of an element: local name and value.
#[derive(Debug, Clone, PartialEq, Eq)]
pub struct XmlAttribute {
    pub name: String,
    pub value: String,
}

/// One node of the document tree. `Other` stands for the node kinds the
/// builder never reads (comments, processing instructions).
#[derive(Debug, PartialEq, Eq)]
pub enum XmlNode {
    Element(XmlElement),
    Text(String),
    Other,
}

/// An element: local name, attributes and children, all in document order.
#[derive(Debug, PartialEq, Eq)]
pub struct XmlElement {
    pub name: String,
    pub attributes: Vec<XmlAttribute>,
    pub children: Vec<XmlNode>,
}

/// Value of the first attribute at or after `from` whose name is `name`.
pub open spec fn spec_attr_from(attrs: Seq<XmlAttribute>, name: Seq<char>, from: int) -> Option<
    Seq<char>,
>
    decreases attrs.len() - from,
{
    if from < 0 || from >= attrs.len() {
        None
    } else if attrs[from].name@ == name {
        Some(attrs[from].value@)
    } else {
        spec_attr_from(attrs, name, from + 1)
    }
}

/// Value of the first attribute named `name`, if any.
pub open spec fn spec_attr(attrs: Seq<XmlAttribute>, name: Seq<char>) -> Option<Seq<char>> {
    spec_attr_from(attrs, name, 0)
}

/// Does `node` satisfy the search: an element, named `name` when one is asked for?
pub open spec fn node_is_element_named(node: XmlNode, name: Option<Seq<char>>) -> bool {
    &&& node is Element
    &&& (name matches Some(n) ==> node->Element_0.name@ == n)
}

/// Index of the first node at or after `from` that is an element and, when
/// `name` is given, carries that local name.
pub open spec fn spec_find_element_from(
    nodes: Seq<XmlNode>,
    name: Option<Seq<char>>,
    from: int,
) -> Option<int>
    decreases nodes.len() - from,
{
    if from < 0 || from >= nodes.len() {
        None
    } else if node_is_element_named(nodes[from], name) {
        Some(from)
    } else {
        spec_find_element_from(nodes, name, from + 1)
    }
}

/// A found index lies in range, points at an element of the requested name,
/// and nothing before it (from `from` on) matched.
pub proof fn lemma_find_element_from(nodes: Seq<XmlNode>, name: Option<Seq<char>>, from: int)
    requires
        spec_find_element_from(nodes, name, from) is Some,
    ensures
        ({
            let i = spec_find_element_from(nodes, name, from)->Some_0;
            &&& from <= i < nodes.len()
            &&& node_is_element_named(nodes[i], name)
            &&& forall|j: int| from <= j < i ==> !node_is_element_named(#[trigger] nodes[j], name)
        }),
    decreases nodes.len() - from,
{
    if !(from < 0 || from >= nodes.len()) && !node_is_element_named(nodes[from], name) {
        lemma_find_element_from(nodes, name, from + 1);
    }
}

/// An element child stands below its parent in the termination order.
pub proof fn lemma_child_element_smaller(el: XmlElement, i: int)
    requires
        0 <= i < el.children@.len(),
        el.children@[i] is Element,
    ensures
        decreases_to!(el => el.children@[i]->Element_0),
{
    let c = el.children@[i];
    assert(decreases_to!(el => el.children));
    assert(decreases_to!(el.children => el.children@));
    assert(decreases_to!(el.children@ => c));
    assert(decreases_to!(c => c->Element_0));
}

/// Value of the first attribute of `element` named `attribute_name`, copied out.
pub fn get_attribute(element: &XmlElement, attribute_name: &str) -> (r: Option<String>)
    ensures
        match r {
            Some(v) => spec_attr(element.attributes@, attribute_name@) == Some(v@),
            None => spec_attr(element.attributes@, attribute_name@) is None,
        },
{
    let attrs = &element.attributes;
    let mut i: usize = 0;
    while i < attrs.len()
        invariant
            0 <= i <= attrs.len(),
            attrs == element.attributes,
            spec_attr(element.attributes@, attribute_name@) == spec_attr_from(
                element.attributes@,
                attribute_name@,
                i as int,
            ),
        decreases attrs.len() - i,
    {
        if crate::adapter::str_eq(attrs[i].name.as_str(), attribute_name) {
            return Some(attrs[i].value.clone());
        }
        i = i + 1;
    }
    None
}

/// The first element among `element`'s children, if any.
pub fn get_first_child_element(element: &XmlElement) -> (r: Option<&XmlElement>)
    ensures
        match r {
            Some(e) => {
                &&& spec_find_element_from(element.children@, None, 0) matches Some(i)
                &&& element.children@[spec_find_element_from(element.children@, None, 0)->Some_0]
                    == XmlNode::Element(*e)
            },
            None => spec_find_element_from(element.children@, None, 0) is None,
        },
{
    let children = &element.children;
    let mut i: usize = 0;
    while i < children.len()
        invariant
            0 <= i <= children.len(),
            children == element.children,
            spec_find_element_from(element.children@, None, 0) == spec_find_element_from(
                element.children@,
                None,
                i as int,
            ),
        decreases children.len() - i,
    {
        if let XmlNode::Element(e) = &children[i] {
            return Some(e);
        }
        i = i + 1;
    }
    None
}

/// The first element named `name` among `nodes`, if any.
pub fn find_named_element<'a>(nodes: &'a Vec<XmlNode>, name: &str) -> (r: Option<&'a XmlElement>)
    ensures
        match r {
            Some(e) => {
                &&& spec_find_element_from(nodes@, Some(name@), 0) matches Some(i)
                &&& nodes@[spec_find_element_from(nodes@, Some(name@), 0)->Some_0]
                    == XmlNode::Element(*e)
            },
            None => spec_find_element_from(nodes@, Some(name@), 0) is None,
        },
{
    let mut i: usize = 0;
    while i < nodes.len()
        invariant
            0 <= i <= nodes.len(),
            spec_find_element_from(nodes@, Some(name@), 0) == spec_find_element_from(
                nodes@,
                Some(name@),
                i as int,
            ),
        decreases nodes.len() - i,
    {
        if let XmlNode::Element(e) = &nodes[i] {
            if crate::adapter::str_eq(e.name.as_str(), name) {
                return Some(e);
            }
        }
        i = i + 1;
    }
    None
}

} // verus!
