//! What assembly means: specification functions from a document tree to the
//! program view it denotes, or to the first error in document order.

use crate::adapter::parsed_document;
use crate::ast::{BlockV, BuildErrorV, FieldValueV, ProgramV, StatementBodyV};
use crate::xml::{
    lemma_child_element_smaller, lemma_find_element_from, spec_attr, spec_find_element_from,
    XmlAttribute, XmlElement, XmlNode,
};
use vstd::prelude::*;

verus! {

/// The value of a field element whose children from `from` on are given: the
/// first text node wins, a leading element is the unimplemented expression
/// variant, and no text or element child at all is an empty field.
pub open spec fn spec_field_value(children: Seq<XmlNode>, from: int) -> Result<
    FieldValueV,
    BuildErrorV,
>
    decreases children.len() - from,
{
    if from < 0 || from >= children.len() {
        Err(BuildErrorV::EmptyField)
    } else {
        match children[from] {
            XmlNode::Text(s) => Ok(FieldValueV::SimpleField(s@)),
            XmlNode::Element(_) => Err(BuildErrorV::UnimplementedExpressionField),
            XmlNode::Other => spec_field_value(children, from + 1),
        }
    }
}

/// The block's type tag and identifier after scanning its attributes from
/// `from` on, starting from the given defaults; a later occurrence overwrites
/// an earlier one.
pub open spec fn spec_block_attrs(
    attrs: Seq<XmlAttribute>,
    from: int,
    block_type: Seq<char>,
    id: Seq<char>,
) -> (Seq<char>, Seq<char>)
    decreases attrs.len() - from,
{
    if from < 0 || from >= attrs.len() {
        (block_type, id)
    } else if attrs[from].name@ == "type"@ {
        spec_block_attrs(attrs, from + 1, attrs[from].value@, id)
    } else if attrs[from].name@ == "id"@ {
        spec_block_attrs(attrs, from + 1, block_type, attrs[from].value@)
    } else {
        spec_block_attrs(attrs, from + 1, block_type, id)
    }
}

/// The element that continues the chain after `el`: the first block element
/// inside `el`'s first next element, if both exist.
pub open spec fn spec_next_block(el: XmlElement) -> Option<XmlElement> {
    match spec_find_element_from(el.children@, Some("next"@), 0) {
        Some(i) => {
            let next_el = el.children@[i]->Element_0;
            match spec_find_element_from(next_el.children@, Some("block"@), 0) {
                Some(j) => Some(next_el.children@[j]->Element_0),
                None => None,
            }
        },
        None => None,
    }
}

/// The chain continuation stands below `el` in the termination order.
pub proof fn lemma_next_block_smaller(el: XmlElement)
    requires
        spec_next_block(el) is Some,
    ensures
        decreases_to!(el => spec_next_block(el)->Some_0),
{
    let i = spec_find_element_from(el.children@, Some("next"@), 0)->Some_0;
    lemma_find_element_from(el.children@, Some("next"@), 0);
    lemma_child_element_smaller(el, i);
    let next_el = el.children@[i]->Element_0;
    let j = spec_find_element_from(next_el.children@, Some("block"@), 0)->Some_0;
    lemma_find_element_from(next_el.children@, Some("block"@), 0);
    lemma_child_element_smaller(next_el, j);
}

/// The chain starting at the block element `el`: `el`'s own block, then the
/// blocks its next links reach, in traversal order.
pub open spec fn spec_chain(el: XmlElement) -> Result<Seq<BlockV>, BuildErrorV>
    decreases el, 3int, 0int,
{
    match spec_block(el) {
        Err(e) => Err(e),
        Ok(b) => match spec_next_block(el) {
            None => Ok(seq![b]),
            Some(next_el) => {
                proof {
                    lemma_next_block_smaller(el);
                }
                match spec_chain(next_el) {
                    Err(e) => Err(e),
                    Ok(rest) => Ok(seq![b] + rest),
                }
            },
        },
    }
}

/// The block that `el` denotes: type and id from its attributes, fields and
/// statement slots accumulated over its children in document order.
pub open spec fn spec_block(el: XmlElement) -> Result<BlockV, BuildErrorV>
    decreases el, 2int, 0int,
{
    let attrs = spec_block_attrs(el.attributes@, 0, Seq::empty(), Seq::empty());
    match spec_block_children(el, 0, Map::empty(), Map::empty()) {
        Err(e) => Err(e),
        Ok(maps) => Ok(
            BlockV {
                block_type: attrs.0,
                id: attrs.1,
                fields: maps.0,
                statements: maps.1,
            },
        ),
    }
}

/// The field and statement maps of a block after its children from `from` on
/// are folded onto the maps accumulated so far; a later entry for a name
/// overwrites an earlier one, and the first failing child aborts.
pub open spec fn spec_block_children(
    el: XmlElement,
    from: int,
    fields: Map<Seq<char>, FieldValueV>,
    statements: Map<Seq<char>, StatementBodyV>,
) -> Result<(Map<Seq<char>, FieldValueV>, Map<Seq<char>, StatementBodyV>), BuildErrorV>
    decreases el, 1int, el.children@.len() - from,
{
    if from < 0 || from >= el.children@.len() {
        Ok((fields, statements))
    } else {
        match el.children@[from] {
            XmlNode::Element(c) => {
                if c.name@ == "statement"@ {
                    match spec_attr(c.attributes@, "name"@) {
                        None => Err(
                            BuildErrorV::MissingAttribute {
                                element: c.name@,
                                attribute: "name"@,
                            },
                        ),
                        Some(nm) => match spec_statement_body(el, from, c) {
                            Err(e) => Err(e),
                            Ok(body) => spec_block_children(
                                el,
                                from + 1,
                                fields,
                                statements.insert(nm, body),
                            ),
                        },
                    }
                } else if c.name@ == "field"@ {
                    match spec_attr(c.attributes@, "name"@) {
                        None => Err(
                            BuildErrorV::MissingAttribute {
                                element: c.name@,
                                attribute: "name"@,
                            },
                        ),
                        Some(nm) => match spec_field_value(c.children@, 0) {
                            Err(e) => Err(e),
                            Ok(v) => spec_block_children(
                                el,
                                from + 1,
                                fields.insert(nm, v),
                                statements,
                            ),
                        },
                    }
                } else {
                    spec_block_children(el, from + 1, fields, statements)
                }
            },
            _ => spec_block_children(el, from + 1, fields, statements),
        }
    }
}

/// The statement body held by the statement element `c`, which is child
/// `from` of `el`: the chain starting at `c`'s first child element, or the
/// empty body when `c` has no child element.
pub open spec fn spec_statement_body(el: XmlElement, from: int, c: XmlElement) -> Result<
    StatementBodyV,
    BuildErrorV,
>
    decreases el, 0int, 0int,
    when 0 <= from < el.children@.len() && el.children@[from] == XmlNode::Element(c)
{
    match spec_find_element_from(c.children@, None, 0) {
        None => Ok(StatementBodyV { blocks: Seq::empty() }),
        Some(j) => {
            proof {
                lemma_find_element_from(c.children@, None, 0);
                lemma_child_element_smaller(el, from);
                lemma_child_element_smaller(c, j);
            }
            match spec_chain(c.children@[j]->Element_0) {
                Err(e) => Err(e),
                Ok(blocks) => Ok(StatementBodyV { blocks }),
            }
        },
    }
}

/// The groups of the document whose root container is `root`, after folding
/// the root's children from `from` on onto the groups gathered so far: one
/// group per block element, anything else ignored.
pub open spec fn spec_groups(root: XmlElement, from: int, groups: Seq<StatementBodyV>) -> Result<
    Seq<StatementBodyV>,
    BuildErrorV,
>
    decreases root.children@.len() - from,
{
    if from < 0 || from >= root.children@.len() {
        Ok(groups)
    } else {
        match root.children@[from] {
            XmlNode::Element(c) => {
                if c.name@ == "block"@ {
                    match spec_chain(c) {
                        Err(e) => Err(e),
                        Ok(blocks) => spec_groups(
                            root,
                            from + 1,
                            groups.push(StatementBodyV { blocks }),
                        ),
                    }
                } else {
                    spec_groups(root, from + 1, groups)
                }
            },
            _ => spec_groups(root, from + 1, groups),
        }
    }
}

/// The program denoted by a document's top-level nodes: the groups of the
/// first top-level element named xml, or an error when there is none.
pub open spec fn spec_program_nodes(nodes: Seq<XmlNode>) -> Result<ProgramV, BuildErrorV> {
    match spec_find_element_from(nodes, Some("xml"@), 0) {
        None => Err(BuildErrorV::MissingRootElement),
        Some(i) => match spec_groups(nodes[i]->Element_0, 0, Seq::empty()) {
            Err(e) => Err(e),
            Ok(groups) => Ok(ProgramV { groups }),
        },
    }
}

/// The program denoted by a document text: what its parse tree denotes, or a
/// syntax error where the text is not a well-formed document.
pub open spec fn spec_program_from_xml(text: Seq<char>) -> Result<ProgramV, BuildErrorV> {
    match parsed_document(text) {
        None => Err(BuildErrorV::DocumentSyntaxError),
        Some(nodes) => spec_program_nodes(nodes),
    }
}

} // verus!
