//! The assembler: executable construction of the program tree, verified
//! against the specification functions of [`crate::semantics`].

use crate::adapter::parse_document_nodes;
use crate::ast::{
    block_view, blocks_view, bodies_view, error_view, field_map_view, field_value_view,
    lemma_bodies_view_push, lemma_blocks_view_push, lemma_field_map_view_insert,
    lemma_statement_map_view_insert, program_view, statement_body_view, statement_map_view, Block,
    BlockV, BuildError, FieldValue, Program, StatementBody, StatementBodyV,
};
use crate::semantics::{
    lemma_next_block_smaller, spec_block, spec_block_attrs, spec_block_children, spec_chain,
    spec_field_value, spec_groups, spec_next_block, spec_program_from_xml, spec_program_nodes,
    spec_statement_body,
};
use crate::strmap::StrMap;
use crate::xml::{
    find_named_element, get_attribute, get_first_child_element, spec_attr, spec_find_element_from,
    XmlElement, XmlNode,
};
use vstd::prelude::*;

verus! {

impl FieldValue {
    /// The value of the field element `field_el`: its first text child, or
    /// the error that spec gives it.
    pub fn new(field_el: &XmlElement) -> (r: Result<FieldValue, BuildError>)
        ensures
            match spec_field_value(field_el.children@, 0) {
                Ok(v) => r matches Ok(fv) && field_value_view(fv) == v,
                Err(e) => r matches Err(err) && error_view(err) == e,
            },
    {
        let children = &field_el.children;
        let mut i: usize = 0;
        while i < children.len()
            invariant
                0 <= i <= children.len(),
                children == field_el.children,
                spec_field_value(field_el.children@, 0) == spec_field_value(
                    field_el.children@,
                    i as int,
                ),
            decreases children.len() - i,
        {
            match &children[i] {
                XmlNode::Text(s) => {
                    return Ok(FieldValue::SimpleField(s.clone()));
                },
                XmlNode::Element(_) => {
                    return Err(BuildError::UnimplementedExpressionField);
                },
                XmlNode::Other => {
                    i = i + 1;
                },
            }
        }
        Err(BuildError::EmptyField)
    }
}

/// The element that continues the chain after `block_el`: the first block
/// element inside its first next element, if both exist.
pub fn get_next_block_element(block_el: &XmlElement) -> (r: Option<&XmlElement>)
    ensures
        match r {
            Some(e) => spec_next_block(*block_el) == Some(*e),
            None => spec_next_block(*block_el) is None,
        },
{
    match find_named_element(&block_el.children, "next") {
        Some(next_el) => match find_named_element(&next_el.children, "block") {
            Some(b) => Some(b),
            None => None,
        },
        None => None,
    }
}

/// Builds the blocks of the chain starting at `el` onto the end of `blocks`.
fn build_chain(el: &XmlElement, blocks: &mut Vec<Block>) -> (r: Result<(), BuildError>)
    ensures
        match spec_chain(*el) {
            Ok(bs) => r is Ok && blocks_view(final(blocks)@, 0) == blocks_view(old(blocks)@, 0)
                + bs,
            Err(e) => r matches Err(err) && error_view(err) == e,
        },
    decreases *el, 2int,
{
    let b = match Block::new(el) {
        Ok(b) => b,
        Err(e) => {
            return Err(e);
        },
    };
    proof {
        lemma_blocks_view_push(blocks@, b, 0);
    }
    blocks.push(b);
    match get_next_block_element(el) {
        None => {
            proof {
                assert(blocks_view(blocks@, 0) =~= blocks_view(old(blocks)@, 0) + spec_chain(
                    *el,
                )->Ok_0);
            }
            Ok(())
        },
        Some(next_el) => {
            proof {
                lemma_next_block_smaller(*el);
            }
            let ghost mid = blocks@;
            let r = build_chain(next_el, blocks);
            proof {
                if spec_chain(*next_el) is Ok {
                    assert(blocks_view(blocks@, 0) =~= blocks_view(old(blocks)@, 0) + spec_chain(
                        *el,
                    )->Ok_0);
                }
            }
            r
        },
    }
}

impl StatementBody {
    /// The chain starting at `first_block`, or the empty body when there is
    /// no starting element.
    pub fn new(first_block: Option<&XmlElement>) -> (r: Result<StatementBody, BuildError>)
        ensures
            match first_block {
                None => r matches Ok(sb) && statement_body_view(sb) == (StatementBodyV {
                    blocks: Seq::empty(),
                }),
                Some(el) => match spec_chain(*el) {
                    Ok(bs) => r matches Ok(sb) && statement_body_view(sb) == (StatementBodyV {
                        blocks: bs,
                    }),
                    Err(e) => r matches Err(err) && error_view(err) == e,
                },
            },
    {
        let mut blocks: Vec<Block> = Vec::new();
        match first_block {
            None => Ok(StatementBody { blocks }),
            Some(el) => match build_chain(el, &mut blocks) {
                Ok(()) => {
                    proof {
                        assert(blocks_view(blocks@, 0) =~= spec_chain(*el)->Ok_0);
                    }
                    Ok(StatementBody { blocks })
                },
                Err(e) => Err(e),
            },
        }
    }
}

impl Block {
    /// The block that `block_el` denotes: type and id from its attributes,
    /// fields and statement slots from its children in document order.
    pub fn new(block_el: &XmlElement) -> (r: Result<Block, BuildError>)
        ensures
            match spec_block(*block_el) {
                Ok(bv) => r matches Ok(b) && block_view(b) == bv,
                Err(e) => r matches Err(err) && error_view(err) == e,
            },
        decreases *block_el, 1int,
    {
        let mut block_type = String::new();
        let mut id = String::new();
        let attrs = &block_el.attributes;
        let mut i: usize = 0;
        while i < attrs.len()
            invariant
                0 <= i <= attrs.len(),
                attrs == block_el.attributes,
                spec_block_attrs(block_el.attributes@, 0, Seq::empty(), Seq::empty())
                    == spec_block_attrs(block_el.attributes@, i as int, block_type@, id@),
            decreases attrs.len() - i,
        {
            if crate::adapter::str_eq(attrs[i].name.as_str(), "type") {
                block_type = attrs[i].value.clone();
            } else if crate::adapter::str_eq(attrs[i].name.as_str(), "id") {
                id = attrs[i].value.clone();
            }
            i = i + 1;
        }

        let mut fields: StrMap<FieldValue> = StrMap::new();
        let mut statements: StrMap<StatementBody> = StrMap::new();
        let children = &block_el.children;
        let mut j: usize = 0;
        while j < children.len()
            invariant
                0 <= j <= children.len(),
                children == block_el.children,
                spec_block_children(*block_el, 0, Map::empty(), Map::empty())
                    == spec_block_children(
                    *block_el,
                    j as int,
                    field_map_view(fields.entries@, 0),
                    statement_map_view(statements.entries@, 0),
                ),
            decreases children.len() - j,
        {
            if let XmlNode::Element(child_el) = &children[j] {
                if crate::adapter::str_eq(child_el.name.as_str(), "statement") {
                    let statement_name = match get_attribute(child_el, "name") {
                        Some(n) => n,
                        None => {
                            return Err(
                                BuildError::MissingAttribute {
                                    element: child_el.name.clone(),
                                    attribute: "name".to_owned(),
                                },
                            );
                        },
                    };
                    let mut body_blocks: Vec<Block> = Vec::new();
                    let body = match get_first_child_element(child_el) {
                        None => StatementBody { blocks: body_blocks },
                        Some(g) => {
                            proof {
                                crate::xml::lemma_find_element_from(child_el.children@, None, 0);
                                crate::xml::lemma_child_element_smaller(*block_el, j as int);
                                crate::xml::lemma_child_element_smaller(
                                    *child_el,
                                    spec_find_element_from(child_el.children@, None, 0)->Some_0,
                                );
                            }
                            match build_chain(g, &mut body_blocks) {
                                Ok(()) => StatementBody { blocks: body_blocks },
                                Err(e) => {
                                    return Err(e);
                                },
                            }
                        },
                    };
                    proof {
                        assert(spec_statement_body(*block_el, j as int, *child_el) == Ok::<
                            StatementBodyV,
                            crate::ast::BuildErrorV,
                        >(statement_body_view(body))) by {
                            assert(blocks_view(Seq::<Block>::empty(), 0) == Seq::<
                                BlockV,
                            >::empty());
                            assert(statement_body_view(body).blocks =~= blocks_view(
                                body.blocks@,
                                0,
                            ));
                        }
                        lemma_statement_map_view_insert(
                            statements.entries@,
                            statement_name,
                            body,
                            0,
                        );
                    }
                    statements.insert(statement_name, body);
                } else if crate::adapter::str_eq(child_el.name.as_str(), "field") {
                    let field_name = match get_attribute(child_el, "name") {
                        Some(n) => n,
                        None => {
                            return Err(
                                BuildError::MissingAttribute {
                                    element: child_el.name.clone(),
                                    attribute: "name".to_owned(),
                                },
                            );
                        },
                    };
                    let field_value = match FieldValue::new(child_el) {
                        Ok(v) => v,
                        Err(e) => {
                            return Err(e);
                        },
                    };
                    proof {
                        lemma_field_map_view_insert(fields.entries@, field_name, field_value, 0);
                    }
                    fields.insert(field_name, field_value);
                }
            }
            j = j + 1;
        }

        Ok(Block { block_type, id, fields, statements })
    }
}

/// Parses a document text into its top-level nodes, or fails with
/// DocumentSyntaxError when the text is not a well-formed document.
pub fn parse_document(xml: &str) -> (r: Result<Vec<XmlNode>, BuildError>)
    ensures
        match crate::adapter::parsed_document(xml@) {
            Some(nodes) => r matches Ok(v) && v@ == nodes,
            None => r == Err::<Vec<XmlNode>, BuildError>(BuildError::DocumentSyntaxError),
        },
{
    match parse_document_nodes(xml) {
        Some(nodes) => Ok(nodes),
        None => Err(BuildError::DocumentSyntaxError),
    }
}

/// The document's root container: the first top-level element named xml.
pub fn get_xml_element(nodes: &Vec<XmlNode>) -> (r: Option<&XmlElement>)
    ensures
        match r {
            Some(e) => {
                &&& spec_find_element_from(nodes@, Some("xml"@), 0) matches Some(i)
                &&& nodes@[spec_find_element_from(nodes@, Some("xml"@), 0)->Some_0]
                    == XmlNode::Element(*e)
            },
            None => spec_find_element_from(nodes@, Some("xml"@), 0) is None,
        },
{
    find_named_element(nodes, "xml")
}

/// Assembles the program that a document's top-level nodes denote: one group
/// per block child of the root container, in document order.
pub fn program_from_nodes(nodes: &Vec<XmlNode>) -> (r: Result<Program, BuildError>)
    ensures
        match spec_program_nodes(nodes@) {
            Ok(pv) => r matches Ok(p) && program_view(p) == pv,
            Err(e) => r matches Err(err) && error_view(err) == e,
        },
{
    let xml_element = match get_xml_element(nodes) {
        Some(e) => e,
        None => {
            return Err(BuildError::MissingRootElement);
        },
    };
    let mut groups: Vec<StatementBody> = Vec::new();
    let children = &xml_element.children;
    let mut i: usize = 0;
    while i < children.len()
        invariant
            0 <= i <= children.len(),
            children == xml_element.children,
            spec_find_element_from(nodes@, Some("xml"@), 0) matches Some(k) && nodes@[k]
                == XmlNode::Element(*xml_element),
            spec_groups(*xml_element, 0, Seq::empty()) == spec_groups(
                *xml_element,
                i as int,
                bodies_view(groups@, 0),
            ),
        decreases children.len() - i,
    {
        if let XmlNode::Element(el) = &children[i] {
            if crate::adapter::str_eq(el.name.as_str(), "block") {
                let mut blocks: Vec<Block> = Vec::new();
                match build_chain(el, &mut blocks) {
                    Ok(()) => {
                        let body = StatementBody { blocks };
                        proof {
                            lemma_bodies_view_push(groups@, body, 0);
                            assert(statement_body_view(body).blocks =~= spec_chain(*el)->Ok_0);
                        }
                        groups.push(body);
                    },
                    Err(e) => {
                        return Err(e);
                    },
                }
            }
        }
        i = i + 1;
    }
    Ok(Program { groups })
}

/// Assembles the program that a document text denotes, or reports the first
/// failure in document order.
pub fn program_from_xml(xml: &str) -> (r: Result<Program, BuildError>)
    ensures
        match spec_program_from_xml(xml@) {
            Ok(pv) => r matches Ok(p) && program_view(p) == pv,
            Err(e) => r matches Err(err) && error_view(err) == e,
        },
{
    match parse_document_nodes(xml) {
        None => Err(BuildError::DocumentSyntaxError),
        Some(nodes) => program_from_nodes(&nodes),
    }
}

} // verus!

