//! Builds an in-memory program tree from a block-editor XML export document.
//!
//! The document is modelled as a tree of [`xml::XmlNode`] values; the
//! assembly logic that turns that tree into a program is verified against
//! specification functions.

pub mod adapter;
pub mod ast;
pub mod builder;
pub mod laws;
pub mod semantics;
pub mod strmap;
pub mod xml;

pub use ast::{Block, BuildError, FieldValue, Program, StatementBody};
pub use builder::{
    get_next_block_element, get_xml_element, parse_document, program_from_nodes, program_from_xml,
};
pub use strmap::StrMap;
pub use xml::{get_attribute, get_first_child_element, XmlAttribute, XmlElement, XmlNode};
