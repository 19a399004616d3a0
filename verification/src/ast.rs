//! The program tree that assembly produces, its mathematical views, and the
//! error taxonomy of the assembly call.

use crate::strmap::{spec_insert_from, StrMap};
use vstd::prelude::*;

verus! {

/// Why an assembly call failed. Any of these aborts the whole call: the
/// caller gets either a complete program or exactly one error, the first one
/// in document order.
#[derive(Debug, PartialEq, Eq)]
pub enum BuildError {
    /// The input text is not a well-formed document.
    DocumentSyntaxError,
    /// No root container element among the document's top-level elements.
    MissingRootElement,
    /// A statement or field element lacks its required name attribute.
    MissingAttribute { element: String, attribute: String },
    /// A field element with no child nodes.
    EmptyField,
    /// A field whose first text-or-element child is an element: a nested
    /// expression block, a recognized but unimplemented variant.
    UnimplementedExpressionField,
}

/// The error taxonomy at the specification level.
pub enum BuildErrorV {
    DocumentSyntaxError,
    MissingRootElement,
    MissingAttribute { element: Seq<char>, attribute: Seq<char> },
    EmptyField,
    UnimplementedExpressionField,
}

/// What a [`BuildError`] says, mathematically.
pub open spec fn error_view(e: BuildError) -> BuildErrorV {
    match e {
        BuildError::DocumentSyntaxError => BuildErrorV::DocumentSyntaxError,
        BuildError::MissingRootElement => BuildErrorV::MissingRootElement,
        BuildError::MissingAttribute { element, attribute } => BuildErrorV::MissingAttribute {
            element: element@,
            attribute: attribute@,
        },
        BuildError::EmptyField => BuildErrorV::EmptyField,
        BuildError::UnimplementedExpressionField => BuildErrorV::UnimplementedExpressionField,
    }
}

/// The top-level output: one group per top-level block element, in document
/// order. Immutable once assembled.
#[derive(Debug)]
pub struct Program {
    pub groups: Vec<StatementBody>,
}

/// One chained sequence of blocks, in chain traversal order.
#[derive(Debug, PartialEq, Eq)]
pub struct StatementBody {
    pub blocks: Vec<Block>,
}

/// One program statement unit: a type tag, an identifier, named scalar
/// fields and named statement slots.
#[derive(Debug, PartialEq, Eq)]
pub struct Block {
    pub block_type: String,
    pub id: String,
    pub fields: StrMap<FieldValue>,
    pub statements: StrMap<StatementBody>,
}

/// A field's value: scalar text, or a nested expression block (recognized
/// but never produced by this assembler).
#[derive(Debug, PartialEq, Eq)]
pub enum FieldValue {
    SimpleField(String),
    ExpressionField(Block),
}

/// View of a program: its groups.
pub struct ProgramV {
    pub groups: Seq<StatementBodyV>,
}

/// View of a statement body: its blocks in chain order.
pub struct StatementBodyV {
    pub blocks: Seq<BlockV>,
}

/// View of a block: fields and statement slots become name-keyed maps.
pub struct BlockV {
    pub block_type: Seq<char>,
    pub id: Seq<char>,
    pub fields: Map<Seq<char>, FieldValueV>,
    pub statements: Map<Seq<char>, StatementBodyV>,
}

/// View of a field value.
pub enum FieldValueV {
    SimpleField(Seq<char>),
    ExpressionField(BlockV),
}

/// View of a field value.
pub open spec fn field_value_view(v: FieldValue) -> FieldValueV
    decreases v, 0int,
{
    match v {
        FieldValue::SimpleField(s) => FieldValueV::SimpleField(s@),
        FieldValue::ExpressionField(b) => FieldValueV::ExpressionField(block_view(b)),
    }
}

/// The map that field entries from `from` on denote; an earlier entry wins,
/// which matches entries with pairwise distinct keys.
pub open spec fn field_map_view(entries: Seq<(String, FieldValue)>, from: int) -> Map<
    Seq<char>,
    FieldValueV,
>
    decreases entries, entries.len() - from,
{
    if from < 0 || from >= entries.len() {
        Map::empty()
    } else {
        field_map_view(entries, from + 1).insert(
            entries[from].0@,
            field_value_view(entries[from].1),
        )
    }
}

/// The map that statement entries from `from` on denote.
pub open spec fn statement_map_view(entries: Seq<(String, StatementBody)>, from: int) -> Map<
    Seq<char>,
    StatementBodyV,
>
    decreases entries, entries.len() - from,
{
    if from < 0 || from >= entries.len() {
        Map::empty()
    } else {
        statement_map_view(entries, from + 1).insert(
            entries[from].0@,
            statement_body_view(entries[from].1),
        )
    }
}

/// View of a block.
pub open spec fn block_view(b: Block) -> BlockV
    decreases b, 0int,
{
    BlockV {
        block_type: b.block_type@,
        id: b.id@,
        fields: field_map_view(b.fields.entries@, 0),
        statements: statement_map_view(b.statements.entries@, 0),
    }
}

/// Views of the blocks from `from` on, in order.
pub open spec fn blocks_view(blocks: Seq<Block>, from: int) -> Seq<BlockV>
    decreases blocks, blocks.len() - from,
{
    if from < 0 || from >= blocks.len() {
        Seq::empty()
    } else {
        seq![block_view(blocks[from])] + blocks_view(blocks, from + 1)
    }
}

/// View of a statement body.
pub open spec fn statement_body_view(sb: StatementBody) -> StatementBodyV
    decreases sb, 0int,
{
    StatementBodyV { blocks: blocks_view(sb.blocks@, 0) }
}

/// Views of the statement bodies from `from` on, in order.
pub open spec fn bodies_view(bodies: Seq<StatementBody>, from: int) -> Seq<StatementBodyV>
    decreases bodies.len() - from,
{
    if from < 0 || from >= bodies.len() {
        Seq::empty()
    } else {
        seq![statement_body_view(bodies[from])] + bodies_view(bodies, from + 1)
    }
}

/// View of a program.
pub open spec fn program_view(p: Program) -> ProgramV {
    ProgramV { groups: bodies_view(p.groups@, 0) }
}

/// Appending a block appends its view.
pub proof fn lemma_blocks_view_push(s: Seq<Block>, b: Block, from: int)
    requires
        0 <= from <= s.len(),
    ensures
        blocks_view(s.push(b), from) == blocks_view(s, from).push(block_view(b)),
    decreases s.len() - from,
{
    let r = s.push(b);
    if from == s.len() {
        assert(blocks_view(r, from + 1) == Seq::<BlockV>::empty());
        assert(r[from] == b);
        assert(blocks_view(r, from) =~= blocks_view(s, from).push(block_view(b)));
    } else {
        lemma_blocks_view_push(s, b, from + 1);
        assert(r[from] == s[from]);
        assert(blocks_view(r, from) =~= blocks_view(s, from).push(block_view(b)));
    }
}

/// Appending a statement body appends its view.
pub proof fn lemma_bodies_view_push(s: Seq<StatementBody>, b: StatementBody, from: int)
    requires
        0 <= from <= s.len(),
    ensures
        bodies_view(s.push(b), from) == bodies_view(s, from).push(statement_body_view(b)),
    decreases s.len() - from,
{
    let r = s.push(b);
    if from == s.len() {
        assert(bodies_view(r, from + 1) == Seq::<StatementBodyV>::empty());
        assert(r[from] == b);
        assert(bodies_view(r, from) =~= bodies_view(s, from).push(statement_body_view(b)));
    } else {
        lemma_bodies_view_push(s, b, from + 1);
        assert(r[from] == s[from]);
        assert(bodies_view(r, from) =~= bodies_view(s, from).push(statement_body_view(b)));
    }
}

/// Two entry lists that agree from `from` on denote the same field map.
pub proof fn lemma_field_map_view_congruent(
    s1: Seq<(String, FieldValue)>,
    s2: Seq<(String, FieldValue)>,
    from: int,
)
    requires
        s1.len() == s2.len(),
        forall|j: int| from <= j < s1.len() ==> s1[j] == s2[j],
    ensures
        field_map_view(s1, from) == field_map_view(s2, from),
    decreases s1.len() - from,
{
    if 0 <= from < s1.len() {
        lemma_field_map_view_congruent(s1, s2, from + 1);
    }
}

/// Writing a field entry inserts its view into the denoted map.
pub proof fn lemma_field_map_view_insert(
    entries: Seq<(String, FieldValue)>,
    key: String,
    value: FieldValue,
    from: int,
)
    requires
        0 <= from <= entries.len(),
    ensures
        field_map_view(spec_insert_from(entries, key, value, from), from) == field_map_view(
            entries,
            from,
        ).insert(key@, field_value_view(value)),
    decreases entries.len() - from,
{
    let r = spec_insert_from(entries, key, value, from);
    if from >= entries.len() {
        assert(r == entries.push((key, value)));
        assert(r[from] == (key, value));
        assert(field_map_view(r, from + 1) =~= Map::<Seq<char>, FieldValueV>::empty());
        assert(field_map_view(entries, from) =~= Map::<Seq<char>, FieldValueV>::empty());
        assert(field_map_view(r, from) =~= field_map_view(entries, from).insert(
            key@,
            field_value_view(value),
        ));
    } else if entries[from].0@ == key@ {
        lemma_field_map_view_congruent(entries.update(from, (key, value)), entries, from + 1);
        assert(field_map_view(r, from) =~= field_map_view(entries, from).insert(
            key@,
            field_value_view(value),
        ));
    } else {
        crate::strmap::lemma_spec_insert_from_prefix(entries, key, value, from + 1);
        lemma_field_map_view_insert(entries, key, value, from + 1);
        assert(r == spec_insert_from(entries, key, value, from + 1));
        assert(r[from] == entries[from]);
        assert(from < r.len());
        assert(field_map_view(r, from + 1) == field_map_view(entries, from + 1).insert(
            key@,
            field_value_view(value),
        ));
        assert(field_map_view(r, from) == field_map_view(r, from + 1).insert(
            entries[from].0@,
            field_value_view(entries[from].1),
        ));
        assert(field_map_view(entries, from) == field_map_view(entries, from + 1).insert(
            entries[from].0@,
            field_value_view(entries[from].1),
        ));
        assert(field_map_view(r, from) =~= field_map_view(entries, from).insert(
            key@,
            field_value_view(value),
        ));
    }
}

/// Two entry lists that agree from `from` on denote the same statement map.
pub proof fn lemma_statement_map_view_congruent(
    s1: Seq<(String, StatementBody)>,
    s2: Seq<(String, StatementBody)>,
    from: int,
)
    requires
        s1.len() == s2.len(),
        forall|j: int| from <= j < s1.len() ==> s1[j] == s2[j],
    ensures
        statement_map_view(s1, from) == statement_map_view(s2, from),
    decreases s1.len() - from,
{
    if 0 <= from < s1.len() {
        lemma_statement_map_view_congruent(s1, s2, from + 1);
    }
}

/// Writing a statement entry inserts its view into the denoted map.
pub proof fn lemma_statement_map_view_insert(
    entries: Seq<(String, StatementBody)>,
    key: String,
    value: StatementBody,
    from: int,
)
    requires
        0 <= from <= entries.len(),
    ensures
        statement_map_view(spec_insert_from(entries, key, value, from), from)
            == statement_map_view(entries, from).insert(key@, statement_body_view(value)),
    decreases entries.len() - from,
{
    let r = spec_insert_from(entries, key, value, from);
    if from >= entries.len() {
        assert(r == entries.push((key, value)));
        assert(r[from] == (key, value));
        assert(statement_map_view(r, from + 1) =~= Map::<Seq<char>, StatementBodyV>::empty());
        assert(statement_map_view(entries, from) =~= Map::<Seq<char>, StatementBodyV>::empty());
        assert(statement_map_view(r, from) =~= statement_map_view(entries, from).insert(
            key@,
            statement_body_view(value),
        ));
    } else if entries[from].0@ == key@ {
        lemma_statement_map_view_congruent(entries.update(from, (key, value)), entries, from + 1);
        assert(statement_map_view(r, from) =~= statement_map_view(entries, from).insert(
            key@,
            statement_body_view(value),
        ));
    } else {
        crate::strmap::lemma_spec_insert_from_prefix(entries, key, value, from + 1);
        lemma_statement_map_view_insert(entries, key, value, from + 1);
        assert(r[from] == entries[from]);
        assert(statement_map_view(r, from) =~= statement_map_view(entries, from).insert(
            key@,
            statement_body_view(value),
        ));
    }
}

/// What `get` on a block's field map returns is exactly what the block's
/// view holds under that name.
pub proof fn lemma_field_lookup_matches_view(
    entries: Seq<(String, FieldValue)>,
    name: Seq<char>,
    from: int,
)
    requires
        0 <= from,
    ensures
        match crate::strmap::spec_lookup_from(entries, name, from) {
            Some(v) => field_map_view(entries, from).contains_key(name) && field_map_view(
                entries,
                from,
            )[name] == field_value_view(v),
            None => !field_map_view(entries, from).contains_key(name),
        },
    decreases entries.len() - from,
{
    if from < entries.len() && entries[from].0@ != name {
        lemma_field_lookup_matches_view(entries, name, from + 1);
    }
}

/// What `get` on a block's statement map returns is exactly what the block's
/// view holds under that name.
pub proof fn lemma_statement_lookup_matches_view(
    entries: Seq<(String, StatementBody)>,
    name: Seq<char>,
    from: int,
)
    requires
        0 <= from,
    ensures
        match crate::strmap::spec_lookup_from(entries, name, from) {
            Some(v) => statement_map_view(entries, from).contains_key(name)
                && statement_map_view(entries, from)[name] == statement_body_view(v),
            None => !statement_map_view(entries, from).contains_key(name),
        },
    decreases entries.len() - from,
{
    if from < entries.len() && entries[from].0@ != name {
        lemma_statement_lookup_matches_view(entries, name, from + 1);
    }
}

impl Program {
    /// The empty program: no groups.
    pub fn new() -> (r: Self)
        ensures
            program_view(r).groups == Seq::<StatementBodyV>::empty(),
    {
        Program { groups: Vec::new() }
    }
}

} // verus!
