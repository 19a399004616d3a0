//! General properties of the assembly, stated and proved over the
//! specification functions that the builders' contracts use.

use crate::ast::{BlockV, BuildErrorV, FieldValueV, StatementBodyV};
use crate::semantics::{
    spec_block, spec_block_children, spec_chain, spec_field_value, spec_groups, spec_next_block,
    spec_statement_body,
};
use crate::xml::{spec_attr, XmlElement, XmlNode};
use vstd::prelude::*;

verus! {

/// A block whose next wraps a second block, whose next wraps a third block
/// with no further link, resolves to exactly those three blocks, in chain
/// order.
pub proof fn lemma_chain_of_three(
    e1: XmlElement,
    e2: XmlElement,
    e3: XmlElement,
    b1: BlockV,
    b2: BlockV,
    b3: BlockV,
)
    requires
        spec_next_block(e1) == Some(e2),
        spec_next_block(e2) == Some(e3),
        spec_next_block(e3) is None,
        spec_block(e1) == Ok::<BlockV, BuildErrorV>(b1),
        spec_block(e2) == Ok::<BlockV, BuildErrorV>(b2),
        spec_block(e3) == Ok::<BlockV, BuildErrorV>(b3),
    ensures
        spec_chain(e1) == Ok::<Seq<BlockV>, BuildErrorV>(seq![b1, b2, b3]),
{
    assert(spec_chain(e3) == Ok::<Seq<BlockV>, BuildErrorV>(seq![b3]));
    assert(spec_chain(e2) == Ok::<Seq<BlockV>, BuildErrorV>(seq![b2] + seq![b3]));
    assert(spec_chain(e1) == Ok::<Seq<BlockV>, BuildErrorV>(seq![b1] + (seq![b2] + seq![b3])));
    assert(seq![b1] + (seq![b2] + seq![b3]) =~= seq![b1, b2, b3]);
}

/// A block with no next link resolves to a single-element sequence: just its
/// own block.
pub proof fn lemma_chain_single(el: XmlElement, b: BlockV)
    requires
        spec_next_block(el) is None,
        spec_block(el) == Ok::<BlockV, BuildErrorV>(b),
    ensures
        spec_chain(el) == Ok::<Seq<BlockV>, BuildErrorV>(seq![b]),
{
}

/// A child of the root container that is not a block element contributes no
/// group and no error: the fold passes it by.
pub proof fn lemma_unknown_top_level_ignored(
    root: XmlElement,
    from: int,
    groups: Seq<StatementBodyV>,
)
    requires
        0 <= from < root.children@.len(),
        !(root.children@[from] matches XmlNode::Element(c) && c.name@ == "block"@),
    ensures
        spec_groups(root, from, groups) == spec_groups(root, from + 1, groups),
{
}

/// A field element with no children at all fails with EmptyField.
pub proof fn lemma_empty_field(children: Seq<XmlNode>)
    requires
        children.len() == 0,
    ensures
        spec_field_value(children, 0) == Err::<FieldValueV, BuildErrorV>(BuildErrorV::EmptyField),
{
}

/// A field whose first text-or-element child (scanning from `from`) is an
/// element fails with UnimplementedExpressionField.
pub proof fn lemma_expression_field_rejected(children: Seq<XmlNode>, from: int, i: int)
    requires
        0 <= from <= i < children.len(),
        children[i] is Element,
        forall|j: int| from <= j < i ==> children[j] is Other,
    ensures
        spec_field_value(children, from) == Err::<FieldValueV, BuildErrorV>(
            BuildErrorV::UnimplementedExpressionField,
        ),
    decreases i - from,
{
    if from < i {
        assert(children[from] is Other);
        lemma_expression_field_rejected(children, from + 1, i);
    }
}

/// Is child `j` of `el` a field element whose name attribute reads `name`?
pub open spec fn child_is_field_named(el: XmlElement, j: int, name: Seq<char>) -> bool {
    &&& el.children@[j] matches XmlNode::Element(c)
    &&& c.name@ == "field"@
    &&& spec_attr(c.attributes@, "name"@) == Some(name)
}

/// Is child `j` of `el` a statement element whose name attribute reads `name`?
pub open spec fn child_is_statement_named(el: XmlElement, j: int, name: Seq<char>) -> bool {
    &&& el.children@[j] matches XmlNode::Element(c)
    &&& c.name@ == "statement"@
    &&& spec_attr(c.attributes@, "name"@) == Some(name)
}

/// When no child from `from` on is a field named `name`, the fold leaves the
/// accumulated binding for `name` untouched.
pub proof fn lemma_fields_stable_when_unnamed(
    el: XmlElement,
    from: int,
    fields: Map<Seq<char>, FieldValueV>,
    statements: Map<Seq<char>, StatementBodyV>,
    name: Seq<char>,
)
    requires
        0 <= from,
        forall|j: int|
            from <= j < el.children@.len() ==> !child_is_field_named(el, j, name),
        spec_block_children(el, from, fields, statements) is Ok,
        fields.contains_key(name),
    ensures
        ({
            let m = spec_block_children(el, from, fields, statements)->Ok_0.0;
            &&& m.contains_key(name)
            &&& m[name] == fields[name]
        }),
    decreases el.children@.len() - from,
{
    if from < el.children@.len() {
        assert(!child_is_field_named(el, from, name));
        match el.children@[from] {
            XmlNode::Element(c) => {
                if c.name@ == "statement"@ {
                    let nm = spec_attr(c.attributes@, "name"@)->Some_0;
                    let body = spec_statement_body(el, from, c)->Ok_0;
                    lemma_fields_stable_when_unnamed(
                        el,
                        from + 1,
                        fields,
                        statements.insert(nm, body),
                        name,
                    );
                } else if c.name@ == "field"@ {
                    let nm = spec_attr(c.attributes@, "name"@)->Some_0;
                    let v = spec_field_value(c.children@, 0)->Ok_0;
                    lemma_fields_stable_when_unnamed(
                        el,
                        from + 1,
                        fields.insert(nm, v),
                        statements,
                        name,
                    );
                } else {
                    lemma_fields_stable_when_unnamed(el, from + 1, fields, statements, name);
                }
            },
            _ => {
                lemma_fields_stable_when_unnamed(el, from + 1, fields, statements, name);
            },
        }
    }
}

/// When no child from `from` on is a statement named `name`, the fold leaves
/// the accumulated slot for `name` untouched.
pub proof fn lemma_statements_stable_when_unnamed(
    el: XmlElement,
    from: int,
    fields: Map<Seq<char>, FieldValueV>,
    statements: Map<Seq<char>, StatementBodyV>,
    name: Seq<char>,
)
    requires
        0 <= from,
        forall|j: int|
            from <= j < el.children@.len() ==> !child_is_statement_named(el, j, name),
        spec_block_children(el, from, fields, statements) is Ok,
        statements.contains_key(name),
    ensures
        ({
            let m = spec_block_children(el, from, fields, statements)->Ok_0.1;
            &&& m.contains_key(name)
            &&& m[name] == statements[name]
        }),
    decreases el.children@.len() - from,
{
    if from < el.children@.len() {
        assert(!child_is_statement_named(el, from, name));
        match el.children@[from] {
            XmlNode::Element(c) => {
                if c.name@ == "statement"@ {
                    let nm = spec_attr(c.attributes@, "name"@)->Some_0;
                    let body = spec_statement_body(el, from, c)->Ok_0;
                    lemma_statements_stable_when_unnamed(
                        el,
                        from + 1,
                        fields,
                        statements.insert(nm, body),
                        name,
                    );
                } else if c.name@ == "field"@ {
                    let nm = spec_attr(c.attributes@, "name"@)->Some_0;
                    let v = spec_field_value(c.children@, 0)->Ok_0;
                    lemma_statements_stable_when_unnamed(
                        el,
                        from + 1,
                        fields.insert(nm, v),
                        statements,
                        name,
                    );
                } else {
                    lemma_statements_stable_when_unnamed(el, from + 1, fields, statements, name);
                }
            },
            _ => {
                lemma_statements_stable_when_unnamed(el, from + 1, fields, statements, name);
            },
        }
    }
}

/// Duplicate field names within one block: whatever binding for `name` the
/// fold accumulated before child `k` (an earlier occurrence included), the
/// last field child named `name` decides the resulting mapping.
pub proof fn lemma_duplicate_field_overwritten(
    el: XmlElement,
    k: int,
    fields: Map<Seq<char>, FieldValueV>,
    statements: Map<Seq<char>, StatementBodyV>,
    name: Seq<char>,
)
    requires
        0 <= k < el.children@.len(),
        child_is_field_named(el, k, name),
        forall|j: int| k < j < el.children@.len() ==> !child_is_field_named(el, j, name),
        spec_block_children(el, k, fields, statements) is Ok,
    ensures
        ({
            let c = el.children@[k]->Element_0;
            let m = spec_block_children(el, k, fields, statements)->Ok_0.0;
            &&& spec_field_value(c.children@, 0) is Ok
            &&& m.contains_key(name)
            &&& m[name] == spec_field_value(c.children@, 0)->Ok_0
        }),
{
    reveal_strlit("field");
    reveal_strlit("statement");
    let c = el.children@[k]->Element_0;
    assert("field"@.len() == 5);
    assert("statement"@.len() == 9);
    assert("field"@ != "statement"@);
    assert(spec_field_value(c.children@, 0) is Ok);
    let v = spec_field_value(c.children@, 0)->Ok_0;
    lemma_fields_stable_when_unnamed(el, k + 1, fields.insert(name, v), statements, name);
}

/// Duplicate statement names within one block: the last statement child named
/// `name` decides the resulting slot, whatever was accumulated before it.
pub proof fn lemma_duplicate_statement_overwritten(
    el: XmlElement,
    k: int,
    fields: Map<Seq<char>, FieldValueV>,
    statements: Map<Seq<char>, StatementBodyV>,
    name: Seq<char>,
)
    requires
        0 <= k < el.children@.len(),
        child_is_statement_named(el, k, name),
        forall|j: int| k < j < el.children@.len() ==> !child_is_statement_named(el, j, name),
        spec_block_children(el, k, fields, statements) is Ok,
    ensures
        ({
            let c = el.children@[k]->Element_0;
            let m = spec_block_children(el, k, fields, statements)->Ok_0.1;
            &&& spec_statement_body(el, k, c) is Ok
            &&& m.contains_key(name)
            &&& m[name] == spec_statement_body(el, k, c)->Ok_0
        }),
{
    let c = el.children@[k]->Element_0;
    assert(spec_statement_body(el, k, c) is Ok);
    let body = spec_statement_body(el, k, c)->Ok_0;
    lemma_statements_stable_when_unnamed(el, k + 1, fields, statements.insert(name, body), name);
}

} // verus!
