use blockly_program::{program_from_xml, FieldValue, Program};

#[test]
fn test_program_new_is_empty() {
    let program = Program::new();
    assert_eq!(program.groups.len(), 0);
}

#[test]
fn test_single_block_with_field() {
    let xml = r#"<xml><block type="X" id="Y"><field name="F">v</field></block></xml>"#;
    let program = program_from_xml(xml).unwrap();
    assert_eq!(program.groups.len(), 1);
    let group = &program.groups[0];
    assert_eq!(group.blocks.len(), 1);
    let block = &group.blocks[0];
    assert_eq!(block.block_type, "X");
    assert_eq!(block.id, "Y");
    assert_eq!(block.fields.len(), 1);
    assert_eq!(block.fields.get("F"), Some(&FieldValue::SimpleField("v".to_string())));
}

#[test]
fn test_chain_of_three_in_order() {
    let xml = r#"<xml>
        <block type="b1" id="1">
            <next>
                <block type="b2" id="2">
                    <next>
                        <block type="b3" id="3"></block>
                    </next>
                </block>
            </next>
        </block>
    </xml>"#;
    let program = program_from_xml(xml).unwrap();
    assert_eq!(program.groups.len(), 1);
    let group = &program.groups[0];
    assert_eq!(group.blocks.len(), 3);
    assert_eq!(group.blocks[0].block_type, "b1");
    assert_eq!(group.blocks[1].block_type, "b2");
    assert_eq!(group.blocks[2].block_type, "b3");
}

#[test]
fn test_block_without_next_is_single() {
    let xml = r#"<xml><block type="solo" id="s"></block></xml>"#;
    let program = program_from_xml(xml).unwrap();
    assert_eq!(program.groups.len(), 1);
    assert_eq!(program.groups[0].blocks.len(), 1);
    assert_eq!(program.groups[0].blocks[0].block_type, "solo");
}

#[test]
fn test_unknown_top_level_element_ignored() {
    let xml = r#"<xml><variables></variables><widgets></widgets></xml>"#;
    let program = program_from_xml(xml).unwrap();
    assert_eq!(program.groups.len(), 0);
}

#[test]
fn test_missing_type_and_id_default_to_empty() {
    let xml = r#"<xml><block></block></xml>"#;
    let program = program_from_xml(xml).unwrap();
    let block = &program.groups[0].blocks[0];
    assert_eq!(block.block_type, "");
    assert_eq!(block.id, "");
}

#[test]
fn test_duplicate_field_later_wins() {
    let xml = r#"<xml><block type="t" id="i">
        <field name="F">first</field>
        <field name="F">second</field>
    </block></xml>"#;
    let program = program_from_xml(xml).unwrap();
    let block = &program.groups[0].blocks[0];
    assert_eq!(block.fields.len(), 1);
    assert_eq!(block.fields.get("F"), Some(&FieldValue::SimpleField("second".to_string())));
}

#[test]
fn test_duplicate_statement_later_wins() {
    let xml = r#"<xml><block type="t" id="i">
        <statement name="S"><block type="early" id="1"></block></statement>
        <statement name="S"><block type="late" id="2"></block></statement>
    </block></xml>"#;
    let program = program_from_xml(xml).unwrap();
    let block = &program.groups[0].blocks[0];
    assert_eq!(block.statements.len(), 1);
    let slot = block.statements.get("S").unwrap();
    assert_eq!(slot.blocks.len(), 1);
    assert_eq!(slot.blocks[0].block_type, "late");
}

#[test]
fn test_empty_statement_slot() {
    let xml = r#"<xml><block type="t" id="i"><statement name="S"></statement></block></xml>"#;
    let program = program_from_xml(xml).unwrap();
    let block = &program.groups[0].blocks[0];
    let slot = block.statements.get("S").unwrap();
    assert_eq!(slot.blocks.len(), 0);
}

#[test]
fn test_two_top_level_groups() {
    let xml = r#"<xml>
        <block type="g1" id="1"></block>
        <block type="g2" id="2"><next><block type="g2b" id="3"></block></next></block>
    </xml>"#;
    let program = program_from_xml(xml).unwrap();
    assert_eq!(program.groups.len(), 2);
    assert_eq!(program.groups[0].blocks.len(), 1);
    assert_eq!(program.groups[0].blocks[0].block_type, "g1");
    assert_eq!(program.groups[1].blocks.len(), 2);
    assert_eq!(program.groups[1].blocks[0].block_type, "g2");
    assert_eq!(program.groups[1].blocks[1].block_type, "g2b");
}
