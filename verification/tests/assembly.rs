use blockly_program::{
    get_attribute, get_next_block_element, parse_document, program_from_xml, Block, FieldValue,
    Program, XmlElement, XmlNode,
};

fn fragment_root(xml: &str) -> Option<XmlElement> {
    let nodes = parse_document(xml).expect("Failed to parse XML!");
    for node in nodes {
        if let XmlNode::Element(el) = node {
            return Some(el);
        }
    }
    None
}

#[test]
fn test_new_block() {
    let xml: &str = r#"
        <block type="inner_loop" id="]Lb|t?wfd#;s)[llJx8Y">
            <field name="COUNT">3</field>
            <statement name="BODY">
            </statement>
        </block>
    "#;
    let root_element = fragment_root(xml).unwrap();

    let block = Block::new(&root_element).unwrap();
    assert_eq!(block.block_type, "inner_loop");
    assert_eq!(block.id, "]Lb|t?wfd#;s)[llJx8Y");
    let count_field = block.fields.get("COUNT");
    assert!(count_field.is_some());
    assert_eq!(count_field.unwrap(), &FieldValue::SimpleField("3".to_string()));
}

#[test]
fn test_get_next_block_element() {
    let xml: &str = r#"
        <block type="led_on" id="^3xb.m4E9i0;3$R10(=5">
            <field name="TIME">300</field>
            <next>
                <block type="led_off" id="HX4*sB9=gbJtq$Y{ke6b">
                    <field name="TIME">100</field>
                </block>
            </next>
        </block>
    "#;
    let root_element = fragment_root(xml).unwrap();

    let next_block = get_next_block_element(&root_element);
    assert!(next_block.is_some());
    let next_block_unwrapped = next_block.unwrap();
    assert_eq!(get_attribute(next_block_unwrapped, "type"), Some("led_off".to_string()));
    assert_eq!(get_attribute(next_block_unwrapped, "id"), Some("HX4*sB9=gbJtq$Y{ke6b".to_string()));
}

#[test]
fn test_program_from_xml_advanced() {
    let xml: &str = r#"
        <xml xmlns="http://www.w3.org/1999/xhtml">
            <variables></variables>
            <block type="main_loop" id="[.)/fqUYv92(mzb{?:~u" deletable="false" movable="false" x="50" y="50">
                <statement name="BODY">
                    <block type="inner_loop" id="]Lb|t?wfd#;s)[llJx8Y">
                        <field name="COUNT">3</field>
                        <statement name="BODY">
                            <block type="led_on" id="^3xb.m4E9i0;3$R10(=5">
                                <field name="TIME">300</field>
                                <next>
                                    <block type="led_off" id="HX4*sB9=gbJtq$Y{ke6b">
                                        <field name="TIME">100</field>
                                    </block>
                                </next>
                            </block>
                        </statement>
                        <next>
                            <block type="led_on" id="kB~f~7W`wkGa0i4z3mHw">
                                <field name="TIME">100</field>
                                <next>
                                    <block type="led_off" id="$fdlZB)btzA8YtB/!xz`">
                                        <field name="TIME">100</field>
                                    </block>
                                </next>
                            </block>
                        </next>
                    </block>
                </statement>
            </block>
        </xml>
    "#;

    let program: Program = program_from_xml(xml).unwrap();
    assert_eq!(program.groups.len(), 1);

    let group = program.groups.get(0).unwrap();
    assert_eq!(group.blocks.len(), 1);

    let main_loop_block = group.blocks.get(0).unwrap();
    assert_eq!(main_loop_block.block_type, "main_loop");
    assert_eq!(main_loop_block.id, "[.)/fqUYv92(mzb{?:~u");

    let main_loop_statements = &main_loop_block.statements;
    assert_eq!(main_loop_statements.len(), 1);
    assert!(main_loop_statements.contains_key("BODY"));

    let main_loop_body = main_loop_statements.get("BODY");
    let main_loop_body_statement = main_loop_body.as_ref().unwrap();
    assert_eq!(main_loop_body_statement.blocks.len(), 3);

    let inner_loop_block = main_loop_body_statement.blocks.get(0).unwrap();
    assert_eq!(inner_loop_block.block_type, "inner_loop");
    assert_eq!(inner_loop_block.id, "]Lb|t?wfd#;s)[llJx8Y");
    assert_eq!(
        inner_loop_block.fields.get("COUNT"),
        Some(&FieldValue::SimpleField("3".to_string()))
    );

    let inner_loop_statement_maybe = inner_loop_block.statements.get("BODY");
    assert!(inner_loop_statement_maybe.is_some());
    let inner_loop_statement = inner_loop_statement_maybe.unwrap();
    assert_eq!(inner_loop_statement.blocks.len(), 2);

    let led_on_block = inner_loop_statement.blocks.get(0).unwrap();
    assert_eq!(led_on_block.block_type, "led_on");
    assert_eq!(led_on_block.id, "^3xb.m4E9i0;3$R10(=5");
    assert_eq!(led_on_block.fields.get("TIME"), Some(&FieldValue::SimpleField("300".to_string())));

    let led_off_block = inner_loop_statement.blocks.get(1).unwrap();
    assert_eq!(led_off_block.block_type, "led_off");
    assert_eq!(led_off_block.id, "HX4*sB9=gbJtq$Y{ke6b");
}
