use blockly_program::{program_from_xml, BuildError};

#[test]
fn test_document_syntax_error() {
    let result = program_from_xml("not a document at <all");
    assert_eq!(result.unwrap_err(), BuildError::DocumentSyntaxError);
}

#[test]
fn test_missing_root_element() {
    let result = program_from_xml(r#"<workspace><block type="t"></block></workspace>"#);
    assert_eq!(result.unwrap_err(), BuildError::MissingRootElement);
}

#[test]
fn test_empty_field_error() {
    let result = program_from_xml(r#"<xml><block type="t"><field name="F"></field></block></xml>"#);
    assert_eq!(result.unwrap_err(), BuildError::EmptyField);
}

#[test]
fn test_expression_field_error() {
    let xml = r#"<xml><block type="t"><field name="F"><block type="expr"></block></field></block></xml>"#;
    let result = program_from_xml(xml);
    assert_eq!(result.unwrap_err(), BuildError::UnimplementedExpressionField);
}

#[test]
fn test_field_missing_name_attribute() {
    let result = program_from_xml(r#"<xml><block type="t"><field>v</field></block></xml>"#);
    assert_eq!(
        result.unwrap_err(),
        BuildError::MissingAttribute {
            element: "field".to_string(),
            attribute: "name".to_string(),
        }
    );
}

#[test]
fn test_statement_missing_name_attribute() {
    let result = program_from_xml(r#"<xml><block type="t"><statement></statement></block></xml>"#);
    assert_eq!(
        result.unwrap_err(),
        BuildError::MissingAttribute {
            element: "statement".to_string(),
            attribute: "name".to_string(),
        }
    );
}

#[test]
fn test_first_error_in_document_order() {
    let xml = r#"<xml><block type="t">
        <field name="A"></field>
        <statement></statement>
    </block></xml>"#;
    let result = program_from_xml(xml);
    assert_eq!(result.unwrap_err(), BuildError::EmptyField);
}

#[test]
fn test_error_in_nested_statement_aborts() {
    let xml = r#"<xml><block type="outer">
        <statement name="BODY">
            <block type="inner"><field name="F"></field></block>
        </statement>
    </block></xml>"#;
    let result = program_from_xml(xml);
    assert_eq!(result.unwrap_err(), BuildError::EmptyField);
}
