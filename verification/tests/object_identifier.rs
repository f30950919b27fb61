use rasn_compiler::intermediate::types::{ObjectIdentifierArc, ObjectIdentifierValue};
use rasn_compiler::parser::object_identifier::object_identifier_value;

#[test]
fn parses_ansi_x9_62() {
    assert_eq!(
        object_identifier_value(r#"{iso(1) member-body(2) us(840) 10045 modules(0) 2}"#)
            .unwrap()
            .1,
        ObjectIdentifierValue(vec![
            ObjectIdentifierArc {
                name: Some("iso".into()),
                number: Some(1)
            },
            ObjectIdentifierArc {
                name: Some("member-body".into()),
                number: Some(2)
            },
            ObjectIdentifierArc {
                name: Some("us".into()),
                number: Some(840)
            },
            ObjectIdentifierArc {
                name: None,
                number: Some(10045)
            },
            ObjectIdentifierArc {
                name: Some("modules".into()),
                number: Some(0)
            },
            ObjectIdentifierArc {
                name: None,
                number: Some(2)
            },
        ])
    )
}
