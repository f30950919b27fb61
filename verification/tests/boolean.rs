use rasn_compiler::intermediate::types::Boolean;
use rasn_compiler::intermediate::ASN1Type;
use rasn_compiler::parser::boolean::boolean;

#[test]
fn parses_boolean() {
    assert_eq!(
        boolean(" --who would put a comment here?--BOOLEAN")
            .unwrap()
            .1,
        ASN1Type::Boolean(Boolean {
            constraints: vec![]
        })
    )
}
