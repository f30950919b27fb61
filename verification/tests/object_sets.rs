use rasn_compiler::intermediate::constraints::{
    Constraint, ElementOrSetOperation, ElementSet, ObjectSet, ObjectSetValue, PatternConstraint, SetOperation,
    SetOperator, SubtypeElement, TableConstraint,
};
use rasn_compiler::intermediate::information_object::{
    FixedValueField, InformationObjectField, InformationObjectFields, Parameter, SyntaxApplication,
    TypeField,
};
use rasn_compiler::intermediate::types::{Boolean, DeclarationElsewhere, DistinguishedValue, Integer};
use rasn_compiler::intermediate::{ASN1Type, ASN1Value};
use rasn_compiler::parser::constraint::{constraint, permitted_alphabet_constraint};

#[test]
fn permitted_alphabet_admits_only_values_ranges_sizes_and_subtypes() {
    assert!(permitted_alphabet_constraint(r#"(FROM (PATTERN "a"))"#).is_err());
    assert!(permitted_alphabet_constraint(r#"(FROM ("a".."z" | PATTERN "a"))"#).is_err());
    assert!(permitted_alphabet_constraint("(FROM (WITH COMPONENTS {a}))").is_err());
    assert_eq!(
        permitted_alphabet_constraint(r#"(FROM ("a".."z" | "A"))"#).unwrap(),
        (
            "",
            SubtypeElement::PermittedAlphabet(Box::new(ElementOrSetOperation::SetOperation(
                SetOperation {
                    base: SubtypeElement::ValueRange {
                        min: Some(ASN1Value::String("a".into())),
                        max: Some(ASN1Value::String("z".into())),
                        extensible: false
                    },
                    operator: SetOperator::Union,
                    operant: Box::new(ElementOrSetOperation::Element(
                        SubtypeElement::SingleValue {
                            value: ASN1Value::String("A".into()),
                            extensible: false
                        }
                    ))
                }
            )))
        )
    );
}

#[test]
fn parameters_of_a_parameterized_type() {
    assert_eq!(
        constraint("{MyType, 5} rest").unwrap(),
        (
            " rest",
            vec![Constraint::Parameter(vec![
                Parameter::TypeParameter(ASN1Type::ElsewhereDeclaredType(DeclarationElsewhere {
                    identifier: "MyType".into(),
                    constraints: vec![]
                })),
                Parameter::ValueParameter(ASN1Value::Integer(5))
            ])]
        )
    );
    assert!(constraint("{}").is_err());
}

#[test]
fn integer_with_named_numbers_in_a_contained_subtype() {
    assert_eq!(
        constraint("(INCLUDES INTEGER {low(-1), high(10)} (0..10))").unwrap().1,
        vec![Constraint::SubtypeConstraint(ElementSet {
            set: ElementOrSetOperation::Element(SubtypeElement::ContainedSubtype {
                subtype: ASN1Type::Integer(Integer {
                    constraints: vec![Constraint::SubtypeConstraint(ElementSet {
                        set: ElementOrSetOperation::Element(SubtypeElement::ValueRange {
                            min: Some(ASN1Value::Integer(0)),
                            max: Some(ASN1Value::Integer(10)),
                            extensible: false
                        }),
                        extensible: false
                    })],
                    distinguished_values: Some(vec![
                        DistinguishedValue { name: "low".into(), value: -1 },
                        DistinguishedValue { name: "high".into(), value: 10 }
                    ])
                }),
                extensible: false
            }),
            extensible: false
        })]
    );
}

#[test]
fn inline_objects_and_extensible_object_sets() {
    assert_eq!(
        constraint("({ { &value TRUE, &Type BOOLEAN } })").unwrap().1,
        vec![Constraint::TableConstraint(TableConstraint {
            object_set: ObjectSet {
                values: vec![ObjectSetValue::Inline(InformationObjectFields::DefaultSyntax(vec![
                    InformationObjectField::FixedValueField(FixedValueField {
                        identifier: "&value".into(),
                        value: ASN1Value::Boolean(true)
                    }),
                    InformationObjectField::TypeField(TypeField {
                        identifier: "&Type".into(),
                        field_type: ASN1Type::Boolean(Boolean { constraints: vec![] })
                    })
                ]))],
                extensible: None
            },
            linked_fields: vec![]
        })]
    );
    assert_eq!(
        constraint("({ My-set, ... })").unwrap().1,
        vec![Constraint::TableConstraint(TableConstraint {
            object_set: ObjectSet {
                values: vec![ObjectSetValue::Reference("My-set".into())],
                extensible: Some(1)
            },
            linked_fields: vec![]
        })]
    );
    assert_eq!(
        constraint("({ {WITH SYNTAX value} })").unwrap().1,
        vec![Constraint::TableConstraint(TableConstraint {
            object_set: ObjectSet {
                values: vec![ObjectSetValue::Inline(InformationObjectFields::CustomSyntax(vec![
                    SyntaxApplication::Literal("WITH".into()),
                    SyntaxApplication::Literal("SYNTAX".into()),
                    SyntaxApplication::ValueReference(ASN1Value::ElsewhereDeclaredValue(
                        "value".into()
                    ))
                ]))],
                extensible: None
            },
            linked_fields: vec![]
        })]
    );
}

#[test]
fn boolean_then_constraint_reads_the_constraint() {
    let cs = constraint("(TRUE)").unwrap().1;
    assert_eq!(
        rasn_compiler::parser::boolean::boolean("BOOLEAN (TRUE)").unwrap(),
        ("", ASN1Type::Boolean(Boolean { constraints: cs }))
    );
}

#[test]
fn includes_keyword_changes_nothing() {
    assert_eq!(
        constraint("(INCLUDES MyType)").unwrap(),
        constraint("(MyType)").unwrap()
    );
}

#[test]
fn pattern_text_is_kept_as_written() {
    assert_eq!(
        constraint(r#"(PATTERN "a (b) -- c ")"#).unwrap().1,
        vec![Constraint::SubtypeConstraint(ElementSet {
            set: ElementOrSetOperation::Element(SubtypeElement::PatternConstraint(
                PatternConstraint { pattern: "a (b) -- c ".into() }
            )),
            extensible: false
        })]
    );
}

#[test]
fn keywords_do_not_name_types() {
    assert!(constraint(r#"(FROM (PATTERN "a"))"#).is_err());
    assert!(constraint("(FROM)").is_err());
    assert!(constraint("(INCLUDES SIZE)").is_err());
    assert_eq!(
        constraint("{TRUE}").unwrap().1,
        vec![Constraint::Parameter(vec![Parameter::ValueParameter(ASN1Value::Boolean(true))])]
    );
}

#[test]
fn with_component_keeps_the_inner_constraint() {
    let inner = rasn_compiler::intermediate::constraints::InnerTypeConstraint {
        is_partial: true,
        constraints: vec![rasn_compiler::intermediate::constraints::ConstrainedComponent {
            identifier: "a".into(),
            constraints: vec![],
            presence: rasn_compiler::intermediate::constraints::ComponentPresence::Present,
        }],
    };
    assert_eq!(
        constraint("(WITH COMPONENT WITH COMPONENTS {..., a PRESENT})").unwrap().1,
        vec![Constraint::SubtypeConstraint(ElementSet {
            set: ElementOrSetOperation::Element(SubtypeElement::MultipleTypeConstraints(inner)),
            extensible: false
        })]
    );
}
