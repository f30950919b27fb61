use rasn_compiler::intermediate::constraints::{
    Constraint, ElementOrSetOperation, ElementSet, ObjectSet, ObjectSetValue, RelationalConstraint,
    SetOperator, SubtypeElement, TableConstraint, UserDefinedConstraint,
};
use rasn_compiler::intermediate::types::{
    Boolean, DeclarationElsewhere, ObjectIdentifier, ObjectIdentifierArc, ObjectIdentifierValue,
};
use rasn_compiler::intermediate::{ASN1Type, ASN1Value};
use rasn_compiler::parser::boolean::{boolean, boolean_value};
use rasn_compiler::parser::constraint::{constraint, set_operator, single_constraint, value_range};
use rasn_compiler::parser::input::ParseError;
use rasn_compiler::parser::object_identifier::{object_identifier, object_identifier_value};

fn single_value(value: ASN1Value, extensible: bool) -> Vec<Constraint> {
    vec![Constraint::SubtypeConstraint(ElementSet {
        set: ElementOrSetOperation::Element(SubtypeElement::SingleValue { value, extensible }),
        extensible: false,
    })]
}

fn range(min: Option<ASN1Value>, max: Option<ASN1Value>, extensible: bool) -> Vec<Constraint> {
    vec![Constraint::SubtypeConstraint(ElementSet {
        set: ElementOrSetOperation::Element(SubtypeElement::ValueRange { min, max, extensible }),
        extensible: false,
    })]
}

#[test]
fn boolean_values_and_remaining_input() {
    assert_eq!(boolean_value("TRUE"), Ok(("", ASN1Value::Boolean(true))));
    assert_eq!(boolean_value("  FALSE, x"), Ok((", x", ASN1Value::Boolean(false))));
    assert_eq!(boolean_value("-- c --TRUE)"), Ok((")", ASN1Value::Boolean(true))));
    assert_eq!(boolean_value("maybe"), Err(ParseError));
    assert_eq!(boolean_value(""), Err(ParseError));
}

#[test]
fn boolean_type_with_constraint() {
    assert_eq!(
        boolean("BOOLEAN (TRUE) rest").unwrap(),
        (
            " rest",
            ASN1Type::Boolean(Boolean { constraints: single_value(ASN1Value::Boolean(true), false) })
        )
    );
    assert_eq!(
        boolean("BOOLEAN ,").unwrap(),
        (",", ASN1Type::Boolean(Boolean { constraints: vec![] }))
    );
    assert_eq!(boolean("INTEGER"), Err(ParseError));
}

#[test]
fn set_operators_in_both_spellings() {
    assert_eq!(set_operator("INTERSECTION x"), Ok((" x", SetOperator::Intersection)));
    assert_eq!(set_operator(" ^x"), Ok(("x", SetOperator::Intersection)));
    assert_eq!(set_operator("UNION"), Ok(("", SetOperator::Union)));
    assert_eq!(set_operator(" | "), Ok((" ", SetOperator::Union)));
    assert_eq!(set_operator("/* c */ EXCEPT"), Ok(("", SetOperator::Except)));
    assert_eq!(set_operator("AND"), Err(ParseError));
}

#[test]
fn leading_layout_is_ignored() {
    let plain = constraint("(5..9)").unwrap();
    let padded = constraint(" \t-- note --\n /* block */ (5..9)").unwrap();
    assert_eq!(plain, padded);
    assert_eq!(
        single_constraint("\n  (7)").unwrap().1,
        single_constraint("(7)").unwrap().1
    );
}

#[test]
fn constraints_need_at_least_one_element() {
    assert_eq!(constraint(""), Err(ParseError));
    assert_eq!(constraint("()"), Err(ParseError));
    assert_eq!(constraint("5"), Err(ParseError));
    assert_eq!(object_identifier_value("{}"), Err(ParseError));
}

#[test]
fn integers_through_signed_parsing() {
    assert_eq!(constraint("(+5)").unwrap().1, single_value(ASN1Value::Integer(5), false));
    assert_eq!(
        constraint("(-170141183460469231731687303715884105728)").unwrap().1,
        single_value(ASN1Value::Integer(i128::MIN), false)
    );
    assert_eq!(
        constraint("(170141183460469231731687303715884105727)").unwrap().1,
        single_value(ASN1Value::Integer(i128::MAX), false)
    );
    assert_eq!(constraint("(170141183460469231731687303715884105728)"), Err(ParseError));
}

#[test]
fn values_of_each_kind() {
    assert_eq!(constraint("(ALL)").unwrap().1, single_value(ASN1Value::All, false));
    assert_eq!(
        constraint("(\"a\"\"b\")").unwrap().1,
        single_value(ASN1Value::String("a\"b".to_string()), false)
    );
    assert_eq!(
        constraint("(someValue, ...)").unwrap().1,
        single_value(ASN1Value::ElsewhereDeclaredValue("someValue".to_string()), true)
    );
}

#[test]
fn range_bounds_and_extension_additions() {
    assert_eq!(constraint("(MIN..MAX)").unwrap().1, range(None, None, false));
    assert_eq!(
        constraint("(0>..<10)").unwrap().1,
        range(Some(ASN1Value::Integer(0)), Some(ASN1Value::Integer(10)), false)
    );
    assert_eq!(
        constraint("(1..10, ..., 20, 40, MIN..0)").unwrap().1,
        range(Some(ASN1Value::Integer(1)), Some(ASN1Value::Integer(10)), true)
    );
    // An addition is read as a value first, so a range that starts with a
    // number stops the list of additions after that number.
    assert_eq!(constraint("(1..10, ..., 20..30)"), Err(ParseError));
    assert_eq!(
        value_range("3..MAX rest").unwrap(),
        (
            " rest",
            SubtypeElement::ValueRange {
                min: Some(ASN1Value::Integer(3)),
                max: None,
                extensible: false
            }
        )
    );
}

#[test]
fn table_constraint_with_linked_fields() {
    assert_eq!(
        constraint("({My-Set | Other, ...}{@.id, @..kind})").unwrap().1,
        vec![Constraint::TableConstraint(TableConstraint {
            object_set: ObjectSet {
                values: vec![
                    ObjectSetValue::Reference("My-Set".to_string()),
                    ObjectSetValue::Reference("Other".to_string())
                ],
                extensible: Some(2)
            },
            linked_fields: vec![
                RelationalConstraint { field_name: "id".to_string(), level: 1 },
                RelationalConstraint { field_name: "kind".to_string(), level: 2 }
            ]
        })]
    );
    assert_eq!(
        constraint("({Set})").unwrap().1,
        vec![Constraint::TableConstraint(TableConstraint {
            object_set: ObjectSet {
                values: vec![ObjectSetValue::Reference("Set".to_string())],
                extensible: None
            },
            linked_fields: vec![]
        })]
    );
}

#[test]
fn size_constraint_without_parentheses() {
    assert_eq!(
        constraint("SIZE (1..4)").unwrap().1,
        vec![Constraint::SubtypeConstraint(ElementSet {
            set: ElementOrSetOperation::Element(SubtypeElement::SizeConstraint(Box::new(
                ElementOrSetOperation::Element(SubtypeElement::ValueRange {
                    min: Some(ASN1Value::Integer(1)),
                    max: Some(ASN1Value::Integer(4)),
                    extensible: false
                })
            ))),
            extensible: false
        })]
    );
}

#[test]
fn user_defined_constraint_keeps_nested_braces() {
    assert_eq!(
        constraint("(CONSTRAINED BY {a {b} \\} c})").unwrap().1,
        vec![Constraint::SubtypeConstraint(ElementSet {
            set: ElementOrSetOperation::Element(SubtypeElement::UserDefinedConstraint(
                UserDefinedConstraint { definition: "a {b} \\} c".to_string() }
            )),
            extensible: false
        })]
    );
    assert_eq!(constraint("(CONSTRAINED BY {a {b}"), Err(ParseError));
}

#[test]
fn contained_subtypes() {
    assert_eq!(
        constraint("(INCLUDES MyType, ...)").unwrap().1,
        vec![Constraint::SubtypeConstraint(ElementSet {
            set: ElementOrSetOperation::Element(SubtypeElement::ContainedSubtype {
                subtype: ASN1Type::ElsewhereDeclaredType(DeclarationElsewhere {
                    identifier: "MyType".to_string(),
                    constraints: vec![]
                }),
                extensible: true
            }),
            extensible: false
        })]
    );
    assert_eq!(
        constraint("(BOOLEAN)").unwrap().1,
        vec![Constraint::SubtypeConstraint(ElementSet {
            set: ElementOrSetOperation::Element(SubtypeElement::ContainedSubtype {
                subtype: ASN1Type::Boolean(Boolean { constraints: vec![] }),
                extensible: false
            }),
            extensible: false
        })]
    );
}

#[test]
fn object_identifier_type_and_keyword() {
    assert_eq!(
        object_identifier("OBJECT IDENTIFIER").unwrap(),
        ("", ASN1Type::ObjectIdentifier(ObjectIdentifier { constraints: vec![] }))
    );
    assert_eq!(object_identifier("OBJECT"), Err(ParseError));
    let with_keyword = object_identifier_value("OBJECT IDENTIFIER { 1 2 }").unwrap();
    let without = object_identifier_value("{ 1 2 }").unwrap();
    assert_eq!(with_keyword, without);
    assert_eq!(
        without.1,
        ObjectIdentifierValue(vec![
            ObjectIdentifierArc { name: None, number: Some(1) },
            ObjectIdentifierArc { name: None, number: Some(2) }
        ])
    );
}

#[test]
fn object_identifier_arc_numbers_through_unsigned_parsing() {
    assert_eq!(
        object_identifier_value("{joint-iso-itu-t(2) 340282366920938463463374607431768211455}")
            .unwrap()
            .1,
        ObjectIdentifierValue(vec![
            ObjectIdentifierArc { name: Some("joint-iso-itu-t".to_string()), number: Some(2) },
            ObjectIdentifierArc { name: None, number: Some(u128::MAX) }
        ])
    );
    assert_eq!(
        object_identifier_value("{1 340282366920938463463374607431768211456}"),
        Err(ParseError)
    );
    assert_eq!(
        object_identifier_value("{iso}x").unwrap(),
        ("x", ObjectIdentifierValue(vec![ObjectIdentifierArc { name: Some("iso".to_string()), number: None }]))
    );
}

#[test]
fn set_operations_nest_to_the_right() {
    assert_eq!(
        constraint("(1 ^ 2 EXCEPT 3)").unwrap().1,
        vec![Constraint::SubtypeConstraint(ElementSet {
            set: ElementOrSetOperation::SetOperation(rasn_compiler::intermediate::constraints::SetOperation {
                base: SubtypeElement::SingleValue { value: ASN1Value::Integer(1), extensible: false },
                operator: SetOperator::Intersection,
                operant: Box::new(ElementOrSetOperation::SetOperation(
                    rasn_compiler::intermediate::constraints::SetOperation {
                        base: SubtypeElement::SingleValue {
                            value: ASN1Value::Integer(2),
                            extensible: false
                        },
                        operator: SetOperator::Except,
                        operant: Box::new(ElementOrSetOperation::Element(SubtypeElement::SingleValue {
                            value: ASN1Value::Integer(3),
                            extensible: false
                        }))
                    }
                ))
            }),
            extensible: false
        })]
    );
}

#[test]
fn unicode_text_after_a_match_is_returned() {
    assert_eq!(boolean_value("TRUE -- é --"), Ok((" -- é --", ASN1Value::Boolean(true))));
    assert_eq!(constraint("(ü)"), Err(ParseError));
}
