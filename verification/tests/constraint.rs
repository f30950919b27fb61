use rasn_compiler::intermediate::constraints::{
    ComponentPresence, ConstrainedComponent, Constraint, ElementOrSetOperation, ElementSet,
    InnerTypeConstraint, ObjectSet, ObjectSetValue, PatternConstraint, SetOperation, SetOperator,
    SubtypeElement, TableConstraint, UserDefinedConstraint,
};
use rasn_compiler::intermediate::information_object::{
    FixedValueField, InformationObjectField, InformationObjectFields, SyntaxApplication, TypeField,
};
use rasn_compiler::intermediate::types::{DeclarationElsewhere, Integer};
use rasn_compiler::intermediate::{ASN1Type, ASN1Value};
use rasn_compiler::parser::constraint::{constraint, permitted_alphabet_constraint, value_range};

#[test]
fn parses_value_constraint() {
    assert_eq!(
        constraint("(5)").unwrap().1,
        vec![Constraint::SubtypeConstraint(ElementSet {
            set: ElementOrSetOperation::Element(SubtypeElement::SingleValue {
                value: ASN1Value::Integer(5),
                extensible: false
            }),
            extensible: false
        })]
    );
    assert_eq!(
        constraint("(5..9)").unwrap().1,
        vec![Constraint::SubtypeConstraint(ElementSet {
            set: ElementOrSetOperation::Element(SubtypeElement::ValueRange {
                min: Some(ASN1Value::Integer(5)),
                max: Some(ASN1Value::Integer(9)),
                extensible: false
            }),
            extensible: false
        })]
    );
    assert_eq!(
        constraint("(-5..9)").unwrap().1,
        vec![Constraint::SubtypeConstraint(ElementSet {
            set: ElementOrSetOperation::Element(SubtypeElement::ValueRange {
                min: Some(ASN1Value::Integer(-5)),
                max: Some(ASN1Value::Integer(9)),
                extensible: false
            }),
            extensible: false
        })]
    );
    assert_eq!(
        constraint("(-9..-4,...)").unwrap().1,
        vec![Constraint::SubtypeConstraint(ElementSet {
            set: ElementOrSetOperation::Element(SubtypeElement::ValueRange {
                min: Some(ASN1Value::Integer(-9)),
                max: Some(ASN1Value::Integer(-4)),
                extensible: true
            }),
            extensible: false
        })]
    );
}

#[test]
fn handles_added_extension_values() {
    assert_eq!(
        constraint("(1..32767,..., 8388607)").unwrap().1,
        vec![Constraint::SubtypeConstraint(ElementSet {
            set: ElementOrSetOperation::Element(SubtypeElement::ValueRange {
                min: Some(ASN1Value::Integer(1)),
                max: Some(ASN1Value::Integer(32767)),
                extensible: true
            }),
            extensible: false
        })]
    )
}

#[test]
fn handles_redundant_parentheses() {
    assert_eq!(
        constraint("((5..9))").unwrap().1,
        vec![Constraint::SubtypeConstraint(ElementSet {
            set: ElementOrSetOperation::Element(SubtypeElement::ValueRange {
                min: Some(ASN1Value::Integer(5)),
                max: Some(ASN1Value::Integer(9)),
                extensible: false
            }),
            extensible: false
        })]
    );
}

#[test]
fn parses_value_constraint_with_inserted_comment() {
    assert_eq!(
        constraint("(-9..-4, -- Very annoying! -- ...)").unwrap().1,
        vec![Constraint::SubtypeConstraint(ElementSet {
            set: ElementOrSetOperation::Element(SubtypeElement::ValueRange {
                min: Some(ASN1Value::Integer(-9)),
                max: Some(ASN1Value::Integer(-4)),
                extensible: true
            }),
            extensible: false
        })]
    );
    assert_eq!(
        constraint("(-9-- Very annoying! --..-4,  ...)").unwrap().1,
        vec![Constraint::SubtypeConstraint(ElementSet {
            set: ElementOrSetOperation::Element(SubtypeElement::ValueRange {
                min: Some(ASN1Value::Integer(-9)),
                max: Some(ASN1Value::Integer(-4)),
                extensible: true
            }),
            extensible: false
        })]
    );
}

#[test]
fn parses_size_constraint() {
    assert_eq!(
        constraint("(SIZE(3..16, ...))").unwrap().1,
        vec![Constraint::SubtypeConstraint(ElementSet {
            set: ElementOrSetOperation::Element(SubtypeElement::SizeConstraint(Box::new(
                ElementOrSetOperation::Element(SubtypeElement::ValueRange {
                    min: Some(ASN1Value::Integer(3)),
                    max: Some(ASN1Value::Integer(16)),
                    extensible: true
                })
            ))),
            extensible: false
        })]
    )
}

#[test]
fn parses_composite_constraint() {
    assert_eq!(
        constraint(r#"(ALL EXCEPT 1)"#).unwrap().1,
        vec![Constraint::SubtypeConstraint(ElementSet {
            set: ElementOrSetOperation::SetOperation(SetOperation {
                base: SubtypeElement::SingleValue {
                    value: ASN1Value::All,
                    extensible: false
                },
                operator: SetOperator::Except,
                operant: Box::new(ElementOrSetOperation::Element(
                    SubtypeElement::SingleValue {
                        value: ASN1Value::Integer(1),
                        extensible: false
                    }
                ))
            }),
            extensible: false
        })]
    )
}

#[test]
fn parses_complex_set() {
    assert_eq!(
        constraint(
            r#"((WITH COMPONENT (WITH COMPONENTS {..., containerId (ALL EXCEPT 1)})) |
      (WITH COMPONENT (WITH COMPONENTS {..., containerId (ALL EXCEPT 2)})))"#
        )
        .unwrap()
        .1,
        vec![Constraint::SubtypeConstraint(ElementSet {
            set: ElementOrSetOperation::SetOperation(SetOperation {
                base: SubtypeElement::MultipleTypeConstraints(InnerTypeConstraint {
                    is_partial: true,
                    constraints: vec![ConstrainedComponent {
                        identifier: "containerId".into(),
                        constraints: vec![Constraint::SubtypeConstraint(ElementSet {
                            set: ElementOrSetOperation::SetOperation(SetOperation {
                                base: SubtypeElement::SingleValue {
                                    value: ASN1Value::All,
                                    extensible: false
                                },
                                operator: SetOperator::Except,
                                operant: Box::new(ElementOrSetOperation::Element(
                                    SubtypeElement::SingleValue {
                                        value: ASN1Value::Integer(1),
                                        extensible: false
                                    }
                                ))
                            }),
                            extensible: false
                        })],
                        presence: ComponentPresence::Unspecified
                    }]
                }),
                operator: SetOperator::Union,
                operant: Box::new(ElementOrSetOperation::Element(
                    SubtypeElement::MultipleTypeConstraints(InnerTypeConstraint {
                        is_partial: true,
                        constraints: vec![ConstrainedComponent {
                            identifier: "containerId".into(),
                            constraints: vec![Constraint::SubtypeConstraint(ElementSet {
                                set: ElementOrSetOperation::SetOperation(SetOperation {
                                    base: SubtypeElement::SingleValue {
                                        value: ASN1Value::All,
                                        extensible: false
                                    },
                                    operator: SetOperator::Except,
                                    operant: Box::new(ElementOrSetOperation::Element(
                                        SubtypeElement::SingleValue {
                                            value: ASN1Value::Integer(2),
                                            extensible: false
                                        }
                                    ))
                                }),
                                extensible: false
                            })],
                            presence: ComponentPresence::Unspecified
                        }]
                    })
                ))
            }),
            extensible: false
        })]
    )
}

#[test]
fn parses_full_component_constraint() {
    assert_eq!(
        constraint(
            "(WITH COMPONENTS
              {ordering ABSENT ,
              sales (0..5) PRESENT,
              e-cash-return ABSENT } )"
        )
        .unwrap()
        .1,
        vec![Constraint::SubtypeConstraint(ElementSet {
            set: ElementOrSetOperation::Element(SubtypeElement::SingleTypeConstraint(
                InnerTypeConstraint {
                    is_partial: false,
                    constraints: vec![
                        ConstrainedComponent {
                            identifier: "ordering".into(),
                            constraints: vec![],
                            presence: ComponentPresence::Absent
                        },
                        ConstrainedComponent {
                            identifier: "sales".into(),
                            constraints: vec![Constraint::SubtypeConstraint(ElementSet {
                                set: ElementOrSetOperation::Element(
                                    SubtypeElement::ValueRange {
                                        min: Some(ASN1Value::Integer(0)),
                                        max: Some(ASN1Value::Integer(5)),
                                        extensible: false
                                    }
                                ),
                                extensible: false
                            })],
                            presence: ComponentPresence::Present
                        },
                        ConstrainedComponent {
                            identifier: "e-cash-return".into(),
                            constraints: vec![],
                            presence: ComponentPresence::Absent
                        }
                    ]
                }
            )),
            extensible: false
        })]
    );
}

#[test]
fn parses_partial_component_constraint() {
    assert_eq!(
        constraint(
            "( WITH COMPONENTS
                  {... ,
                  ordering ABSENT,
                  sales (0..5) } )"
        )
        .unwrap()
        .1,
        vec![Constraint::SubtypeConstraint(ElementSet {
            set: ElementOrSetOperation::Element(SubtypeElement::SingleTypeConstraint(
                InnerTypeConstraint {
                    is_partial: true,
                    constraints: vec![
                        ConstrainedComponent {
                            identifier: "ordering".into(),
                            constraints: vec![],
                            presence: ComponentPresence::Absent
                        },
                        ConstrainedComponent {
                            identifier: "sales".into(),
                            constraints: vec![Constraint::SubtypeConstraint(ElementSet {
                                set: ElementOrSetOperation::Element(
                                    SubtypeElement::ValueRange {
                                        min: Some(ASN1Value::Integer(0)),
                                        max: Some(ASN1Value::Integer(5)),
                                        extensible: false
                                    }
                                ),
                                extensible: false
                            })],
                            presence: ComponentPresence::Unspecified
                        }
                    ]
                }
            )),
            extensible: false
        })]
    );
}

#[test]
fn parses_composite_array_constraint() {
    assert_eq!(
        constraint(
            "((WITH COMPONENT (WITH COMPONENTS {..., eventDeltaTime PRESENT})) |
                (WITH COMPONENT (WITH COMPONENTS {..., eventDeltaTime ABSENT})))
            "
        )
        .unwrap()
        .1,
        vec![Constraint::SubtypeConstraint(ElementSet {
            set: ElementOrSetOperation::SetOperation(SetOperation {
                base: SubtypeElement::MultipleTypeConstraints(InnerTypeConstraint {
                    is_partial: true,
                    constraints: vec![ConstrainedComponent {
                        identifier: "eventDeltaTime".into(),
                        constraints: vec![],
                        presence: ComponentPresence::Present
                    }]
                }),
                operator: SetOperator::Union,
                operant: Box::new(ElementOrSetOperation::Element(
                    SubtypeElement::MultipleTypeConstraints(InnerTypeConstraint {
                        is_partial: true,
                        constraints: vec![ConstrainedComponent {
                            identifier: "eventDeltaTime".into(),
                            constraints: vec![],
                            presence: ComponentPresence::Absent
                        }]
                    })
                ))
            }),
            extensible: false
        })]
    );
}

#[test]
fn parses_composite_component_constraint() {
    assert_eq!(
        constraint(
            "((WITH COMPONENTS {..., laneId PRESENT, connectionId ABSENT }) |
                (WITH COMPONENTS {..., laneId ABSENT, connectionId PRESENT }))
            "
        )
        .unwrap()
        .1,
        vec![Constraint::SubtypeConstraint(ElementSet {
            set: ElementOrSetOperation::SetOperation(SetOperation {
                base: SubtypeElement::SingleTypeConstraint(InnerTypeConstraint {
                    is_partial: true,
                    constraints: vec![
                        ConstrainedComponent {
                            identifier: "laneId".into(),
                            constraints: vec![],
                            presence: ComponentPresence::Present
                        },
                        ConstrainedComponent {
                            identifier: "connectionId".into(),
                            constraints: vec![],
                            presence: ComponentPresence::Absent
                        }
                    ]
                }),
                operator: SetOperator::Union,
                operant: Box::new(ElementOrSetOperation::Element(
                    SubtypeElement::SingleTypeConstraint(InnerTypeConstraint {
                        is_partial: true,
                        constraints: vec![
                            ConstrainedComponent {
                                identifier: "laneId".into(),
                                constraints: vec![],
                                presence: ComponentPresence::Absent
                            },
                            ConstrainedComponent {
                                identifier: "connectionId".into(),
                                constraints: vec![],
                                presence: ComponentPresence::Present
                            }
                        ]
                    })
                ))
            }),
            extensible: false
        })]
    );
}

#[test]
fn parses_composite_range_constraint() {
    assert_eq!(
        constraint(
            "(0..3|5..8|10)
            "
        )
        .unwrap()
        .1,
        vec![Constraint::SubtypeConstraint(ElementSet {
            set: ElementOrSetOperation::SetOperation(SetOperation {
                base: SubtypeElement::ValueRange {
                    min: Some(ASN1Value::Integer(0)),
                    max: Some(ASN1Value::Integer(3)),
                    extensible: false
                },
                operator: SetOperator::Union,
                operant: Box::new(ElementOrSetOperation::SetOperation(SetOperation {
                    base: SubtypeElement::ValueRange {
                        min: Some(ASN1Value::Integer(5)),
                        max: Some(ASN1Value::Integer(8)),
                        extensible: false
                    },
                    operator: SetOperator::Union,
                    operant: Box::new(ElementOrSetOperation::Element(
                        SubtypeElement::SingleValue {
                            value: ASN1Value::Integer(10),
                            extensible: false
                        }
                    ))
                }))
            }),
            extensible: false
        })]
    );
}

#[test]
fn parses_composite_range_constraint_with_elsewhere_declared_values() {
    assert_eq!(
        constraint(
            "(unknown   | passengerCar..tram
              | agricultural)"
        )
        .unwrap()
        .1,
        vec![Constraint::SubtypeConstraint(ElementSet {
            set: ElementOrSetOperation::SetOperation(SetOperation {
                base: SubtypeElement::SingleValue {
                    value: ASN1Value::ElsewhereDeclaredValue("unknown".to_string()),
                    extensible: false
                },
                operator: SetOperator::Union,
                operant: Box::new(ElementOrSetOperation::SetOperation(SetOperation {
                    base: SubtypeElement::ValueRange {
                        min: Some(ASN1Value::ElsewhereDeclaredValue(
                            "passengerCar".to_string()
                        )),
                        max: Some(ASN1Value::ElsewhereDeclaredValue("tram".to_string())),
                        extensible: false
                    },
                    operator: SetOperator::Union,
                    operant: Box::new(ElementOrSetOperation::Element(
                        SubtypeElement::SingleValue {
                            value: ASN1Value::ElsewhereDeclaredValue(
                                "agricultural".to_string()
                            ),
                            extensible: false
                        }
                    ))
                }))
            }),
            extensible: false
        })]
    );
}

#[test]
fn parses_character_value_range() {
    assert_eq!(
        value_range(r#""a".."z""#).unwrap().1,
        SubtypeElement::ValueRange {
            min: Some(ASN1Value::String("a".to_owned())),
            max: Some(ASN1Value::String("z".to_owned())),
            extensible: false
        }
    )
}

#[test]
fn parses_permitted_alphabet_constraint() {
    assert_eq!(
        permitted_alphabet_constraint(r#"(FROM ("a".."z" | "A".."Z" | "0".."9" | ".-"))"#)
            .unwrap()
            .1,
        SubtypeElement::PermittedAlphabet(Box::new(ElementOrSetOperation::SetOperation(
            SetOperation {
                base: SubtypeElement::ValueRange {
                    min: Some(ASN1Value::String("a".to_owned())),
                    max: Some(ASN1Value::String("z".to_owned())),
                    extensible: false
                },
                operator: SetOperator::Union,
                operant: Box::new(ElementOrSetOperation::SetOperation(SetOperation {
                    base: SubtypeElement::ValueRange {
                        min: Some(ASN1Value::String("A".to_owned())),
                        max: Some(ASN1Value::String("Z".to_owned())),
                        extensible: false
                    },
                    operator: SetOperator::Union,
                    operant: Box::new(ElementOrSetOperation::SetOperation(SetOperation {
                        base: SubtypeElement::ValueRange {
                            min: Some(ASN1Value::String("0".to_owned())),
                            max: Some(ASN1Value::String("9".to_owned())),
                            extensible: false
                        },
                        operator: SetOperator::Union,
                        operant: Box::new(ElementOrSetOperation::Element(
                            SubtypeElement::SingleValue {
                                value: ASN1Value::String(".-".to_owned()),
                                extensible: false
                            }
                        ))
                    }))
                }))
            }
        )))
    )
}

#[test]
fn parses_serial_constraints() {
    assert_eq!(
        constraint(r#"(FROM ("a".."z" | "A".."Z" | "0".."9" | ".-")) (SIZE (1..255))"#)
            .unwrap()
            .1,
        vec![
            Constraint::SubtypeConstraint(ElementSet {
                set: ElementOrSetOperation::Element(SubtypeElement::PermittedAlphabet(
                    Box::new(ElementOrSetOperation::SetOperation(SetOperation {
                        base: SubtypeElement::ValueRange {
                            min: Some(ASN1Value::String("a".to_owned())),
                            max: Some(ASN1Value::String("z".to_owned())),
                            extensible: false
                        },
                        operator: SetOperator::Union,
                        operant: Box::new(ElementOrSetOperation::SetOperation(SetOperation {
                            base: SubtypeElement::ValueRange {
                                min: Some(ASN1Value::String("A".to_owned())),
                                max: Some(ASN1Value::String("Z".to_owned())),
                                extensible: false
                            },
                            operator: SetOperator::Union,
                            operant: Box::new(ElementOrSetOperation::SetOperation(
                                SetOperation {
                                    base: SubtypeElement::ValueRange {
                                        min: Some(ASN1Value::String("0".to_owned())),
                                        max: Some(ASN1Value::String("9".to_owned())),
                                        extensible: false
                                    },
                                    operator: SetOperator::Union,
                                    operant: Box::new(ElementOrSetOperation::Element(
                                        SubtypeElement::SingleValue {
                                            value: ASN1Value::String(".-".to_owned()),
                                            extensible: false
                                        }
                                    ))
                                }
                            ))
                        }))
                    }))
                )),
                extensible: false
            }),
            Constraint::SubtypeConstraint(ElementSet {
                set: ElementOrSetOperation::Element(SubtypeElement::SizeConstraint(Box::new(
                    ElementOrSetOperation::Element(SubtypeElement::ValueRange {
                        min: Some(ASN1Value::Integer(1)),
                        max: Some(ASN1Value::Integer(255)),
                        extensible: false
                    })
                ))),
                extensible: false
            })
        ]
    )
}

#[test]
fn parses_real_constraint() {
    assert_eq!(
        constraint(
            r#"(WITH COMPONENTS {
            mantissa (-16777215..16777215),
            base (2),
            exponent (-125..128) } )"#
        )
        .unwrap()
        .1,
        vec![Constraint::SubtypeConstraint(ElementSet {
            set: ElementOrSetOperation::Element(SubtypeElement::SingleTypeConstraint(
                InnerTypeConstraint {
                    is_partial: false,
                    constraints: vec![
                        ConstrainedComponent {
                            identifier: "mantissa".into(),
                            constraints: vec![Constraint::SubtypeConstraint(ElementSet {
                                set: ElementOrSetOperation::Element(
                                    SubtypeElement::ValueRange {
                                        min: Some(ASN1Value::Integer(-16777215)),
                                        max: Some(ASN1Value::Integer(16777215)),
                                        extensible: false
                                    }
                                ),
                                extensible: false
                            })],
                            presence: ComponentPresence::Unspecified
                        },
                        ConstrainedComponent {
                            identifier: "base".into(),
                            constraints: vec![Constraint::SubtypeConstraint(ElementSet {
                                set: ElementOrSetOperation::Element(
                                    SubtypeElement::SingleValue {
                                        value: ASN1Value::Integer(2),
                                        extensible: false
                                    }
                                ),
                                extensible: false
                            })],
                            presence: ComponentPresence::Unspecified
                        },
                        ConstrainedComponent {
                            identifier: "exponent".into(),
                            constraints: vec![Constraint::SubtypeConstraint(ElementSet {
                                set: ElementOrSetOperation::Element(
                                    SubtypeElement::ValueRange {
                                        min: Some(ASN1Value::Integer(-125)),
                                        max: Some(ASN1Value::Integer(128)),
                                        extensible: false
                                    }
                                ),
                                extensible: false
                            })],
                            presence: ComponentPresence::Unspecified
                        }
                    ]
                }
            )),
            extensible: false
        })]
    )
}

#[test]
fn parses_pattern_constraint() {
    assert_eq!(constraint(
        r#"(PATTERN "[a-zA-Z]#(1,8)(-[a-zA-Z0-9]#(1,8))*")"#
    ).unwrap().1, 
    vec![
        Constraint::SubtypeConstraint(
            ElementSet { 
                set: ElementOrSetOperation::Element(
                    SubtypeElement::PatternConstraint(
                        PatternConstraint {
                            pattern: "[a-zA-Z]#(1,8)(-[a-zA-Z0-9]#(1,8))*".into()
                        }
                        )
                    ), 
                    extensible: false 
                }
            )
        ]
    )
}

#[test]
fn parses_user_defined_constraint() {
    assert_eq!(
        constraint(
            r#"(CONSTRAINED BY {/* XML representation of the XSD pattern "\d\d\d\d-\d\d-\d\dT\d\d:\d\d:\d\d[-,+]\d\d:\d\d" */})"#
        ).unwrap().1, 
        vec![
            Constraint::SubtypeConstraint(
                ElementSet { 
                    set: ElementOrSetOperation::Element(
                        SubtypeElement::UserDefinedConstraint(
                            UserDefinedConstraint { 
                                definition: "/* XML representation of the XSD pattern \"\\d\\d\\d\\d-\\d\\d-\\d\\dT\\d\\d:\\d\\d:\\d\\d[-,+]\\d\\d:\\d\\d\" */".into()
                            }
                            )
                        ), 
                        extensible: false 
                    }
                )
            ]
        )
}

#[test]
fn parses_table_constraint() {
    assert_eq!(
        constraint(
            "({
                  My-ops |
                  {
                    &id 5,
                    &Type INTEGER (1..6)
                  } |
                  {ConnectionManeuverAssist-addGrpC  IDENTIFIED BY addGrpC},
                  ...
                })"
        )
        .unwrap()
        .1,
        vec![Constraint::TableConstraint(TableConstraint {
            object_set: ObjectSet {
                values: vec![
                    ObjectSetValue::Reference("My-ops".into()),
                    ObjectSetValue::Inline(InformationObjectFields::DefaultSyntax(vec![
                        InformationObjectField::FixedValueField(FixedValueField {
                            identifier: "&id".into(),
                            value: ASN1Value::Integer(5)
                        }),
                        InformationObjectField::TypeField(TypeField {
                            identifier: "&Type".into(),
                            field_type: ASN1Type::Integer(Integer {
                                constraints: vec![Constraint::SubtypeConstraint(ElementSet {
                                    set: ElementOrSetOperation::Element(
                                        SubtypeElement::ValueRange {
                                            min: Some(ASN1Value::Integer(1)),
                                            max: Some(ASN1Value::Integer(6)),
                                            extensible: false
                                        }
                                    ),
                                    extensible: false
                                })],
                                distinguished_values: None
                            })
                        })
                    ])),
                    ObjectSetValue::Inline(InformationObjectFields::CustomSyntax(vec![
                        SyntaxApplication::TypeReference(ASN1Type::ElsewhereDeclaredType(
                            DeclarationElsewhere {
                                identifier: "ConnectionManeuverAssist-addGrpC".into(),
                                constraints: vec![]
                            }
                        )),
                        SyntaxApplication::Literal("IDENTIFIED".into()),
                        SyntaxApplication::Literal("BY".into()),
                        SyntaxApplication::ValueReference(ASN1Value::ElsewhereDeclaredValue(
                            "addGrpC".into()
                        ))
                    ]))
                ],
                extensible: Some(3)
            },
            linked_fields: vec![]
        })]
    );
}
