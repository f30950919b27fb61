//! Constraints of ASN.1 notation (X.680 clause 49 onwards) and their
//! mathematical counterparts.
use vstd::prelude::*;

use super::information_object::{
    InformationObjectField, InformationObjectFields, Parameter, SpecInformationObjectField,
    SpecInformationObjectFields, SpecParameter, SpecSyntaxApplication, SyntaxApplication,
};
use super::types::distinguished_values_view;
use super::{ASN1Type, ASN1Value, SpecASN1Type, SpecASN1Value};

verus! {

pub const INTERSECTION: &'static str = "INTERSECTION";
pub const CARET: &'static str = "^";
pub const UNION: &'static str = "UNION";
pub const PIPE: &'static str = "|";
pub const EXCEPT: &'static str = "EXCEPT";
pub const MIN: &'static str = "MIN";
pub const MAX: &'static str = "MAX";
pub const INCLUDES: &'static str = "INCLUDES";
pub const SIZE: &'static str = "SIZE";
pub const PATTERN: &'static str = "PATTERN";
pub const CONSTRAINED_BY: &'static str = "CONSTRAINED BY";
pub const FROM: &'static str = "FROM";
pub const WITH_COMPONENTS: &'static str = "WITH COMPONENTS";
pub const WITH_COMPONENT: &'static str = "WITH COMPONENT";
pub const PRESENT: &'static str = "PRESENT";
pub const ABSENT: &'static str = "ABSENT";

#[derive(Debug, Clone, Copy, PartialEq)]
pub enum SetOperator {
    Intersection,
    Union,
    Except,
}

#[derive(Debug, Clone, Copy, PartialEq)]
pub enum ComponentPresence {
    Absent,
    Present,
    Unspecified,
}

#[derive(Debug, PartialEq)]
pub enum Constraint {
    SubtypeConstraint(ElementSet),
    TableConstraint(TableConstraint),
    /// The actual parameters given to a parameterized type.
    Parameter(Vec<Parameter>),
}

#[derive(Debug, PartialEq)]
pub struct ElementSet {
    pub set: ElementOrSetOperation,
    pub extensible: bool,
}

#[derive(Debug, PartialEq)]
pub enum ElementOrSetOperation {
    Element(SubtypeElement),
    SetOperation(SetOperation),
}

/// `base operator operant`; chains of operators nest to the right.
#[derive(Debug, PartialEq)]
pub struct SetOperation {
    pub base: SubtypeElement,
    pub operator: SetOperator,
    pub operant: Box<ElementOrSetOperation>,
}

#[derive(Debug, PartialEq)]
pub enum SubtypeElement {
    SingleValue { value: ASN1Value, extensible: bool },
    ContainedSubtype { subtype: ASN1Type, extensible: bool },
    ValueRange { min: Option<ASN1Value>, max: Option<ASN1Value>, extensible: bool },
    PermittedAlphabet(Box<ElementOrSetOperation>),
    SizeConstraint(Box<ElementOrSetOperation>),
    SingleTypeConstraint(InnerTypeConstraint),
    MultipleTypeConstraints(InnerTypeConstraint),
    PatternConstraint(PatternConstraint),
    UserDefinedConstraint(UserDefinedConstraint),
}

/// The components listed by `WITH COMPONENTS { ... }`; `is_partial` when the
/// list starts with `...`.
#[derive(Debug, PartialEq)]
pub struct InnerTypeConstraint {
    pub is_partial: bool,
    pub constraints: Vec<ConstrainedComponent>,
}

#[derive(Debug, PartialEq)]
pub struct ConstrainedComponent {
    pub identifier: String,
    pub constraints: Vec<Constraint>,
    pub presence: ComponentPresence,
}

#[derive(Debug, PartialEq)]
pub struct PatternConstraint {
    pub pattern: String,
}

#[derive(Debug, PartialEq)]
pub struct UserDefinedConstraint {
    pub definition: String,
}

#[derive(Debug, PartialEq)]
pub struct TableConstraint {
    pub object_set: ObjectSet,
    pub linked_fields: Vec<RelationalConstraint>,
}

/// An object set `{ A | B | ... }`; `extensible` holds the number of root
/// values when the set ends with an extension marker.
#[derive(Debug, PartialEq)]
pub struct ObjectSet {
    pub values: Vec<ObjectSetValue>,
    pub extensible: Option<usize>,
}

#[derive(Debug, PartialEq)]
pub enum ObjectSetValue {
    Reference(String),
    Inline(InformationObjectFields),
}

/// `@..field`: the field's name and the number of dots before it.
#[derive(Debug, PartialEq)]
pub struct RelationalConstraint {
    pub field_name: String,
    pub level: usize,
}

pub enum SpecConstraint {
    SubtypeConstraint(SpecElementSet),
    TableConstraint(SpecTableConstraint),
    Parameter(Seq<SpecParameter>),
}

pub struct SpecElementSet {
    pub set: SpecElementOrSetOperation,
    pub extensible: bool,
}

pub enum SpecElementOrSetOperation {
    Element(SpecSubtypeElement),
    SetOperation(SpecSetOperation),
}

pub struct SpecSetOperation {
    pub base: SpecSubtypeElement,
    pub operator: SetOperator,
    pub operant: Box<SpecElementOrSetOperation>,
}

pub enum SpecSubtypeElement {
    SingleValue { value: SpecASN1Value, extensible: bool },
    ContainedSubtype { subtype: SpecASN1Type, extensible: bool },
    ValueRange { min: Option<SpecASN1Value>, max: Option<SpecASN1Value>, extensible: bool },
    PermittedAlphabet(Box<SpecElementOrSetOperation>),
    SizeConstraint(Box<SpecElementOrSetOperation>),
    SingleTypeConstraint(SpecInnerTypeConstraint),
    MultipleTypeConstraints(SpecInnerTypeConstraint),
    PatternConstraint(Seq<char>),
    UserDefinedConstraint(Seq<char>),
}

pub struct SpecInnerTypeConstraint {
    pub is_partial: bool,
    pub constraints: Seq<SpecConstrainedComponent>,
}

pub struct SpecConstrainedComponent {
    pub identifier: Seq<char>,
    pub constraints: Seq<SpecConstraint>,
    pub presence: ComponentPresence,
}

pub struct SpecTableConstraint {
    pub object_set: SpecObjectSet,
    pub linked_fields: Seq<SpecRelationalConstraint>,
}

pub struct SpecObjectSet {
    pub values: Seq<SpecObjectSetValue>,
    pub extensible: Option<int>,
}

pub enum SpecObjectSetValue {
    Reference(Seq<char>),
    Inline(SpecInformationObjectFields),
}

pub struct SpecRelationalConstraint {
    pub field_name: Seq<char>,
    pub level: int,
}

pub open spec fn opt_value_view(v: Option<ASN1Value>) -> Option<SpecASN1Value> {
    match v {
        Some(x) => Some(x@),
        None => None,
    }
}

impl View for RelationalConstraint {
    type V = SpecRelationalConstraint;

    open spec fn view(&self) -> SpecRelationalConstraint {
        SpecRelationalConstraint { field_name: self.field_name@, level: self.level as int }
    }
}

pub open spec fn relational_view(v: Seq<RelationalConstraint>) -> Seq<SpecRelationalConstraint> {
    v.map_values(|r: RelationalConstraint| r@)
}

pub open spec fn constraint_view(c: Constraint) -> SpecConstraint
    decreases c,
{
    match c {
        Constraint::SubtypeConstraint(set) => SpecConstraint::SubtypeConstraint(
            element_set_view(set),
        ),
        Constraint::TableConstraint(t) => SpecConstraint::TableConstraint(table_constraint_view(t)),
        Constraint::Parameter(ps) => SpecConstraint::Parameter(parameters_view(ps@)),
    }
}

pub open spec fn constraints_view(v: Seq<Constraint>) -> Seq<SpecConstraint>
    decreases v,
{
    if v.len() == 0 {
        Seq::empty()
    } else {
        constraints_view(v.drop_last()).push(constraint_view(v.last()))
    }
}

pub open spec fn element_set_view(e: ElementSet) -> SpecElementSet
    decreases e,
{
    SpecElementSet { set: element_or_set_operation_view(e.set), extensible: e.extensible }
}

pub open spec fn element_or_set_operation_view(e: ElementOrSetOperation) -> SpecElementOrSetOperation
    decreases e,
{
    match e {
        ElementOrSetOperation::Element(x) => SpecElementOrSetOperation::Element(
            subtype_element_view(x),
        ),
        ElementOrSetOperation::SetOperation(o) => SpecElementOrSetOperation::SetOperation(
            set_operation_view(o),
        ),
    }
}

pub open spec fn set_operation_view(o: SetOperation) -> SpecSetOperation
    decreases o,
{
    SpecSetOperation {
        base: subtype_element_view(o.base),
        operator: o.operator,
        operant: Box::new(element_or_set_operation_view(*o.operant)),
    }
}

pub open spec fn subtype_element_view(e: SubtypeElement) -> SpecSubtypeElement
    decreases e,
{
    match e {
        SubtypeElement::SingleValue { value, extensible } => SpecSubtypeElement::SingleValue {
            value: value@,
            extensible,
        },
        SubtypeElement::ContainedSubtype { subtype, extensible } =>
            SpecSubtypeElement::ContainedSubtype { subtype: asn1_type_view(subtype), extensible },
        SubtypeElement::ValueRange { min, max, extensible } => SpecSubtypeElement::ValueRange {
            min: opt_value_view(min),
            max: opt_value_view(max),
            extensible,
        },
        SubtypeElement::PermittedAlphabet(b) => SpecSubtypeElement::PermittedAlphabet(
            Box::new(element_or_set_operation_view(*b)),
        ),
        SubtypeElement::SizeConstraint(b) => SpecSubtypeElement::SizeConstraint(
            Box::new(element_or_set_operation_view(*b)),
        ),
        SubtypeElement::SingleTypeConstraint(c) => SpecSubtypeElement::SingleTypeConstraint(
            inner_type_constraint_view(c),
        ),
        SubtypeElement::MultipleTypeConstraints(c) => SpecSubtypeElement::MultipleTypeConstraints(
            inner_type_constraint_view(c),
        ),
        SubtypeElement::PatternConstraint(p) => SpecSubtypeElement::PatternConstraint(p.pattern@),
        SubtypeElement::UserDefinedConstraint(u) => SpecSubtypeElement::UserDefinedConstraint(
            u.definition@,
        ),
    }
}

pub open spec fn inner_type_constraint_view(c: InnerTypeConstraint) -> SpecInnerTypeConstraint
    decreases c,
{
    SpecInnerTypeConstraint {
        is_partial: c.is_partial,
        constraints: components_view(c.constraints@),
    }
}

pub open spec fn component_view(c: ConstrainedComponent) -> SpecConstrainedComponent
    decreases c,
{
    SpecConstrainedComponent {
        identifier: c.identifier@,
        constraints: constraints_view(c.constraints@),
        presence: c.presence,
    }
}

pub open spec fn components_view(v: Seq<ConstrainedComponent>) -> Seq<SpecConstrainedComponent>
    decreases v,
{
    if v.len() == 0 {
        Seq::empty()
    } else {
        components_view(v.drop_last()).push(component_view(v.last()))
    }
}

pub open spec fn asn1_type_view(t: ASN1Type) -> SpecASN1Type
    decreases t,
{
    match t {
        ASN1Type::Boolean(b) => SpecASN1Type::Boolean(constraints_view(b.constraints@)),
        ASN1Type::ObjectIdentifier(o) => SpecASN1Type::ObjectIdentifier(
            constraints_view(o.constraints@),
        ),
        ASN1Type::Integer(i) => SpecASN1Type::Integer(
            constraints_view(i.constraints@),
            match i.distinguished_values {
                Some(v) => Some(distinguished_values_view(v@)),
                None => None,
            },
        ),
        ASN1Type::ElsewhereDeclaredType(d) => SpecASN1Type::ElsewhereDeclaredType(
            d.identifier@,
            constraints_view(d.constraints@),
        ),
    }
}

pub open spec fn table_constraint_view(t: TableConstraint) -> SpecTableConstraint
    decreases t,
{
    SpecTableConstraint {
        object_set: object_set_view(t.object_set),
        linked_fields: relational_view(t.linked_fields@),
    }
}

pub open spec fn object_set_view(o: ObjectSet) -> SpecObjectSet
    decreases o,
{
    SpecObjectSet {
        values: object_set_values_view(o.values@),
        extensible: match o.extensible {
            Some(n) => Some(n as int),
            None => None,
        },
    }
}

pub open spec fn object_set_values_view(v: Seq<ObjectSetValue>) -> Seq<SpecObjectSetValue>
    decreases v,
{
    if v.len() == 0 {
        Seq::empty()
    } else {
        object_set_values_view(v.drop_last()).push(object_set_value_view(v.last()))
    }
}

pub open spec fn object_set_value_view(v: ObjectSetValue) -> SpecObjectSetValue
    decreases v,
{
    match v {
        ObjectSetValue::Reference(r) => SpecObjectSetValue::Reference(r@),
        ObjectSetValue::Inline(f) => SpecObjectSetValue::Inline(object_fields_view(f)),
    }
}

pub open spec fn object_fields_view(f: InformationObjectFields) -> SpecInformationObjectFields
    decreases f,
{
    match f {
        InformationObjectFields::DefaultSyntax(v) => SpecInformationObjectFields::DefaultSyntax(
            object_field_list_view(v@),
        ),
        InformationObjectFields::CustomSyntax(v) => SpecInformationObjectFields::CustomSyntax(
            syntax_applications_view(v@),
        ),
    }
}

pub open spec fn object_field_view(f: InformationObjectField) -> SpecInformationObjectField
    decreases f,
{
    match f {
        InformationObjectField::TypeField(t) => SpecInformationObjectField::TypeField(
            t.identifier@,
            asn1_type_view(t.field_type),
        ),
        InformationObjectField::FixedValueField(v) => SpecInformationObjectField::FixedValueField(
            v.identifier@,
            v.value@,
        ),
    }
}

pub open spec fn object_field_list_view(v: Seq<InformationObjectField>) -> Seq<SpecInformationObjectField>
    decreases v,
{
    if v.len() == 0 {
        Seq::empty()
    } else {
        object_field_list_view(v.drop_last()).push(object_field_view(v.last()))
    }
}

pub open spec fn syntax_application_view(a: SyntaxApplication) -> SpecSyntaxApplication
    decreases a,
{
    match a {
        SyntaxApplication::Literal(l) => SpecSyntaxApplication::Literal(l@),
        SyntaxApplication::TypeReference(t) => SpecSyntaxApplication::TypeReference(
            asn1_type_view(t),
        ),
        SyntaxApplication::ValueReference(v) => SpecSyntaxApplication::ValueReference(v@),
    }
}

pub open spec fn syntax_applications_view(v: Seq<SyntaxApplication>) -> Seq<SpecSyntaxApplication>
    decreases v,
{
    if v.len() == 0 {
        Seq::empty()
    } else {
        syntax_applications_view(v.drop_last()).push(syntax_application_view(v.last()))
    }
}

pub open spec fn parameter_view(p: Parameter) -> SpecParameter
    decreases p,
{
    match p {
        Parameter::TypeParameter(t) => SpecParameter::TypeParameter(asn1_type_view(t)),
        Parameter::ValueParameter(v) => SpecParameter::ValueParameter(v@),
    }
}

pub open spec fn parameters_view(v: Seq<Parameter>) -> Seq<SpecParameter>
    decreases v,
{
    if v.len() == 0 {
        Seq::empty()
    } else {
        parameters_view(v.drop_last()).push(parameter_view(v.last()))
    }
}

impl View for TableConstraint {
    type V = SpecTableConstraint;

    open spec fn view(&self) -> SpecTableConstraint {
        table_constraint_view(*self)
    }
}

impl View for ObjectSet {
    type V = SpecObjectSet;

    open spec fn view(&self) -> SpecObjectSet {
        object_set_view(*self)
    }
}

impl View for ObjectSetValue {
    type V = SpecObjectSetValue;

    open spec fn view(&self) -> SpecObjectSetValue {
        object_set_value_view(*self)
    }
}

impl View for InformationObjectFields {
    type V = SpecInformationObjectFields;

    open spec fn view(&self) -> SpecInformationObjectFields {
        object_fields_view(*self)
    }
}

impl View for InformationObjectField {
    type V = SpecInformationObjectField;

    open spec fn view(&self) -> SpecInformationObjectField {
        object_field_view(*self)
    }
}

impl View for SyntaxApplication {
    type V = SpecSyntaxApplication;

    open spec fn view(&self) -> SpecSyntaxApplication {
        syntax_application_view(*self)
    }
}

impl View for Parameter {
    type V = SpecParameter;

    open spec fn view(&self) -> SpecParameter {
        parameter_view(*self)
    }
}

impl View for Constraint {
    type V = SpecConstraint;

    open spec fn view(&self) -> SpecConstraint {
        constraint_view(*self)
    }
}

impl View for ElementSet {
    type V = SpecElementSet;

    open spec fn view(&self) -> SpecElementSet {
        element_set_view(*self)
    }
}

impl View for ElementOrSetOperation {
    type V = SpecElementOrSetOperation;

    open spec fn view(&self) -> SpecElementOrSetOperation {
        element_or_set_operation_view(*self)
    }
}

impl View for SetOperation {
    type V = SpecSetOperation;

    open spec fn view(&self) -> SpecSetOperation {
        set_operation_view(*self)
    }
}

impl View for SubtypeElement {
    type V = SpecSubtypeElement;

    open spec fn view(&self) -> SpecSubtypeElement {
        subtype_element_view(*self)
    }
}

impl View for InnerTypeConstraint {
    type V = SpecInnerTypeConstraint;

    open spec fn view(&self) -> SpecInnerTypeConstraint {
        inner_type_constraint_view(*self)
    }
}

impl View for ConstrainedComponent {
    type V = SpecConstrainedComponent;

    open spec fn view(&self) -> SpecConstrainedComponent {
        component_view(*self)
    }
}

pub proof fn lemma_constraints_view_push(v: Seq<Constraint>, c: Constraint)
    ensures
        constraints_view(v.push(c)) == constraints_view(v).push(constraint_view(c)),
{
    assert(v.push(c).drop_last() =~= v);
}

pub proof fn lemma_components_view_push(v: Seq<ConstrainedComponent>, c: ConstrainedComponent)
    ensures
        components_view(v.push(c)) == components_view(v).push(component_view(c)),
{
    assert(v.push(c).drop_last() =~= v);
}

pub proof fn lemma_object_set_values_view_push(v: Seq<ObjectSetValue>, x: ObjectSetValue)
    ensures
        object_set_values_view(v.push(x)) == object_set_values_view(v).push(object_set_value_view(x)),
{
    assert(v.push(x).drop_last() =~= v);
}

pub proof fn lemma_object_set_values_view_len(v: Seq<ObjectSetValue>)
    ensures
        object_set_values_view(v).len() == v.len(),
    decreases v.len(),
{
    if v.len() > 0 {
        lemma_object_set_values_view_len(v.drop_last());
    }
}

pub proof fn lemma_object_field_list_view_push(v: Seq<InformationObjectField>, x: InformationObjectField)
    ensures
        object_field_list_view(v.push(x)) == object_field_list_view(v).push(object_field_view(x)),
{
    assert(v.push(x).drop_last() =~= v);
}

pub proof fn lemma_syntax_applications_view_push(v: Seq<SyntaxApplication>, x: SyntaxApplication)
    ensures
        syntax_applications_view(v.push(x)) == syntax_applications_view(v).push(
            syntax_application_view(x),
        ),
{
    assert(v.push(x).drop_last() =~= v);
}

pub proof fn lemma_parameters_view_push(v: Seq<Parameter>, x: Parameter)
    ensures
        parameters_view(v.push(x)) == parameters_view(v).push(parameter_view(x)),
{
    assert(v.push(x).drop_last() =~= v);
}

pub proof fn lemma_constraints_view_len(v: Seq<Constraint>)
    ensures
        constraints_view(v).len() == v.len(),
    decreases v.len(),
{
    if v.len() > 0 {
        lemma_constraints_view_len(v.drop_last());
    }
}

pub proof fn lemma_constraints_view_empty()
    ensures
        constraints_view(Seq::<Constraint>::empty()) == Seq::<SpecConstraint>::empty(),
{
}

} // verus!
