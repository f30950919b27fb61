//! Information objects written inline in an object set, and parameters
//! given to a parameterized type.
use vstd::prelude::*;

use super::{ASN1Type, ASN1Value, SpecASN1Type, SpecASN1Value};

verus! {

/// The fields of an information object: in the default syntax
/// `{ &field value, &Field Type }`, or in a syntax of the class's own.
#[derive(Debug, PartialEq)]
pub enum InformationObjectFields {
    DefaultSyntax(Vec<InformationObjectField>),
    CustomSyntax(Vec<SyntaxApplication>),
}

/// A field in the default syntax; its name keeps its leading `&`.
#[derive(Debug, PartialEq)]
pub enum InformationObjectField {
    TypeField(TypeField),
    FixedValueField(FixedValueField),
}

/// `&Field Type`
#[derive(Debug, PartialEq)]
pub struct TypeField {
    pub identifier: String,
    pub field_type: ASN1Type,
}

/// `&field value`
#[derive(Debug, PartialEq)]
pub struct FixedValueField {
    pub identifier: String,
    pub value: ASN1Value,
}

/// One token of an object written in a syntax of the class's own: a word
/// in capitals, a type, or a value.
#[derive(Debug, PartialEq)]
pub enum SyntaxApplication {
    Literal(String),
    TypeReference(ASN1Type),
    ValueReference(ASN1Value),
}

/// An actual parameter of a parameterized type: a type or a value.
#[derive(Debug, PartialEq)]
pub enum Parameter {
    TypeParameter(ASN1Type),
    ValueParameter(ASN1Value),
}

pub enum SpecInformationObjectFields {
    DefaultSyntax(Seq<SpecInformationObjectField>),
    CustomSyntax(Seq<SpecSyntaxApplication>),
}

pub enum SpecInformationObjectField {
    TypeField(Seq<char>, SpecASN1Type),
    FixedValueField(Seq<char>, SpecASN1Value),
}

pub enum SpecSyntaxApplication {
    Literal(Seq<char>),
    TypeReference(SpecASN1Type),
    ValueReference(SpecASN1Value),
}

pub enum SpecParameter {
    TypeParameter(SpecASN1Type),
    ValueParameter(SpecASN1Value),
}

} // verus!
