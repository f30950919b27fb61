//! The intermediate representation that the parsers produce: values, types
//! and constraints of ASN.1 notation, each with a mathematical counterpart
//! (`Spec...`) that the parsers' contracts speak of.
use vstd::prelude::*;

pub mod constraints;
pub mod information_object;
pub mod types;

use constraints::{asn1_type_view, SpecConstraint};
use types::{Boolean, DeclarationElsewhere, Integer, ObjectIdentifier, SpecDistinguishedValue};

verus! {

pub const TRUE: &'static str = "TRUE";
pub const FALSE: &'static str = "FALSE";
pub const BOOLEAN: &'static str = "BOOLEAN";
pub const OBJECT_IDENTIFIER: &'static str = "OBJECT IDENTIFIER";
pub const ALL: &'static str = "ALL";
pub const INTEGER: &'static str = "INTEGER";

/// A value in ASN.1 notation.
#[derive(Debug, PartialEq)]
pub enum ASN1Value {
    /// `ALL`, the full set of values of a type.
    All,
    Boolean(bool),
    Integer(i128),
    /// A character string value `"..."`, with `""` read as one quotation mark.
    String(String),
    /// A reference to a value declared elsewhere in the specification.
    ElsewhereDeclaredValue(String),
}

pub enum SpecASN1Value {
    All,
    Boolean(bool),
    Integer(int),
    String(Seq<char>),
    ElsewhereDeclaredValue(Seq<char>),
}

impl View for ASN1Value {
    type V = SpecASN1Value;

    open spec fn view(&self) -> SpecASN1Value {
        match self {
            ASN1Value::All => SpecASN1Value::All,
            ASN1Value::Boolean(b) => SpecASN1Value::Boolean(*b),
            ASN1Value::Integer(i) => SpecASN1Value::Integer(*i as int),
            ASN1Value::String(t) => SpecASN1Value::String(t@),
            ASN1Value::ElsewhereDeclaredValue(t) => SpecASN1Value::ElsewhereDeclaredValue(t@),
        }
    }
}

/// An ASN.1 type that this crate parses.
#[derive(Debug, PartialEq)]
pub enum ASN1Type {
    Boolean(Boolean),
    ObjectIdentifier(ObjectIdentifier),
    Integer(Integer),
    ElsewhereDeclaredType(DeclarationElsewhere),
}

/// A type with its constraints; a type declared elsewhere with its name.
pub enum SpecASN1Type {
    Boolean(Seq<SpecConstraint>),
    ObjectIdentifier(Seq<SpecConstraint>),
    Integer(Seq<SpecConstraint>, Option<Seq<SpecDistinguishedValue>>),
    ElsewhereDeclaredType(Seq<char>, Seq<SpecConstraint>),
}

impl View for ASN1Type {
    type V = SpecASN1Type;

    open spec fn view(&self) -> SpecASN1Type {
        asn1_type_view(*self)
    }
}

} // verus!
