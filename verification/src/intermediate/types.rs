use vstd::prelude::*;

use super::constraints::Constraint;

verus! {

/// The BOOLEAN type with its constraints.
#[derive(Debug, PartialEq)]
pub struct Boolean {
    pub constraints: Vec<Constraint>,
}

/// The OBJECT IDENTIFIER type with its constraints.
#[derive(Debug, PartialEq)]
pub struct ObjectIdentifier {
    pub constraints: Vec<Constraint>,
}

/// The INTEGER type with its constraints and its named numbers, if any.
#[derive(Debug, PartialEq)]
pub struct Integer {
    pub constraints: Vec<Constraint>,
    pub distinguished_values: Option<Vec<DistinguishedValue>>,
}

/// A named number of an INTEGER type: `name(value)`.
#[derive(Debug, Clone, PartialEq)]
pub struct DistinguishedValue {
    pub name: String,
    pub value: i128,
}

pub struct SpecDistinguishedValue {
    pub name: Seq<char>,
    pub value: int,
}

impl View for DistinguishedValue {
    type V = SpecDistinguishedValue;

    open spec fn view(&self) -> SpecDistinguishedValue {
        SpecDistinguishedValue { name: self.name@, value: self.value as int }
    }
}

pub open spec fn distinguished_values_view(v: Seq<DistinguishedValue>) -> Seq<SpecDistinguishedValue> {
    v.map_values(|d: DistinguishedValue| d@)
}

/// A type declared elsewhere, referred to by name, with its constraints.
#[derive(Debug, PartialEq)]
pub struct DeclarationElsewhere {
    pub identifier: String,
    pub constraints: Vec<Constraint>,
}

/// One arc of an OBJECT IDENTIFIER value: `name`, `number` or `name(number)`.
#[derive(Debug, PartialEq)]
pub struct ObjectIdentifierArc {
    pub name: Option<String>,
    pub number: Option<u128>,
}

pub struct SpecObjectIdentifierArc {
    pub name: Option<Seq<char>>,
    pub number: Option<int>,
}

impl View for ObjectIdentifierArc {
    type V = SpecObjectIdentifierArc;

    open spec fn view(&self) -> SpecObjectIdentifierArc {
        SpecObjectIdentifierArc {
            name: match self.name {
                Some(n) => Some(n@),
                None => None,
            },
            number: match self.number {
                Some(n) => Some(n as int),
                None => None,
            },
        }
    }
}

/// An OBJECT IDENTIFIER value: its arcs in order.
#[derive(Debug, PartialEq)]
pub struct ObjectIdentifierValue(pub Vec<ObjectIdentifierArc>);

impl View for ObjectIdentifierValue {
    type V = Seq<SpecObjectIdentifierArc>;

    open spec fn view(&self) -> Seq<SpecObjectIdentifierArc> {
        self.0@.map_values(|a: ObjectIdentifierArc| a@)
    }
}

} // verus!
