//! The OBJECT IDENTIFIER type and OBJECT IDENTIFIER values.
use vstd::prelude::*;

use super::common::{
    identifier, lemma_skip_wsc_moves, lemma_wsc_tag, skip_wsc, tag_end, ws_end, wsc_char, wsc_tag,
};
use super::constraint::spec_constraint;
use super::input::{agrees, finish, moved_on, parsed, Input, ParseError};
use super::number::unsigned_at;
use super::properties::lemma_object_identifier_value_nonempty;
use crate::intermediate::constraints::{lemma_constraints_view_empty, Constraint};
use crate::intermediate::types::{
    ObjectIdentifier, ObjectIdentifierArc, ObjectIdentifierValue, SpecObjectIdentifierArc,
};
use crate::intermediate::{ASN1Type, SpecASN1Type, OBJECT_IDENTIFIER};

verus! {

broadcast use vstd::string::group_string_axioms;

/// `OBJECT IDENTIFIER` with the constraints that follow it, if any.
pub open spec fn spec_object_identifier(s: Seq<char>, p: int) -> Option<(SpecASN1Type, int)>
    decreases s.len() - p, 5int,
{
    match wsc_tag(s, p, OBJECT_IDENTIFIER@) {
        Some(q1) => {
            let r = skip_wsc(s, q1);
            proof {
                lemma_wsc_tag(s, p, OBJECT_IDENTIFIER@);
                reveal_strlit("OBJECT IDENTIFIER");
                lemma_skip_wsc_moves(s, q1);
            }
            match spec_constraint(s, r) {
                Some((cs, e)) => Some((SpecASN1Type::ObjectIdentifier(cs), e)),
                None => Some((SpecASN1Type::ObjectIdentifier(Seq::empty()), q1)),
            }
        },
        None => None,
    }
}

/// An arc of an OBJECT IDENTIFIER value after white space: a number,
/// `name(number)` or a name.
pub open spec fn spec_object_identifier_arc(s: Seq<char>, p: int) -> Option<
    (SpecObjectIdentifierArc, int),
> {
    let q = ws_end(s, p);
    match unsigned_at(s, q) {
        Some((v, e)) => Some((SpecObjectIdentifierArc { name: None, number: Some(v) }, e)),
        None => match identifier(s, q) {
            Some((name, q1)) => {
                let number = match wsc_char(s, ws_end(s, q1), '(') {
                    Some(r1) => match unsigned_at(s, skip_wsc(s, r1)) {
                        Some((v, r2)) => match wsc_char(s, r2, ')') {
                            Some(e) => Some((v, e)),
                            None => None,
                        },
                        None => None,
                    },
                    None => None,
                };
                match number {
                    Some((v, e)) => Some(
                        (SpecObjectIdentifierArc { name: Some(name), number: Some(v) }, e),
                    ),
                    None => Some((SpecObjectIdentifierArc { name: Some(name), number: None }, q1)),
                }
            },
            None => None,
        },
    }
}

/// Further arcs appended to `acc`, until one does not match; an arc that
/// matches without reading anything fails the whole list.
pub open spec fn object_identifier_arcs_rest(
    s: Seq<char>,
    i: int,
    acc: Seq<SpecObjectIdentifierArc>,
) -> Option<(Seq<SpecObjectIdentifierArc>, int)>
    decreases s.len() - i,
{
    match spec_object_identifier_arc(s, ws_end(s, i)) {
        Some((a, q)) => if moved_on(s, i, q) {
            object_identifier_arcs_rest(s, q, acc.push(a))
        } else {
            None
        },
        None => Some((acc, i)),
    }
}

/// An OBJECT IDENTIFIER value `{ arc arc ... }`, possibly preceded by the
/// keyword `OBJECT IDENTIFIER`.
pub open spec fn spec_object_identifier_value(s: Seq<char>, p: int) -> Option<
    (Seq<SpecObjectIdentifierArc>, int),
> {
    let q = skip_wsc(s, p);
    let q1 = match tag_end(s, q, OBJECT_IDENTIFIER@) {
        Some(e) => e,
        None => q,
    };
    match wsc_char(s, q1, '{') {
        Some(q2) => {
            let r = skip_wsc(s, q2);
            match spec_object_identifier_arc(s, ws_end(s, r)) {
                Some((a, r1)) => match object_identifier_arcs_rest(s, r1, seq![a]) {
                    Some((arcs, r2)) => match wsc_char(s, r2, '}') {
                        Some(e) => Some((arcs, e)),
                        None => None,
                    },
                    None => None,
                },
                None => None,
            }
        },
        None => None,
    }
}

pub open spec fn arcs_view(v: Seq<ObjectIdentifierArc>) -> Seq<SpecObjectIdentifierArc> {
    v.map_values(|a: ObjectIdentifierArc| a@)
}

impl<'a> Input<'a> {
    /// `spec_object_identifier`
    pub fn object_identifier(&self, p: usize) -> (r: Option<(ASN1Type, usize)>)
        requires
            self.wf(),
            p <= self.chars@.len(),
        ensures
            agrees(r, spec_object_identifier(self.chars@, p as int)),
            r matches Some((_, e)) ==> p <= e <= self.chars@.len(),
        decreases self.chars@.len() - p, 5int,
    {
        match self.wsc_tag(p, OBJECT_IDENTIFIER) {
            Some(q1) => {
                proof {
                    lemma_wsc_tag(self.chars@, p as int, OBJECT_IDENTIFIER@);
                    reveal_strlit("OBJECT IDENTIFIER");
                }
                let r = self.skip_wsc(q1);
                match self.constraint(r) {
                    Some((cs, e)) => Some(
                        (ASN1Type::ObjectIdentifier(ObjectIdentifier { constraints: cs }), e),
                    ),
                    None => {
                        let v: Vec<Constraint> = Vec::new();
                        proof {
                            lemma_constraints_view_empty();
                            assert(v@ =~= Seq::<Constraint>::empty());
                        }
                        Some((ASN1Type::ObjectIdentifier(ObjectIdentifier { constraints: v }), q1))
                    },
                }
            },
            None => None,
        }
    }
}

impl<'a> Input<'a> {
    /// `spec_object_identifier_arc`
    fn object_identifier_arc(&self, p: usize) -> (r: Option<(ObjectIdentifierArc, usize)>)
        requires
            self.wf(),
            p <= self.chars@.len(),
        ensures
            agrees(r, spec_object_identifier_arc(self.chars@, p as int)),
            r matches Some((_, e)) ==> p <= e <= self.chars@.len(),
    {
        let q = self.ws_end(p);
        match self.unsigned_at(q) {
            Some((v, e)) => Some((ObjectIdentifierArc { name: None, number: Some(v) }, e)),
            None => match self.identifier(q) {
                Some((name, q1)) => {
                    let r = self.ws_end(q1);
                    let number = match self.wsc_char(r, '(') {
                        Some(r1) => {
                            let r2 = self.skip_wsc(r1);
                            match self.unsigned_at(r2) {
                                Some((v, r3)) => match self.wsc_char(r3, ')') {
                                    Some(e) => Some((v, e)),
                                    None => None,
                                },
                                None => None,
                            }
                        },
                        None => None,
                    };
                    match number {
                        Some((v, e)) => Some(
                            (ObjectIdentifierArc { name: Some(name), number: Some(v) }, e),
                        ),
                        None => Some((ObjectIdentifierArc { name: Some(name), number: None }, q1)),
                    }
                },
                None => None,
            },
        }
    }

    /// `object_identifier_arcs_rest`
    fn object_identifier_arcs_rest(&self, start: usize, init: Vec<ObjectIdentifierArc>) -> (r:
        Option<(Vec<ObjectIdentifierArc>, usize)>)
        requires
            self.wf(),
            start <= self.chars@.len(),
        ensures
            match r {
                Some((v, e)) => object_identifier_arcs_rest(
                    self.chars@,
                    start as int,
                    arcs_view(init@),
                ) == Some((arcs_view(v@), e as int)) && start <= e <= self.chars@.len(),
                None => object_identifier_arcs_rest(self.chars@, start as int, arcs_view(init@))
                    is None,
            },
    {
        let mut i = start;
        let mut acc = init;
        loop
            invariant
                self.wf(),
                start <= i <= self.chars@.len(),
                object_identifier_arcs_rest(self.chars@, i as int, arcs_view(acc@))
                    == object_identifier_arcs_rest(self.chars@, start as int, arcs_view(init@)),
            decreases self.chars@.len() - i,
        {
            let w = self.ws_end(i);
            match self.object_identifier_arc(w) {
                Some((a, q)) => {
                    if i < q {
                        let ghost old_acc = acc@;
                        let ghost av = a@;
                        acc.push(a);
                        proof {
                            assert(arcs_view(acc@) =~= arcs_view(old_acc).push(av));
                        }
                        i = q;
                    } else {
                        return None;
                    }
                },
                None => {
                    return Some((acc, i));
                },
            }
        }
    }

    /// `spec_object_identifier_value`
    pub fn object_identifier_value(&self, p: usize) -> (r: Option<(ObjectIdentifierValue, usize)>)
        requires
            self.wf(),
            p <= self.chars@.len(),
        ensures
            agrees(r, spec_object_identifier_value(self.chars@, p as int)),
            r matches Some((_, e)) ==> p <= e <= self.chars@.len(),
    {
        let q = self.skip_wsc(p);
        let q1 = match self.tag_end(q, OBJECT_IDENTIFIER) {
            Some(e) => e,
            None => q,
        };
        match self.wsc_char(q1, '{') {
            Some(q2) => {
                let r = self.skip_wsc(q2);
                let w = self.ws_end(r);
                match self.object_identifier_arc(w) {
                    Some((a, r1)) => {
                        let ghost av = a@;
                        let mut v = Vec::new();
                        v.push(a);
                        proof {
                            assert(arcs_view(v@) =~= seq![av]);
                        }
                        match self.object_identifier_arcs_rest(r1, v) {
                            Some((arcs, r2)) => match self.wsc_char(r2, '}') {
                                Some(e) => Some((ObjectIdentifierValue(arcs), e)),
                                None => None,
                            },
                            None => None,
                        }
                    },
                    None => None,
                }
            },
            None => None,
        }
    }
}

/// Parses an OBJECT IDENTIFIER value `{ arc ... }`, optionally preceded by
/// the keyword `OBJECT IDENTIFIER`. Each arc is a number, a name, or a name
/// with a number in parentheses. On a match, returns the text after the
/// value and the arcs in order; otherwise an error, consuming nothing.
pub fn object_identifier_value(input: &str) -> (res: Result<(&str, ObjectIdentifierValue), ParseError>)
    requires
        input@.len() < usize::MAX,
    ensures
        parsed(res, input@, spec_object_identifier_value(input@, 0)),
        res matches Ok((_, v)) ==> v.0.len() >= 1,
{
    let inp = Input::new(input);
    let r = inp.object_identifier_value(0);
    proof {
        lemma_object_identifier_value_nonempty(input@, 0);
    }
    finish(input, r)
}

/// Parses the OBJECT IDENTIFIER type, with the constraints that follow it.
pub fn object_identifier(input: &str) -> (res: Result<(&str, ASN1Type), ParseError>)
    requires
        input@.len() < usize::MAX,
    ensures
        parsed(res, input@, spec_object_identifier(input@, 0)),
{
    let inp = Input::new(input);
    let r = inp.object_identifier(0);
    finish(input, r)
}

} // verus!
