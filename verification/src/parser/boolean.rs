//! The BOOLEAN type and the values `TRUE` and `FALSE`.
use vstd::prelude::*;

use super::common::{lemma_skip_wsc_moves, lemma_wsc_tag, skip_wsc, wsc_tag};
use super::constraint::spec_constraint;
use super::input::{agrees, finish, parsed, Input, ParseError};
use crate::intermediate::constraints::{lemma_constraints_view_empty, Constraint};
use crate::intermediate::types::Boolean;
use crate::intermediate::{ASN1Type, ASN1Value, SpecASN1Type, SpecASN1Value, BOOLEAN, FALSE, TRUE};

verus! {

broadcast use vstd::string::group_string_axioms;

/// `TRUE` or `FALSE` after white space and comments.
pub open spec fn spec_boolean_value(s: Seq<char>, p: int) -> Option<(SpecASN1Value, int)> {
    match wsc_tag(s, p, TRUE@) {
        Some(e) => Some((SpecASN1Value::Boolean(true), e)),
        None => match wsc_tag(s, p, FALSE@) {
            Some(e) => Some((SpecASN1Value::Boolean(false), e)),
            None => None,
        },
    }
}

/// `BOOLEAN` with the constraints that follow it, if any.
pub open spec fn spec_boolean(s: Seq<char>, p: int) -> Option<(SpecASN1Type, int)>
    decreases s.len() - p, 5int,
{
    match wsc_tag(s, p, BOOLEAN@) {
        Some(q1) => {
            let r = skip_wsc(s, q1);
            proof {
                lemma_wsc_tag(s, p, BOOLEAN@);
                reveal_strlit("BOOLEAN");
                lemma_skip_wsc_moves(s, q1);
            }
            match spec_constraint(s, r) {
                Some((cs, e)) => Some((SpecASN1Type::Boolean(cs), e)),
                None => Some((SpecASN1Type::Boolean(Seq::empty()), r)),
            }
        },
        None => None,
    }
}

impl<'a> Input<'a> {
    /// `spec_boolean_value`
    pub fn boolean_value(&self, p: usize) -> (r: Option<(ASN1Value, usize)>)
        requires
            self.wf(),
            p <= self.chars@.len(),
        ensures
            agrees(r, spec_boolean_value(self.chars@, p as int)),
            r matches Some((_, e)) ==> p <= e <= self.chars@.len(),
    {
        if let Some(e) = self.wsc_tag(p, TRUE) {
            Some((ASN1Value::Boolean(true), e))
        } else if let Some(e) = self.wsc_tag(p, FALSE) {
            Some((ASN1Value::Boolean(false), e))
        } else {
            None
        }
    }
}

impl<'a> Input<'a> {
    /// `spec_boolean`
    pub fn boolean(&self, p: usize) -> (r: Option<(ASN1Type, usize)>)
        requires
            self.wf(),
            p <= self.chars@.len(),
        ensures
            agrees(r, spec_boolean(self.chars@, p as int)),
            r matches Some((_, e)) ==> p <= e <= self.chars@.len(),
        decreases self.chars@.len() - p, 5int,
    {
        match self.wsc_tag(p, BOOLEAN) {
            Some(q1) => {
                proof {
                    lemma_wsc_tag(self.chars@, p as int, BOOLEAN@);
                    reveal_strlit("BOOLEAN");
                }
                let r = self.skip_wsc(q1);
                match self.constraint(r) {
                    Some((cs, e)) => Some((ASN1Type::Boolean(Boolean { constraints: cs }), e)),
                    None => {
                        let v: Vec<Constraint> = Vec::new();
                        proof {
                            lemma_constraints_view_empty();
                            assert(v@ =~= Seq::<Constraint>::empty());
                        }
                        Some((ASN1Type::Boolean(Boolean { constraints: v }), r))
                    },
                }
            },
            None => None,
        }
    }
}

/// Parses `TRUE` or `FALSE` into a boolean value.
pub fn boolean_value(input: &str) -> (res: Result<(&str, ASN1Value), ParseError>)
    requires
        input@.len() < usize::MAX,
    ensures
        parsed(res, input@, spec_boolean_value(input@, 0)),
{
    let inp = Input::new(input);
    let r = inp.boolean_value(0);
    finish(input, r)
}

/// Tries to parse an ASN1 BOOLEAN.
///
/// On a match, consumes the keyword `BOOLEAN` and the constraints that follow
/// it, and returns the remaining text and an `ASN1Type::Boolean`. Otherwise
/// returns an error and consumes nothing.
pub fn boolean(input: &str) -> (res: Result<(&str, ASN1Type), ParseError>)
    requires
        input@.len() < usize::MAX,
    ensures
        parsed(res, input@, spec_boolean(input@, 0)),
{
    let inp = Input::new(input);
    let r = inp.boolean(0);
    finish(input, r)
}

} // verus!
