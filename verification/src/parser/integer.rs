//! The INTEGER type, with its named numbers and its constraints.
use vstd::prelude::*;

use super::common::{
    identifier, lemma_identifier, lemma_skip_wsc, lemma_skip_wsc_moves, lemma_wsc_char,
    lemma_wsc_tag, skip_wsc, wsc_char, wsc_tag,
};
use super::constraint::spec_constraint;
use super::input::{agrees, moved_on, Input};
use super::number::{lemma_digits_end, signed_at};
use crate::intermediate::constraints::{lemma_constraints_view_empty, Constraint};
use crate::intermediate::types::{
    distinguished_values_view, DistinguishedValue, Integer, SpecDistinguishedValue,
};
use crate::intermediate::{ASN1Type, SpecASN1Type, INTEGER};

verus! {

broadcast use vstd::string::group_string_axioms;

/// A named number `name(value)`.
pub open spec fn spec_distinguished_value(s: Seq<char>, p: int) -> Option<
    (SpecDistinguishedValue, int),
> {
    match identifier(s, p) {
        Some((name, q1)) => match wsc_char(s, q1, '(') {
            Some(q2) => match signed_at(s, skip_wsc(s, q2)) {
                Some((v, q3)) => match wsc_char(s, q3, ')') {
                    Some(e) => Some((SpecDistinguishedValue { name, value: v }, e)),
                    None => None,
                },
                None => None,
            },
            None => None,
        },
        None => None,
    }
}

/// More named numbers, each after `,`, appended to `acc`.
pub open spec fn distinguished_values_rest(
    s: Seq<char>,
    i: int,
    acc: Seq<SpecDistinguishedValue>,
) -> Option<(Seq<SpecDistinguishedValue>, int)>
    decreases s.len() - i,
{
    match wsc_char(s, i, ',') {
        None => Some((acc, i)),
        Some(i1) => match spec_distinguished_value(s, i1) {
            None => Some((acc, i)),
            Some((d, i2)) => if moved_on(s, i, i2) {
                distinguished_values_rest(s, i2, acc.push(d))
            } else {
                None
            },
        },
    }
}

/// The named numbers of an INTEGER type: `{ a(1), b(-2) }`.
pub open spec fn spec_distinguished_values(s: Seq<char>, p: int) -> Option<
    (Seq<SpecDistinguishedValue>, int),
> {
    match wsc_char(s, p, '{') {
        Some(q1) => match spec_distinguished_value(s, skip_wsc(s, q1)) {
            Some((d, q2)) => match distinguished_values_rest(s, q2, seq![d]) {
                Some((ds, q3)) => match wsc_char(s, q3, '}') {
                    Some(e) => Some((ds, e)),
                    None => None,
                },
                None => None,
            },
            None => None,
        },
        None => None,
    }
}

pub proof fn lemma_distinguished_value(s: Seq<char>, p: int)
    requires
        0 <= p <= s.len(),
    ensures
        spec_distinguished_value(s, p) matches Some((_, e)) ==> p <= e <= s.len(),
{
    lemma_identifier(s, p);
    if let Some((_, q1)) = identifier(s, p) {
        lemma_wsc_char(s, q1, '(');
        if let Some(q2) = wsc_char(s, q1, '(') {
            lemma_skip_wsc(s, q2);
            let r = skip_wsc(s, q2);
            lemma_digits_end(s.skip(r), 0);
            if r < s.len() {
                lemma_digits_end(s.skip(r), 1);
            }
            if let Some((_, q3)) = signed_at(s, r) {
                lemma_wsc_char(s, q3, ')');
            }
        }
    }
}

pub proof fn lemma_distinguished_values_rest(
    s: Seq<char>,
    i: int,
    acc: Seq<SpecDistinguishedValue>,
)
    requires
        0 <= i <= s.len(),
    ensures
        distinguished_values_rest(s, i, acc) matches Some((_, e)) ==> i <= e <= s.len(),
    decreases s.len() - i,
{
    if let Some(i1) = wsc_char(s, i, ',') {
        if let Some((d, i2)) = spec_distinguished_value(s, i1) {
            if moved_on(s, i, i2) {
                lemma_distinguished_values_rest(s, i2, acc.push(d));
            }
        }
    }
}

/// Named numbers end within the input, at or after where they start.
pub proof fn lemma_distinguished_values(s: Seq<char>, p: int)
    requires
        0 <= p <= s.len(),
    ensures
        spec_distinguished_values(s, p) matches Some((_, e)) ==> p <= e <= s.len(),
{
    lemma_wsc_char(s, p, '{');
    if let Some(q1) = wsc_char(s, p, '{') {
        lemma_skip_wsc(s, q1);
        lemma_distinguished_value(s, skip_wsc(s, q1));
        if let Some((d, q2)) = spec_distinguished_value(s, skip_wsc(s, q1)) {
            lemma_distinguished_values_rest(s, q2, seq![d]);
            if let Some((_, q3)) = distinguished_values_rest(s, q2, seq![d]) {
                lemma_wsc_char(s, q3, '}');
            }
        }
    }
}

/// `INTEGER`, its named numbers if any, and the constraints that follow.
pub open spec fn spec_integer(s: Seq<char>, p: int) -> Option<(SpecASN1Type, int)>
    decreases s.len() - p, 5int,
{
    match wsc_tag(s, p, INTEGER@) {
        Some(q1) => {
            let (named, q2) = match spec_distinguished_values(s, q1) {
                Some((d, e)) => (Some(d), e),
                None => (None, q1),
            };
            let r = skip_wsc(s, q2);
            proof {
                lemma_wsc_tag(s, p, INTEGER@);
                reveal_strlit("INTEGER");
                lemma_distinguished_values(s, q1);
                lemma_skip_wsc_moves(s, q2);
            }
            match spec_constraint(s, r) {
                Some((cs, e)) => Some((SpecASN1Type::Integer(cs, named), e)),
                None => Some((SpecASN1Type::Integer(Seq::empty(), named), q2)),
            }
        },
        None => None,
    }
}

impl<'a> Input<'a> {
    fn distinguished_value(&self, p: usize) -> (r: Option<(DistinguishedValue, usize)>)
        requires
            self.wf(),
            p <= self.chars@.len(),
        ensures
            agrees(r, spec_distinguished_value(self.chars@, p as int)),
            r matches Some((_, e)) ==> p <= e <= self.chars@.len(),
    {
        match self.identifier(p) {
            Some((name, q1)) => match self.wsc_char(q1, '(') {
                Some(q2) => {
                    let r = self.skip_wsc(q2);
                    match self.signed_at(r) {
                        Some((v, q3)) => match self.wsc_char(q3, ')') {
                            Some(e) => Some((DistinguishedValue { name, value: v }, e)),
                            None => None,
                        },
                        None => None,
                    }
                },
                None => None,
            },
            None => None,
        }
    }

    fn distinguished_values_rest(&self, start: usize, init: Vec<DistinguishedValue>) -> (r: Option<
        (Vec<DistinguishedValue>, usize),
    >)
        requires
            self.wf(),
            start <= self.chars@.len(),
        ensures
            match r {
                Some((v, e)) => distinguished_values_rest(
                    self.chars@,
                    start as int,
                    distinguished_values_view(init@),
                ) == Some((distinguished_values_view(v@), e as int)) && start <= e
                    <= self.chars@.len(),
                None => distinguished_values_rest(
                    self.chars@,
                    start as int,
                    distinguished_values_view(init@),
                ) is None,
            },
    {
        let mut i = start;
        let mut acc = init;
        loop
            invariant
                self.wf(),
                start <= i <= self.chars@.len(),
                distinguished_values_rest(self.chars@, i as int, distinguished_values_view(acc@))
                    == distinguished_values_rest(
                    self.chars@,
                    start as int,
                    distinguished_values_view(init@),
                ),
            decreases self.chars@.len() - i,
        {
            match self.wsc_char(i, ',') {
                None => {
                    return Some((acc, i));
                },
                Some(i1) => match self.distinguished_value(i1) {
                    None => {
                        return Some((acc, i));
                    },
                    Some((d, i2)) => {
                        if i < i2 {
                            let ghost old_acc = acc@;
                            let ghost dv = d@;
                            acc.push(d);
                            proof {
                                assert(distinguished_values_view(acc@) =~= distinguished_values_view(
                                    old_acc,
                                ).push(dv));
                            }
                            i = i2;
                        } else {
                            return None;
                        }
                    },
                },
            }
        }
    }

    fn distinguished_values(&self, p: usize) -> (r: Option<(Vec<DistinguishedValue>, usize)>)
        requires
            self.wf(),
            p <= self.chars@.len(),
        ensures
            match r {
                Some((v, e)) => spec_distinguished_values(self.chars@, p as int) == Some(
                    (distinguished_values_view(v@), e as int),
                ) && p <= e <= self.chars@.len(),
                None => spec_distinguished_values(self.chars@, p as int) is None,
            },
    {
        match self.wsc_char(p, '{') {
            Some(q1) => {
                let r = self.skip_wsc(q1);
                match self.distinguished_value(r) {
                    Some((d, q2)) => {
                        let ghost dv = d@;
                        let mut v = Vec::new();
                        v.push(d);
                        proof {
                            assert(distinguished_values_view(v@) =~= seq![dv]);
                        }
                        match self.distinguished_values_rest(q2, v) {
                            Some((ds, q3)) => match self.wsc_char(q3, '}') {
                                Some(e) => Some((ds, e)),
                                None => None,
                            },
                            None => None,
                        }
                    },
                    None => None,
                }
            },
            None => None,
        }
    }

    /// `spec_integer`
    pub fn integer(&self, p: usize) -> (r: Option<(ASN1Type, usize)>)
        requires
            self.wf(),
            p <= self.chars@.len(),
        ensures
            agrees(r, spec_integer(self.chars@, p as int)),
            r matches Some((_, e)) ==> p <= e <= self.chars@.len(),
        decreases self.chars@.len() - p, 5int,
    {
        match self.wsc_tag(p, INTEGER) {
            Some(q1) => {
                proof {
                    lemma_wsc_tag(self.chars@, p as int, INTEGER@);
                    reveal_strlit("INTEGER");
                }
                let (named, q2) = match self.distinguished_values(q1) {
                    Some((d, e)) => (Some(d), e),
                    None => (None, q1),
                };
                let r = self.skip_wsc(q2);
                match self.constraint(r) {
                    Some((cs, e)) => Some(
                        (
                            ASN1Type::Integer(
                                Integer { constraints: cs, distinguished_values: named },
                            ),
                            e,
                        ),
                    ),
                    None => {
                        let v: Vec<Constraint> = Vec::new();
                        proof {
                            lemma_constraints_view_empty();
                            assert(v@ =~= Seq::<Constraint>::empty());
                        }
                        Some(
                            (
                                ASN1Type::Integer(
                                    Integer { constraints: v, distinguished_values: named },
                                ),
                                q2,
                            ),
                        )
                    },
                }
            },
            None => None,
        }
    }
}

} // verus!
