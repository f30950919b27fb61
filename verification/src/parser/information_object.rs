//! Object sets, whose values are references or information objects written
//! inline, and the actual parameters of a parameterized type.
use vstd::prelude::*;

use super::common::{
    capital_word, field_reference, has_char, identifier, is_uppercase, is_uppercase_char,
    lemma_field_reference, lemma_skip_wsc_moves, lemma_wsc_char, skip_wsc, wsc_char,
};
use super::constraint::{ext_marker_after, spec_asn1_type};
use super::input::{agrees, in_between, moved_on, Input};
use super::value::spec_asn1_value;
use crate::intermediate::constraints::{
    lemma_object_field_list_view_push, lemma_object_set_values_view_push,
    lemma_parameters_view_push, lemma_syntax_applications_view_push, object_field_list_view,
    object_set_values_view, parameters_view, syntax_applications_view, ObjectSet, ObjectSetValue,
    SpecObjectSet, SpecObjectSetValue,
};
use crate::intermediate::information_object::{
    FixedValueField, InformationObjectField, InformationObjectFields, Parameter,
    SpecInformationObjectField, SpecInformationObjectFields, SpecParameter, SpecSyntaxApplication,
    SyntaxApplication, TypeField,
};

verus! {

broadcast use vstd::string::group_string_axioms;

// These parsers are part of the recursive constraint grammar; see the note
// on measures and ranks in `constraint`.

/// An object set `{ A | { ... } | B, ... }`: references and objects written
/// inline, separated by `|`, possibly followed by an extension marker; then
/// `extensible` holds the number of values before the marker.
pub open spec fn spec_object_set(s: Seq<char>, p: int) -> Option<(SpecObjectSet, int)>
    decreases s.len() - p, 39int,
{
    match wsc_char(s, p, '{') {
        Some(q1) => {
            let q2 = skip_wsc(s, q1);
            proof {
                lemma_wsc_char(s, p, '{');
                lemma_skip_wsc_moves(s, q1);
            }
            let values = match spec_object_set_value(s, q2) {
                None => Some((Seq::empty(), q2)),
                Some((v, e)) => if in_between(s, q2, e) {
                    spec_object_set_rest(s, e, seq![v])
                } else {
                    None
                },
            };
            match values {
                Some((vs, q3)) => {
                    let (ext, q4) = ext_marker_after(s, q3);
                    match wsc_char(s, q4, '}') {
                        Some(e) => Some(
                            (
                                SpecObjectSet {
                                    values: vs,
                                    extensible: if ext {
                                        Some(vs.len() as int)
                                    } else {
                                        None
                                    },
                                },
                                e,
                            ),
                        ),
                        None => None,
                    }
                },
                None => None,
            }
        },
        None => None,
    }
}

/// More values of an object set, each after `|`, appended to `acc`.
pub open spec fn spec_object_set_rest(s: Seq<char>, i: int, acc: Seq<SpecObjectSetValue>) -> Option<
    (Seq<SpecObjectSetValue>, int),
>
    decreases s.len() - i, 38int,
{
    match wsc_char(s, i, '|') {
        None => Some((acc, i)),
        Some(i1) => {
            proof {
                lemma_wsc_char(s, i, '|');
            }
            match spec_object_set_value(s, i1) {
                None => Some((acc, i)),
                Some((v, i2)) => if moved_on(s, i, i2) {
                    spec_object_set_rest(s, i2, acc.push(v))
                } else {
                    None
                },
            }
        },
    }
}

/// A value of an object set: an object written inline, or a reference.
pub open spec fn spec_object_set_value(s: Seq<char>, p: int) -> Option<(SpecObjectSetValue, int)>
    decreases s.len() - p, 37int,
{
    match spec_information_object(s, p) {
        Some((f, e)) => Some((SpecObjectSetValue::Inline(f), e)),
        None => match identifier(s, p) {
            Some((r, e)) => Some((SpecObjectSetValue::Reference(r), e)),
            None => None,
        },
    }
}

/// An information object `{ ... }`: in the default syntax when its first
/// token is a field reference `&name`, else in a syntax of the class's own.
pub open spec fn spec_information_object(s: Seq<char>, p: int) -> Option<
    (SpecInformationObjectFields, int),
>
    decreases s.len() - p, 36int,
{
    match wsc_char(s, p, '{') {
        Some(q1) => {
            let r = skip_wsc(s, q1);
            proof {
                lemma_wsc_char(s, p, '{');
                lemma_skip_wsc_moves(s, q1);
            }
            let fields = if has_char(s, r, '&') {
                match spec_object_fields(s, r) {
                    Some((f, e)) => Some((SpecInformationObjectFields::DefaultSyntax(f), e)),
                    None => None,
                }
            } else {
                match spec_syntax_tokens(s, r) {
                    Some((t, e)) => Some((SpecInformationObjectFields::CustomSyntax(t), e)),
                    None => None,
                }
            };
            match fields {
                Some((f, q2)) => match wsc_char(s, q2, '}') {
                    Some(e) => Some((f, e)),
                    None => None,
                },
                None => None,
            }
        },
        None => None,
    }
}

/// Fields in the default syntax, separated by `,`.
pub open spec fn spec_object_fields(s: Seq<char>, p: int) -> Option<
    (Seq<SpecInformationObjectField>, int),
>
    decreases s.len() - p, 35int,
{
    match spec_object_field(s, p) {
        Some((f, q)) => if in_between(s, p, q) {
            spec_object_fields_rest(s, q, seq![f])
        } else {
            None
        },
        None => None,
    }
}

/// More fields, each after `,`, appended to `acc`.
pub open spec fn spec_object_fields_rest(
    s: Seq<char>,
    i: int,
    acc: Seq<SpecInformationObjectField>,
) -> Option<(Seq<SpecInformationObjectField>, int)>
    decreases s.len() - i, 34int,
{
    match wsc_char(s, i, ',') {
        None => Some((acc, i)),
        Some(i1) => {
            proof {
                lemma_wsc_char(s, i, ',');
            }
            match spec_object_field(s, i1) {
                None => Some((acc, i)),
                Some((f, i2)) => if moved_on(s, i, i2) {
                    spec_object_fields_rest(s, i2, acc.push(f))
                } else {
                    None
                },
            }
        },
    }
}

/// A field in the default syntax: `&Name Type` (the name after `&` starts
/// with a capital) or `&name value`.
pub open spec fn spec_object_field(s: Seq<char>, p: int) -> Option<(SpecInformationObjectField, int)>
    decreases s.len() - p, 33int,
{
    match field_reference(s, p) {
        Some((name, q1)) => {
            proof {
                lemma_field_reference(s, p);
            }
            if is_uppercase(name[1]) {
                match spec_asn1_type(s, q1) {
                    Some((t, e)) => Some((SpecInformationObjectField::TypeField(name, t), e)),
                    None => None,
                }
            } else {
                match spec_asn1_value(s, q1) {
                    Some((v, e)) => Some((SpecInformationObjectField::FixedValueField(name, v), e)),
                    None => None,
                }
            }
        },
        None => None,
    }
}

/// The tokens of an object in a syntax of the class's own (at least one).
pub open spec fn spec_syntax_tokens(s: Seq<char>, p: int) -> Option<(Seq<SpecSyntaxApplication>, int)>
    decreases s.len() - p, 32int,
{
    match spec_syntax_token(s, p) {
        Some((t, q)) => if in_between(s, p, q) {
            spec_syntax_tokens_rest(s, q, seq![t])
        } else {
            None
        },
        None => None,
    }
}

/// More tokens appended to `acc`, until one does not match; one that
/// matches without reading anything fails the list.
pub open spec fn spec_syntax_tokens_rest(s: Seq<char>, i: int, acc: Seq<SpecSyntaxApplication>) -> Option<
    (Seq<SpecSyntaxApplication>, int),
>
    decreases s.len() - i, 31int,
{
    match spec_syntax_token(s, i) {
        Some((t, q)) => if moved_on(s, i, q) {
            spec_syntax_tokens_rest(s, q, acc.push(t))
        } else {
            None
        },
        None => Some((acc, i)),
    }
}

/// A token of a syntax of the class's own: a word in capitals, else a type,
/// else a value.
pub open spec fn spec_syntax_token(s: Seq<char>, p: int) -> Option<(SpecSyntaxApplication, int)>
    decreases s.len() - p, 30int,
{
    match capital_word(s, p) {
        Some((w, e)) => Some((SpecSyntaxApplication::Literal(w), e)),
        None => match spec_asn1_type(s, p) {
            Some((t, e)) => Some((SpecSyntaxApplication::TypeReference(t), e)),
            None => match spec_asn1_value(s, p) {
                Some((v, e)) => Some((SpecSyntaxApplication::ValueReference(v), e)),
                None => None,
            },
        },
    }
}

/// The actual parameters of a parameterized type: `{ Type, value, ... }`.
pub open spec fn spec_parameters(s: Seq<char>, p: int) -> Option<(Seq<SpecParameter>, int)>
    decreases s.len() - p, 16int,
{
    match wsc_char(s, p, '{') {
        Some(q1) => {
            let r = skip_wsc(s, q1);
            proof {
                lemma_wsc_char(s, p, '{');
                lemma_skip_wsc_moves(s, q1);
            }
            match spec_parameter_list(s, r) {
                Some((ps, q2)) => match wsc_char(s, q2, '}') {
                    Some(e) => Some((ps, e)),
                    None => None,
                },
                None => None,
            }
        },
        None => None,
    }
}

/// Parameters separated by `,` (at least one).
pub open spec fn spec_parameter_list(s: Seq<char>, p: int) -> Option<(Seq<SpecParameter>, int)>
    decreases s.len() - p, 43int,
{
    match spec_parameter(s, p) {
        Some((x, q)) => if in_between(s, p, q) {
            spec_parameter_rest(s, q, seq![x])
        } else {
            None
        },
        None => None,
    }
}

/// More parameters, each after `,`, appended to `acc`.
pub open spec fn spec_parameter_rest(s: Seq<char>, i: int, acc: Seq<SpecParameter>) -> Option<
    (Seq<SpecParameter>, int),
>
    decreases s.len() - i, 42int,
{
    match wsc_char(s, i, ',') {
        None => Some((acc, i)),
        Some(i1) => {
            proof {
                lemma_wsc_char(s, i, ',');
            }
            match spec_parameter(s, i1) {
                None => Some((acc, i)),
                Some((x, i2)) => if moved_on(s, i, i2) {
                    spec_parameter_rest(s, i2, acc.push(x))
                } else {
                    None
                },
            }
        },
    }
}

/// A parameter: a type if one matches, else a value.
pub open spec fn spec_parameter(s: Seq<char>, p: int) -> Option<(SpecParameter, int)>
    decreases s.len() - p, 41int,
{
    match spec_asn1_type(s, p) {
        Some((t, e)) => Some((SpecParameter::TypeParameter(t), e)),
        None => match spec_asn1_value(s, p) {
            Some((v, e)) => Some((SpecParameter::ValueParameter(v), e)),
            None => None,
        },
    }
}

impl<'a> Input<'a> {
    /// `spec_object_set`
    pub fn object_set(&self, p: usize) -> (r: Option<(ObjectSet, usize)>)
        requires
            self.wf(),
            p <= self.chars@.len(),
        ensures
            agrees(r, spec_object_set(self.chars@, p as int)),
            r matches Some((_, e)) ==> p <= e <= self.chars@.len(),
        decreases self.chars@.len() - p, 39int,
    {
        match self.wsc_char(p, '{') {
            Some(q1) => {
                let q2 = self.skip_wsc(q1);
                let values = match self.object_set_value(q2) {
                    None => {
                        let v: Vec<ObjectSetValue> = Vec::new();
                        proof {
                            assert(object_set_values_view(v@) =~= Seq::<SpecObjectSetValue>::empty());
                        }
                        Some((v, q2))
                    },
                    Some((x, e)) => {
                        let mut v: Vec<ObjectSetValue> = Vec::new();
                        v.push(x);
                        proof {
                            assert(v@ =~= Seq::<ObjectSetValue>::empty().push(v@[0]));
                            lemma_object_set_values_view_push(Seq::empty(), v@[0]);
                            assert(object_set_values_view(Seq::<ObjectSetValue>::empty()) =~= Seq::<
                                SpecObjectSetValue,
                            >::empty());
                        }
                        self.object_set_rest(e, v)
                    },
                };
                match values {
                    Some((vs, q3)) => {
                        let (ext, q4) = self.ext_marker_after(q3);
                        match self.wsc_char(q4, '}') {
                            Some(e) => {
                                let n = vs.len();
                                proof {
                                    crate::intermediate::constraints::lemma_object_set_values_view_len(
                                        vs@,
                                    );
                                }
                                Some(
                                    (
                                        ObjectSet {
                                            values: vs,
                                            extensible: if ext {
                                                Some(n)
                                            } else {
                                                None
                                            },
                                        },
                                        e,
                                    ),
                                )
                            },
                            None => None,
                        }
                    },
                    None => None,
                }
            },
            None => None,
        }
    }

    /// `spec_object_set_rest`
    fn object_set_rest(&self, start: usize, init: Vec<ObjectSetValue>) -> (r: Option<
        (Vec<ObjectSetValue>, usize),
    >)
        requires
            self.wf(),
            start <= self.chars@.len(),
        ensures
            match r {
                Some((v, e)) => spec_object_set_rest(
                    self.chars@,
                    start as int,
                    object_set_values_view(init@),
                ) == Some((object_set_values_view(v@), e as int)) && start <= e
                    <= self.chars@.len(),
                None => spec_object_set_rest(
                    self.chars@,
                    start as int,
                    object_set_values_view(init@),
                ) is None,
            },
        decreases self.chars@.len() - start, 38int,
    {
        let mut i = start;
        let mut acc = init;
        loop
            invariant
                self.wf(),
                start <= i <= self.chars@.len(),
                spec_object_set_rest(self.chars@, i as int, object_set_values_view(acc@))
                    == spec_object_set_rest(
                    self.chars@,
                    start as int,
                    object_set_values_view(init@),
                ),
            decreases self.chars@.len() - i,
        {
            match self.wsc_char(i, '|') {
                None => {
                    return Some((acc, i));
                },
                Some(i1) => match self.object_set_value(i1) {
                    None => {
                        return Some((acc, i));
                    },
                    Some((x, i2)) => {
                        if i < i2 {
                            let ghost old_acc = acc@;
                            acc.push(x);
                            proof {
                                assert(acc@ =~= old_acc.push(acc@.last()));
                                lemma_object_set_values_view_push(old_acc, acc@.last());
                            }
                            i = i2;
                        } else {
                            return None;
                        }
                    },
                },
            }
        }
    }

    /// `spec_object_set_value`
    fn object_set_value(&self, p: usize) -> (r: Option<(ObjectSetValue, usize)>)
        requires
            self.wf(),
            p <= self.chars@.len(),
        ensures
            agrees(r, spec_object_set_value(self.chars@, p as int)),
            r matches Some((_, e)) ==> p <= e <= self.chars@.len(),
        decreases self.chars@.len() - p, 37int,
    {
        match self.information_object(p) {
            Some((f, e)) => Some((ObjectSetValue::Inline(f), e)),
            None => match self.identifier(p) {
                Some((name, e)) => Some((ObjectSetValue::Reference(name), e)),
                None => None,
            },
        }
    }

    /// `spec_information_object`
    fn information_object(&self, p: usize) -> (r: Option<(InformationObjectFields, usize)>)
        requires
            self.wf(),
            p <= self.chars@.len(),
        ensures
            agrees(r, spec_information_object(self.chars@, p as int)),
            r matches Some((_, e)) ==> p <= e <= self.chars@.len(),
        decreases self.chars@.len() - p, 36int,
    {
        match self.wsc_char(p, '{') {
            Some(q1) => {
                let r = self.skip_wsc(q1);
                let fields = if self.char_is(r, '&') {
                    match self.object_fields(r) {
                        Some((f, e)) => Some((InformationObjectFields::DefaultSyntax(f), e)),
                        None => None,
                    }
                } else {
                    match self.syntax_tokens(r) {
                        Some((t, e)) => Some((InformationObjectFields::CustomSyntax(t), e)),
                        None => None,
                    }
                };
                match fields {
                    Some((f, q2)) => match self.wsc_char(q2, '}') {
                        Some(e) => Some((f, e)),
                        None => None,
                    },
                    None => None,
                }
            },
            None => None,
        }
    }

    /// `spec_object_fields`
    fn object_fields(&self, p: usize) -> (r: Option<(Vec<InformationObjectField>, usize)>)
        requires
            self.wf(),
            p <= self.chars@.len(),
        ensures
            match r {
                Some((v, e)) => spec_object_fields(self.chars@, p as int) == Some(
                    (object_field_list_view(v@), e as int),
                ) && p <= e <= self.chars@.len(),
                None => spec_object_fields(self.chars@, p as int) is None,
            },
        decreases self.chars@.len() - p, 35int,
    {
        match self.object_field(p) {
            Some((f, q)) => {
                let mut v = Vec::new();
                v.push(f);
                proof {
                    assert(v@ =~= Seq::<InformationObjectField>::empty().push(v@[0]));
                    lemma_object_field_list_view_push(Seq::empty(), v@[0]);
                    assert(object_field_list_view(Seq::<InformationObjectField>::empty()) =~= Seq::<
                        SpecInformationObjectField,
                    >::empty());
                }
                self.object_fields_rest(q, v)
            },
            None => None,
        }
    }

    /// `spec_object_fields_rest`
    fn object_fields_rest(&self, start: usize, init: Vec<InformationObjectField>) -> (r: Option<
        (Vec<InformationObjectField>, usize),
    >)
        requires
            self.wf(),
            start <= self.chars@.len(),
        ensures
            match r {
                Some((v, e)) => spec_object_fields_rest(
                    self.chars@,
                    start as int,
                    object_field_list_view(init@),
                ) == Some((object_field_list_view(v@), e as int)) && start <= e
                    <= self.chars@.len(),
                None => spec_object_fields_rest(
                    self.chars@,
                    start as int,
                    object_field_list_view(init@),
                ) is None,
            },
        decreases self.chars@.len() - start, 34int,
    {
        let mut i = start;
        let mut acc = init;
        loop
            invariant
                self.wf(),
                start <= i <= self.chars@.len(),
                spec_object_fields_rest(self.chars@, i as int, object_field_list_view(acc@))
                    == spec_object_fields_rest(
                    self.chars@,
                    start as int,
                    object_field_list_view(init@),
                ),
            decreases self.chars@.len() - i,
        {
            match self.wsc_char(i, ',') {
                None => {
                    return Some((acc, i));
                },
                Some(i1) => match self.object_field(i1) {
                    None => {
                        return Some((acc, i));
                    },
                    Some((f, i2)) => {
                        if i < i2 {
                            let ghost old_acc = acc@;
                            acc.push(f);
                            proof {
                                assert(acc@ =~= old_acc.push(acc@.last()));
                                lemma_object_field_list_view_push(old_acc, acc@.last());
                            }
                            i = i2;
                        } else {
                            return None;
                        }
                    },
                },
            }
        }
    }

    /// `spec_object_field`
    fn object_field(&self, p: usize) -> (r: Option<(InformationObjectField, usize)>)
        requires
            self.wf(),
            p <= self.chars@.len(),
        ensures
            agrees(r, spec_object_field(self.chars@, p as int)),
            r matches Some((_, e)) ==> p <= e <= self.chars@.len(),
        decreases self.chars@.len() - p, 33int,
    {
        let q = self.skip_wsc(p);
        match self.field_reference(p) {
            Some((name, q1)) => {
                proof {
                    lemma_field_reference(self.chars@, p as int);
                }
                assert(name@[1] == self.chars@[q + 1]);
                if is_uppercase_char(self.chars[q + 1]) {
                    match self.asn1_type(q1) {
                        Some((t, e)) => Some(
                            (
                                InformationObjectField::TypeField(
                                    TypeField { identifier: name, field_type: t },
                                ),
                                e,
                            ),
                        ),
                        None => None,
                    }
                } else {
                    match self.asn1_value(q1) {
                        Some((v, e)) => Some(
                            (
                                InformationObjectField::FixedValueField(
                                    FixedValueField { identifier: name, value: v },
                                ),
                                e,
                            ),
                        ),
                        None => None,
                    }
                }
            },
            None => None,
        }
    }

    /// `spec_syntax_tokens`
    fn syntax_tokens(&self, p: usize) -> (r: Option<(Vec<SyntaxApplication>, usize)>)
        requires
            self.wf(),
            p <= self.chars@.len(),
        ensures
            match r {
                Some((v, e)) => spec_syntax_tokens(self.chars@, p as int) == Some(
                    (syntax_applications_view(v@), e as int),
                ) && p <= e <= self.chars@.len(),
                None => spec_syntax_tokens(self.chars@, p as int) is None,
            },
        decreases self.chars@.len() - p, 32int,
    {
        match self.syntax_token(p) {
            Some((t, q)) => {
                let mut v = Vec::new();
                v.push(t);
                proof {
                    assert(v@ =~= Seq::<SyntaxApplication>::empty().push(v@[0]));
                    lemma_syntax_applications_view_push(Seq::empty(), v@[0]);
                    assert(syntax_applications_view(Seq::<SyntaxApplication>::empty()) =~= Seq::<
                        SpecSyntaxApplication,
                    >::empty());
                }
                self.syntax_tokens_rest(q, v)
            },
            None => None,
        }
    }

    /// `spec_syntax_tokens_rest`
    fn syntax_tokens_rest(&self, start: usize, init: Vec<SyntaxApplication>) -> (r: Option<
        (Vec<SyntaxApplication>, usize),
    >)
        requires
            self.wf(),
            start <= self.chars@.len(),
        ensures
            match r {
                Some((v, e)) => spec_syntax_tokens_rest(
                    self.chars@,
                    start as int,
                    syntax_applications_view(init@),
                ) == Some((syntax_applications_view(v@), e as int)) && start <= e
                    <= self.chars@.len(),
                None => spec_syntax_tokens_rest(
                    self.chars@,
                    start as int,
                    syntax_applications_view(init@),
                ) is None,
            },
        decreases self.chars@.len() - start, 31int,
    {
        let mut i = start;
        let mut acc = init;
        loop
            invariant
                self.wf(),
                start <= i <= self.chars@.len(),
                spec_syntax_tokens_rest(self.chars@, i as int, syntax_applications_view(acc@))
                    == spec_syntax_tokens_rest(
                    self.chars@,
                    start as int,
                    syntax_applications_view(init@),
                ),
            decreases self.chars@.len() - i,
        {
            match self.syntax_token(i) {
                Some((t, q)) => {
                    if i < q {
                        let ghost old_acc = acc@;
                        acc.push(t);
                        proof {
                            assert(acc@ =~= old_acc.push(acc@.last()));
                            lemma_syntax_applications_view_push(old_acc, acc@.last());
                        }
                        i = q;
                    } else {
                        return None;
                    }
                },
                None => {
                    return Some((acc, i));
                },
            }
        }
    }

    /// `spec_syntax_token`
    fn syntax_token(&self, p: usize) -> (r: Option<(SyntaxApplication, usize)>)
        requires
            self.wf(),
            p <= self.chars@.len(),
        ensures
            agrees(r, spec_syntax_token(self.chars@, p as int)),
            r matches Some((_, e)) ==> p <= e <= self.chars@.len(),
        decreases self.chars@.len() - p, 30int,
    {
        match self.capital_word(p) {
            Some((w, e)) => Some((SyntaxApplication::Literal(w), e)),
            None => match self.asn1_type(p) {
                Some((t, e)) => Some((SyntaxApplication::TypeReference(t), e)),
                None => match self.asn1_value(p) {
                    Some((v, e)) => Some((SyntaxApplication::ValueReference(v), e)),
                    None => None,
                },
            },
        }
    }

    /// `spec_parameters`
    pub fn parameters(&self, p: usize) -> (r: Option<(Vec<Parameter>, usize)>)
        requires
            self.wf(),
            p <= self.chars@.len(),
        ensures
            match r {
                Some((v, e)) => spec_parameters(self.chars@, p as int) == Some(
                    (parameters_view(v@), e as int),
                ) && p <= e <= self.chars@.len(),
                None => spec_parameters(self.chars@, p as int) is None,
            },
        decreases self.chars@.len() - p, 16int,
    {
        match self.wsc_char(p, '{') {
            Some(q1) => {
                let r = self.skip_wsc(q1);
                match self.parameter_list(r) {
                    Some((ps, q2)) => match self.wsc_char(q2, '}') {
                        Some(e) => Some((ps, e)),
                        None => None,
                    },
                    None => None,
                }
            },
            None => None,
        }
    }

    /// `spec_parameter_list`
    fn parameter_list(&self, p: usize) -> (r: Option<(Vec<Parameter>, usize)>)
        requires
            self.wf(),
            p <= self.chars@.len(),
        ensures
            match r {
                Some((v, e)) => spec_parameter_list(self.chars@, p as int) == Some(
                    (parameters_view(v@), e as int),
                ) && p <= e <= self.chars@.len(),
                None => spec_parameter_list(self.chars@, p as int) is None,
            },
        decreases self.chars@.len() - p, 43int,
    {
        match self.parameter(p) {
            Some((x, q)) => {
                let mut v = Vec::new();
                v.push(x);
                proof {
                    assert(v@ =~= Seq::<Parameter>::empty().push(v@[0]));
                    lemma_parameters_view_push(Seq::empty(), v@[0]);
                    assert(parameters_view(Seq::<Parameter>::empty()) =~= Seq::<
                        SpecParameter,
                    >::empty());
                }
                self.parameter_rest(q, v)
            },
            None => None,
        }
    }

    /// `spec_parameter_rest`
    fn parameter_rest(&self, start: usize, init: Vec<Parameter>) -> (r: Option<
        (Vec<Parameter>, usize),
    >)
        requires
            self.wf(),
            start <= self.chars@.len(),
        ensures
            match r {
                Some((v, e)) => spec_parameter_rest(
                    self.chars@,
                    start as int,
                    parameters_view(init@),
                ) == Some((parameters_view(v@), e as int)) && start <= e <= self.chars@.len(),
                None => spec_parameter_rest(self.chars@, start as int, parameters_view(init@))
                    is None,
            },
        decreases self.chars@.len() - start, 42int,
    {
        let mut i = start;
        let mut acc = init;
        loop
            invariant
                self.wf(),
                start <= i <= self.chars@.len(),
                spec_parameter_rest(self.chars@, i as int, parameters_view(acc@))
                    == spec_parameter_rest(self.chars@, start as int, parameters_view(init@)),
            decreases self.chars@.len() - i,
        {
            match self.wsc_char(i, ',') {
                None => {
                    return Some((acc, i));
                },
                Some(i1) => match self.parameter(i1) {
                    None => {
                        return Some((acc, i));
                    },
                    Some((x, i2)) => {
                        if i < i2 {
                            let ghost old_acc = acc@;
                            acc.push(x);
                            proof {
                                assert(acc@ =~= old_acc.push(acc@.last()));
                                lemma_parameters_view_push(old_acc, acc@.last());
                            }
                            i = i2;
                        } else {
                            return None;
                        }
                    },
                },
            }
        }
    }

    /// `spec_parameter`
    fn parameter(&self, p: usize) -> (r: Option<(Parameter, usize)>)
        requires
            self.wf(),
            p <= self.chars@.len(),
        ensures
            agrees(r, spec_parameter(self.chars@, p as int)),
            r matches Some((_, e)) ==> p <= e <= self.chars@.len(),
        decreases self.chars@.len() - p, 41int,
    {
        match self.asn1_type(p) {
            Some((t, e)) => Some((Parameter::TypeParameter(t), e)),
            None => match self.asn1_value(p) {
                Some((v, e)) => Some((Parameter::ValueParameter(v), e)),
                None => None,
            },
        }
    }
}

} // verus!
