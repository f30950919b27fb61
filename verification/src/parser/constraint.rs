//! Constraints: subtype constraints (single values, value ranges, sizes,
//! permitted alphabets, inner type constraints, patterns, user-defined
//! constraints, contained subtypes and set operations over them) and table
//! constraints.
use vstd::prelude::*;

use super::boolean::spec_boolean;
use super::information_object::{spec_object_set, spec_parameters};
use super::integer::spec_integer;
use super::common::{
    extension_marker, has_char, identifier, lemma_identifier, lemma_skip_wsc_moves, lemma_tag_end,
    lemma_wsc_char, lemma_wsc_tag, range_separator, same_end, skip_wsc, tag_end, type_reference,
    wsc_char, wsc_tag, ELLIPSIS, RANGE,
};
use super::input::{agrees, finish, in_between, moved_on, parsed, Input, ParseError};
use super::object_identifier::spec_object_identifier;
use super::properties::{lemma_constraint_nonempty, lemma_constraint_reads};
use super::value::{cstring_close, lemma_cstring_close, spec_asn1_value};
use crate::intermediate::constraints::{
    components_view, constraints_view, lemma_components_view_push, lemma_constraints_view_empty,
    lemma_constraints_view_len, lemma_constraints_view_push, object_set_values_view,
    opt_value_view, relational_view, ComponentPresence, ConstrainedComponent, Constraint,
    ElementOrSetOperation, ElementSet, InnerTypeConstraint, ObjectSet, ObjectSetValue,
    PatternConstraint, RelationalConstraint, SetOperation, SetOperator, SpecConstrainedComponent,
    SpecConstraint, SpecElementOrSetOperation, SpecElementSet, SpecInnerTypeConstraint,
    SpecObjectSet, SpecRelationalConstraint, SpecSetOperation, SpecSubtypeElement,
    SpecTableConstraint, SubtypeElement, TableConstraint, UserDefinedConstraint, ABSENT, CARET,
    CONSTRAINED_BY, EXCEPT, FROM, INCLUDES, INTERSECTION, MAX, MIN, PATTERN, PIPE, PRESENT, SIZE,
    UNION, WITH_COMPONENT, WITH_COMPONENTS,
};
use crate::intermediate::types::DeclarationElsewhere;
use crate::intermediate::{ASN1Type, ASN1Value, SpecASN1Type, SpecASN1Value};

verus! {

broadcast use vstd::string::group_string_axioms;

/// An optional opening parenthesis after white space and comments: whether
/// one was read, and the position after it.
#[verifier::opaque]
pub open spec fn open_paren(s: Seq<char>, p: int) -> (bool, int) {
    match wsc_char(s, p, '(') {
        Some(e) => (true, e),
        None => (false, p),
    }
}

/// The closing parenthesis that an opening one asks for.
#[verifier::opaque]
pub open spec fn close_paren(s: Seq<char>, opened: bool, q: int) -> Option<int> {
    if opened {
        wsc_char(s, q, ')')
    } else {
        Some(q)
    }
}

pub proof fn lemma_open_paren(s: Seq<char>, p: int)
    ensures
        open_paren(s, p).1 == p || p < open_paren(s, p).1 <= s.len(),
{
    reveal(open_paren);
    lemma_wsc_char(s, p, '(');
}

/// An optional `, ...` after white space and comments: whether it was there,
/// and the position after it (else `p`).
#[verifier::opaque]
pub open spec fn ext_marker_after(s: Seq<char>, p: int) -> (bool, int) {
    let q = skip_wsc(s, p);
    if has_char(s, q, ',') {
        match extension_marker(s, q + 1) {
            Some(e) => (true, e),
            None => (false, p),
        }
    } else {
        (false, p)
    }
}

/// A set operator after white space and comments.
#[verifier::opaque]
pub open spec fn spec_set_operator(s: Seq<char>, p: int) -> Option<(SetOperator, int)> {
    let q = skip_wsc(s, p);
    if let Some(e) = tag_end(s, q, INTERSECTION@) {
        Some((SetOperator::Intersection, e))
    } else if let Some(e) = tag_end(s, q, CARET@) {
        Some((SetOperator::Intersection, e))
    } else if let Some(e) = tag_end(s, q, UNION@) {
        Some((SetOperator::Union, e))
    } else if let Some(e) = tag_end(s, q, PIPE@) {
        Some((SetOperator::Union, e))
    } else if let Some(e) = tag_end(s, q, EXCEPT@) {
        Some((SetOperator::Except, e))
    } else {
        None
    }
}

/// A set operator reads at least one character, within the input.
pub proof fn lemma_set_operator_reads(s: Seq<char>, p: int)
    ensures
        spec_set_operator(s, p) matches Some((_, e)) ==> p < e <= s.len(),
{
    reveal(spec_set_operator);
    let q = skip_wsc(s, p);
    lemma_skip_wsc_moves(s, p);
    reveal_strlit("INTERSECTION");
    reveal_strlit("^");
    reveal_strlit("UNION");
    reveal_strlit("|");
    reveal_strlit("EXCEPT");
    lemma_tag_end(s, q, INTERSECTION@);
    lemma_tag_end(s, q, CARET@);
    lemma_tag_end(s, q, UNION@);
    lemma_tag_end(s, q, PIPE@);
    lemma_tag_end(s, q, EXCEPT@);
}

/// The lower bound of a range (`MIN` or a value) and the optional `>` after it.
pub open spec fn range_lower(s: Seq<char>, p: int) -> Option<(Option<SpecASN1Value>, int)> {
    let bound = match tag_end(s, p, MIN@) {
        Some(e) => Some((None, e)),
        None => match spec_asn1_value(s, p) {
            Some((v, e)) => Some((Some(v), e)),
            None => None,
        },
    };
    match bound {
        Some((b, e)) => {
            let q = skip_wsc(s, e);
            Some((b, if has_char(s, q, '>') { q + 1 } else { q }))
        },
        None => None,
    }
}

/// `..`, an optional `<`, and the upper bound of a range (`MAX` or a value).
pub open spec fn range_upper(s: Seq<char>, p: int) -> Option<(Option<SpecASN1Value>, int)> {
    match range_separator(s, p) {
        Some(q) => {
            let r = skip_wsc(
                s,
                if has_char(s, q, '<') {
                    q + 1
                } else {
                    q
                },
            );
            match tag_end(s, r, MAX@) {
                Some(e) => Some((None, e)),
                None => match spec_asn1_value(s, r) {
                    Some((v, e)) => Some((Some(v), e)),
                    None => None,
                },
            }
        },
        None => None,
    }
}

/// Both bounds of a range `lower..upper`.
#[verifier::opaque]
pub open spec fn range_bounds(s: Seq<char>, p: int) -> Option<
    (Option<SpecASN1Value>, Option<SpecASN1Value>, int),
> {
    match range_lower(s, p) {
        Some((lo, q)) => match range_upper(s, q) {
            Some((hi, e)) => Some((lo, hi, e)),
            None => None,
        },
        None => None,
    }
}

/// One extension addition: a value or a range (whose bounds are not kept).
pub open spec fn addition_item(s: Seq<char>, p: int) -> Option<int> {
    let q = skip_wsc(s, p);
    match spec_asn1_value(s, q) {
        Some((_, e)) => Some(e),
        None => match range_bounds(s, q) {
            Some((_, _, e)) => Some(e),
            None => None,
        },
    }
}

/// The rest of a comma separated list of extension additions after an item
/// that ended at `i`; the list ends before a comma that no item follows.
pub open spec fn additions_rest(s: Seq<char>, i: int) -> Option<int>
    decreases s.len() - i,
{
    match wsc_char(s, i, ',') {
        None => Some(i),
        Some(i1) => match addition_item(s, i1) {
            None => Some(i),
            Some(i2) => if moved_on(s, i, i2) {
                additions_rest(s, i2)
            } else {
                None
            },
        },
    }
}

/// A comma separated list of extension additions, possibly empty.
pub open spec fn separated_additions(s: Seq<char>, p: int) -> Option<int> {
    match addition_item(s, p) {
        None => Some(p),
        Some(e) => additions_rest(s, e),
    }
}

/// The values added after an extension marker, `, a, b..c, ...`; they are
/// read and dropped.
#[verifier::opaque]
pub open spec fn spec_extension_additions(s: Seq<char>, p: int) -> int {
    match wsc_char(s, p, ',') {
        Some(q) => match separated_additions(s, skip_wsc(s, q)) {
            Some(e) => e,
            None => p,
        },
        None => p,
    }
}

/// An optional `, ...` after white space and comments, with the extension
/// additions that follow it: whether the marker was there, and the position
/// after the additions (else `p`).
#[verifier::opaque]
pub open spec fn ext_with_additions(s: Seq<char>, p: int) -> (bool, int) {
    let q = skip_wsc(s, p);
    if has_char(s, q, ',') {
        match extension_marker(s, q + 1) {
            Some(e) => (true, spec_extension_additions(s, e)),
            None => (false, p),
        }
    } else {
        (false, p)
    }
}

/// A single value, possibly in parentheses and possibly extensible.
#[verifier::opaque]
pub open spec fn spec_single_value(s: Seq<char>, p: int) -> Option<(SpecSubtypeElement, int)> {
    let (opened, q0) = open_paren(s, p);
    match spec_asn1_value(s, skip_wsc(s, q0)) {
        Some((v, q1)) => {
            let (ext, q2) = ext_with_additions(s, q1);
            match close_paren(s, opened, q2) {
                Some(e) => Some((SpecSubtypeElement::SingleValue { value: v, extensible: ext }, e)),
                None => None,
            }
        },
        None => None,
    }
}

/// A value range `lower..upper`, possibly in parentheses and possibly extensible.
#[verifier::opaque]
pub open spec fn spec_value_range(s: Seq<char>, p: int) -> Option<(SpecSubtypeElement, int)> {
    let (opened, q0) = open_paren(s, p);
    match range_bounds(s, skip_wsc(s, q0)) {
        Some((lo, hi, q1)) => {
            let (ext, q2) = ext_with_additions(s, q1);
            match close_paren(s, opened, q2) {
                Some(e) => Some(
                    (SpecSubtypeElement::ValueRange { min: lo, max: hi, extensible: ext }, e),
                ),
                None => None,
            }
        },
        None => None,
    }
}

/// `PATTERN "..."`; the text between the quotation marks is kept as written.
#[verifier::opaque]
pub open spec fn spec_pattern_constraint(s: Seq<char>, p: int) -> Option<(SpecSubtypeElement, int)> {
    let (opened, q0) = open_paren(s, p);
    match tag_end(s, skip_wsc(s, q0), PATTERN@) {
        Some(q1) => {
            let q2 = skip_wsc(s, q1);
            if has_char(s, q2, '"') {
                match cstring_close(s, q2 + 1) {
                    Some(c) => match close_paren(s, opened, c + 1) {
                        Some(e) => Some(
                            (SpecSubtypeElement::PatternConstraint(s.subrange(q2 + 1, c)), e),
                        ),
                        None => None,
                    },
                    None => None,
                }
            } else {
                None
            }
        },
        None => None,
    }
}

/// Position of the first closing brace at or after `p` that no opening brace
/// after `p` matches, given `depth` braces already open; a backslash escapes
/// the character after it.
pub open spec fn unbalanced_close(s: Seq<char>, p: int, depth: nat) -> Option<int>
    decreases s.len() - p,
{
    if p < 0 || p >= s.len() {
        None
    } else if s[p] == '\\' {
        if p + 1 < s.len() {
            unbalanced_close(s, p + 2, depth)
        } else {
            None
        }
    } else if s[p] == '{' {
        unbalanced_close(s, p + 1, depth + 1)
    } else if s[p] == '}' {
        if depth == 0 {
            Some(p)
        } else {
            unbalanced_close(s, p + 1, (depth - 1) as nat)
        }
    } else {
        unbalanced_close(s, p + 1, depth)
    }
}

/// `CONSTRAINED BY { ... }`; the text between the braces is kept as written.
#[verifier::opaque]
pub open spec fn spec_user_defined_constraint(s: Seq<char>, p: int) -> Option<(SpecSubtypeElement, int)> {
    let (opened, q0) = open_paren(s, p);
    match tag_end(s, skip_wsc(s, q0), CONSTRAINED_BY@) {
        Some(q1) => {
            let q2 = skip_wsc(s, q1);
            if has_char(s, q2, '{') {
                match unbalanced_close(s, q2 + 1, 0) {
                    Some(c) => match close_paren(s, opened, c + 1) {
                        Some(e) => Some(
                            (SpecSubtypeElement::UserDefinedConstraint(s.subrange(q2 + 1, c)), e),
                        ),
                        None => None,
                    },
                    None => None,
                }
            } else {
                None
            }
        },
        None => None,
    }
}

/// End of the run of `.` that starts at `p`.
pub open spec fn dots_end(s: Seq<char>, p: int) -> int
    decreases s.len() - p,
{
    if has_char(s, p, '.') {
        dots_end(s, p + 1)
    } else {
        p
    }
}

/// `@..field`: the field and the number of dots before it.
pub open spec fn spec_relational_constraint(s: Seq<char>, p: int) -> Option<(SpecRelationalConstraint, int)> {
    let q = skip_wsc(s, p);
    if has_char(s, q, '@') {
        let d = dots_end(s, q + 1);
        match identifier(s, d) {
            Some((name, e)) => Some(
                (SpecRelationalConstraint { field_name: name, level: d - (q + 1) }, e),
            ),
            None => None,
        }
    } else {
        None
    }
}

/// More relational constraints, each after `,`, appended to `acc`.
pub open spec fn relational_rest(s: Seq<char>, i: int, acc: Seq<SpecRelationalConstraint>) -> Option<
    (Seq<SpecRelationalConstraint>, int),
>
    decreases s.len() - i,
{
    match wsc_char(s, i, ',') {
        None => Some((acc, i)),
        Some(i1) => match spec_relational_constraint(s, i1) {
            None => Some((acc, i)),
            Some((r, i2)) => if moved_on(s, i, i2) {
                relational_rest(s, i2, acc.push(r))
            } else {
                None
            },
        },
    }
}

/// `{ @a, @.b }`: the fields that a table constraint links to.
#[verifier::opaque]
pub open spec fn linked_fields(s: Seq<char>, p: int) -> Option<(Seq<SpecRelationalConstraint>, int)> {
    match wsc_char(s, p, '{') {
        Some(q1) => match spec_relational_constraint(s, skip_wsc(s, q1)) {
            Some((r, q2)) => match relational_rest(s, q2, seq![r]) {
                Some((fields, q3)) => match wsc_char(s, q3, '}') {
                    Some(e) => Some((fields, e)),
                    None => None,
                },
                None => None,
            },
            None => None,
        },
        None => None,
    }
}

// The constraint grammar is recursive. Each parser below is measured by the
// input that is left and by a rank: a parser calls another at the same
// position only if the callee's rank is lower. Where a parser goes on from
// the end of a recursive match, it first compares that end with its own
// start; the comparison never fails (see `progress`), but it makes the
// decrease of the measure evident. In the loops, a match that reads nothing
// fails the whole list.

/// A table constraint: an object set and the fields it is linked to.
pub open spec fn spec_table_constraint(s: Seq<char>, p: int) -> Option<(SpecTableConstraint, int)>
    decreases s.len() - p, 40int,
{
    let (opened, q0) = open_paren(s, p);
    let q = skip_wsc(s, q0);
    proof {
        lemma_open_paren(s, p);
        lemma_skip_wsc_moves(s, q0);
    }
    match spec_object_set(s, q) {
        Some((set, q1)) => {
            let (fields, q2) = match linked_fields(s, q1) {
                Some((f, e)) => (f, e),
                None => (Seq::empty(), q1),
            };
            match close_paren(s, opened, q2) {
                Some(e) => Some((SpecTableConstraint { object_set: set, linked_fields: fields }, e)),
                None => None,
            }
        },
        None => None,
    }
}

/// One or more constraints.
pub open spec fn spec_constraint(s: Seq<char>, p: int) -> Option<(Seq<SpecConstraint>, int)>
    decreases s.len() - p, 20int,
{
    match spec_constraint_item(s, p) {
        Some((c, q)) => if in_between(s, p, q) {
            spec_constraint_rest(s, q, seq![c])
        } else {
            None
        },
        None => None,
    }
}

/// Further constraints appended to `acc`, until one does not match; one that
/// matches without reading anything fails the whole list.
pub open spec fn spec_constraint_rest(s: Seq<char>, i: int, acc: Seq<SpecConstraint>) -> Option<
    (Seq<SpecConstraint>, int),
>
    decreases s.len() - i, 19int,
{
    match spec_constraint_item(s, i) {
        Some((c, q)) => if moved_on(s, i, q) {
            spec_constraint_rest(s, q, acc.push(c))
        } else {
            None
        },
        None => Some((acc, i)),
    }
}

/// A constraint in parentheses, a size constraint written without them, or
/// the actual parameters of a parameterized type.
pub open spec fn spec_constraint_item(s: Seq<char>, p: int) -> Option<(SpecConstraint, int)>
    decreases s.len() - p, 18int,
{
    match spec_single_constraint(s, p) {
        Some(r) => Some(r),
        None => match spec_size_constraint(s, p) {
            Some((c, e)) => Some(
                (
                    SpecConstraint::SubtypeConstraint(
                        SpecElementSet {
                            set: SpecElementOrSetOperation::Element(c),
                            extensible: false,
                        },
                    ),
                    e,
                ),
            ),
            None => match spec_parameters(s, p) {
                Some((ps, e)) => Some((SpecConstraint::Parameter(ps), e)),
                None => None,
            },
        },
    }
}

/// `( table constraint )` or `( element set )`.
pub open spec fn spec_single_constraint(s: Seq<char>, p: int) -> Option<(SpecConstraint, int)>
    decreases s.len() - p, 17int,
{
    match wsc_char(s, skip_wsc(s, p), '(') {
        Some(q1) => {
            proof {
                lemma_skip_wsc_moves(s, p);
                lemma_wsc_char(s, skip_wsc(s, p), '(');
                lemma_skip_wsc_moves(s, q1);
            }
            let r = skip_wsc(s, q1);
            let inner = match spec_table_constraint(s, r) {
                Some((t, e)) => Some((SpecConstraint::TableConstraint(t), e)),
                None => match spec_element_set(s, r) {
                    Some((set, e)) => Some((SpecConstraint::SubtypeConstraint(set), e)),
                    None => None,
                },
            };
            match inner {
                Some((c, r1)) => match wsc_char(s, r1, ')') {
                    Some(e) => Some((c, e)),
                    None => None,
                },
                None => None,
            }
        },
        None => None,
    }
}

/// An element or a set operation, possibly followed by `, ...`.
pub open spec fn spec_element_set(s: Seq<char>, p: int) -> Option<(SpecElementSet, int)>
    decreases s.len() - p, 15int,
{
    match spec_set_or_element(s, p) {
        Some((set, q)) => {
            let (ext, e) = ext_marker_after(s, q);
            Some((SpecElementSet { set, extensible: ext }, e))
        },
        None => None,
    }
}

/// A set operation if one matches, else a single element.
pub open spec fn spec_set_or_element(s: Seq<char>, p: int) -> Option<(SpecElementOrSetOperation, int)>
    decreases s.len() - p, 14int,
{
    match spec_set_operation(s, p) {
        Some((o, e)) => Some((SpecElementOrSetOperation::SetOperation(o), e)),
        None => match spec_subtype_element(s, p) {
            Some((x, e)) => Some((SpecElementOrSetOperation::Element(x), e)),
            None => None,
        },
    }
}

/// `element operator rest`, where the rest is again a set operation or an
/// element: operators group to the right.
pub open spec fn spec_set_operation(s: Seq<char>, p: int) -> Option<(SpecSetOperation, int)>
    decreases s.len() - p, 13int,
{
    match spec_subtype_element(s, p) {
        Some((base, q1)) => if in_between(s, p, q1) {
            match spec_set_operator(s, q1) {
                Some((op, q2)) => {
                    proof {
                        lemma_set_operator_reads(s, q1);
                    }
                    match spec_set_or_element(s, q2) {
                        Some((rest, e)) => Some(
                            (SpecSetOperation { base, operator: op, operant: Box::new(rest) }, e),
                        ),
                        None => None,
                    }
                },
                None => None,
            }
        } else {
            None
        },
        None => None,
    }
}

/// The first kind of subtype element that matches.
pub open spec fn spec_subtype_element(s: Seq<char>, p: int) -> Option<(SpecSubtypeElement, int)>
    decreases s.len() - p, 12int,
{
    if let Some(r) = spec_single_type_constraint(s, p) {
        Some(r)
    } else if let Some(r) = spec_multiple_type_constraints(s, p) {
        Some(r)
    } else if let Some(r) = spec_size_constraint(s, p) {
        Some(r)
    } else if let Some(r) = spec_pattern_constraint(s, p) {
        Some(r)
    } else if let Some(r) = spec_user_defined_constraint(s, p) {
        Some(r)
    } else if let Some(r) = spec_permitted_alphabet_constraint(s, p) {
        Some(r)
    } else if let Some(r) = spec_value_range(s, p) {
        Some(r)
    } else if let Some(r) = spec_single_value(s, p) {
        Some(r)
    } else {
        spec_contained_subtype(s, p)
    }
}

/// `SIZE (...)`: the element or set operation of the inner constraint. An
/// inner table constraint does not make a size constraint.
pub open spec fn spec_size_constraint(s: Seq<char>, p: int) -> Option<(SpecSubtypeElement, int)>
    decreases s.len() - p, 11int,
{
    let (opened, q0) = open_paren(s, p);
    match tag_end(s, skip_wsc(s, q0), SIZE@) {
        Some(q1) => {
            proof {
                lemma_open_paren(s, p);
                lemma_skip_wsc_moves(s, q0);
                lemma_tag_end(s, skip_wsc(s, q0), SIZE@);
                reveal_strlit("SIZE");
            }
            match spec_single_constraint(s, q1) {
                Some((SpecConstraint::SubtypeConstraint(set), q2)) => match close_paren(
                    s,
                    opened,
                    q2,
                ) {
                    Some(e) => Some((SpecSubtypeElement::SizeConstraint(Box::new(set.set)), e)),
                    None => None,
                },
                _ => None,
            }
        },
        None => None,
    }
}

/// The kinds of element that may stand in a permitted alphabet (X.680
/// 51.7.3): single values, contained subtypes, value ranges and sizes.
pub open spec fn is_alphabet_element(x: SpecSubtypeElement) -> bool {
    ||| x is SingleValue
    ||| x is ContainedSubtype
    ||| x is ValueRange
    ||| x is SizeConstraint
}

/// Every element of `e`, each base of a set operation and the last element,
/// may stand in a permitted alphabet.
pub open spec fn alphabet_elements(e: SpecElementOrSetOperation) -> bool
    decreases e,
{
    match e {
        SpecElementOrSetOperation::Element(x) => is_alphabet_element(x),
        SpecElementOrSetOperation::SetOperation(o) => is_alphabet_element(o.base)
            && alphabet_elements(*o.operant),
    }
}

/// `FROM (...)`: a permitted alphabet, built only of the elements that
/// `is_alphabet_element` admits.
pub open spec fn spec_permitted_alphabet_constraint(s: Seq<char>, p: int) -> Option<
    (SpecSubtypeElement, int),
>
    decreases s.len() - p, 11int,
{
    let (opened, q0) = open_paren(s, p);
    match tag_end(s, skip_wsc(s, q0), FROM@) {
        Some(q1) => match wsc_char(s, q1, '(') {
            Some(q2) => {
                proof {
                    lemma_open_paren(s, p);
                    lemma_skip_wsc_moves(s, q0);
                    lemma_tag_end(s, skip_wsc(s, q0), FROM@);
                    lemma_wsc_char(s, q1, '(');
                    lemma_skip_wsc_moves(s, q2);
                }
                match spec_set_or_element(s, skip_wsc(s, q2)) {
                    Some((x, q3)) => match wsc_char(s, q3, ')') {
                        Some(q4) => match close_paren(s, opened, q4) {
                            Some(e) => if alphabet_elements(x) {
                                Some((SpecSubtypeElement::PermittedAlphabet(Box::new(x)), e))
                            } else {
                                None
                            },
                            None => None,
                        },
                        None => None,
                    },
                    None => None,
                }
            },
            None => None,
        },
        None => None,
    }
}

/// `...,` at the start of a component list: whether it is there, and the
/// position after it.
#[verifier::opaque]
pub open spec fn partial_marker(s: Seq<char>, p: int) -> (bool, int) {
    match wsc_tag(s, p, ELLIPSIS@) {
        Some(q) => match wsc_char(s, q, ',') {
            Some(e) => (true, e),
            None => (false, p),
        },
        None => (false, p),
    }
}

pub proof fn lemma_partial_marker(s: Seq<char>, p: int)
    ensures
        partial_marker(s, p).1 == p || p < partial_marker(s, p).1 <= s.len(),
{
    reveal(partial_marker);
    reveal(wsc_tag);
    if let Some(q) = wsc_tag(s, p, ELLIPSIS@) {
        lemma_wsc_tag(s, p, ELLIPSIS@);
        lemma_wsc_char(s, q, ',');
    }
}

/// `WITH COMPONENTS { ..., a (...) PRESENT, b ABSENT }`.
pub open spec fn spec_single_type_constraint(s: Seq<char>, p: int) -> Option<(SpecSubtypeElement, int)>
    decreases s.len() - p, 11int,
{
    let (opened, q0) = open_paren(s, p);
    match tag_end(s, skip_wsc(s, q0), WITH_COMPONENTS@) {
        Some(q1) => match wsc_char(s, q1, '{') {
            Some(q2) => {
                let (partial, q3) = partial_marker(s, skip_wsc(s, q2));
                proof {
                    lemma_open_paren(s, p);
                    lemma_skip_wsc_moves(s, q0);
                    lemma_tag_end(s, skip_wsc(s, q0), WITH_COMPONENTS@);
                    lemma_wsc_char(s, q1, '{');
                    lemma_skip_wsc_moves(s, q2);
                    lemma_partial_marker(s, skip_wsc(s, q2));
                }
                match spec_subset_members(s, q3) {
                    Some((components, q4)) => match wsc_char(s, q4, '}') {
                        Some(q5) => match close_paren(s, opened, q5) {
                            Some(e) => Some(
                                (
                                    SpecSubtypeElement::SingleTypeConstraint(
                                        SpecInnerTypeConstraint {
                                            is_partial: partial,
                                            constraints: components,
                                        },
                                    ),
                                    e,
                                ),
                            ),
                            None => None,
                        },
                        None => None,
                    },
                    None => None,
                }
            },
            None => None,
        },
        None => None,
    }
}

/// `WITH COMPONENT (...)`: the constraint on the components of a SEQUENCE OF
/// or SET OF type.
pub open spec fn spec_multiple_type_constraints(s: Seq<char>, p: int) -> Option<
    (SpecSubtypeElement, int),
>
    decreases s.len() - p, 11int,
{
    let (opened, q0) = open_paren(s, p);
    match tag_end(s, skip_wsc(s, q0), WITH_COMPONENT@) {
        Some(q1) => {
            let q2 = skip_wsc(s, q1);
            proof {
                lemma_open_paren(s, p);
                lemma_skip_wsc_moves(s, q0);
                lemma_tag_end(s, skip_wsc(s, q0), WITH_COMPONENT@);
                reveal_strlit("WITH COMPONENT");
                lemma_skip_wsc_moves(s, q1);
            }
            let inner = match spec_single_type_constraint(s, q2) {
                Some((SpecSubtypeElement::SingleTypeConstraint(c), e)) => Some(
                    (SpecSubtypeElement::MultipleTypeConstraints(c), e),
                ),
                Some(r) => Some(r),
                None => spec_multiple_type_constraints(s, q2),
            };
            match inner {
                Some((x, q3)) => match close_paren(s, opened, q3) {
                    Some(e) => Some((x, e)),
                    None => None,
                },
                None => None,
            }
        },
        None => None,
    }
}

/// `INCLUDES Type` or a bare type, possibly extensible.
pub open spec fn spec_contained_subtype(s: Seq<char>, p: int) -> Option<(SpecSubtypeElement, int)>
    decreases s.len() - p, 11int,
{
    let (opened, q0) = open_paren(s, p);
    let q = skip_wsc(s, q0);
    let q1 = match tag_end(s, q, INCLUDES@) {
        Some(e) => e,
        None => q,
    };
    let q2 = skip_wsc(s, q1);
    proof {
        lemma_open_paren(s, p);
        lemma_skip_wsc_moves(s, q0);
        lemma_tag_end(s, q, INCLUDES@);
        lemma_skip_wsc_moves(s, q1);
    }
    match spec_asn1_type(s, q2) {
        Some((t, q3)) => {
            let (ext, q4) = ext_marker_after(s, q3);
            match close_paren(s, opened, q4) {
                Some(e) => Some(
                    (SpecSubtypeElement::ContainedSubtype { subtype: t, extensible: ext }, e),
                ),
                None => None,
            }
        },
        None => None,
    }
}

/// The components of `WITH COMPONENTS` (at least one), each optionally
/// followed by `,`.
pub open spec fn spec_subset_members(s: Seq<char>, p: int) -> Option<
    (Seq<SpecConstrainedComponent>, int),
>
    decreases s.len() - p, 10int,
{
    match spec_member_item(s, p) {
        Some((c, q)) => if in_between(s, p, q) {
            spec_subset_members_rest(s, q, seq![c])
        } else {
            None
        },
        None => None,
    }
}

/// Further components appended to `acc` (see `spec_constraint_rest`).
pub open spec fn spec_subset_members_rest(
    s: Seq<char>,
    i: int,
    acc: Seq<SpecConstrainedComponent>,
) -> Option<(Seq<SpecConstrainedComponent>, int)>
    decreases s.len() - i, 9int,
{
    match spec_member_item(s, i) {
        Some((c, q)) => if moved_on(s, i, q) {
            spec_subset_members_rest(s, q, acc.push(c))
        } else {
            None
        },
        None => Some((acc, i)),
    }
}

/// A component and the optional `,` after it.
pub open spec fn spec_member_item(s: Seq<char>, p: int) -> Option<(SpecConstrainedComponent, int)>
    decreases s.len() - p, 8int,
{
    match spec_subset_member(s, p) {
        Some((c, q)) => Some(
            (
                c,
                match wsc_char(s, q, ',') {
                    Some(e) => e,
                    None => q,
                },
            ),
        ),
        None => None,
    }
}

/// A component of `WITH COMPONENTS`: its name, its constraints (none if
/// absent) and its presence (`PRESENT`, `ABSENT` or unspecified).
pub open spec fn spec_subset_member(s: Seq<char>, p: int) -> Option<(SpecConstrainedComponent, int)>
    decreases s.len() - p, 7int,
{
    match identifier(s, skip_wsc(s, p)) {
        Some((name, q1)) => {
            let r = skip_wsc(s, q1);
            proof {
                lemma_skip_wsc_moves(s, p);
                lemma_identifier(s, skip_wsc(s, p));
                lemma_skip_wsc_moves(s, q1);
            }
            let (constraints, q2) = match spec_constraint(s, r) {
                Some((cs, e)) => (cs, e),
                None => (Seq::empty(), q1),
            };
            let t = skip_wsc(s, q2);
            let (presence, e) = match tag_end(s, t, PRESENT@) {
                Some(e) => (ComponentPresence::Present, e),
                None => match tag_end(s, t, ABSENT@) {
                    Some(e) => (ComponentPresence::Absent, e),
                    None => (ComponentPresence::Unspecified, q2),
                },
            };
            Some(
                (SpecConstrainedComponent { identifier: name, constraints, presence }, e),
            )
        },
        None => None,
    }
}

/// A type: BOOLEAN, OBJECT IDENTIFIER, INTEGER or a type declared elsewhere,
/// each with its constraints.
pub open spec fn spec_asn1_type(s: Seq<char>, p: int) -> Option<(SpecASN1Type, int)>
    decreases s.len() - p, 6int,
{
    match spec_boolean(s, p) {
        Some(r) => Some(r),
        None => match spec_object_identifier(s, p) {
            Some(r) => Some(r),
            None => match spec_integer(s, p) {
                Some(r) => Some(r),
                None => spec_elsewhere_declared_type(s, p),
            },
        },
    }
}

/// A type reference with the constraints that follow it, if any.
pub open spec fn spec_elsewhere_declared_type(s: Seq<char>, p: int) -> Option<(SpecASN1Type, int)>
    decreases s.len() - p, 5int,
{
    match type_reference(s, skip_wsc(s, p)) {
        Some((name, q1)) => {
            let r = skip_wsc(s, q1);
            proof {
                lemma_skip_wsc_moves(s, p);
                lemma_identifier(s, skip_wsc(s, p));
                lemma_skip_wsc_moves(s, q1);
            }
            match spec_constraint(s, r) {
                Some((cs, e)) => Some((SpecASN1Type::ElsewhereDeclaredType(name, cs), e)),
                None => Some((SpecASN1Type::ElsewhereDeclaredType(name, Seq::empty()), q1)),
            }
        },
        None => None,
    }
}

/// An executable optional value agrees with the specified one.
pub open spec fn bound_agrees(
    r: Option<(Option<ASN1Value>, usize)>,
    spec: Option<(Option<SpecASN1Value>, int)>,
) -> bool {
    match r {
        Some((b, e)) => spec == Some((opt_value_view(b), e as int)),
        None => spec is None,
    }
}

impl<'a> Input<'a> {
    /// `open_paren`
    fn open_paren(&self, p: usize) -> (r: (bool, usize))
        requires
            self.wf(),
            p <= self.chars@.len(),
        ensures
            (r.0, r.1 as int) == open_paren(self.chars@, p as int),
            p <= r.1 <= self.chars@.len(),
    {
        proof {
            reveal(open_paren);
            reveal(wsc_char);
        }
        match self.wsc_char(p, '(') {
            Some(e) => (true, e),
            None => (false, p),
        }
    }

    /// `close_paren`
    fn close_paren(&self, opened: bool, q: usize) -> (r: Option<usize>)
        requires
            self.wf(),
            q <= self.chars@.len(),
        ensures
            same_end(r, close_paren(self.chars@, opened, q as int)),
            r matches Some(e) ==> q <= e <= self.chars@.len(),
    {
        proof {
            reveal(close_paren);
            reveal(wsc_char);
        }
        if opened {
            self.wsc_char(q, ')')
        } else {
            Some(q)
        }
    }

    /// `ext_marker_after`
    pub(crate) fn ext_marker_after(&self, p: usize) -> (r: (bool, usize))
        requires
            self.wf(),
            p <= self.chars@.len(),
        ensures
            (r.0, r.1 as int) == ext_marker_after(self.chars@, p as int),
            p <= r.1 <= self.chars@.len(),
    {
        proof {
            reveal(ext_marker_after);
            reveal(wsc_tag);
        }
        let q = self.skip_wsc(p);
        if self.char_is(q, ',') {
            match self.wsc_tag(q + 1, ELLIPSIS) {
                Some(e) => (true, e),
                None => (false, p),
            }
        } else {
            (false, p)
        }
    }

    /// `spec_set_operator`
    pub fn set_operator(&self, p: usize) -> (r: Option<(SetOperator, usize)>)
        requires
            self.wf(),
            p <= self.chars@.len(),
        ensures
            match r {
                Some((op, e)) => spec_set_operator(self.chars@, p as int) == Some((op, e as int)),
                None => spec_set_operator(self.chars@, p as int) is None,
            },
            r matches Some((_, e)) ==> p <= e <= self.chars@.len(),
    {
        proof {
            reveal(spec_set_operator);
            reveal(tag_end);
        }
        let q = self.skip_wsc(p);
        if let Some(e) = self.tag_end(q, INTERSECTION) {
            Some((SetOperator::Intersection, e))
        } else if let Some(e) = self.tag_end(q, CARET) {
            Some((SetOperator::Intersection, e))
        } else if let Some(e) = self.tag_end(q, UNION) {
            Some((SetOperator::Union, e))
        } else if let Some(e) = self.tag_end(q, PIPE) {
            Some((SetOperator::Union, e))
        } else if let Some(e) = self.tag_end(q, EXCEPT) {
            Some((SetOperator::Except, e))
        } else {
            None
        }
    }

    /// `range_lower`
    fn range_lower(&self, p: usize) -> (r: Option<(Option<ASN1Value>, usize)>)
        requires
            self.wf(),
            p <= self.chars@.len(),
        ensures
            bound_agrees(r, range_lower(self.chars@, p as int)),
            r matches Some((_, e)) ==> p <= e <= self.chars@.len(),
    {
        let bound = match self.tag_end(p, MIN) {
            Some(e) => Some((None, e)),
            None => match self.asn1_value(p) {
                Some((v, e)) => Some((Some(v), e)),
                None => None,
            },
        };
        match bound {
            Some((b, e)) => {
                let q = self.skip_wsc(e);
                Some(
                    (
                        b,
                        if self.char_is(q, '>') {
                            q + 1
                        } else {
                            q
                        },
                    ),
                )
            },
            None => None,
        }
    }

    /// `range_upper`
    fn range_upper(&self, p: usize) -> (r: Option<(Option<ASN1Value>, usize)>)
        requires
            self.wf(),
            p <= self.chars@.len(),
        ensures
            bound_agrees(r, range_upper(self.chars@, p as int)),
            r matches Some((_, e)) ==> p <= e <= self.chars@.len(),
    {
        match self.wsc_tag(p, RANGE) {
            Some(q) => {
                let q1 = if self.char_is(q, '<') {
                    q + 1
                } else {
                    q
                };
                let r = self.skip_wsc(q1);
                match self.tag_end(r, MAX) {
                    Some(e) => Some((None, e)),
                    None => match self.asn1_value(r) {
                        Some((v, e)) => Some((Some(v), e)),
                        None => None,
                    },
                }
            },
            None => None,
        }
    }

    /// `range_bounds`
    fn range_bounds(&self, p: usize) -> (r: Option<(Option<ASN1Value>, Option<ASN1Value>, usize)>)
        requires
            self.wf(),
            p <= self.chars@.len(),
        ensures
            match r {
                Some((lo, hi, e)) => range_bounds(self.chars@, p as int) == Some(
                    (opt_value_view(lo), opt_value_view(hi), e as int),
                ) && p <= e <= self.chars@.len(),
                None => range_bounds(self.chars@, p as int) is None,
            },
    {
        proof {
            reveal(range_bounds);
        }
        match self.range_lower(p) {
            Some((lo, q)) => match self.range_upper(q) {
                Some((hi, e)) => Some((lo, hi, e)),
                None => None,
            },
            None => None,
        }
    }

    /// `addition_item`
    fn addition_item(&self, p: usize) -> (r: Option<usize>)
        requires
            self.wf(),
            p <= self.chars@.len(),
        ensures
            same_end(r, addition_item(self.chars@, p as int)),
            r matches Some(e) ==> p <= e <= self.chars@.len(),
    {
        let q = self.skip_wsc(p);
        match self.asn1_value(q) {
            Some((_, e)) => Some(e),
            None => match self.range_bounds(q) {
                Some((_, _, e)) => Some(e),
                None => None,
            },
        }
    }

    /// `additions_rest`
    fn additions_rest(&self, start: usize) -> (r: Option<usize>)
        requires
            self.wf(),
            start <= self.chars@.len(),
        ensures
            same_end(r, additions_rest(self.chars@, start as int)),
            r matches Some(e) ==> start <= e <= self.chars@.len(),
    {
        let mut i = start;
        loop
            invariant
                self.wf(),
                start <= i <= self.chars@.len(),
                additions_rest(self.chars@, i as int) == additions_rest(self.chars@, start as int),
            decreases self.chars@.len() - i,
        {
            match self.wsc_char(i, ',') {
                None => {
                    return Some(i);
                },
                Some(i1) => match self.addition_item(i1) {
                    None => {
                        return Some(i);
                    },
                    Some(i2) => {
                        if i < i2 {
                            i = i2;
                        } else {
                            return None;
                        }
                    },
                },
            }
        }
    }

    /// `spec_extension_additions`
    fn extension_additions(&self, p: usize) -> (e: usize)
        requires
            self.wf(),
            p <= self.chars@.len(),
        ensures
            e == spec_extension_additions(self.chars@, p as int),
            p <= e <= self.chars@.len(),
    {
        proof {
            reveal(spec_extension_additions);
        }
        match self.wsc_char(p, ',') {
            Some(q) => {
                let q1 = self.skip_wsc(q);
                let list = match self.addition_item(q1) {
                    None => Some(q1),
                    Some(e) => self.additions_rest(e),
                };
                match list {
                    Some(e) => e,
                    None => p,
                }
            },
            None => p,
        }
    }

    /// `ext_with_additions`
    fn ext_with_additions(&self, p: usize) -> (r: (bool, usize))
        requires
            self.wf(),
            p <= self.chars@.len(),
        ensures
            (r.0, r.1 as int) == ext_with_additions(self.chars@, p as int),
            p <= r.1 <= self.chars@.len(),
    {
        proof {
            reveal(ext_with_additions);
            reveal(wsc_tag);
        }
        let q = self.skip_wsc(p);
        if self.char_is(q, ',') {
            match self.wsc_tag(q + 1, ELLIPSIS) {
                Some(e) => (true, self.extension_additions(e)),
                None => (false, p),
            }
        } else {
            (false, p)
        }
    }

    /// `spec_single_value`
    fn single_value(&self, p: usize) -> (r: Option<(SubtypeElement, usize)>)
        requires
            self.wf(),
            p <= self.chars@.len(),
        ensures
            agrees(r, spec_single_value(self.chars@, p as int)),
            r matches Some((_, e)) ==> p <= e <= self.chars@.len(),
    {
        proof {
            reveal(open_paren);
            reveal(close_paren);
            reveal(spec_single_value);
            reveal(ext_with_additions);
        }
        let (opened, q0) = self.open_paren(p);
        let q = self.skip_wsc(q0);
        match self.asn1_value(q) {
            Some((v, q1)) => {
                let (ext, q2) = self.ext_with_additions(q1);
                match self.close_paren(opened, q2) {
                    Some(e) => Some((SubtypeElement::SingleValue { value: v, extensible: ext }, e)),
                    None => None,
                }
            },
            None => None,
        }
    }

    /// `spec_value_range`
    pub fn value_range(&self, p: usize) -> (r: Option<(SubtypeElement, usize)>)
        requires
            self.wf(),
            p <= self.chars@.len(),
        ensures
            agrees(r, spec_value_range(self.chars@, p as int)),
            r matches Some((_, e)) ==> p <= e <= self.chars@.len(),
    {
        proof {
            reveal(open_paren);
            reveal(close_paren);
            reveal(spec_value_range);
            reveal(ext_with_additions);
            reveal(range_bounds);
        }
        let (opened, q0) = self.open_paren(p);
        let q = self.skip_wsc(q0);
        match self.range_bounds(q) {
            Some((lo, hi, q1)) => {
                let (ext, q2) = self.ext_with_additions(q1);
                match self.close_paren(opened, q2) {
                    Some(e) => Some(
                        (SubtypeElement::ValueRange { min: lo, max: hi, extensible: ext }, e),
                    ),
                    None => None,
                }
            },
            None => None,
        }
    }

    /// `spec_pattern_constraint`
    fn pattern_constraint(&self, p: usize) -> (r: Option<(SubtypeElement, usize)>)
        requires
            self.wf(),
            p <= self.chars@.len(),
        ensures
            agrees(r, spec_pattern_constraint(self.chars@, p as int)),
            r matches Some((_, e)) ==> p <= e <= self.chars@.len(),
    {
        proof {
            reveal(open_paren);
            reveal(close_paren);
            reveal(spec_pattern_constraint);
            reveal(tag_end);
        }
        let (opened, q0) = self.open_paren(p);
        let q = self.skip_wsc(q0);
        match self.tag_end(q, PATTERN) {
            Some(q1) => {
                let q2 = self.skip_wsc(q1);
                if self.char_is(q2, '"') {
                    proof {
                        lemma_cstring_close(self.chars@, q2 + 1);
                    }
                    match self.cstring_close(q2 + 1) {
                        Some(c) => match self.close_paren(opened, c + 1) {
                            Some(e) => Some(
                                (
                                    SubtypeElement::PatternConstraint(
                                        PatternConstraint { pattern: self.text_between(q2 + 1, c) },
                                    ),
                                    e,
                                ),
                            ),
                            None => None,
                        },
                        None => None,
                    }
                } else {
                    None
                }
            },
            None => None,
        }
    }

    /// `unbalanced_close`
    fn unbalanced_close(&self, p: usize) -> (r: Option<usize>)
        requires
            self.wf(),
            p <= self.chars@.len(),
        ensures
            same_end(r, unbalanced_close(self.chars@, p as int, 0)),
            r matches Some(e) ==> p <= e < self.chars@.len(),
    {
        let mut q = p;
        let mut depth: usize = 0;
        while q < self.chars.len()
            invariant
                self.wf(),
                p <= q <= self.chars@.len(),
                depth <= q,
                unbalanced_close(self.chars@, q as int, depth as nat) == unbalanced_close(
                    self.chars@,
                    p as int,
                    0,
                ),
            decreases self.chars@.len() - q,
        {
            let c = self.chars[q];
            if c == '\\' {
                if q + 1 < self.chars.len() {
                    q += 2;
                } else {
                    return None;
                }
            } else if c == '{' {
                depth += 1;
                q += 1;
            } else if c == '}' {
                if depth == 0 {
                    return Some(q);
                }
                depth -= 1;
                q += 1;
            } else {
                q += 1;
            }
        }
        None
    }

    /// `spec_user_defined_constraint`
    fn user_defined_constraint(&self, p: usize) -> (r: Option<(SubtypeElement, usize)>)
        requires
            self.wf(),
            p <= self.chars@.len(),
        ensures
            agrees(r, spec_user_defined_constraint(self.chars@, p as int)),
            r matches Some((_, e)) ==> p <= e <= self.chars@.len(),
    {
        proof {
            reveal(open_paren);
            reveal(close_paren);
            reveal(spec_user_defined_constraint);
            reveal(tag_end);
        }
        let (opened, q0) = self.open_paren(p);
        let q = self.skip_wsc(q0);
        match self.tag_end(q, CONSTRAINED_BY) {
            Some(q1) => {
                let q2 = self.skip_wsc(q1);
                if self.char_is(q2, '{') {
                    match self.unbalanced_close(q2 + 1) {
                        Some(c) => match self.close_paren(opened, c + 1) {
                            Some(e) => Some(
                                (
                                    SubtypeElement::UserDefinedConstraint(
                                        UserDefinedConstraint {
                                            definition: self.text_between(q2 + 1, c),
                                        },
                                    ),
                                    e,
                                ),
                            ),
                            None => None,
                        },
                        None => None,
                    }
                } else {
                    None
                }
            },
            None => None,
        }
    }

    /// `spec_relational_constraint`
    fn relational_constraint(&self, p: usize) -> (r: Option<(RelationalConstraint, usize)>)
        requires
            self.wf(),
            p <= self.chars@.len(),
        ensures
            agrees(r, spec_relational_constraint(self.chars@, p as int)),
            r matches Some((_, e)) ==> p <= e <= self.chars@.len(),
    {
        let q = self.skip_wsc(p);
        if self.char_is(q, '@') {
            let mut d = q + 1;
            while d < self.chars.len() && self.chars[d] == '.'
                invariant
                    self.wf(),
                    q < d <= self.chars@.len(),
                    dots_end(self.chars@, d as int) == dots_end(self.chars@, q + 1),
                decreases self.chars@.len() - d,
            {
                d += 1;
            }
            match self.identifier(d) {
                Some((name, e)) => Some(
                    (RelationalConstraint { field_name: name, level: d - (q + 1) }, e),
                ),
                None => None,
            }
        } else {
            None
        }
    }

    /// `relational_rest`
    fn relational_rest(&self, start: usize, init: Vec<RelationalConstraint>) -> (r: Option<
        (Vec<RelationalConstraint>, usize),
    >)
        requires
            self.wf(),
            start <= self.chars@.len(),
        ensures
            match r {
                Some((v, e)) => relational_rest(self.chars@, start as int, relational_view(init@))
                    == Some((relational_view(v@), e as int)) && start <= e <= self.chars@.len(),
                None => relational_rest(self.chars@, start as int, relational_view(init@)) is None,
            },
    {
        let mut i = start;
        let mut acc = init;
        loop
            invariant
                self.wf(),
                start <= i <= self.chars@.len(),
                relational_rest(self.chars@, i as int, relational_view(acc@)) == relational_rest(
                    self.chars@,
                    start as int,
                    relational_view(init@),
                ),
            decreases self.chars@.len() - i,
        {
            match self.wsc_char(i, ',') {
                None => {
                    return Some((acc, i));
                },
                Some(i1) => match self.relational_constraint(i1) {
                    None => {
                        return Some((acc, i));
                    },
                    Some((rc, i2)) => {
                        if i < i2 {
                            let ghost old_acc = acc@;
                            let ghost rv = rc@;
                            acc.push(rc);
                            proof {
                                assert(relational_view(acc@) =~= relational_view(old_acc).push(rv));
                            }
                            i = i2;
                        } else {
                            return None;
                        }
                    },
                },
            }
        }
    }

    /// `linked_fields`
    fn linked_fields(&self, p: usize) -> (r: Option<(Vec<RelationalConstraint>, usize)>)
        requires
            self.wf(),
            p <= self.chars@.len(),
        ensures
            match r {
                Some((v, e)) => linked_fields(self.chars@, p as int) == Some(
                    (relational_view(v@), e as int),
                ) && p <= e <= self.chars@.len(),
                None => linked_fields(self.chars@, p as int) is None,
            },
    {
        proof {
            reveal(linked_fields);
            reveal(wsc_char);
        }
        match self.wsc_char(p, '{') {
            Some(q1) => {
                let r = self.skip_wsc(q1);
                match self.relational_constraint(r) {
                    Some((rc, q2)) => {
                        let ghost rv = rc@;
                        let mut v = Vec::new();
                        v.push(rc);
                        proof {
                            assert(relational_view(v@) =~= seq![rv]);
                        }
                        match self.relational_rest(q2, v) {
                            Some((fields, q3)) => match self.wsc_char(q3, '}') {
                                Some(e) => Some((fields, e)),
                                None => None,
                            },
                            None => None,
                        }
                    },
                    None => None,
                }
            },
            None => None,
        }
    }

}

/// `is_alphabet_element`
fn is_alphabet_element_of(x: &SubtypeElement) -> (b: bool)
    ensures
        b == is_alphabet_element(x@),
{
    match x {
        SubtypeElement::SingleValue { .. } => true,
        SubtypeElement::ContainedSubtype { .. } => true,
        SubtypeElement::ValueRange { .. } => true,
        SubtypeElement::SizeConstraint(_) => true,
        _ => false,
    }
}

/// `alphabet_elements`
fn alphabet_elements_of(e: &ElementOrSetOperation) -> (b: bool)
    ensures
        b == alphabet_elements(e@),
    decreases e,
{
    match e {
        ElementOrSetOperation::Element(x) => is_alphabet_element_of(x),
        ElementOrSetOperation::SetOperation(o) => is_alphabet_element_of(&o.base)
            && alphabet_elements_of(&o.operant),
    }
}

/// An executable list of constraints and its end agree with the specified ones.
pub open spec fn constraints_agree(
    r: Option<(Vec<Constraint>, usize)>,
    spec: Option<(Seq<SpecConstraint>, int)>,
) -> bool {
    match r {
        Some((v, e)) => spec == Some((constraints_view(v@), e as int)),
        None => spec is None,
    }
}

/// An executable list of components and its end agree with the specified ones.
pub open spec fn components_agree(
    r: Option<(Vec<ConstrainedComponent>, usize)>,
    spec: Option<(Seq<SpecConstrainedComponent>, int)>,
) -> bool {
    match r {
        Some((v, e)) => spec == Some((components_view(v@), e as int)),
        None => spec is None,
    }
}

impl<'a> Input<'a> {
    /// `spec_constraint`
    pub fn constraint(&self, p: usize) -> (r: Option<(Vec<Constraint>, usize)>)
        requires
            self.wf(),
            p <= self.chars@.len(),
        ensures
            constraints_agree(r, spec_constraint(self.chars@, p as int)),
            r matches Some((_, e)) ==> p <= e <= self.chars@.len(),
        decreases self.chars@.len() - p, 20int,
    {
        match self.constraint_item(p) {
            Some((c, q)) => {
                let ghost cv = c@;
                let mut v = Vec::new();
                v.push(c);
                proof {
                    lemma_constraints_view_empty();
                    lemma_constraints_view_push(Seq::empty(), v@[0]);
                    assert(v@ =~= Seq::<Constraint>::empty().push(v@[0]));
                }
                self.constraint_rest(q, v)
            },
            None => None,
        }
    }

    /// `spec_table_constraint`
    fn table_constraint(&self, p: usize) -> (r: Option<(TableConstraint, usize)>)
        requires
            self.wf(),
            p <= self.chars@.len(),
        ensures
            agrees(r, spec_table_constraint(self.chars@, p as int)),
            r matches Some((_, e)) ==> p <= e <= self.chars@.len(),
        decreases self.chars@.len() - p, 40int,
    {
        let (opened, q0) = self.open_paren(p);
        let q = self.skip_wsc(q0);
        match self.object_set(q) {
            Some((set, q1)) => {
                let (fields, q2) = match self.linked_fields(q1) {
                    Some((f, e)) => (f, e),
                    None => {
                        let v: Vec<RelationalConstraint> = Vec::new();
                        proof {
                            assert(relational_view(v@) =~= Seq::<SpecRelationalConstraint>::empty());
                        }
                        (v, q1)
                    },
                };
                match self.close_paren(opened, q2) {
                    Some(e) => Some((TableConstraint { object_set: set, linked_fields: fields }, e)),
                    None => None,
                }
            },
            None => None,
        }
    }

    /// `spec_constraint_rest`
    fn constraint_rest(&self, start: usize, init: Vec<Constraint>) -> (r: Option<
        (Vec<Constraint>, usize),
    >)
        requires
            self.wf(),
            start <= self.chars@.len(),
        ensures
            constraints_agree(
                r,
                spec_constraint_rest(self.chars@, start as int, constraints_view(init@)),
            ),
            r matches Some((_, e)) ==> start <= e <= self.chars@.len(),
        decreases self.chars@.len() - start, 19int,
    {
        let mut i = start;
        let mut acc = init;
        loop
            invariant
                self.wf(),
                start <= i <= self.chars@.len(),
                spec_constraint_rest(self.chars@, i as int, constraints_view(acc@))
                    == spec_constraint_rest(self.chars@, start as int, constraints_view(init@)),
            decreases self.chars@.len() - i,
        {
            match self.constraint_item(i) {
                Some((c, q)) => {
                    if i < q {
                        let ghost old_acc = acc@;
                        acc.push(c);
                        proof {
                            assert(acc@ =~= old_acc.push(acc@.last()));
                            lemma_constraints_view_push(old_acc, acc@.last());
                        }
                        i = q;
                    } else {
                        return None;
                    }
                },
                None => {
                    return Some((acc, i));
                },
            }
        }
    }

    /// `spec_constraint_item`
    fn constraint_item(&self, p: usize) -> (r: Option<(Constraint, usize)>)
        requires
            self.wf(),
            p <= self.chars@.len(),
        ensures
            agrees(r, spec_constraint_item(self.chars@, p as int)),
            r matches Some((_, e)) ==> p <= e <= self.chars@.len(),
        decreases self.chars@.len() - p, 18int,
    {
        match self.single_constraint(p) {
            Some(r) => Some(r),
            None => match self.size_constraint(p) {
                Some((c, e)) => Some(
                    (
                        Constraint::SubtypeConstraint(
                            ElementSet { set: ElementOrSetOperation::Element(c), extensible: false },
                        ),
                        e,
                    ),
                ),
                None => match self.parameters(p) {
                    Some((ps, e)) => Some((Constraint::Parameter(ps), e)),
                    None => None,
                },
            },
        }
    }

    /// `spec_single_constraint`
    pub fn single_constraint(&self, p: usize) -> (r: Option<(Constraint, usize)>)
        requires
            self.wf(),
            p <= self.chars@.len(),
        ensures
            agrees(r, spec_single_constraint(self.chars@, p as int)),
            r matches Some((_, e)) ==> p <= e <= self.chars@.len(),
        decreases self.chars@.len() - p, 17int,
    {
        let q = self.skip_wsc(p);
        match self.wsc_char(q, '(') {
            Some(q1) => {
                let r = self.skip_wsc(q1);
                let inner = match self.table_constraint(r) {
                    Some((t, e)) => Some((Constraint::TableConstraint(t), e)),
                    None => match self.element_set(r) {
                        Some((set, e)) => Some((Constraint::SubtypeConstraint(set), e)),
                        None => None,
                    },
                };
                match inner {
                    Some((c, r1)) => match self.wsc_char(r1, ')') {
                        Some(e) => Some((c, e)),
                        None => None,
                    },
                    None => None,
                }
            },
            None => None,
        }
    }

    /// `spec_element_set`
    fn element_set(&self, p: usize) -> (r: Option<(ElementSet, usize)>)
        requires
            self.wf(),
            p <= self.chars@.len(),
        ensures
            agrees(r, spec_element_set(self.chars@, p as int)),
            r matches Some((_, e)) ==> p <= e <= self.chars@.len(),
        decreases self.chars@.len() - p, 15int,
    {
        match self.set_or_element(p) {
            Some((set, q)) => {
                let (ext, e) = self.ext_marker_after(q);
                Some((ElementSet { set, extensible: ext }, e))
            },
            None => None,
        }
    }

    /// `spec_set_or_element`
    fn set_or_element(&self, p: usize) -> (r: Option<(ElementOrSetOperation, usize)>)
        requires
            self.wf(),
            p <= self.chars@.len(),
        ensures
            agrees(r, spec_set_or_element(self.chars@, p as int)),
            r matches Some((_, e)) ==> p <= e <= self.chars@.len(),
        decreases self.chars@.len() - p, 14int,
    {
        match self.set_operation(p) {
            Some((o, e)) => Some((ElementOrSetOperation::SetOperation(o), e)),
            None => match self.subtype_element(p) {
                Some((x, e)) => Some((ElementOrSetOperation::Element(x), e)),
                None => None,
            },
        }
    }

    /// `spec_set_operation`
    fn set_operation(&self, p: usize) -> (r: Option<(SetOperation, usize)>)
        requires
            self.wf(),
            p <= self.chars@.len(),
        ensures
            agrees(r, spec_set_operation(self.chars@, p as int)),
            r matches Some((_, e)) ==> p <= e <= self.chars@.len(),
        decreases self.chars@.len() - p, 13int,
    {
        match self.subtype_element(p) {
            Some((base, q1)) => match self.set_operator(q1) {
                Some((op, q2)) => {
                    proof {
                        lemma_set_operator_reads(self.chars@, q1 as int);
                    }
                    match self.set_or_element(q2) {
                        Some((rest, e)) => Some(
                            (SetOperation { base, operator: op, operant: Box::new(rest) }, e),
                        ),
                        None => None,
                    }
                },
                None => None,
            },
            None => None,
        }
    }

    /// `spec_subtype_element`
    fn subtype_element(&self, p: usize) -> (r: Option<(SubtypeElement, usize)>)
        requires
            self.wf(),
            p <= self.chars@.len(),
        ensures
            agrees(r, spec_subtype_element(self.chars@, p as int)),
            r matches Some((_, e)) ==> p <= e <= self.chars@.len(),
        decreases self.chars@.len() - p, 12int,
    {
        if let Some(r) = self.single_type_constraint(p) {
            return Some(r);
        }
        if let Some(r) = self.multiple_type_constraints(p) {
            return Some(r);
        }
        if let Some(r) = self.size_constraint(p) {
            return Some(r);
        }
        if let Some(r) = self.pattern_constraint(p) {
            return Some(r);
        }
        if let Some(r) = self.user_defined_constraint(p) {
            return Some(r);
        }
        if let Some(r) = self.permitted_alphabet_constraint(p) {
            return Some(r);
        }
        if let Some(r) = self.value_range(p) {
            return Some(r);
        }
        if let Some(r) = self.single_value(p) {
            return Some(r);
        }
        self.contained_subtype(p)
    }

    /// `spec_size_constraint`
    fn size_constraint(&self, p: usize) -> (r: Option<(SubtypeElement, usize)>)
        requires
            self.wf(),
            p <= self.chars@.len(),
        ensures
            agrees(r, spec_size_constraint(self.chars@, p as int)),
            r matches Some((_, e)) ==> p <= e <= self.chars@.len(),
        decreases self.chars@.len() - p, 11int,
    {
        let (opened, q0) = self.open_paren(p);
        let q = self.skip_wsc(q0);
        match self.tag_end(q, SIZE) {
            Some(q1) => {
                proof {
                    lemma_tag_end(self.chars@, q as int, SIZE@);
                    reveal_strlit("SIZE");
                }
                match self.single_constraint(q1) {
                    Some((Constraint::SubtypeConstraint(set), q2)) => match self.close_paren(
                        opened,
                        q2,
                    ) {
                        Some(e) => Some((SubtypeElement::SizeConstraint(Box::new(set.set)), e)),
                        None => None,
                    },
                    _ => None,
                }
            },
            None => None,
        }
    }

    /// `spec_permitted_alphabet_constraint`
    pub fn permitted_alphabet_constraint(&self, p: usize) -> (r: Option<(SubtypeElement, usize)>)
        requires
            self.wf(),
            p <= self.chars@.len(),
        ensures
            agrees(r, spec_permitted_alphabet_constraint(self.chars@, p as int)),
            r matches Some((_, e)) ==> p <= e <= self.chars@.len(),
        decreases self.chars@.len() - p, 11int,
    {
        let (opened, q0) = self.open_paren(p);
        let q = self.skip_wsc(q0);
        match self.tag_end(q, FROM) {
            Some(q1) => match self.wsc_char(q1, '(') {
                Some(q2) => {
                    let r = self.skip_wsc(q2);
                    match self.set_or_element(r) {
                        Some((x, q3)) => match self.wsc_char(q3, ')') {
                            Some(q4) => match self.close_paren(opened, q4) {
                                Some(e) => if alphabet_elements_of(&x) {
                                    Some((SubtypeElement::PermittedAlphabet(Box::new(x)), e))
                                } else {
                                    None
                                },
                                None => None,
                            },
                            None => None,
                        },
                        None => None,
                    }
                },
                None => None,
            },
            None => None,
        }
    }

    /// `partial_marker`
    fn partial_marker(&self, p: usize) -> (r: (bool, usize))
        requires
            self.wf(),
            p <= self.chars@.len(),
        ensures
            (r.0, r.1 as int) == partial_marker(self.chars@, p as int),
            p <= r.1 <= self.chars@.len(),
    {
        proof {
            reveal(partial_marker);
            reveal(wsc_char);
            reveal(wsc_tag);
        }
        match self.wsc_tag(p, ELLIPSIS) {
            Some(q) => match self.wsc_char(q, ',') {
                Some(e) => (true, e),
                None => (false, p),
            },
            None => (false, p),
        }
    }

    /// `spec_single_type_constraint`
    fn single_type_constraint(&self, p: usize) -> (r: Option<(SubtypeElement, usize)>)
        requires
            self.wf(),
            p <= self.chars@.len(),
        ensures
            agrees(r, spec_single_type_constraint(self.chars@, p as int)),
            r matches Some((_, e)) ==> p <= e <= self.chars@.len(),
        decreases self.chars@.len() - p, 11int,
    {
        let (opened, q0) = self.open_paren(p);
        let q = self.skip_wsc(q0);
        match self.tag_end(q, WITH_COMPONENTS) {
            Some(q1) => match self.wsc_char(q1, '{') {
                Some(q2) => {
                    let r = self.skip_wsc(q2);
                    let (partial, q3) = self.partial_marker(r);
                    match self.subset_members(q3) {
                        Some((components, q4)) => match self.wsc_char(q4, '}') {
                            Some(q5) => match self.close_paren(opened, q5) {
                                Some(e) => Some(
                                    (
                                        SubtypeElement::SingleTypeConstraint(
                                            InnerTypeConstraint {
                                                is_partial: partial,
                                                constraints: components,
                                            },
                                        ),
                                        e,
                                    ),
                                ),
                                None => None,
                            },
                            None => None,
                        },
                        None => None,
                    }
                },
                None => None,
            },
            None => None,
        }
    }

    /// `spec_multiple_type_constraints`
    fn multiple_type_constraints(&self, p: usize) -> (r: Option<(SubtypeElement, usize)>)
        requires
            self.wf(),
            p <= self.chars@.len(),
        ensures
            agrees(r, spec_multiple_type_constraints(self.chars@, p as int)),
            r matches Some((_, e)) ==> p <= e <= self.chars@.len(),
        decreases self.chars@.len() - p, 11int,
    {
        let (opened, q0) = self.open_paren(p);
        let q = self.skip_wsc(q0);
        match self.tag_end(q, WITH_COMPONENT) {
            Some(q1) => {
                proof {
                    lemma_tag_end(self.chars@, q as int, WITH_COMPONENT@);
                    reveal_strlit("WITH COMPONENT");
                }
                let q2 = self.skip_wsc(q1);
                let inner = match self.single_type_constraint(q2) {
                    Some((SubtypeElement::SingleTypeConstraint(c), e)) => Some(
                        (SubtypeElement::MultipleTypeConstraints(c), e),
                    ),
                    Some(r) => Some(r),
                    None => self.multiple_type_constraints(q2),
                };
                match inner {
                    Some((x, q3)) => match self.close_paren(opened, q3) {
                        Some(e) => Some((x, e)),
                        None => None,
                    },
                    None => None,
                }
            },
            None => None,
        }
    }

    /// `spec_contained_subtype`
    fn contained_subtype(&self, p: usize) -> (r: Option<(SubtypeElement, usize)>)
        requires
            self.wf(),
            p <= self.chars@.len(),
        ensures
            agrees(r, spec_contained_subtype(self.chars@, p as int)),
            r matches Some((_, e)) ==> p <= e <= self.chars@.len(),
        decreases self.chars@.len() - p, 11int,
    {
        let (opened, q0) = self.open_paren(p);
        let q = self.skip_wsc(q0);
        let q1 = match self.tag_end(q, INCLUDES) {
            Some(e) => e,
            None => q,
        };
        let q2 = self.skip_wsc(q1);
        match self.asn1_type(q2) {
            Some((t, q3)) => {
                let (ext, q4) = self.ext_marker_after(q3);
                match self.close_paren(opened, q4) {
                    Some(e) => Some((SubtypeElement::ContainedSubtype { subtype: t, extensible: ext }, e)),
                    None => None,
                }
            },
            None => None,
        }
    }

    /// `spec_subset_members`
    fn subset_members(&self, p: usize) -> (r: Option<(Vec<ConstrainedComponent>, usize)>)
        requires
            self.wf(),
            p <= self.chars@.len(),
        ensures
            components_agree(r, spec_subset_members(self.chars@, p as int)),
            r matches Some((_, e)) ==> p <= e <= self.chars@.len(),
        decreases self.chars@.len() - p, 10int,
    {
        match self.member_item(p) {
            Some((c, q)) => {
                let mut v = Vec::new();
                v.push(c);
                proof {
                    assert(v@ =~= Seq::<ConstrainedComponent>::empty().push(v@[0]));
                    lemma_components_view_push(Seq::empty(), v@[0]);
                    assert(components_view(Seq::<ConstrainedComponent>::empty()) =~= Seq::<
                        SpecConstrainedComponent,
                    >::empty());
                }
                self.subset_members_rest(q, v)
            },
            None => None,
        }
    }

    /// `spec_subset_members_rest`
    fn subset_members_rest(&self, start: usize, init: Vec<ConstrainedComponent>) -> (r: Option<
        (Vec<ConstrainedComponent>, usize),
    >)
        requires
            self.wf(),
            start <= self.chars@.len(),
        ensures
            components_agree(
                r,
                spec_subset_members_rest(self.chars@, start as int, components_view(init@)),
            ),
            r matches Some((_, e)) ==> start <= e <= self.chars@.len(),
        decreases self.chars@.len() - start, 9int,
    {
        let mut i = start;
        let mut acc = init;
        loop
            invariant
                self.wf(),
                start <= i <= self.chars@.len(),
                spec_subset_members_rest(self.chars@, i as int, components_view(acc@))
                    == spec_subset_members_rest(
                    self.chars@,
                    start as int,
                    components_view(init@),
                ),
            decreases self.chars@.len() - i,
        {
            match self.member_item(i) {
                Some((c, q)) => {
                    if i < q {
                        let ghost old_acc = acc@;
                        acc.push(c);
                        proof {
                            assert(acc@ =~= old_acc.push(acc@.last()));
                            lemma_components_view_push(old_acc, acc@.last());
                        }
                        i = q;
                    } else {
                        return None;
                    }
                },
                None => {
                    return Some((acc, i));
                },
            }
        }
    }

    /// `spec_member_item`
    fn member_item(&self, p: usize) -> (r: Option<(ConstrainedComponent, usize)>)
        requires
            self.wf(),
            p <= self.chars@.len(),
        ensures
            agrees(r, spec_member_item(self.chars@, p as int)),
            r matches Some((_, e)) ==> p <= e <= self.chars@.len(),
        decreases self.chars@.len() - p, 8int,
    {
        match self.subset_member(p) {
            Some((c, q)) => Some(
                (
                    c,
                    match self.wsc_char(q, ',') {
                        Some(e) => e,
                        None => q,
                    },
                ),
            ),
            None => None,
        }
    }

    /// `spec_subset_member`
    fn subset_member(&self, p: usize) -> (r: Option<(ConstrainedComponent, usize)>)
        requires
            self.wf(),
            p <= self.chars@.len(),
        ensures
            agrees(r, spec_subset_member(self.chars@, p as int)),
            r matches Some((_, e)) ==> p <= e <= self.chars@.len(),
        decreases self.chars@.len() - p, 7int,
    {
        let q = self.skip_wsc(p);
        match self.identifier(q) {
            Some((name, q1)) => {
                let r = self.skip_wsc(q1);
                let (constraints, q2) = match self.constraint(r) {
                    Some((cs, e)) => (cs, e),
                    None => {
                        let v: Vec<Constraint> = Vec::new();
                        proof {
                            lemma_constraints_view_empty();
                            assert(v@ =~= Seq::<Constraint>::empty());
                        }
                        (v, q1)
                    },
                };
                let t = self.skip_wsc(q2);
                let (presence, e) = match self.tag_end(t, PRESENT) {
                    Some(e) => (ComponentPresence::Present, e),
                    None => match self.tag_end(t, ABSENT) {
                        Some(e) => (ComponentPresence::Absent, e),
                        None => (ComponentPresence::Unspecified, q2),
                    },
                };
                Some((ConstrainedComponent { identifier: name, constraints, presence }, e))
            },
            None => None,
        }
    }

    /// `spec_asn1_type`
    pub(crate) fn asn1_type(&self, p: usize) -> (r: Option<(ASN1Type, usize)>)
        requires
            self.wf(),
            p <= self.chars@.len(),
        ensures
            agrees(r, spec_asn1_type(self.chars@, p as int)),
            r matches Some((_, e)) ==> p <= e <= self.chars@.len(),
        decreases self.chars@.len() - p, 6int,
    {
        match self.boolean(p) {
            Some(r) => Some(r),
            None => match self.object_identifier(p) {
                Some(r) => Some(r),
                None => match self.integer(p) {
                    Some(r) => Some(r),
                    None => self.elsewhere_declared_type(p),
                },
            },
        }
    }

    /// `spec_elsewhere_declared_type`
    fn elsewhere_declared_type(&self, p: usize) -> (r: Option<(ASN1Type, usize)>)
        requires
            self.wf(),
            p <= self.chars@.len(),
        ensures
            agrees(r, spec_elsewhere_declared_type(self.chars@, p as int)),
            r matches Some((_, e)) ==> p <= e <= self.chars@.len(),
        decreases self.chars@.len() - p, 5int,
    {
        let q = self.skip_wsc(p);
        match self.type_reference(q) {
            Some((name, q1)) => {
                let r = self.skip_wsc(q1);
                match self.constraint(r) {
                    Some((cs, e)) => Some(
                        (
                            ASN1Type::ElsewhereDeclaredType(
                                DeclarationElsewhere { identifier: name, constraints: cs },
                            ),
                            e,
                        ),
                    ),
                    None => {
                        let v: Vec<Constraint> = Vec::new();
                        proof {
                            lemma_constraints_view_empty();
                            assert(v@ =~= Seq::<Constraint>::empty());
                        }
                        Some(
                            (
                                ASN1Type::ElsewhereDeclaredType(
                                    DeclarationElsewhere { identifier: name, constraints: v },
                                ),
                                q1,
                            ),
                        )
                    },
                }
            },
            None => None,
        }
    }
}

/// Parses one or more constraints, such as `(0..7)(SIZE(1..4))`.
pub fn constraint(input: &str) -> (res: Result<(&str, Vec<Constraint>), ParseError>)
    requires
        input@.len() < usize::MAX,
    ensures
        match spec_constraint(input@, 0) {
            Some((cs, e)) => {
                &&& 0 <= e <= input@.len()
                &&& res matches Ok((rest, v))
                &&& rest@ == input@.skip(e)
                &&& constraints_view(v@) == cs
            },
            None => res is Err,
        },
        res matches Ok((_, v)) ==> v.len() >= 1,
        res matches Ok((rest, _)) ==> rest@.len() < input@.len(),
{
    let inp = Input::new(input);
    let r = inp.constraint(0);
    proof {
        lemma_constraint_nonempty(input@, 0);
        lemma_constraint_reads(input@, 0);
        assert forall|v: Seq<Constraint>| #[trigger] constraints_view(v).len() == v.len() by {
            lemma_constraints_view_len(v);
        }
    }
    finish(input, r)
}

/// Parses one constraint in parentheses: a table constraint or an element set.
pub fn single_constraint(input: &str) -> (res: Result<(&str, Constraint), ParseError>)
    requires
        input@.len() < usize::MAX,
    ensures
        parsed(res, input@, spec_single_constraint(input@, 0)),
{
    let inp = Input::new(input);
    let r = inp.single_constraint(0);
    finish(input, r)
}

/// Parses a set operator: `INTERSECTION` or `^`, `UNION` or `|`, `EXCEPT`.
pub fn set_operator(input: &str) -> (res: Result<(&str, SetOperator), ParseError>)
    requires
        input@.len() < usize::MAX,
    ensures
        match spec_set_operator(input@, 0) {
            Some((op, e)) => {
                &&& 0 <= e <= input@.len()
                &&& res matches Ok((rest, o))
                &&& rest@ == input@.skip(e)
                &&& o == op
            },
            None => res is Err,
        },
{
    let inp = Input::new(input);
    let r = inp.set_operator(0);
    finish(input, r)
}

/// Parses a value range `lower..upper`, possibly in parentheses.
pub fn value_range(input: &str) -> (res: Result<(&str, SubtypeElement), ParseError>)
    requires
        input@.len() < usize::MAX,
    ensures
        parsed(res, input@, spec_value_range(input@, 0)),
{
    let inp = Input::new(input);
    let r = inp.value_range(0);
    finish(input, r)
}

/// Parses a permitted alphabet constraint `FROM (...)`, possibly in parentheses.
pub fn permitted_alphabet_constraint(input: &str) -> (res: Result<(&str, SubtypeElement), ParseError>)
    requires
        input@.len() < usize::MAX,
    ensures
        parsed(res, input@, spec_permitted_alphabet_constraint(input@, 0)),
{
    let inp = Input::new(input);
    let r = inp.permitted_alphabet_constraint(0);
    finish(input, r)
}

} // verus!
