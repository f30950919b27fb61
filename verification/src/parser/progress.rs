//! Every parser reads a prefix of what is left: a match ends at or after the
//! position where the parser started, and within the input.
use vstd::prelude::*;

use super::boolean::{spec_boolean, spec_boolean_value};
use super::common::{
    extension_marker, field_reference, has_char, identifier, lemma_field_reference, lemma_identifier, lemma_skip_wsc, lemma_tag_end,
    lemma_ws_end, lemma_wsc_char, lemma_wsc_tag, range_separator, skip_wsc, tag_end,
    type_reference, ws_end, wsc_char, wsc_tag, ELLIPSIS, RANGE,
};
use super::constraint::{
    addition_item, additions_rest, close_paren, dots_end, ext_marker_after, ext_with_additions,
    lemma_partial_marker, lemma_set_operator_reads, linked_fields, open_paren,
    partial_marker, range_bounds, range_lower, range_upper, relational_rest, spec_asn1_type,
    spec_constraint, spec_constraint_item, spec_constraint_rest, spec_contained_subtype,
    spec_element_set, spec_elsewhere_declared_type, spec_extension_additions, spec_member_item,
    spec_multiple_type_constraints, spec_pattern_constraint,
    spec_permitted_alphabet_constraint, spec_relational_constraint, spec_set_operation,
    spec_set_operator, spec_set_or_element, spec_single_constraint, spec_single_type_constraint,
    spec_single_value, spec_size_constraint, spec_subset_member, spec_subset_members,
    spec_subset_members_rest, spec_subtype_element, spec_table_constraint,
    spec_user_defined_constraint, spec_value_range, unbalanced_close,
};
use super::information_object::{
    spec_information_object, spec_object_field, spec_object_fields, spec_object_fields_rest,
    spec_object_set, spec_object_set_rest, spec_object_set_value, spec_parameter,
    spec_parameter_list, spec_parameter_rest, spec_parameters, spec_syntax_token,
    spec_syntax_tokens, spec_syntax_tokens_rest,
};
use super::input::{in_between, moved_on};
use super::integer::{lemma_distinguished_values, spec_distinguished_values, spec_integer};
use super::number::{lemma_digits_end, signed_at, unsigned_at};
use super::object_identifier::{
    object_identifier_arcs_rest, spec_object_identifier, spec_object_identifier_arc,
    spec_object_identifier_value,
};
use super::value::{cstring_close, lemma_cstring_close, spec_asn1_value};
use crate::intermediate::constraints::{
    SpecConstrainedComponent, SpecConstraint, SpecObjectSetValue, SpecRelationalConstraint, ABSENT, CONSTRAINED_BY,
    FROM, INCLUDES, MAX, MIN, PATTERN, PRESENT, SIZE, WITH_COMPONENT, WITH_COMPONENTS,
};
use crate::intermediate::types::SpecObjectIdentifierArc;
use crate::intermediate::information_object::{
    SpecInformationObjectField, SpecParameter, SpecSyntaxApplication,
};
use crate::intermediate::{ALL, BOOLEAN, FALSE, INTEGER, OBJECT_IDENTIFIER, TRUE};

verus! {

broadcast use vstd::string::group_string_axioms;

/// A match that starts at `p` ends between `p` and the end of `s`.
pub open spec fn within<T>(r: Option<(T, int)>, s: Seq<char>, p: int) -> bool {
    r matches Some((_, e)) ==> p <= e <= s.len()
}

pub proof fn lemma_unsigned_at(s: Seq<char>, p: int)
    requires
        0 <= p <= s.len(),
    ensures
        within(unsigned_at(s, p), s, p),
{
    lemma_digits_end(s.skip(p), 0);
}

pub proof fn lemma_signed_at(s: Seq<char>, p: int)
    requires
        0 <= p <= s.len(),
    ensures
        within(signed_at(s, p), s, p),
{
    lemma_digits_end(s.skip(p), 0);
    if p < s.len() {
        lemma_digits_end(s.skip(p), 1);
    }
}

pub proof fn lemma_object_identifier_arc(s: Seq<char>, p: int)
    requires
        0 <= p <= s.len(),
    ensures
        within(spec_object_identifier_arc(s, p), s, p),
{
    lemma_ws_end(s, p);
    let q = ws_end(s, p);
    lemma_unsigned_at(s, q);
    lemma_identifier(s, q);
    if let Some((_, q1)) = identifier(s, q) {
        lemma_ws_end(s, q1);
        lemma_wsc_char(s, ws_end(s, q1), '(');
        if let Some(r1) = wsc_char(s, ws_end(s, q1), '(') {
            lemma_skip_wsc(s, r1);
            lemma_unsigned_at(s, skip_wsc(s, r1));
            if let Some((_, r2)) = unsigned_at(s, skip_wsc(s, r1)) {
                lemma_wsc_char(s, r2, ')');
            }
        }
    }
}

pub proof fn lemma_object_identifier_arcs_rest(
    s: Seq<char>,
    i: int,
    acc: Seq<SpecObjectIdentifierArc>,
)
    requires
        0 <= i <= s.len(),
    ensures
        within(object_identifier_arcs_rest(s, i, acc), s, i),
    decreases s.len() - i,
{
    lemma_ws_end(s, i);
    lemma_object_identifier_arc(s, ws_end(s, i));
    if let Some((a, q)) = spec_object_identifier_arc(s, ws_end(s, i)) {
        if moved_on(s, i, q) {
            lemma_object_identifier_arcs_rest(s, q, acc.push(a));
        }
    }
}

pub proof fn lemma_object_identifier_value(s: Seq<char>, p: int)
    requires
        0 <= p <= s.len(),
    ensures
        within(spec_object_identifier_value(s, p), s, p),
{
    lemma_skip_wsc(s, p);
    let q = skip_wsc(s, p);
    lemma_tag_end(s, q, OBJECT_IDENTIFIER@);
    let q1 = match tag_end(s, q, OBJECT_IDENTIFIER@) {
        Some(e) => e,
        None => q,
    };
    lemma_wsc_char(s, q1, '{');
    if let Some(q2) = wsc_char(s, q1, '{') {
        lemma_skip_wsc(s, q2);
        let r = skip_wsc(s, q2);
        lemma_ws_end(s, r);
        lemma_object_identifier_arc(s, ws_end(s, r));
        if let Some((a, r1)) = spec_object_identifier_arc(s, ws_end(s, r)) {
            lemma_object_identifier_arcs_rest(s, r1, seq![a]);
            if let Some((_, r2)) = object_identifier_arcs_rest(s, r1, seq![a]) {
                lemma_wsc_char(s, r2, '}');
            }
        }
    }
}

pub proof fn lemma_asn1_value(s: Seq<char>, p: int)
    requires
        0 <= p <= s.len(),
    ensures
        within(spec_asn1_value(s, p), s, p),
        within(spec_boolean_value(s, p), s, p),
{
    reveal(spec_asn1_value);
    let q = skip_wsc(s, p);
    lemma_skip_wsc(s, p);
    lemma_wsc_tag(s, p, ALL@);
    lemma_wsc_tag(s, p, TRUE@);
    lemma_wsc_tag(s, p, FALSE@);
    lemma_signed_at(s, q);
    lemma_cstring_close(s, q + 1);
    lemma_identifier(s, p);
}

pub proof fn lemma_range_bounds(s: Seq<char>, p: int)
    requires
        0 <= p <= s.len(),
    ensures
        within(range_lower(s, p), s, p),
        within(range_upper(s, p), s, p),
        range_bounds(s, p) matches Some((_, _, e)) ==> p <= e <= s.len(),
{
    reveal(range_bounds);
    reveal(tag_end);
    reveal(spec_asn1_value);
    lemma_tag_end(s, p, MIN@);
    lemma_asn1_value(s, p);
    if let Some((_, e)) = range_lower(s, p) {
        let e0 = match tag_end(s, p, MIN@) {
            Some(x) => x,
            None => spec_asn1_value(s, p).unwrap().1,
        };
        lemma_skip_wsc(s, e0);
        if let Some((_, e1)) = range_upper(s, e) {
            lemma_upper(s, e);
        }
    }
    lemma_upper(s, p);
}

proof fn lemma_upper(s: Seq<char>, p: int)
    requires
        0 <= p <= s.len(),
    ensures
        within(range_upper(s, p), s, p),
{
    lemma_wsc_tag(s, p, RANGE@);
    if let Some(q) = range_separator(s, p) {
        let q1 = if has_char(s, q, '<') {
            q + 1
        } else {
            q
        };
        lemma_skip_wsc(s, q1);
        let r = skip_wsc(s, q1);
        lemma_tag_end(s, r, MAX@);
        lemma_asn1_value(s, r);
    }
}

pub proof fn lemma_additions_rest(s: Seq<char>, i: int)
    requires
        0 <= i <= s.len(),
    ensures
        additions_rest(s, i) matches Some(e) ==> i <= e <= s.len(),
    decreases s.len() - i,
{
    if let Some(i1) = wsc_char(s, i, ',') {
        if let Some(i2) = addition_item(s, i1) {
            if moved_on(s, i, i2) {
                lemma_additions_rest(s, i2);
            }
        }
    }
}

pub proof fn lemma_extensions(s: Seq<char>, p: int)
    requires
        0 <= p <= s.len(),
    ensures
        p <= spec_extension_additions(s, p) <= s.len(),
        p <= ext_with_additions(s, p).1 <= s.len(),
        p <= ext_marker_after(s, p).1 <= s.len(),
        addition_item(s, p) matches Some(e) ==> p <= e <= s.len(),
{
    reveal(ext_marker_after);
    reveal(ext_with_additions);
    reveal(spec_extension_additions);
    lemma_addition_item(s, p);
    lemma_skip_wsc(s, p);
    let q = skip_wsc(s, p);
    if has_char(s, q, ',') {
        lemma_wsc_tag(s, q + 1, ELLIPSIS@);
        if let Some(e) = extension_marker(s, q + 1) {
            lemma_additions(s, e);
        }
    }
    lemma_additions(s, p);
}

proof fn lemma_addition_item(s: Seq<char>, p: int)
    requires
        0 <= p <= s.len(),
    ensures
        addition_item(s, p) matches Some(e) ==> p <= e <= s.len(),
{
    lemma_skip_wsc(s, p);
    lemma_asn1_value(s, skip_wsc(s, p));
    lemma_range_bounds(s, skip_wsc(s, p));
}

proof fn lemma_additions(s: Seq<char>, p: int)
    requires
        0 <= p <= s.len(),
    ensures
        p <= spec_extension_additions(s, p) <= s.len(),
{
    reveal(spec_extension_additions);
    lemma_wsc_char(s, p, ',');
    if let Some(q) = wsc_char(s, p, ',') {
        lemma_skip_wsc(s, q);
        let q1 = skip_wsc(s, q);
        lemma_addition_item(s, q1);
        if let Some(e) = addition_item(s, q1) {
            lemma_additions_rest(s, e);
        }
    }
}

pub proof fn lemma_open_close(s: Seq<char>, p: int, opened: bool, q: int)
    requires
        0 <= p <= s.len(),
        0 <= q <= s.len(),
    ensures
        p <= open_paren(s, p).1 <= s.len(),
        close_paren(s, opened, q) matches Some(e) ==> q <= e <= s.len(),
{
    reveal(open_paren);
    reveal(close_paren);
    lemma_wsc_char(s, p, '(');
    lemma_wsc_char(s, q, ')');
}

pub proof fn lemma_simple_elements(s: Seq<char>, p: int)
    requires
        0 <= p <= s.len(),
    ensures
        within(spec_single_value(s, p), s, p),
        within(spec_value_range(s, p), s, p),
        within(spec_pattern_constraint(s, p), s, p),
        within(spec_user_defined_constraint(s, p), s, p),
{
    reveal(open_paren);
    reveal(spec_single_value);
    reveal(spec_value_range);
    reveal(spec_pattern_constraint);
    reveal(spec_user_defined_constraint);
    reveal(ext_with_additions);
    reveal(range_bounds);
    reveal(tag_end);
    reveal(spec_asn1_value);
    let (opened, q0) = open_paren(s, p);
    lemma_open_close(s, p, opened, p);
    lemma_skip_wsc(s, q0);
    let q = skip_wsc(s, q0);
    lemma_asn1_value(s, q);
    lemma_range_bounds(s, q);
    if let Some((_, q1)) = spec_asn1_value(s, q) {
        lemma_extensions(s, q1);
        lemma_open_close(s, p, opened, ext_with_additions(s, q1).1);
    }
    if let Some((_, _, q1)) = range_bounds(s, q) {
        lemma_extensions(s, q1);
        lemma_open_close(s, p, opened, ext_with_additions(s, q1).1);
    }
    lemma_tag_end(s, q, PATTERN@);
    lemma_tag_end(s, q, CONSTRAINED_BY@);
    if let Some(q1) = tag_end(s, q, PATTERN@) {
        lemma_skip_wsc(s, q1);
        let q2 = skip_wsc(s, q1);
        lemma_cstring_close(s, q2 + 1);
        if let Some(c) = cstring_close(s, q2 + 1) {
            lemma_open_close(s, p, opened, c + 1);
        }
    }
    if let Some(q1) = tag_end(s, q, CONSTRAINED_BY@) {
        lemma_skip_wsc(s, q1);
        let q2 = skip_wsc(s, q1);
        if has_char(s, q2, '{') {
            lemma_unbalanced_close(s, q2 + 1, 0);
            if let Some(c) = unbalanced_close(s, q2 + 1, 0) {
                lemma_open_close(s, p, opened, c + 1);
            }
        }
    }
}

pub proof fn lemma_unbalanced_close(s: Seq<char>, p: int, depth: nat)
    requires
        0 <= p,
    ensures
        unbalanced_close(s, p, depth) matches Some(c) ==> p <= c < s.len(),
    decreases s.len() - p,
{
    if 0 <= p < s.len() {
        if s[p] == '\\' {
            if p + 1 < s.len() {
                lemma_unbalanced_close(s, p + 2, depth);
            }
        } else if s[p] == '{' {
            lemma_unbalanced_close(s, p + 1, depth + 1);
        } else if s[p] == '}' {
            if depth > 0 {
                lemma_unbalanced_close(s, p + 1, (depth - 1) as nat);
            }
        } else {
            lemma_unbalanced_close(s, p + 1, depth);
        }
    }
}

pub proof fn lemma_relational_rest(s: Seq<char>, i: int, acc: Seq<SpecRelationalConstraint>)
    requires
        0 <= i <= s.len(),
    ensures
        within(relational_rest(s, i, acc), s, i),
    decreases s.len() - i,
{
    if let Some(i1) = wsc_char(s, i, ',') {
        if let Some((r, i2)) = spec_relational_constraint(s, i1) {
            if moved_on(s, i, i2) {
                lemma_relational_rest(s, i2, acc.push(r));
            }
        }
    }
}

pub proof fn lemma_dots_end(s: Seq<char>, p: int)
    requires
        0 <= p <= s.len(),
    ensures
        p <= dots_end(s, p) <= s.len(),
    decreases s.len() - p,
{
    if has_char(s, p, '.') {
        lemma_dots_end(s, p + 1);
    }
}

proof fn lemma_relational(s: Seq<char>, p: int)
    requires
        0 <= p <= s.len(),
    ensures
        within(spec_relational_constraint(s, p), s, p),
{
    lemma_skip_wsc(s, p);
    let q = skip_wsc(s, p);
    if has_char(s, q, '@') {
        lemma_dots_end(s, q + 1);
        lemma_identifier(s, dots_end(s, q + 1));
    }
}

proof fn lemma_linked_fields(s: Seq<char>, p: int)
    requires
        0 <= p <= s.len(),
    ensures
        within(linked_fields(s, p), s, p),
{
    reveal(linked_fields);
    reveal(wsc_char);
    lemma_wsc_char(s, p, '{');
    if let Some(q1) = wsc_char(s, p, '{') {
        lemma_skip_wsc(s, q1);
        lemma_relational(s, skip_wsc(s, q1));
        if let Some((r, q2)) = spec_relational_constraint(s, skip_wsc(s, q1)) {
            lemma_relational_rest(s, q2, seq![r]);
            if let Some((_, q3)) = relational_rest(s, q2, seq![r]) {
                lemma_wsc_char(s, q3, '}');
            }
        }
    }
}

// The recursive part of the grammar, proved by induction on the measure that
// its parsers decrease.

pub proof fn lemma_constraint(s: Seq<char>, p: int)
    requires
        0 <= p <= s.len(),
    ensures
        within(spec_constraint(s, p), s, p),
    decreases s.len() - p, 20int,
{
    lemma_constraint_item(s, p);
    if let Some((c, q)) = spec_constraint_item(s, p) {
        lemma_constraint_rest(s, q, seq![c]);
    }
}

pub proof fn lemma_constraint_rest(s: Seq<char>, i: int, acc: Seq<SpecConstraint>)
    requires
        0 <= i <= s.len(),
    ensures
        within(spec_constraint_rest(s, i, acc), s, i),
    decreases s.len() - i, 19int,
{
    lemma_constraint_item(s, i);
    if let Some((c, q)) = spec_constraint_item(s, i) {
        if moved_on(s, i, q) {
            lemma_constraint_rest(s, q, acc.push(c));
        }
    }
}

pub proof fn lemma_constraint_item(s: Seq<char>, p: int)
    requires
        0 <= p <= s.len(),
    ensures
        within(spec_constraint_item(s, p), s, p),
    decreases s.len() - p, 18int,
{
    lemma_single_constraint(s, p);
    lemma_size_constraint(s, p);
    lemma_parameters(s, p);
}

pub proof fn lemma_single_constraint(s: Seq<char>, p: int)
    requires
        0 <= p <= s.len(),
    ensures
        within(spec_single_constraint(s, p), s, p),
    decreases s.len() - p, 17int,
{
    lemma_skip_wsc(s, p);
    let q = skip_wsc(s, p);
    lemma_wsc_char(s, q, '(');
    if let Some(q1) = wsc_char(s, q, '(') {
        lemma_skip_wsc(s, q1);
        let r = skip_wsc(s, q1);
        lemma_table_constraint(s, r);
        lemma_element_set(s, r);
        if let Some((_, e)) = spec_table_constraint(s, r) {
            lemma_wsc_char(s, e, ')');
        }
        if let Some((_, e)) = spec_element_set(s, r) {
            lemma_wsc_char(s, e, ')');
        }
    }
}

pub proof fn lemma_element_set(s: Seq<char>, p: int)
    requires
        0 <= p <= s.len(),
    ensures
        within(spec_element_set(s, p), s, p),
    decreases s.len() - p, 15int,
{
    lemma_set_or_element(s, p);
    if let Some((_, q)) = spec_set_or_element(s, p) {
        lemma_extensions(s, q);
    }
}

pub proof fn lemma_set_or_element(s: Seq<char>, p: int)
    requires
        0 <= p <= s.len(),
    ensures
        within(spec_set_or_element(s, p), s, p),
    decreases s.len() - p, 14int,
{
    lemma_set_operation(s, p);
    lemma_subtype_element(s, p);
}

pub proof fn lemma_set_operator(s: Seq<char>, p: int)
    requires
        0 <= p <= s.len(),
    ensures
        within(spec_set_operator(s, p), s, p),
{
    reveal(spec_set_operator);
    reveal(wsc_char);
    reveal(tag_end);
    reveal(wsc_tag);
    lemma_skip_wsc(s, p);
}

pub proof fn lemma_set_operation(s: Seq<char>, p: int)
    requires
        0 <= p <= s.len(),
    ensures
        within(spec_set_operation(s, p), s, p),
    decreases s.len() - p, 13int,
{
    lemma_subtype_element(s, p);
    if let Some((_, q1)) = spec_subtype_element(s, p) {
        lemma_set_operator(s, q1);
        if let Some((_, q2)) = spec_set_operator(s, q1) {
            lemma_set_operator_reads(s, q1);
            lemma_set_or_element(s, q2);
        }
    }
}

pub proof fn lemma_subtype_element(s: Seq<char>, p: int)
    requires
        0 <= p <= s.len(),
    ensures
        within(spec_subtype_element(s, p), s, p),
    decreases s.len() - p, 12int,
{
    lemma_single_type_constraint(s, p);
    lemma_multiple_type_constraints(s, p);
    lemma_size_constraint(s, p);
    lemma_permitted_alphabet_constraint(s, p);
    lemma_contained_subtype(s, p);
    lemma_simple_elements(s, p);
}

pub proof fn lemma_size_constraint(s: Seq<char>, p: int)
    requires
        0 <= p <= s.len(),
    ensures
        within(spec_size_constraint(s, p), s, p),
    decreases s.len() - p, 11int,
{
    let (opened, q0) = open_paren(s, p);
    lemma_open_close(s, p, opened, p);
    lemma_skip_wsc(s, q0);
    let q = skip_wsc(s, q0);
    lemma_tag_end(s, q, SIZE@);
    reveal_strlit("SIZE");
    if let Some(q1) = tag_end(s, q, SIZE@) {
        lemma_single_constraint(s, q1);
        if let Some((_, q2)) = spec_single_constraint(s, q1) {
            lemma_open_close(s, p, opened, q2);
        }
    }
}

pub proof fn lemma_permitted_alphabet_constraint(s: Seq<char>, p: int)
    requires
        0 <= p <= s.len(),
    ensures
        within(spec_permitted_alphabet_constraint(s, p), s, p),
    decreases s.len() - p, 11int,
{
    let (opened, q0) = open_paren(s, p);
    lemma_open_close(s, p, opened, p);
    lemma_skip_wsc(s, q0);
    let q = skip_wsc(s, q0);
    lemma_tag_end(s, q, FROM@);
    if let Some(q1) = tag_end(s, q, FROM@) {
        lemma_wsc_char(s, q1, '(');
        if let Some(q2) = wsc_char(s, q1, '(') {
            lemma_skip_wsc(s, q2);
            let r = skip_wsc(s, q2);
            lemma_set_or_element(s, r);
            if let Some((_, q3)) = spec_set_or_element(s, r) {
                lemma_wsc_char(s, q3, ')');
                if let Some(q4) = wsc_char(s, q3, ')') {
                    lemma_open_close(s, p, opened, q4);
                }
            }
        }
    }
}

pub proof fn lemma_single_type_constraint(s: Seq<char>, p: int)
    requires
        0 <= p <= s.len(),
    ensures
        within(spec_single_type_constraint(s, p), s, p),
    decreases s.len() - p, 11int,
{
    let (opened, q0) = open_paren(s, p);
    lemma_open_close(s, p, opened, p);
    lemma_skip_wsc(s, q0);
    let q = skip_wsc(s, q0);
    lemma_tag_end(s, q, WITH_COMPONENTS@);
    if let Some(q1) = tag_end(s, q, WITH_COMPONENTS@) {
        lemma_wsc_char(s, q1, '{');
        if let Some(q2) = wsc_char(s, q1, '{') {
            lemma_skip_wsc(s, q2);
            let r = skip_wsc(s, q2);
            lemma_partial_marker(s, r);
            let q3 = partial_marker(s, r).1;
            lemma_subset_members(s, q3);
            if let Some((_, q4)) = spec_subset_members(s, q3) {
                lemma_wsc_char(s, q4, '}');
                if let Some(q5) = wsc_char(s, q4, '}') {
                    lemma_open_close(s, p, opened, q5);
                }
            }
        }
    }
}

pub proof fn lemma_multiple_type_constraints(s: Seq<char>, p: int)
    requires
        0 <= p <= s.len(),
    ensures
        within(spec_multiple_type_constraints(s, p), s, p),
    decreases s.len() - p, 11int,
{
    let (opened, q0) = open_paren(s, p);
    lemma_open_close(s, p, opened, p);
    lemma_skip_wsc(s, q0);
    let q = skip_wsc(s, q0);
    lemma_tag_end(s, q, WITH_COMPONENT@);
    reveal_strlit("WITH COMPONENT");
    if let Some(q1) = tag_end(s, q, WITH_COMPONENT@) {
        lemma_skip_wsc(s, q1);
        let q2 = skip_wsc(s, q1);
        lemma_single_type_constraint(s, q2);
        lemma_multiple_type_constraints(s, q2);
        if let Some((_, q3)) = spec_single_type_constraint(s, q2) {
            lemma_open_close(s, p, opened, q3);
        }
        if let Some((_, q3)) = spec_multiple_type_constraints(s, q2) {
            lemma_open_close(s, p, opened, q3);
        }
    }
}

pub proof fn lemma_contained_subtype(s: Seq<char>, p: int)
    requires
        0 <= p <= s.len(),
    ensures
        within(spec_contained_subtype(s, p), s, p),
    decreases s.len() - p, 11int,
{
    let (opened, q0) = open_paren(s, p);
    lemma_open_close(s, p, opened, p);
    lemma_skip_wsc(s, q0);
    let q = skip_wsc(s, q0);
    lemma_tag_end(s, q, INCLUDES@);
    let q1 = match tag_end(s, q, INCLUDES@) {
        Some(e) => e,
        None => q,
    };
    lemma_skip_wsc(s, q1);
    let q2 = skip_wsc(s, q1);
    lemma_asn1_type(s, q2);
    if let Some((_, q3)) = spec_asn1_type(s, q2) {
        lemma_extensions(s, q3);
        lemma_open_close(s, p, opened, ext_marker_after(s, q3).1);
    }
}

pub proof fn lemma_subset_members(s: Seq<char>, p: int)
    requires
        0 <= p <= s.len(),
    ensures
        within(spec_subset_members(s, p), s, p),
    decreases s.len() - p, 10int,
{
    lemma_member_item(s, p);
    if let Some((c, q)) = spec_member_item(s, p) {
        lemma_subset_members_rest(s, q, seq![c]);
    }
}

pub proof fn lemma_subset_members_rest(s: Seq<char>, i: int, acc: Seq<SpecConstrainedComponent>)
    requires
        0 <= i <= s.len(),
    ensures
        within(spec_subset_members_rest(s, i, acc), s, i),
    decreases s.len() - i, 9int,
{
    lemma_member_item(s, i);
    if let Some((c, q)) = spec_member_item(s, i) {
        if moved_on(s, i, q) {
            lemma_subset_members_rest(s, q, acc.push(c));
        }
    }
}

pub proof fn lemma_member_item(s: Seq<char>, p: int)
    requires
        0 <= p <= s.len(),
    ensures
        within(spec_member_item(s, p), s, p),
    decreases s.len() - p, 8int,
{
    lemma_subset_member(s, p);
    if let Some((_, q)) = spec_subset_member(s, p) {
        lemma_wsc_char(s, q, ',');
    }
}

pub proof fn lemma_subset_member(s: Seq<char>, p: int)
    requires
        0 <= p <= s.len(),
    ensures
        within(spec_subset_member(s, p), s, p),
    decreases s.len() - p, 7int,
{
    lemma_skip_wsc(s, p);
    lemma_identifier(s, skip_wsc(s, p));
    if let Some((_, q1)) = identifier(s, skip_wsc(s, p)) {
        lemma_skip_wsc(s, q1);
        let r = skip_wsc(s, q1);
        lemma_constraint(s, r);
        let q2 = match spec_constraint(s, r) {
            Some((_, e)) => e,
            None => q1,
        };
        lemma_skip_wsc(s, q2);
        lemma_tag_end(s, skip_wsc(s, q2), PRESENT@);
        lemma_tag_end(s, skip_wsc(s, q2), ABSENT@);
    }
}

pub proof fn lemma_asn1_type(s: Seq<char>, p: int)
    requires
        0 <= p <= s.len(),
    ensures
        within(spec_asn1_type(s, p), s, p),
    decreases s.len() - p, 6int,
{
    lemma_boolean(s, p);
    lemma_object_identifier(s, p);
    lemma_integer(s, p);
    lemma_elsewhere_declared_type(s, p);
}

pub proof fn lemma_elsewhere_declared_type(s: Seq<char>, p: int)
    requires
        0 <= p <= s.len(),
    ensures
        within(spec_elsewhere_declared_type(s, p), s, p),
    decreases s.len() - p, 5int,
{
    lemma_skip_wsc(s, p);
    lemma_identifier(s, skip_wsc(s, p));
    if let Some((_, q1)) = type_reference(s, skip_wsc(s, p)) {
        lemma_skip_wsc(s, q1);
        lemma_constraint(s, skip_wsc(s, q1));
    }
}

pub proof fn lemma_boolean(s: Seq<char>, p: int)
    requires
        0 <= p <= s.len(),
    ensures
        within(spec_boolean(s, p), s, p),
    decreases s.len() - p, 5int,
{
    lemma_wsc_tag(s, p, BOOLEAN@);
    reveal_strlit("BOOLEAN");
    if let Some(q1) = wsc_tag(s, p, BOOLEAN@) {
        lemma_skip_wsc(s, q1);
        lemma_constraint(s, skip_wsc(s, q1));
    }
}

pub proof fn lemma_object_identifier(s: Seq<char>, p: int)
    requires
        0 <= p <= s.len(),
    ensures
        within(spec_object_identifier(s, p), s, p),
    decreases s.len() - p, 5int,
{
    lemma_wsc_tag(s, p, OBJECT_IDENTIFIER@);
    reveal_strlit("OBJECT IDENTIFIER");
    if let Some(q1) = wsc_tag(s, p, OBJECT_IDENTIFIER@) {
        lemma_skip_wsc(s, q1);
        lemma_constraint(s, skip_wsc(s, q1));
    }
}

pub proof fn lemma_table_constraint(s: Seq<char>, p: int)
    requires
        0 <= p <= s.len(),
    ensures
        within(spec_table_constraint(s, p), s, p),
    decreases s.len() - p, 40int,
{
    let (opened, q0) = open_paren(s, p);
    lemma_open_close(s, p, opened, p);
    lemma_skip_wsc(s, q0);
    let q = skip_wsc(s, q0);
    lemma_object_set(s, q);
    if let Some((_, q1)) = spec_object_set(s, q) {
        lemma_linked_fields(s, q1);
        let q2 = match linked_fields(s, q1) {
            Some((_, e)) => e,
            None => q1,
        };
        lemma_open_close(s, p, opened, q2);
    }
}

pub proof fn lemma_object_set(s: Seq<char>, p: int)
    requires
        0 <= p <= s.len(),
    ensures
        within(spec_object_set(s, p), s, p),
    decreases s.len() - p, 39int,
{
    lemma_wsc_char(s, p, '{');
    if let Some(q1) = wsc_char(s, p, '{') {
        lemma_skip_wsc(s, q1);
        let q2 = skip_wsc(s, q1);
        lemma_object_set_value(s, q2);
        let values = match spec_object_set_value(s, q2) {
            None => Some((Seq::<SpecObjectSetValue>::empty(), q2)),
            Some((v, e)) => if in_between(s, q2, e) {
                lemma_object_set_rest(s, e, seq![v]);
                spec_object_set_rest(s, e, seq![v])
            } else {
                None
            },
        };
        if let Some((_, q3)) = values {
            lemma_extensions(s, q3);
            lemma_wsc_char(s, ext_marker_after(s, q3).1, '}');
        }
    }
}

pub proof fn lemma_object_set_rest(s: Seq<char>, i: int, acc: Seq<SpecObjectSetValue>)
    requires
        0 <= i <= s.len(),
    ensures
        within(spec_object_set_rest(s, i, acc), s, i),
    decreases s.len() - i, 38int,
{
    lemma_wsc_char(s, i, '|');
    if let Some(i1) = wsc_char(s, i, '|') {
        lemma_object_set_value(s, i1);
        if let Some((v, i2)) = spec_object_set_value(s, i1) {
            if moved_on(s, i, i2) {
                lemma_object_set_rest(s, i2, acc.push(v));
            }
        }
    }
}

pub proof fn lemma_object_set_value(s: Seq<char>, p: int)
    requires
        0 <= p <= s.len(),
    ensures
        within(spec_object_set_value(s, p), s, p),
    decreases s.len() - p, 37int,
{
    lemma_information_object(s, p);
    lemma_identifier(s, p);
}

pub proof fn lemma_information_object(s: Seq<char>, p: int)
    requires
        0 <= p <= s.len(),
    ensures
        within(spec_information_object(s, p), s, p),
    decreases s.len() - p, 36int,
{
    lemma_wsc_char(s, p, '{');
    if let Some(q1) = wsc_char(s, p, '{') {
        lemma_skip_wsc(s, q1);
        let r = skip_wsc(s, q1);
        lemma_object_fields(s, r);
        lemma_syntax_tokens(s, r);
        if let Some((_, e)) = spec_object_fields(s, r) {
            lemma_wsc_char(s, e, '}');
        }
        if let Some((_, e)) = spec_syntax_tokens(s, r) {
            lemma_wsc_char(s, e, '}');
        }
    }
}

pub proof fn lemma_object_fields(s: Seq<char>, p: int)
    requires
        0 <= p <= s.len(),
    ensures
        within(spec_object_fields(s, p), s, p),
    decreases s.len() - p, 35int,
{
    lemma_object_field(s, p);
    if let Some((f, q)) = spec_object_field(s, p) {
        if in_between(s, p, q) {
            lemma_object_fields_rest(s, q, seq![f]);
        }
    }
}

pub proof fn lemma_object_fields_rest(s: Seq<char>, i: int, acc: Seq<SpecInformationObjectField>)
    requires
        0 <= i <= s.len(),
    ensures
        within(spec_object_fields_rest(s, i, acc), s, i),
    decreases s.len() - i, 34int,
{
    lemma_wsc_char(s, i, ',');
    if let Some(i1) = wsc_char(s, i, ',') {
        lemma_object_field(s, i1);
        if let Some((f, i2)) = spec_object_field(s, i1) {
            if moved_on(s, i, i2) {
                lemma_object_fields_rest(s, i2, acc.push(f));
            }
        }
    }
}

pub proof fn lemma_object_field(s: Seq<char>, p: int)
    requires
        0 <= p <= s.len(),
    ensures
        within(spec_object_field(s, p), s, p),
    decreases s.len() - p, 33int,
{
    lemma_field_reference(s, p);
    if let Some((_, q1)) = field_reference(s, p) {
        lemma_asn1_type(s, q1);
        lemma_asn1_value(s, q1);
    }
}

pub proof fn lemma_syntax_tokens(s: Seq<char>, p: int)
    requires
        0 <= p <= s.len(),
    ensures
        within(spec_syntax_tokens(s, p), s, p),
    decreases s.len() - p, 32int,
{
    lemma_syntax_token(s, p);
    if let Some((t, q)) = spec_syntax_token(s, p) {
        if in_between(s, p, q) {
            lemma_syntax_tokens_rest(s, q, seq![t]);
        }
    }
}

pub proof fn lemma_syntax_tokens_rest(s: Seq<char>, i: int, acc: Seq<SpecSyntaxApplication>)
    requires
        0 <= i <= s.len(),
    ensures
        within(spec_syntax_tokens_rest(s, i, acc), s, i),
    decreases s.len() - i, 31int,
{
    lemma_syntax_token(s, i);
    if let Some((t, q)) = spec_syntax_token(s, i) {
        if moved_on(s, i, q) {
            lemma_syntax_tokens_rest(s, q, acc.push(t));
        }
    }
}

pub proof fn lemma_syntax_token(s: Seq<char>, p: int)
    requires
        0 <= p <= s.len(),
    ensures
        within(spec_syntax_token(s, p), s, p),
    decreases s.len() - p, 30int,
{
    lemma_identifier(s, p);
    lemma_asn1_type(s, p);
    lemma_asn1_value(s, p);
}

pub proof fn lemma_parameters(s: Seq<char>, p: int)
    requires
        0 <= p <= s.len(),
    ensures
        within(spec_parameters(s, p), s, p),
    decreases s.len() - p, 16int,
{
    lemma_wsc_char(s, p, '{');
    if let Some(q1) = wsc_char(s, p, '{') {
        lemma_skip_wsc(s, q1);
        let r = skip_wsc(s, q1);
        lemma_parameter_list(s, r);
        if let Some((_, q2)) = spec_parameter_list(s, r) {
            lemma_wsc_char(s, q2, '}');
        }
    }
}

pub proof fn lemma_parameter_list(s: Seq<char>, p: int)
    requires
        0 <= p <= s.len(),
    ensures
        within(spec_parameter_list(s, p), s, p),
    decreases s.len() - p, 43int,
{
    lemma_parameter(s, p);
    if let Some((x, q)) = spec_parameter(s, p) {
        if in_between(s, p, q) {
            lemma_parameter_rest(s, q, seq![x]);
        }
    }
}

pub proof fn lemma_parameter_rest(s: Seq<char>, i: int, acc: Seq<SpecParameter>)
    requires
        0 <= i <= s.len(),
    ensures
        within(spec_parameter_rest(s, i, acc), s, i),
    decreases s.len() - i, 42int,
{
    lemma_wsc_char(s, i, ',');
    if let Some(i1) = wsc_char(s, i, ',') {
        lemma_parameter(s, i1);
        if let Some((x, i2)) = spec_parameter(s, i1) {
            if moved_on(s, i, i2) {
                lemma_parameter_rest(s, i2, acc.push(x));
            }
        }
    }
}

pub proof fn lemma_parameter(s: Seq<char>, p: int)
    requires
        0 <= p <= s.len(),
    ensures
        within(spec_parameter(s, p), s, p),
    decreases s.len() - p, 41int,
{
    lemma_asn1_type(s, p);
    lemma_asn1_value(s, p);
}

pub proof fn lemma_integer(s: Seq<char>, p: int)
    requires
        0 <= p <= s.len(),
    ensures
        within(spec_integer(s, p), s, p),
    decreases s.len() - p, 5int,
{
    lemma_wsc_tag(s, p, INTEGER@);
    reveal_strlit("INTEGER");
    if let Some(q1) = wsc_tag(s, p, INTEGER@) {
        lemma_distinguished_values(s, q1);
        let q2 = match spec_distinguished_values(s, q1) {
            Some((_, e)) => e,
            None => q1,
        };
        lemma_skip_wsc(s, q2);
        lemma_constraint(s, skip_wsc(s, q2));
    }
}

} // verus!
