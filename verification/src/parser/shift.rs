//! What a parser reads from a position depends only on the text from that
//! position on: the same text after another prefix gives the same result,
//! with its end moved by the difference in length of the prefixes.
use vstd::prelude::*;

use super::boolean::spec_boolean_value;
use super::common::{
    extension_marker,
    block_comment_close, block_comment_end, capital_word, comment_end, field_reference, has_char,
    has_tag, ident_tail_end, identifier, lemma_block_comment_close, lemma_comment_end,
    lemma_field_reference, lemma_ident_tail_end, lemma_identifier, lemma_line_comment_text_end,
    lemma_skip_wsc, lemma_ws_end, line_comment_end, line_comment_text_end, skip_wsc, tag_end,
    type_reference, value_reference, ws_end, wsc_char, wsc_tag, is_multispace, is_alphanumeric,
    ELLIPSIS, RANGE,
};
use super::boolean::spec_boolean;
use super::constraint::{
    lemma_set_operator_reads, spec_asn1_type, spec_constraint, spec_constraint_item,
    spec_constraint_rest, spec_contained_subtype, spec_element_set, spec_elsewhere_declared_type,
    spec_member_item, spec_multiple_type_constraints, spec_permitted_alphabet_constraint,
    spec_set_operation, spec_set_or_element, spec_single_constraint, spec_single_type_constraint,
    spec_size_constraint, spec_subset_member, spec_subset_members, spec_subset_members_rest,
    spec_subtype_element, spec_table_constraint,
    addition_item, additions_rest, close_paren, dots_end, ext_marker_after, ext_with_additions,
    linked_fields, open_paren, partial_marker, range_bounds, range_lower, range_upper,
    relational_rest, spec_extension_additions, spec_pattern_constraint,
    spec_relational_constraint, spec_set_operator, spec_single_value, spec_user_defined_constraint,
    spec_value_range, unbalanced_close,
};
use super::input::{in_between, moved_on};
use super::information_object::{
    spec_information_object, spec_object_field, spec_object_fields, spec_object_fields_rest,
    spec_object_set, spec_object_set_rest, spec_object_set_value, spec_parameter,
    spec_parameter_list, spec_parameter_rest, spec_parameters, spec_syntax_token,
    spec_syntax_tokens, spec_syntax_tokens_rest,
};
use super::integer::{
    distinguished_values_rest, lemma_distinguished_value, spec_distinguished_value,
    spec_distinguished_values, spec_integer,
};
use super::number::{signed_at, unsigned_at};
use super::object_identifier::{
    object_identifier_arcs_rest, spec_object_identifier, spec_object_identifier_arc,
};
use super::progress::{
    lemma_asn1_type, lemma_asn1_value, lemma_boolean, lemma_constraint, lemma_constraint_item,
    lemma_constraint_rest, lemma_contained_subtype, lemma_dots_end, lemma_element_set,
    lemma_elsewhere_declared_type, lemma_information_object, lemma_integer, lemma_member_item,
    lemma_multiple_type_constraints, lemma_object_field, lemma_object_fields,
    lemma_object_fields_rest, lemma_object_identifier, lemma_object_identifier_arc,
    lemma_object_identifier_arcs_rest, lemma_object_set, lemma_object_set_rest,
    lemma_object_set_value, lemma_parameter, lemma_parameter_list, lemma_parameter_rest,
    lemma_parameters, lemma_permitted_alphabet_constraint, lemma_set_operation,
    lemma_set_or_element, lemma_signed_at, lemma_single_constraint, lemma_single_type_constraint,
    lemma_size_constraint, lemma_subset_member, lemma_subset_members, lemma_subset_members_rest,
    lemma_subtype_element, lemma_syntax_token, lemma_syntax_tokens, lemma_syntax_tokens_rest,
    lemma_table_constraint, lemma_unbalanced_close, lemma_unsigned_at, within,
};
use super::value::{
    cstring_close, lemma_cstring_close, spec_all_value, spec_asn1_value, spec_cstring_value,
    spec_elsewhere_declared_value, spec_integer_value, unescape_quotes,
};
use crate::intermediate::constraints::{
    SpecConstrainedComponent, SpecConstraint, SpecObjectSetValue, SpecRelationalConstraint, ABSENT,
    CARET, CONSTRAINED_BY, EXCEPT, FROM, INCLUDES, INTERSECTION, MAX, MIN, PATTERN, PIPE, PRESENT,
    SIZE, UNION, WITH_COMPONENT, WITH_COMPONENTS,
};
use crate::intermediate::information_object::{
    SpecInformationObjectField, SpecParameter, SpecSyntaxApplication,
};
use crate::intermediate::types::{SpecDistinguishedValue, SpecObjectIdentifierArc};
use crate::intermediate::{
    SpecASN1Value, ALL, BOOLEAN, FALSE, INTEGER, OBJECT_IDENTIFIER, TRUE,
};

verus! {

broadcast use vstd::string::group_string_axioms;

/// `a` from position `p` on is the text of `b` from position `p - d` on;
/// both positions lie within their texts.
pub open spec fn same_text_from(a: Seq<char>, b: Seq<char>, d: int, p: int) -> bool {
    &&& 0 <= p
    &&& 0 <= p - d
    &&& p <= a.len()
    &&& a.len() == b.len() + d
    &&& forall|i: int| p <= i < a.len() ==> #[trigger] a[i] == b[i - d]
}

/// A result whose end is moved by `d`.
pub open spec fn shifted<T>(r: Option<(T, int)>, d: int) -> Option<(T, int)> {
    match r {
        Some((v, e)) => Some((v, e + d)),
        None => None,
    }
}

/// An end position moved by `d`.
pub open spec fn shifted_end(r: Option<int>, d: int) -> Option<int> {
    match r {
        Some(e) => Some(e + d),
        None => None,
    }
}

pub proof fn lemma_shift_ws_end(a: Seq<char>, b: Seq<char>, d: int, p: int)
    requires
        same_text_from(a, b, d, p),
    ensures
        ws_end(a, p) == ws_end(b, p - d) + d,
        p <= ws_end(a, p) <= a.len(),
    decreases a.len() - p,
{
    lemma_ws_end(a, p);
    if 0 <= p < a.len() && is_multispace(a[p]) {
        lemma_shift_ws_end(a, b, d, p + 1);
    }
}

pub proof fn lemma_shift_line_comment_text_end(a: Seq<char>, b: Seq<char>, d: int, p: int)
    requires
        same_text_from(a, b, d, p),
    ensures
        line_comment_text_end(a, p) == line_comment_text_end(b, p - d) + d,
        p <= line_comment_text_end(a, p) <= a.len(),
    decreases a.len() - p,
{
    lemma_line_comment_text_end(a, p);
    if p < a.len() {
        if p + 1 < a.len() {
            assert(a[p + 1] == b[p + 1 - d]);
        }
        if !(a[p] == '\n' || a[p] == '\r') && !(has_char(a, p, '-') && has_char(a, p + 1, '-')) {
            lemma_shift_line_comment_text_end(a, b, d, p + 1);
        }
    }
}

pub proof fn lemma_shift_block_comment_close(a: Seq<char>, b: Seq<char>, d: int, p: int)
    requires
        same_text_from(a, b, d, p),
    ensures
        block_comment_close(a, p) == shifted_end(block_comment_close(b, p - d), d),
        block_comment_close(a, p) matches Some(e) ==> p + 2 <= e <= a.len(),
    decreases a.len() - p,
{
    lemma_block_comment_close(a, p);
    if p + 1 < a.len() {
        assert(a[p + 1] == b[p + 1 - d]);
        if !(a[p] == '*' && a[p + 1] == '/') {
            lemma_shift_block_comment_close(a, b, d, p + 1);
        }
    }
}

pub proof fn lemma_shift_comment_end(a: Seq<char>, b: Seq<char>, d: int, p: int)
    requires
        same_text_from(a, b, d, p),
    ensures
        comment_end(a, p) == shifted_end(comment_end(b, p - d), d),
        comment_end(a, p) matches Some(e) ==> p < e <= a.len(),
{
    reveal(comment_end);
    lemma_comment_end(a, p);
    if p + 1 < a.len() {
        assert(a[p + 1] == b[p + 1 - d]);
        if a[p] == '/' && a[p + 1] == '*' {
            if p + 2 <= a.len() {
                lemma_shift_block_comment_close(a, b, d, p + 2);
            }
        }
        if a[p] == '-' && a[p + 1] == '-' {
            lemma_shift_line_comment_text_end(a, b, d, p + 2);
            let e = line_comment_text_end(a, p + 2);
            if e + 1 < a.len() {
                assert(a[e + 1] == b[e + 1 - d]);
            }
        }
    }
}

pub proof fn lemma_shift_skip_wsc(a: Seq<char>, b: Seq<char>, d: int, p: int)
    requires
        same_text_from(a, b, d, p),
    ensures
        skip_wsc(a, p) == skip_wsc(b, p - d) + d,
        p <= skip_wsc(a, p) <= a.len(),
    decreases a.len() - p,
{
    lemma_skip_wsc(a, p);
    if p < a.len() {
        if is_multispace(a[p]) {
            lemma_shift_skip_wsc(a, b, d, p + 1);
        } else {
            lemma_shift_comment_end(a, b, d, p);
            if let Some(e) = comment_end(a, p) {
                lemma_shift_skip_wsc(a, b, d, e);
            }
        }
    }
}

pub proof fn lemma_shift_has_tag(a: Seq<char>, b: Seq<char>, d: int, p: int, t: Seq<char>)
    requires
        same_text_from(a, b, d, p),
    ensures
        has_tag(a, p, t) == has_tag(b, p - d, t),
        tag_end(a, p, t) == shifted_end(tag_end(b, p - d, t), d),
        tag_end(a, p, t) matches Some(e) ==> e == p + t.len() <= a.len(),
{
    reveal(tag_end);
    if p + t.len() <= a.len() {
        assert(a.subrange(p, p + t.len()) =~= b.subrange(p - d, p - d + t.len()));
    }
}

pub proof fn lemma_shift_wsc(a: Seq<char>, b: Seq<char>, d: int, p: int, c: char, t: Seq<char>)
    requires
        same_text_from(a, b, d, p),
    ensures
        skip_wsc(a, p) == skip_wsc(b, p - d) + d,
        p <= skip_wsc(a, p) <= a.len(),
        wsc_char(a, p, c) == shifted_end(wsc_char(b, p - d, c), d),
        wsc_tag(a, p, t) == shifted_end(wsc_tag(b, p - d, t), d),
        wsc_char(a, p, c) matches Some(e) ==> p < e <= a.len(),
        wsc_tag(a, p, t) matches Some(e) ==> p + t.len() <= e <= a.len(),
{
    reveal(wsc_char);
    reveal(tag_end);
    reveal(wsc_tag);
    lemma_shift_skip_wsc(a, b, d, p);
    let q = skip_wsc(a, p);
    lemma_shift_has_tag(a, b, d, q, t);
}

pub proof fn lemma_shift_ident_tail_end(a: Seq<char>, b: Seq<char>, d: int, p: int)
    requires
        same_text_from(a, b, d, p),
    ensures
        ident_tail_end(a, p) == ident_tail_end(b, p - d) + d,
        p <= ident_tail_end(a, p) <= a.len(),
    decreases a.len() - p,
{
    lemma_ident_tail_end(a, p);
    if p < a.len() {
        if p + 1 < a.len() {
            assert(a[p + 1] == b[p + 1 - d]);
        }
        if is_alphanumeric(a[p]) {
            lemma_shift_ident_tail_end(a, b, d, p + 1);
        } else if p + 1 < a.len() && a[p] == '-' && is_alphanumeric(a[p + 1]) {
            lemma_shift_ident_tail_end(a, b, d, p + 2);
        }
    }
}

pub proof fn lemma_shift_identifier(a: Seq<char>, b: Seq<char>, d: int, p: int)
    requires
        same_text_from(a, b, d, p),
    ensures
        identifier(a, p) == shifted(identifier(b, p - d), d),
        value_reference(a, p) == shifted(value_reference(b, p - d), d),
        type_reference(a, p) == shifted(type_reference(b, p - d), d),
        capital_word(a, p) == shifted(capital_word(b, p - d), d),
        field_reference(a, p) == shifted(field_reference(b, p - d), d),
        within(identifier(a, p), a, p),
        within(field_reference(a, p), a, p),
{
    reveal(identifier);
    reveal(field_reference);
    lemma_identifier(a, p);
    lemma_field_reference(a, p);
    lemma_shift_skip_wsc(a, b, d, p);
    let q = skip_wsc(a, p);
    if q < a.len() {
        lemma_shift_ident_tail_end(a, b, d, q + 1);
        let e = ident_tail_end(a, q + 1);
        assert(a.subrange(q, e) =~= b.subrange(q - d, e - d));
        if q + 1 < a.len() {
            assert(a[q + 1] == b[q + 1 - d]);
            lemma_shift_ident_tail_end(a, b, d, q + 2);
            let e2 = ident_tail_end(a, q + 2);
            assert(a.subrange(q, e2) =~= b.subrange(q - d, e2 - d));
        }
    }
}

pub proof fn lemma_shift_digits_end(a: Seq<char>, b: Seq<char>, d: int, p: int)
    requires
        same_text_from(a, b, d, p),
    ensures
        a.skip(p) == b.skip(p - d),
{
    assert(a.skip(p) =~= b.skip(p - d));
}

pub proof fn lemma_shift_cstring_close(a: Seq<char>, b: Seq<char>, d: int, p: int)
    requires
        same_text_from(a, b, d, p),
    ensures
        cstring_close(a, p) == shifted_end(cstring_close(b, p - d), d),
    decreases a.len() - p,
{
    if p < a.len() {
        if p + 1 < a.len() {
            assert(a[p + 1] == b[p + 1 - d]);
        }
        if a[p] == '"' {
            if has_char(a, p + 1, '"') {
                if p + 2 <= a.len() {
                    lemma_shift_cstring_close(a, b, d, p + 2);
                }
            }
        } else {
            lemma_shift_cstring_close(a, b, d, p + 1);
        }
    }
}

pub proof fn lemma_shift_unescape_quotes(a: Seq<char>, b: Seq<char>, d: int, x: int, y: int)
    requires
        same_text_from(a, b, d, x),
        y <= a.len(),
    ensures
        unescape_quotes(a, x, y) == unescape_quotes(b, x - d, y - d),
    decreases y - x,
{
    if x < y {
        if x + 2 <= y {
            lemma_shift_unescape_quotes(a, b, d, x + 2, y);
        }
        lemma_shift_unescape_quotes(a, b, d, x + 1, y);
    }
}

pub proof fn lemma_shift_asn1_value(a: Seq<char>, b: Seq<char>, d: int, p: int)
    requires
        same_text_from(a, b, d, p),
    ensures
        spec_asn1_value(a, p) == shifted(spec_asn1_value(b, p - d), d),
        spec_boolean_value(a, p) == shifted(spec_boolean_value(b, p - d), d),
        within(spec_asn1_value(a, p), a, p),
{
    reveal(spec_asn1_value);
    lemma_asn1_value(a, p);
    lemma_shift_wsc(a, b, d, p, '"', ALL@);
    lemma_shift_wsc(a, b, d, p, '"', TRUE@);
    lemma_shift_wsc(a, b, d, p, '"', FALSE@);
    let q = skip_wsc(a, p);
    lemma_shift_digits_end(a, b, d, q);
    if q < a.len() {
        lemma_shift_cstring_close(a, b, d, q + 1);
        lemma_cstring_close(a, q + 1);
        if let Some(c) = cstring_close(a, q + 1) {
            lemma_shift_unescape_quotes(a, b, d, q + 1, c);
        }
    }
    lemma_shift_identifier(a, b, d, p);
}

pub proof fn lemma_shift_close_paren(a: Seq<char>, b: Seq<char>, d: int, q: int, opened: bool)
    requires
        same_text_from(a, b, d, q),
    ensures
        close_paren(a, opened, q) == shifted_end(close_paren(b, opened, q - d), d),
        close_paren(a, opened, q) matches Some(e) ==> q <= e <= a.len(),
{
    reveal(close_paren);
    lemma_shift_wsc(a, b, d, q, ')', ELLIPSIS@);
}

pub proof fn lemma_shift_open_paren(a: Seq<char>, b: Seq<char>, d: int, p: int)
    requires
        same_text_from(a, b, d, p),
    ensures
        open_paren(a, p) == (open_paren(b, p - d).0, open_paren(b, p - d).1 + d),
        p <= open_paren(a, p).1 <= a.len(),
{
    reveal(open_paren);
    lemma_shift_wsc(a, b, d, p, '(', ELLIPSIS@);
}

pub proof fn lemma_shift_ext_marker(a: Seq<char>, b: Seq<char>, d: int, p: int)
    requires
        same_text_from(a, b, d, p),
    ensures
        ext_marker_after(a, p) == (ext_marker_after(b, p - d).0, ext_marker_after(b, p - d).1 + d),
        p <= ext_marker_after(a, p).1 <= a.len(),
{
    lemma_shift_markers(a, b, d, p);
}

pub proof fn lemma_shift_markers(a: Seq<char>, b: Seq<char>, d: int, p: int)
    requires
        same_text_from(a, b, d, p),
    ensures
        open_paren(a, p) == (open_paren(b, p - d).0, open_paren(b, p - d).1 + d),
        p <= open_paren(a, p).1 <= a.len(),
        ext_marker_after(a, p) == (ext_marker_after(b, p - d).0, ext_marker_after(b, p - d).1 + d),
        p <= ext_marker_after(a, p).1 <= a.len(),
        partial_marker(a, p) == (partial_marker(b, p - d).0, partial_marker(b, p - d).1 + d),
        p <= partial_marker(a, p).1 <= a.len(),
        spec_set_operator(a, p) == shifted(spec_set_operator(b, p - d), d),
        within(spec_set_operator(a, p), a, p),
{
    reveal(open_paren);
    reveal(ext_marker_after);
    reveal(partial_marker);
    reveal(spec_set_operator);
    reveal(wsc_tag);
    lemma_shift_wsc(a, b, d, p, '(', ELLIPSIS@);
    let q = skip_wsc(a, p);
    if q < a.len() {
        lemma_shift_wsc(a, b, d, q + 1, ',', ELLIPSIS@);
    }
    if let Some(q1) = wsc_tag(a, p, ELLIPSIS@) {
        lemma_shift_wsc(a, b, d, q1, ',', ELLIPSIS@);
    }
    lemma_shift_has_tag(a, b, d, q, INTERSECTION@);
    lemma_shift_has_tag(a, b, d, q, CARET@);
    lemma_shift_has_tag(a, b, d, q, UNION@);
    lemma_shift_has_tag(a, b, d, q, PIPE@);
    lemma_shift_has_tag(a, b, d, q, EXCEPT@);
}

/// Both bounds of a range, with the end moved by `d`.
pub open spec fn shifted_bounds(
    r: Option<(Option<SpecASN1Value>, Option<SpecASN1Value>, int)>,
    d: int,
) -> Option<(Option<SpecASN1Value>, Option<SpecASN1Value>, int)> {
    match r {
        Some((x, y, e)) => Some((x, y, e + d)),
        None => None,
    }
}

pub proof fn lemma_shift_range_upper(a: Seq<char>, b: Seq<char>, d: int, p: int)
    requires
        same_text_from(a, b, d, p),
    ensures
        range_upper(a, p) == shifted(range_upper(b, p - d), d),
        within(range_upper(a, p), a, p),
{
    lemma_shift_wsc(a, b, d, p, '<', RANGE@);
    if let Some(q) = wsc_tag(a, p, RANGE@) {
        let q1 = if has_char(a, q, '<') {
            q + 1
        } else {
            q
        };
        lemma_shift_skip_wsc(a, b, d, q1);
        let r = skip_wsc(a, q1);
        lemma_shift_has_tag(a, b, d, r, MAX@);
        lemma_shift_asn1_value(a, b, d, r);
    }
}

pub proof fn lemma_shift_range_bounds(a: Seq<char>, b: Seq<char>, d: int, p: int)
    requires
        same_text_from(a, b, d, p),
    ensures
        range_lower(a, p) == shifted(range_lower(b, p - d), d),
        within(range_lower(a, p), a, p),
        range_bounds(a, p) == shifted_bounds(range_bounds(b, p - d), d),
        range_bounds(a, p) matches Some((_, _, e)) ==> p <= e <= a.len(),
{
    reveal(range_bounds);
    reveal(tag_end);
    reveal(spec_asn1_value);
    lemma_shift_has_tag(a, b, d, p, MIN@);
    lemma_shift_asn1_value(a, b, d, p);
    let e0 = match tag_end(a, p, MIN@) {
        Some(x) => x,
        None => match spec_asn1_value(a, p) {
            Some((_, x)) => x,
            None => p,
        },
    };
    lemma_shift_skip_wsc(a, b, d, e0);
    if let Some((_, q)) = range_lower(a, p) {
        lemma_shift_range_upper(a, b, d, q);
    }
}

pub proof fn lemma_shift_addition_item(a: Seq<char>, b: Seq<char>, d: int, p: int)
    requires
        same_text_from(a, b, d, p),
    ensures
        addition_item(a, p) == shifted_end(addition_item(b, p - d), d),
        addition_item(a, p) matches Some(e) ==> p <= e <= a.len(),
{
    lemma_shift_skip_wsc(a, b, d, p);
    let q = skip_wsc(a, p);
    lemma_shift_asn1_value(a, b, d, q);
    lemma_shift_range_bounds(a, b, d, q);
}

pub proof fn lemma_shift_additions_rest(a: Seq<char>, b: Seq<char>, d: int, i: int)
    requires
        same_text_from(a, b, d, i),
    ensures
        additions_rest(a, i) == shifted_end(additions_rest(b, i - d), d),
        additions_rest(a, i) matches Some(e) ==> i <= e <= a.len(),
    decreases a.len() - i,
{
    lemma_shift_wsc(a, b, d, i, ',', ELLIPSIS@);
    if let Some(i1) = wsc_char(a, i, ',') {
        lemma_shift_addition_item(a, b, d, i1);
        if let Some(i2) = addition_item(a, i1) {
            if moved_on(a, i, i2) {
                lemma_shift_additions_rest(a, b, d, i2);
            }
        }
    }
}

pub proof fn lemma_shift_extensions(a: Seq<char>, b: Seq<char>, d: int, p: int)
    requires
        same_text_from(a, b, d, p),
    ensures
        spec_extension_additions(a, p) == spec_extension_additions(b, p - d) + d,
        p <= spec_extension_additions(a, p) <= a.len(),
        ext_with_additions(a, p) == (ext_with_additions(b, p - d).0, ext_with_additions(b, p - d).1 + d),
        p <= ext_with_additions(a, p).1 <= a.len(),
{
    reveal(ext_with_additions);
    reveal(wsc_tag);
    reveal(spec_extension_additions);
    lemma_shift_additions(a, b, d, p);
    lemma_shift_skip_wsc(a, b, d, p);
    let q = skip_wsc(a, p);
    assert(skip_wsc(b, p - d) == q - d);
    if has_char(a, q, ',') {
        assert(has_char(b, q - d, ','));
        lemma_shift_wsc(a, b, d, q + 1, ',', ELLIPSIS@);
        if let Some(e) = wsc_tag(a, q + 1, ELLIPSIS@) {
            assert(extension_marker(b, q + 1 - d) == Some(e - d));
            lemma_shift_additions(a, b, d, e);
        } else {
            assert(extension_marker(b, q + 1 - d) is None);
        }
    } else {
        assert(!has_char(b, q - d, ','));
    }
}

proof fn lemma_shift_additions(a: Seq<char>, b: Seq<char>, d: int, p: int)
    requires
        same_text_from(a, b, d, p),
    ensures
        spec_extension_additions(a, p) == spec_extension_additions(b, p - d) + d,
        p <= spec_extension_additions(a, p) <= a.len(),
{
    reveal(spec_extension_additions);
    lemma_shift_wsc(a, b, d, p, ',', ELLIPSIS@);
    if let Some(q) = wsc_char(a, p, ',') {
        lemma_shift_skip_wsc(a, b, d, q);
        let q1 = skip_wsc(a, q);
        lemma_shift_addition_item(a, b, d, q1);
        if let Some(e) = addition_item(a, q1) {
            lemma_shift_additions_rest(a, b, d, e);
        }
    }
}

pub proof fn lemma_shift_unbalanced_close(a: Seq<char>, b: Seq<char>, d: int, p: int, depth: nat)
    requires
        same_text_from(a, b, d, p),
    ensures
        unbalanced_close(a, p, depth) == shifted_end(unbalanced_close(b, p - d, depth), d),
        unbalanced_close(a, p, depth) matches Some(c) ==> p <= c < a.len(),
    decreases a.len() - p,
{
    lemma_unbalanced_close(a, p, depth);
    if p < a.len() {
        if a[p] == '\\' {
            if p + 2 <= a.len() {
                lemma_shift_unbalanced_close(a, b, d, p + 2, depth);
            }
        } else if a[p] == '{' {
            lemma_shift_unbalanced_close(a, b, d, p + 1, depth + 1);
        } else if a[p] == '}' {
            if depth > 0 {
                lemma_shift_unbalanced_close(a, b, d, p + 1, (depth - 1) as nat);
            }
        } else {
            lemma_shift_unbalanced_close(a, b, d, p + 1, depth);
        }
    }
}

pub proof fn lemma_shift_single_value(a: Seq<char>, b: Seq<char>, d: int, p: int)
    requires
        same_text_from(a, b, d, p),
    ensures
        spec_single_value(a, p) == shifted(spec_single_value(b, p - d), d),
{
    reveal(open_paren);
    reveal(spec_single_value);
    reveal(ext_with_additions);
    reveal(spec_asn1_value);
    lemma_shift_open_paren(a, b, d, p);
    let (opened, q0) = open_paren(a, p);
    lemma_shift_skip_wsc(a, b, d, q0);
    let q = skip_wsc(a, q0);
    lemma_shift_asn1_value(a, b, d, q);
    if let Some((_, q1)) = spec_asn1_value(a, q) {
        lemma_shift_extensions(a, b, d, q1);
        lemma_shift_close_paren(a, b, d, ext_with_additions(a, q1).1, opened);
    }
}

pub proof fn lemma_shift_value_range(a: Seq<char>, b: Seq<char>, d: int, p: int)
    requires
        same_text_from(a, b, d, p),
    ensures
        spec_value_range(a, p) == shifted(spec_value_range(b, p - d), d),
{
    reveal(open_paren);
    reveal(spec_value_range);
    reveal(ext_with_additions);
    reveal(range_bounds);
    lemma_shift_open_paren(a, b, d, p);
    let (opened, q0) = open_paren(a, p);
    lemma_shift_skip_wsc(a, b, d, q0);
    let q = skip_wsc(a, q0);
    lemma_shift_range_bounds(a, b, d, q);
    if let Some((_, _, q1)) = range_bounds(a, q) {
        lemma_shift_extensions(a, b, d, q1);
        lemma_shift_close_paren(a, b, d, ext_with_additions(a, q1).1, opened);
    }
}

pub proof fn lemma_shift_pattern(a: Seq<char>, b: Seq<char>, d: int, p: int)
    requires
        same_text_from(a, b, d, p),
    ensures
        spec_pattern_constraint(a, p) == shifted(spec_pattern_constraint(b, p - d), d),
{
    reveal(open_paren);
    reveal(spec_pattern_constraint);
    reveal(tag_end);
    lemma_shift_open_paren(a, b, d, p);
    let (opened, q0) = open_paren(a, p);
    lemma_shift_skip_wsc(a, b, d, q0);
    let q = skip_wsc(a, q0);
    lemma_shift_has_tag(a, b, d, q, PATTERN@);
    if let Some(q1) = tag_end(a, q, PATTERN@) {
        lemma_shift_skip_wsc(a, b, d, q1);
        let q2 = skip_wsc(a, q1);
        if q2 < a.len() {
            lemma_shift_cstring_close(a, b, d, q2 + 1);
            lemma_cstring_close(a, q2 + 1);
            if let Some(c) = cstring_close(a, q2 + 1) {
                assert(a.subrange(q2 + 1, c) =~= b.subrange(q2 + 1 - d, c - d));
                lemma_shift_close_paren(a, b, d, c + 1, opened);
            }
        }
    }
}

pub proof fn lemma_shift_user_defined(a: Seq<char>, b: Seq<char>, d: int, p: int)
    requires
        same_text_from(a, b, d, p),
    ensures
        spec_user_defined_constraint(a, p) == shifted(spec_user_defined_constraint(b, p - d), d),
{
    reveal(open_paren);
    reveal(spec_user_defined_constraint);
    reveal(tag_end);
    lemma_shift_open_paren(a, b, d, p);
    let (opened, q0) = open_paren(a, p);
    lemma_shift_skip_wsc(a, b, d, q0);
    let q = skip_wsc(a, q0);
    lemma_shift_has_tag(a, b, d, q, CONSTRAINED_BY@);
    if let Some(q1) = tag_end(a, q, CONSTRAINED_BY@) {
        lemma_shift_skip_wsc(a, b, d, q1);
        let q2 = skip_wsc(a, q1);
        if q2 < a.len() {
            lemma_shift_unbalanced_close(a, b, d, q2 + 1, 0);
            if let Some(c) = unbalanced_close(a, q2 + 1, 0) {
                assert(a.subrange(q2 + 1, c) =~= b.subrange(q2 + 1 - d, c - d));
                lemma_shift_close_paren(a, b, d, c + 1, opened);
            }
        }
    }
}

pub proof fn lemma_shift_dots_end(a: Seq<char>, b: Seq<char>, d: int, p: int)
    requires
        same_text_from(a, b, d, p),
    ensures
        dots_end(a, p) == dots_end(b, p - d) + d,
        p <= dots_end(a, p) <= a.len(),
    decreases a.len() - p,
{
    lemma_dots_end(a, p);
    if has_char(a, p, '.') {
        lemma_shift_dots_end(a, b, d, p + 1);
    }
}

pub proof fn lemma_shift_relational(a: Seq<char>, b: Seq<char>, d: int, p: int)
    requires
        same_text_from(a, b, d, p),
    ensures
        spec_relational_constraint(a, p) == shifted(spec_relational_constraint(b, p - d), d),
        within(spec_relational_constraint(a, p), a, p),
{
    lemma_shift_skip_wsc(a, b, d, p);
    let q = skip_wsc(a, p);
    if has_char(a, q, '@') {
        lemma_shift_dots_end(a, b, d, q + 1);
        lemma_shift_identifier(a, b, d, dots_end(a, q + 1));
    }
}

pub proof fn lemma_shift_relational_rest(
    a: Seq<char>,
    b: Seq<char>,
    d: int,
    i: int,
    acc: Seq<SpecRelationalConstraint>,
)
    requires
        same_text_from(a, b, d, i),
    ensures
        relational_rest(a, i, acc) == shifted(relational_rest(b, i - d, acc), d),
        within(relational_rest(a, i, acc), a, i),
    decreases a.len() - i,
{
    lemma_shift_wsc(a, b, d, i, ',', ELLIPSIS@);
    if let Some(i1) = wsc_char(a, i, ',') {
        lemma_shift_relational(a, b, d, i1);
        if let Some((r, i2)) = spec_relational_constraint(a, i1) {
            if moved_on(a, i, i2) {
                lemma_shift_relational_rest(a, b, d, i2, acc.push(r));
            }
        }
    }
}

pub proof fn lemma_shift_linked_fields(a: Seq<char>, b: Seq<char>, d: int, p: int)
    requires
        same_text_from(a, b, d, p),
    ensures
        linked_fields(a, p) == shifted(linked_fields(b, p - d), d),
        within(linked_fields(a, p), a, p),
{
    reveal(linked_fields);
    reveal(wsc_char);
    lemma_shift_wsc(a, b, d, p, '{', ELLIPSIS@);
    if let Some(q1) = wsc_char(a, p, '{') {
        lemma_shift_skip_wsc(a, b, d, q1);
        lemma_shift_relational(a, b, d, skip_wsc(a, q1));
        if let Some((r, q2)) = spec_relational_constraint(a, skip_wsc(a, q1)) {
            lemma_shift_relational_rest(a, b, d, q2, seq![r]);
            if let Some((_, q3)) = relational_rest(a, q2, seq![r]) {
                lemma_shift_wsc(a, b, d, q3, '}', ELLIPSIS@);
            }
        }
    }
}

pub proof fn lemma_shift_object_identifier_arc(a: Seq<char>, b: Seq<char>, d: int, p: int)
    requires
        same_text_from(a, b, d, p),
    ensures
        spec_object_identifier_arc(a, p) == shifted(spec_object_identifier_arc(b, p - d), d),
        within(spec_object_identifier_arc(a, p), a, p),
{
    lemma_object_identifier_arc(a, p);
    lemma_shift_ws_end(a, b, d, p);
    let q = ws_end(a, p);
    lemma_shift_numbers(a, b, d, q);
    lemma_shift_identifier(a, b, d, q);
    if let Some((_, q1)) = identifier(a, q) {
        lemma_shift_ws_end(a, b, d, q1);
        let q2 = ws_end(a, q1);
        lemma_shift_wsc(a, b, d, q2, '(', ELLIPSIS@);
        if let Some(r1) = wsc_char(a, q2, '(') {
            lemma_shift_skip_wsc(a, b, d, r1);
            let r = skip_wsc(a, r1);
            lemma_shift_numbers(a, b, d, r);
            if let Some((_, r2)) = unsigned_at(a, r) {
                lemma_shift_wsc(a, b, d, r2, ')', ELLIPSIS@);
            }
        }
    }
}

pub proof fn lemma_shift_object_identifier_arcs_rest(
    a: Seq<char>,
    b: Seq<char>,
    d: int,
    i: int,
    acc: Seq<SpecObjectIdentifierArc>,
)
    requires
        same_text_from(a, b, d, i),
    ensures
        object_identifier_arcs_rest(a, i, acc) == shifted(
            object_identifier_arcs_rest(b, i - d, acc),
            d,
        ),
        within(object_identifier_arcs_rest(a, i, acc), a, i),
    decreases a.len() - i,
{
    lemma_object_identifier_arcs_rest(a, i, acc);
    lemma_shift_ws_end(a, b, d, i);
    let q = ws_end(a, i);
    lemma_shift_object_identifier_arc(a, b, d, q);
    if let Some((x, q1)) = spec_object_identifier_arc(a, q) {
        if moved_on(a, i, q1) {
            lemma_shift_object_identifier_arcs_rest(a, b, d, q1, acc.push(x));
        }
    }
}

pub proof fn lemma_shift_numbers(a: Seq<char>, b: Seq<char>, d: int, p: int)
    requires
        same_text_from(a, b, d, p),
    ensures
        signed_at(a, p) == shifted(signed_at(b, p - d), d),
        unsigned_at(a, p) == shifted(unsigned_at(b, p - d), d),
        within(signed_at(a, p), a, p),
        within(unsigned_at(a, p), a, p),
{
    lemma_shift_digits_end(a, b, d, p);
    lemma_signed_at(a, p);
    lemma_unsigned_at(a, p);
}

pub proof fn lemma_shift_distinguished_value(a: Seq<char>, b: Seq<char>, d: int, p: int)
    requires
        same_text_from(a, b, d, p),
    ensures
        spec_distinguished_value(a, p) == shifted(spec_distinguished_value(b, p - d), d),
        within(spec_distinguished_value(a, p), a, p),
{
    lemma_distinguished_value(a, p);
    lemma_shift_identifier(a, b, d, p);
    if let Some((_, q1)) = identifier(a, p) {
        lemma_shift_wsc(a, b, d, q1, '(', ELLIPSIS@);
        if let Some(q2) = wsc_char(a, q1, '(') {
            lemma_shift_skip_wsc(a, b, d, q2);
            let r = skip_wsc(a, q2);
            lemma_shift_numbers(a, b, d, r);
            if let Some((_, q3)) = signed_at(a, r) {
                lemma_shift_wsc(a, b, d, q3, ')', ELLIPSIS@);
            }
        }
    }
}

pub proof fn lemma_shift_distinguished_values_rest(
    a: Seq<char>,
    b: Seq<char>,
    d: int,
    i: int,
    acc: Seq<SpecDistinguishedValue>,
)
    requires
        same_text_from(a, b, d, i),
    ensures
        distinguished_values_rest(a, i, acc) == shifted(distinguished_values_rest(b, i - d, acc), d),
        within(distinguished_values_rest(a, i, acc), a, i),
    decreases a.len() - i,
{
    lemma_shift_wsc(a, b, d, i, ',', ELLIPSIS@);
    if let Some(i1) = wsc_char(a, i, ',') {
        lemma_shift_distinguished_value(a, b, d, i1);
        if let Some((x, i2)) = spec_distinguished_value(a, i1) {
            if moved_on(a, i, i2) {
                lemma_shift_distinguished_values_rest(a, b, d, i2, acc.push(x));
            }
        }
    }
}

pub proof fn lemma_shift_distinguished_values(a: Seq<char>, b: Seq<char>, d: int, p: int)
    requires
        same_text_from(a, b, d, p),
    ensures
        spec_distinguished_values(a, p) == shifted(spec_distinguished_values(b, p - d), d),
        within(spec_distinguished_values(a, p), a, p),
{
    lemma_shift_wsc(a, b, d, p, '{', ELLIPSIS@);
    if let Some(q1) = wsc_char(a, p, '{') {
        lemma_shift_skip_wsc(a, b, d, q1);
        let r = skip_wsc(a, q1);
        lemma_shift_distinguished_value(a, b, d, r);
        if let Some((x, q2)) = spec_distinguished_value(a, r) {
            lemma_shift_distinguished_values_rest(a, b, d, q2, seq![x]);
            if let Some((_, q3)) = distinguished_values_rest(a, q2, seq![x]) {
                lemma_shift_wsc(a, b, d, q3, '}', ELLIPSIS@);
            }
        }
    }
}

// The recursive part of the grammar, by induction on the measure that its
// parsers decrease.

#[verifier::spinoff_prover]
pub proof fn lemma_shift_table_constraint(a: Seq<char>, b: Seq<char>, d: int, p: int)
    requires
        same_text_from(a, b, d, p),
    ensures
        spec_table_constraint(a, p) == shifted(spec_table_constraint(b, p - d), d),
        within(spec_table_constraint(a, p), a, p),
    decreases a.len() - p, 40int,
{
    lemma_table_constraint(a, p);
    lemma_shift_open_paren(a, b, d, p);
    let (opened, q0) = open_paren(a, p);
    lemma_shift_skip_wsc(a, b, d, q0);
    let q = skip_wsc(a, q0);
    lemma_shift_object_set(a, b, d, q);
    if let Some((_, q1)) = spec_object_set(a, q) {
        lemma_shift_linked_fields(a, b, d, q1);
        let q2 = match linked_fields(a, q1) {
            Some((_, e)) => e,
            None => q1,
        };
        lemma_shift_close_paren(a, b, d, q2, opened);
    }
}

#[verifier::spinoff_prover]
#[verifier::rlimit(30)]
pub proof fn lemma_shift_object_set(a: Seq<char>, b: Seq<char>, d: int, p: int)
    requires
        same_text_from(a, b, d, p),
    ensures
        spec_object_set(a, p) == shifted(spec_object_set(b, p - d), d),
        within(spec_object_set(a, p), a, p),
    decreases a.len() - p, 39int,
{
    lemma_object_set(a, p);
    lemma_shift_wsc(a, b, d, p, '{', ELLIPSIS@);
    if let Some(q1) = wsc_char(a, p, '{') {
        assert(wsc_char(b, p - d, '{') == Some(q1 - d));
        lemma_shift_skip_wsc(a, b, d, q1);
        let q2 = skip_wsc(a, q1);
        assert(skip_wsc(b, q1 - d) == q2 - d);
        lemma_shift_object_set_value(a, b, d, q2);
        match spec_object_set_value(a, q2) {
            None => {
                assert(spec_object_set_value(b, q2 - d) is None);
                lemma_shift_markers(a, b, d, q2);
                lemma_shift_wsc(a, b, d, ext_marker_after(a, q2).1, '}', ELLIPSIS@);
            },
            Some((v, e)) => {
                assert(spec_object_set_value(b, q2 - d) == Some((v, e - d)));
                if in_between(a, q2, e) {
                    lemma_shift_object_set_rest(a, b, d, e, seq![v]);
                    if let Some((_, q3)) = spec_object_set_rest(a, e, seq![v]) {
                        lemma_shift_markers(a, b, d, q3);
                        lemma_shift_wsc(a, b, d, ext_marker_after(a, q3).1, '}', ELLIPSIS@);
                    }
                }
            },
        }
    } else {
        assert(wsc_char(b, p - d, '{') is None);
    }
}


#[verifier::spinoff_prover]
#[verifier::rlimit(30)]
pub proof fn lemma_shift_object_set_rest(
    a: Seq<char>,
    b: Seq<char>,
    d: int,
    i: int,
    acc: Seq<SpecObjectSetValue>,
)
    requires
        same_text_from(a, b, d, i),
    ensures
        spec_object_set_rest(a, i, acc) == shifted(spec_object_set_rest(b, i - d, acc), d),
        within(spec_object_set_rest(a, i, acc), a, i),
    decreases a.len() - i, 38int,
{
    lemma_object_set_rest(a, i, acc);
    lemma_shift_wsc(a, b, d, i, '|', ELLIPSIS@);
    if let Some(i1) = wsc_char(a, i, '|') {
        lemma_shift_object_set_value(a, b, d, i1);
        if let Some((v, i2)) = spec_object_set_value(a, i1) {
            if moved_on(a, i, i2) {
                lemma_shift_object_set_rest(a, b, d, i2, acc.push(v));
            }
        }
    }
}

#[verifier::spinoff_prover]
pub proof fn lemma_shift_object_set_value(a: Seq<char>, b: Seq<char>, d: int, p: int)
    requires
        same_text_from(a, b, d, p),
    ensures
        spec_object_set_value(a, p) == shifted(spec_object_set_value(b, p - d), d),
        within(spec_object_set_value(a, p), a, p),
    decreases a.len() - p, 37int,
{
    lemma_object_set_value(a, p);
    lemma_shift_information_object(a, b, d, p);
    lemma_shift_identifier(a, b, d, p);
}

#[verifier::spinoff_prover]
#[verifier::rlimit(40)]
pub proof fn lemma_shift_information_object(a: Seq<char>, b: Seq<char>, d: int, p: int)
    requires
        same_text_from(a, b, d, p),
    ensures
        spec_information_object(a, p) == shifted(spec_information_object(b, p - d), d),
        within(spec_information_object(a, p), a, p),
    decreases a.len() - p, 36int,
{
    lemma_information_object(a, p);
    lemma_shift_wsc(a, b, d, p, '{', ELLIPSIS@);
    if let Some(q1) = wsc_char(a, p, '{') {
        assert(wsc_char(b, p - d, '{') == Some(q1 - d));
        lemma_shift_skip_wsc(a, b, d, q1);
        let r = skip_wsc(a, q1);
        assert(skip_wsc(b, q1 - d) == r - d);
        if has_char(a, r, '&') {
            assert(has_char(b, r - d, '&'));
            lemma_shift_object_fields(a, b, d, r);
            if let Some((f, e)) = spec_object_fields(a, r) {
                assert(spec_object_fields(b, r - d) == Some((f, e - d)));
                lemma_shift_wsc(a, b, d, e, '}', ELLIPSIS@);
            } else {
                assert(spec_object_fields(b, r - d) is None);
            }
        } else {
            if r < a.len() {
                assert(a[r] == b[r - d]);
            }
            assert(!has_char(b, r - d, '&'));
            lemma_shift_syntax_tokens(a, b, d, r);
            if let Some((f, e)) = spec_syntax_tokens(a, r) {
                assert(spec_syntax_tokens(b, r - d) == Some((f, e - d)));
                lemma_shift_wsc(a, b, d, e, '}', ELLIPSIS@);
            } else {
                assert(spec_syntax_tokens(b, r - d) is None);
            }
        }
    } else {
        assert(wsc_char(b, p - d, '{') is None);
    }
}


#[verifier::spinoff_prover]
pub proof fn lemma_shift_object_fields(a: Seq<char>, b: Seq<char>, d: int, p: int)
    requires
        same_text_from(a, b, d, p),
    ensures
        spec_object_fields(a, p) == shifted(spec_object_fields(b, p - d), d),
        within(spec_object_fields(a, p), a, p),
    decreases a.len() - p, 35int,
{
    lemma_object_fields(a, p);
    lemma_shift_object_field(a, b, d, p);
    if let Some((f, q)) = spec_object_field(a, p) {
        if in_between(a, p, q) {
            lemma_shift_object_fields_rest(a, b, d, q, seq![f]);
        }
    }
}

#[verifier::spinoff_prover]
pub proof fn lemma_shift_object_fields_rest(
    a: Seq<char>,
    b: Seq<char>,
    d: int,
    i: int,
    acc: Seq<SpecInformationObjectField>,
)
    requires
        same_text_from(a, b, d, i),
    ensures
        spec_object_fields_rest(a, i, acc) == shifted(spec_object_fields_rest(b, i - d, acc), d),
        within(spec_object_fields_rest(a, i, acc), a, i),
    decreases a.len() - i, 34int,
{
    lemma_object_fields_rest(a, i, acc);
    lemma_shift_wsc(a, b, d, i, ',', ELLIPSIS@);
    if let Some(i1) = wsc_char(a, i, ',') {
        lemma_shift_object_field(a, b, d, i1);
        if let Some((f, i2)) = spec_object_field(a, i1) {
            if moved_on(a, i, i2) {
                lemma_shift_object_fields_rest(a, b, d, i2, acc.push(f));
            }
        }
    }
}

#[verifier::spinoff_prover]
#[verifier::rlimit(30)]
pub proof fn lemma_shift_object_field(a: Seq<char>, b: Seq<char>, d: int, p: int)
    requires
        same_text_from(a, b, d, p),
    ensures
        spec_object_field(a, p) == shifted(spec_object_field(b, p - d), d),
        within(spec_object_field(a, p), a, p),
    decreases a.len() - p, 33int,
{
    lemma_object_field(a, p);
    lemma_field_reference(a, p);
    lemma_shift_identifier(a, b, d, p);
    if let Some((_, q1)) = field_reference(a, p) {
        lemma_shift_asn1_type(a, b, d, q1);
        lemma_shift_asn1_value(a, b, d, q1);
    }
}

#[verifier::spinoff_prover]
pub proof fn lemma_shift_syntax_tokens(a: Seq<char>, b: Seq<char>, d: int, p: int)
    requires
        same_text_from(a, b, d, p),
    ensures
        spec_syntax_tokens(a, p) == shifted(spec_syntax_tokens(b, p - d), d),
        within(spec_syntax_tokens(a, p), a, p),
    decreases a.len() - p, 32int,
{
    lemma_syntax_tokens(a, p);
    lemma_shift_syntax_token(a, b, d, p);
    if let Some((t, q)) = spec_syntax_token(a, p) {
        if in_between(a, p, q) {
            lemma_shift_syntax_tokens_rest(a, b, d, q, seq![t]);
        }
    }
}

#[verifier::spinoff_prover]
pub proof fn lemma_shift_syntax_tokens_rest(
    a: Seq<char>,
    b: Seq<char>,
    d: int,
    i: int,
    acc: Seq<SpecSyntaxApplication>,
)
    requires
        same_text_from(a, b, d, i),
    ensures
        spec_syntax_tokens_rest(a, i, acc) == shifted(spec_syntax_tokens_rest(b, i - d, acc), d),
        within(spec_syntax_tokens_rest(a, i, acc), a, i),
    decreases a.len() - i, 31int,
{
    lemma_syntax_tokens_rest(a, i, acc);
    lemma_shift_syntax_token(a, b, d, i);
    if let Some((t, q)) = spec_syntax_token(a, i) {
        if moved_on(a, i, q) {
            lemma_shift_syntax_tokens_rest(a, b, d, q, acc.push(t));
        }
    }
}

#[verifier::spinoff_prover]
pub proof fn lemma_shift_syntax_token(a: Seq<char>, b: Seq<char>, d: int, p: int)
    requires
        same_text_from(a, b, d, p),
    ensures
        spec_syntax_token(a, p) == shifted(spec_syntax_token(b, p - d), d),
        within(spec_syntax_token(a, p), a, p),
    decreases a.len() - p, 30int,
{
    lemma_syntax_token(a, p);
    lemma_shift_identifier(a, b, d, p);
    lemma_shift_asn1_type(a, b, d, p);
    lemma_shift_asn1_value(a, b, d, p);
}

#[verifier::spinoff_prover]
pub proof fn lemma_shift_parameters(a: Seq<char>, b: Seq<char>, d: int, p: int)
    requires
        same_text_from(a, b, d, p),
    ensures
        spec_parameters(a, p) == shifted(spec_parameters(b, p - d), d),
        within(spec_parameters(a, p), a, p),
    decreases a.len() - p, 16int,
{
    lemma_parameters(a, p);
    lemma_shift_wsc(a, b, d, p, '{', ELLIPSIS@);
    if let Some(q1) = wsc_char(a, p, '{') {
        lemma_shift_skip_wsc(a, b, d, q1);
        let r = skip_wsc(a, q1);
        lemma_shift_parameter_list(a, b, d, r);
        if let Some((_, q2)) = spec_parameter_list(a, r) {
            lemma_shift_wsc(a, b, d, q2, '}', ELLIPSIS@);
        }
    }
}

#[verifier::spinoff_prover]
pub proof fn lemma_shift_parameter_list(a: Seq<char>, b: Seq<char>, d: int, p: int)
    requires
        same_text_from(a, b, d, p),
    ensures
        spec_parameter_list(a, p) == shifted(spec_parameter_list(b, p - d), d),
        within(spec_parameter_list(a, p), a, p),
    decreases a.len() - p, 43int,
{
    lemma_parameter_list(a, p);
    lemma_shift_parameter(a, b, d, p);
    if let Some((x, q)) = spec_parameter(a, p) {
        if in_between(a, p, q) {
            lemma_shift_parameter_rest(a, b, d, q, seq![x]);
        }
    }
}

#[verifier::spinoff_prover]
pub proof fn lemma_shift_parameter_rest(
    a: Seq<char>,
    b: Seq<char>,
    d: int,
    i: int,
    acc: Seq<SpecParameter>,
)
    requires
        same_text_from(a, b, d, i),
    ensures
        spec_parameter_rest(a, i, acc) == shifted(spec_parameter_rest(b, i - d, acc), d),
        within(spec_parameter_rest(a, i, acc), a, i),
    decreases a.len() - i, 42int,
{
    lemma_parameter_rest(a, i, acc);
    lemma_shift_wsc(a, b, d, i, ',', ELLIPSIS@);
    if let Some(i1) = wsc_char(a, i, ',') {
        lemma_shift_parameter(a, b, d, i1);
        if let Some((x, i2)) = spec_parameter(a, i1) {
            if moved_on(a, i, i2) {
                lemma_shift_parameter_rest(a, b, d, i2, acc.push(x));
            }
        }
    }
}

#[verifier::spinoff_prover]
pub proof fn lemma_shift_parameter(a: Seq<char>, b: Seq<char>, d: int, p: int)
    requires
        same_text_from(a, b, d, p),
    ensures
        spec_parameter(a, p) == shifted(spec_parameter(b, p - d), d),
        within(spec_parameter(a, p), a, p),
    decreases a.len() - p, 41int,
{
    lemma_parameter(a, p);
    lemma_shift_asn1_type(a, b, d, p);
    lemma_shift_asn1_value(a, b, d, p);
}

#[verifier::spinoff_prover]
pub proof fn lemma_shift_constraint(a: Seq<char>, b: Seq<char>, d: int, p: int)
    requires
        same_text_from(a, b, d, p),
    ensures
        spec_constraint(a, p) == shifted(spec_constraint(b, p - d), d),
        within(spec_constraint(a, p), a, p),
    decreases a.len() - p, 20int,
{
    lemma_constraint(a, p);
    lemma_shift_constraint_item(a, b, d, p);
    if let Some((c, q)) = spec_constraint_item(a, p) {
        if in_between(a, p, q) {
            lemma_shift_constraint_rest(a, b, d, q, seq![c]);
        }
    }
}

#[verifier::spinoff_prover]
pub proof fn lemma_shift_constraint_rest(
    a: Seq<char>,
    b: Seq<char>,
    d: int,
    i: int,
    acc: Seq<SpecConstraint>,
)
    requires
        same_text_from(a, b, d, i),
    ensures
        spec_constraint_rest(a, i, acc) == shifted(spec_constraint_rest(b, i - d, acc), d),
        within(spec_constraint_rest(a, i, acc), a, i),
    decreases a.len() - i, 19int,
{
    lemma_constraint_rest(a, i, acc);
    lemma_shift_constraint_item(a, b, d, i);
    if let Some((c, q)) = spec_constraint_item(a, i) {
        if moved_on(a, i, q) {
            lemma_shift_constraint_rest(a, b, d, q, acc.push(c));
        }
    }
}

#[verifier::spinoff_prover]
pub proof fn lemma_shift_constraint_item(a: Seq<char>, b: Seq<char>, d: int, p: int)
    requires
        same_text_from(a, b, d, p),
    ensures
        spec_constraint_item(a, p) == shifted(spec_constraint_item(b, p - d), d),
        within(spec_constraint_item(a, p), a, p),
    decreases a.len() - p, 18int,
{
    lemma_constraint_item(a, p);
    lemma_shift_single_constraint(a, b, d, p);
    lemma_shift_size_constraint(a, b, d, p);
    lemma_shift_parameters(a, b, d, p);
}

#[verifier::spinoff_prover]
pub proof fn lemma_shift_single_constraint(a: Seq<char>, b: Seq<char>, d: int, p: int)
    requires
        same_text_from(a, b, d, p),
    ensures
        spec_single_constraint(a, p) == shifted(spec_single_constraint(b, p - d), d),
        within(spec_single_constraint(a, p), a, p),
    decreases a.len() - p, 17int,
{
    lemma_single_constraint(a, p);
    lemma_shift_skip_wsc(a, b, d, p);
    let q = skip_wsc(a, p);
    lemma_shift_wsc(a, b, d, q, '(', ELLIPSIS@);
    if let Some(q1) = wsc_char(a, q, '(') {
        lemma_shift_skip_wsc(a, b, d, q1);
        let r = skip_wsc(a, q1);
        lemma_shift_table_constraint(a, b, d, r);
        lemma_shift_element_set(a, b, d, r);
        if let Some((_, e)) = spec_table_constraint(a, r) {
            lemma_shift_wsc(a, b, d, e, ')', ELLIPSIS@);
        }
        if let Some((_, e)) = spec_element_set(a, r) {
            lemma_shift_wsc(a, b, d, e, ')', ELLIPSIS@);
        }
    }
}

#[verifier::spinoff_prover]
pub proof fn lemma_shift_element_set(a: Seq<char>, b: Seq<char>, d: int, p: int)
    requires
        same_text_from(a, b, d, p),
    ensures
        spec_element_set(a, p) == shifted(spec_element_set(b, p - d), d),
        within(spec_element_set(a, p), a, p),
    decreases a.len() - p, 15int,
{
    lemma_element_set(a, p);
    lemma_shift_set_or_element(a, b, d, p);
    if let Some((_, q)) = spec_set_or_element(a, p) {
        lemma_shift_markers(a, b, d, q);
    }
}

#[verifier::spinoff_prover]
pub proof fn lemma_shift_set_or_element(a: Seq<char>, b: Seq<char>, d: int, p: int)
    requires
        same_text_from(a, b, d, p),
    ensures
        spec_set_or_element(a, p) == shifted(spec_set_or_element(b, p - d), d),
        within(spec_set_or_element(a, p), a, p),
    decreases a.len() - p, 14int,
{
    lemma_set_or_element(a, p);
    lemma_shift_set_operation(a, b, d, p);
    lemma_shift_subtype_element(a, b, d, p);
}

#[verifier::spinoff_prover]
pub proof fn lemma_shift_set_operation(a: Seq<char>, b: Seq<char>, d: int, p: int)
    requires
        same_text_from(a, b, d, p),
    ensures
        spec_set_operation(a, p) == shifted(spec_set_operation(b, p - d), d),
        within(spec_set_operation(a, p), a, p),
    decreases a.len() - p, 13int,
{
    lemma_set_operation(a, p);
    lemma_shift_subtype_element(a, b, d, p);
    if let Some((_, q1)) = spec_subtype_element(a, p) {
        if in_between(a, p, q1) {
            lemma_shift_markers(a, b, d, q1);
            lemma_set_operator_reads(a, q1);
            if let Some((_, q2)) = spec_set_operator(a, q1) {
                lemma_shift_set_or_element(a, b, d, q2);
            }
        }
    }
}

#[verifier::spinoff_prover]
pub proof fn lemma_shift_subtype_element(a: Seq<char>, b: Seq<char>, d: int, p: int)
    requires
        same_text_from(a, b, d, p),
    ensures
        spec_subtype_element(a, p) == shifted(spec_subtype_element(b, p - d), d),
        within(spec_subtype_element(a, p), a, p),
    decreases a.len() - p, 12int,
{
    lemma_subtype_element(a, p);
    lemma_shift_single_type_constraint(a, b, d, p);
    lemma_shift_multiple_type_constraints(a, b, d, p);
    lemma_shift_size_constraint(a, b, d, p);
    lemma_shift_pattern(a, b, d, p);
    lemma_shift_user_defined(a, b, d, p);
    lemma_shift_permitted_alphabet(a, b, d, p);
    lemma_shift_value_range(a, b, d, p);
    lemma_shift_single_value(a, b, d, p);
    lemma_shift_contained_subtype(a, b, d, p);
}

#[verifier::spinoff_prover]
pub proof fn lemma_shift_size_constraint(a: Seq<char>, b: Seq<char>, d: int, p: int)
    requires
        same_text_from(a, b, d, p),
    ensures
        spec_size_constraint(a, p) == shifted(spec_size_constraint(b, p - d), d),
        within(spec_size_constraint(a, p), a, p),
    decreases a.len() - p, 11int,
{
    lemma_size_constraint(a, p);
    lemma_shift_open_paren(a, b, d, p);
    let (opened, q0) = open_paren(a, p);
    lemma_shift_skip_wsc(a, b, d, q0);
    let q = skip_wsc(a, q0);
    lemma_shift_has_tag(a, b, d, q, SIZE@);
    reveal_strlit("SIZE");
    if let Some(q1) = tag_end(a, q, SIZE@) {
        lemma_shift_single_constraint(a, b, d, q1);
        if let Some((_, q2)) = spec_single_constraint(a, q1) {
            lemma_shift_close_paren(a, b, d, q2, opened);
        }
    }
}

#[verifier::spinoff_prover]
pub proof fn lemma_shift_permitted_alphabet(a: Seq<char>, b: Seq<char>, d: int, p: int)
    requires
        same_text_from(a, b, d, p),
    ensures
        spec_permitted_alphabet_constraint(a, p) == shifted(
            spec_permitted_alphabet_constraint(b, p - d),
            d,
        ),
        within(spec_permitted_alphabet_constraint(a, p), a, p),
    decreases a.len() - p, 11int,
{
    lemma_permitted_alphabet_constraint(a, p);
    lemma_shift_open_paren(a, b, d, p);
    let (opened, q0) = open_paren(a, p);
    lemma_shift_skip_wsc(a, b, d, q0);
    let q = skip_wsc(a, q0);
    lemma_shift_has_tag(a, b, d, q, FROM@);
    reveal_strlit("FROM");
    if let Some(q1) = tag_end(a, q, FROM@) {
        lemma_shift_wsc(a, b, d, q1, '(', ELLIPSIS@);
        if let Some(q2) = wsc_char(a, q1, '(') {
            lemma_shift_skip_wsc(a, b, d, q2);
            let r = skip_wsc(a, q2);
            lemma_shift_set_or_element(a, b, d, r);
            if let Some((_, q3)) = spec_set_or_element(a, r) {
                lemma_shift_wsc(a, b, d, q3, ')', ELLIPSIS@);
                if let Some(q4) = wsc_char(a, q3, ')') {
                    lemma_shift_close_paren(a, b, d, q4, opened);
                }
            }
        }
    }
}

#[verifier::spinoff_prover]
#[verifier::rlimit(30)]
pub proof fn lemma_shift_single_type_constraint(a: Seq<char>, b: Seq<char>, d: int, p: int)
    requires
        same_text_from(a, b, d, p),
    ensures
        spec_single_type_constraint(a, p) == shifted(spec_single_type_constraint(b, p - d), d),
        within(spec_single_type_constraint(a, p), a, p),
    decreases a.len() - p, 11int,
{
    lemma_single_type_constraint(a, p);
    lemma_shift_open_paren(a, b, d, p);
    let (opened, q0) = open_paren(a, p);
    assert(open_paren(b, p - d) == (opened, q0 - d));
    lemma_shift_skip_wsc(a, b, d, q0);
    let q = skip_wsc(a, q0);
    assert(skip_wsc(b, q0 - d) == q - d);
    lemma_shift_has_tag(a, b, d, q, WITH_COMPONENTS@);
    reveal_strlit("WITH COMPONENTS");
    if let Some(q1) = tag_end(a, q, WITH_COMPONENTS@) {
        assert(tag_end(b, q - d, WITH_COMPONENTS@) == Some(q1 - d));
        lemma_shift_wsc(a, b, d, q1, '{', ELLIPSIS@);
        if let Some(q2) = wsc_char(a, q1, '{') {
            assert(wsc_char(b, q1 - d, '{') == Some(q2 - d));
            lemma_shift_skip_wsc(a, b, d, q2);
            let r = skip_wsc(a, q2);
            assert(skip_wsc(b, q2 - d) == r - d);
            lemma_shift_markers(a, b, d, r);
            let (partial, q3) = partial_marker(a, r);
            assert(partial_marker(b, r - d) == (partial, q3 - d));
            lemma_shift_subset_members(a, b, d, q3);
            if let Some((cs, q4)) = spec_subset_members(a, q3) {
                assert(spec_subset_members(b, q3 - d) == Some((cs, q4 - d)));
                lemma_shift_wsc(a, b, d, q4, '}', ELLIPSIS@);
                if let Some(q5) = wsc_char(a, q4, '}') {
                    assert(wsc_char(b, q4 - d, '}') == Some(q5 - d));
                    lemma_shift_close_paren(a, b, d, q5, opened);
                } else {
                    assert(wsc_char(b, q4 - d, '}') is None);
                }
            } else {
                assert(spec_subset_members(b, q3 - d) is None);
            }
        } else {
            assert(wsc_char(b, q1 - d, '{') is None);
        }
    } else {
        assert(tag_end(b, q - d, WITH_COMPONENTS@) is None);
    }
}


#[verifier::spinoff_prover]
pub proof fn lemma_shift_multiple_type_constraints(a: Seq<char>, b: Seq<char>, d: int, p: int)
    requires
        same_text_from(a, b, d, p),
    ensures
        spec_multiple_type_constraints(a, p) == shifted(
            spec_multiple_type_constraints(b, p - d),
            d,
        ),
        within(spec_multiple_type_constraints(a, p), a, p),
    decreases a.len() - p, 11int,
{
    lemma_multiple_type_constraints(a, p);
    lemma_shift_open_paren(a, b, d, p);
    let (opened, q0) = open_paren(a, p);
    lemma_shift_skip_wsc(a, b, d, q0);
    let q = skip_wsc(a, q0);
    lemma_shift_has_tag(a, b, d, q, WITH_COMPONENT@);
    reveal_strlit("WITH COMPONENT");
    if let Some(q1) = tag_end(a, q, WITH_COMPONENT@) {
        lemma_shift_skip_wsc(a, b, d, q1);
        let q2 = skip_wsc(a, q1);
        lemma_shift_single_type_constraint(a, b, d, q2);
        lemma_shift_multiple_type_constraints(a, b, d, q2);
        if let Some((_, q3)) = spec_single_type_constraint(a, q2) {
            lemma_shift_close_paren(a, b, d, q3, opened);
        }
        if let Some((_, q3)) = spec_multiple_type_constraints(a, q2) {
            lemma_shift_close_paren(a, b, d, q3, opened);
        }
    }
}

#[verifier::spinoff_prover]
#[verifier::rlimit(30)]
pub proof fn lemma_shift_contained_subtype(a: Seq<char>, b: Seq<char>, d: int, p: int)
    requires
        same_text_from(a, b, d, p),
    ensures
        spec_contained_subtype(a, p) == shifted(spec_contained_subtype(b, p - d), d),
        within(spec_contained_subtype(a, p), a, p),
    decreases a.len() - p, 11int,
{
    lemma_contained_subtype(a, p);
    lemma_shift_open_paren(a, b, d, p);
    let (opened, q0) = open_paren(a, p);
    assert(open_paren(b, p - d) == (opened, q0 - d));
    lemma_shift_skip_wsc(a, b, d, q0);
    let q = skip_wsc(a, q0);
    assert(skip_wsc(b, q0 - d) == q - d);
    lemma_shift_has_tag(a, b, d, q, INCLUDES@);
    let q1 = match tag_end(a, q, INCLUDES@) {
        Some(e) => e,
        None => q,
    };
    assert(q1 - d == match tag_end(b, q - d, INCLUDES@) {
        Some(e) => e,
        None => q - d,
    });
    lemma_shift_skip_wsc(a, b, d, q1);
    let q2 = skip_wsc(a, q1);
    assert(skip_wsc(b, q1 - d) == q2 - d);
    lemma_shift_asn1_type(a, b, d, q2);
    if let Some((t, q3)) = spec_asn1_type(a, q2) {
        assert(spec_asn1_type(b, q2 - d) == Some((t, q3 - d)));
        lemma_shift_markers(a, b, d, q3);
        let (ext, q4) = ext_marker_after(a, q3);
        assert(ext_marker_after(b, q3 - d) == (ext, q4 - d));
        lemma_shift_close_paren(a, b, d, q4, opened);
    } else {
        assert(spec_asn1_type(b, q2 - d) is None);
    }
}


#[verifier::spinoff_prover]
pub proof fn lemma_shift_subset_members(a: Seq<char>, b: Seq<char>, d: int, p: int)
    requires
        same_text_from(a, b, d, p),
    ensures
        spec_subset_members(a, p) == shifted(spec_subset_members(b, p - d), d),
        within(spec_subset_members(a, p), a, p),
    decreases a.len() - p, 10int,
{
    lemma_subset_members(a, p);
    lemma_shift_member_item(a, b, d, p);
    if let Some((c, q)) = spec_member_item(a, p) {
        if in_between(a, p, q) {
            lemma_shift_subset_members_rest(a, b, d, q, seq![c]);
        }
    }
}

#[verifier::spinoff_prover]
pub proof fn lemma_shift_subset_members_rest(
    a: Seq<char>,
    b: Seq<char>,
    d: int,
    i: int,
    acc: Seq<SpecConstrainedComponent>,
)
    requires
        same_text_from(a, b, d, i),
    ensures
        spec_subset_members_rest(a, i, acc) == shifted(spec_subset_members_rest(b, i - d, acc), d),
        within(spec_subset_members_rest(a, i, acc), a, i),
    decreases a.len() - i, 9int,
{
    lemma_subset_members_rest(a, i, acc);
    lemma_shift_member_item(a, b, d, i);
    if let Some((c, q)) = spec_member_item(a, i) {
        if moved_on(a, i, q) {
            lemma_shift_subset_members_rest(a, b, d, q, acc.push(c));
        }
    }
}

#[verifier::spinoff_prover]
pub proof fn lemma_shift_member_item(a: Seq<char>, b: Seq<char>, d: int, p: int)
    requires
        same_text_from(a, b, d, p),
    ensures
        spec_member_item(a, p) == shifted(spec_member_item(b, p - d), d),
        within(spec_member_item(a, p), a, p),
    decreases a.len() - p, 8int,
{
    lemma_member_item(a, p);
    lemma_shift_subset_member(a, b, d, p);
    if let Some((_, q)) = spec_subset_member(a, p) {
        lemma_shift_wsc(a, b, d, q, ',', ELLIPSIS@);
    }
}

#[verifier::spinoff_prover]
#[verifier::rlimit(30)]
pub proof fn lemma_shift_subset_member(a: Seq<char>, b: Seq<char>, d: int, p: int)
    requires
        same_text_from(a, b, d, p),
    ensures
        spec_subset_member(a, p) == shifted(spec_subset_member(b, p - d), d),
        within(spec_subset_member(a, p), a, p),
    decreases a.len() - p, 7int,
{
    lemma_subset_member(a, p);
    lemma_shift_skip_wsc(a, b, d, p);
    let q = skip_wsc(a, p);
    lemma_shift_identifier(a, b, d, q);
    lemma_identifier(a, q);
    if let Some((_, q1)) = identifier(a, q) {
        lemma_shift_skip_wsc(a, b, d, q1);
        let r = skip_wsc(a, q1);
        lemma_shift_constraint(a, b, d, r);
        let q2 = match spec_constraint(a, r) {
            Some((_, e)) => e,
            None => q1,
        };
        lemma_shift_skip_wsc(a, b, d, q2);
        let t = skip_wsc(a, q2);
        lemma_shift_has_tag(a, b, d, t, PRESENT@);
        lemma_shift_has_tag(a, b, d, t, ABSENT@);
    }
}

#[verifier::spinoff_prover]
pub proof fn lemma_shift_asn1_type(a: Seq<char>, b: Seq<char>, d: int, p: int)
    requires
        same_text_from(a, b, d, p),
    ensures
        spec_asn1_type(a, p) == shifted(spec_asn1_type(b, p - d), d),
        within(spec_asn1_type(a, p), a, p),
    decreases a.len() - p, 6int,
{
    lemma_asn1_type(a, p);
    lemma_shift_boolean(a, b, d, p);
    lemma_shift_object_identifier(a, b, d, p);
    lemma_shift_integer(a, b, d, p);
    lemma_shift_elsewhere_declared_type(a, b, d, p);
}

#[verifier::spinoff_prover]
pub proof fn lemma_shift_elsewhere_declared_type(a: Seq<char>, b: Seq<char>, d: int, p: int)
    requires
        same_text_from(a, b, d, p),
    ensures
        spec_elsewhere_declared_type(a, p) == shifted(spec_elsewhere_declared_type(b, p - d), d),
        within(spec_elsewhere_declared_type(a, p), a, p),
    decreases a.len() - p, 5int,
{
    lemma_elsewhere_declared_type(a, p);
    lemma_shift_skip_wsc(a, b, d, p);
    let q = skip_wsc(a, p);
    lemma_shift_identifier(a, b, d, q);
    lemma_identifier(a, q);
    if let Some((_, q1)) = type_reference(a, q) {
        lemma_shift_skip_wsc(a, b, d, q1);
        lemma_shift_constraint(a, b, d, skip_wsc(a, q1));
    }
}

#[verifier::spinoff_prover]
pub proof fn lemma_shift_boolean(a: Seq<char>, b: Seq<char>, d: int, p: int)
    requires
        same_text_from(a, b, d, p),
    ensures
        spec_boolean(a, p) == shifted(spec_boolean(b, p - d), d),
        within(spec_boolean(a, p), a, p),
    decreases a.len() - p, 5int,
{
    lemma_boolean(a, p);
    lemma_shift_wsc(a, b, d, p, '(', BOOLEAN@);
    reveal_strlit("BOOLEAN");
    if let Some(q1) = wsc_tag(a, p, BOOLEAN@) {
        lemma_shift_skip_wsc(a, b, d, q1);
        lemma_shift_constraint(a, b, d, skip_wsc(a, q1));
    }
}

#[verifier::spinoff_prover]
pub proof fn lemma_shift_object_identifier(a: Seq<char>, b: Seq<char>, d: int, p: int)
    requires
        same_text_from(a, b, d, p),
    ensures
        spec_object_identifier(a, p) == shifted(spec_object_identifier(b, p - d), d),
        within(spec_object_identifier(a, p), a, p),
    decreases a.len() - p, 5int,
{
    lemma_object_identifier(a, p);
    lemma_shift_wsc(a, b, d, p, '(', OBJECT_IDENTIFIER@);
    reveal_strlit("OBJECT IDENTIFIER");
    if let Some(q1) = wsc_tag(a, p, OBJECT_IDENTIFIER@) {
        lemma_shift_skip_wsc(a, b, d, q1);
        lemma_shift_constraint(a, b, d, skip_wsc(a, q1));
    }
}

#[verifier::spinoff_prover]
pub proof fn lemma_shift_integer(a: Seq<char>, b: Seq<char>, d: int, p: int)
    requires
        same_text_from(a, b, d, p),
    ensures
        spec_integer(a, p) == shifted(spec_integer(b, p - d), d),
        within(spec_integer(a, p), a, p),
    decreases a.len() - p, 5int,
{
    lemma_integer(a, p);
    lemma_shift_wsc(a, b, d, p, '(', INTEGER@);
    reveal_strlit("INTEGER");
    if let Some(q1) = wsc_tag(a, p, INTEGER@) {
        lemma_shift_distinguished_values(a, b, d, q1);
        let q2 = match spec_distinguished_values(a, q1) {
            Some((_, e)) => e,
            None => q1,
        };
        lemma_shift_skip_wsc(a, b, d, q2);
        lemma_shift_constraint(a, b, d, skip_wsc(a, q2));
    }
}




} // verus!
