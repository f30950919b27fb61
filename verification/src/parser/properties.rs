//! Properties that relate the parsers' results on different inputs or
//! positions.
use vstd::prelude::*;

use super::boolean::{spec_boolean, spec_boolean_value};
use super::common::{
    comment_end, has_char, has_tag, lemma_skip_wsc, lemma_skip_wsc_idempotent, lemma_tag_end, lemma_wsc_char, skip_wsc,
    tag_end, wsc_char, wsc_tag,
};
use super::constraint::{
    close_paren, ext_marker_after, open_paren, spec_extension_additions, spec_pattern_constraint, spec_asn1_type, spec_constraint, spec_contained_subtype,
    spec_element_set, spec_set_operation, spec_set_or_element, spec_subtype_element,
    spec_table_constraint, spec_constraint_item, spec_constraint_rest, spec_set_operator,
    spec_single_constraint, spec_size_constraint, spec_subset_members, spec_subset_members_rest,
    spec_member_item,
};
use super::object_identifier::{
    object_identifier_arcs_rest, spec_object_identifier, spec_object_identifier_arc,
    spec_object_identifier_value,
};
use super::information_object::{spec_object_set, spec_parameter_list, spec_parameters};
use super::integer::spec_integer;
use super::shift::{
    lemma_shift_asn1_type, lemma_shift_asn1_value, lemma_shift_boolean, lemma_shift_close_paren,
    lemma_shift_constraint, lemma_shift_element_set, lemma_shift_ext_marker, lemma_shift_has_tag, lemma_shift_integer,
    lemma_shift_markers, lemma_shift_object_identifier, lemma_shift_object_set,
    lemma_shift_parameters, lemma_shift_set_operation, lemma_shift_set_or_element,
    lemma_shift_single_constraint, lemma_shift_skip_wsc, lemma_shift_subtype_element,
    lemma_shift_table_constraint, same_text_from, shifted, shifted_end,
};
use super::value::{cstring_close, spec_asn1_value};
use super::progress::{
    lemma_constraint, lemma_constraint_item, lemma_constraint_rest, lemma_element_set,
    lemma_asn1_type, lemma_open_close, lemma_parameter_list, lemma_single_constraint, lemma_table_constraint,
};
use crate::intermediate::constraints::{
    SpecConstrainedComponent, SpecConstraint, SpecSubtypeElement, INCLUDES, PATTERN, SIZE,
};
use crate::intermediate::types::SpecObjectIdentifierArc;
use crate::intermediate::{SpecASN1Type, BOOLEAN, OBJECT_IDENTIFIER};

verus! {

broadcast use vstd::string::group_string_axioms;

/// White space and comments before a boolean value, a BOOLEAN or OBJECT
/// IDENTIFIER type, a set operator or an OBJECT IDENTIFIER value do not change
/// what is read: reading from `p` gives what reading from after them gives.
pub proof fn lemma_leading_layout_ignored(s: Seq<char>, p: int)
    requires
        0 <= p <= s.len(),
    ensures
        spec_boolean_value(s, p) == spec_boolean_value(s, skip_wsc(s, p)),
        spec_boolean(s, p) == spec_boolean(s, skip_wsc(s, p)),
        spec_object_identifier(s, p) == spec_object_identifier(s, skip_wsc(s, p)),
        spec_set_operator(s, p) == spec_set_operator(s, skip_wsc(s, p)),
        spec_object_identifier_value(s, p) == spec_object_identifier_value(s, skip_wsc(s, p)),
{
    reveal(spec_set_operator);
    reveal(wsc_char);
    reveal(tag_end);
    reveal(wsc_tag);
    lemma_skip_wsc_idempotent(s, p);
}

/// White space and comments before a constraint do not change what is read.
pub proof fn lemma_leading_layout_ignored_in_constraints(s: Seq<char>, p: int)
    requires
        0 <= p <= s.len(),
    ensures
        spec_single_constraint(s, p) == spec_single_constraint(s, skip_wsc(s, p)),
        spec_constraint(s, p) == spec_constraint(s, skip_wsc(s, p)),
{
    reveal(open_paren);
    reveal(wsc_char);
    reveal(tag_end);
    reveal(wsc_tag);
    let q = skip_wsc(s, p);
    lemma_skip_wsc(s, p);
    lemma_skip_wsc_idempotent(s, p);
    assert(open_paren(s, p).0 == open_paren(s, q).0);
    assert(skip_wsc(s, open_paren(s, p).1) == skip_wsc(s, open_paren(s, q).1)) by {
        lemma_skip_wsc_idempotent(s, open_paren(s, q).1);
    }
    assert(spec_size_constraint(s, p) == spec_size_constraint(s, q));
    assert(spec_constraint_item(s, p) == spec_constraint_item(s, q));
    lemma_constraint_item(s, q);
}

/// The keyword `OBJECT IDENTIFIER` before the braces of a value may be left
/// out: reading from before the keyword gives what reading from after it
/// gives (unless the keyword is written twice).
pub proof fn lemma_object_identifier_keyword_optional(s: Seq<char>, p: int)
    requires
        0 <= p <= s.len(),
        has_tag(s, skip_wsc(s, p), OBJECT_IDENTIFIER@),
        !has_tag(
            s,
            skip_wsc(s, skip_wsc(s, p) + OBJECT_IDENTIFIER@.len()),
            OBJECT_IDENTIFIER@,
        ),
    ensures
        spec_object_identifier_value(s, p) == spec_object_identifier_value(
            s,
            skip_wsc(s, p) + OBJECT_IDENTIFIER@.len(),
        ),
{
    reveal(wsc_char);
    reveal(tag_end);
    reveal(wsc_tag);
    let q1 = skip_wsc(s, p) + OBJECT_IDENTIFIER@.len();
    lemma_skip_wsc_idempotent(s, q1);
    assert(wsc_char(s, q1, '{') == wsc_char(s, skip_wsc(s, q1), '{'));
}

pub proof fn lemma_constraint_rest_grows(s: Seq<char>, i: int, acc: Seq<SpecConstraint>)
    ensures
        spec_constraint_rest(s, i, acc) matches Some((cs, _)) ==> cs.len() >= acc.len(),
    decreases s.len() - i,
{
    if let Some((c, q)) = spec_constraint_item(s, i) {
        if i < q <= s.len() {
            lemma_constraint_rest_grows(s, q, acc.push(c));
        }
    }
}

/// A list of constraints holds at least one constraint.
pub proof fn lemma_constraint_nonempty(s: Seq<char>, p: int)
    ensures
        spec_constraint(s, p) matches Some((cs, _)) ==> cs.len() >= 1,
{
    if let Some((c, q)) = spec_constraint_item(s, p) {
        lemma_constraint_rest_grows(s, q, seq![c]);
    }
}

pub proof fn lemma_members_rest_grows(
    s: Seq<char>,
    i: int,
    acc: Seq<SpecConstrainedComponent>,
)
    ensures
        spec_subset_members_rest(s, i, acc) matches Some((cs, _)) ==> cs.len() >= acc.len(),
    decreases s.len() - i,
{
    if let Some((c, q)) = spec_member_item(s, i) {
        if i < q <= s.len() {
            lemma_members_rest_grows(s, q, acc.push(c));
        }
    }
}

/// `WITH COMPONENTS { ... }` lists at least one component.
pub proof fn lemma_subset_members_nonempty(s: Seq<char>, p: int)
    ensures
        spec_subset_members(s, p) matches Some((cs, _)) ==> cs.len() >= 1,
{
    if let Some((c, q)) = spec_member_item(s, p) {
        lemma_members_rest_grows(s, q, seq![c]);
    }
}

pub proof fn lemma_arcs_rest_grows(s: Seq<char>, i: int, acc: Seq<SpecObjectIdentifierArc>)
    ensures
        object_identifier_arcs_rest(s, i, acc) matches Some((arcs, _)) ==> arcs.len()
            >= acc.len(),
    decreases s.len() - i,
{
    if let Some((a, q)) = spec_object_identifier_arc(s, super::common::ws_end(s, i)) {
        if i < q <= s.len() {
            lemma_arcs_rest_grows(s, q, acc.push(a));
        }
    }
}

/// An OBJECT IDENTIFIER value has at least one arc.
pub proof fn lemma_object_identifier_value_nonempty(s: Seq<char>, p: int)
    ensures
        spec_object_identifier_value(s, p) matches Some((arcs, _)) ==> arcs.len() >= 1,
{
    let q = skip_wsc(s, p);
    let q1 = match super::common::tag_end(s, q, OBJECT_IDENTIFIER@) {
        Some(e) => e,
        None => q,
    };
    if let Some(q2) = wsc_char(s, q1, '{') {
        let r = skip_wsc(s, q2);
        if let Some((a, r1)) = spec_object_identifier_arc(s, super::common::ws_end(s, r)) {
            lemma_arcs_rest_grows(s, r1, seq![a]);
        }
    }
}

/// A list of constraints that matches reads at least one character.
pub proof fn lemma_constraint_reads(s: Seq<char>, p: int)
    requires
        0 <= p <= s.len(),
    ensures
        spec_constraint(s, p) matches Some((_, e)) ==> p < e <= s.len(),
        spec_constraint_item(s, p) matches Some((_, e)) ==> p < e <= s.len(),
{
    lemma_constraint(s, p);
    lemma_skip_wsc(s, p);
    let q = skip_wsc(s, p);
    lemma_wsc_char(s, q, '(');
    if let Some(q1) = wsc_char(s, q, '(') {
        lemma_skip_wsc(s, q1);
        let r = skip_wsc(s, q1);
        lemma_table_constraint(s, r);
        lemma_element_set(s, r);
        if let Some((_, e)) = spec_table_constraint(s, r) {
            lemma_wsc_char(s, e, ')');
        }
        if let Some((_, e)) = spec_element_set(s, r) {
            lemma_wsc_char(s, e, ')');
        }
    }
    let (opened, q0) = open_paren(s, p);
    lemma_open_close(s, p, opened, p);
    lemma_skip_wsc(s, q0);
    let q2 = skip_wsc(s, q0);
    lemma_tag_end(s, q2, SIZE@);
    reveal_strlit("SIZE");
    if let Some(q3) = tag_end(s, q2, SIZE@) {
        lemma_single_constraint(s, q3);
        if let Some((_, q4)) = spec_single_constraint(s, q3) {
            lemma_open_close(s, p, opened, q4);
        }
    }
    lemma_wsc_char(s, p, '{');
    if let Some(q1) = wsc_char(s, p, '{') {
        lemma_skip_wsc(s, q1);
        let r = skip_wsc(s, q1);
        lemma_parameter_list(s, r);
        if let Some((_, q4)) = spec_parameter_list(s, r) {
            lemma_wsc_char(s, q4, '}');
        }
    }
    if let Some((c, q5)) = spec_constraint_item(s, p) {
        lemma_constraint_rest(s, q5, seq![c]);
    }
}

/// What a parser reads from a position depends only on the text from that
/// position on: put any text `t` before `s`, and each parser gives at
/// `t.len() + p` what it gives at `p` in `s`, its end moved by `t.len()`.
pub proof fn lemma_text_before_ignored(t: Seq<char>, s: Seq<char>, p: int)
    requires
        0 <= p <= s.len(),
    ensures
        spec_constraint(t + s, t.len() + p) == shifted(spec_constraint(s, p), t.len() as int),
        spec_single_constraint(t + s, t.len() + p) == shifted(
            spec_single_constraint(s, p),
            t.len() as int,
        ),
        spec_table_constraint(t + s, t.len() + p) == shifted(
            spec_table_constraint(s, p),
            t.len() as int,
        ),
        spec_object_set(t + s, t.len() + p) == shifted(spec_object_set(s, p), t.len() as int),
        spec_parameters(t + s, t.len() + p) == shifted(spec_parameters(s, p), t.len() as int),
        spec_element_set(t + s, t.len() + p) == shifted(spec_element_set(s, p), t.len() as int),
        spec_set_or_element(t + s, t.len() + p) == shifted(
            spec_set_or_element(s, p),
            t.len() as int,
        ),
        spec_set_operation(t + s, t.len() + p) == shifted(
            spec_set_operation(s, p),
            t.len() as int,
        ),
        spec_subtype_element(t + s, t.len() + p) == shifted(
            spec_subtype_element(s, p),
            t.len() as int,
        ),
        spec_set_operator(t + s, t.len() + p) == shifted(spec_set_operator(s, p), t.len() as int),
        spec_asn1_type(t + s, t.len() + p) == shifted(spec_asn1_type(s, p), t.len() as int),
        spec_boolean(t + s, t.len() + p) == shifted(spec_boolean(s, p), t.len() as int),
        spec_object_identifier(t + s, t.len() + p) == shifted(
            spec_object_identifier(s, p),
            t.len() as int,
        ),
        spec_integer(t + s, t.len() + p) == shifted(spec_integer(s, p), t.len() as int),
        spec_asn1_value(t + s, t.len() + p) == shifted(spec_asn1_value(s, p), t.len() as int),
        spec_boolean_value(t + s, t.len() + p) == shifted(
            spec_boolean_value(s, p),
            t.len() as int,
        ),
{
    let u = t + s;
    let n = t.len() as int;
    assert(same_text_from(u, s, n, n + p)) by {
        assert forall|i: int| n + p <= i < u.len() implies #[trigger] u[i] == s[i - n] by {}
    }
    lemma_shift_constraint(u, s, n, n + p);
    lemma_shift_single_constraint(u, s, n, n + p);
    lemma_shift_table_constraint(u, s, n, n + p);
    lemma_shift_object_set(u, s, n, n + p);
    lemma_shift_parameters(u, s, n, n + p);
    lemma_shift_element_set(u, s, n, n + p);
    lemma_shift_set_or_element(u, s, n, n + p);
    lemma_shift_set_operation(u, s, n, n + p);
    lemma_shift_subtype_element(u, s, n, n + p);
    lemma_shift_markers(u, s, n, n + p);
    lemma_shift_asn1_type(u, s, n, n + p);
    lemma_shift_boolean(u, s, n, n + p);
    lemma_shift_object_identifier(u, s, n, n + p);
    lemma_shift_integer(u, s, n, n + p);
    lemma_shift_asn1_value(u, s, n, n + p);
}

/// `BOOLEAN` followed by a space and a constraint list reads as a BOOLEAN
/// type with those constraints; where no constraint list follows, the type
/// has none and the match ends after the space.
pub proof fn lemma_boolean_then_constraint(s: Seq<char>)
    requires
        s.len() > 0,
        s[0] == '(',
    ensures
        spec_boolean(BOOLEAN@ + seq![' '] + s, 0) == match spec_constraint(s, 0) {
            Some((cs, e)) => Some((SpecASN1Type::Boolean(cs), e + 8)),
            None => Some((SpecASN1Type::Boolean(Seq::empty()), 8int)),
        },
{
    reveal_strlit("BOOLEAN");
    reveal(wsc_tag);
    reveal(tag_end);
    reveal(comment_end);
    let u = BOOLEAN@ + seq![' '] + s;
    assert(u.len() == s.len() + 8);
    assert(same_text_from(u, s, 8, 8)) by {
        assert forall|i: int| 8 <= i < u.len() implies #[trigger] u[i] == s[i - 8] by {}
    }
    assert(u[0] == 'B');
    assert(skip_wsc(u, 0) == 0);
    assert(u.subrange(0, 7) =~= BOOLEAN@);
    assert(wsc_tag(u, 0, BOOLEAN@) == Some(7int));
    assert(u[7] == ' ');
    assert(u[8] == '(');
    assert(skip_wsc(u, 8) == 8);
    assert(skip_wsc(u, 7) == 8);
    lemma_shift_constraint(u, s, 8, 8);
}

/// The keyword `INCLUDES` before a contained subtype changes nothing: with
/// it, the element reads as without it (where the text does not start with
/// `INCLUDES` already), its end moved by the keyword and its space.
pub proof fn lemma_includes_optional(x: Seq<char>)
    requires
        !has_tag(x, skip_wsc(x, 0), INCLUDES@),
    ensures
        spec_contained_subtype(seq!['('] + INCLUDES@ + seq![' '] + x, 0) == shifted(
            spec_contained_subtype(seq!['('] + x, 0),
            9,
        ),
{
    reveal_strlit("INCLUDES");
    let u1 = seq!['('] + INCLUDES@ + seq![' '] + x;
    let u2 = seq!['('] + x;
    assert(u1.len() == x.len() + 10);
    assert(same_text_from(u1, x, 10, 10)) by {
        assert forall|i: int| 10 <= i < u1.len() implies #[trigger] u1[i] == x[i - 10] by {}
    }
    assert(same_text_from(u2, x, 1, 1)) by {
        assert forall|i: int| 1 <= i < u2.len() implies #[trigger] u2[i] == x[i - 1] by {}
    }
    lemma_skip_wsc(x, 0);
    let q = skip_wsc(x, 0);
    assert(open_paren(u1, 0) == (true, 1int)) by {
        reveal(open_paren);
        reveal(wsc_char);
        reveal(comment_end);
        assert(u1[0] == '(');
        assert(skip_wsc(u1, 0) == 0);
    }
    assert(open_paren(u2, 0) == (true, 1int)) by {
        reveal(open_paren);
        reveal(wsc_char);
        reveal(comment_end);
        assert(u2[0] == '(');
        assert(skip_wsc(u2, 0) == 0);
    }
    assert(skip_wsc(u1, 1) == 1) by {
        reveal(comment_end);
        assert(u1[1] == 'I');
    }
    assert(tag_end(u1, 1, INCLUDES@) == Some(9int)) by {
        reveal(tag_end);
        assert(u1.subrange(1, 9) =~= INCLUDES@);
    }
    assert(skip_wsc(u1, 9) == q + 10) by {
        assert(u1[9] == ' ');
        lemma_shift_skip_wsc(u1, x, 10, 10);
    }
    lemma_shift_skip_wsc(u2, x, 1, 1);
    assert(tag_end(x, q, INCLUDES@) is None) by {
        reveal(tag_end);
    }
    lemma_shift_has_tag(u2, x, 1, q + 1, INCLUDES@);
    lemma_skip_wsc_idempotent(u2, 1);
    contained_subtype_after_keyword(u1, u2, x, q);
}

/// The two readings of a contained subtype, with and without `INCLUDES`,
/// once the texts are known to go on alike after the keyword.
proof fn contained_subtype_after_keyword(u1: Seq<char>, u2: Seq<char>, x: Seq<char>, q: int)
    requires
        same_text_from(u1, x, 10, 10),
        same_text_from(u2, x, 1, 1),
        0 <= q <= x.len(),
        open_paren(u1, 0) == (true, 1int),
        open_paren(u2, 0) == (true, 1int),
        skip_wsc(u1, 1) == 1,
        tag_end(u1, 1, INCLUDES@) == Some(9int),
        skip_wsc(u1, 9) == q + 10,
        skip_wsc(u2, 1) == q + 1,
        tag_end(u2, q + 1, INCLUDES@) is None,
        skip_wsc(u2, q + 1) == q + 1,
    ensures
        spec_contained_subtype(u1, 0) == shifted(spec_contained_subtype(u2, 0), 9),
{
    lemma_shift_asn1_type(u1, x, 10, q + 10);
    lemma_shift_asn1_type(u2, x, 1, q + 1);
    lemma_asn1_type(x, q);
    if let Some((ty, e)) = spec_asn1_type(x, q) {
        lemma_shift_ext_marker(u1, x, 10, e + 10);
        lemma_shift_ext_marker(u2, x, 1, e + 1);
        let (ext, q4) = ext_marker_after(x, e);
        lemma_shift_close_paren(u1, x, 10, q4 + 10, true);
        lemma_shift_close_paren(u2, x, 1, q4 + 1, true);
    }
}


/// Extension additions never fail, and where no `,` follows (after white
/// space and comments) nothing is read.
pub proof fn lemma_no_additions_without_comma(s: Seq<char>, p: int)
    requires
        0 <= p <= s.len(),
        !has_char(s, skip_wsc(s, p), ','),
    ensures
        spec_extension_additions(s, p) == p,
{
    reveal(spec_extension_additions);
    reveal(wsc_char);
}

/// The pattern of `PATTERN "..."` is the text between the quotation marks,
/// exactly as written.
pub proof fn lemma_pattern_verbatim(x: Seq<char>)
    requires
        forall|i: int| 0 <= i < x.len() ==> x[i] != '"',
    ensures
        spec_pattern_constraint(PATTERN@ + seq![' ', '"'] + x + seq!['"'], 0) == Some(
            (SpecSubtypeElement::PatternConstraint(x), x.len() + 10int),
        ),
{
    reveal_strlit("PATTERN");
    let u = PATTERN@ + seq![' ', '"'] + x + seq!['"'];
    let c: int = x.len() as int + 9;
    assert(u.len() == c + 1);
    assert(u[0] == 'P');
    assert(open_paren(u, 0) == (false, 0int)) by {
        reveal(open_paren);
        reveal(wsc_char);
        reveal(comment_end);
        assert(skip_wsc(u, 0) == 0);
    }
    assert(skip_wsc(u, 0) == 0) by {
        reveal(comment_end);
    }
    assert(tag_end(u, 0, PATTERN@) == Some(7int)) by {
        reveal(tag_end);
        assert(u.subrange(0, 7) =~= PATTERN@);
    }
    assert(u[7] == ' ');
    assert(u[8] == '"');
    assert(skip_wsc(u, 8) == 8) by {
        reveal(comment_end);
    }
    assert(skip_wsc(u, 7) == 8);
    assert forall|i: int| 9 <= i < c implies #[trigger] u[i] != '"' by {
        assert(u[i] == x[i - 9]);
    }
    assert(u[c] == '"');
    cstring_close_without_quotes(u, 9, c);
    assert(u.subrange(9, c) =~= x);
    assert(close_paren(u, false, c + 1) == Some(c + 1)) by {
        reveal(close_paren);
    }
    reveal(spec_pattern_constraint);
}

proof fn cstring_close_without_quotes(u: Seq<char>, i: int, c: int)
    requires
        0 <= i <= c,
        c + 1 == u.len(),
        u[c] == '"',
        forall|k: int| i <= k < c ==> #[trigger] u[k] != '"',
    ensures
        cstring_close(u, i) == Some(c),
    decreases c - i,
{
    if i < c {
        cstring_close_without_quotes(u, i + 1, c);
    }
}

} // verus!
