//! Laws that relate what the parsers read in one text to what they read in
//! another, and that take a parser's result apart into what it read.
use vstd::prelude::*;

use super::boolean::spec_boolean;
use super::common::{
    comment_end, has_tag, lemma_skip_wsc, lemma_skip_wsc_idempotent, skip_wsc, tag_end, wsc_char,
    wsc_tag,
};
use super::constraint::{
    close_paren, dots_end, relational_rest, ext_marker_after, ext_with_additions, spec_element_set,
    spec_relational_constraint, spec_single_value, spec_constraint_item, spec_constraint_rest,
    spec_permitted_alphabet_constraint, alphabet_elements, spec_single_constraint, spec_size_constraint, lemma_partial_marker,
    lemma_set_operator_reads, open_paren, partial_marker, range_bounds, range_lower, range_upper,
    spec_constraint, spec_extension_additions, spec_member_item, spec_subset_member,
    spec_subset_members, spec_subset_members_rest, spec_value_range, spec_asn1_type,
    spec_contained_subtype, spec_elsewhere_declared_type, spec_multiple_type_constraints,
    spec_set_operation, spec_set_operator, spec_set_or_element, spec_single_type_constraint,
    spec_subtype_element,
};
use super::integer::{spec_distinguished_values, spec_integer};
use super::information_object::{
    spec_object_set, spec_object_set_rest, spec_object_set_value, spec_parameter,
    spec_parameter_list, spec_parameter_rest,
};
use super::object_identifier::{
    object_identifier_arcs_rest, spec_object_identifier, spec_object_identifier_arc,
    spec_object_identifier_value,
};
use super::progress::{lemma_asn1_type, lemma_object_identifier_arc, lemma_parameter};
use super::properties::{lemma_constraint_reads, lemma_includes_optional};
use super::shift::{
    lemma_shift_asn1_type, lemma_shift_constraint, lemma_shift_ext_marker, lemma_shift_close_paren,
    lemma_shift_object_identifier_arc, lemma_shift_object_identifier_arcs_rest,
    lemma_shift_single_constraint, lemma_shift_single_type_constraint, lemma_shift_skip_wsc, lemma_shift_ws_end, lemma_shift_wsc,
    same_text_from, shifted,
};
use super::common::{
    extension_marker, has_char, identifier, type_reference, lemma_tag_end, lemma_ws_end, lemma_wsc_char, lemma_wsc_tag, range_separator, ws_end, ELLIPSIS, RANGE,
};
use super::input::moved_on;
use super::progress::{lemma_member_item, lemma_open_close, lemma_range_bounds, lemma_subset_members};
use super::properties::lemma_subset_members_nonempty;
use super::value::spec_asn1_value;
use crate::intermediate::constraints::{
    ComponentPresence, SpecConstrainedComponent, SpecConstraint, SpecElementOrSetOperation,
    SpecObjectSetValue, SpecRelationalConstraint,
    SpecElementSet,
    SetOperator, SpecInnerTypeConstraint, SpecSubtypeElement, ABSENT, CARET, EXCEPT, INCLUDES,
    INTERSECTION, FROM, MAX, MIN, PIPE, PRESENT, SIZE, UNION,
    WITH_COMPONENT, WITH_COMPONENTS,
};
use crate::intermediate::information_object::SpecParameter;
use crate::intermediate::types::SpecObjectIdentifierArc;
use crate::intermediate::{SpecASN1Type, SpecASN1Value, INTEGER, OBJECT_IDENTIFIER};

verus! {

broadcast use vstd::string::group_string_axioms;

/// White space and comments before a type, or before `WITH COMPONENTS`, do
/// not change what is read.
pub proof fn lemma_leading_layout_ignored_in_types(s: Seq<char>, p: int)
    requires
        0 <= p <= s.len(),
    ensures
        spec_asn1_type(s, p) == spec_asn1_type(s, skip_wsc(s, p)),
        spec_single_type_constraint(s, p) == spec_single_type_constraint(s, skip_wsc(s, p)),
{
    reveal(wsc_tag);
    reveal(open_paren);
    reveal(wsc_char);
    lemma_skip_wsc(s, p);
    lemma_skip_wsc_idempotent(s, p);
    let q = skip_wsc(s, p);
    assert(spec_boolean(s, p) == spec_boolean(s, q));
    assert(spec_object_identifier(s, p) == spec_object_identifier(s, q));
    assert(spec_integer(s, p) == spec_integer(s, q));
    assert(spec_elsewhere_declared_type(s, p) == spec_elsewhere_declared_type(s, q));
    assert(open_paren(s, p).0 == open_paren(s, q).0);
    assert(skip_wsc(s, open_paren(s, p).1) == skip_wsc(s, open_paren(s, q).1)) by {
        lemma_skip_wsc_idempotent(s, open_paren(s, q).1);
    }
}

/// A chain of set operations read from `p` to `e`: each base is a single
/// subtype element, read where the previous operator ended, followed by its
/// operator; the last element stands alone.
pub open spec fn reads_in_order(s: Seq<char>, p: int, x: SpecElementOrSetOperation, e: int) -> bool
    decreases x,
{
    match x {
        SpecElementOrSetOperation::Element(v) => spec_subtype_element(s, p) == Some((v, e)),
        SpecElementOrSetOperation::SetOperation(o) => match spec_subtype_element(s, p) {
            Some((b, q1)) => b == o.base && match spec_set_operator(s, q1) {
                Some((op, q2)) => op == o.operator && p < q2 && reads_in_order(
                    s,
                    q2,
                    *o.operant,
                    e,
                ),
                None => false,
            },
            None => false,
        },
    }
}

/// Set operations over any number of elements nest to the right: the
/// elements and operators of the result are those of the text, in the order
/// in which they stand there, and only the last element stands alone.
pub proof fn lemma_set_operations_nest_right(s: Seq<char>, p: int)
    requires
        0 <= p <= s.len(),
    ensures
        spec_set_or_element(s, p) matches Some((x, e)) ==> reads_in_order(s, p, x, e),
    decreases s.len() - p,
{
    if let Some((o, e)) = spec_set_operation(s, p) {
        let (_, q1) = spec_subtype_element(s, p).unwrap();
        lemma_set_operator_reads(s, q1);
        let (_, q2) = spec_set_operator(s, q1).unwrap();
        lemma_set_operations_nest_right(s, q2);
    }
}

/// A type in parentheses reads as a contained subtype of that type, not
/// extensible, whether or not `INCLUDES` stands before it (where the text
/// of the type does not start with `INCLUDES` itself).
#[verifier::spinoff_prover]
pub proof fn lemma_contained_subtype_of_type(t: Seq<char>, ty: crate::intermediate::SpecASN1Type)
    requires
        spec_asn1_type(t + seq![')'], 0) == Some((ty, t.len() as int)),
        !has_tag(t + seq![')'], skip_wsc(t + seq![')'], 0), INCLUDES@),
    ensures
        spec_contained_subtype(seq!['('] + t + seq![')'], 0) == Some(
            (SpecSubtypeElement::ContainedSubtype { subtype: ty, extensible: false }, t.len() + 2int),
        ),
        spec_contained_subtype(seq!['('] + INCLUDES@ + seq![' '] + t + seq![')'], 0) == Some(
            (SpecSubtypeElement::ContainedSubtype { subtype: ty, extensible: false }, t.len() + 11int),
        ),
{
    reveal_strlit("INCLUDES");
    let x = t + seq![')'];
    let n = t.len() as int;
    assert(x[n] == ')');
    let u2 = seq!['('] + x;
    assert(u2 =~= seq!['('] + t + seq![')']);
    assert(seq!['('] + INCLUDES@ + seq![' '] + x =~= seq!['('] + INCLUDES@ + seq![' '] + t + seq![
        ')',
    ]);
    assert(same_text_from(u2, x, 1, 1)) by {
        assert forall|i: int| 1 <= i < u2.len() implies #[trigger] u2[i] == x[i - 1] by {}
    }
    lemma_skip_wsc(x, 0);
    let q = skip_wsc(x, 0);
    lemma_leading_layout_ignored_in_types(x, 0);
    assert(open_paren(u2, 0) == (true, 1int)) by {
        reveal(open_paren);
        reveal(wsc_char);
        reveal(comment_end);
        assert(u2[0] == '(');
        assert(skip_wsc(u2, 0) == 0);
    }
    closing_parenthesis(x, n);
    lemma_asn1_type(x, q);
    assert(tag_end(x, q, INCLUDES@) is None) by {
        reveal(tag_end);
    }
    lemma_shift_skip_wsc(u2, x, 1, 1);
    lemma_shift_has_tag_includes(u2, x, q);
    lemma_skip_wsc_idempotent(u2, 1);
    contained_subtype_in_parentheses(u2, x, q, ty, n);
    lemma_includes_optional(x);
}

proof fn closing_parenthesis(x: Seq<char>, n: int)
    requires
        0 <= n,
        x.len() == n + 1,
        x[n] == ')',
    ensures
        ext_marker_after(x, n) == (false, n),
        close_paren(x, true, n) == Some(n + 1),
{
    reveal(ext_marker_after);
    reveal(close_paren);
    reveal(wsc_char);
    reveal(comment_end);
    assert(skip_wsc(x, n) == n);
}

proof fn lemma_shift_has_tag_includes(u2: Seq<char>, x: Seq<char>, q: int)
    requires
        same_text_from(u2, x, 1, q + 1),
        tag_end(x, q, INCLUDES@) is None,
    ensures
        tag_end(u2, q + 1, INCLUDES@) is None,
{
    super::shift::lemma_shift_has_tag(u2, x, 1, q + 1, INCLUDES@);
}

proof fn contained_subtype_in_parentheses(
    u2: Seq<char>,
    x: Seq<char>,
    q: int,
    ty: crate::intermediate::SpecASN1Type,
    n: int,
)
    requires
        same_text_from(u2, x, 1, 1),
        0 <= q <= n < x.len(),
        open_paren(u2, 0) == (true, 1int),
        skip_wsc(u2, 1) == q + 1,
        tag_end(u2, q + 1, INCLUDES@) is None,
        skip_wsc(u2, q + 1) == q + 1,
        spec_asn1_type(x, q) == Some((ty, n)),
        ext_marker_after(x, n) == (false, n),
        close_paren(x, true, n) == Some(n + 1),
    ensures
        spec_contained_subtype(u2, 0) == Some(
            (SpecSubtypeElement::ContainedSubtype { subtype: ty, extensible: false }, n + 2),
        ),
{
    lemma_shift_asn1_type(u2, x, 1, q + 1);
    lemma_shift_ext_marker(u2, x, 1, n + 1);
    lemma_shift_close_paren(u2, x, 1, n + 1, true);
}

/// `WITH COMPONENT` before the text of a `WITH COMPONENTS` constraint reads
/// the same inner constraint; only the kind of element changes.
pub proof fn lemma_with_component_wraps(t: Seq<char>, c: SpecInnerTypeConstraint, e: int)
    requires
        spec_single_type_constraint(t, 0) == Some((SpecSubtypeElement::SingleTypeConstraint(c), e)),
    ensures
        spec_multiple_type_constraints(WITH_COMPONENT@ + seq![' '] + t, 0) == Some(
            (SpecSubtypeElement::MultipleTypeConstraints(c), e + 15),
        ),
{
    reveal_strlit("WITH COMPONENT");
    let u = WITH_COMPONENT@ + seq![' '] + t;
    assert(u.len() == t.len() + 15);
    assert(same_text_from(u, t, 15, 15)) by {
        assert forall|i: int| 15 <= i < u.len() implies #[trigger] u[i] == t[i - 15] by {}
    }
    lemma_skip_wsc(t, 0);
    lemma_leading_layout_ignored_in_types(t, 0);
    assert(skip_wsc(u, 0) == 0) by {
        reveal(comment_end);
        assert(u[0] == 'W');
    }
    assert(open_paren(u, 0) == (false, 0int)) by {
        reveal(open_paren);
        reveal(wsc_char);
    }
    assert(tag_end(u, 0, WITH_COMPONENT@) == Some(14int)) by {
        reveal(tag_end);
        assert(u.subrange(0, 14) =~= WITH_COMPONENT@);
    }
    assert(u[14] == ' ');
    lemma_shift_skip_wsc(u, t, 15, 15);
    assert(skip_wsc(u, 14) == skip_wsc(t, 0) + 15);
    with_component_after_keyword(u, t, skip_wsc(t, 0), c, e);
}

proof fn with_component_after_keyword(
    u: Seq<char>,
    t: Seq<char>,
    q: int,
    c: SpecInnerTypeConstraint,
    e: int,
)
    requires
        same_text_from(u, t, 15, 15),
        0 <= q <= t.len(),
        open_paren(u, 0) == (false, 0int),
        skip_wsc(u, 0) == 0,
        tag_end(u, 0, WITH_COMPONENT@) == Some(14int),
        skip_wsc(u, 14) == q + 15,
        spec_single_type_constraint(t, q) == Some(
            (SpecSubtypeElement::SingleTypeConstraint(c), e),
        ),
    ensures
        spec_multiple_type_constraints(u, 0) == Some(
            (SpecSubtypeElement::MultipleTypeConstraints(c), e + 15),
        ),
{
    lemma_shift_single_type_constraint(u, t, 15, q + 15);
    assert(close_paren(u, false, e + 15) == Some(e + 15)) by {
        reveal(close_paren);
    }
}

/// The keyword `OBJECT IDENTIFIER` before a value in braces may be left
/// out: the value read is the same, its end moved by the keyword and a
/// space.
pub proof fn lemma_object_identifier_value_keyword(s: Seq<char>)
    requires
        s.len() > 0,
        s[0] == '{',
    ensures
        spec_object_identifier_value(OBJECT_IDENTIFIER@ + seq![' '] + s, 0) == shifted(
            spec_object_identifier_value(s, 0),
            18,
        ),
{
    reveal_strlit("OBJECT IDENTIFIER");
    let u = OBJECT_IDENTIFIER@ + seq![' '] + s;
    assert(u.len() == s.len() + 18);
    assert(same_text_from(u, s, 18, 18)) by {
        assert forall|i: int| 18 <= i < u.len() implies #[trigger] u[i] == s[i - 18] by {}
    }
    assert(skip_wsc(u, 0) == 0) by {
        reveal(comment_end);
        assert(u[0] == 'O');
    }
    assert(tag_end(u, 0, OBJECT_IDENTIFIER@) == Some(17int)) by {
        reveal(tag_end);
        assert(u.subrange(0, 17) =~= OBJECT_IDENTIFIER@);
    }
    assert(skip_wsc(s, 0) == 0) by {
        reveal(comment_end);
    }
    assert(tag_end(s, 0, OBJECT_IDENTIFIER@) is None) by {
        reveal(tag_end);
        if 17 <= s.len() {
            assert(s.subrange(0, 17)[0] == s[0]);
            assert(OBJECT_IDENTIFIER@[0] == 'O');
        }
    }
    assert(wsc_char(s, 0, '{') == Some(1int)) by {
        reveal(wsc_char);
    }
    assert(u[17] == ' ');
    assert(u[18] == '{');
    lemma_shift_skip_wsc(u, s, 18, 18);
    assert(skip_wsc(u, 17) == 18);
    assert(wsc_char(u, 17, '{') == Some(19int)) by {
        reveal(wsc_char);
    }
    object_identifier_value_after_brace(u, s);
}

proof fn object_identifier_value_after_brace(u: Seq<char>, s: Seq<char>)
    requires
        same_text_from(u, s, 18, 18),
        s.len() > 0,
        skip_wsc(u, 0) == 0,
        tag_end(u, 0, OBJECT_IDENTIFIER@) == Some(17int),
        wsc_char(u, 17, '{') == Some(19int),
        skip_wsc(s, 0) == 0,
        tag_end(s, 0, OBJECT_IDENTIFIER@) is None,
        wsc_char(s, 0, '{') == Some(1int),
    ensures
        spec_object_identifier_value(u, 0) == shifted(spec_object_identifier_value(s, 0), 18),
{
    lemma_shift_skip_wsc(u, s, 18, 19);
    let r = skip_wsc(u, 19);
    lemma_shift_ws_end(u, s, 18, r);
    lemma_shift_object_identifier_arc(u, s, 18, ws_end(u, r));
    if let Some((x, r1)) = spec_object_identifier_arc(u, ws_end(u, r)) {
        lemma_shift_object_identifier_arcs_rest(u, s, 18, r1, seq![x]);
        if let Some((_, r2)) = object_identifier_arcs_rest(u, r1, seq![x]) {
            lemma_shift_wsc(u, s, 18, r2, '}', ELLIPSIS@);
        }
    }
}

/// The upper endpoint of a range starts at `hi` and ends at `hi_end`: it is
/// `MAX` exactly when `max` is `None`, else the value `max`; the range is
/// extensible exactly when `, ...` follows it, and the extension additions
/// after the marker are read (and not kept) before the closing parenthesis.
pub open spec fn upper_endpoint(
    s: Seq<char>,
    lo: int,
    hi: int,
    hi_end: int,
    max: Option<SpecASN1Value>,
    extensible: bool,
    opened: bool,
    e: int,
) -> bool {
    &&& lo < hi
    &&& (max is None) == has_tag(s, hi, MAX@)
    &&& (max is None ==> hi_end == hi + 3)
    &&& (max matches Some(v) ==> spec_asn1_value(s, hi) == Some((v, hi_end)))
    &&& extensible == (has_char(s, skip_wsc(s, hi_end), ',') && extension_marker(
        s,
        skip_wsc(s, hi_end) + 1,
    ) is Some)
    &&& close_paren(
        s,
        opened,
        if extensible {
            spec_extension_additions(s, extension_marker(s, skip_wsc(s, hi_end) + 1).unwrap())
        } else {
            hi_end
        },
    ) == Some(e)
}

/// What a value range is made of: its lower endpoint, where it starts, is
/// `MIN` exactly when `min` is `None`, else the value `min`; its upper
/// endpoint, after `..`, is as `upper_endpoint` says.
pub proof fn lemma_value_range_parts(s: Seq<char>, p: int)
    requires
        0 <= p <= s.len(),
    ensures
        spec_value_range(s, p) matches Some(
            (SpecSubtypeElement::ValueRange { min, max, extensible }, e),
        ) ==> {
            let lo = skip_wsc(s, open_paren(s, p).1);
            &&& (min is None) == has_tag(s, lo, MIN@)
            &&& (min matches Some(v) ==> spec_asn1_value(s, lo) is Some && spec_asn1_value(
                s,
                lo,
            ).unwrap().0 == v)
            &&& exists|hi: int, hi_end: int| #[trigger]
                upper_endpoint(s, lo, hi, hi_end, max, extensible, open_paren(s, p).0, e)
        },
        spec_value_range(s, p) matches Some((x, _)) ==> x is ValueRange,
{
    reveal(spec_value_range);
    reveal(range_bounds);
    reveal(ext_with_additions);
    reveal(tag_end);
    reveal_strlit("..");
    reveal_strlit("MIN");
    reveal_strlit("MAX");
    let (opened, q0) = open_paren(s, p);
    lemma_open_close(s, p, opened, p);
    lemma_skip_wsc(s, q0);
    let lo = skip_wsc(s, q0);
    lemma_range_bounds(s, lo);
    if let Some((_, lo_end)) = range_lower(s, lo) {
        lemma_wsc_tag(s, lo_end, RANGE@);
        if let Some(r0) = range_separator(s, lo_end) {
            let r1 = if has_char(s, r0, '<') {
                r0 + 1
            } else {
                r0
            };
            lemma_skip_wsc(s, r1);
            let hi = skip_wsc(s, r1);
            if let Some((max, hi_end)) = range_upper(s, lo_end) {
                if let Some((SpecSubtypeElement::ValueRange { min, max, extensible }, e)) =
                    spec_value_range(s, p) {
                    assert(upper_endpoint(s, lo, hi, hi_end, max, extensible, opened, e));
                }
            }
        }
    }
}

/// The components of `WITH COMPONENTS`, read one after the other from `p`
/// to `e`, each followed by an optional `,`, are `cs`, in that order.
pub open spec fn members_in_order(s: Seq<char>, p: int, cs: Seq<SpecConstrainedComponent>, e: int) -> bool
    decreases cs.len(),
{
    if cs.len() == 0 {
        p == e
    } else {
        match spec_subset_member(s, p) {
            Some((m, q)) => m == cs[0] && members_in_order(
                s,
                match wsc_char(s, q, ',') {
                    Some(x) => x,
                    None => q,
                },
                cs.drop_first(),
                e,
            ),
            None => false,
        }
    }
}

proof fn lemma_members_rest_in_order(s: Seq<char>, i: int, acc: Seq<SpecConstrainedComponent>)
    requires
        0 <= i <= s.len(),
    ensures
        spec_subset_members_rest(s, i, acc) matches Some((cs, e)) ==> {
            &&& acc.len() <= cs.len()
            &&& cs.subrange(0, acc.len() as int) == acc
            &&& members_in_order(s, i, cs.skip(acc.len() as int), e)
        },
    decreases s.len() - i,
{
    if let Some((m, q)) = spec_member_item(s, i) {
        if moved_on(s, i, q) {
            lemma_members_rest_in_order(s, q, acc.push(m));
            if let Some((cs, e)) = spec_subset_members_rest(s, q, acc.push(m)) {
                let k = acc.len() as int;
                assert(cs.subrange(0, k + 1)[k] == m);
                assert(cs.subrange(0, k) =~= cs.subrange(0, k + 1).subrange(0, k));
                assert(acc.push(m).subrange(0, k) =~= acc);
                assert(cs.skip(k).drop_first() =~= cs.skip(k + 1));
                assert(cs.skip(k)[0] == cs[k]);
            }
        }
    } else {
        if let Some((cs, e)) = spec_subset_members_rest(s, i, acc) {
            assert(cs.subrange(0, acc.len() as int) =~= acc);
            assert(cs.skip(acc.len() as int).len() == 0);
        }
    }
}

/// What `WITH COMPONENTS { ... }` is made of: it is partial exactly when
/// `...` and `,` follow the opening brace; its components are read in the
/// order in which they stand in the text, at least one.
pub proof fn lemma_single_type_constraint_parts(s: Seq<char>, p: int)
    requires
        0 <= p <= s.len(),
    ensures
        spec_single_type_constraint(s, p) matches Some((x, e)) ==> {
            &&& x is SingleTypeConstraint
            &&& exists|r: int, q4: int| #[trigger]
                components_between(s, r, q4, x->SingleTypeConstraint_0)
        },
{
    if let Some((x, e)) = spec_single_type_constraint(s, p) {
        let (opened, q0) = open_paren(s, p);
        lemma_open_close(s, p, opened, p);
        lemma_skip_wsc(s, q0);
        lemma_tag_end(s, skip_wsc(s, q0), WITH_COMPONENTS@);
        let q1 = tag_end(s, skip_wsc(s, q0), WITH_COMPONENTS@).unwrap();
        lemma_wsc_char(s, q1, '{');
        let q2 = wsc_char(s, q1, '{').unwrap();
        let r = skip_wsc(s, q2);
        lemma_partial_marker(s, r);
        lemma_skip_wsc(s, q2);
        let q3 = partial_marker(s, r).1;
        lemma_subset_members(s, q3);
        let (cs, q4) = spec_subset_members(s, q3).unwrap();
        let (c0, q5) = spec_member_item(s, q3).unwrap();
        lemma_member_item(s, q3);
        lemma_members_rest_in_order(s, q5, seq![c0]);
        lemma_subset_members_nonempty(s, q3);
        assert(partial_marker(s, r).0 == (wsc_tag(s, r, ELLIPSIS@) is Some && wsc_char(
            s,
            wsc_tag(s, r, ELLIPSIS@).unwrap(),
            ',',
        ) is Some)) by {
            reveal(partial_marker);
        }
        let (rest, e2) = spec_subset_members_rest(s, q5, seq![c0]).unwrap();
        assert(rest.skip(1).len() == rest.len() - 1);
        assert(rest.subrange(0, 1)[0] == rest[0]);
        assert(rest[0] == c0);
        assert(rest.drop_first() =~= rest.skip(1));
        assert(components_between(s, r, q4, x->SingleTypeConstraint_0));
    }
}

/// The inner constraint `c` of `WITH COMPONENTS`, whose list starts at `r`
/// after the opening brace and ends at `q4` before the closing one.
pub open spec fn components_between(s: Seq<char>, r: int, q4: int, c: SpecInnerTypeConstraint) -> bool {
    &&& c.is_partial == (wsc_tag(s, r, ELLIPSIS@) is Some && wsc_char(
        s,
        wsc_tag(s, r, ELLIPSIS@).unwrap(),
        ',',
    ) is Some)
    &&& c.constraints.len() >= 1
    &&& members_in_order(s, partial_marker(s, r).1, c.constraints, q4)
    &&& wsc_char(s, q4, '}') is Some
}

/// What a component of `WITH COMPONENTS` is made of: its name; the
/// constraints after it, none where no constraint follows; and its presence,
/// `PRESENT`, else `ABSENT`, else unspecified.
pub proof fn lemma_subset_member_parts(s: Seq<char>, p: int)
    requires
        0 <= p <= s.len(),
    ensures
        spec_subset_member(s, p) matches Some((m, _)) ==> {
            let (name, q1) = identifier(s, skip_wsc(s, p)).unwrap();
            let r = skip_wsc(s, q1);
            let (cs, q2) = match spec_constraint(s, r) {
                Some((cs, e)) => (cs, e),
                None => (Seq::<SpecConstraint>::empty(), q1),
            };
            let t = skip_wsc(s, q2);
            &&& m.identifier == name
            &&& m.constraints == cs
            &&& (m.presence == ComponentPresence::Present) == has_tag(s, t, PRESENT@)
            &&& (m.presence == ComponentPresence::Absent) == (!has_tag(s, t, PRESENT@) && has_tag(
                s,
                t,
                ABSENT@,
            ))
        },
{
    reveal(tag_end);
}

/// An element set is extensible exactly when `,` and the extension marker
/// `...` follow its element or set operation (after white space and
/// comments); it then ends after the marker, else where its element ends.
pub proof fn lemma_element_set_extensible(s: Seq<char>, p: int)
    requires
        0 <= p <= s.len(),
    ensures
        spec_set_or_element(s, p) matches Some((x, q)) ==> {
            let c = skip_wsc(s, q);
            let marked = has_char(s, c, ',') && wsc_tag(s, c + 1, ELLIPSIS@) is Some;
            spec_element_set(s, p) == Some(
                (
                    SpecElementSet { set: x, extensible: marked },
                    if marked {
                        wsc_tag(s, c + 1, ELLIPSIS@).unwrap()
                    } else {
                        q
                    },
                ),
            )
        },
        spec_set_or_element(s, p) is None ==> spec_element_set(s, p) is None,
{
    reveal(ext_marker_after);
}

/// The positions from `x` on hold a run of `.`, and the run ends at
/// `dots_end(s, x)`.
proof fn lemma_dots_run(s: Seq<char>, x: int)
    requires
        0 <= x <= s.len(),
    ensures
        x <= dots_end(s, x) <= s.len(),
        forall|i: int| x <= i < dots_end(s, x) ==> #[trigger] s[i] == '.',
        !has_char(s, dots_end(s, x), '.'),
    decreases s.len() - x,
{
    if has_char(s, x, '.') {
        lemma_dots_run(s, x + 1);
    }
}

/// The level of a linked field `@..name` is the number of dots between the
/// `@` and the name, none for `@name`: exactly `level` dots follow the `@`,
/// and the name is read right after them.
pub proof fn lemma_relational_level_counts_dots(s: Seq<char>, p: int)
    requires
        0 <= p <= s.len(),
    ensures
        spec_relational_constraint(s, p) matches Some((r, e)) ==> {
            let q = skip_wsc(s, p);
            &&& has_char(s, q, '@')
            &&& 0 <= r.level
            &&& forall|i: int| q < i <= q + r.level ==> #[trigger] s[i] == '.'
            &&& !has_char(s, q + 1 + r.level, '.')
            &&& identifier(s, q + 1 + r.level) == Some((r.field_name, e))
        },
{
    lemma_skip_wsc(s, p);
    let q = skip_wsc(s, p);
    if has_char(s, q, '@') {
        lemma_dots_run(s, q + 1);
    }
}

/// The arcs `arcs`, read one after the other from `i` to `e`, each after
/// white space, each reading at least one character.
pub open spec fn arcs_in_order(
    s: Seq<char>,
    i: int,
    arcs: Seq<SpecObjectIdentifierArc>,
    e: int,
) -> bool
    decreases arcs.len(),
{
    if arcs.len() == 0 {
        i == e
    } else {
        match spec_object_identifier_arc(s, ws_end(s, i)) {
            Some((a, q)) => a == arcs[0] && i < q && arcs_in_order(s, q, arcs.drop_first(), e),
            None => false,
        }
    }
}

/// The list of arcs takes every arc that follows, whatever its form, until
/// no arc can be read.
pub proof fn lemma_arcs_rest_reads_all(
    s: Seq<char>,
    i: int,
    acc: Seq<SpecObjectIdentifierArc>,
    arcs: Seq<SpecObjectIdentifierArc>,
    e: int,
)
    requires
        0 <= i <= s.len(),
        arcs_in_order(s, i, arcs, e),
        spec_object_identifier_arc(s, ws_end(s, e)) is None,
    ensures
        object_identifier_arcs_rest(s, i, acc) == Some((acc + arcs, e)),
    decreases arcs.len(),
{
    if arcs.len() == 0 {
        assert(acc + arcs =~= acc);
    } else {
        lemma_ws_end(s, i);
        lemma_object_identifier_arc(s, ws_end(s, i));
        let (a, q) = spec_object_identifier_arc(s, ws_end(s, i)).unwrap();
        lemma_arcs_rest_reads_all(s, q, acc.push(a), arcs.drop_first(), e);
        assert(acc.push(a) + arcs.drop_first() =~= acc + arcs);
    }
}

/// Where the arcs of an OBJECT IDENTIFIER value start: after the optional
/// keyword and the opening brace.
pub open spec fn arcs_start(s: Seq<char>, p: int) -> Option<int> {
    let q = skip_wsc(s, p);
    let q1 = if has_tag(s, q, OBJECT_IDENTIFIER@) {
        q + OBJECT_IDENTIFIER@.len()
    } else {
        q
    };
    match wsc_char(s, q1, '{') {
        Some(b) => Some(skip_wsc(s, b)),
        None => None,
    }
}

/// An OBJECT IDENTIFIER value holds all the arcs that stand between its
/// braces, in order, whatever their form: a name alone may be followed by
/// further arcs.
pub proof fn lemma_object_identifier_value_reads_all_arcs(
    s: Seq<char>,
    p: int,
    arcs: Seq<SpecObjectIdentifierArc>,
    e: int,
)
    requires
        0 <= p <= s.len(),
        arcs.len() >= 1,
        arcs_start(s, p) is Some,
        arcs_in_order(s, arcs_start(s, p).unwrap(), arcs, e),
        spec_object_identifier_arc(s, ws_end(s, e)) is None,
    ensures
        spec_object_identifier_value(s, p) == match wsc_char(s, e, '}') {
            Some(f) => Some((arcs, f)),
            None => None,
        },
{
    reveal(tag_end);
    lemma_skip_wsc(s, p);
    let q = skip_wsc(s, p);
    let q1 = if has_tag(s, q, OBJECT_IDENTIFIER@) {
        q + OBJECT_IDENTIFIER@.len()
    } else {
        q
    };
    lemma_wsc_char(s, q1, '{');
    let b = wsc_char(s, q1, '{').unwrap();
    lemma_skip_wsc(s, b);
    let r = skip_wsc(s, b);
    lemma_ws_end(s, r);
    lemma_object_identifier_arc(s, ws_end(s, r));
    let (a, r1) = spec_object_identifier_arc(s, ws_end(s, r)).unwrap();
    lemma_arcs_rest_reads_all(s, r1, seq![a], arcs.drop_first(), e);
    assert(seq![a] + arcs.drop_first() =~= arcs);
}

/// `OBJECT IDENTIFIER` followed by a space and a constraint list reads as an
/// OBJECT IDENTIFIER type with exactly those constraints; where no
/// constraint list follows, the type has none and the match ends right after
/// the keyword, before the space.
pub proof fn lemma_object_identifier_then_constraint(s: Seq<char>)
    requires
        s.len() > 0,
        s[0] == '(',
    ensures
        spec_object_identifier(OBJECT_IDENTIFIER@ + seq![' '] + s, 0) == match spec_constraint(
            s,
            0,
        ) {
            Some((cs, e)) => Some((SpecASN1Type::ObjectIdentifier(cs), e + 18)),
            None => Some((SpecASN1Type::ObjectIdentifier(Seq::empty()), 17int)),
        },
{
    reveal_strlit("OBJECT IDENTIFIER");
    let u = OBJECT_IDENTIFIER@ + seq![' '] + s;
    assert(u.len() == s.len() + 18);
    assert(same_text_from(u, s, 18, 18)) by {
        assert forall|i: int| 18 <= i < u.len() implies #[trigger] u[i] == s[i - 18] by {}
    }
    assert(skip_wsc(u, 0) == 0) by {
        reveal(comment_end);
        assert(u[0] == 'O');
    }
    assert(wsc_tag(u, 0, OBJECT_IDENTIFIER@) == Some(17int)) by {
        reveal(wsc_tag);
        reveal(tag_end);
        assert(u.subrange(0, 17) =~= OBJECT_IDENTIFIER@);
    }
    assert(u[17] == ' ');
    assert(u[18] == '(');
    assert(skip_wsc(u, 18) == 18) by {
        reveal(comment_end);
    }
    assert(skip_wsc(u, 17) == 18);
    object_identifier_after_keyword(u, s);
}

proof fn object_identifier_after_keyword(u: Seq<char>, s: Seq<char>)
    requires
        same_text_from(u, s, 18, 18),
        wsc_tag(u, 0, OBJECT_IDENTIFIER@) == Some(17int),
        skip_wsc(u, 17) == 18,
    ensures
        spec_object_identifier(u, 0) == match spec_constraint(s, 0) {
            Some((cs, e)) => Some((SpecASN1Type::ObjectIdentifier(cs), e + 18)),
            None => Some((SpecASN1Type::ObjectIdentifier(Seq::empty()), 17int)),
        },
{
    lemma_shift_constraint(u, s, 18, 18);
}

/// A single value `value`, read at `lo` and ending at `ve`, is extensible
/// exactly when `, ...` follows it; the extension additions after the marker
/// are read (and not kept) before the closing parenthesis.
pub open spec fn value_then_marker(
    s: Seq<char>,
    lo: int,
    ve: int,
    value: SpecASN1Value,
    extensible: bool,
    opened: bool,
    e: int,
) -> bool {
    &&& spec_asn1_value(s, lo) == Some((value, ve))
    &&& extensible == (has_char(s, skip_wsc(s, ve), ',') && extension_marker(
        s,
        skip_wsc(s, ve) + 1,
    ) is Some)
    &&& close_paren(
        s,
        opened,
        if extensible {
            spec_extension_additions(s, extension_marker(s, skip_wsc(s, ve) + 1).unwrap())
        } else {
            ve
        },
    ) == Some(e)
}

/// What a single value constraint is made of: the value read where it
/// starts, extensible exactly when `, ...` follows the value.
pub proof fn lemma_single_value_parts(s: Seq<char>, p: int)
    requires
        0 <= p <= s.len(),
    ensures
        spec_single_value(s, p) matches Some(
            (SpecSubtypeElement::SingleValue { value, extensible }, e),
        ) ==> exists|ve: int| #[trigger]
            value_then_marker(
                s,
                skip_wsc(s, open_paren(s, p).1),
                ve,
                value,
                extensible,
                open_paren(s, p).0,
                e,
            ),
        spec_single_value(s, p) matches Some((x, _)) ==> x is SingleValue,
{
    reveal(spec_single_value);
    reveal(ext_with_additions);
    let (opened, q0) = open_paren(s, p);
    let lo = skip_wsc(s, q0);
    if let Some((_, ve)) = spec_asn1_value(s, lo) {
        if let Some((SpecSubtypeElement::SingleValue { value, extensible }, e)) = spec_single_value(
            s,
            p,
        ) {
            assert(value_then_marker(s, lo, ve, value, extensible, opened, e));
        }
    }
}

/// An extensible object set counts the values that stand before its
/// extension marker: all of its values.
pub proof fn lemma_object_set_extension_counts_values(s: Seq<char>, p: int)
    requires
        0 <= p <= s.len(),
    ensures
        spec_object_set(s, p) matches Some((set, _)) ==> (set.extensible matches Some(n) ==> n
            == set.values.len()),
{
}

/// `INTEGER` followed by a space and a constraint list reads as an INTEGER
/// type with exactly those constraints and no named numbers; where no
/// constraint list follows, the type has none and the match ends right after
/// the keyword.
pub proof fn lemma_integer_then_constraint(s: Seq<char>)
    requires
        s.len() > 0,
        s[0] == '(',
    ensures
        spec_integer(INTEGER@ + seq![' '] + s, 0) == match spec_constraint(s, 0) {
            Some((cs, e)) => Some((SpecASN1Type::Integer(cs, None), e + 8)),
            None => Some((SpecASN1Type::Integer(Seq::empty(), None), 7int)),
        },
{
    reveal_strlit("INTEGER");
    let u = INTEGER@ + seq![' '] + s;
    assert(u.len() == s.len() + 8);
    assert(same_text_from(u, s, 8, 8)) by {
        assert forall|i: int| 8 <= i < u.len() implies #[trigger] u[i] == s[i - 8] by {}
    }
    assert(skip_wsc(u, 0) == 0) by {
        reveal(comment_end);
        assert(u[0] == 'I');
    }
    assert(wsc_tag(u, 0, INTEGER@) == Some(7int)) by {
        reveal(wsc_tag);
        reveal(tag_end);
        assert(u.subrange(0, 7) =~= INTEGER@);
    }
    assert(u[7] == ' ');
    assert(u[8] == '(');
    assert(skip_wsc(u, 8) == 8) by {
        reveal(comment_end);
    }
    assert(skip_wsc(u, 7) == 8);
    assert(wsc_char(u, 7, '{') is None) by {
        reveal(wsc_char);
    }
    integer_after_keyword(u, s);
}

proof fn integer_after_keyword(u: Seq<char>, s: Seq<char>)
    requires
        same_text_from(u, s, 8, 8),
        wsc_tag(u, 0, INTEGER@) == Some(7int),
        skip_wsc(u, 7) == 8,
        wsc_char(u, 7, '{') is None,
    ensures
        spec_integer(u, 0) == match spec_constraint(s, 0) {
            Some((cs, e)) => Some((SpecASN1Type::Integer(cs, None), e + 8)),
            None => Some((SpecASN1Type::Integer(Seq::empty(), None), 7int)),
        },
{
    assert(spec_distinguished_values(u, 7) is None);
    lemma_shift_constraint(u, s, 8, 8);
}

/// The text `t` at the start of `u = t + s` is read by `tag_end`, and no
/// other text whose first character differs from that of `t`.
proof fn lemma_token_at_start(t: Seq<char>, s: Seq<char>, other: Seq<char>)
    requires
        t.len() >= 1,
        other.len() >= 1,
        other[0] != t[0],
    ensures
        tag_end(t + s, 0, t) == Some(t.len() as int),
        tag_end(t + s, 0, other) is None,
{
    reveal(tag_end);
    let u = t + s;
    assert(u.subrange(0, t.len() as int) =~= t);
    if other.len() <= u.len() {
        assert(u.subrange(0, other.len() as int)[0] == u[0]);
    }
}

/// Each spelling of a set operator, at the start of any text, reads as its
/// operator: `INTERSECTION` and `^` as intersection, `UNION` and `|` as
/// union, `EXCEPT` as the exception; the match ends after the spelling.
pub proof fn lemma_set_operator_spellings(s: Seq<char>)
    ensures
        spec_set_operator(INTERSECTION@ + s, 0) == Some((SetOperator::Intersection, 12int)),
        spec_set_operator(CARET@ + s, 0) == Some((SetOperator::Intersection, 1int)),
        spec_set_operator(UNION@ + s, 0) == Some((SetOperator::Union, 5int)),
        spec_set_operator(PIPE@ + s, 0) == Some((SetOperator::Union, 1int)),
        spec_set_operator(EXCEPT@ + s, 0) == Some((SetOperator::Except, 6int)),
{
    reveal_strlit("INTERSECTION");
    reveal_strlit("^");
    reveal_strlit("UNION");
    reveal_strlit("|");
    reveal_strlit("EXCEPT");
    reveal(spec_set_operator);
    assert(skip_wsc(INTERSECTION@ + s, 0) == 0) by {
        reveal(comment_end);
        assert((INTERSECTION@ + s)[0] == 'I');
    }
    assert(skip_wsc(CARET@ + s, 0) == 0) by {
        reveal(comment_end);
        assert((CARET@ + s)[0] == '^');
    }
    assert(skip_wsc(UNION@ + s, 0) == 0) by {
        reveal(comment_end);
        assert((UNION@ + s)[0] == 'U');
    }
    assert(skip_wsc(PIPE@ + s, 0) == 0) by {
        reveal(comment_end);
        assert((PIPE@ + s)[0] == '|');
    }
    assert(skip_wsc(EXCEPT@ + s, 0) == 0) by {
        reveal(comment_end);
        assert((EXCEPT@ + s)[0] == 'E');
    }
    lemma_token_at_start(INTERSECTION@, s, CARET@);
    lemma_token_at_start(CARET@, s, INTERSECTION@);
    lemma_token_at_start(UNION@, s, INTERSECTION@);
    lemma_token_at_start(UNION@, s, CARET@);
    lemma_token_at_start(PIPE@, s, INTERSECTION@);
    lemma_token_at_start(PIPE@, s, CARET@);
    lemma_token_at_start(PIPE@, s, UNION@);
    lemma_token_at_start(EXCEPT@, s, INTERSECTION@);
    lemma_token_at_start(EXCEPT@, s, CARET@);
    lemma_token_at_start(EXCEPT@, s, UNION@);
    lemma_token_at_start(EXCEPT@, s, PIPE@);
}

/// `SIZE` before a parenthesized element set reads as a size constraint on
/// that set's element or set operation; `SIZE` before anything else, or
/// before a table constraint, reads as nothing.
pub proof fn lemma_size_of_constraint(s: Seq<char>)
    ensures
        spec_size_constraint(SIZE@ + s, 0) == match spec_single_constraint(s, 0) {
            Some((SpecConstraint::SubtypeConstraint(set), e)) => Some(
                (SpecSubtypeElement::SizeConstraint(Box::new(set.set)), e + 4),
            ),
            _ => None,
        },
{
    reveal_strlit("SIZE");
    let u = SIZE@ + s;
    assert(same_text_from(u, s, 4, 4)) by {
        assert forall|i: int| 4 <= i < u.len() implies #[trigger] u[i] == s[i - 4] by {}
    }
    assert(skip_wsc(u, 0) == 0) by {
        reveal(comment_end);
        assert(u[0] == 'S');
    }
    assert(open_paren(u, 0) == (false, 0int)) by {
        reveal(open_paren);
        reveal(wsc_char);
    }
    lemma_token_at_start(SIZE@, s, seq!['(']);
    size_after_keyword(u, s);
}

proof fn size_after_keyword(u: Seq<char>, s: Seq<char>)
    requires
        same_text_from(u, s, 4, 4),
        skip_wsc(u, 0) == 0,
        open_paren(u, 0) == (false, 0int),
        tag_end(u, 0, SIZE@) == Some(4int),
    ensures
        spec_size_constraint(u, 0) == match spec_single_constraint(s, 0) {
            Some((SpecConstraint::SubtypeConstraint(set), e)) => Some(
                (SpecSubtypeElement::SizeConstraint(Box::new(set.set)), e + 4),
            ),
            _ => None,
        },
{
    lemma_shift_single_constraint(u, s, 4, 4);
    if let Some((_, e)) = spec_single_constraint(u, 4) {
        assert(close_paren(u, false, e) == Some(e)) by {
            reveal(close_paren);
        }
    }
}

/// The constraints `cs`, read one after the other from `p` to `e`, each
/// reading at least one character.
pub open spec fn constraints_in_order(s: Seq<char>, p: int, cs: Seq<SpecConstraint>, e: int) -> bool
    decreases cs.len(),
{
    if cs.len() == 0 {
        p == e
    } else {
        match spec_constraint_item(s, p) {
            Some((c, q)) => c == cs[0] && p < q && constraints_in_order(s, q, cs.drop_first(), e),
            None => false,
        }
    }
}

proof fn lemma_constraint_rest_in_order(s: Seq<char>, i: int, acc: Seq<SpecConstraint>)
    requires
        0 <= i <= s.len(),
    ensures
        spec_constraint_rest(s, i, acc) matches Some((cs, e)) ==> {
            &&& acc.len() <= cs.len()
            &&& cs.subrange(0, acc.len() as int) == acc
            &&& constraints_in_order(s, i, cs.skip(acc.len() as int), e)
            &&& spec_constraint_item(s, e) is None
        },
    decreases s.len() - i,
{
    if let Some((c, q)) = spec_constraint_item(s, i) {
        if moved_on(s, i, q) {
            lemma_constraint_rest_in_order(s, q, acc.push(c));
            if let Some((cs, e)) = spec_constraint_rest(s, q, acc.push(c)) {
                let k = acc.len() as int;
                assert(cs.subrange(0, k + 1)[k] == c);
                assert(cs.subrange(0, k) =~= cs.subrange(0, k + 1).subrange(0, k));
                assert(acc.push(c).subrange(0, k) =~= acc);
                assert(cs.skip(k).drop_first() =~= cs.skip(k + 1));
                assert(cs.skip(k)[0] == cs[k]);
            }
        }
    } else {
        if let Some((cs, e)) = spec_constraint_rest(s, i, acc) {
            assert(cs.subrange(0, acc.len() as int) =~= acc);
            assert(cs.skip(acc.len() as int).len() == 0);
        }
    }
}

/// A list of constraints holds every constraint that stands in the text, in
/// the order in which they stand there, and ends where no further
/// constraint can be read.
pub proof fn lemma_constraints_in_order(s: Seq<char>, p: int)
    requires
        0 <= p <= s.len(),
    ensures
        spec_constraint(s, p) matches Some((cs, e)) ==> {
            &&& cs.len() >= 1
            &&& constraints_in_order(s, p, cs, e)
            &&& spec_constraint_item(s, e) is None
        },
{
    lemma_constraint_reads(s, p);
    if let Some((c, q)) = spec_constraint_item(s, p) {
        lemma_constraint_rest_in_order(s, q, seq![c]);
        if let Some((cs, e)) = spec_constraint_rest(s, q, seq![c]) {
            assert(cs.subrange(0, 1)[0] == cs[0]);
            assert(cs.drop_first() =~= cs.skip(1));
        }
    }
}

/// What a contained subtype is made of: the type read after the optional
/// `INCLUDES`, extensible exactly when `, ...` follows the type.
pub proof fn lemma_contained_subtype_parts(s: Seq<char>, p: int)
    requires
        0 <= p <= s.len(),
    ensures
        spec_contained_subtype(s, p) matches Some(
            (SpecSubtypeElement::ContainedSubtype { subtype, extensible }, _),
        ) ==> exists|te: int| #[trigger]
            type_then_marker(s, contained_type_start(s, p), te, subtype, extensible),
        spec_contained_subtype(s, p) matches Some((x, _)) ==> x is ContainedSubtype,
{
    reveal(tag_end);
    reveal(ext_marker_after);
    let (opened, q0) = open_paren(s, p);
    let q = skip_wsc(s, q0);
    let q1 = if has_tag(s, q, INCLUDES@) {
        q + INCLUDES@.len()
    } else {
        q
    };
    assert(q1 == match tag_end(s, q, INCLUDES@) {
        Some(e) => e,
        None => q,
    });
    if let Some((ty, te)) = spec_asn1_type(s, skip_wsc(s, q1)) {
        let (ext, q4) = ext_marker_after(s, te);
        if let Some((SpecSubtypeElement::ContainedSubtype { subtype, extensible }, _)) =
            spec_contained_subtype(s, p) {
            assert(subtype == ty && extensible == ext);
            assert(type_then_marker(s, skip_wsc(s, q1), te, subtype, extensible));
            assert(contained_type_start(s, p) == skip_wsc(s, q1));
        }
    } else {
        assert(spec_contained_subtype(s, p) is None);
    }
}

/// Where the type of a contained subtype starts: after the optional opening
/// parenthesis and the optional `INCLUDES`.
pub open spec fn contained_type_start(s: Seq<char>, p: int) -> int {
    let q = skip_wsc(s, open_paren(s, p).1);
    skip_wsc(
        s,
        if has_tag(s, q, INCLUDES@) {
            q + INCLUDES@.len()
        } else {
            q
        },
    )
}

/// The type `ty`, read at `q` and ending at `te`, is followed by `, ...`
/// exactly when `extensible` holds.
pub open spec fn type_then_marker(
    s: Seq<char>,
    q: int,
    te: int,
    ty: SpecASN1Type,
    extensible: bool,
) -> bool {
    &&& spec_asn1_type(s, q) == Some((ty, te))
    &&& extensible == (has_char(s, skip_wsc(s, te), ',') && extension_marker(
        s,
        skip_wsc(s, te) + 1,
    ) is Some)
}

/// A type reference reads as a type declared elsewhere, with its name and
/// exactly the constraints that follow it (none where none follow).
pub proof fn lemma_elsewhere_declared_type_parts(s: Seq<char>, p: int)
    requires
        0 <= p <= s.len(),
    ensures
        type_reference(s, skip_wsc(s, p)) matches Some((name, q1)) ==> spec_elsewhere_declared_type(
            s,
            p,
        ) == match spec_constraint(s, skip_wsc(s, q1)) {
            Some((cs, e)) => Some((SpecASN1Type::ElsewhereDeclaredType(name, cs), e)),
            None => Some((SpecASN1Type::ElsewhereDeclaredType(name, Seq::empty()), q1)),
        },
        type_reference(s, skip_wsc(s, p)) is None ==> spec_elsewhere_declared_type(s, p) is None,
{
}

/// A permitted alphabet holds the element or set operation read inside
/// `FROM ( ... )`, and each of its elements is one that may stand in an
/// alphabet.
pub proof fn lemma_permitted_alphabet_parts(s: Seq<char>, p: int)
    requires
        0 <= p <= s.len(),
    ensures
        spec_permitted_alphabet_constraint(s, p) matches Some((x, _)) ==> {
            let q = skip_wsc(s, open_paren(s, p).1);
            let b = wsc_char(s, q + FROM@.len(), '(');
            &&& has_tag(s, q, FROM@)
            &&& x is PermittedAlphabet
            &&& alphabet_elements(*x->PermittedAlphabet_0)
            &&& b is Some
            &&& spec_set_or_element(s, skip_wsc(s, b.unwrap())) is Some
            &&& spec_set_or_element(s, skip_wsc(s, b.unwrap())).unwrap().0 == *x->PermittedAlphabet_0
        },
{
    reveal(tag_end);
}

/// The parameters `xs`, each after a `,`, read one after the other from `i`
/// to `e`.
pub open spec fn parameters_after(s: Seq<char>, i: int, xs: Seq<SpecParameter>, e: int) -> bool
    decreases xs.len(),
{
    if xs.len() == 0 {
        i == e
    } else {
        match wsc_char(s, i, ',') {
            Some(i1) => match spec_parameter(s, i1) {
                Some((x, q)) => x == xs[0] && i < q && parameters_after(s, q, xs.drop_first(), e),
                None => false,
            },
            None => false,
        }
    }
}

proof fn lemma_parameter_rest_in_order(s: Seq<char>, i: int, acc: Seq<SpecParameter>)
    requires
        0 <= i <= s.len(),
    ensures
        spec_parameter_rest(s, i, acc) matches Some((xs, e)) ==> {
            &&& acc.len() <= xs.len()
            &&& xs.subrange(0, acc.len() as int) == acc
            &&& parameters_after(s, i, xs.skip(acc.len() as int), e)
            &&& (wsc_char(s, e, ',') is None || spec_parameter(s, wsc_char(s, e, ',').unwrap()) is None)
        },
    decreases s.len() - i,
{
    lemma_wsc_char(s, i, ',');
    let moved = match wsc_char(s, i, ',') {
        Some(i1) => match spec_parameter(s, i1) {
            Some((_, q)) => moved_on(s, i, q),
            None => false,
        },
        None => false,
    };
    if moved {
        let i1 = wsc_char(s, i, ',').unwrap();
        let (x, q) = spec_parameter(s, i1).unwrap();
        lemma_parameter_rest_in_order(s, q, acc.push(x));
        if let Some((xs, e)) = spec_parameter_rest(s, q, acc.push(x)) {
            let k = acc.len() as int;
            assert(xs.subrange(0, k + 1)[k] == x);
            assert(xs.subrange(0, k) =~= xs.subrange(0, k + 1).subrange(0, k));
            assert(acc.push(x).subrange(0, k) =~= acc);
            assert(xs.skip(k).drop_first() =~= xs.skip(k + 1));
            assert(xs.skip(k)[0] == xs[k]);
        }
    } else if let Some((xs, e)) = spec_parameter_rest(s, i, acc) {
        assert(xs.subrange(0, acc.len() as int) =~= acc);
        assert(xs.skip(acc.len() as int).len() == 0);
    }
}

/// The actual parameters `{ ... }` of a parameterized type are all the
/// parameters that stand between the braces, separated by `,`, in the order
/// in which they stand there; the list ends where no further `,` and
/// parameter follow.
pub proof fn lemma_parameters_in_order(s: Seq<char>, p: int)
    requires
        0 <= p <= s.len(),
    ensures
        spec_parameter_list(s, p) matches Some((xs, e)) ==> {
            &&& xs.len() >= 1
            &&& spec_parameter(s, p) is Some
            &&& spec_parameter(s, p).unwrap().0 == xs[0]
            &&& parameters_after(s, spec_parameter(s, p).unwrap().1, xs.drop_first(), e)
            &&& (wsc_char(s, e, ',') is None || spec_parameter(s, wsc_char(s, e, ',').unwrap()) is None)
        },
{
    lemma_parameter(s, p);
    if let Some((x, q)) = spec_parameter(s, p) {
        lemma_parameter_rest_in_order(s, q, seq![x]);
        if let Some((xs, e)) = spec_parameter_rest(s, q, seq![x]) {
            assert(xs.subrange(0, 1)[0] == xs[0]);
            assert(xs.drop_first() =~= xs.skip(1));
        }
    }
}

/// The values `vs` of an object set, each after a `|`, read one after the
/// other from `i` to `e`.
pub open spec fn values_after(s: Seq<char>, i: int, vs: Seq<SpecObjectSetValue>, e: int) -> bool
    decreases vs.len(),
{
    if vs.len() == 0 {
        i == e
    } else {
        match wsc_char(s, i, '|') {
            Some(i1) => match spec_object_set_value(s, i1) {
                Some((v, q)) => v == vs[0] && i < q && values_after(s, q, vs.drop_first(), e),
                None => false,
            },
            None => false,
        }
    }
}

proof fn lemma_object_set_rest_in_order(s: Seq<char>, i: int, acc: Seq<SpecObjectSetValue>)
    requires
        0 <= i <= s.len(),
    ensures
        spec_object_set_rest(s, i, acc) matches Some((vs, e)) ==> {
            &&& acc.len() <= vs.len()
            &&& vs.subrange(0, acc.len() as int) == acc
            &&& values_after(s, i, vs.skip(acc.len() as int), e)
            &&& (wsc_char(s, e, '|') is None || spec_object_set_value(
                s,
                wsc_char(s, e, '|').unwrap(),
            ) is None)
        },
    decreases s.len() - i,
{
    lemma_wsc_char(s, i, '|');
    let moved = match wsc_char(s, i, '|') {
        Some(i1) => match spec_object_set_value(s, i1) {
            Some((_, q)) => moved_on(s, i, q),
            None => false,
        },
        None => false,
    };
    if moved {
        let i1 = wsc_char(s, i, '|').unwrap();
        let (x, q) = spec_object_set_value(s, i1).unwrap();
        lemma_object_set_rest_in_order(s, q, acc.push(x));
        if let Some((xs, e)) = spec_object_set_rest(s, q, acc.push(x)) {
            let k = acc.len() as int;
            assert(xs.subrange(0, k + 1)[k] == x);
            assert(xs.subrange(0, k) =~= xs.subrange(0, k + 1).subrange(0, k));
            assert(acc.push(x).subrange(0, k) =~= acc);
            assert(xs.skip(k).drop_first() =~= xs.skip(k + 1));
            assert(xs.skip(k)[0] == xs[k]);
        }
    } else if let Some((xs, e)) = spec_object_set_rest(s, i, acc) {
        assert(xs.subrange(0, acc.len() as int) =~= acc);
        assert(xs.skip(acc.len() as int).len() == 0);
    }
}

/// The values of an object set are all the values that stand in it,
/// separated by `|`, in the order in which they stand there; the list ends
/// where no further `|` and value follow.
pub proof fn lemma_object_set_values_in_order(s: Seq<char>, i: int, v: SpecObjectSetValue)
    requires
        0 <= i <= s.len(),
    ensures
        spec_object_set_rest(s, i, seq![v]) matches Some((vs, e)) ==> {
            &&& vs.len() >= 1
            &&& vs[0] == v
            &&& values_after(s, i, vs.drop_first(), e)
            &&& (wsc_char(s, e, '|') is None || spec_object_set_value(
                s,
                wsc_char(s, e, '|').unwrap(),
            ) is None)
        },
{
    lemma_object_set_rest_in_order(s, i, seq![v]);
    if let Some((vs, e)) = spec_object_set_rest(s, i, seq![v]) {
        assert(vs.subrange(0, 1)[0] == vs[0]);
        assert(vs.drop_first() =~= vs.skip(1));
    }
}

/// The linked fields `fs`, each after a `,`, read one after the other from
/// `i` to `e`.
pub open spec fn fields_after(s: Seq<char>, i: int, fs: Seq<SpecRelationalConstraint>, e: int) -> bool
    decreases fs.len(),
{
    if fs.len() == 0 {
        i == e
    } else {
        match wsc_char(s, i, ',') {
            Some(i1) => match spec_relational_constraint(s, i1) {
                Some((f, q)) => f == fs[0] && i < q && fields_after(s, q, fs.drop_first(), e),
                None => false,
            },
            None => false,
        }
    }
}

/// The fields that a table constraint links to are all the fields that
/// follow, separated by `,`, in the order in which they stand there; the
/// list ends where no further `,` and field follow.
pub proof fn lemma_linked_fields_in_order(s: Seq<char>, i: int, acc: Seq<SpecRelationalConstraint>)
    requires
        0 <= i <= s.len(),
    ensures
        relational_rest(s, i, acc) matches Some((xs, e)) ==> {
            &&& acc.len() <= xs.len()
            &&& xs.subrange(0, acc.len() as int) == acc
            &&& fields_after(s, i, xs.skip(acc.len() as int), e)
            &&& (wsc_char(s, e, ',') is None || spec_relational_constraint(
                s,
                wsc_char(s, e, ',').unwrap(),
            ) is None)
        },
    decreases s.len() - i,
{
    lemma_wsc_char(s, i, ',');
    let moved = match wsc_char(s, i, ',') {
        Some(i1) => match spec_relational_constraint(s, i1) {
            Some((_, q)) => moved_on(s, i, q),
            None => false,
        },
        None => false,
    };
    if moved {
        let i1 = wsc_char(s, i, ',').unwrap();
        let (x, q) = spec_relational_constraint(s, i1).unwrap();
        lemma_linked_fields_in_order(s, q, acc.push(x));
        if let Some((xs, e)) = relational_rest(s, q, acc.push(x)) {
            let k = acc.len() as int;
            assert(xs.subrange(0, k + 1)[k] == x);
            assert(xs.subrange(0, k) =~= xs.subrange(0, k + 1).subrange(0, k));
            assert(acc.push(x).subrange(0, k) =~= acc);
            assert(xs.skip(k).drop_first() =~= xs.skip(k + 1));
            assert(xs.skip(k)[0] == xs[k]);
        }
    } else if let Some((xs, e)) = relational_rest(s, i, acc) {
        assert(xs.subrange(0, acc.len() as int) =~= acc);
        assert(xs.skip(acc.len() as int).len() == 0);
    }
}

} // verus!
