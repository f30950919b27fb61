//! Decimal numbers, read by nom's `u128` and `i128` parsers.
use vstd::prelude::*;

use super::common::{has_char, is_digit};
use super::input::Input;

verus! {

broadcast use vstd::string::group_string_axioms;

pub open spec fn digit_value(c: char) -> int {
    c as int - '0' as int
}

/// End of the run of decimal digits that starts at `p`.
pub open spec fn digits_end(s: Seq<char>, p: int) -> int
    decreases s.len() - p,
{
    if 0 <= p < s.len() && is_digit(s[p]) {
        digits_end(s, p + 1)
    } else {
        p
    }
}

/// The number that the decimal digits `s[a..b]` denote.
pub open spec fn decimal_value(s: Seq<char>, a: int, b: int) -> int
    decreases b - a,
{
    if b <= a {
        0
    } else {
        decimal_value(s, a, b - 1) * 10 + digit_value(s[b - 1])
    }
}

/// An unsigned decimal number at the start of `s`: the number of characters
/// it takes and its value, if there is at least one digit and the value fits
/// in a `u128`.
pub open spec fn unsigned_number(s: Seq<char>) -> Option<(int, int)> {
    let e = digits_end(s, 0);
    let v = decimal_value(s, 0, e);
    if 0 < e && v <= u128::MAX {
        Some((e, v))
    } else {
        None
    }
}

/// A decimal number with an optional sign (`-` or `+`) at the start of `s`:
/// the number of characters it takes and its value, if there is at least
/// one digit and the value fits in an `i128`.
pub open spec fn signed_number(s: Seq<char>) -> Option<(int, int)> {
    let negative = has_char(s, 0, '-');
    let start: int = if negative || has_char(s, 0, '+') {
        1
    } else {
        0
    };
    let e = digits_end(s, start);
    let magnitude = decimal_value(s, start, e);
    let v = if negative {
        -magnitude
    } else {
        magnitude
    };
    if start < e && i128::MIN <= v <= i128::MAX {
        Some((e, v))
    } else {
        None
    }
}

pub proof fn lemma_digits_end(s: Seq<char>, p: int)
    requires
        0 <= p <= s.len(),
    ensures
        p <= digits_end(s, p) <= s.len(),
    decreases s.len() - p,
{
    if p < s.len() && is_digit(s[p]) {
        lemma_digits_end(s, p + 1);
    }
}

/// Reads a number with `nom::character::complete::u128`: a non-empty run of
/// ASCII digits whose value fits in a `u128`, or an error. The contract
/// claims that nom's parser reads exactly `unsigned_number` and returns the
/// input after the digits.
#[verifier::external_body]
fn nom_u128<'a>(input: &'a str) -> (r: Option<(&'a str, u128)>)
    ensures
        match (r, unsigned_number(input@)) {
            (Some((rest, v)), Some((n, value))) => rest@ == input@.skip(n) && v == value,
            (None, None) => true,
            _ => false,
        },
{
    nom::character::complete::u128::<&'a str, nom::error::Error<&'a str>>(input).ok()
}

/// Reads a number with `nom::character::complete::i128`: an optional `-` or
/// `+`, then a non-empty run of ASCII digits whose value fits in an `i128`.
/// The contract claims that nom's parser reads exactly `signed_number` and
/// returns the input after the digits.
#[verifier::external_body]
fn nom_i128<'a>(input: &'a str) -> (r: Option<(&'a str, i128)>)
    ensures
        match (r, signed_number(input@)) {
            (Some((rest, v)), Some((n, value))) => rest@ == input@.skip(n) && v == value,
            (None, None) => true,
            _ => false,
        },
{
    nom::character::complete::i128::<&'a str, nom::error::Error<&'a str>>(input).ok()
}

/// An unsigned number at position `p`: its value and its end.
pub open spec fn unsigned_at(s: Seq<char>, p: int) -> Option<(int, int)> {
    match unsigned_number(s.skip(p)) {
        Some((n, v)) => Some((v, p + n)),
        None => None,
    }
}

/// A signed number at position `p`: its value and its end.
pub open spec fn signed_at(s: Seq<char>, p: int) -> Option<(int, int)> {
    match signed_number(s.skip(p)) {
        Some((n, v)) => Some((v, p + n)),
        None => None,
    }
}

impl<'a> Input<'a> {
    /// `unsigned_at`
    pub fn unsigned_at(&self, p: usize) -> (r: Option<(u128, usize)>)
        requires
            self.wf(),
            p <= self.chars@.len(),
        ensures
            match r {
                Some((v, e)) => unsigned_at(self.chars@, p as int) == Some((v as int, e as int))
                    && p < e <= self.chars@.len(),
                None => unsigned_at(self.chars@, p as int) is None,
            },
    {
        let n = self.chars.len();
        let sub = self.text.substring_char(p, n);
        proof {
            assert(sub@ =~= self.chars@.skip(p as int));
            lemma_digits_end(sub@, 0);
        }
        match nom_u128(sub) {
            Some((rest, v)) => {
                let consumed = sub.unicode_len() - rest.unicode_len();
                Some((v, p + consumed))
            },
            None => None,
        }
    }

    /// `signed_at`
    pub fn signed_at(&self, p: usize) -> (r: Option<(i128, usize)>)
        requires
            self.wf(),
            p <= self.chars@.len(),
        ensures
            match r {
                Some((v, e)) => signed_at(self.chars@, p as int) == Some((v as int, e as int))
                    && p < e <= self.chars@.len(),
                None => signed_at(self.chars@, p as int) is None,
            },
    {
        let n = self.chars.len();
        let sub = self.text.substring_char(p, n);
        proof {
            assert(sub@ =~= self.chars@.skip(p as int));
            lemma_digits_end(sub@, 0);
            if sub@.len() > 0 {
                lemma_digits_end(sub@, 1);
            }
        }
        match nom_i128(sub) {
            Some((rest, v)) => {
                let consumed = sub.unicode_len() - rest.unicode_len();
                Some((v, p + consumed))
            },
            None => None,
        }
    }
}

} // verus!
