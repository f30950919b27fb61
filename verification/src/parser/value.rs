//! Values of ASN.1 notation that may stand in constraints: `ALL`, booleans,
//! integers, character strings and references to values declared elsewhere.
use vstd::prelude::*;

use super::boolean::spec_boolean_value;
use super::common::{has_char, skip_wsc, value_reference, wsc_tag};
use super::input::{agrees, Input};
use super::number::signed_at;
use crate::intermediate::{ASN1Value, SpecASN1Value, ALL};

verus! {

broadcast use vstd::string::group_string_axioms;

pub open spec fn spec_all_value(s: Seq<char>, p: int) -> Option<(SpecASN1Value, int)> {
    match wsc_tag(s, p, ALL@) {
        Some(e) => Some((SpecASN1Value::All, e)),
        None => None,
    }
}

pub open spec fn spec_integer_value(s: Seq<char>, p: int) -> Option<(SpecASN1Value, int)> {
    match signed_at(s, skip_wsc(s, p)) {
        Some((v, e)) => Some((SpecASN1Value::Integer(v), e)),
        None => None,
    }
}

/// Position of the quotation mark that closes a character string whose text
/// starts at `p`; `""` inside the text stands for one quotation mark.
pub open spec fn cstring_close(s: Seq<char>, p: int) -> Option<int>
    decreases s.len() - p,
{
    if p < 0 || p >= s.len() {
        None
    } else if s[p] == '"' {
        if has_char(s, p + 1, '"') {
            cstring_close(s, p + 2)
        } else {
            Some(p)
        }
    } else {
        cstring_close(s, p + 1)
    }
}

/// The characters of `s[a..e]` with each `""` read as one `"`.
pub open spec fn unescape_quotes(s: Seq<char>, a: int, e: int) -> Seq<char>
    decreases e - a,
{
    if a >= e {
        Seq::empty()
    } else if s[a] == '"' && a + 1 < e {
        seq!['"'] + unescape_quotes(s, a + 2, e)
    } else {
        seq![s[a]] + unescape_quotes(s, a + 1, e)
    }
}

/// A character string `"..."` after white space and comments.
pub open spec fn spec_cstring_value(s: Seq<char>, p: int) -> Option<(SpecASN1Value, int)> {
    let q = skip_wsc(s, p);
    if has_char(s, q, '"') {
        match cstring_close(s, q + 1) {
            Some(c) => Some((SpecASN1Value::String(unescape_quotes(s, q + 1, c)), c + 1)),
            None => None,
        }
    } else {
        None
    }
}

/// A reference to a value declared elsewhere: a value reference.
pub open spec fn spec_elsewhere_declared_value(s: Seq<char>, p: int) -> Option<(SpecASN1Value, int)> {
    match value_reference(s, p) {
        Some((name, e)) => Some((SpecASN1Value::ElsewhereDeclaredValue(name), e)),
        None => None,
    }
}

/// A value: the first of `ALL`, a boolean, an integer, a character string and
/// a value reference that matches.
#[verifier::opaque]
pub open spec fn spec_asn1_value(s: Seq<char>, p: int) -> Option<(SpecASN1Value, int)> {
    if let Some(r) = spec_all_value(s, p) {
        Some(r)
    } else if let Some(r) = spec_boolean_value(s, p) {
        Some(r)
    } else if let Some(r) = spec_integer_value(s, p) {
        Some(r)
    } else if let Some(r) = spec_cstring_value(s, p) {
        Some(r)
    } else {
        spec_elsewhere_declared_value(s, p)
    }
}

pub proof fn lemma_cstring_close(s: Seq<char>, p: int)
    requires
        0 <= p,
    ensures
        cstring_close(s, p) matches Some(c) ==> p <= c < s.len() && s[c] == '"',
    decreases s.len() - p,
{
    if p < s.len() {
        if s[p] == '"' {
            if has_char(s, p + 1, '"') {
                lemma_cstring_close(s, p + 2);
            }
        } else {
            lemma_cstring_close(s, p + 1);
        }
    }
}

impl<'a> Input<'a> {
    pub(crate) fn cstring_close(&self, p: usize) -> (r: Option<usize>)
        requires
            self.wf(),
            p <= self.chars@.len(),
        ensures
            match r {
                Some(c) => cstring_close(self.chars@, p as int) == Some(c as int),
                None => cstring_close(self.chars@, p as int) is None,
            },
    {
        proof {
            lemma_cstring_close(self.chars@, p as int);
        }
        let mut q = p;
        while q < self.chars.len()
            invariant
                self.wf(),
                p <= q <= self.chars@.len(),
                cstring_close(self.chars@, q as int) == cstring_close(self.chars@, p as int),
            decreases self.chars@.len() - q,
        {
            if self.chars[q] == '"' {
                if self.char_is(q + 1, '"') {
                    q += 2;
                } else {
                    return Some(q);
                }
            } else {
                q += 1;
            }
        }
        None
    }

    /// The text of `s[a..e]` with each `""` read as one `"`.
    fn unescape_quotes(&self, a: usize, e: usize) -> (r: String)
        requires
            self.wf(),
            a <= e <= self.chars@.len(),
        ensures
            r@ == unescape_quotes(self.chars@, a as int, e as int),
    {
        let ghost s = self.chars@;
        let mut r = String::new();
        let mut start = a;
        let mut i = a;
        while i < e
            invariant
                self.wf(),
                s == self.chars@,
                a <= start <= i <= e <= s.len(),
                r@ + s.subrange(start as int, i as int) + unescape_quotes(s, i as int, e as int)
                    == unescape_quotes(s, a as int, e as int),
            decreases e - i,
        {
            if self.chars[i] == '"' && i + 1 < e {
                proof {
                    assert(s.subrange(start as int, i + 1) =~= s.subrange(start as int, i as int)
                        + seq!['"']);
                    assert(s.subrange((i + 2) as int, (i + 2) as int) =~= Seq::<char>::empty());
                }
                r.append(self.text.substring_char(start, i + 1));
                i += 2;
                start = i;
            } else {
                proof {
                    assert(s.subrange(start as int, i + 1) =~= s.subrange(start as int, i as int)
                        + seq![s[i as int]]);
                }
                i += 1;
            }
        }
        r.append(self.text.substring_char(start, e));
        r
    }

    pub fn all_value(&self, p: usize) -> (r: Option<(ASN1Value, usize)>)
        requires
            self.wf(),
            p <= self.chars@.len(),
        ensures
            agrees(r, spec_all_value(self.chars@, p as int)),
            r matches Some((_, e)) ==> p <= e <= self.chars@.len(),
    {
        match self.wsc_tag(p, ALL) {
            Some(e) => Some((ASN1Value::All, e)),
            None => None,
        }
    }

    pub fn integer_value(&self, p: usize) -> (r: Option<(ASN1Value, usize)>)
        requires
            self.wf(),
            p <= self.chars@.len(),
        ensures
            agrees(r, spec_integer_value(self.chars@, p as int)),
            r matches Some((_, e)) ==> p <= e <= self.chars@.len(),
    {
        let q = self.skip_wsc(p);
        match self.signed_at(q) {
            Some((v, e)) => Some((ASN1Value::Integer(v), e)),
            None => None,
        }
    }

    pub fn cstring_value(&self, p: usize) -> (r: Option<(ASN1Value, usize)>)
        requires
            self.wf(),
            p <= self.chars@.len(),
        ensures
            agrees(r, spec_cstring_value(self.chars@, p as int)),
            r matches Some((_, e)) ==> p <= e <= self.chars@.len(),
    {
        let q = self.skip_wsc(p);
        if self.char_is(q, '"') {
            proof {
                lemma_cstring_close(self.chars@, q + 1);
            }
            match self.cstring_close(q + 1) {
                Some(c) => Some((ASN1Value::String(self.unescape_quotes(q + 1, c)), c + 1)),
                None => None,
            }
        } else {
            None
        }
    }

    pub fn elsewhere_declared_value(&self, p: usize) -> (r: Option<(ASN1Value, usize)>)
        requires
            self.wf(),
            p <= self.chars@.len(),
        ensures
            agrees(r, spec_elsewhere_declared_value(self.chars@, p as int)),
            r matches Some((_, e)) ==> p <= e <= self.chars@.len(),
    {
        match self.value_reference(p) {
            Some((name, e)) => Some((ASN1Value::ElsewhereDeclaredValue(name), e)),
            None => None,
        }
    }

    /// `spec_asn1_value`
    pub fn asn1_value(&self, p: usize) -> (r: Option<(ASN1Value, usize)>)
        requires
            self.wf(),
            p <= self.chars@.len(),
        ensures
            agrees(r, spec_asn1_value(self.chars@, p as int)),
            r matches Some((_, e)) ==> p <= e <= self.chars@.len(),
    {
        proof {
            reveal(spec_asn1_value);
        }
        if let Some(r) = self.all_value(p) {
            return Some(r);
        }
        if let Some(r) = self.boolean_value(p) {
            return Some(r);
        }
        if let Some(r) = self.integer_value(p) {
            return Some(r);
        }
        if let Some(r) = self.cstring_value(p) {
            return Some(r);
        }
        self.elsewhere_declared_value(p)
    }
}

} // verus!
