//! Lexical building blocks shared by the parsers: white space and comments,
//! single characters, keywords, identifiers and the delimiters of ASN.1 notation.
use vstd::prelude::*;

use super::input::Input;

verus! {

broadcast use vstd::string::group_string_axioms;

pub const LINE_COMMENT: &'static str = "--";
pub const ELLIPSIS: &'static str = "...";
pub const RANGE: &'static str = "..";

/// White space: a space, a tab, a carriage return or a line feed.
pub open spec fn is_multispace(c: char) -> bool {
    c == ' ' || c == '\t' || c == '\r' || c == '\n'
}

pub open spec fn is_alpha(c: char) -> bool {
    ('a' <= c && c <= 'z') || ('A' <= c && c <= 'Z')
}

pub open spec fn is_lowercase(c: char) -> bool {
    'a' <= c && c <= 'z'
}

pub open spec fn is_uppercase(c: char) -> bool {
    'A' <= c && c <= 'Z'
}

pub open spec fn is_digit(c: char) -> bool {
    '0' <= c && c <= '9'
}

pub open spec fn is_alphanumeric(c: char) -> bool {
    is_alpha(c) || is_digit(c)
}

/// `s` holds the character `c` at position `p`.
pub open spec fn has_char(s: Seq<char>, p: int, c: char) -> bool {
    0 <= p < s.len() && s[p] == c
}

/// `s` holds the text `t` from position `p` on.
pub open spec fn has_tag(s: Seq<char>, p: int, t: Seq<char>) -> bool {
    0 <= p && p + t.len() <= s.len() && s.subrange(p, p + t.len()) == t
}

/// End of the white space that starts at `p`.
pub open spec fn ws_end(s: Seq<char>, p: int) -> int
    decreases s.len() - p,
{
    if 0 <= p < s.len() && is_multispace(s[p]) {
        ws_end(s, p + 1)
    } else {
        p
    }
}

/// Where the text of a line comment, read from `p`, stops: before a line
/// break, before `--`, or at the end of the input.
pub open spec fn line_comment_text_end(s: Seq<char>, p: int) -> int
    decreases s.len() - p,
{
    if p < 0 || p >= s.len() {
        p
    } else if s[p] == '\n' || s[p] == '\r' {
        p
    } else if has_char(s, p, '-') && has_char(s, p + 1, '-') {
        p
    } else {
        line_comment_text_end(s, p + 1)
    }
}

/// A line comment `-- text` closed by `--`, by a line break (not consumed) or
/// by the end of the input.
pub open spec fn line_comment_end(s: Seq<char>, p: int) -> Option<int> {
    if has_char(s, p, '-') && has_char(s, p + 1, '-') {
        let e = line_comment_text_end(s, p + 2);
        if has_char(s, e, '-') && has_char(s, e + 1, '-') {
            Some(e + 2)
        } else {
            Some(e)
        }
    } else {
        None
    }
}

/// Position just after the first `*/` at or after `p`.
pub open spec fn block_comment_close(s: Seq<char>, p: int) -> Option<int>
    decreases s.len() - p,
{
    if p < 0 || p + 1 >= s.len() {
        None
    } else if s[p] == '*' && s[p + 1] == '/' {
        Some(p + 2)
    } else {
        block_comment_close(s, p + 1)
    }
}

/// A block comment `/* text */`.
pub open spec fn block_comment_end(s: Seq<char>, p: int) -> Option<int> {
    if has_char(s, p, '/') && has_char(s, p + 1, '*') {
        block_comment_close(s, p + 2)
    } else {
        None
    }
}

/// A comment of either kind starting exactly at `p`.
#[verifier::opaque]
pub open spec fn comment_end(s: Seq<char>, p: int) -> Option<int> {
    match block_comment_end(s, p) {
        Some(e) => Some(e),
        None => line_comment_end(s, p),
    }
}

pub proof fn lemma_line_comment_text_end(s: Seq<char>, p: int)
    requires
        0 <= p <= s.len(),
    ensures
        p <= line_comment_text_end(s, p) <= s.len(),
    decreases s.len() - p,
{
    if p < s.len() && !(s[p] == '\n' || s[p] == '\r') && !(has_char(s, p, '-') && has_char(
        s,
        p + 1,
        '-',
    )) {
        lemma_line_comment_text_end(s, p + 1);
    }
}

pub proof fn lemma_block_comment_close(s: Seq<char>, p: int)
    requires
        0 <= p,
    ensures
        block_comment_close(s, p) matches Some(e) ==> p + 2 <= e <= s.len(),
    decreases s.len() - p,
{
    if 0 <= p && p + 1 < s.len() && !(s[p] == '*' && s[p + 1] == '/') {
        lemma_block_comment_close(s, p + 1);
    }
}

/// A comment that starts at `p` ends after `p`, within the input.
pub proof fn lemma_comment_end(s: Seq<char>, p: int)
    requires
        0 <= p,
    ensures
        comment_end(s, p) matches Some(e) ==> p < e <= s.len(),
{
    reveal(comment_end);
    lemma_block_comment_close(s, p + 2);
    if has_char(s, p, '-') && has_char(s, p + 1, '-') {
        lemma_line_comment_text_end(s, p + 2);
    }
}

/// End of the white space and comments that start at `p`: every token of
/// the notation may be preceded by this much layout.
pub open spec fn skip_wsc(s: Seq<char>, p: int) -> int
    decreases s.len() - p,
{
    if 0 <= p < s.len() {
        if is_multispace(s[p]) {
            skip_wsc(s, p + 1)
        } else {
            match comment_end(s, p) {
                Some(e) => {
                    proof {
                        lemma_comment_end(s, p);
                    }
                    skip_wsc(s, e)
                },
                None => p,
            }
        }
    } else {
        p
    }
}

/// An executable end position `r` agrees with the specified end `e`.
pub open spec fn same_end(r: Option<usize>, e: Option<int>) -> bool {
    match r {
        Some(q) => e == Some(q as int),
        None => e is None,
    }
}

/// The character `c` after white space and comments; the position after it.
#[verifier::opaque]
pub open spec fn wsc_char(s: Seq<char>, p: int, c: char) -> Option<int> {
    let q = skip_wsc(s, p);
    if has_char(s, q, c) {
        Some(q + 1)
    } else {
        None
    }
}

/// The text `t` exactly at `p`, character for character; the position after it.
#[verifier::opaque]
pub open spec fn tag_end(s: Seq<char>, p: int, t: Seq<char>) -> Option<int> {
    if has_tag(s, p, t) {
        Some(p + t.len())
    } else {
        None
    }
}

/// The text `t` after white space and comments; the position after it.
#[verifier::opaque]
pub open spec fn wsc_tag(s: Seq<char>, p: int, t: Seq<char>) -> Option<int> {
    tag_end(s, skip_wsc(s, p), t)
}

/// The rest of an identifier after its first letter: letters and digits,
/// with single hyphens between them.
pub open spec fn ident_tail_end(s: Seq<char>, p: int) -> int
    decreases s.len() - p,
{
    if 0 <= p < s.len() && is_alphanumeric(s[p]) {
        ident_tail_end(s, p + 1)
    } else if 0 <= p && p + 1 < s.len() && s[p] == '-' && is_alphanumeric(s[p + 1]) {
        ident_tail_end(s, p + 2)
    } else {
        p
    }
}

/// An identifier after white space and comments: a letter, then letters,
/// digits and single inner hyphens. Yields its text and its end.
#[verifier::opaque]
pub open spec fn identifier(s: Seq<char>, p: int) -> Option<(Seq<char>, int)> {
    let q = skip_wsc(s, p);
    if 0 <= q < s.len() && is_alpha(s[q]) {
        let e = ident_tail_end(s, q + 1);
        Some((s.subrange(q, e), e))
    } else {
        None
    }
}

/// A value reference: an identifier that starts with a lower-case letter.
pub open spec fn value_reference(s: Seq<char>, p: int) -> Option<(Seq<char>, int)> {
    match identifier(s, p) {
        Some((name, e)) => if is_lowercase(name[0]) {
            Some((name, e))
        } else {
            None
        },
        None => None,
    }
}

/// A reserved word of the notation that cannot name a type: the keywords
/// that stand in constraints, values and object syntax.
pub open spec fn is_keyword(n: Seq<char>) -> bool {
    n == "ABSENT"@
    || n == "ALL"@
    || n == "BY"@
    || n == "COMPONENT"@
    || n == "COMPONENTS"@
    || n == "CONSTRAINED"@
    || n == "CONTAINING"@
    || n == "DEFAULT"@
    || n == "EXCEPT"@
    || n == "FALSE"@
    || n == "FROM"@
    || n == "IDENTIFIER"@
    || n == "INCLUDES"@
    || n == "INTERSECTION"@
    || n == "MAX"@
    || n == "MIN"@
    || n == "OF"@
    || n == "OPTIONAL"@
    || n == "PATTERN"@
    || n == "PRESENT"@
    || n == "SIZE"@
    || n == "SYNTAX"@
    || n == "TRUE"@
    || n == "UNION"@
    || n == "UNIQUE"@
    || n == "WITH"@
}

/// A type reference: an identifier that starts with an upper-case letter
/// and is not a reserved word.
pub open spec fn type_reference(s: Seq<char>, p: int) -> Option<(Seq<char>, int)> {
    match identifier(s, p) {
        Some((name, e)) => if is_uppercase(name[0]) && !is_keyword(name) {
            Some((name, e))
        } else {
            None
        },
        None => None,
    }
}

/// No letter of `n` is lower-case.
pub open spec fn no_lowercase(n: Seq<char>) -> bool {
    forall|i: int| 0 <= i < n.len() ==> !is_lowercase(#[trigger] n[i])
}

/// A word in capitals, such as `IDENTIFIED`: an identifier with no
/// lower-case letter.
pub open spec fn capital_word(s: Seq<char>, p: int) -> Option<(Seq<char>, int)> {
    match identifier(s, p) {
        Some((name, e)) => if no_lowercase(name) {
            Some((name, e))
        } else {
            None
        },
        None => None,
    }
}

/// A field reference `&name` after white space and comments; its text
/// keeps the `&`.
#[verifier::opaque]
pub open spec fn field_reference(s: Seq<char>, p: int) -> Option<(Seq<char>, int)> {
    let q = skip_wsc(s, p);
    if has_char(s, q, '&') && q + 1 < s.len() && is_alpha(s[q + 1]) {
        let e = ident_tail_end(s, q + 2);
        Some((s.subrange(q, e), e))
    } else {
        None
    }
}

/// `...` after white space and comments.
pub open spec fn extension_marker(s: Seq<char>, p: int) -> Option<int> {
    wsc_tag(s, p, ELLIPSIS@)
}

/// `..` after white space and comments.
pub open spec fn range_separator(s: Seq<char>, p: int) -> Option<int> {
    wsc_tag(s, p, RANGE@)
}

pub proof fn lemma_ws_end(s: Seq<char>, p: int)
    requires
        0 <= p <= s.len(),
    ensures
        p <= ws_end(s, p) <= s.len(),
    decreases s.len() - p,
{
    if p < s.len() && is_multispace(s[p]) {
        lemma_ws_end(s, p + 1);
    }
}

/// Skipping white space and comments never moves backwards nor past the end.
pub proof fn lemma_skip_wsc(s: Seq<char>, p: int)
    requires
        0 <= p <= s.len(),
    ensures
        p <= skip_wsc(s, p) <= s.len(),
    decreases s.len() - p,
{
    if p < s.len() {
        if is_multispace(s[p]) {
            lemma_skip_wsc(s, p + 1);
        } else {
            lemma_comment_end(s, p);
            if let Some(e) = comment_end(s, p) {
                lemma_skip_wsc(s, e);
            }
        }
    }
}

/// Skipping either stays put or moves forward within the input.
pub proof fn lemma_skip_wsc_moves(s: Seq<char>, p: int)
    ensures
        skip_wsc(s, p) == p || (0 <= p < skip_wsc(s, p) <= s.len()),
{
    if 0 <= p <= s.len() {
        lemma_skip_wsc(s, p);
    }
}

pub proof fn lemma_wsc_char(s: Seq<char>, p: int, c: char)
    ensures
        wsc_char(s, p, c) matches Some(e) ==> (p < e <= s.len() && e == skip_wsc(s, p) + 1),
{
    reveal(wsc_char);
    reveal(tag_end);
    reveal(wsc_tag);
    lemma_skip_wsc_moves(s, p);
}

pub proof fn lemma_tag_end(s: Seq<char>, p: int, t: Seq<char>)
    ensures
        tag_end(s, p, t) matches Some(e) ==> (0 <= p <= e <= s.len() && e == p + t.len()),
{
    reveal(wsc_char);
    reveal(tag_end);
    reveal(wsc_tag);
}

pub proof fn lemma_wsc_tag(s: Seq<char>, p: int, t: Seq<char>)
    ensures
        wsc_tag(s, p, t) matches Some(e) ==> (p + t.len() <= e <= s.len() && 0 <= p),
{
    reveal(wsc_char);
    reveal(tag_end);
    reveal(wsc_tag);
    lemma_skip_wsc_moves(s, p);
}

pub proof fn lemma_identifier(s: Seq<char>, p: int)
    ensures
        identifier(s, p) matches Some((_, e)) ==> (p < e <= s.len() && 0 <= p),
{
    reveal(identifier);
    lemma_skip_wsc_moves(s, p);
    let q = skip_wsc(s, p);
    if 0 <= q < s.len() && is_alpha(s[q]) {
        lemma_ident_tail_end(s, q + 1);
    }
}

/// Skipping white space and comments twice skips no more than once.
pub proof fn lemma_skip_wsc_idempotent(s: Seq<char>, p: int)
    ensures
        skip_wsc(s, skip_wsc(s, p)) == skip_wsc(s, p),
    decreases s.len() - p,
{
    if 0 <= p < s.len() {
        if is_multispace(s[p]) {
            lemma_skip_wsc_idempotent(s, p + 1);
        } else if let Some(e) = comment_end(s, p) {
            lemma_comment_end(s, p);
            lemma_skip_wsc_idempotent(s, e);
        }
    }
}

pub proof fn lemma_field_reference(s: Seq<char>, p: int)
    ensures
        field_reference(s, p) matches Some((name, e)) ==> (p < e <= s.len() && 0 <= p && name.len()
            >= 2 && name[0] == '&' && skip_wsc(s, p) + 2 <= e && name == s.subrange(
            skip_wsc(s, p),
            e,
        )),
{
    reveal(field_reference);
    lemma_skip_wsc_moves(s, p);
    let q = skip_wsc(s, p);
    if has_char(s, q, '&') && q + 1 < s.len() && is_alpha(s[q + 1]) {
        lemma_ident_tail_end(s, q + 2);
    }
}

pub proof fn lemma_ident_tail_end(s: Seq<char>, p: int)
    requires
        0 <= p <= s.len(),
    ensures
        p <= ident_tail_end(s, p) <= s.len(),
    decreases s.len() - p,
{
    if p < s.len() && is_alphanumeric(s[p]) {
        lemma_ident_tail_end(s, p + 1);
    } else if p + 1 < s.len() && s[p] == '-' && is_alphanumeric(s[p + 1]) {
        lemma_ident_tail_end(s, p + 2);
    }
}

pub fn is_multispace_char(c: char) -> (b: bool)
    ensures
        b == is_multispace(c),
{
    c == ' ' || c == '\t' || c == '\r' || c == '\n'
}

pub fn is_alpha_char(c: char) -> (b: bool)
    ensures
        b == is_alpha(c),
{
    ('a' <= c && c <= 'z') || ('A' <= c && c <= 'Z')
}

pub fn is_lowercase_char(c: char) -> (b: bool)
    ensures
        b == is_lowercase(c),
{
    'a' <= c && c <= 'z'
}

pub fn is_uppercase_char(c: char) -> (b: bool)
    ensures
        b == is_uppercase(c),
{
    'A' <= c && c <= 'Z'
}

pub fn is_digit_char(c: char) -> (b: bool)
    ensures
        b == is_digit(c),
{
    '0' <= c && c <= '9'
}

pub fn is_alphanumeric_char(c: char) -> (b: bool)
    ensures
        b == is_alphanumeric(c),
{
    is_alpha_char(c) || is_digit_char(c)
}

impl<'a> Input<'a> {
    /// `has_char`
    pub fn char_is(&self, p: usize, c: char) -> (b: bool)
        ensures
            b == has_char(self.chars@, p as int, c),
    {
        p < self.chars.len() && self.chars[p] == c
    }

    /// `has_tag`
    pub fn tag_is(&self, p: usize, t: &str) -> (b: bool)
        ensures
            b == has_tag(self.chars@, p as int, t@),
    {
        let n = t.unicode_len();
        let len = self.chars.len();
        if p > len || n > len - p {
            return false;
        }
        let mut i: usize = 0;
        while i < n
            invariant
                n == t@.len(),
                len == self.chars@.len(),
                p + n <= len,
                i <= n,
                forall|j: int| 0 <= j < i ==> self.chars@[p + j] == t@[j],
            decreases n - i,
        {
            if self.chars[p + i] != t.get_char(i) {
                assert(self.chars@.subrange(p as int, p + n)[i as int] != t@[i as int]);
                return false;
            }
            i += 1;
        }
        assert(self.chars@.subrange(p as int, p + n) =~= t@);
        true
    }

    /// `tag_end`
    pub fn tag_end(&self, p: usize, t: &str) -> (r: Option<usize>)
        requires
            self.wf(),
            p <= self.chars@.len(),
        ensures
            same_end(r, tag_end(self.chars@, p as int, t@)),
            r matches Some(e) ==> p <= e <= self.chars@.len(),
    {
        proof {
            reveal(wsc_char);
            reveal(tag_end);
            reveal(wsc_tag);
        }
        if self.tag_is(p, t) {
            Some(p + t.unicode_len())
        } else {
            None
        }
    }

    /// `ws_end`
    pub fn ws_end(&self, p: usize) -> (q: usize)
        requires
            self.wf(),
            p <= self.chars@.len(),
        ensures
            q == ws_end(self.chars@, p as int),
            p <= q <= self.chars@.len(),
    {
        let mut q = p;
        while q < self.chars.len() && is_multispace_char(self.chars[q])
            invariant
                self.wf(),
                p <= q <= self.chars@.len(),
                ws_end(self.chars@, q as int) == ws_end(self.chars@, p as int),
            decreases self.chars@.len() - q,
        {
            q += 1;
        }
        q
    }

    fn line_comment_text_end(&self, p: usize) -> (q: usize)
        requires
            self.wf(),
            p <= self.chars@.len(),
        ensures
            q == line_comment_text_end(self.chars@, p as int),
    {
        let mut q = p;
        while q < self.chars.len()
            invariant
                self.wf(),
                p <= q <= self.chars@.len(),
                line_comment_text_end(self.chars@, q as int) == line_comment_text_end(
                    self.chars@,
                    p as int,
                ),
            decreases self.chars@.len() - q,
        {
            let c = self.chars[q];
            if c == '\n' || c == '\r' || (c == '-' && self.char_is(q + 1, '-')) {
                return q;
            }
            q += 1;
        }
        q
    }

    fn block_comment_close(&self, p: usize) -> (r: Option<usize>)
        requires
            self.wf(),
            p <= self.chars@.len(),
        ensures
            same_end(r, block_comment_close(self.chars@, p as int)),
    {
        proof {
            lemma_block_comment_close(self.chars@, p as int);
        }
        let mut q = p;
        while q + 1 < self.chars.len()
            invariant
                self.wf(),
                p <= q <= self.chars@.len(),
                block_comment_close(self.chars@, q as int) == block_comment_close(
                    self.chars@,
                    p as int,
                ),
            decreases self.chars@.len() - q,
        {
            if self.chars[q] == '*' && self.chars[q + 1] == '/' {
                return Some(q + 2);
            }
            q += 1;
        }
        None
    }

    /// `comment_end`
    pub fn comment_end(&self, p: usize) -> (r: Option<usize>)
        requires
            self.wf(),
            p <= self.chars@.len(),
        ensures
            same_end(r, comment_end(self.chars@, p as int)),
            r matches Some(e) ==> p < e <= self.chars@.len(),
    {
        proof {
            reveal(comment_end);
        }
        proof {
            lemma_comment_end(self.chars@, p as int);
        }
        if self.char_is(p, '/') && self.char_is(p + 1, '*') {
            if let Some(e) = self.block_comment_close(p + 2) {
                return Some(e);
            }
        }
        if self.char_is(p, '-') && self.char_is(p + 1, '-') {
            let e = self.line_comment_text_end(p + 2);
            if self.char_is(e, '-') && self.char_is(e + 1, '-') {
                Some(e + 2)
            } else {
                Some(e)
            }
        } else {
            None
        }
    }

    /// `skip_wsc`: the end of the white space and comments at `p`.
    pub fn skip_wsc(&self, p: usize) -> (q: usize)
        requires
            self.wf(),
            p <= self.chars@.len(),
        ensures
            q == skip_wsc(self.chars@, p as int),
            p <= q <= self.chars@.len(),
    {
        let mut q = p;
        while q < self.chars.len()
            invariant
                self.wf(),
                p <= q <= self.chars@.len(),
                skip_wsc(self.chars@, q as int) == skip_wsc(self.chars@, p as int),
            decreases self.chars@.len() - q,
        {
            if is_multispace_char(self.chars[q]) {
                q += 1;
            } else {
                match self.comment_end(q) {
                    Some(e) => {
                        assert(skip_wsc(self.chars@, q as int) == skip_wsc(self.chars@, e as int));
                        q = e;
                    },
                    None => {
                        return q;
                    },
                }
            }
        }
        q
    }

    /// `wsc_char`
    pub fn wsc_char(&self, p: usize, c: char) -> (r: Option<usize>)
        requires
            self.wf(),
            p <= self.chars@.len(),
        ensures
            same_end(r, wsc_char(self.chars@, p as int, c)),
            r matches Some(e) ==> p < e <= self.chars@.len(),
    {
        proof {
            reveal(wsc_char);
            reveal(tag_end);
            reveal(wsc_tag);
        }
        let q = self.skip_wsc(p);
        if self.char_is(q, c) {
            Some(q + 1)
        } else {
            None
        }
    }

    /// `wsc_tag`
    pub fn wsc_tag(&self, p: usize, t: &str) -> (r: Option<usize>)
        requires
            self.wf(),
            p <= self.chars@.len(),
        ensures
            same_end(r, wsc_tag(self.chars@, p as int, t@)),
            r matches Some(e) ==> p <= e <= self.chars@.len(),
    {
        proof {
            reveal(wsc_char);
            reveal(tag_end);
            reveal(wsc_tag);
        }
        let q = self.skip_wsc(p);
        self.tag_end(q, t)
    }

    /// The characters from `a` to `b` as an owned string.
    pub fn text_between(&self, a: usize, b: usize) -> (r: String)
        requires
            self.wf(),
            a <= b <= self.chars@.len(),
        ensures
            r@ == self.chars@.subrange(a as int, b as int),
    {
        self.text.substring_char(a, b).to_owned()
    }

    fn ident_tail_end(&self, p: usize) -> (e: usize)
        requires
            self.wf(),
            p <= self.chars@.len(),
        ensures
            e == ident_tail_end(self.chars@, p as int),
            p <= e <= self.chars@.len(),
    {
        proof {
            lemma_ident_tail_end(self.chars@, p as int);
        }
        let mut e = p;
        while e < self.chars.len()
            invariant
                self.wf(),
                p <= e <= self.chars@.len(),
                ident_tail_end(self.chars@, e as int) == ident_tail_end(self.chars@, p as int),
            decreases self.chars@.len() - e,
        {
            if is_alphanumeric_char(self.chars[e]) {
                e += 1;
            } else if self.chars[e] == '-' && e + 1 < self.chars.len() && is_alphanumeric_char(
                self.chars[e + 1],
            ) {
                e += 2;
            } else {
                return e;
            }
        }
        e
    }

    /// `identifier`
    pub fn identifier(&self, p: usize) -> (r: Option<(String, usize)>)
        requires
            self.wf(),
            p <= self.chars@.len(),
        ensures
            match r {
                Some((t, e)) => identifier(self.chars@, p as int) == Some((t@, e as int)) && p < e
                    <= self.chars@.len(),
                None => identifier(self.chars@, p as int) is None,
            },
    {
        proof {
            reveal(identifier);
        }
        let q = self.skip_wsc(p);
        if q < self.chars.len() && is_alpha_char(self.chars[q]) {
            let e = self.ident_tail_end(q + 1);
            Some((self.text_between(q, e), e))
        } else {
            None
        }
    }
}

impl<'a> Input<'a> {
    /// `value_reference`
    pub fn value_reference(&self, p: usize) -> (r: Option<(String, usize)>)
        requires
            self.wf(),
            p <= self.chars@.len(),
        ensures
            match r {
                Some((t, e)) => value_reference(self.chars@, p as int) == Some((t@, e as int)) && p
                    < e <= self.chars@.len(),
                None => value_reference(self.chars@, p as int) is None,
            },
    {
        proof {
            reveal(identifier);
        }
        match self.identifier(p) {
            Some((name, e)) => {
                let q = self.skip_wsc(p);
                proof {
                    lemma_ident_tail_end(self.chars@, q + 1);
                }
                assert(name@[0] == self.chars@[q as int]);
                if is_lowercase_char(self.chars[q]) {
                    Some((name, e))
                } else {
                    None
                }
            },
            None => None,
        }
    }

    /// `type_reference`
    /// Whether the characters from `q` to `e` are the text `t`.
    pub fn word_is(&self, q: usize, e: usize, t: &str) -> (b: bool)
        requires
            q <= e <= self.chars@.len(),
        ensures
            b == (self.chars@.subrange(q as int, e as int) == t@),
    {
        if e - q == t.unicode_len() {
            let r = self.tag_is(q, t);
            proof {
                if self.chars@.subrange(q as int, e as int) == t@ {
                    assert(has_tag(self.chars@, q as int, t@));
                }
            }
            r
        } else {
            proof {
                if self.chars@.subrange(q as int, e as int) == t@ {
                    assert(self.chars@.subrange(q as int, e as int).len() == t@.len());
                }
            }
            false
        }
    }

    /// `is_keyword` of the characters from `q` to `e`.
    pub fn is_keyword(&self, q: usize, e: usize) -> (b: bool)
        requires
            q <= e <= self.chars@.len(),
        ensures
            b == is_keyword(self.chars@.subrange(q as int, e as int)),
    {
        self.word_is(q, e, "ABSENT")
            || self.word_is(q, e, "ALL")
            || self.word_is(q, e, "BY")
            || self.word_is(q, e, "COMPONENT")
            || self.word_is(q, e, "COMPONENTS")
            || self.word_is(q, e, "CONSTRAINED")
            || self.word_is(q, e, "CONTAINING")
            || self.word_is(q, e, "DEFAULT")
            || self.word_is(q, e, "EXCEPT")
            || self.word_is(q, e, "FALSE")
            || self.word_is(q, e, "FROM")
            || self.word_is(q, e, "IDENTIFIER")
            || self.word_is(q, e, "INCLUDES")
            || self.word_is(q, e, "INTERSECTION")
            || self.word_is(q, e, "MAX")
            || self.word_is(q, e, "MIN")
            || self.word_is(q, e, "OF")
            || self.word_is(q, e, "OPTIONAL")
            || self.word_is(q, e, "PATTERN")
            || self.word_is(q, e, "PRESENT")
            || self.word_is(q, e, "SIZE")
            || self.word_is(q, e, "SYNTAX")
            || self.word_is(q, e, "TRUE")
            || self.word_is(q, e, "UNION")
            || self.word_is(q, e, "UNIQUE")
            || self.word_is(q, e, "WITH")
    }

    pub fn type_reference(&self, p: usize) -> (r: Option<(String, usize)>)
        requires
            self.wf(),
            p <= self.chars@.len(),
        ensures
            match r {
                Some((t, e)) => type_reference(self.chars@, p as int) == Some((t@, e as int)) && p
                    < e <= self.chars@.len(),
                None => type_reference(self.chars@, p as int) is None,
            },
    {
        proof {
            reveal(identifier);
        }
        match self.identifier(p) {
            Some((name, e)) => {
                let q = self.skip_wsc(p);
                proof {
                    lemma_ident_tail_end(self.chars@, q + 1);
                }
                assert(name@[0] == self.chars@[q as int]);
                assert(name@ == self.chars@.subrange(q as int, e as int));
                if is_uppercase_char(self.chars[q]) && !self.is_keyword(q, e) {
                    Some((name, e))
                } else {
                    None
                }
            },
            None => None,
        }
    }
}

impl<'a> Input<'a> {
    /// `capital_word`
    pub fn capital_word(&self, p: usize) -> (r: Option<(String, usize)>)
        requires
            self.wf(),
            p <= self.chars@.len(),
        ensures
            match r {
                Some((t, e)) => capital_word(self.chars@, p as int) == Some((t@, e as int)) && p
                    < e <= self.chars@.len(),
                None => capital_word(self.chars@, p as int) is None,
            },
    {
        proof {
            reveal(identifier);
        }
        match self.identifier(p) {
            Some((name, e)) => {
                let q = self.skip_wsc(p);
                proof {
                    lemma_ident_tail_end(self.chars@, q + 1);
                }
                let ghost n = self.chars@.subrange(q as int, e as int);
                assert(name@ == n);
                let mut i = q;
                while i < e
                    invariant
                        self.wf(),
                        q <= i <= e <= self.chars@.len(),
                        n == self.chars@.subrange(q as int, e as int),
                        identifier(self.chars@, p as int) == Some((n, e as int)),
                        forall|j: int| 0 <= j < i - q ==> !is_lowercase(#[trigger] n[j]),
                    decreases e - i,
                {
                    if is_lowercase_char(self.chars[i]) {
                        assert(n[i - q] == self.chars@[i as int]);
                        assert(!no_lowercase(n));
                        return None;
                    }
                    assert(n[i - q] == self.chars@[i as int]);
                    i += 1;
                }
                Some((name, e))
            },
            None => None,
        }
    }

    /// `field_reference`
    pub fn field_reference(&self, p: usize) -> (r: Option<(String, usize)>)
        requires
            self.wf(),
            p <= self.chars@.len(),
        ensures
            match r {
                Some((t, e)) => field_reference(self.chars@, p as int) == Some((t@, e as int)) && p
                    < e <= self.chars@.len(),
                None => field_reference(self.chars@, p as int) is None,
            },
    {
        proof {
            reveal(field_reference);
        }
        proof {
            lemma_field_reference(self.chars@, p as int);
        }
        let q = self.skip_wsc(p);
        if self.char_is(q, '&') && q + 1 < self.chars.len() && is_alpha_char(self.chars[q + 1]) {
            let e = self.ident_tail_end(q + 2);
            Some((self.text_between(q, e), e))
        } else {
            None
        }
    }
}

} // verus!
