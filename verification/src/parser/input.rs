use vstd::prelude::*;

verus! {

broadcast use vstd::string::group_string_axioms;

/// The text being parsed together with its characters, which the parsers
/// address by position.
pub struct Input<'a> {
    pub text: &'a str,
    pub chars: Vec<char>,
}

impl<'a> Input<'a> {
    pub open spec fn wf(&self) -> bool {
        &&& self.text@ == self.chars@
        &&& self.chars@.len() < usize::MAX
    }

    pub fn new(text: &'a str) -> (r: Input<'a>)
        requires
            text@.len() < usize::MAX,
        ensures
            r.wf(),
            r.text == text,
    {
        let mut chars: Vec<char> = Vec::new();
        for c in it: text.chars()
            invariant
                it.seq() == text@,
                chars@ == text@.take(it.index() as int),
        {
            assert(text@.take(it.index() + 1) =~= text@.take(it.index() as int).push(c));
            chars.push(c);
        }
        assert(text@.take(text@.len() as int) =~= text@);
        Input { text, chars }
    }
}

/// The executable outcome `r` of a parser (a value and the position after
/// it) agrees with the specified outcome.
pub open spec fn agrees<T: View>(r: Option<(T, usize)>, spec: Option<(T::V, int)>) -> bool {
    match r {
        Some((v, e)) => spec == Some((v@, e as int)),
        None => spec is None,
    }
}

/// Positions move forward and stay within the input.
pub open spec fn in_between(s: Seq<char>, p: int, q: int) -> bool {
    p <= q <= s.len()
}

/// The position moved forward by at least one character, within the input.
pub open spec fn moved_on(s: Seq<char>, p: int, q: int) -> bool {
    p < q <= s.len()
}

/// What a public parser returns for `input` agrees with the specified
/// outcome of parsing `input` from its start: on a match, the remaining text
/// is what follows the match and the value is the specified one; otherwise
/// an error.
pub open spec fn parsed<'a, T: View>(
    res: Result<(&'a str, T), ParseError>,
    input: Seq<char>,
    spec: Option<(T::V, int)>,
) -> bool {
    match spec {
        Some((v, e)) => {
            &&& 0 <= e <= input.len()
            &&& res matches Ok((rest, w))
            &&& rest@ == input.skip(e)
            &&& w@ == v
        },
        None => res is Err,
    }
}

/// The error of a parser that does not match its input.
#[derive(Debug, Clone, Copy, PartialEq, Eq)]
pub struct ParseError;

/// Turns the outcome of a parser run on all of `text` into the remaining text
/// and the value.
pub fn finish<'a, T>(text: &'a str, r: Option<(T, usize)>) -> (res: Result<(&'a str, T), ParseError>)
    requires
        r matches Some((_, e)) ==> e <= text@.len(),
    ensures
        match r {
            Some((v, e)) => res matches Ok((rest, w)) && rest@ == text@.skip(e as int) && w == v,
            None => res is Err,
        },
{
    match r {
        Some((v, e)) => {
            let n = text.unicode_len();
            Ok((text.substring_char(e, n), v))
        },
        None => Err(ParseError),
    }
}

} // verus!
