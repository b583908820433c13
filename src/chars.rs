use vstd::prelude::*;

verus! {

/// Whether `c` is alphanumeric in the Unicode sense of `char::is_alphanumeric`.
pub uninterp spec fn is_alnum(c: char) -> bool;

/// Whether `c` has the Unicode `White_Space` property, as `char::is_whitespace` reports it.
pub uninterp spec fn is_space(c: char) -> bool;

/// A character together with the two classes the scanner asks about.
#[derive(Debug, Clone, Copy, PartialEq, Eq, Structural)]
pub struct CharInfo {
    pub ch: char,
    pub alnum: bool,
    pub space: bool,
}

/// The classification of one character.
pub open spec fn info_of(c: char) -> CharInfo {
    CharInfo { ch: c, alnum: is_alnum(c), space: is_space(c) }
}

/// The classification of every character of a text, in order.
pub open spec fn classified(s: Seq<char>) -> Seq<CharInfo> {
    s.map_values(|c: char| info_of(c))
}

/// The characters of a classified text.
pub open spec fn texts(cs: Seq<CharInfo>) -> Seq<char> {
    cs.map_values(|c: CharInfo| c.ch)
}

/// Relies on `char::is_alphanumeric`: its answer depends on the character alone.
#[verifier::external_body]
fn char_is_alphanumeric(c: char) -> (r: bool)
    ensures
        r == is_alnum(c),
{
    c.is_alphanumeric()
}

/// Relies on `char::is_whitespace`: its answer depends on the character alone.
#[verifier::external_body]
fn char_is_whitespace(c: char) -> (r: bool)
    ensures
        r == is_space(c),
{
    c.is_whitespace()
}

/// Relies on `str::chars`: it yields the characters of the text in order.
#[verifier::external_body]
pub(crate) fn chars_of(s: &str) -> (r: Vec<char>)
    ensures
        r@ == s@,
{
    s.chars().collect()
}

/// Relies on `String`'s `FromIterator<&char>`: the string holds the characters in order.
#[verifier::external_body]
pub(crate) fn string_of(cs: &Vec<char>) -> (r: String)
    ensures
        r@ == cs@,
{
    cs.iter().collect()
}

/// Classifies one character.
pub fn classify_char(c: char) -> (r: CharInfo)
    ensures
        r == info_of(c),
{
    CharInfo { ch: c, alnum: char_is_alphanumeric(c), space: char_is_whitespace(c) }
}

/// Classifies every character of `s`, in order.
pub fn classify(s: &str) -> (r: Vec<CharInfo>)
    ensures
        r@ == classified(s@),
{
    let cs = chars_of(s);
    let mut out: Vec<CharInfo> = Vec::new();
    let mut i: usize = 0;
    while i < cs.len()
        invariant
            i <= cs@.len(),
            cs@ == s@,
            out@ == classified(cs@.subrange(0, i as int)),
        decreases cs.len() - i,
    {
        out.push(classify_char(cs[i]));
        proof {
            assert(cs@.subrange(0, i + 1) == cs@.subrange(0, i as int).push(cs@[i as int]));
        }
        i = i + 1;
    }
    assert(cs@.subrange(0, cs@.len() as int) == cs@);
    out
}

} // verus!
