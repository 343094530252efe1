use vstd::prelude::*;

verus! {

/// Relies on `String::push`: appends one character at the end.
#[verifier::external_body]
pub(crate) fn push_char(s: &mut String, c: char)
    ensures
        final(s)@ == old(s)@.push(c),
{
    s.push(c);
}

/// Relies on `char::from_u32`: `Some` of the character with that scalar
/// value, and `None` for a surrogate or a value above U+10FFFF.
#[verifier::external_body]
pub(crate) fn char_from_u32(v: u32) -> (r: Option<char>)
    ensures
        r matches Some(c) ==> c as u32 == v,
        r is None <==> (0xD800 <= v <= 0xDFFF || v > 0x10FFFF),
{
    char::from_u32(v)
}

/// Whether a character is an upper-case ASCII letter.
pub open spec fn is_upper(c: char) -> bool {
    'A' <= c && c <= 'Z'
}

/// A string holds no upper-case ASCII letter.
pub open spec fn no_upper(s: Seq<char>) -> bool {
    forall|i: int| 0 <= i < s.len() ==> !is_upper(#[trigger] s[i])
}

} // verus!
