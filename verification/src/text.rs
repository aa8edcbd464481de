//! Byte strings that are written as text.

use vstd::prelude::*;

verus! {

/// The bytes of an ASCII text, one for each character.
pub open spec fn ascii(s: Seq<char>) -> Seq<u8> {
    s.map_values(|c: char| c as u8)
}

/// The bytes of an ASCII literal.
pub(crate) fn text(s: &'static str) -> (r: &'static [u8])
    requires
        vstd::utf8::is_ascii_chars(s@),
    ensures
        r@ == ascii(s@),
{
    proof {
        vstd::utf8::is_ascii_chars_encode_utf8(s@);
    }
    let r = s.as_bytes();
    assert(r@ =~= ascii(s@));
    r
}

/// The smaller of two lengths.
pub open spec fn smaller(a: int, b: int) -> int {
    if a <= b {
        a
    } else {
        b
    }
}

/// The first `n` bytes of a run, or all of it where it is shorter.
pub open spec fn at_most(s: Seq<u8>, n: int) -> Seq<u8> {
    s.take(smaller(s.len() as int, n))
}

/// A run that is not longer than `n` is kept whole, and of a longer one exactly
/// the first `n` bytes are.
pub proof fn law_at_most(s: Seq<u8>, n: int)
    requires
        0 <= n,
    ensures
        s.len() <= n ==> at_most(s, n) == s,
        s.len() > n ==> at_most(s, n).len() == n,
        at_most(s, n).is_prefix_of(s),
{
    assert(s.take(s.len() as int) =~= s);
}

/// The bytes of an ASCII text are those that encode it as UTF-8.
pub proof fn law_ascii(s: Seq<char>)
    requires
        vstd::utf8::is_ascii_chars(s),
    ensures
        ascii(s) == vstd::utf8::encode_utf8(s),
        ascii(s).len() == s.len(),
{
    vstd::utf8::is_ascii_chars_encode_utf8(s);
    assert(ascii(s) =~= vstd::utf8::encode_utf8(s));
}

} // verus!
