//! Conversions between strings and character vectors.

use vstd::prelude::*;
use vstd::utf8::{
    encode_scalar, encode_utf8, has_width_1_encoding, is_ascii_chars, is_ascii_chars_encode_utf8,
};
use crate::common::{is_alphanumeric, upper_seq};

verus! {

/// The upper-case form that the standard library gives a string, as
/// `str::to_uppercase` computes it from the Unicode tables.
pub uninterp spec fn uppercase_of(s: Seq<char>) -> Seq<char>;

/// The upper-case form of `s`: letter by letter for ASCII text, and what
/// `uppercase_of` names for any other.
pub open spec fn uppercased(s: Seq<char>) -> Seq<char> {
    if is_ascii_chars(s) {
        upper_seq(s)
    } else {
        uppercase_of(s)
    }
}

/// Calls `str::to_uppercase`, whose result is only named.
#[verifier::external_body]
pub(crate) fn to_uppercase(s: &str) -> (r: String)
    ensures
        r@ == uppercase_of(s@),
{
    s.to_uppercase()
}

/// Calls `String::push`, which appends one character to the string.
#[verifier::external_body]
pub(crate) fn push_char(s: &mut String, c: char)
    ensures
        final(s)@ == old(s)@.push(c),
{
    s.push(c)
}

/// Text whose UTF-8 bytes are all below 128 holds ASCII characters only.
pub proof fn ascii_bytes_ascii_chars(s: Seq<char>)
    requires
        forall|i: int| 0 <= i < encode_utf8(s).len() ==> encode_utf8(s)[i] < 128,
    ensures
        is_ascii_chars(s),
    decreases s.len(),
{
    if s.len() > 0 {
        vstd::utf8::char_is_scalar(s[0]);
        let c0 = s[0] as u32;
        let head = encode_scalar(c0);
        let rest = encode_utf8(s.drop_first());
        assert(encode_utf8(s) == head + rest);
        assert(encode_utf8(s)[0] == head[0]);
        if !has_width_1_encoding(c0) {
            let b2 = ((c0 >> 6) & 0x1F) as u8;
            let b3 = ((c0 >> 12) & 0x0F) as u8;
            let b4 = ((c0 >> 18) & 0x7) as u8;
            assert((0xC0u8 | b2) >= 0xC0u8) by (bit_vector);
            assert((0xE0u8 | b3) >= 0xC0u8) by (bit_vector);
            assert((0xF0u8 | b4) >= 0xC0u8) by (bit_vector);
            assert(false);
        }
        assert forall|i: int| 0 <= i < rest.len() implies rest[i] < 128 by {
            assert(encode_utf8(s)[i + 1] == rest[i]);
        }
        ascii_bytes_ascii_chars(s.drop_first());
        assert forall|i: int| 0 <= i < s.len() implies '\0' <= #[trigger] s[i] <= '\u{7f}' by {
            if i > 0 {
                assert(s.drop_first()[i - 1] == s[i]);
            } else {
                vstd::utf8::char_u32_cast(s[0], c0);
            }
        }
    }
}

/// Text made of ASCII letters and digits is ASCII text.
pub proof fn alphanumeric_is_ascii(s: Seq<char>)
    requires
        forall|i: int| 0 <= i < s.len() ==> is_alphanumeric(#[trigger] s[i]),
    ensures
        is_ascii_chars(s),
{
    assert forall|i: int| 0 <= i < s.len() implies '\0' <= #[trigger] s[i] <= '\u{7f}' by {
        assert(is_alphanumeric(s[i]));
    }
}

/// ASCII text has one UTF-8 byte for each character, with the same number.
pub proof fn ascii_chars_bytes(s: Seq<char>)
    requires
        is_ascii_chars(s),
    ensures
        encode_utf8(s).len() == s.len(),
        forall|i: int| 0 <= i < s.len() ==> #[trigger] encode_utf8(s)[i] == s[i] as u8,
{
    is_ascii_chars_encode_utf8(s);
}

/// The characters of `s`, in order.
pub fn chars_of(s: &str) -> (v: Vec<char>)
    ensures
        v@ == s@,
{
    let mut v: Vec<char> = Vec::new();
    let it = s.chars();
    for c in iter: it
        invariant
            iter.seq() == s@,
            v@ == s@.take(iter.index()),
    {
        v.push(c);
    }
    v
}

/// The string whose characters are those of `v`, in order.
pub fn string_of(v: &Vec<char>) -> (s: String)
    ensures
        s@ == v@,
{
    let mut s = String::new();
    let mut i: usize = 0;
    while i < v.len()
        invariant
            i <= v.len(),
            s@ == v@.take(i as int),
        decreases v.len() - i,
    {
        push_char(&mut s, v[i]);
        i += 1;
    }
    s
}

} // verus!
