//! Strings as encoded text: what the bytes of a `str` have to do with the
//! model of `encoding`, and the few operations on `str` that the rest of
//! the library is built from.

use crate::encoding::{
    byte_len, char_index, is_boundary, lemma_boundary_offset, lemma_chars_before_monotonic,
    lemma_chars_before_offset_of, lemma_length_split, lemma_offset_drop_first,
    lemma_offset_ends, lemma_offset_increasing, lemma_offset_is_boundary, lemma_offset_step,
    offset_of, slice, utf8_width, Encoding,
};
use vstd::prelude::*;
use vstd::string::StringSliceAdditionalSpecFns;
use vstd::utf8::{
    char_is_scalar, encode_scalar, encode_utf8, encode_utf8_decode_utf8, encode_utf8_first_scalar,
    encode_utf8_valid_utf8, length_of_first_scalar, pop_first_scalar, valid_utf8,
};

verus! {

/// The UTF-8 form of a character has as many bytes as `utf8_width` says.
pub proof fn lemma_scalar_len(c: char)
    ensures
        encode_scalar(c as u32).len() == utf8_width(c),
{
    char_is_scalar(c);
}

/// The UTF-8 form of a text has as many bytes as `byte_len` says.
pub proof fn lemma_encode_len(s: Seq<char>)
    ensures
        encode_utf8(s).len() == byte_len(s),
    decreases s.len(),
{
    if s.len() > 0 {
        lemma_scalar_len(s[0]);
        lemma_encode_len(s.drop_first());
    }
}

/// The UTF-8 form of a text made of two parts is made of their two forms.
pub proof fn lemma_encode_concat(a: Seq<char>, b: Seq<char>)
    ensures
        encode_utf8(a + b) =~= encode_utf8(a) + encode_utf8(b),
    decreases a.len(),
{
    if a.len() == 0 {
        assert(a + b =~= b);
    } else {
        assert((a + b).drop_first() =~= a.drop_first() + b);
        lemma_encode_concat(a.drop_first(), b);
    }
}

/// Two texts with the same UTF-8 form are the same text.
pub proof fn lemma_encode_injective(a: Seq<char>, b: Seq<char>)
    requires
        encode_utf8(a) == encode_utf8(b),
    ensures
        a == b,
{
    encode_utf8_decode_utf8(a);
    encode_utf8_decode_utf8(b);
}

/// Cutting the UTF-8 form where character `k` begins gives the forms of
/// the first `k` characters and of the rest.
pub proof fn lemma_encode_split(s: Seq<char>, k: int)
    requires
        0 <= k <= s.len(),
    ensures
        encode_utf8(s).subrange(0, offset_of(Encoding::Utf8, s, k) as int) =~= encode_utf8(
            s.take(k),
        ),
        encode_utf8(s).subrange(
            offset_of(Encoding::Utf8, s, k) as int,
            encode_utf8(s).len() as int,
        ) =~= encode_utf8(s.skip(k)),
{
    assert(s =~= s.take(k) + s.skip(k));
    lemma_encode_concat(s.take(k), s.skip(k));
    lemma_encode_len(s.take(k));
}

/// The UTF-8 form without its first character.
proof fn lemma_encode_pop(s: Seq<char>)
    requires
        s.len() > 0,
    ensures
        valid_utf8(encode_utf8(s)),
        length_of_first_scalar(encode_utf8(s)) == utf8_width(s[0]),
        pop_first_scalar(encode_utf8(s)) =~= encode_utf8(s.drop_first()),
{
    encode_utf8_valid_utf8(s);
    encode_utf8_first_scalar(s);
    lemma_scalar_len(s[0]);
}

/// A boundary of a text without its first character, against a boundary
/// of the text.
proof fn lemma_boundary_unfold(s: Seq<char>, offset: int)
    requires
        s.len() > 0,
    ensures
        is_boundary(s, offset) <==> (offset == 0 || is_boundary(
            s.drop_first(),
            offset - utf8_width(s[0]),
        )),
{
    let e = Encoding::Utf8;
    let rest = s.drop_first();
    lemma_offset_ends(e, s);
    if is_boundary(s, offset) && offset != 0 {
        let k = choose|k: int| 0 <= k <= s.len() && #[trigger] offset_of(e, s, k) == offset;
        lemma_offset_drop_first(e, s, k);
        lemma_offset_is_boundary(e, rest, k - 1);
    }
    if offset == 0 {
        lemma_offset_is_boundary(e, s, 0);
    }
    if is_boundary(rest, offset - utf8_width(s[0])) {
        let k = choose|k: int|
            0 <= k <= rest.len() && #[trigger] offset_of(e, rest, k) == offset - utf8_width(s[0]);
        lemma_offset_drop_first(e, s, k + 1);
        lemma_offset_is_boundary(e, s, k + 1);
    }
}

/// The boundaries of `encoding` are the character boundaries that `str`
/// knows.
pub proof fn lemma_std_boundary(s: Seq<char>, offset: int)
    ensures
        vstd::utf8::is_char_boundary(encode_utf8(s), offset) <==> is_boundary(s, offset),
    decreases s.len(),
{
    let e = Encoding::Utf8;
    encode_utf8_valid_utf8(s);
    lemma_encode_len(s);
    if s.len() == 0 {
        lemma_offset_ends(e, s);
        if is_boundary(s, offset) {
            lemma_boundary_offset(e, s, offset);
        }
        if offset == 0 {
            lemma_offset_is_boundary(e, s, 0);
        }
    } else {
        lemma_encode_pop(s);
        lemma_boundary_unfold(s, offset);
        lemma_std_boundary(s.drop_first(), offset - utf8_width(s[0]));
        if is_boundary(s, offset) {
            lemma_boundary_offset(e, s, offset);
        }
    }
}

/// True when `b` can be the first byte of a character's UTF-8 form.
pub open spec fn is_leading_byte(b: u8) -> bool {
    b < 0x80 || 0xc0 <= b
}

/// Number of bytes in a UTF-8 form whose first byte is `b`.
pub open spec fn leading_byte_width(b: u8) -> nat {
    if b < 0x80 {
        1
    } else if b < 0xe0 {
        2
    } else if b < 0xf0 {
        3
    } else {
        4
    }
}

/// The byte at which character `k` begins tells how many bytes the
/// character occupies.
pub proof fn lemma_leading_byte(s: Seq<char>, k: int)
    requires
        0 <= k < s.len(),
    ensures
        offset_of(Encoding::Utf8, s, k) + utf8_width(s[k]) <= byte_len(s),
        is_leading_byte(encode_utf8(s)[offset_of(Encoding::Utf8, s, k) as int]),
        leading_byte_width(encode_utf8(s)[offset_of(Encoding::Utf8, s, k) as int]) == utf8_width(
            s[k],
        ),
{
    let e = Encoding::Utf8;
    let tail = s.skip(k);
    lemma_encode_split(s, k);
    lemma_encode_len(s);
    lemma_encode_len(tail);
    lemma_length_split(e, s, k);
    lemma_encode_pop(tail);
    encode_utf8_first_scalar(tail);
    lemma_offset_increasing(e, s, k, k + 1);
    lemma_offset_step(e, s, k);
    lemma_length_split(e, s, k + 1);
    let bytes = encode_utf8(s);
    let at = offset_of(e, s, k) as int;
    assert(encode_utf8(tail)[0] == bytes.subrange(at, bytes.len() as int)[0]);
}

/// Number of bytes that `s` occupies.
pub fn byte_length(s: &str) -> (n: usize)
    ensures
        n == byte_len(s@),
{
    proof {
        lemma_encode_len(s@);
    }
    s.as_bytes().len()
}

/// Tells whether the byte offset `offset` falls between two characters
/// of `s`, at its start or at its end.
pub fn on_boundary(s: &str, offset: usize) -> (b: bool)
    ensures
        b == is_boundary(s@, offset as int),
{
    proof {
        lemma_std_boundary(s@, offset as int);
    }
    s.is_char_boundary(offset)
}

/// Cuts `s` in two at the byte offset `at`.
pub fn split_text<'a>(s: &'a str, at: usize) -> (parts: (&'a str, &'a str))
    requires
        is_boundary(s@, at as int),
    ensures
        parts.0@ == s@.take(char_index(s@, at as int)),
        parts.1@ == s@.skip(char_index(s@, at as int)),
{
    proof {
        lemma_std_boundary(s@, at as int);
    }
    let parts = s.split_at(at);
    proof {
        let k = char_index(s@, at as int);
        lemma_boundary_offset(Encoding::Utf8, s@, at as int);
        lemma_encode_split(s@, k);
        lemma_encode_injective(parts.0@, s@.take(k));
        lemma_encode_injective(parts.1@, s@.skip(k));
    }
    parts
}

/// The part of `s` between the byte offsets `start` and `end`.
pub fn slice_text<'a>(s: &'a str, start: usize, end: usize) -> (part: &'a str)
    requires
        start <= end,
        is_boundary(s@, start as int),
        is_boundary(s@, end as int),
    ensures
        part@ == slice(s@, start as int, end as int),
{
    let ghost ks = char_index(s@, start as int);
    let ghost ke = char_index(s@, end as int);
    let (head, _) = split_text(s, end);
    proof {
        let e = Encoding::Utf8;
        lemma_boundary_offset(e, s@, start as int);
        lemma_boundary_offset(e, s@, end as int);
        lemma_chars_before_monotonic(e, s@, start as int, end as int);
        assert(head@.take(ks) =~= s@.take(ks));
        lemma_offset_is_boundary(e, head@, ks);
        lemma_chars_before_offset_of(e, head@, ks);
    }
    let (_, part) = split_text(head, start);
    proof {
        assert(head@.skip(ks) =~= s@.subrange(ks, ke));
    }
    part
}

/// Tells whether two texts are the same.
pub fn same_text(a: &str, b: &str) -> (same: bool)
    ensures
        same == (a@ == b@),
{
    let x = a.as_bytes();
    let y = b.as_bytes();
    let n = x.len();
    if n != y.len() {
        return false;
    }
    let mut i: usize = 0;
    while i < n
        invariant
            n == x@.len(),
            n == y@.len(),
            x@ == a.spec_bytes(),
            y@ == b.spec_bytes(),
            0 <= i <= n,
            forall|j: int| 0 <= j < i ==> x@[j] == y@[j],
        decreases n - i,
    {
        if x[i] != y[i] {
            return false;
        }
        i = i + 1;
    }
    proof {
        assert(x@ =~= y@);
        lemma_encode_injective(a@, b@);
    }
    true
}

} // verus!
