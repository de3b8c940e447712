//! The mathematical model of encoded text.
//!
//! A text is a sequence of characters. Positions inside it are counted in
//! one of two units: bytes of its UTF-8 form, or code units of its UTF-16
//! form. This module says how long a text is in either unit, which
//! offsets fall between two characters, and how an offset in one unit is
//! carried over to the other.

use vstd::prelude::*;

verus! {

/// The unit in which an offset into a text is counted.
#[derive(Clone, Copy, Debug, PartialEq, Eq, Structural)]
pub enum Encoding {
    /// Bytes of the UTF-8 form.
    Utf8,
    /// Code units of the UTF-16 form.
    Utf16,
}

/// Number of bytes that `c` occupies in UTF-8.
pub open spec fn utf8_width(c: char) -> nat {
    if (c as u32) < 0x80 {
        1
    } else if (c as u32) < 0x800 {
        2
    } else if (c as u32) < 0x10000 {
        3
    } else {
        4
    }
}

/// Number of code units that `c` occupies in UTF-16.
pub open spec fn utf16_width(c: char) -> nat {
    if (c as u32) < 0x10000 {
        1
    } else {
        2
    }
}

/// Number of units that `c` occupies in the encoding `e`.
pub open spec fn width(e: Encoding, c: char) -> nat {
    match e {
        Encoding::Utf8 => utf8_width(c),
        Encoding::Utf16 => utf16_width(c),
    }
}

/// Number of units that the text `s` occupies in the encoding `e`.
pub open spec fn length(e: Encoding, s: Seq<char>) -> nat
    decreases s.len(),
{
    if s.len() == 0 {
        0
    } else {
        width(e, s[0]) + length(e, s.drop_first())
    }
}

/// Offset, in units of `e`, at which the character with index `k` begins
/// (for `k == s.len()`: the length of the whole text).
pub open spec fn offset_of(e: Encoding, s: Seq<char>, k: int) -> nat {
    length(e, s.take(k))
}

/// Number of characters of `s` that begin strictly before `offset`,
/// counted in units of `e`.
pub open spec fn chars_before(e: Encoding, s: Seq<char>, offset: int) -> nat
    decreases s.len(),
{
    if s.len() == 0 || offset <= 0 {
        0
    } else {
        1 + chars_before(e, s.drop_first(), offset - width(e, s[0]))
    }
}

/// True when `offset` falls between two characters of `s`, at its start
/// or at its end: it is the length of a prefix of `s`.
pub open spec fn is_boundary_in(e: Encoding, s: Seq<char>, offset: int) -> bool {
    exists|k: int| 0 <= k <= s.len() && #[trigger] offset_of(e, s, k) == offset
}

/// Carries `offset` from the encoding `from` over to the encoding `to`:
/// the length in `to` of all characters that begin before `offset`.
pub open spec fn convert(from: Encoding, to: Encoding, s: Seq<char>, offset: int) -> nat {
    offset_of(to, s, chars_before(from, s, offset) as int)
}

/// Number of bytes that `s` occupies in UTF-8.
pub open spec fn byte_len(s: Seq<char>) -> nat {
    length(Encoding::Utf8, s)
}

/// Number of code units that `s` occupies in UTF-16.
pub open spec fn utf16_len(s: Seq<char>) -> nat {
    length(Encoding::Utf16, s)
}

/// True when the byte offset `offset` does not split a character of `s`.
pub open spec fn is_boundary(s: Seq<char>, offset: int) -> bool {
    is_boundary_in(Encoding::Utf8, s, offset)
}

/// Index of the character at which the byte offset `offset` stands: the
/// number of characters of `s` that begin before it.
pub open spec fn char_index(s: Seq<char>, offset: int) -> int {
    chars_before(Encoding::Utf8, s, offset) as int
}

/// The UTF-16 offset that stands for the byte offset `offset`.
pub open spec fn to_utf16(s: Seq<char>, offset: int) -> nat {
    convert(Encoding::Utf8, Encoding::Utf16, s, offset)
}

/// The byte offset that stands for the UTF-16 offset `units`.
pub open spec fn from_utf16(s: Seq<char>, units: int) -> nat {
    convert(Encoding::Utf16, Encoding::Utf8, s, units)
}

/// The characters of `s` between the byte offsets `start` and `end`.
pub open spec fn slice(s: Seq<char>, start: int, end: int) -> Seq<char> {
    s.subrange(char_index(s, start), char_index(s, end))
}

/// The text `s` with the bytes from `start` to `end` replaced by `t`.
pub open spec fn splice(s: Seq<char>, start: int, end: int, t: Seq<char>) -> Seq<char> {
    s.take(char_index(s, start)) + t + s.skip(char_index(s, end))
}

/// The length of a text made of two parts is the sum of their lengths.
pub proof fn lemma_length_concat(e: Encoding, a: Seq<char>, b: Seq<char>)
    ensures
        length(e, a + b) == length(e, a) + length(e, b),
    decreases a.len(),
{
    if a.len() == 0 {
        assert(a + b =~= b);
    } else {
        assert((a + b).drop_first() =~= a.drop_first() + b);
        lemma_length_concat(e, a.drop_first(), b);
    }
}

/// The text is its prefix of `k` characters followed by the rest.
pub proof fn lemma_length_split(e: Encoding, s: Seq<char>, k: int)
    requires
        0 <= k <= s.len(),
    ensures
        length(e, s) == offset_of(e, s, k) + length(e, s.skip(k)),
        offset_of(e, s, k) <= length(e, s),
{
    assert(s =~= s.take(k) + s.skip(k));
    lemma_length_concat(e, s.take(k), s.skip(k));
}

/// The next character begins where this one ends.
pub proof fn lemma_offset_step(e: Encoding, s: Seq<char>, k: int)
    requires
        0 <= k < s.len(),
    ensures
        offset_of(e, s, k + 1) == offset_of(e, s, k) + width(e, s[k]),
{
    let one = seq![s[k]];
    assert(s.take(k + 1) =~= s.take(k) + one);
    lemma_length_concat(e, s.take(k), one);
    assert(length(e, one) == width(e, s[k])) by {
        reveal_with_fuel(length, 2);
    }
}

/// The first character begins at offset zero, and the end of the text is
/// at its length.
pub proof fn lemma_offset_ends(e: Encoding, s: Seq<char>)
    ensures
        offset_of(e, s, 0) == 0,
        offset_of(e, s, s.len() as int) == length(e, s),
{
    assert(s.take(0) =~= Seq::<char>::empty());
    assert(s.take(s.len() as int) =~= s);
}

/// Later characters begin at larger offsets.
pub proof fn lemma_offset_increasing(e: Encoding, s: Seq<char>, j: int, k: int)
    requires
        0 <= j <= k <= s.len(),
    ensures
        offset_of(e, s, j) + (k - j) <= offset_of(e, s, k),
    decreases k - j,
{
    if j < k {
        lemma_offset_increasing(e, s, j, k - 1);
        lemma_offset_step(e, s, k - 1);
    }
}

/// Two characters that begin at the same offset are the same character.
pub proof fn lemma_offset_injective(e: Encoding, s: Seq<char>, j: int, k: int)
    requires
        0 <= j <= s.len(),
        0 <= k <= s.len(),
        offset_of(e, s, j) == offset_of(e, s, k),
    ensures
        j == k,
{
    if j < k {
        lemma_offset_increasing(e, s, j, k);
    } else if k < j {
        lemma_offset_increasing(e, s, k, j);
    }
}

/// Offsets in the text without its first character, against offsets in
/// the text.
pub proof fn lemma_offset_drop_first(e: Encoding, s: Seq<char>, k: int)
    requires
        1 <= k <= s.len(),
    ensures
        offset_of(e, s, k) == width(e, s[0]) + offset_of(e, s.drop_first(), k - 1),
{
    assert(s.take(k).drop_first() =~= s.drop_first().take(k - 1));
}

/// `chars_before` is the one index `k` such that the characters before
/// `k` begin before `offset`, and the character `k`, if there is one,
/// does not.
pub proof fn lemma_chars_before_is(e: Encoding, s: Seq<char>, offset: int, k: int)
    requires
        0 <= k <= s.len(),
        k > 0 ==> offset_of(e, s, k - 1) < offset,
        k < s.len() ==> offset <= offset_of(e, s, k),
    ensures
        chars_before(e, s, offset) == k,
    decreases s.len(),
{
    lemma_offset_ends(e, s);
    if s.len() == 0 {
    } else if k == 0 {
    } else {
        let rest = s.drop_first();
        lemma_offset_drop_first(e, s, k);
        if k - 1 > 0 {
            lemma_offset_drop_first(e, s, k - 1);
        } else {
            lemma_offset_ends(e, rest);
        }
        lemma_chars_before_is(e, rest, offset - width(e, s[0]), k - 1);
    }
}

/// What `chars_before` returns: an index `k` as `lemma_chars_before_is`
/// asks for it.
pub proof fn lemma_chars_before_bounds(e: Encoding, s: Seq<char>, offset: int)
    ensures
        chars_before(e, s, offset) <= s.len(),
        chars_before(e, s, offset) > 0 ==> offset_of(e, s, chars_before(e, s, offset) - 1)
            < offset,
        chars_before(e, s, offset) < s.len() ==> offset <= offset_of(
            e,
            s,
            chars_before(e, s, offset) as int,
        ),
    decreases s.len(),
{
    lemma_offset_ends(e, s);
    if s.len() == 0 || offset <= 0 {
    } else {
        let rest = s.drop_first();
        let k = chars_before(e, s, offset) as int;
        lemma_chars_before_bounds(e, rest, offset - width(e, s[0]));
        lemma_offset_ends(e, rest);
        if k - 1 > 0 {
            lemma_offset_drop_first(e, s, k - 1);
        }
        if k < s.len() {
            lemma_offset_drop_first(e, s, k);
        }
    }
}

/// Before the offset at which character `k` begins, `k` characters begin.
pub proof fn lemma_chars_before_offset_of(e: Encoding, s: Seq<char>, k: int)
    requires
        0 <= k <= s.len(),
    ensures
        chars_before(e, s, offset_of(e, s, k) as int) == k,
{
    if k > 0 {
        lemma_offset_increasing(e, s, k - 1, k);
    }
    lemma_chars_before_is(e, s, offset_of(e, s, k) as int, k);
}

/// A boundary is the offset of the character that `chars_before` counts
/// up to.
pub proof fn lemma_boundary_offset(e: Encoding, s: Seq<char>, offset: int)
    requires
        is_boundary_in(e, s, offset),
    ensures
        chars_before(e, s, offset) <= s.len(),
        offset_of(e, s, chars_before(e, s, offset) as int) == offset,
        0 <= offset <= length(e, s),
{
    let k = choose|k: int| 0 <= k <= s.len() && #[trigger] offset_of(e, s, k) == offset;
    lemma_chars_before_offset_of(e, s, k);
    lemma_length_split(e, s, k);
}

/// The offset at which a character begins is a boundary.
pub proof fn lemma_offset_is_boundary(e: Encoding, s: Seq<char>, k: int)
    requires
        0 <= k <= s.len(),
    ensures
        is_boundary_in(e, s, offset_of(e, s, k) as int),
{
}

/// The start and the end of a text are boundaries.
pub proof fn lemma_ends_are_boundaries(e: Encoding, s: Seq<char>)
    ensures
        is_boundary_in(e, s, 0),
        is_boundary_in(e, s, length(e, s) as int),
{
    lemma_offset_ends(e, s);
    lemma_offset_is_boundary(e, s, 0);
    lemma_offset_is_boundary(e, s, s.len() as int);
}

/// An offset at or beyond the end of the text has every character before
/// it.
pub proof fn lemma_chars_before_past_end(e: Encoding, s: Seq<char>, offset: int)
    requires
        length(e, s) <= offset,
    ensures
        chars_before(e, s, offset) == s.len(),
{
    lemma_offset_ends(e, s);
    if s.len() > 0 {
        lemma_offset_increasing(e, s, s.len() - 1, s.len() as int);
    }
    lemma_chars_before_is(e, s, offset, s.len() as int);
}

/// A larger offset has at least as many characters before it.
pub proof fn lemma_chars_before_monotonic(e: Encoding, s: Seq<char>, a: int, b: int)
    requires
        a <= b,
    ensures
        chars_before(e, s, a) <= chars_before(e, s, b),
{
    let ka = chars_before(e, s, a) as int;
    let kb = chars_before(e, s, b) as int;
    lemma_chars_before_bounds(e, s, a);
    lemma_chars_before_bounds(e, s, b);
    if kb < ka {
        lemma_offset_increasing(e, s, kb, ka - 1);
    }
}

/// What `convert` returns is a boundary of the encoding it converts to,
/// and a larger offset is carried over to an offset at least as large.
pub proof fn lemma_convert_boundary(from: Encoding, to: Encoding, s: Seq<char>, offset: int)
    ensures
        is_boundary_in(to, s, convert(from, to, s, offset) as int),
        convert(from, to, s, offset) <= length(to, s),
{
    lemma_chars_before_bounds(from, s, offset);
    let k = chars_before(from, s, offset) as int;
    lemma_offset_is_boundary(to, s, k);
    lemma_length_split(to, s, k);
}

/// `convert` keeps the order of offsets.
pub proof fn lemma_convert_monotonic(
    from: Encoding,
    to: Encoding,
    s: Seq<char>,
    a: int,
    b: int,
)
    requires
        a <= b,
    ensures
        convert(from, to, s, a) <= convert(from, to, s, b),
{
    lemma_chars_before_monotonic(from, s, a, b);
    lemma_chars_before_bounds(from, s, b);
    lemma_offset_increasing(
        to,
        s,
        chars_before(from, s, a) as int,
        chars_before(from, s, b) as int,
    );
}

/// An offset on a boundary, carried over to another encoding and back,
/// is the offset again.
pub proof fn lemma_convert_round_trip(from: Encoding, to: Encoding, s: Seq<char>, offset: int)
    requires
        is_boundary_in(from, s, offset),
    ensures
        convert(to, from, s, convert(from, to, s, offset) as int) == offset,
{
    lemma_boundary_offset(from, s, offset);
    let k = chars_before(from, s, offset) as int;
    lemma_chars_before_offset_of(to, s, k);
}

/// A boundary of the first `k` characters is a boundary of the text.
pub proof fn lemma_boundary_of_prefix(e: Encoding, s: Seq<char>, k: int, offset: int)
    requires
        0 <= k <= s.len(),
        is_boundary_in(e, s.take(k), offset),
    ensures
        is_boundary_in(e, s, offset),
        offset <= offset_of(e, s, k),
{
    let head = s.take(k);
    let j = choose|j: int| 0 <= j <= head.len() && #[trigger] offset_of(e, head, j) == offset;
    assert(head.take(j) =~= s.take(j));
    lemma_offset_is_boundary(e, s, j);
    lemma_offset_increasing(e, s, j, k);
}

/// A boundary of the text after its first `k` characters, counted from
/// where they end, is a boundary of the text.
pub proof fn lemma_boundary_of_suffix(e: Encoding, s: Seq<char>, k: int, offset: int)
    requires
        0 <= k <= s.len(),
        is_boundary_in(e, s.skip(k), offset),
    ensures
        is_boundary_in(e, s, offset_of(e, s, k) + offset),
        offset_of(e, s, k) + offset <= length(e, s),
{
    let tail = s.skip(k);
    let j = choose|j: int| 0 <= j <= tail.len() && #[trigger] offset_of(e, tail, j) == offset;
    assert(s.take(k + j) =~= s.take(k) + tail.take(j));
    lemma_length_concat(e, s.take(k), tail.take(j));
    lemma_offset_is_boundary(e, s, k + j);
    lemma_length_split(e, s, k + j);
}

/// A text has at most as many UTF-16 code units as bytes.
pub proof fn lemma_utf16_not_longer(s: Seq<char>)
    ensures
        utf16_len(s) <= byte_len(s),
    decreases s.len(),
{
    if s.len() > 0 {
        lemma_utf16_not_longer(s.drop_first());
    }
}

/// A UTF-16 offset at or beyond the end of the text stands for the end
/// of the text.
pub proof fn lemma_from_utf16_past_end(s: Seq<char>, units: int)
    requires
        utf16_len(s) <= units,
    ensures
        from_utf16(s, units) == byte_len(s),
{
    lemma_chars_before_past_end(Encoding::Utf16, s, units);
    lemma_offset_ends(Encoding::Utf8, s);
}

/// A byte offset on a boundary, taken to UTF-16 and back, is the byte
/// offset again.
pub proof fn lemma_utf16_round_trip(s: Seq<char>, offset: int)
    requires
        is_boundary(s, offset),
    ensures
        from_utf16(s, to_utf16(s, offset) as int) == offset,
{
    lemma_convert_round_trip(Encoding::Utf8, Encoding::Utf16, s, offset);
}


} // verus!
