//! The offset translator: byte offsets into a text, as the buffer counts
//! them, against UTF-16 offsets, as an input method counts them.

use crate::encoding::{
    byte_len, chars_before, from_utf16, is_boundary, lemma_boundary_offset,
    lemma_chars_before_is, lemma_convert_boundary, lemma_convert_monotonic,
    lemma_ends_are_boundaries, lemma_offset_ends, lemma_offset_injective, lemma_offset_step,
    offset_of, to_utf16, Encoding,
};
use crate::utf8::{byte_length, lemma_encode_len, lemma_leading_byte, on_boundary};
use std::ops::Range;
use vstd::prelude::*;
use vstd::string::StringSliceAdditionalSpecFns;

verus! {

/// Where a character begins, counted in bytes and in UTF-16 code units.
#[derive(Clone, Copy, Debug, PartialEq, Eq, Structural)]
pub struct Position {
    /// Offset in bytes of the UTF-8 form.
    pub bytes: usize,
    /// Offset in code units of the UTF-16 form.
    pub units: usize,
}

/// The one of two offsets that is counted in `e`.
fn at_in(e: Encoding, bytes: usize, units: usize) -> (r: usize)
    ensures
        r == match e {
            Encoding::Utf8 => bytes,
            Encoding::Utf16 => units,
        },
{
    match e {
        Encoding::Utf8 => bytes,
        Encoding::Utf16 => units,
    }
}

/// Walks `s` character by character up to the first character that does
/// not begin before `limit`, an offset counted in `e`, and tells where
/// that character begins (the end of the text, if there is none).
pub fn locate(s: &str, e: Encoding, limit: usize) -> (at: Position)
    ensures
        at.bytes == offset_of(Encoding::Utf8, s@, chars_before(e, s@, limit as int) as int),
        at.units == offset_of(Encoding::Utf16, s@, chars_before(e, s@, limit as int) as int),
        at.units <= at.bytes <= byte_len(s@),
{
    let bytes = s.as_bytes();
    let n: usize = bytes.len();
    let mut i: usize = 0;
    let mut units: usize = 0;
    let ghost mut k: int = 0;
    proof {
        lemma_encode_len(s@);
        lemma_offset_ends(Encoding::Utf8, s@);
        lemma_offset_ends(Encoding::Utf16, s@);
    }
    while i < n && at_in(e, i, units) < limit
        invariant
            bytes@ == s.spec_bytes(),
            n == bytes@.len(),
            n == byte_len(s@),
            0 <= k <= s@.len(),
            i == offset_of(Encoding::Utf8, s@, k),
            units == offset_of(Encoding::Utf16, s@, k),
            units <= i <= n,
            k > 0 ==> offset_of(e, s@, k - 1) < limit,
        decreases n - i,
    {
        proof {
            if k == s@.len() {
                lemma_offset_ends(Encoding::Utf8, s@);
            }
            lemma_leading_byte(s@, k);
            lemma_offset_step(Encoding::Utf8, s@, k);
            lemma_offset_step(Encoding::Utf16, s@, k);
        }
        let b: u8 = bytes[i];
        if b < 0x80 {
            i = i + 1;
            units = units + 1;
        } else if b < 0xe0 {
            i = i + 2;
            units = units + 1;
        } else if b < 0xf0 {
            i = i + 3;
            units = units + 1;
        } else {
            i = i + 4;
            units = units + 2;
        }
        proof {
            k = k + 1;
        }
    }
    proof {
        lemma_offset_ends(Encoding::Utf8, s@);
        if i >= n {
            lemma_offset_injective(Encoding::Utf8, s@, k, s@.len() as int);
        }
        lemma_chars_before_is(e, s@, limit as int, k);
    }
    Position { bytes: i, units }
}

/// The UTF-16 offset that stands for the byte offset `offset`: the
/// number of code units of all characters that begin before it.
pub fn offset_to_utf16(s: &str, offset: usize) -> (units: usize)
    ensures
        units == to_utf16(s@, offset as int),
{
    locate(s, Encoding::Utf8, offset).units
}

/// The byte offset that stands for the UTF-16 offset `units`: that of
/// the first character with `units` code units or more before it, or
/// the length of the text if there is none.
pub fn offset_from_utf16(s: &str, units: usize) -> (offset: usize)
    ensures
        offset == from_utf16(s@, units as int),
        is_boundary(s@, offset as int),
        offset <= byte_len(s@),
{
    proof {
        lemma_convert_boundary(Encoding::Utf16, Encoding::Utf8, s@, units as int);
    }
    locate(s, Encoding::Utf16, units).bytes
}

/// Both ends of a byte range, each as a UTF-16 offset.
pub fn range_to_utf16(s: &str, range: &Range<usize>) -> (units: Range<usize>)
    ensures
        units.start == to_utf16(s@, range.start as int),
        units.end == to_utf16(s@, range.end as int),
{
    offset_to_utf16(s, range.start)..offset_to_utf16(s, range.end)
}

/// Both ends of a UTF-16 range, each as a byte offset.
pub fn range_from_utf16(s: &str, range: &Range<usize>) -> (bytes: Range<usize>)
    ensures
        bytes.start == from_utf16(s@, range.start as int),
        bytes.end == from_utf16(s@, range.end as int),
        is_boundary(s@, bytes.start as int),
        is_boundary(s@, bytes.end as int),
        bytes.end <= byte_len(s@),
        range.start <= range.end ==> bytes.start <= bytes.end,
{
    proof {
        if range.start <= range.end {
            lemma_convert_monotonic(
                Encoding::Utf16,
                Encoding::Utf8,
                s@,
                range.start as int,
                range.end as int,
            );
        }
    }
    offset_from_utf16(s, range.start)..offset_from_utf16(s, range.end)
}

/// True when `r` is the last boundary of `s` that is not beyond
/// `offset`.
pub open spec fn is_floor_boundary(s: Seq<char>, offset: int, r: int) -> bool {
    &&& is_boundary(s, r)
    &&& r <= offset
    &&& forall|b: int| r < b <= offset ==> !is_boundary(s, b)
}

/// The last boundary of `s` that is not beyond `offset`: `offset`
/// itself where it is one, the end of the text where `offset` is beyond
/// it, and else the start of the character that `offset` splits.
pub open spec fn floor_boundary(s: Seq<char>, offset: int) -> int {
    choose|r: int| is_floor_boundary(s, offset, r)
}

/// There is one last boundary at most.
pub proof fn lemma_floor_boundary_is(s: Seq<char>, offset: int, r: int)
    requires
        is_floor_boundary(s, offset, r),
    ensures
        floor_boundary(s, offset) == r,
{
}

/// Every offset that is not negative has a last boundary before or on
/// it, in the text.
pub proof fn lemma_floor_exists(s: Seq<char>, offset: int)
    requires
        0 <= offset,
    ensures
        is_floor_boundary(s, offset, floor_boundary(s, offset)),
        0 <= floor_boundary(s, offset) <= byte_len(s),
    decreases offset,
{
    lemma_ends_are_boundaries(Encoding::Utf8, s);
    if is_boundary(s, offset) {
        lemma_floor_boundary_is(s, offset, offset);
    } else {
        lemma_floor_exists(s, offset - 1);
        let r = floor_boundary(s, offset - 1);
        assert(is_floor_boundary(s, offset, r));
        lemma_floor_boundary_is(s, offset, r);
    }
    lemma_boundary_offset(Encoding::Utf8, s, floor_boundary(s, offset));
}

/// A boundary is its own floor.
pub proof fn lemma_floor_of_boundary(s: Seq<char>, offset: int)
    requires
        is_boundary(s, offset),
    ensures
        floor_boundary(s, offset) == offset,
{
    lemma_floor_boundary_is(s, offset, offset);
}

/// The floor of an offset at or beyond the end of the text is the end of
/// the text.
pub proof fn lemma_floor_past_end(s: Seq<char>, offset: int)
    requires
        byte_len(s) <= offset,
    ensures
        floor_boundary(s, offset) == byte_len(s),
        is_floor_boundary(s, offset, byte_len(s) as int),
{
    lemma_ends_are_boundaries(Encoding::Utf8, s);
    assert forall|b: int| byte_len(s) < b <= offset implies !is_boundary(s, b) by {
        if is_boundary(s, b) {
            lemma_boundary_offset(Encoding::Utf8, s, b);
        }
    }
    lemma_floor_boundary_is(s, offset, byte_len(s) as int);
}

/// The last boundary of `s` that is not beyond `offset`.
pub fn snap_to_boundary(s: &str, offset: usize) -> (r: usize)
    ensures
        r == floor_boundary(s@, offset as int),
        is_floor_boundary(s@, offset as int, r as int),
        r <= byte_len(s@),
{
    let n = byte_length(s);
    proof {
        lemma_ends_are_boundaries(Encoding::Utf8, s@);
    }
    if offset >= n {
        proof {
            lemma_floor_past_end(s@, offset as int);
        }
        return n;
    }
    let mut i: usize = offset;
    while !on_boundary(s, i)
        invariant
            i <= offset < n,
            n == byte_len(s@),
            is_boundary(s@, 0),
            forall|b: int| i < b <= offset ==> !is_boundary(s@, b),
        decreases i,
    {
        i = i - 1;
    }
    proof {
        lemma_floor_boundary_is(s@, offset as int, i as int);
    }
    i
}

} // verus!
