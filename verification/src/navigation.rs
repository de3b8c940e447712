//! The navigation engine: where the caret goes when it moves by one
//! user-perceived character, a grapheme cluster, to the left or to the
//! right.

use crate::encoding::{
    byte_len, char_index, is_boundary, lemma_boundary_of_prefix, lemma_boundary_of_suffix,
    lemma_boundary_offset, lemma_ends_are_boundaries, lemma_length_split, lemma_offset_ends,
    Encoding,
};
use crate::utf8::{byte_length, split_text};
use unicode_segmentation::UnicodeSegmentation;
use vstd::prelude::*;

verus! {

/// The byte offsets at which the extended grapheme clusters of `text`
/// begin, in the order of the text.
pub uninterp spec fn cluster_starts(text: Seq<char>) -> Seq<usize>;

/// What holds of the offsets at which the clusters of a text begin: a
/// text that is not empty has a first cluster, at offset zero; each
/// cluster begins between two characters, before the end of the text;
/// and each begins after the one before it.
pub open spec fn is_segmentation(text: Seq<char>, starts: Seq<usize>) -> bool {
    &&& text.len() > 0 ==> starts.len() > 0 && starts[0] == 0
    &&& forall|i: int|
        0 <= i < starts.len() ==> is_boundary(text, #[trigger] starts[i] as int) && starts[i]
            < byte_len(text)
    &&& forall|i: int, j: int| 0 <= i < j < starts.len() ==> starts[i] < starts[j]
}

/// Calls `UnicodeSegmentation::grapheme_indices` for extended clusters
/// and keeps the offset of each cluster. The clusters are consecutive
/// pieces of the text, none of them empty, the first at offset zero; the
/// contract says so and names the offsets, and nothing of it is proved.
#[verifier::external_body]
fn grapheme_starts(text: &str) -> (starts: Vec<usize>)
    ensures
        starts@ == cluster_starts(text@),
        is_segmentation(text@, starts@),
{
    text.grapheme_indices(true).map(|(offset, _)| offset).collect()
}

/// Where the last of the clusters that begin at `starts` begins; zero
/// where there is no cluster.
pub open spec fn last_cluster_start(starts: Seq<usize>) -> int {
    if starts.len() == 0 {
        0
    } else {
        starts.last() as int
    }
}

/// Where the first of the clusters that begin at `starts` ends, the
/// clusters being those of a text that begins at `cursor` and ends at
/// `end`.
pub open spec fn first_cluster_end(starts: Seq<usize>, cursor: int, end: int) -> int {
    if starts.len() >= 2 {
        cursor + starts[1]
    } else {
        end
    }
}

/// The boundary to which the caret at `cursor` moves on "left": the
/// start of the last cluster of the text before the caret.
pub open spec fn previous_boundary(text: Seq<char>, cursor: int) -> int {
    if cursor <= 0 {
        cursor
    } else {
        last_cluster_start(cluster_starts(text.take(char_index(text, cursor))))
    }
}

/// The boundary to which the caret at `cursor` moves on "right": the
/// end of the first cluster of the text after the caret.
pub open spec fn next_boundary(text: Seq<char>, cursor: int) -> int {
    if cursor >= byte_len(text) {
        cursor
    } else {
        first_cluster_end(
            cluster_starts(text.skip(char_index(text, cursor))),
            cursor,
            byte_len(text) as int,
        )
    }
}

/// Where the last of the clusters that begin at `starts` begins; zero
/// where there is no cluster.
pub fn start_of_last_cluster(starts: &Vec<usize>) -> (r: usize)
    ensures
        r == last_cluster_start(starts@),
{
    let n = starts.len();
    if n == 0 {
        0
    } else {
        starts[n - 1]
    }
}

/// Where the first of the clusters that begin at `starts` ends: the
/// start of the second, counted from `cursor`, or `end` where there is
/// no second.
pub fn end_of_first_cluster(starts: &Vec<usize>, cursor: usize, end: usize) -> (r: usize)
    requires
        starts@.len() >= 2 ==> cursor + starts@[1] <= usize::MAX,
    ensures
        r == first_cluster_end(starts@, cursor as int, end as int),
{
    if starts.len() >= 2 {
        cursor + starts[1]
    } else {
        end
    }
}

/// The boundary to which the caret at `cursor` moves on "left".
pub fn boundary_before(text: &str, cursor: usize) -> (r: usize)
    requires
        is_boundary(text@, cursor as int),
    ensures
        r == previous_boundary(text@, cursor as int),
        is_boundary(text@, r as int),
        r <= cursor,
        cursor > 0 ==> r < cursor,
{
    if cursor == 0 {
        return 0;
    }
    let ghost k = char_index(text@, cursor as int);
    let (head, _) = split_text(text, cursor);
    let starts = grapheme_starts(head);
    let r = start_of_last_cluster(&starts);
    proof {
        let e = Encoding::Utf8;
        lemma_boundary_offset(e, text@, cursor as int);
        lemma_offset_ends(e, text@);
        if head@.len() == 0 {
            assert(text@.take(k) =~= text@.take(0));
        }
        assert(starts@.len() > 0);
        assert(is_boundary(head@, starts@[starts@.len() - 1] as int));
        lemma_boundary_of_prefix(e, text@, k, r as int);
    }
    r
}

/// The boundary to which the caret at `cursor` moves on "right".
pub fn boundary_after(text: &str, cursor: usize) -> (r: usize)
    requires
        is_boundary(text@, cursor as int),
    ensures
        r == next_boundary(text@, cursor as int),
        is_boundary(text@, r as int),
        cursor <= r <= byte_len(text@),
        cursor < byte_len(text@) ==> cursor < r,
{
    let end = byte_length(text);
    proof {
        lemma_boundary_offset(Encoding::Utf8, text@, cursor as int);
    }
    if cursor >= end {
        return cursor;
    }
    let ghost k = char_index(text@, cursor as int);
    let (_, tail) = split_text(text, cursor);
    let starts = grapheme_starts(tail);
    proof {
        let e = Encoding::Utf8;
        lemma_ends_are_boundaries(e, text@);
        lemma_length_split(e, text@, k);
        if starts@.len() >= 2 {
            assert(is_boundary(tail@, starts@[1] as int));
            assert(starts@[0] < starts@[1]);
            lemma_boundary_of_suffix(e, text@, k, starts@[1] as int);
        }
    }
    end_of_first_cluster(&starts, cursor, end)
}

} // verus!
