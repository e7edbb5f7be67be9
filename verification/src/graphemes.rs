//! Grapheme-cluster boundaries, as found by the `unicode-segmentation` crate,
//! and the cursor moves built on them.
use unicode_segmentation::UnicodeSegmentation;
use vstd::prelude::*;
use vstd::utf8::is_char_boundary;

use crate::text_spec::bytes_of;

verus! {

/// Byte offsets at which the extended grapheme clusters of `text` start,
/// in the order `UnicodeSegmentation::grapheme_indices(text, true)` yields them.
pub uninterp spec fn grapheme_starts_of(text: Seq<char>) -> Seq<usize>;

/// What the segmentation of a text guarantees of its cluster start offsets:
/// the clusters cover the text in order, so their starts strictly increase,
/// begin at 0 and are character boundaries inside the text.
pub open spec fn is_cluster_start_list(bytes: Seq<u8>, starts: Seq<usize>) -> bool {
    &&& (starts.len() == 0 <==> bytes.len() == 0)
    &&& (starts.len() > 0 ==> starts[0] == 0)
    &&& forall|i: int, j: int| 0 <= i < j < starts.len() ==> starts[i] < starts[j]
    &&& forall|i: int|
        0 <= i < starts.len() ==> starts[i] < bytes.len() && is_char_boundary(
            bytes,
            #[trigger] starts[i] as int,
        )
}

/// `text.grapheme_indices(true)`, keeping the offsets.  Its contract names the
/// offsets and states only that the clusters partition the text in order.
#[verifier::external_body]
fn grapheme_starts(text: &str) -> (starts: Vec<usize>)
    ensures
        starts@ == grapheme_starts_of(text@),
        is_cluster_start_list(bytes_of(text@), starts@),
{
    text.grapheme_indices(true).map(|(offset, _)| offset).collect()
}

/// The last start, in the order given, that lies before `offset`; 0 when there is none.
pub open spec fn last_start_before(starts: Seq<usize>, offset: int) -> int
    decreases starts.len(),
{
    if starts.len() == 0 {
        0
    } else if starts.last() < offset {
        starts.last() as int
    } else {
        last_start_before(starts.drop_last(), offset)
    }
}

/// The first start, in the order given, that lies after `offset`; `end` when there is none.
pub open spec fn first_start_after(starts: Seq<usize>, offset: int, end: int) -> int
    decreases starts.len(),
{
    if starts.len() == 0 {
        end
    } else if starts[0] > offset {
        starts[0] as int
    } else {
        first_start_after(starts.drop_first(), offset, end)
    }
}

/// Searches `starts` from the back for the first entry below `offset`.
pub fn previous_start_in(starts: &Vec<usize>, offset: usize) -> (r: usize)
    ensures
        r == last_start_before(starts@, offset as int),
{
    let mut i = starts.len();
    proof {
        assert(starts@.take(i as int) =~= starts@);
    }
    while i > 0
        invariant
            i <= starts.len(),
            last_start_before(starts@, offset as int) == last_start_before(
                starts@.take(i as int),
                offset as int,
            ),
        decreases i,
    {
        proof {
            assert(starts@.take(i as int).drop_last() =~= starts@.take(i - 1));
        }
        if starts[i - 1] < offset {
            return starts[i - 1];
        }
        i = i - 1;
    }
    proof {
        assert(starts@.take(i as int) =~= Seq::<usize>::empty());
    }
    0
}

/// Searches `starts` from the front for the first entry above `offset`.
pub fn next_start_in(starts: &Vec<usize>, offset: usize, end: usize) -> (r: usize)
    ensures
        r == first_start_after(starts@, offset as int, end as int),
{
    let mut i: usize = 0;
    proof {
        assert(starts@.skip(0) =~= starts@);
    }
    while i < starts.len()
        invariant
            i <= starts.len(),
            first_start_after(starts@, offset as int, end as int) == first_start_after(
                starts@.skip(i as int),
                offset as int,
                end as int,
            ),
        decreases starts.len() - i,
    {
        proof {
            assert(starts@.skip(i as int).drop_first() =~= starts@.skip(i + 1));
        }
        if starts[i] > offset {
            return starts[i];
        }
        i = i + 1;
    }
    proof {
        assert(starts@.skip(i as int) =~= Seq::<usize>::empty());
    }
    end
}

/// The start of the grapheme cluster before `offset` in `text` (0 at the start).
pub fn previous_boundary_of(text: &str, offset: usize) -> (r: usize)
    ensures
        r == last_start_before(grapheme_starts_of(text@), offset as int),
        is_char_boundary(bytes_of(text@), r as int),
        offset > 0 ==> r < offset,
{
    let starts = grapheme_starts(text);
    proof {
        vstd::utf8::encode_utf8_valid_utf8(text@);
        lemma_last_start_before_general(bytes_of(text@), starts@, offset as int);
    }
    previous_start_in(&starts, offset)
}

/// The start of the grapheme cluster after `offset` in `text` (its length at the end).
pub fn next_boundary_of(text: &str, offset: usize) -> (r: usize)
    ensures
        r == first_start_after(grapheme_starts_of(text@), offset as int, bytes_of(text@).len() as int),
        is_char_boundary(bytes_of(text@), r as int),
        r <= bytes_of(text@).len(),
        offset < bytes_of(text@).len() ==> offset < r,
{
    let end = crate::strings::byte_len(text);
    let starts = grapheme_starts(text);
    proof {
        vstd::utf8::encode_utf8_valid_utf8(text@);
        lemma_first_start_after_general(bytes_of(text@), starts@, offset as int);
    }
    next_start_in(&starts, offset, end)
}

/// The cluster start before an offset is a character boundary below it.
pub proof fn lemma_last_start_before_general(bytes: Seq<u8>, starts: Seq<usize>, offset: int)
    requires
        vstd::utf8::valid_utf8(bytes),
        forall|i: int|
            0 <= i < starts.len() ==> starts[i] < bytes.len() && is_char_boundary(
                bytes,
                #[trigger] starts[i] as int,
            ),
    ensures
        is_char_boundary(bytes, last_start_before(starts, offset)),
        offset > 0 ==> last_start_before(starts, offset) < offset,
        offset >= 0 ==> last_start_before(starts, offset) <= offset,
    decreases starts.len(),
{
    vstd::utf8::is_char_boundary_start_end_of_seq(bytes);
    if starts.len() > 0 {
        assert(starts[starts.len() - 1] == starts.last());
        if starts.last() >= offset {
            let d = starts.drop_last();
            assert forall|i: int| 0 <= i < d.len() implies d[i] < bytes.len() && is_char_boundary(
                bytes,
                #[trigger] d[i] as int,
            ) by {
                assert(d[i] == starts[i]);
            }
            lemma_last_start_before_general(bytes, d, offset);
        }
    }
}

/// The cluster start after an offset is a character boundary above it.
pub proof fn lemma_first_start_after_general(bytes: Seq<u8>, starts: Seq<usize>, offset: int)
    requires
        vstd::utf8::valid_utf8(bytes),
        forall|i: int|
            0 <= i < starts.len() ==> starts[i] < bytes.len() && is_char_boundary(
                bytes,
                #[trigger] starts[i] as int,
            ),
    ensures
        is_char_boundary(bytes, first_start_after(starts, offset, bytes.len() as int)),
        first_start_after(starts, offset, bytes.len() as int) <= bytes.len(),
        offset < bytes.len() ==> offset < first_start_after(starts, offset, bytes.len() as int),
    decreases starts.len(),
{
    vstd::utf8::is_char_boundary_start_end_of_seq(bytes);
    if starts.len() > 0 && starts[0] <= offset {
        let d = starts.drop_first();
        assert forall|i: int| 0 <= i < d.len() implies d[i] < bytes.len() && is_char_boundary(
            bytes,
            #[trigger] d[i] as int,
        ) by {
            assert(d[i] == starts[i + 1]);
        }
        lemma_first_start_after_general(bytes, d, offset);
    }
}

} // verus!
