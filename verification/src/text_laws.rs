//! Properties of the text-editing model that relate several operations.
use core::ops::Range;
use vstd::prelude::*;
use vstd::utf8::{decode_utf8_encode_utf8, is_char_boundary, valid_utf8_split};

use crate::graphemes::{is_cluster_start_list, lemma_last_start_before_general};
use crate::text_input::{
    caret, lemma_split_lines_nonempty, split_lines, spliced, Highlight, TextInputView,
};
use crate::text_spec::{
    byte_offset_of, bytes_of, chars_covering_utf16, chars_covering_utf8, clamp_offset,
    lemma_bytes_of_concat, lemma_covering_utf16_unique, lemma_length_bounds, lemma_covering_utf8_unique,
    lemma_line_end_after, lemma_line_end_same_line, lemma_line_start_before,
    lemma_line_start_is_nth, lemma_newline_count_full, lemma_newline_count_monotone,
    lemma_prefix_monotone, line_and_col, line_end_after, line_start_before, newline_count,
    nth_line_start, offset_of_line_col,
    utf16_offset_of_utf8, utf16_units, utf8_offset_of_utf16,
};

verus! {

broadcast use vstd::utf8::encode_utf8_valid_utf8;

/// Replacing the bytes `[start, end)` of a text by `new_text` yields exactly
/// the bytes before `start`, then those of `new_text`, then those from `end` on.
pub proof fn law_splice_bytes(text: Seq<char>, start: int, end: int, new_text: Seq<char>)
    requires
        is_char_boundary(bytes_of(text), start),
        is_char_boundary(bytes_of(text), end),
    ensures
        bytes_of(spliced(text, start, end, new_text)) == bytes_of(text).take(start) + bytes_of(
            new_text,
        ) + bytes_of(text).skip(end),
{
    let b = bytes_of(text);
    valid_utf8_split(b, start);
    valid_utf8_split(b, end);
    assert(b.take(start) == b.subrange(0, start));
    assert(b.skip(end) == b.subrange(end, b.len() as int));
    let head = vstd::utf8::decode_utf8(b.take(start));
    let tail = vstd::utf8::decode_utf8(b.skip(end));
    decode_utf8_encode_utf8(b.take(start));
    decode_utf8_encode_utf8(b.skip(end));
    lemma_bytes_of_concat(head, new_text);
    lemma_bytes_of_concat(head + new_text, tail);
}

/// After a replacement the inserted text sits right before the caret:
/// reading back the bytes between the range's start and the caret gives the new text.
pub proof fn law_replace_then_read(s: TextInputView, range_utf16: Option<Range<usize>>, new_text: Seq<char>)
    requires
        s.can_replace(range_utf16, new_text),
    ensures
        ({
            let r = s.replacement_range(range_utf16);
            let t = s.replaced(range_utf16, new_text);
            &&& t.selected_range == caret(r.start + bytes_of(new_text).len())
            &&& t.bytes().subrange(r.start as int, r.start + bytes_of(new_text).len()) == bytes_of(
                new_text,
            )
            &&& t.marked_range is None
        }),
{
    let r = s.replacement_range(range_utf16);
    law_splice_bytes(s.content, r.start as int, r.end as int, new_text);
    let t = s.replaced(range_utf16, new_text);
    let b = s.bytes();
    crate::strings::lemma_boundary_bound(b, r.start as int);
    assert(t.bytes().subrange(r.start as int, r.start + bytes_of(new_text).len()) =~= bytes_of(
        new_text,
    ));
}

/// Inserting nothing into an empty range leaves the text unchanged.
pub proof fn law_empty_insertion_is_identity(text: Seq<char>, at: int)
    requires
        is_char_boundary(bytes_of(text), at),
    ensures
        spliced(text, at, at, Seq::empty()) == text,
{
    let b = bytes_of(text);
    law_splice_bytes(text, at, at, Seq::empty());
    crate::strings::lemma_boundary_bound(b, at);
    assert(bytes_of(Seq::<char>::empty()) =~= Seq::<u8>::empty());
    assert(b.take(at) + Seq::<u8>::empty() + b.skip(at) =~= b);
    vstd::utf8::encode_utf8_decode_utf8(text);
    vstd::utf8::encode_utf8_decode_utf8(spliced(text, at, at, Seq::empty()));
}

/// Converting a character boundary to UTF-16 and back gives the same byte offset.
pub proof fn law_utf8_utf16_round_trip(text: Seq<char>, k: int)
    requires
        0 <= k <= text.len(),
    ensures
        utf8_offset_of_utf16(text, utf16_offset_of_utf8(text, byte_offset_of(text, k) as int) as int)
            == byte_offset_of(text, k),
{
    let o = byte_offset_of(text, k) as int;
    assert forall|j: int| 0 <= j < k implies byte_offset_of(text, j) < o by {
        lemma_prefix_monotone(text, j, k);
    }
    if k < text.len() {
    }
    lemma_covering_utf8_unique(text, o, k);
    let u = utf16_units(text.take(k)) as int;
    assert forall|j: int| 0 <= j < k implies utf16_units(#[trigger] text.take(j)) < u by {
        lemma_prefix_monotone(text, j, k);
    }
    lemma_covering_utf16_unique(text, u, k);
}

/// Converting a UTF-16 offset that falls between characters to bytes and back
/// gives the same UTF-16 offset.
pub proof fn law_utf16_utf8_round_trip(text: Seq<char>, k: int)
    requires
        0 <= k <= text.len(),
    ensures
        utf16_offset_of_utf8(text, utf8_offset_of_utf16(text, utf16_units(text.take(k)) as int) as int)
            == utf16_units(text.take(k)),
{
    let u = utf16_units(text.take(k)) as int;
    assert forall|j: int| 0 <= j < k implies utf16_units(#[trigger] text.take(j)) < u by {
        lemma_prefix_monotone(text, j, k);
    }
    lemma_covering_utf16_unique(text, u, k);
    let o = byte_offset_of(text, k) as int;
    assert forall|j: int| 0 <= j < k implies byte_offset_of(text, j) < o by {
        lemma_prefix_monotone(text, j, k);
    }
    lemma_covering_utf8_unique(text, o, k);
}

/// Moving the cursor end of a selection puts the cursor where asked, keeps the
/// other end where it was, and keeps the range ordered.
pub proof fn law_select_to(s: TextInputView, o: usize)
    requires
        s.selected_range.start <= s.selected_range.end,
    ensures
        s.selected_to(o as int).cursor() == o,
        s.selected_to(o as int).selected_range.start <= s.selected_to(o as int).selected_range.end,
        s.selection_reversed ==> (s.selected_to(o as int).selected_range.start == s.selected_range.end
            || s.selected_to(o as int).selected_range.end == s.selected_range.end),
        !s.selection_reversed ==> (s.selected_to(o as int).selected_range.start
            == s.selected_range.start || s.selected_to(o as int).selected_range.end
            == s.selected_range.start),
        s.selected_to(o as int).content == s.content,
{
}

/// Selecting everything selects the whole text, forwards.
pub proof fn law_select_all(s: TextInputView)
    requires
        s.len() <= usize::MAX,
    ensures
        s.moved_to(0).selected_to(s.len()).selected_range == (Range { start: 0usize, end: s.len() as usize }),
        !s.moved_to(0).selected_to(s.len()).selection_reversed || s.len() == 0,
{
}

/// Backspace with a collapsed selection and no marked text deletes exactly the
/// grapheme cluster before the cursor and leaves the caret where it started.
pub proof fn law_backspace_deletes_previous_cluster(s: TextInputView)
    requires
        s.selected_range.start == s.selected_range.end,
        s.marked_range is None,
        is_char_boundary(s.bytes(), s.cursor()),
        is_cluster_start_list(s.bytes(), s.graphemes()),
    ensures
        ({
            let p = s.previous_boundary(s.cursor());
            let t = s.extended_for_deletion(p).replaced(None, Seq::empty());
            &&& s.extended_for_deletion(p).can_replace(None, Seq::empty())
            &&& t.bytes() == s.bytes().take(p) + s.bytes().skip(s.cursor())
            &&& t.selected_range == caret(p)
        }),
{
    let p = s.previous_boundary(s.cursor());
    lemma_last_start_before_general(s.bytes(), s.graphemes(), s.cursor());
    let e = s.extended_for_deletion(p);
    assert(e.replacement_range(None) == (Range { start: p as usize, end: s.cursor() as usize }));
    crate::strings::lemma_boundary_bound(s.bytes(), s.cursor());
    law_splice_bytes(s.content, p, s.cursor(), Seq::empty());
    assert(bytes_of(Seq::<char>::empty()) =~= Seq::<u8>::empty());
    assert(s.bytes().take(p) + Seq::<u8>::empty() + s.bytes().skip(s.cursor()) =~= s.bytes().take(p)
        + s.bytes().skip(s.cursor()));
}

/// The lines of a text put back together, separated by newlines.
pub open spec fn joined_lines(lines: Seq<Seq<char>>) -> Seq<char>
    decreases lines.len(),
{
    if lines.len() <= 1 {
        if lines.len() == 0 {
            Seq::empty()
        } else {
            lines[0]
        }
    } else {
        joined_lines(lines.drop_last()) + seq!['\n'] + lines.last()
    }
}

/// Splitting a text into lines loses nothing: joining the lines with newlines
/// gives the text back.
pub proof fn law_lines_rejoin(text: Seq<char>)
    ensures
        joined_lines(split_lines(text)) == text,
    decreases text.len(),
{
    if text.len() > 0 {
        let rest = text.drop_last();
        let p = split_lines(rest);
        law_lines_rejoin(rest);
        lemma_split_lines_nonempty(rest);
        if text.last() == '\n' {
            assert(split_lines(text) == p.push(Seq::empty()));
            assert(p.push(Seq::<char>::empty()).drop_last() =~= p);
            assert(joined_lines(p) + seq!['\n'] + Seq::<char>::empty() =~= text);
        } else {
            let q = p.update(p.len() - 1, p.last().push(text.last()));
            assert(split_lines(text) == q);
            if p.len() == 1 {
                assert(q[0] =~= text);
            } else {
                assert(q.drop_last() =~= p.drop_last());
                assert(joined_lines(p.drop_last()) + seq!['\n'] + p.last().push(text.last())
                    =~= (joined_lines(p.drop_last()) + seq!['\n'] + p.last()).push(text.last()));
                assert(rest.push(text.last()) =~= text);
            }
        }
    }
}

/// Going from an offset to its line and column and back gives the offset
/// (clamped to the text).
pub proof fn law_line_col_round_trip(b: Seq<u8>, o: int)
    requires
        0 <= o,
    ensures
        offset_of_line_col(b, line_and_col(b, o).0, line_and_col(b, o).1) == clamp_offset(b, o),
{
    let p = clamp_offset(b, o);
    lemma_newline_count_monotone(b, p, b.len() as int);
    lemma_newline_count_full(b);
    lemma_line_start_is_nth(b, p);
    lemma_line_start_before(b, p);
    lemma_line_end_same_line(b, line_start_before(b, p), p);
    lemma_line_end_after(b, p);
}

/// Byte `column` of line `line` (lines counted from 0) is position `p`, and
/// `p` lies on that line, between its start and its end.
pub open spec fn at_line_column(b: Seq<u8>, line: int, column: int, p: int) -> bool {
    let s = nth_line_start(b, line as nat);
    &&& 0 <= line <= newline_count(b)
    &&& s + column == p
    &&& s <= p <= line_end_after(b, s)
}

/// Every position of a text has a line and column that lead to it.
proof fn lemma_line_and_col_places(b: Seq<u8>, p: int)
    requires
        0 <= p <= b.len(),
    ensures
        at_line_column(b, line_and_col(b, p).0, line_and_col(b, p).1, p),
        0 <= line_and_col(b, p).0 <= p,
        0 <= line_and_col(b, p).1 <= p,
{
    lemma_newline_count_monotone(b, 0, p);
    assert(b.take(0) =~= Seq::<u8>::empty());
    lemma_newline_count_monotone(b, p, b.len() as int);
    lemma_newline_count_full(b);
    lemma_line_start_is_nth(b, p);
    lemma_line_start_before(b, p);
    lemma_line_end_same_line(b, line_start_before(b, p), p);
    lemma_line_end_after(b, p);
}

/// The caret and the selection band are drawn where the text is: the caret at
/// the line and in-line column of the cursor; the band from the line and
/// column of the selection's start, down to the line of its end, ending at the
/// end's column when both ends share a line and at the end of the first line
/// otherwise. Nothing is drawn only over an empty field.
pub proof fn law_highlight_marks_the_selection(s: TextInputView)
    requires
        s.bytes().len() <= usize::MAX,
    ensures
        ({
            let b = s.bytes();
            match s.highlight() {
                Highlight::Nothing => s.content.len() == 0,
                Highlight::Caret { line, column } => {
                    &&& s.selection_is_empty()
                    &&& at_line_column(b, line as int, column as int, clamp_offset(b, s.cursor()))
                },
                Highlight::Band { line, start_column, end_column, last_line } => {
                    let start = clamp_offset(b, s.selected_range.start as int);
                    let end = clamp_offset(b, s.selected_range.end as int);
                    let first_start = nth_line_start(b, line as nat);
                    &&& !s.selection_is_empty()
                    &&& at_line_column(b, line as int, start_column as int, start)
                    &&& at_line_column(
                        b,
                        last_line as int,
                        end - nth_line_start(b, last_line as nat),
                        end,
                    )
                    &&& line == last_line ==> at_line_column(b, line as int, end_column as int, end)
                    &&& line != last_line ==> first_start + end_column == line_end_after(b, first_start)
                },
            }
        }),
{
    let b = s.bytes();
    if s.content.len() > 0 {
        lemma_length_bounds(s.content);
        if s.selection_is_empty() {
            lemma_line_and_col_places(b, clamp_offset(b, s.cursor()));
        } else {
            let start = clamp_offset(b, s.selected_range.start as int);
            let end = clamp_offset(b, s.selected_range.end as int);
            lemma_line_and_col_places(b, start);
            lemma_line_and_col_places(b, end);
            lemma_line_start_is_nth(b, start);
            lemma_line_start_before(b, start);
            lemma_line_end_same_line(b, line_start_before(b, start), start);
            lemma_line_end_after(b, start);
        }
    }
}

/// Moving the cursor end of the selection changes nothing but the selection and
/// its direction: the text, the marked text, the placeholder and whether a
/// mouse drag is going on all stay. So a drag that has begun goes on through
/// every mouse move until the button is released.
pub proof fn law_select_to_changes_only_the_selection(s: TextInputView, o: int)
    ensures
        s.selected_to(o).content == s.content,
        s.selected_to(o).placeholder == s.placeholder,
        s.selected_to(o).marked_range == s.marked_range,
        s.selected_to(o).is_selecting == s.is_selecting,
{
}

/// An edit over a UTF-16 range named by the input method acts on exactly that
/// range, whatever text is marked: the bytes between the range's UTF-8 ends
/// give way to the new text, the caret follows it, and the result is the same
/// as with nothing marked.
pub proof fn law_named_range_is_replaced(s: TextInputView, r: Range<usize>, new_text: Seq<char>)
    requires
        s.bytes().len() <= usize::MAX,
        is_char_boundary(s.bytes(), utf8_offset_of_utf16(s.content, r.start as int) as int),
        is_char_boundary(s.bytes(), utf8_offset_of_utf16(s.content, r.end as int) as int),
    ensures
        ({
            let a = utf8_offset_of_utf16(s.content, r.start as int) as int;
            let e = utf8_offset_of_utf16(s.content, r.end as int) as int;
            let t = s.replaced(Some(r), new_text);
            &&& bytes_of(t.content) == s.bytes().take(a) + bytes_of(new_text) + s.bytes().skip(e)
            &&& t.selected_range == caret(a + bytes_of(new_text).len())
            &&& t.marked_range is None
            &&& t == (TextInputView { marked_range: None, ..s }).replaced(Some(r), new_text)
        }),
{
    let a = utf8_offset_of_utf16(s.content, r.start as int) as int;
    let e = utf8_offset_of_utf16(s.content, r.end as int) as int;
    crate::strings::lemma_boundary_bound(s.bytes(), a);
    crate::strings::lemma_boundary_bound(s.bytes(), e);
    law_splice_bytes(s.content, a, e, new_text);
}

/// With no range named, an edit acts on the marked text when there is some,
/// and on the selection otherwise.
pub proof fn law_unnamed_edit_acts_on_marked_text(s: TextInputView, new_text: Seq<char>)
    requires
        ({
            let r = match s.marked_range {
                Some(m) => m,
                None => s.selected_range,
            };
            is_char_boundary(s.bytes(), r.start as int) && is_char_boundary(s.bytes(), r.end as int)
        }),
    ensures
        ({
            let r = match s.marked_range {
                Some(m) => m,
                None => s.selected_range,
            };
            bytes_of(s.replaced(None, new_text).content) == s.bytes().take(r.start as int)
                + bytes_of(new_text) + s.bytes().skip(r.end as int)
        }),
{
    let r = match s.marked_range {
        Some(m) => m,
        None => s.selected_range,
    };
    law_splice_bytes(s.content, r.start as int, r.end as int, new_text);
}

} // verus!
