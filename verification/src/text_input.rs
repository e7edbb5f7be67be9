//! The editing model behind a multi-line text field: content, selection,
//! IME marked text, cursor movement and the UTF-16 view that platform input
//! methods use.  All offsets are UTF-8 byte offsets unless named `utf16`.
use core::ops::Range;
use vstd::prelude::*;
use vstd::utf8::{decode_utf8, is_char_boundary};

use crate::graphemes::{
    first_start_after, grapheme_starts_of, last_start_before, next_boundary_of,
    previous_boundary_of,
};
use crate::strings::{byte_len, chars_of, char_len_utf16, char_len_utf8, concat3, prefix_to, substring, suffix_from};
use crate::text_spec::{
    byte_offset_of, bytes_of, clamp_offset, lemma_byte_offset_is_boundary,
    lemma_covering_utf16_unique, lemma_covering_utf8_unique, lemma_length_bounds,
    lemma_line_end_after, lemma_line_end_same_line, lemma_line_start_before,
    lemma_line_start_is_nth, lemma_line_start_unique, lemma_newline_count_full,
    lemma_newline_count_monotone, lemma_newline_count_step, lemma_nth_line_start,
    lemma_prefix_monotone, lemma_prefix_step, line_and_col, line_end_after, line_start_before,
    newline_count, nth_line_start, offset_of_line_col, utf16_offset_of_utf8, utf16_units,
    utf8_offset_of_utf16, NEWLINE,
};

verus! {

broadcast use vstd::utf8::encode_utf8_valid_utf8;

/// A selection expressed in UTF-16 code units, as input methods expect it.
pub struct Utf16Selection {
    pub range: Range<usize>,
    pub reversed: bool,
}

/// Where a pointer event landed relative to the laid-out text.
pub enum MouseHit {
    /// No layout is known yet.
    NoLayout,
    /// Above the first line.
    AboveText,
    /// Below the last line.
    BelowText,
    /// On visual line `line`; `index_in_line` is the byte index within that
    /// line's shaped text closest to the pointer, when the line was shaped.
    OnLine { line: usize, index_in_line: Option<usize> },
}

/// A multi-line text field's editing state.
pub struct TextInput {
    content: String,
    placeholder: String,
    selected_range: Range<usize>,
    selection_reversed: bool,
    marked_range: Option<Range<usize>>,
    is_selecting: bool,
}

/// The abstract state of a [`TextInput`].
pub struct TextInputView {
    pub content: Seq<char>,
    pub placeholder: Seq<char>,
    pub selected_range: Range<usize>,
    pub selection_reversed: bool,
    pub marked_range: Option<Range<usize>>,
    pub is_selecting: bool,
}

impl View for TextInput {
    type V = TextInputView;

    closed spec fn view(&self) -> TextInputView {
        TextInputView {
            content: self.content@,
            placeholder: self.placeholder@,
            selected_range: self.selected_range,
            selection_reversed: self.selection_reversed,
            marked_range: self.marked_range,
            is_selecting: self.is_selecting,
        }
    }
}

/// The `'\n'`-separated lines of a text (an empty text has one empty line).
pub open spec fn split_lines(cs: Seq<char>) -> Seq<Seq<char>>
    decreases cs.len(),
{
    if cs.len() == 0 {
        seq![Seq::empty()]
    } else {
        let p = split_lines(cs.drop_last());
        if cs.last() == '\n' {
            p.push(Seq::empty())
        } else {
            p.update(p.len() - 1, p.last().push(cs.last()))
        }
    }
}

pub proof fn lemma_split_lines_nonempty(cs: Seq<char>)
    ensures
        split_lines(cs).len() >= 1,
    decreases cs.len(),
{
    if cs.len() > 0 {
        lemma_split_lines_nonempty(cs.drop_last());
    }
}

/// `text` with the bytes in `[start, end)` replaced by `new_text`.
pub open spec fn spliced(text: Seq<char>, start: int, end: int, new_text: Seq<char>) -> Seq<char> {
    decode_utf8(bytes_of(text).take(start)) + new_text + decode_utf8(bytes_of(text).skip(end))
}

pub open spec fn caret(o: int) -> Range<usize> {
    Range { start: o as usize, end: o as usize }
}

impl TextInputView {
    pub open spec fn bytes(self) -> Seq<u8> {
        bytes_of(self.content)
    }

    pub open spec fn len(self) -> int {
        self.bytes().len() as int
    }

    /// The end of the selection that moves.
    pub open spec fn cursor(self) -> int {
        if self.selection_reversed {
            self.selected_range.start as int
        } else {
            self.selected_range.end as int
        }
    }

    /// `Range::is_empty` of the selection.
    pub open spec fn selection_is_empty(self) -> bool {
        !(self.selected_range.start < self.selected_range.end)
    }

    pub open spec fn graphemes(self) -> Seq<usize> {
        grapheme_starts_of(self.content)
    }

    /// Start of the grapheme cluster before `o` (0 if none).
    pub open spec fn previous_boundary(self, o: int) -> int {
        last_start_before(self.graphemes(), o)
    }

    /// Start of the grapheme cluster after `o` (the end of the text if none).
    pub open spec fn next_boundary(self, o: int) -> int {
        first_start_after(self.graphemes(), o, self.len())
    }

    /// The state with the selection collapsed to `o`.
    pub open spec fn moved_to(self, o: int) -> Self {
        TextInputView { selected_range: caret(o), ..self }
    }

    /// The state after moving the cursor end of the selection to `o`,
    /// flipping the selection's direction when the ends cross.
    pub open spec fn selected_to(self, o: int) -> Self {
        let r = if self.selection_reversed {
            Range { start: o as usize, end: self.selected_range.end }
        } else {
            Range { start: self.selected_range.start, end: o as usize }
        };
        if r.end < r.start {
            TextInputView {
                selected_range: Range { start: r.end, end: r.start },
                selection_reversed: !self.selection_reversed,
                ..self
            }
        } else {
            TextInputView { selected_range: r, ..self }
        }
    }

    /// The byte range that a replacement acts on: the given UTF-16 range, else
    /// the marked text, else the selection.
    pub open spec fn replacement_range(self, range_utf16: Option<Range<usize>>) -> Range<usize> {
        match range_utf16 {
            Some(r) => Range {
                start: utf8_offset_of_utf16(self.content, r.start as int) as usize,
                end: utf8_offset_of_utf16(self.content, r.end as int) as usize,
            },
            None => match self.marked_range {
                Some(m) => m,
                None => self.selected_range,
            },
        }
    }

    /// A replacement can be carried out: its range ends fall on character
    /// boundaries and the new caret position is representable.
    pub open spec fn can_replace(self, range_utf16: Option<Range<usize>>, new_text: Seq<char>) -> bool {
        let r = self.replacement_range(range_utf16);
        &&& is_char_boundary(self.bytes(), r.start as int)
        &&& is_char_boundary(self.bytes(), r.end as int)
        &&& r.start + bytes_of(new_text).len() <= usize::MAX
    }

    /// The state after replacing the replacement range by `new_text`: the caret
    /// follows the new text and nothing stays marked.
    pub open spec fn replaced(self, range_utf16: Option<Range<usize>>, new_text: Seq<char>) -> Self {
        let r = self.replacement_range(range_utf16);
        TextInputView {
            content: spliced(self.content, r.start as int, r.end as int, new_text),
            selected_range: caret(r.start + bytes_of(new_text).len()),
            marked_range: None,
            ..self
        }
    }

    /// The selection requested in UTF-16 units of the new content, shifted as the
    /// input protocol does: its start by the replaced range's start, its end by its end.
    pub open spec fn marked_selection(
        self,
        range_utf16: Option<Range<usize>>,
        new_text: Seq<char>,
        selected_utf16: Option<Range<usize>>,
    ) -> Range<usize> {
        let r = self.replacement_range(range_utf16);
        let c = spliced(self.content, r.start as int, r.end as int, new_text);
        match selected_utf16 {
            Some(n) => Range {
                start: (utf8_offset_of_utf16(c, n.start as int) + r.start) as usize,
                end: (utf8_offset_of_utf16(c, n.end as int) + r.end) as usize,
            },
            None => caret(r.start + bytes_of(new_text).len()),
        }
    }

    pub open spec fn can_replace_and_mark(
        self,
        range_utf16: Option<Range<usize>>,
        new_text: Seq<char>,
        selected_utf16: Option<Range<usize>>,
    ) -> bool {
        let r = self.replacement_range(range_utf16);
        let c = spliced(self.content, r.start as int, r.end as int, new_text);
        &&& self.can_replace(range_utf16, new_text)
        &&& match selected_utf16 {
            Some(n) => {
                &&& utf8_offset_of_utf16(c, n.start as int) + r.start <= usize::MAX
                &&& utf8_offset_of_utf16(c, n.end as int) + r.end <= usize::MAX
            },
            None => true,
        }
    }

    /// The state after replacing text and marking it as IME composition text.
    pub open spec fn replaced_and_marked(
        self,
        range_utf16: Option<Range<usize>>,
        new_text: Seq<char>,
        selected_utf16: Option<Range<usize>>,
    ) -> Self {
        let r = self.replacement_range(range_utf16);
        TextInputView {
            content: spliced(self.content, r.start as int, r.end as int, new_text),
            marked_range: if new_text.len() > 0 {
                Some(
                    Range {
                        start: r.start,
                        end: (r.start + bytes_of(new_text).len()) as usize,
                    },
                )
            } else {
                None
            },
            selected_range: self.marked_selection(range_utf16, new_text, selected_utf16),
            ..self
        }
    }

    /// Where a pointer hit lands in the text.
    pub open spec fn mouse_offset(self, hit: MouseHit) -> int {
        if self.len() == 0 {
            0
        } else {
            match hit {
                MouseHit::NoLayout => 0,
                MouseHit::AboveText => 0,
                MouseHit::BelowText => self.len(),
                MouseHit::OnLine { line, index_in_line } => match index_in_line {
                    Some(i) => offset_of_line_col(self.bytes(), line as int, 0) + i,
                    None => offset_of_line_col(self.bytes(), line as int, usize::MAX as int),
                },
            }
        }
    }

    /// The state a deletion acts on: an empty selection is first extended to `to`.
    pub open spec fn extended_for_deletion(self, to: int) -> Self {
        if self.selection_is_empty() {
            self.selected_to(to)
        } else {
            self
        }
    }

    /// What the field paints over its text; see [`Highlight`].
    pub open spec fn highlight(self) -> Highlight {
        let b = self.bytes();
        if self.content.len() == 0 {
            Highlight::Nothing
        } else if self.selection_is_empty() {
            let (line, column) = line_and_col(b, self.cursor());
            Highlight::Caret { line: line as usize, column: column as usize }
        } else {
            let (first, start_column) = line_and_col(b, self.selected_range.start as int);
            let (last, end_column) = line_and_col(b, self.selected_range.end as int);
            if first == last {
                Highlight::Band {
                    line: first as usize,
                    start_column: start_column as usize,
                    end_column: end_column as usize,
                    last_line: first as usize,
                }
            } else {
                let p = clamp_offset(b, self.selected_range.start as int);
                Highlight::Band {
                    line: first as usize,
                    start_column: start_column as usize,
                    end_column: (line_end_after(b, p) - line_start_before(b, p)) as usize,
                    last_line: last as usize,
                }
            }
        }
    }
}

/// What a text field paints over its text. Columns are byte offsets within
/// their line.
#[derive(Clone, Copy, Debug, PartialEq, Eq, Structural)]
pub enum Highlight {
    /// Nothing: the field is empty and shows its placeholder.
    Nothing,
    /// The caret, at `column` of line `line` (the selection is empty).
    Caret { line: usize, column: usize },
    /// The selection's band: on line `line` from `start_column` to
    /// `end_column`, reaching down to line `last_line`. A selection over
    /// several lines is marked on its first line, up to that line's end.
    Band { line: usize, start_column: usize, end_column: usize, last_line: usize },
}

impl TextInput {
    /// An empty field.
    pub fn new() -> (r: Self)
        ensures
            r@.content.len() == 0,
            r@.placeholder == "Type here..."@,
            r@.selected_range == caret(0),
            !r@.selection_reversed,
            r@.marked_range is None,
            !r@.is_selecting,
    {
        TextInput {
            content: String::new(),
            placeholder: String::from_str("Type here..."),
            selected_range: Range { start: 0, end: 0 },
            selection_reversed: false,
            marked_range: None,
            is_selecting: false,
        }
    }

    /// Text shown while the field is empty.
    pub fn placeholder(&self) -> (r: &str)
        ensures
            r@ == self@.placeholder,
    {
        self.placeholder.as_str()
    }

    pub fn set_placeholder(&mut self, text: String)
        ensures
            final(self)@ == (TextInputView { placeholder: text@, ..old(self)@ }),
    {
        self.placeholder = text;
    }

    pub fn content(&self) -> (r: &str)
        ensures
            r@ == self@.content,
    {
        self.content.as_str()
    }

    /// Replaces the whole text and collapses the selection to the start.
    pub fn set_content(&mut self, text: String)
        ensures
            final(self)@ == (TextInputView {
                content: text@,
                selected_range: caret(0),
                marked_range: None,
                ..old(self)@
            }),
    {
        self.content = text;
        self.selected_range = Range { start: 0, end: 0 };
        self.marked_range = None;
    }

    pub fn selected_range(&self) -> (r: Range<usize>)
        ensures
            r == self@.selected_range,
    {
        Range { start: self.selected_range.start, end: self.selected_range.end }
    }

    pub fn is_selecting(&self) -> (r: bool)
        ensures
            r == self@.is_selecting,
    {
        self.is_selecting
    }

    /// Number of lines (`'\n'`-separated; an empty text has one line).
    pub fn line_count(&self) -> (r: usize)
        requires
            newline_count(self@.bytes()) < usize::MAX,
        ensures
            r == newline_count(self@.bytes()) + 1,
    {
        self.newline_total() + 1
    }

    /// The text's lines, without their newlines.
    pub fn lines(&self) -> (r: Vec<String>)
        ensures
            r@.map_values(|l: String| l@) == split_lines(self@.content),
    {
        let cs = chars_of(self.content.as_str());
        let ghost c = self@.content;
        let mut lines: Vec<String> = Vec::new();
        let mut current = String::new();
        let mut i: usize = 0;
        proof {
            assert(c.take(0) =~= Seq::<char>::empty());
            assert(lines@.map_values(|l: String| l@).push(current@) =~= split_lines(c.take(0)));
        }
        while i < cs.len()
            invariant
                cs@ == c,
                c == self@.content,
                i <= cs.len(),
                lines@.map_values(|l: String| l@).push(current@) == split_lines(c.take(i as int)),
            decreases cs.len() - i,
        {
            let ch = cs[i];
            proof {
                assert(c.take(i + 1).drop_last() =~= c.take(i as int));
                assert(c.take(i + 1).last() == ch);
                lemma_split_lines_nonempty(c.take(i as int));
            }
            if ch == '\n' {
                let mut done = String::new();
                core::mem::swap(&mut done, &mut current);
                lines.push(done);
                proof {
                    assert(lines@.map_values(|l: String| l@).push(current@) =~= split_lines(
                        c.take(i + 1),
                    ));
                }
            } else {
                let ghost before = lines@.map_values(|l: String| l@).push(current@);
                crate::strings::push_char(&mut current, ch);
                proof {
                    assert(lines@.map_values(|l: String| l@).push(current@) =~= before.update(
                        before.len() - 1,
                        before.last().push(ch),
                    ));
                }
            }
            i = i + 1;
        }
        lines.push(current);
        proof {
            assert(c.take(cs.len() as int) =~= c);
        }
        lines
    }

    /// Line and byte column of `offset` (clamped to the text).
    pub fn line_and_col_for_offset(&self, offset: usize) -> (r: (usize, usize))
        ensures
            (r.0 as int, r.1 as int) == line_and_col(self@.bytes(), offset as int),
    {
        let b = self.content.as_str().as_bytes();
        let n = b.len();
        let p = if offset < n {
            offset
        } else {
            n
        };
        let mut line: usize = 0;
        let mut start: usize = 0;
        let mut i: usize = 0;
        proof {
            assert(b@.take(0) =~= Seq::<u8>::empty());
        }
        while i < p
            invariant
                i <= p <= n == b@.len(),
                b@ == self@.bytes(),
                line == newline_count(b@.take(i as int)),
                line <= i,
                start == line_start_before(b@, i as int),
                start <= i,
            decreases p - i,
        {
            proof {
                lemma_newline_count_step(b@, i as int);
            }
            if b[i] == NEWLINE {
                line = line + 1;
                start = i + 1;
            }
            i = i + 1;
        }
        (line, p - start)
    }

    /// Byte offset of column `target_col` on line `target_line`, both clamped
    /// to the text.
    pub fn offset_for_line_col(&self, target_line: usize, target_col: usize) -> (r: usize)
        ensures
            r == offset_of_line_col(self@.bytes(), target_line as int, target_col as int),
            r <= self@.len(),
    {
        let b = self.content.as_str().as_bytes();
        let n = b.len();
        let mut seen: usize = 0;
        let mut start: usize = 0;
        let mut i: usize = 0;
        proof {
            assert(b@.take(0) =~= Seq::<u8>::empty());
        }
        while seen < target_line && i < n
            invariant
                i <= n == b@.len(),
                b@ == self@.bytes(),
                seen == newline_count(b@.take(i as int)),
                seen <= target_line,
                seen <= i,
                start == line_start_before(b@, i as int),
            decreases n - i,
        {
            proof {
                lemma_newline_count_step(b@, i as int);
            }
            if b[i] == NEWLINE {
                seen = seen + 1;
                start = i + 1;
            }
            i = i + 1;
        }
        proof {
            let bb = b@;
            lemma_newline_count_full(bb);
            lemma_newline_count_monotone(bb, i as int, n as int);
            lemma_line_start_before(bb, i as int);
            lemma_nth_line_start(bb, seen as nat);
            lemma_line_start_unique(bb, start as int, nth_line_start(bb, seen as nat));
        }
        let mut j = start;
        while j < n && b[j] != NEWLINE
            invariant
                start <= j <= n == b@.len(),
                line_end_after(b@, start as int) == line_end_after(b@, j as int),
            decreases n - j,
        {
            j = j + 1;
        }
        let len = j - start;
        start + if target_col < len {
            target_col
        } else {
            len
        }
    }

    /// Start of the line that contains `offset`.
    pub fn line_start_offset(&self, offset: usize) -> (r: usize)
        ensures
            r == line_start_before(self@.bytes(), clamp_offset(self@.bytes(), offset as int)),
    {
        let (line, _) = self.line_and_col_for_offset(offset);
        proof {
            let b = self@.bytes();
            let p = clamp_offset(b, offset as int);
            lemma_newline_count_monotone(b, p, b.len() as int);
            lemma_newline_count_full(b);
            lemma_line_start_is_nth(b, p);
            lemma_nth_line_start(b, line as nat);
            lemma_line_end_after(b, nth_line_start(b, line as nat));
        }
        self.offset_for_line_col(line, 0)
    }

    /// End (newline position or end of text) of the line that contains `offset`.
    pub fn line_end_offset(&self, offset: usize) -> (r: usize)
        ensures
            r == line_end_after(self@.bytes(), clamp_offset(self@.bytes(), offset as int)),
    {
        let (line, _) = self.line_and_col_for_offset(offset);
        let text_len = byte_len(self.content.as_str());
        proof {
            let b = self@.bytes();
            let p = clamp_offset(b, offset as int);
            lemma_newline_count_monotone(b, p, b.len() as int);
            lemma_newline_count_full(b);
            lemma_line_start_is_nth(b, p);
            lemma_line_start_before(b, p);
            lemma_line_end_same_line(b, line_start_before(b, p), p);
            lemma_line_end_after(b, p);
        }
        // No line is longer than the text, so this column is the line's end.
        self.offset_for_line_col(line, text_len)
    }

    /// What to paint over the text: nothing over the placeholder, the caret
    /// when the selection is empty, else the selection's band.
    pub fn highlight(&self) -> (r: Highlight)
        ensures
            r == self@.highlight(),
    {
        if byte_len(self.content.as_str()) == 0 {
            return Highlight::Nothing;
        }
        if !(self.selected_range.start < self.selected_range.end) {
            let (line, column) = self.line_and_col_for_offset(self.cursor_offset());
            return Highlight::Caret { line, column };
        }
        let (first, start_column) = self.line_and_col_for_offset(self.selected_range.start);
        let (last, end_column) = self.line_and_col_for_offset(self.selected_range.end);
        if first == last {
            Highlight::Band { line: first, start_column, end_column, last_line: first }
        } else {
            let line_start = self.line_start_offset(self.selected_range.start);
            let line_end = self.line_end_offset(self.selected_range.start);
            proof {
                let b = self@.bytes();
                let p = clamp_offset(b, self.selected_range.start as int);
                lemma_line_start_before(b, p);
                lemma_line_end_after(b, p);
            }
            Highlight::Band {
                line: first,
                start_column,
                end_column: line_end - line_start,
                last_line: last,
            }
        }
    }

    /// Collapses the selection to `offset`.
    pub fn move_to(&mut self, offset: usize)
        ensures
            final(self)@ == old(self)@.moved_to(offset as int),
    {
        self.selected_range = Range { start: offset, end: offset };
    }

    pub fn cursor_offset(&self) -> (r: usize)
        ensures
            r == self@.cursor(),
    {
        if self.selection_reversed {
            self.selected_range.start
        } else {
            self.selected_range.end
        }
    }

    /// Moves the cursor end of the selection to `offset`.
    pub fn select_to(&mut self, offset: usize)
        ensures
            final(self)@ == old(self)@.selected_to(offset as int),
    {
        if self.selection_reversed {
            self.selected_range.start = offset;
        } else {
            self.selected_range.end = offset;
        }
        if self.selected_range.end < self.selected_range.start {
            self.selection_reversed = !self.selection_reversed;
            self.selected_range = Range {
                start: self.selected_range.end,
                end: self.selected_range.start,
            };
        }
    }

    /// Start of the grapheme cluster before `offset`.
    pub fn previous_boundary(&self, offset: usize) -> (r: usize)
        ensures
            r == self@.previous_boundary(offset as int),
            is_char_boundary(self@.bytes(), r as int),
            offset > 0 ==> r < offset,
    {
        previous_boundary_of(self.content.as_str(), offset)
    }

    /// Start of the grapheme cluster after `offset`.
    pub fn next_boundary(&self, offset: usize) -> (r: usize)
        ensures
            r == self@.next_boundary(offset as int),
            is_char_boundary(self@.bytes(), r as int),
            r <= self@.len(),
            offset < self@.len() ==> offset < r,
    {
        next_boundary_of(self.content.as_str(), offset)
    }

    /// Left arrow: one cluster back, or to the selection's start.
    pub fn left(&mut self)
        ensures
            final(self)@ == (if old(self)@.selection_is_empty() {
                old(self)@.moved_to(old(self)@.previous_boundary(old(self)@.cursor()))
            } else {
                old(self)@.moved_to(old(self)@.selected_range.start as int)
            }),
    {
        if !(self.selected_range.start < self.selected_range.end) {
            let to = self.previous_boundary(self.cursor_offset());
            self.move_to(to);
        } else {
            let to = self.selected_range.start;
            self.move_to(to);
        }
    }

    /// Right arrow: one cluster forward, or to the selection's end.
    pub fn right(&mut self)
        ensures
            final(self)@ == (if old(self)@.selection_is_empty() {
                old(self)@.moved_to(
                    old(self)@.next_boundary(old(self)@.selected_range.end as int),
                )
            } else {
                old(self)@.moved_to(old(self)@.selected_range.end as int)
            }),
    {
        if !(self.selected_range.start < self.selected_range.end) {
            let to = self.next_boundary(self.selected_range.end);
            self.move_to(to);
        } else {
            let to = self.selected_range.end;
            self.move_to(to);
        }
    }

    /// Up arrow: same column on the previous line, or the start of the text.
    pub fn up(&mut self)
        ensures
            ({
                let (line, col) = line_and_col(old(self)@.bytes(), old(self)@.cursor());
                final(self)@ == if line > 0 {
                    old(self)@.moved_to(offset_of_line_col(old(self)@.bytes(), line - 1, col))
                } else {
                    old(self)@.moved_to(0)
                }
            }),
    {
        let (line, col) = self.line_and_col_for_offset(self.cursor_offset());
        if line > 0 {
            let to = self.offset_for_line_col(line - 1, col);
            self.move_to(to);
        } else {
            self.move_to(0);
        }
    }

    /// Down arrow: same column on the next line, or the end of the text.
    pub fn down(&mut self)
        ensures
            ({
                let (line, col) = line_and_col(old(self)@.bytes(), old(self)@.cursor());
                final(self)@ == if line < newline_count(old(self)@.bytes()) {
                    old(self)@.moved_to(offset_of_line_col(old(self)@.bytes(), line + 1, col))
                } else {
                    old(self)@.moved_to(old(self)@.len())
                }
            }),
    {
        let (line, col) = self.line_and_col_for_offset(self.cursor_offset());
        let count = self.newline_total();
        if line < count {
            let to = self.offset_for_line_col(line + 1, col);
            self.move_to(to);
        } else {
            let to = byte_len(self.content.as_str());
            self.move_to(to);
        }
    }

    fn newline_total(&self) -> (r: usize)
        ensures
            r == newline_count(self@.bytes()),
    {
        let b = self.content.as_str().as_bytes();
        let n = b.len();
        let mut count: usize = 0;
        let mut i: usize = 0;
        proof {
            assert(b@.take(0) =~= Seq::<u8>::empty());
        }
        while i < n
            invariant
                i <= n == b@.len(),
                b@ == self@.bytes(),
                count == newline_count(b@.take(i as int)),
                count <= i,
            decreases n - i,
        {
            proof {
                lemma_newline_count_step(b@, i as int);
            }
            if b[i] == NEWLINE {
                count = count + 1;
            }
            i = i + 1;
        }
        proof {
            lemma_newline_count_full(b@);
        }
        count
    }

    /// Shift+Left: extends the selection one cluster back.
    pub fn select_left(&mut self)
        ensures
            final(self)@ == old(self)@.selected_to(old(self)@.previous_boundary(old(self)@.cursor())),
    {
        let to = self.previous_boundary(self.cursor_offset());
        self.select_to(to);
    }

    /// Shift+Right: extends the selection one cluster forward.
    pub fn select_right(&mut self)
        ensures
            final(self)@ == old(self)@.selected_to(old(self)@.next_boundary(old(self)@.cursor())),
    {
        let to = self.next_boundary(self.cursor_offset());
        self.select_to(to);
    }

    /// Selects the whole text.
    pub fn select_all(&mut self)
        ensures
            final(self)@ == old(self)@.moved_to(0).selected_to(old(self)@.len()),
    {
        self.move_to(0);
        let end = byte_len(self.content.as_str());
        self.select_to(end);
    }

    /// Home: start of the cursor's line.
    pub fn home(&mut self)
        ensures
            final(self)@ == old(self)@.moved_to(
                line_start_before(old(self)@.bytes(), clamp_offset(old(self)@.bytes(), old(self)@.cursor())),
            ),
    {
        let start = self.line_start_offset(self.cursor_offset());
        self.move_to(start);
    }

    /// End: end of the cursor's line.
    pub fn end(&mut self)
        ensures
            final(self)@ == old(self)@.moved_to(
                line_end_after(old(self)@.bytes(), clamp_offset(old(self)@.bytes(), old(self)@.cursor())),
            ),
    {
        let end = self.line_end_offset(self.cursor_offset());
        self.move_to(end);
    }

    /// Backspace: deletes the selection, or the cluster before the cursor.
    pub fn backspace(&mut self)
        requires
            old(self)@.extended_for_deletion(
                old(self)@.previous_boundary(old(self)@.cursor()),
            ).can_replace(None, Seq::empty()),
        ensures
            final(self)@ == old(self)@.extended_for_deletion(
                old(self)@.previous_boundary(old(self)@.cursor()),
            ).replaced(None, Seq::empty()),
    {
        if !(self.selected_range.start < self.selected_range.end) {
            let to = self.previous_boundary(self.cursor_offset());
            self.select_to(to);
        }
        proof {
            reveal_strlit("");
        }
        self.replace_text_in_range(None, "");
    }

    /// Delete: deletes the selection, or the cluster after the cursor.
    pub fn delete(&mut self)
        requires
            old(self)@.extended_for_deletion(
                old(self)@.next_boundary(old(self)@.cursor()),
            ).can_replace(None, Seq::empty()),
        ensures
            final(self)@ == old(self)@.extended_for_deletion(
                old(self)@.next_boundary(old(self)@.cursor()),
            ).replaced(None, Seq::empty()),
    {
        if !(self.selected_range.start < self.selected_range.end) {
            let to = self.next_boundary(self.cursor_offset());
            self.select_to(to);
        }
        proof {
            reveal_strlit("");
        }
        self.replace_text_in_range(None, "");
    }

    /// Enter.  With a submit handler (`submit`), hands back the text and clears
    /// the field; otherwise inserts a newline.
    pub fn enter(&mut self, submit: bool) -> (r: Option<String>)
        requires
            !submit ==> old(self)@.can_replace(None, seq!['\n']),
        ensures
            submit ==> r is Some && r->0@ == old(self)@.content && final(self)@ == (TextInputView {
                content: Seq::empty(),
                selected_range: caret(0),
                marked_range: None,
                ..old(self)@
            }),
            !submit ==> r is None && final(self)@ == old(self)@.replaced(None, seq!['\n']),
    {
        if submit {
            let content = self.content.clone();
            self.content = String::new();
            self.selected_range = Range { start: 0, end: 0 };
            self.marked_range = None;
            Some(content)
        } else {
            let newline = "\n";
            proof {
                reveal_strlit("\n");
                assert(newline@ =~= seq!['\n']);
            }
            self.replace_text_in_range(None, newline);
            None
        }
    }

    /// Pointer pressed: starts a drag, moving (or with shift, extending) the selection.
    pub fn on_mouse_down(&mut self, shift: bool, hit: MouseHit)
        requires
            old(self)@.mouse_offset(hit) <= usize::MAX,
        ensures
            ({
                let s = TextInputView { is_selecting: true, ..old(self)@ };
                let o = old(self)@.mouse_offset(hit);
                final(self)@ == if shift {
                    s.selected_to(o)
                } else {
                    s.moved_to(o)
                }
            }),
            final(self)@.is_selecting,
            final(self)@.content == old(self)@.content,
    {
        self.is_selecting = true;
        let offset = self.index_for_mouse_position(&hit);
        if shift {
            self.select_to(offset);
        } else {
            self.move_to(offset);
        }
    }

    /// Pointer released: ends a drag.
    pub fn on_mouse_up(&mut self)
        ensures
            final(self)@ == (TextInputView { is_selecting: false, ..old(self)@ }),
    {
        self.is_selecting = false;
    }

    /// Pointer moved: while dragging, extends the selection.
    pub fn on_mouse_move(&mut self, hit: MouseHit)
        requires
            old(self)@.is_selecting ==> old(self)@.mouse_offset(hit) <= usize::MAX,
        ensures
            final(self)@ == if old(self)@.is_selecting {
                old(self)@.selected_to(old(self)@.mouse_offset(hit))
            } else {
                old(self)@
            },
            final(self)@.is_selecting == old(self)@.is_selecting,
            final(self)@.content == old(self)@.content,
            old(self)@.is_selecting ==> final(self)@.cursor() == old(self)@.mouse_offset(hit),
    {
        if self.is_selecting {
            let offset = self.index_for_mouse_position(&hit);
            self.select_to(offset);
        }
    }

    /// Text offset under the pointer.
    pub fn index_for_mouse_position(&self, hit: &MouseHit) -> (r: usize)
        requires
            self@.mouse_offset(*hit) <= usize::MAX,
        ensures
            r == self@.mouse_offset(*hit),
    {
        let n = byte_len(self.content.as_str());
        if n == 0 {
            return 0;
        }
        match hit {
            MouseHit::NoLayout => 0,
            MouseHit::AboveText => 0,
            MouseHit::BelowText => n,
            MouseHit::OnLine { line, index_in_line } => match index_in_line {
                Some(i) => self.offset_for_line_col(*line, 0) + *i,
                None => self.offset_for_line_col(*line, usize::MAX),
            },
        }
    }

    /// Paste: replaces the selection (or marked text) with the clipboard text, if any.
    pub fn paste(&mut self, clipboard: Option<&str>)
        requires
            clipboard matches Some(t) ==> old(self)@.can_replace(None, t@),
        ensures
            final(self)@ == match clipboard {
                Some(t) => old(self)@.replaced(None, t@),
                None => old(self)@,
            },
    {
        if let Some(text) = clipboard {
            self.replace_text_in_range(None, text);
        }
    }

    /// The selected text, when the selection is not empty.
    pub fn copy(&self) -> (r: Option<String>)
        requires
            !self@.selection_is_empty() ==> is_char_boundary(self@.bytes(), self@.selected_range.start as int)
                && is_char_boundary(self@.bytes(), self@.selected_range.end as int),
        ensures
            self@.selection_is_empty() ==> r is None,
            !self@.selection_is_empty() ==> r is Some && r->0@ == decode_utf8(
                self@.bytes().subrange(
                    self@.selected_range.start as int,
                    self@.selected_range.end as int,
                ),
            ),
    {
        if self.selected_range.start < self.selected_range.end {
            let s = substring(
                self.content.as_str(),
                self.selected_range.start,
                self.selected_range.end,
            );
            Some(s.to_owned())
        } else {
            None
        }
    }

    /// Cut: hands back the selected text and deletes the replacement range
    /// (the marked text when there is one, else the selection).
    pub fn cut(&mut self) -> (r: Option<String>)
        requires
            !old(self)@.selection_is_empty() ==> {
                &&& is_char_boundary(old(self)@.bytes(), old(self)@.selected_range.start as int)
                &&& is_char_boundary(old(self)@.bytes(), old(self)@.selected_range.end as int)
                &&& old(self)@.can_replace(None, Seq::empty())
            },
        ensures
            old(self)@.selection_is_empty() ==> r is None && final(self)@ == old(self)@,
            !old(self)@.selection_is_empty() ==> r is Some && r->0@ == decode_utf8(
                old(self)@.bytes().subrange(
                    old(self)@.selected_range.start as int,
                    old(self)@.selected_range.end as int,
                ),
            ) && final(self)@ == old(self)@.replaced(None, Seq::empty()),
    {
        let copied = self.copy();
        if copied.is_some() {
            proof {
                reveal_strlit("");
            }
            self.replace_text_in_range(None, "");
        }
        copied
    }

    /// Byte offset of UTF-16 offset `offset`.
    pub fn offset_from_utf16(&self, offset: usize) -> (r: usize)
        ensures
            r == utf8_offset_of_utf16(self@.content, offset as int),
            r <= self@.len(),
            is_char_boundary(self@.bytes(), r as int),
    {
        let s = self.content.as_str();
        let n = byte_len(s);
        let cs = chars_of(s);
        let ghost c = s@;
        proof {
            lemma_length_bounds(c);
            assert(c.take(0) =~= Seq::<char>::empty());
        }
        let mut utf8_offset: usize = 0;
        let mut utf16_count: usize = 0;
        let mut i: usize = 0;
        while i < cs.len() && utf16_count < offset
            invariant
                c == self@.content,
                cs@ == c,
                n == bytes_of(c).len(),
                i <= cs.len(),
                utf8_offset == byte_offset_of(c, i as int),
                utf16_count == utf16_units(c.take(i as int)),
                forall|j: int| 0 <= j < i ==> utf16_units(#[trigger] c.take(j)) < offset,
            decreases cs.len() - i,
        {
            proof {
                lemma_prefix_step(c, i as int);
                lemma_prefix_monotone(c, i + 1, c.len() as int);
                lemma_length_bounds(c.take(i + 1));
            }
            utf16_count = utf16_count + char_len_utf16(cs[i]);
            utf8_offset = utf8_offset + char_len_utf8(cs[i]);
            i = i + 1;
        }
        proof {
            lemma_covering_utf16_unique(c, offset as int, i as int);
            lemma_prefix_monotone(c, i as int, c.len() as int);
            lemma_byte_offset_is_boundary(c, i as int);
        }
        utf8_offset
    }

    /// UTF-16 offset of byte offset `offset`.
    pub fn offset_to_utf16(&self, offset: usize) -> (r: usize)
        ensures
            r == utf16_offset_of_utf8(self@.content, offset as int),
    {
        let s = self.content.as_str();
        let n = byte_len(s);
        let cs = chars_of(s);
        let ghost c = s@;
        proof {
            lemma_length_bounds(c);
            assert(c.take(0) =~= Seq::<char>::empty());
        }
        let mut utf16_offset: usize = 0;
        let mut utf8_count: usize = 0;
        let mut i: usize = 0;
        while i < cs.len() && utf8_count < offset
            invariant
                c == self@.content,
                cs@ == c,
                n == bytes_of(c).len(),
                i <= cs.len(),
                utf8_count == byte_offset_of(c, i as int),
                utf16_offset == utf16_units(c.take(i as int)),
                forall|j: int| 0 <= j < i ==> byte_offset_of(c, j) < offset,
            decreases cs.len() - i,
        {
            proof {
                lemma_prefix_step(c, i as int);
                lemma_prefix_monotone(c, i + 1, c.len() as int);
                lemma_length_bounds(c.take(i + 1));
            }
            utf8_count = utf8_count + char_len_utf8(cs[i]);
            utf16_offset = utf16_offset + char_len_utf16(cs[i]);
            i = i + 1;
        }
        proof {
            lemma_covering_utf8_unique(c, offset as int, i as int);
        }
        utf16_offset
    }

    pub fn range_to_utf16(&self, range: &Range<usize>) -> (r: Range<usize>)
        ensures
            r.start == utf16_offset_of_utf8(self@.content, range.start as int),
            r.end == utf16_offset_of_utf8(self@.content, range.end as int),
    {
        Range { start: self.offset_to_utf16(range.start), end: self.offset_to_utf16(range.end) }
    }

    pub fn range_from_utf16(&self, range_utf16: &Range<usize>) -> (r: Range<usize>)
        ensures
            r.start == utf8_offset_of_utf16(self@.content, range_utf16.start as int),
            r.end == utf8_offset_of_utf16(self@.content, range_utf16.end as int),
            is_char_boundary(self@.bytes(), r.start as int),
            is_char_boundary(self@.bytes(), r.end as int),
    {
        Range {
            start: self.offset_from_utf16(range_utf16.start),
            end: self.offset_from_utf16(range_utf16.end),
        }
    }

    /// The text in a UTF-16 range; `actual_range` receives the range actually read.
    pub fn text_for_range(
        &self,
        range_utf16: Range<usize>,
        actual_range: &mut Option<Range<usize>>,
    ) -> (r: Option<String>)
        requires
            utf8_offset_of_utf16(self@.content, range_utf16.start as int) <= utf8_offset_of_utf16(
                self@.content,
                range_utf16.end as int,
            ),
        ensures
            ({
                let s = utf8_offset_of_utf16(self@.content, range_utf16.start as int) as int;
                let e = utf8_offset_of_utf16(self@.content, range_utf16.end as int) as int;
                &&& r is Some
                &&& r->0@ == decode_utf8(self@.bytes().subrange(s, e))
                &&& *final(actual_range) == Some(
                    Range {
                        start: utf16_offset_of_utf8(self@.content, s) as usize,
                        end: utf16_offset_of_utf8(self@.content, e) as usize,
                    },
                )
            }),
    {
        let range = self.range_from_utf16(&range_utf16);
        *actual_range = Some(self.range_to_utf16(&range));
        let text = substring(self.content.as_str(), range.start, range.end);
        Some(text.to_owned())
    }

    /// The selection in UTF-16 units.
    pub fn selected_text_range(&self) -> (r: Option<Utf16Selection>)
        ensures
            r matches Some(sel) && sel.reversed == self@.selection_reversed && sel.range.start
                == utf16_offset_of_utf8(self@.content, self@.selected_range.start as int)
                && sel.range.end == utf16_offset_of_utf8(
                self@.content,
                self@.selected_range.end as int,
            ),
    {
        Some(
            Utf16Selection {
                range: self.range_to_utf16(&self.selected_range),
                reversed: self.selection_reversed,
            },
        )
    }

    /// The marked (IME composition) text range in UTF-16 units.
    pub fn marked_text_range(&self) -> (r: Option<Range<usize>>)
        ensures
            match self@.marked_range {
                Some(m) => r matches Some(u) && u.start == utf16_offset_of_utf8(
                    self@.content,
                    m.start as int,
                ) && u.end == utf16_offset_of_utf8(self@.content, m.end as int),
                None => r is None,
            },
    {
        match &self.marked_range {
            Some(range) => Some(self.range_to_utf16(range)),
            None => None,
        }
    }

    /// Ends IME composition, keeping the text.
    pub fn unmark_text(&mut self)
        ensures
            final(self)@ == (TextInputView { marked_range: None, ..old(self)@ }),
    {
        self.marked_range = None;
    }

    fn current_replacement_range(&self, range_utf16: &Option<Range<usize>>) -> (r: Range<usize>)
        ensures
            r == self@.replacement_range(*range_utf16),
    {
        match range_utf16 {
            Some(r) => self.range_from_utf16(r),
            None => match &self.marked_range {
                Some(m) => Range { start: m.start, end: m.end },
                None => Range { start: self.selected_range.start, end: self.selected_range.end },
            },
        }
    }

    /// Whether [`Self::replace_text_in_range`] can act on `range_utf16` with `new_text`.
    pub fn can_replace_text(&self, range_utf16: &Option<Range<usize>>, new_text: &str) -> (r: bool)
        ensures
            r == self@.can_replace(*range_utf16, new_text@),
    {
        let range = self.current_replacement_range(range_utf16);
        let s = self.content.as_str();
        let text_len = byte_len(new_text);
        s.is_char_boundary(range.start) && s.is_char_boundary(range.end) && range.start
            <= usize::MAX - text_len
    }

    /// The selection after moving its cursor end to `offset`.
    fn selection_after_select_to(&self, offset: usize) -> (r: Range<usize>)
        ensures
            r == self@.selected_to(offset as int).selected_range,
    {
        let (start, end) = if self.selection_reversed {
            (offset, self.selected_range.end)
        } else {
            (self.selected_range.start, offset)
        };
        if end < start {
            Range { start: end, end: start }
        } else {
            Range { start, end }
        }
    }

    /// Whether a deletion towards `to` can be carried out: the range it removes
    /// has its ends on character boundaries.
    fn can_delete_towards(&self, to: usize) -> (r: bool)
        ensures
            r == self@.extended_for_deletion(to as int).can_replace(None, Seq::empty()),
    {
        let target = if !(self.selected_range.start < self.selected_range.end) {
            self.selection_after_select_to(to)
        } else {
            Range { start: self.selected_range.start, end: self.selected_range.end }
        };
        let range = match &self.marked_range {
            Some(m) => Range { start: m.start, end: m.end },
            None => target,
        };
        let s = self.content.as_str();
        proof {
            assert(bytes_of(Seq::<char>::empty()).len() == 0) by {
                assert(bytes_of(Seq::<char>::empty()) =~= Seq::<u8>::empty());
            }
        }
        s.is_char_boundary(range.start) && s.is_char_boundary(range.end)
    }

    /// Whether [`Self::backspace`] can be carried out.
    pub fn can_backspace(&self) -> (r: bool)
        ensures
            r == self@.extended_for_deletion(self@.previous_boundary(self@.cursor())).can_replace(
                None,
                Seq::empty(),
            ),
    {
        let to = self.previous_boundary(self.cursor_offset());
        self.can_delete_towards(to)
    }

    /// Whether [`Self::delete`] can be carried out.
    pub fn can_delete(&self) -> (r: bool)
        ensures
            r == self@.extended_for_deletion(self@.next_boundary(self@.cursor())).can_replace(
                None,
                Seq::empty(),
            ),
    {
        let to = self.next_boundary(self.cursor_offset());
        self.can_delete_towards(to)
    }

    /// Whether the selection's ends fall on character boundaries (always true
    /// for an empty selection), so that [`Self::copy`] can read it.
    pub fn can_copy(&self) -> (r: bool)
        ensures
            r == (!self@.selection_is_empty() ==> is_char_boundary(
                self@.bytes(),
                self@.selected_range.start as int,
            ) && is_char_boundary(self@.bytes(), self@.selected_range.end as int)),
    {
        if self.selected_range.start < self.selected_range.end {
            let s = self.content.as_str();
            s.is_char_boundary(self.selected_range.start) && s.is_char_boundary(
                self.selected_range.end,
            )
        } else {
            true
        }
    }

    /// Replaces the given UTF-16 range (else the marked text, else the selection)
    /// by `new_text` and puts the caret after it.
    pub fn replace_text_in_range(&mut self, range_utf16: Option<Range<usize>>, new_text: &str)
        requires
            old(self)@.can_replace(range_utf16, new_text@),
        ensures
            final(self)@ == old(self)@.replaced(range_utf16, new_text@),
    {
        let range = self.current_replacement_range(&range_utf16);
        let s = self.content.as_str();
        let head = prefix_to(s, range.start);
        let tail = suffix_from(s, range.end);
        let new_content = concat3(head, new_text, tail);
        let text_len = byte_len(new_text);
        self.content = new_content;
        self.selected_range = Range { start: range.start + text_len, end: range.start + text_len };
        self.marked_range = None;
    }

    /// Replaces like [`Self::replace_text_in_range`] and marks the new text as
    /// composition text; the selection is taken from `new_selected_range_utf16`
    /// when given.
    pub fn replace_and_mark_text_in_range(
        &mut self,
        range_utf16: Option<Range<usize>>,
        new_text: &str,
        new_selected_range_utf16: Option<Range<usize>>,
    )
        requires
            old(self)@.can_replace_and_mark(range_utf16, new_text@, new_selected_range_utf16),
        ensures
            final(self)@ == old(self)@.replaced_and_marked(
                range_utf16,
                new_text@,
                new_selected_range_utf16,
            ),
    {
        let range = self.current_replacement_range(&range_utf16);
        let s = self.content.as_str();
        let head = prefix_to(s, range.start);
        let tail = suffix_from(s, range.end);
        let new_content = concat3(head, new_text, tail);
        let text_len = byte_len(new_text);
        self.content = new_content;
        if !new_text.is_empty() {
            self.marked_range = Some(Range { start: range.start, end: range.start + text_len });
        } else {
            self.marked_range = None;
        }
        self.selected_range = match &new_selected_range_utf16 {
            Some(r) => {
                let new_range = self.range_from_utf16(r);
                Range { start: new_range.start + range.start, end: new_range.end + range.end }
            },
            None => Range { start: range.start + text_len, end: range.start + text_len },
        };
    }
}

} // verus!
