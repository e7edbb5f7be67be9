//! Mathematical model of the text buffer: UTF-8 byte offsets, UTF-16 code
//! units, and the line structure given by `'\n'` bytes.
use vstd::prelude::*;
use vstd::utf8::*;

verus! {

broadcast use vstd::utf8::encode_utf8_valid_utf8;

/// The newline byte.
pub const NEWLINE: u8 = 10;

/// Number of bytes that `char::len_utf8` reports for `c`.
pub open spec fn utf8_width(c: char) -> nat {
    if (c as u32) < 0x80 {
        1
    } else if (c as u32) < 0x800 {
        2
    } else if (c as u32) < 0x10000 {
        3
    } else {
        4
    }
}

/// Number of UTF-16 code units that `char::len_utf16` reports for `c`.
pub open spec fn utf16_width(c: char) -> nat {
    if (c as u32) < 0x10000 {
        1
    } else {
        2
    }
}

/// The UTF-8 encoding of a character sequence (the bytes a `str` holds).
pub open spec fn bytes_of(cs: Seq<char>) -> Seq<u8> {
    encode_utf8(cs)
}

/// Number of UTF-16 code units in a character sequence.
pub open spec fn utf16_units(cs: Seq<char>) -> nat
    decreases cs.len(),
{
    if cs.len() == 0 {
        0
    } else {
        utf16_width(cs[0]) + utf16_units(cs.drop_first())
    }
}

/// Byte offset at which the character with index `k` starts.
pub open spec fn byte_offset_of(cs: Seq<char>, k: int) -> nat {
    bytes_of(cs.take(k)).len()
}

/// Number of leading characters that must be consumed before at least `u`
/// UTF-16 code units have been seen (all of them, if the text is shorter).
pub open spec fn chars_covering_utf16(cs: Seq<char>, u: int) -> nat
    decreases cs.len(),
{
    if cs.len() == 0 || u <= 0 {
        0
    } else {
        1 + chars_covering_utf16(cs.drop_first(), u - utf16_width(cs[0]))
    }
}

/// Number of leading characters that must be consumed before at least `o`
/// UTF-8 bytes have been seen (all of them, if the text is shorter).
pub open spec fn chars_covering_utf8(cs: Seq<char>, o: int) -> nat
    decreases cs.len(),
{
    if cs.len() == 0 || o <= 0 {
        0
    } else {
        1 + chars_covering_utf8(cs.drop_first(), o - utf8_width(cs[0]))
    }
}

/// The UTF-8 byte offset that corresponds to the UTF-16 offset `u`.
pub open spec fn utf8_offset_of_utf16(cs: Seq<char>, u: int) -> nat {
    byte_offset_of(cs, chars_covering_utf16(cs, u) as int)
}

/// The UTF-16 offset that corresponds to the UTF-8 byte offset `o`.
pub open spec fn utf16_offset_of_utf8(cs: Seq<char>, o: int) -> nat {
    utf16_units(cs.take(chars_covering_utf8(cs, o) as int))
}

/// Number of newline bytes in `b`.
pub open spec fn newline_count(b: Seq<u8>) -> nat
    decreases b.len(),
{
    if b.len() == 0 {
        0
    } else {
        newline_count(b.drop_last()) + (if b.last() == NEWLINE {
            1nat
        } else {
            0nat
        })
    }
}

/// Position `s` begins a line: it is the start of the text or follows a newline.
pub open spec fn is_line_start(b: Seq<u8>, s: int) -> bool {
    s == 0 || (0 < s <= b.len() && b[s - 1] == NEWLINE)
}

/// Start of the line that contains position `o`.
pub open spec fn line_start_before(b: Seq<u8>, o: int) -> int
    decreases o,
{
    if o <= 0 {
        0
    } else if b[o - 1] == NEWLINE {
        o
    } else {
        line_start_before(b, o - 1)
    }
}

/// End (the newline position, or the end of the text) of the line that contains position `o`.
pub open spec fn line_end_after(b: Seq<u8>, o: int) -> int
    decreases b.len() - o,
{
    if o >= b.len() {
        b.len() as int
    } else if b[o] == NEWLINE {
        o
    } else {
        line_end_after(b, o + 1)
    }
}

/// Start of the line with index `k` (lines are numbered from 0).
pub open spec fn nth_line_start(b: Seq<u8>, k: nat) -> int
    decreases b.len(),
{
    if b.len() == 0 {
        0
    } else if newline_count(b.drop_last()) >= k {
        nth_line_start(b.drop_last(), k)
    } else {
        b.len() as int
    }
}

/// `min(o, len)`: offsets past the end of the text stand for its end.
pub open spec fn clamp_offset(b: Seq<u8>, o: int) -> int {
    if o < b.len() {
        o
    } else {
        b.len() as int
    }
}

/// Line and column (in bytes) of byte offset `o`.
pub open spec fn line_and_col(b: Seq<u8>, o: int) -> (int, int) {
    let p = clamp_offset(b, o);
    (newline_count(b.take(p)) as int, p - line_start_before(b, p))
}

/// Byte offset of column `col` on line `line`; both are clamped to the text.
pub open spec fn offset_of_line_col(b: Seq<u8>, line: int, col: int) -> int {
    let l = if line < newline_count(b) {
        line
    } else {
        newline_count(b) as int
    };
    let s = nth_line_start(b, l as nat);
    let len = line_end_after(b, s) - s;
    s + if col < len {
        col
    } else {
        len
    }
}

// ---------------------------------------------------------------------------
// Lemmas on UTF-8 / UTF-16 lengths
// ---------------------------------------------------------------------------
pub proof fn lemma_encode_scalar_len(c: char)
    ensures
        encode_scalar(c as u32).len() == utf8_width(c),
{
    char_is_scalar(c);
}

pub proof fn lemma_bytes_of_concat(a: Seq<char>, b: Seq<char>)
    ensures
        bytes_of(a + b) == bytes_of(a) + bytes_of(b),
    decreases a.len(),
{
    if a.len() == 0 {
        assert(a + b =~= b);
        assert(bytes_of(a) =~= Seq::<u8>::empty());
        assert(bytes_of(a) + bytes_of(b) =~= bytes_of(b));
    } else {
        assert((a + b).drop_first() =~= a.drop_first() + b);
        assert((a + b)[0] == a[0]);
        lemma_bytes_of_concat(a.drop_first(), b);
        assert(bytes_of(a + b) =~= bytes_of(a) + bytes_of(b));
    }
}

pub proof fn lemma_bytes_of_single(c: char)
    ensures
        bytes_of(seq![c]).len() == utf8_width(c),
{
    lemma_encode_scalar_len(c);
    assert(seq![c].drop_first() =~= Seq::<char>::empty());
    assert(seq![c][0] == c);
    reveal_with_fuel(encode_utf8, 2);
    assert(bytes_of(seq![c]) =~= encode_scalar(c as u32));
}

pub proof fn lemma_utf16_units_concat(a: Seq<char>, b: Seq<char>)
    ensures
        utf16_units(a + b) == utf16_units(a) + utf16_units(b),
    decreases a.len(),
{
    if a.len() == 0 {
        assert(a + b =~= b);
    } else {
        assert((a + b).drop_first() =~= a.drop_first() + b);
        assert((a + b)[0] == a[0]);
        lemma_utf16_units_concat(a.drop_first(), b);
    }
}

pub proof fn lemma_utf16_units_single(c: char)
    ensures
        utf16_units(seq![c]) == utf16_width(c),
{
    assert(seq![c].drop_first() =~= Seq::<char>::empty());
    assert(seq![c][0] == c);
    reveal_with_fuel(utf16_units, 2);
}

/// Stepping one character forward adds its widths to both prefix lengths.
pub proof fn lemma_prefix_step(cs: Seq<char>, i: int)
    requires
        0 <= i < cs.len(),
    ensures
        byte_offset_of(cs, i + 1) == byte_offset_of(cs, i) + utf8_width(cs[i]),
        utf16_units(cs.take(i + 1)) == utf16_units(cs.take(i)) + utf16_width(cs[i]),
{
    assert(cs.take(i + 1) =~= cs.take(i) + seq![cs[i]]);
    lemma_bytes_of_concat(cs.take(i), seq![cs[i]]);
    lemma_bytes_of_single(cs[i]);
    lemma_utf16_units_concat(cs.take(i), seq![cs[i]]);
    lemma_utf16_units_single(cs[i]);
}

/// Every character takes at least one UTF-16 unit and at least as many bytes.
pub proof fn lemma_length_bounds(cs: Seq<char>)
    ensures
        cs.len() <= utf16_units(cs) <= bytes_of(cs).len(),
    decreases cs.len(),
{
    if cs.len() > 0 {
        lemma_length_bounds(cs.drop_first());
        lemma_encode_scalar_len(cs[0]);
    }
}

/// Prefix lengths grow with the prefix.
pub proof fn lemma_prefix_monotone(cs: Seq<char>, i: int, j: int)
    requires
        0 <= i <= j <= cs.len(),
    ensures
        byte_offset_of(cs, i) + (j - i) <= byte_offset_of(cs, j),
        utf16_units(cs.take(i)) + (j - i) <= utf16_units(cs.take(j)),
        byte_offset_of(cs, j) <= bytes_of(cs).len(),
    decreases j - i,
{
    if i < j {
        lemma_prefix_monotone(cs, i, j - 1);
        lemma_prefix_step(cs, j - 1);
        lemma_encode_scalar_len(cs[j - 1]);
    }
    assert(cs =~= cs.take(j) + cs.skip(j));
    lemma_bytes_of_concat(cs.take(j), cs.skip(j));
}

/// The byte offset of every character index is a character boundary.
pub proof fn lemma_byte_offset_is_boundary(cs: Seq<char>, k: int)
    requires
        0 <= k <= cs.len(),
    ensures
        is_char_boundary(bytes_of(cs), byte_offset_of(cs, k) as int),
    decreases k,
{
    if k == 0 {
        assert(cs.take(0) =~= Seq::<char>::empty());
    } else {
        let b = bytes_of(cs);
        encode_utf8_first_scalar(cs);
        lemma_encode_scalar_len(cs[0]);
        assert(pop_first_scalar(b) =~= encode_utf8(cs.drop_first()));
        assert(cs.take(k) =~= seq![cs[0]] + cs.drop_first().take(k - 1));
        lemma_bytes_of_concat(seq![cs[0]], cs.drop_first().take(k - 1));
        lemma_bytes_of_single(cs[0]);
        lemma_byte_offset_is_boundary(cs.drop_first(), k - 1);
        lemma_prefix_monotone(cs, k, cs.len() as int);
    }
}

// ---------------------------------------------------------------------------
// Lemmas on UTF-16 <-> UTF-8 offset conversion
// ---------------------------------------------------------------------------
/// Unfolding `chars_covering_utf16` from an arbitrary character index.
pub proof fn lemma_covering_utf16_from(cs: Seq<char>, u: int, i: int)
    requires
        0 <= i <= cs.len(),
        forall|j: int| 0 <= j < i ==> utf16_units(#[trigger] cs.take(j)) < u,
    ensures
        chars_covering_utf16(cs, u) == i + chars_covering_utf16(
            cs.skip(i),
            u - utf16_units(cs.take(i)),
        ),
    decreases i,
{
    if i == 0 {
        assert(cs.skip(0) =~= cs);
        assert(cs.take(0) =~= Seq::<char>::empty());
    } else {
        assert(cs.take(0) =~= Seq::<char>::empty());
        assert(utf16_units(cs.take(0)) < u);
        let t = cs.drop_first();
        assert forall|j: int| 0 <= j < i - 1 implies utf16_units(#[trigger] t.take(j)) < u
            - utf16_width(cs[0]) by {
            assert(cs.take(j + 1) =~= seq![cs[0]] + t.take(j));
            lemma_utf16_units_concat(seq![cs[0]], t.take(j));
            lemma_utf16_units_single(cs[0]);
            assert(utf16_units(cs.take(j + 1)) < u);
        }
        lemma_covering_utf16_from(t, u - utf16_width(cs[0]), i - 1);
        assert(t.skip(i - 1) =~= cs.skip(i));
        assert(cs.take(i) =~= seq![cs[0]] + t.take(i - 1));
        lemma_utf16_units_concat(seq![cs[0]], t.take(i - 1));
        lemma_utf16_units_single(cs[0]);
    }
}

/// Unfolding `chars_covering_utf8` from an arbitrary character index.
pub proof fn lemma_covering_utf8_from(cs: Seq<char>, o: int, i: int)
    requires
        0 <= i <= cs.len(),
        forall|j: int| 0 <= j < i ==> byte_offset_of(cs, j) < o,
    ensures
        chars_covering_utf8(cs, o) == i + chars_covering_utf8(cs.skip(i), o - byte_offset_of(cs, i)),
    decreases i,
{
    if i == 0 {
        assert(cs.skip(0) =~= cs);
        assert(cs.take(0) =~= Seq::<char>::empty());
    } else {
        assert(cs.take(0) =~= Seq::<char>::empty());
        assert(byte_offset_of(cs, 0) < o);
        let t = cs.drop_first();
        assert forall|j: int| 0 <= j < i - 1 implies byte_offset_of(t, j) < o - utf8_width(
            cs[0],
        ) by {
            assert(cs.take(j + 1) =~= seq![cs[0]] + t.take(j));
            lemma_bytes_of_concat(seq![cs[0]], t.take(j));
            lemma_bytes_of_single(cs[0]);
            assert(byte_offset_of(cs, j + 1) < o);
        }
        lemma_covering_utf8_from(t, o - utf8_width(cs[0]), i - 1);
        assert(t.skip(i - 1) =~= cs.skip(i));
        assert(cs.take(i) =~= seq![cs[0]] + t.take(i - 1));
        lemma_bytes_of_concat(seq![cs[0]], t.take(i - 1));
        lemma_bytes_of_single(cs[0]);
    }
}

/// `chars_covering_utf16` is the least prefix that reaches `u` units (or the whole text).
pub proof fn lemma_covering_utf16_bounds(cs: Seq<char>, u: int)
    ensures
        chars_covering_utf16(cs, u) <= cs.len(),
        chars_covering_utf16(cs, u) < cs.len() ==> u <= utf16_units(
            cs.take(chars_covering_utf16(cs, u) as int),
        ),
        forall|j: int| 0 <= j < chars_covering_utf16(cs, u) ==> utf16_units(#[trigger] cs.take(j)) < u,
    decreases cs.len(),
{
    if cs.len() == 0 || u <= 0 {
        assert(cs.take(0) =~= Seq::<char>::empty());
    } else {
        let t = cs.drop_first();
        let w = utf16_width(cs[0]);
        lemma_covering_utf16_bounds(t, u - w);
        let k = chars_covering_utf16(cs, u) as int;
        assert(cs.take(k) =~= seq![cs[0]] + t.take(k - 1));
        lemma_utf16_units_concat(seq![cs[0]], t.take(k - 1));
        lemma_utf16_units_single(cs[0]);
        assert forall|j: int| 0 <= j < k implies utf16_units(#[trigger] cs.take(j)) < u by {
            if j == 0 {
                assert(cs.take(0) =~= Seq::<char>::empty());
            } else {
                assert(cs.take(j) =~= seq![cs[0]] + t.take(j - 1));
                lemma_utf16_units_concat(seq![cs[0]], t.take(j - 1));
                assert(utf16_units(t.take(j - 1)) < u - w);
            }
        }
    }
}

/// `chars_covering_utf8` is the least prefix that reaches `o` bytes (or the whole text).
pub proof fn lemma_covering_utf8_bounds(cs: Seq<char>, o: int)
    ensures
        chars_covering_utf8(cs, o) <= cs.len(),
        chars_covering_utf8(cs, o) < cs.len() ==> o <= byte_offset_of(
            cs,
            chars_covering_utf8(cs, o) as int,
        ),
        forall|j: int| 0 <= j < chars_covering_utf8(cs, o) ==> byte_offset_of(cs, j) < o,
    decreases cs.len(),
{
    if cs.len() == 0 || o <= 0 {
        assert(cs.take(0) =~= Seq::<char>::empty());
    } else {
        let t = cs.drop_first();
        let w = utf8_width(cs[0]);
        lemma_covering_utf8_bounds(t, o - w);
        let k = chars_covering_utf8(cs, o) as int;
        assert(cs.take(k) =~= seq![cs[0]] + t.take(k - 1));
        lemma_bytes_of_concat(seq![cs[0]], t.take(k - 1));
        lemma_bytes_of_single(cs[0]);
        assert forall|j: int| 0 <= j < k implies byte_offset_of(cs, j) < o by {
            if j == 0 {
                assert(cs.take(0) =~= Seq::<char>::empty());
            } else {
                assert(cs.take(j) =~= seq![cs[0]] + t.take(j - 1));
                lemma_bytes_of_concat(seq![cs[0]], t.take(j - 1));
                assert(byte_offset_of(t, j - 1) < o - w);
            }
        }
    }
}

/// A least covering prefix is determined by its defining properties.
pub proof fn lemma_covering_utf8_unique(cs: Seq<char>, o: int, k: int)
    requires
        0 <= k <= cs.len(),
        k < cs.len() ==> o <= byte_offset_of(cs, k),
        forall|j: int| 0 <= j < k ==> byte_offset_of(cs, j) < o,
    ensures
        chars_covering_utf8(cs, o) == k,
{
    lemma_covering_utf8_bounds(cs, o);
    let c = chars_covering_utf8(cs, o) as int;
    if c < k {
        assert(byte_offset_of(cs, c) < o);
    } else if k < c {
        assert(byte_offset_of(cs, k) < o);
    }
}

pub proof fn lemma_covering_utf16_unique(cs: Seq<char>, u: int, k: int)
    requires
        0 <= k <= cs.len(),
        k < cs.len() ==> u <= utf16_units(cs.take(k)),
        forall|j: int| 0 <= j < k ==> utf16_units(#[trigger] cs.take(j)) < u,
    ensures
        chars_covering_utf16(cs, u) == k,
{
    lemma_covering_utf16_bounds(cs, u);
    let c = chars_covering_utf16(cs, u) as int;
    if c < k {
        assert(utf16_units(cs.take(c)) < u);
    } else if k < c {
        assert(utf16_units(cs.take(k)) < u);
    }
}

// ---------------------------------------------------------------------------
// Lemmas on lines
// ---------------------------------------------------------------------------
pub proof fn lemma_newline_count_step(b: Seq<u8>, i: int)
    requires
        0 <= i < b.len(),
    ensures
        newline_count(b.take(i + 1)) == newline_count(b.take(i)) + (if b[i] == NEWLINE {
            1nat
        } else {
            0nat
        }),
{
    assert(b.take(i + 1).drop_last() =~= b.take(i));
}

pub proof fn lemma_newline_count_monotone(b: Seq<u8>, i: int, j: int)
    requires
        0 <= i <= j <= b.len(),
    ensures
        newline_count(b.take(i)) <= newline_count(b.take(j)),
        newline_count(b.take(j)) <= newline_count(b.take(i)) + (j - i),
    decreases j - i,
{
    if i < j {
        lemma_newline_count_monotone(b, i, j - 1);
        lemma_newline_count_step(b, j - 1);
    }
}

pub proof fn lemma_newline_count_full(b: Seq<u8>)
    ensures
        newline_count(b.take(b.len() as int)) == newline_count(b),
        newline_count(b) <= b.len(),
{
    assert(b.take(b.len() as int) =~= b);
    lemma_newline_count_monotone(b, 0, b.len() as int);
    assert(b.take(0) =~= Seq::<u8>::empty());
}

/// Newlines strictly inside `[i, j)` are absent exactly when the count does not change.
pub proof fn lemma_no_newline_between(b: Seq<u8>, i: int, j: int)
    requires
        0 <= i <= j <= b.len(),
        forall|t: int| i <= t < j ==> b[t] != NEWLINE,
    ensures
        newline_count(b.take(i)) == newline_count(b.take(j)),
    decreases j - i,
{
    if i < j {
        lemma_no_newline_between(b, i, j - 1);
        lemma_newline_count_step(b, j - 1);
    }
}

pub proof fn lemma_line_start_before(b: Seq<u8>, o: int)
    requires
        0 <= o <= b.len(),
    ensures
        0 <= line_start_before(b, o) <= o,
        is_line_start(b, line_start_before(b, o)),
        forall|t: int| line_start_before(b, o) <= t < o ==> b[t] != NEWLINE,
        newline_count(b.take(line_start_before(b, o))) == newline_count(b.take(o)),
    decreases o,
{
    if o > 0 && b[o - 1] != NEWLINE {
        lemma_line_start_before(b, o - 1);
        lemma_newline_count_step(b, o - 1);
    }
}

pub proof fn lemma_line_end_after(b: Seq<u8>, o: int)
    requires
        0 <= o <= b.len(),
    ensures
        o <= line_end_after(b, o) <= b.len(),
        line_end_after(b, o) == b.len() || b[line_end_after(b, o)] == NEWLINE,
        forall|t: int| o <= t < line_end_after(b, o) ==> b[t] != NEWLINE,
    decreases b.len() - o,
{
    if o < b.len() && b[o] != NEWLINE {
        lemma_line_end_after(b, o + 1);
    }
}

/// Moving within a line does not change where the line ends.
pub proof fn lemma_line_end_same_line(b: Seq<u8>, s: int, o: int)
    requires
        0 <= s <= o <= b.len(),
        forall|t: int| s <= t < o ==> b[t] != NEWLINE,
    ensures
        line_end_after(b, s) == line_end_after(b, o),
    decreases o - s,
{
    if s < o {
        lemma_line_end_same_line(b, s + 1, o);
    }
}

/// Two line starts with the same number of preceding newlines coincide.
pub proof fn lemma_line_start_unique(b: Seq<u8>, s1: int, s2: int)
    requires
        0 <= s1 <= b.len(),
        0 <= s2 <= b.len(),
        is_line_start(b, s1),
        is_line_start(b, s2),
        newline_count(b.take(s1)) == newline_count(b.take(s2)),
    ensures
        s1 == s2,
{
    if s1 < s2 {
        lemma_newline_count_monotone(b, s1, s2 - 1);
        lemma_newline_count_step(b, s2 - 1);
    } else if s2 < s1 {
        lemma_newline_count_monotone(b, s2, s1 - 1);
        lemma_newline_count_step(b, s1 - 1);
    }
}

pub proof fn lemma_nth_line_start(b: Seq<u8>, k: nat)
    requires
        k <= newline_count(b),
    ensures
        0 <= nth_line_start(b, k) <= b.len(),
        is_line_start(b, nth_line_start(b, k)),
        newline_count(b.take(nth_line_start(b, k))) == k,
    decreases b.len(),
{
    if b.len() == 0 {
        assert(b.take(0) =~= b);
    } else {
        let d = b.drop_last();
        if newline_count(d) >= k {
            lemma_nth_line_start(d, k);
            let s = nth_line_start(d, k);
            assert(d.take(s) =~= b.take(s));
        } else {
            lemma_newline_count_full(b);
            assert(b.take(b.len() as int) =~= b);
        }
    }
}

/// The start of the line containing `o` is the start of line number `newline_count(prefix)`.
pub proof fn lemma_line_start_is_nth(b: Seq<u8>, o: int)
    requires
        0 <= o <= b.len(),
    ensures
        nth_line_start(b, newline_count(b.take(o))) == line_start_before(b, o),
{
    lemma_newline_count_monotone(b, o, b.len() as int);
    lemma_newline_count_full(b);
    lemma_nth_line_start(b, newline_count(b.take(o)));
    lemma_line_start_before(b, o);
    lemma_line_start_unique(b, nth_line_start(b, newline_count(b.take(o))), line_start_before(b, o));
}

} // verus!
