//! Small verified operations on strings addressed by UTF-8 byte offsets.
use vstd::prelude::*;
use vstd::utf8::*;

use crate::text_spec::{bytes_of, lemma_bytes_of_concat, lemma_length_bounds, utf16_width, utf8_width};

verus! {

broadcast use vstd::utf8::encode_utf8_valid_utf8;

/// Length in bytes of `s` (what `str::len` returns).
pub fn byte_len(s: &str) -> (n: usize)
    ensures
        n == bytes_of(s@).len(),
{
    s.as_bytes().len()
}

/// The characters of `s`, in order.
pub fn chars_of(s: &str) -> (v: Vec<char>)
    ensures
        v@ == s@,
{
    proof {
        lemma_length_bounds(s@);
    }
    let mut v: Vec<char> = Vec::new();
    for ch in it: s.chars()
        invariant
            it.seq() == s@,
            v@ == it.seq().take(it.index()),
    {
        proof {
            assert(it.seq().take(it.index() + 1) =~= it.seq().take(it.index()).push(ch));
        }
        v.push(ch);
    }
    proof {
        assert(s@.take(s@.len() as int) =~= s@);
    }
    v
}

/// `char::len_utf8`: a character's UTF-8 length follows from its scalar value.
pub fn char_len_utf8(c: char) -> (w: usize)
    ensures
        w == utf8_width(c),
{
    let v = c as u32;
    if v < 0x80 {
        1
    } else if v < 0x800 {
        2
    } else if v < 0x10000 {
        3
    } else {
        4
    }
}

/// `char::len_utf16`: characters outside the basic plane take two code units.
pub fn char_len_utf16(c: char) -> (w: usize)
    ensures
        w == utf16_width(c),
{
    let v = c as u32;
    if v < 0x10000 {
        1
    } else {
        2
    }
}

/// A character boundary of a text is also one of each prefix that contains it.
pub proof fn lemma_boundary_in_prefix(b: Seq<u8>, end: int, i: int)
    requires
        valid_utf8(b),
        is_char_boundary(b, end),
        is_char_boundary(b, i),
        0 <= i <= end,
    ensures
        valid_utf8(b.subrange(0, end)),
        is_char_boundary(b.subrange(0, end), i),
{
    vstd::utf8::valid_utf8_split(b, end);
    let p = b.subrange(0, end);
    vstd::utf8::is_char_boundary_start_end_of_seq(p);
    if i < end {
        assert(end <= b.len()) by {
            if end > b.len() {
                reveal_with_fuel(is_char_boundary, 1);
            }
        }
        vstd::utf8::is_char_boundary_iff_not_is_continuation_byte(b, i);
        vstd::utf8::is_char_boundary_iff_not_is_continuation_byte(p, i);
        assert(p[i] == b[i]);
    }
}

/// A character boundary lies within the text.
pub proof fn lemma_boundary_bound(b: Seq<u8>, i: int)
    requires
        valid_utf8(b),
        is_char_boundary(b, i),
    ensures
        0 <= i <= b.len(),
{
    reveal_with_fuel(is_char_boundary, 1);
}

/// `&s[..end]`.
pub fn prefix_to(s: &str, end: usize) -> (r: &str)
    requires
        is_char_boundary(bytes_of(s@), end as int),
    ensures
        bytes_of(r@) == bytes_of(s@).take(end as int),
        r@ == decode_utf8(bytes_of(s@).take(end as int)),
{
    let (head, _) = s.split_at(end);
    proof {
        encode_utf8_decode_utf8(head@);
    }
    head
}

/// `&s[start..]`.
pub fn suffix_from(s: &str, start: usize) -> (r: &str)
    requires
        is_char_boundary(bytes_of(s@), start as int),
    ensures
        bytes_of(r@) == bytes_of(s@).skip(start as int),
        r@ == decode_utf8(bytes_of(s@).skip(start as int)),
{
    let (_, tail) = s.split_at(start);
    proof {
        encode_utf8_decode_utf8(tail@);
    }
    tail
}

/// `&s[start..end]`.
pub fn substring(s: &str, start: usize, end: usize) -> (r: &str)
    requires
        start <= end,
        is_char_boundary(bytes_of(s@), start as int),
        is_char_boundary(bytes_of(s@), end as int),
    ensures
        bytes_of(r@) == bytes_of(s@).subrange(start as int, end as int),
        r@ == decode_utf8(bytes_of(s@).subrange(start as int, end as int)),
{
    let head = prefix_to(s, end);
    proof {
        lemma_boundary_in_prefix(bytes_of(s@), end as int, start as int);
        lemma_boundary_bound(bytes_of(s@), end as int);
    }
    let (_, mid) = head.split_at(start);
    proof {
        encode_utf8_decode_utf8(mid@);
        assert(bytes_of(mid@) =~= bytes_of(s@).subrange(start as int, end as int));
    }
    mid
}

/// `a.to_owned() + b`.
pub fn concat2(a: &str, b: &str) -> (r: String)
    ensures
        r@ == a@ + b@,
{
    let mut r = a.to_owned();
    r.append(b);
    r
}

/// `a.to_owned() + b + c`.
pub fn concat3(a: &str, b: &str, c: &str) -> (r: String)
    ensures
        r@ == a@ + b@ + c@,
        bytes_of(r@) == bytes_of(a@) + bytes_of(b@) + bytes_of(c@),
{
    let mut r = a.to_owned();
    r.append(b);
    r.append(c);
    proof {
        lemma_bytes_of_concat(a@, b@);
        lemma_bytes_of_concat(a@ + b@, c@);
    }
    r
}

/// `String::push`: appends one character.
#[verifier::external_body]
pub(crate) fn push_char(s: &mut String, c: char)
    ensures
        final(s)@ == old(s)@.push(c),
{
    s.push(c);
}

/// A `String` holding exactly the given characters.
pub fn string_from_chars(cs: &Vec<char>) -> (r: String)
    ensures
        r@ == cs@,
{
    let mut r = String::new();
    let mut i: usize = 0;
    while i < cs.len()
        invariant
            i <= cs.len(),
            r@ == cs@.take(i as int),
        decreases cs.len() - i,
    {
        push_char(&mut r, cs[i]);
        proof {
            assert(cs@.take(i + 1) =~= cs@.take(i as int).push(cs@[i as int]));
        }
        i = i + 1;
    }
    proof {
        assert(cs@.take(cs.len() as int) =~= cs@);
    }
    r
}

/// Equality of two texts.
pub fn str_equal(a: &str, b: &str) -> (r: bool)
    ensures
        r == (a@ == b@),
{
    let x = a.as_bytes();
    let y = b.as_bytes();
    if x.len() != y.len() {
        return false;
    }
    let mut i: usize = 0;
    while i < x.len()
        invariant
            x@ == bytes_of(a@),
            y@ == bytes_of(b@),
            x@.len() == y@.len(),
            i <= x@.len(),
            forall|j: int| 0 <= j < i ==> x@[j] == y@[j],
        decreases x@.len() - i,
    {
        if x[i] != y[i] {
            return false;
        }
        i = i + 1;
    }
    proof {
        assert(x@ =~= y@);
        encode_utf8_decode_utf8(a@);
        encode_utf8_decode_utf8(b@);
    }
    true
}

/// `str::to_owned` of an optional text.
pub fn owned_option(s: &Option<String>) -> (r: Option<String>)
    ensures
        r == *s,
{
    match s {
        Some(t) => Some(t.clone()),
        None => None,
    }
}

/// Whether `c` has the Unicode `White_Space` property, which is what
/// `char::is_whitespace` tests (PropList.txt of the Unicode Character Database).
pub open spec fn is_whitespace_char(c: char) -> bool {
    let v = c as u32;
    ||| 0x9 <= v <= 0xD
    ||| v == 0x20
    ||| v == 0x85
    ||| v == 0xA0
    ||| v == 0x1680
    ||| 0x2000 <= v <= 0x200A
    ||| v == 0x2028
    ||| v == 0x2029
    ||| v == 0x202F
    ||| v == 0x205F
    ||| v == 0x3000
}

/// Whether `c` is whitespace, as `char::is_whitespace` answers.
fn char_is_whitespace(c: char) -> (r: bool)
    ensures
        r == is_whitespace_char(c),
{
    let v = c as u32;
    (0x9 <= v && v <= 0xD) || v == 0x20 || v == 0x85 || v == 0xA0 || v == 0x1680 || (0x2000 <= v
        && v <= 0x200A) || v == 0x2028 || v == 0x2029 || v == 0x202F || v == 0x205F || v == 0x3000
}

/// Number of leading whitespace characters.
pub open spec fn leading_whitespace(cs: Seq<char>) -> nat
    decreases cs.len(),
{
    if cs.len() > 0 && is_whitespace_char(cs[0]) {
        1 + leading_whitespace(cs.drop_first())
    } else {
        0
    }
}

/// Number of trailing whitespace characters.
pub open spec fn trailing_whitespace(cs: Seq<char>) -> nat
    decreases cs.len(),
{
    if cs.len() > 0 && is_whitespace_char(cs.last()) {
        1 + trailing_whitespace(cs.drop_last())
    } else {
        0
    }
}

/// `str::trim`: the text without leading and trailing whitespace.
pub open spec fn trimmed(cs: Seq<char>) -> Seq<char> {
    let front = cs.skip(leading_whitespace(cs) as int);
    front.take(front.len() - trailing_whitespace(front))
}

proof fn lemma_leading_whitespace_from(cs: Seq<char>, i: int)
    requires
        0 <= i <= cs.len(),
        forall|j: int| 0 <= j < i ==> is_whitespace_char(cs[j]),
    ensures
        leading_whitespace(cs) == i + leading_whitespace(cs.skip(i)),
    decreases i,
{
    if i == 0 {
        assert(cs.skip(0) =~= cs);
    } else {
        assert(cs.drop_first().skip(i - 1) =~= cs.skip(i));
        lemma_leading_whitespace_from(cs.drop_first(), i - 1);
    }
}

proof fn lemma_trailing_whitespace_from(cs: Seq<char>, i: int)
    requires
        0 <= i <= cs.len(),
        forall|j: int| i <= j < cs.len() ==> is_whitespace_char(cs[j]),
    ensures
        trailing_whitespace(cs) == (cs.len() - i) + trailing_whitespace(cs.take(i)),
    decreases cs.len() - i,
{
    if i == cs.len() {
        assert(cs.take(i) =~= cs);
    } else {
        assert(cs.drop_last().take(i) =~= cs.take(i));
        lemma_trailing_whitespace_from(cs.drop_last(), i);
    }
}

/// `str::trim`, as characters.
pub fn trim(s: &str) -> (r: String)
    ensures
        r@ == trimmed(s@),
{
    let cs = chars_of(s);
    let mut start: usize = 0;
    while start < cs.len() && char_is_whitespace(cs[start])
        invariant
            cs@ == s@,
            start <= cs.len(),
            forall|j: int| 0 <= j < start ==> is_whitespace_char(cs@[j]),
        decreases cs.len() - start,
    {
        start = start + 1;
    }
    proof {
        lemma_leading_whitespace_from(s@, start as int);
        if start < cs.len() {
            assert(s@.skip(start as int)[0] == s@[start as int]);
        }
    }
    let ghost front = s@.skip(start as int);
    let mut end: usize = cs.len();
    while end > start && char_is_whitespace(cs[end - 1])
        invariant
            cs@ == s@,
            front == s@.skip(start as int),
            start <= end <= cs.len(),
            forall|j: int| end - start <= j < front.len() ==> is_whitespace_char(front[j]),
        decreases end,
    {
        end = end - 1;
    }
    proof {
        lemma_trailing_whitespace_from(front, end - start);
        let t = front.take(end - start);
        if end > start {
            assert(t.last() == s@[end - 1]);
        }
    }
    let mut kept: Vec<char> = Vec::new();
    let mut i: usize = start;
    while i < end
        invariant
            cs@ == s@,
            start <= i <= end <= cs.len(),
            kept@ == s@.subrange(start as int, i as int),
        decreases end - i,
    {
        kept.push(cs[i]);
        proof {
            assert(s@.subrange(start as int, i + 1) =~= s@.subrange(start as int, i as int).push(s@[i as int]));
        }
        i = i + 1;
    }
    proof {
        assert(kept@ =~= front.take(end - start));
    }
    string_from_chars(&kept)
}

/// The text is empty or all whitespace (`s.trim().is_empty()`).
pub fn is_blank(s: &str) -> (r: bool)
    ensures
        r == (trimmed(s@).len() == 0),
{
    let t = trim(s);
    t.as_str().is_empty()
}

/// `needle` occurs in `haystack` at character position `i`.
pub open spec fn occurs_at(haystack: Seq<char>, needle: Seq<char>, i: int) -> bool {
    0 <= i && i + needle.len() <= haystack.len() && haystack.subrange(i, i + needle.len()) == needle
}

/// `str::contains` for a text pattern.
pub open spec fn contains_text(haystack: Seq<char>, needle: Seq<char>) -> bool {
    exists|i: int| occurs_at(haystack, needle, i)
}

/// Whether `needle` occurs in `haystack`.
pub fn contains(haystack: &str, needle: &str) -> (r: bool)
    ensures
        r == contains_text(haystack@, needle@),
{
    let h = chars_of(haystack);
    let n = chars_of(needle);
    if n.len() > h.len() {
        proof {
            assert forall|i: int| !occurs_at(haystack@, needle@, i) by {}
        }
        return false;
    }
    let last = h.len() - n.len();
    let mut i: usize = 0;
    while i <= last
        invariant
            h@ == haystack@,
            n@ == needle@,
            last == h.len() - n.len(),
            i <= last + 1,
            forall|k: int| 0 <= k < i ==> !occurs_at(haystack@, needle@, k),
        decreases last + 1 - i,
    {
        let mut j: usize = 0;
        while j < n.len() && h[i + j] == n[j]
            invariant
                h@ == haystack@,
                n@ == needle@,
                i <= last,
                last == h.len() - n.len(),
                j <= n.len(),
                forall|m: int| 0 <= m < j ==> h@[i + m] == n@[m],
            decreases n.len() - j,
        {
            j = j + 1;
        }
        if j == n.len() {
            proof {
                assert(haystack@.subrange(i as int, i + needle@.len()) =~= needle@);
                assert(occurs_at(haystack@, needle@, i as int));
            }
            return true;
        }
        proof {
            assert(!occurs_at(haystack@, needle@, i as int)) by {
                if occurs_at(haystack@, needle@, i as int) {
                    assert(haystack@.subrange(i as int, i + needle@.len())[j as int] == h@[i + j]);
                }
            }
        }
        i = i + 1;
    }
    proof {
        assert forall|k: int| !occurs_at(haystack@, needle@, k) by {
            if occurs_at(haystack@, needle@, k) {
                assert(k < i);
            }
        }
    }
    false
}

} // verus!
