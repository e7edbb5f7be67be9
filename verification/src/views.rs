//! Text shown by the application's pages, and the names under which images are
//! exported.
use vstd::prelude::*;
use vstd::utf8::is_char_boundary;

use crate::state::ImageRecord;
use crate::strings::{
    byte_len, chars_of, concat2, concat3, push_char, string_from_chars, trim, trimmed,
};
use crate::text_spec::bytes_of;

verus! {

/// The application's pages.
#[derive(Clone, Copy, Debug, PartialEq, Eq, Structural)]
pub enum Page {
    Design,
    Settings,
    Logs,
    History,
}

/// Decimal digits of `n`, without leading zeros.
pub open spec fn decimal(n: nat) -> Seq<char>
    decreases n,
{
    if n < 10 {
        seq![digit_char(n)]
    } else {
        decimal(n / 10).push(digit_char(n % 10))
    }
}

pub open spec fn digit_char(d: nat) -> char {
    if d == 0 {
        '0'
    } else if d == 1 {
        '1'
    } else if d == 2 {
        '2'
    } else if d == 3 {
        '3'
    } else if d == 4 {
        '4'
    } else if d == 5 {
        '5'
    } else if d == 6 {
        '6'
    } else if d == 7 {
        '7'
    } else if d == 8 {
        '8'
    } else {
        '9'
    }
}

fn digit(d: u64) -> (c: char)
    requires
        d < 10,
    ensures
        c == digit_char(d as nat),
{
    if d == 0 {
        '0'
    } else if d == 1 {
        '1'
    } else if d == 2 {
        '2'
    } else if d == 3 {
        '3'
    } else if d == 4 {
        '4'
    } else if d == 5 {
        '5'
    } else if d == 6 {
        '6'
    } else if d == 7 {
        '7'
    } else if d == 8 {
        '8'
    } else {
        '9'
    }
}

/// `n` written in decimal, as `Display` writes integers.
pub fn decimal_text(n: u64) -> (r: String)
    ensures
        r@ == decimal(n as nat),
    decreases n,
{
    if n < 10 {
        let mut r = String::new();
        push_char(&mut r, digit(n));
        r
    } else {
        let mut r = decimal_text(n / 10);
        push_char(&mut r, digit(n % 10));
        r
    }
}

/// The label of an image count: "1 image", "2 images", "0 images".
pub fn image_count_label(count: u64) -> (r: String)
    ensures
        r@ == decimal(count as nat) + " image"@ + (if count == 1 {
            Seq::<char>::empty()
        } else {
            "s"@
        }),
{
    let mut r = decimal_text(count);
    r.append(" image");
    if count != 1 {
        r.append("s");
    } else {
        proof {
            assert(r@ =~= r@ + Seq::<char>::empty());
        }
    }
    r
}

/// The label of a call duration: "<n>ms".
pub fn duration_label(duration_ms: u64) -> (r: String)
    ensures
        r@ == decimal(duration_ms as nat) + "ms"@,
{
    let mut r = decimal_text(duration_ms);
    r.append("ms");
    r
}

/// A log's detail, cut to its first 200 bytes (followed by "...") when longer.
pub fn log_detail_display(detail: &str) -> (r: String)
    requires
        bytes_of(detail@).len() > 200 ==> is_char_boundary(bytes_of(detail@), 200),
    ensures
        bytes_of(detail@).len() > 200 ==> bytes_of(r@) == bytes_of(detail@).take(200) + bytes_of(
            "..."@,
        ),
        bytes_of(detail@).len() <= 200 ==> r@ == detail@,
{
    if byte_len(detail) > 200 {
        let head = crate::strings::prefix_to(detail, 200);
        let r = concat2(head, "...");
        proof {
            crate::text_spec::lemma_bytes_of_concat(head@, "..."@);
        }
        r
    } else {
        detail.to_owned()
    }
}

/// A timestamp cut to its first 16 bytes (date, hours and minutes) when longer.
pub fn short_timestamp(timestamp: &str) -> (r: &str)
    requires
        bytes_of(timestamp@).len() >= 16 ==> is_char_boundary(bytes_of(timestamp@), 16),
    ensures
        bytes_of(timestamp@).len() >= 16 ==> bytes_of(r@) == bytes_of(timestamp@).take(16),
        bytes_of(timestamp@).len() < 16 ==> r@ == timestamp@,
{
    if byte_len(timestamp) >= 16 {
        crate::strings::prefix_to(timestamp, 16)
    } else {
        timestamp
    }
}

/// The label of the style picker: the style's name and an arrow showing
/// whether the list is open.
pub fn style_toggle_label(style_label: &str, open: bool) -> (r: String)
    ensures
        r@ == "Style: "@ + style_label@ + " "@ + (if open {
            "▲"@
        } else {
            "▼"@
        }),
{
    let mut r = concat3("Style: ", style_label, " ");
    if open {
        r.append("▲");
    } else {
        r.append("▼");
    }
    r
}

/// Whether `char::is_alphanumeric` holds for `c`.
pub uninterp spec fn is_alphanumeric_char(c: char) -> bool;

/// `char::is_alphanumeric`.
#[verifier::external_body]
fn char_is_alphanumeric(c: char) -> (r: bool)
    ensures
        r == is_alphanumeric_char(c),
{
    c.is_alphanumeric()
}

/// The lowercase form of a text, as `str::to_lowercase` gives it.
pub uninterp spec fn lowercase_of(s: Seq<char>) -> Seq<char>;

/// `str::to_lowercase`.
#[verifier::external_body]
fn to_lowercase(s: &str) -> (r: String)
    ensures
        r@ == lowercase_of(s@),
{
    s.to_lowercase()
}

/// The uppercase form of a text, as `str::to_uppercase` gives it.
pub uninterp spec fn uppercase_of(s: Seq<char>) -> Seq<char>;

/// `str::to_uppercase`.
#[verifier::external_body]
fn to_uppercase(s: &str) -> (r: String)
    ensures
        r@ == uppercase_of(s@),
{
    s.to_uppercase()
}

/// The characters of a prompt kept in a file name: letters, digits and spaces.
pub open spec fn slug_chars(cs: Seq<char>) -> Seq<char>
    decreases cs.len(),
{
    if cs.len() == 0 {
        cs
    } else if is_alphanumeric_char(cs.last()) || cs.last() == ' ' {
        slug_chars(cs.drop_last()).push(cs.last())
    } else {
        slug_chars(cs.drop_last())
    }
}

/// The first `n` characters (all of them when there are fewer).
pub open spec fn first_chars(cs: Seq<char>, n: int) -> Seq<char> {
    if cs.len() <= n {
        cs
    } else {
        cs.take(n)
    }
}

/// Spaces turned into dashes.
pub open spec fn dashed(cs: Seq<char>) -> Seq<char> {
    cs.map_values(|c: char| if c == ' ' { '-' } else { c })
}

/// The file-name stem derived from a prompt: its first 30 letters, digits and
/// spaces, trimmed, spaces as dashes, lowercase.
pub open spec fn prompt_slug(prompt: Seq<char>) -> Seq<char> {
    lowercase_of(dashed(trimmed(first_chars(slug_chars(prompt), 30))))
}

/// The name under which an image is exported: the prompt's slug, or the
/// image's identifier when the slug is empty.
pub fn export_name_hint(prompt: &str, image_id: &str) -> (r: String)
    ensures
        r@ == if prompt_slug(prompt@).len() == 0 {
            image_id@
        } else {
            prompt_slug(prompt@)
        },
{
    let cs = chars_of(prompt);
    let mut kept: Vec<char> = Vec::new();
    let mut i: usize = 0;
    proof {
        assert(prompt@.take(0) =~= Seq::<char>::empty());
    }
    while i < cs.len()
        invariant
            cs@ == prompt@,
            i <= cs.len(),
            kept@ == first_chars(slug_chars(prompt@.take(i as int)), 30),
            kept@.len() <= 30,
        decreases cs.len() - i,
    {
        let c = cs[i];
        proof {
            assert(prompt@.take(i + 1).drop_last() =~= prompt@.take(i as int));
            assert(prompt@.take(i + 1).last() == c);
            let before = slug_chars(prompt@.take(i as int));
            if before.len() >= 30 {
                assert(first_chars(before.push(c), 30) =~= first_chars(before, 30));
            }
        }
        if (char_is_alphanumeric(c) || c == ' ') && kept.len() < 30 {
            kept.push(c);
        }
        i = i + 1;
    }
    proof {
        assert(prompt@.take(cs.len() as int) =~= prompt@);
    }
    let kept_text = string_from_chars(&kept);
    let trimmed_text = trim(kept_text.as_str());
    let tc = chars_of(trimmed_text.as_str());
    let mut dashes: Vec<char> = Vec::new();
    let mut j: usize = 0;
    while j < tc.len()
        invariant
            tc@ == trimmed_text@,
            j <= tc.len(),
            dashes@ == dashed(tc@.take(j as int)),
        decreases tc.len() - j,
    {
        let c = tc[j];
        if c == ' ' {
            dashes.push('-');
        } else {
            dashes.push(c);
        }
        proof {
            assert(dashed(tc@.take(j + 1)) =~= dashed(tc@.take(j as int)).push(
                if c == ' ' {
                    '-'
                } else {
                    c
                },
            ));
        }
        j = j + 1;
    }
    proof {
        assert(tc@.take(tc.len() as int) =~= tc@);
    }
    let dashed_text = string_from_chars(&dashes);
    let slug = to_lowercase(dashed_text.as_str());
    if slug.as_str().is_empty() {
        image_id.to_owned()
    } else {
        slug
    }
}

/// The candidate export file name: `<hint>.<ext>` first, then `<hint>_<n>.<ext>`.
pub fn export_file_name(name_hint: &str, ext: &str, attempt: u64) -> (r: String)
    ensures
        attempt == 0 ==> r@ == name_hint@ + "."@ + ext@,
        attempt > 0 ==> r@ == name_hint@ + "_"@ + decimal(attempt as nat) + "."@ + ext@,
{
    if attempt == 0 {
        concat3(name_hint, ".", ext)
    } else {
        let n = decimal_text(attempt);
        let mut r = concat3(name_hint, "_", n.as_str());
        r.append(".");
        r.append(ext);
        r
    }
}

/// The caption under a previewed image: model, file type in capitals, and
/// whether it was evolved from another image.
pub fn image_caption(image: &ImageRecord) -> (r: String)
    ensures
        r@ == image.model@ + " | "@ + uppercase_of(image.file_type@) + (if image.parent_image_id
            is Some {
            " | Evolved"@
        } else {
            Seq::<char>::empty()
        }),
{
    let upper = to_uppercase(image.file_type.as_str());
    let mut r = concat3(image.model.as_str(), " | ", upper.as_str());
    if image.parent_image_id.is_some() {
        r.append(" | Evolved");
    } else {
        proof {
            assert(r@ =~= r@ + Seq::<char>::empty());
        }
    }
    r
}

/// A log's status in capitals.
pub fn log_status_label(status: &str) -> (r: String)
    ensures
        r@ == uppercase_of(status@),
{
    to_uppercase(status)
}

} // verus!
