//! Properties of the session list and the style cycle.
use vstd::prelude::*;

use crate::state::{
    image_index, not_identified_by, session_index, sessions_without, style_label_of, style_value_of, ImageRecord,
    Session, STYLE_COUNT,
};

verus! {

/// Deleting a session leaves no session with its identifier and keeps every
/// other session.
pub proof fn law_delete_removes_exactly_that_session(s: Seq<Session>, id: Seq<char>)
    ensures
        forall|i: int|
            0 <= i < sessions_without(s, id).len() ==> #[trigger] sessions_without(s, id)[i].id@
                != id,
        forall|i: int|
            0 <= i < s.len() && #[trigger] s[i].id@ != id ==> sessions_without(s, id).contains(s[i]),
        forall|i: int|
            0 <= i < sessions_without(s, id).len() ==> s.contains(
                #[trigger] sessions_without(s, id)[i],
            ),
        sessions_without(s, id).len() <= s.len(),
    decreases s.len(),
{
    if s.len() > 0 {
        let d = s.drop_last();
        law_delete_removes_exactly_that_session(d, id);
        let w = sessions_without(d, id);
        assert forall|i: int| 0 <= i < s.len() && #[trigger] s[i].id@ != id implies sessions_without(
            s,
            id,
        ).contains(s[i]) by {
            if i < s.len() - 1 {
                assert(d[i] == s[i]);
                let j = choose|j: int| 0 <= j < w.len() && w[j] == d[i];
                if s.last().id@ != id {
                    assert(sessions_without(s, id)[j] == w[j]);
                }
            } else {
                assert(s[i] == s.last());
                assert(sessions_without(s, id)[w.len() as int] == s.last());
            }
        }
        assert forall|i: int| 0 <= i < sessions_without(s, id).len() implies s.contains(
            #[trigger] sessions_without(s, id)[i],
        ) by {
            if i < w.len() {
                let x = w[i];
                assert(sessions_without(s, id)[i] == x);
                let j = choose|j: int| 0 <= j < d.len() && d[j] == x;
                assert(s[j] == x);
            } else {
                assert(sessions_without(s, id)[i] == s.last());
                assert(s[s.len() - 1] == s.last());
            }
        }
    }
}

/// Advancing the style as many times as there are styles comes back to the
/// style one started from.
pub proof fn law_style_cycle(start: int)
    requires
        0 <= start < STYLE_COUNT,
    ensures
        ({
            let next = |i: int| (i + 1) % (STYLE_COUNT as int);
            next(next(next(next(next(next(start)))))) == start
        }),
{
}

/// A session put at the front of the list is the one found for its
/// identifier: creating a session and selecting it makes it the active one.
pub proof fn law_new_session_is_found(sessions: Seq<Session>, created: Session)
    ensures
        session_index(seq![created].add(sessions), created.id@) == 0,
{
    assert((seq![created].add(sessions))[0] == created);
}

/// An image appended under an identifier that no shown image has is the one
/// found for that identifier: after it is added, it is the selected image.
pub proof fn law_added_image_is_selected(images: Seq<ImageRecord>, added: ImageRecord)
    requires
        image_index(images, added.id@) == images.len(),
    ensures
        image_index(images.push(added), added.id@) == images.len(),
    decreases images.len(),
{
    if images.len() > 0 {
        assert(images.push(added)[0] == images[0]);
        assert(images.push(added).drop_first() =~= images.drop_first().push(added));
        law_added_image_is_selected(images.drop_first(), added);
    }
}

/// Deleting a session keeps the other sessions in their order: what remains is
/// the list filtered by identifier.
pub proof fn law_delete_keeps_order(s: Seq<Session>, id: Seq<char>)
    ensures
        sessions_without(s, id) == s.filter(not_identified_by(id)),
    decreases s.len(),
{
    reveal(Seq::filter);
    if s.len() > 0 {
        law_delete_keeps_order(s.drop_last(), id);
    }
}

/// The file-name form of a style label: lower case, spaces as underscores.
pub open spec fn label_key(label: Seq<char>) -> Seq<char> {
    label.map_values(
        |c: char|
            if c == ' ' {
                '_'
            } else if 'A' <= c && c <= 'Z' {
                ((c as u32) + 32) as char
            } else {
                c
            },
    )
}

/// A style's service value names the style shown to the user: it is
/// `vector_illustration/` followed by the label in file-name form (and
/// possibly a variant suffix).
pub proof fn law_style_value_names_its_label(i: int)
    requires
        0 <= i < STYLE_COUNT,
    ensures
        ({
            let v = style_value_of(i);
            let k = label_key(style_label_of(i));
            &&& v.len() >= 20 + k.len()
            &&& v.take(20) == "vector_illustration/"@
            &&& v.subrange(20, 20 + k.len() as int) == k
        }),
{
    reveal_strlit("vector_illustration/");
    reveal_strlit("vector_illustration/flat_2");
    reveal_strlit("vector_illustration/line_art");
    reveal_strlit("vector_illustration/cartoon");
    reveal_strlit("vector_illustration/linocut");
    reveal_strlit("vector_illustration/doodle_line_art");
    reveal_strlit("vector_illustration/engraving");
    reveal_strlit("Flat");
    reveal_strlit("Line Art");
    reveal_strlit("Cartoon");
    reveal_strlit("Linocut");
    reveal_strlit("Doodle");
    reveal_strlit("Engraving");
    let v = style_value_of(i);
    let k = label_key(style_label_of(i));
    assert(v.take(20) =~= "vector_illustration/"@);
    assert(v.subrange(20, 20 + k.len() as int) =~= k);
}

/// Different styles send different values to the service.
pub proof fn law_style_values_differ(i: int, j: int)
    requires
        0 <= i < STYLE_COUNT,
        0 <= j < STYLE_COUNT,
        i != j,
    ensures
        style_value_of(i) != style_value_of(j),
{
    reveal_strlit("vector_illustration/flat_2");
    reveal_strlit("vector_illustration/line_art");
    reveal_strlit("vector_illustration/cartoon");
    reveal_strlit("vector_illustration/linocut");
    reveal_strlit("vector_illustration/doodle_line_art");
    reveal_strlit("vector_illustration/engraving");
    if style_value_of(i).len() == style_value_of(j).len() {
        assert(style_value_of(i)[20] != style_value_of(j)[20]);
    }
}

} // verus!
