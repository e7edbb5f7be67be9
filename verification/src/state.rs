//! Application state: design sessions, their generated images, API call logs,
//! the chosen style and the generation status.
use chrono::Utc;
use vstd::prelude::*;

use crate::strings::{owned_option, str_equal};

verus! {

/// A design session.
#[derive(Debug)]
pub struct Session {
    pub id: String,
    pub name: String,
    pub created_at: String,
    pub updated_at: String,
}

/// A generated (or evolved) image that belongs to a session.
#[derive(Debug)]
pub struct ImageRecord {
    pub id: String,
    pub session_id: String,
    pub prompt: String,
    pub model: String,
    pub parent_image_id: Option<String>,
    pub filename: String,
    pub file_type: String,
    pub created_at: String,
}

/// One call to the image-generation service.
#[derive(Debug)]
pub struct LogEntry {
    pub id: String,
    pub timestamp: String,
    pub endpoint: String,
    pub prompt: String,
    pub status: String,
    pub detail: String,
    pub duration_ms: u64,
}

/// Whether a generation is running, and how the last one ended.
#[derive(Debug, PartialEq, Eq)]
pub enum GenerationStatus {
    Idle,
    Generating,
    Error(String),
}

impl Clone for Session {
    fn clone(&self) -> (r: Self)
        ensures
            r == *self,
    {
        Session {
            id: self.id.clone(),
            name: self.name.clone(),
            created_at: self.created_at.clone(),
            updated_at: self.updated_at.clone(),
        }
    }
}

impl Clone for ImageRecord {
    fn clone(&self) -> (r: Self)
        ensures
            r == *self,
    {
        ImageRecord {
            id: self.id.clone(),
            session_id: self.session_id.clone(),
            prompt: self.prompt.clone(),
            model: self.model.clone(),
            parent_image_id: owned_option(&self.parent_image_id),
            filename: self.filename.clone(),
            file_type: self.file_type.clone(),
            created_at: self.created_at.clone(),
        }
    }
}

impl Clone for LogEntry {
    fn clone(&self) -> (r: Self)
        ensures
            r == *self,
    {
        LogEntry {
            id: self.id.clone(),
            timestamp: self.timestamp.clone(),
            endpoint: self.endpoint.clone(),
            prompt: self.prompt.clone(),
            status: self.status.clone(),
            detail: self.detail.clone(),
            duration_ms: self.duration_ms,
        }
    }
}

impl Clone for GenerationStatus {
    fn clone(&self) -> (r: Self)
        ensures
            r == *self,
    {
        match self {
            GenerationStatus::Idle => GenerationStatus::Idle,
            GenerationStatus::Generating => GenerationStatus::Generating,
            GenerationStatus::Error(e) => GenerationStatus::Error(e.clone()),
        }
    }
}

/// Number of selectable drawing styles.
pub const STYLE_COUNT: usize = 6;

/// The service's name of style `i`.
pub open spec fn style_value_of(i: int) -> Seq<char> {
    if i == 0 {
        "vector_illustration/flat_2"@
    } else if i == 1 {
        "vector_illustration/line_art"@
    } else if i == 2 {
        "vector_illustration/cartoon"@
    } else if i == 3 {
        "vector_illustration/linocut"@
    } else if i == 4 {
        "vector_illustration/doodle_line_art"@
    } else {
        "vector_illustration/engraving"@
    }
}

/// The label shown for style `i`.
pub open spec fn style_label_of(i: int) -> Seq<char> {
    if i == 0 {
        "Flat"@
    } else if i == 1 {
        "Line Art"@
    } else if i == 2 {
        "Cartoon"@
    } else if i == 3 {
        "Linocut"@
    } else if i == 4 {
        "Doodle"@
    } else {
        "Engraving"@
    }
}

/// Style `i` as (service value, label).
pub fn style(i: usize) -> (r: (&'static str, &'static str))
    requires
        i < STYLE_COUNT,
    ensures
        r.0@ == style_value_of(i as int),
        r.1@ == style_label_of(i as int),
{
    if i == 0 {
        ("vector_illustration/flat_2", "Flat")
    } else if i == 1 {
        ("vector_illustration/line_art", "Line Art")
    } else if i == 2 {
        ("vector_illustration/cartoon", "Cartoon")
    } else if i == 3 {
        ("vector_illustration/linocut", "Linocut")
    } else if i == 4 {
        ("vector_illustration/doodle_line_art", "Doodle")
    } else {
        ("vector_illustration/engraving", "Engraving")
    }
}

/// Index of the first session with identifier `id` (the length when there is none).
pub open spec fn session_index(s: Seq<Session>, id: Seq<char>) -> int
    decreases s.len(),
{
    if s.len() == 0 {
        0
    } else if s[0].id@ == id {
        0
    } else {
        1 + session_index(s.drop_first(), id)
    }
}

/// Index of the first image with identifier `id` (the length when there is none).
pub open spec fn image_index(s: Seq<ImageRecord>, id: Seq<char>) -> int
    decreases s.len(),
{
    if s.len() == 0 {
        0
    } else if s[0].id@ == id {
        0
    } else {
        1 + image_index(s.drop_first(), id)
    }
}

/// The sessions whose identifier is not `id`, in their order.
pub open spec fn sessions_without(s: Seq<Session>, id: Seq<char>) -> Seq<Session>
    decreases s.len(),
{
    if s.len() == 0 {
        s
    } else if s.last().id@ == id {
        sessions_without(s.drop_last(), id)
    } else {
        sessions_without(s.drop_last(), id).push(s.last())
    }
}

/// Whether a session's identifier differs from `id`.
pub open spec fn not_identified_by(id: Seq<char>) -> spec_fn(Session) -> bool {
    |x: Session| x.id@ != id
}

pub open spec fn opt_view(o: Option<String>) -> Option<Seq<char>> {
    match o {
        Some(s) => Some(s@),
        None => None,
    }
}

/// Everything the application keeps in memory.
pub struct AppState {
    pub sessions: Vec<Session>,
    pub active_session_id: Option<String>,
    pub session_images: Vec<ImageRecord>,
    pub selected_image_id: Option<String>,
    pub selected_style_idx: usize,
    pub status: GenerationStatus,
    pub fal_key: Option<String>,
    pub logs: Vec<LogEntry>,
}

/// Whether `c` is a lowercase hexadecimal digit.
pub open spec fn is_lower_hex_digit(c: char) -> bool {
    ('0' <= c && c <= '9') || ('a' <= c && c <= 'f')
}

/// The hyphenated lowercase text of a random (version 4, RFC 4122 variant)
/// UUID: 36 characters, hyphens at 8, 13, 18 and 23, hexadecimal digits
/// elsewhere, the version digit `4` at 14 and a variant digit `8`-`b` at 19.
pub open spec fn is_v4_uuid_text(s: Seq<char>) -> bool {
    &&& s.len() == 36
    &&& forall|i: int|
        0 <= i < 36 ==> if i == 8 || i == 13 || i == 18 || i == 23 {
            s[i] == '-'
        } else {
            is_lower_hex_digit(#[trigger] s[i])
        }
    &&& s[14] == '4'
    &&& (s[19] == '8' || s[19] == '9' || s[19] == 'a' || s[19] == 'b')
}

/// RFC 3339 text of a UTC time as chrono writes it: ASCII characters only,
/// ending in the offset `+00:00`.
pub open spec fn is_utc_timestamp_text(s: Seq<char>) -> bool {
    &&& s.len() >= 6
    &&& s.skip(s.len() - 6) == "+00:00"@
    &&& forall|i: int| 0 <= i < s.len() ==> (#[trigger] s[i] as u32) < 128
}

/// A fresh random identifier: `uuid::Uuid::new_v4()` in its hyphenated
/// lowercase text form (`to_string`). Which identifier comes out is left
/// open, as it is random; its shape is stated.
#[verifier::external_body]
pub(crate) fn new_id() -> (r: String)
    ensures
        is_v4_uuid_text(r@),
{
    uuid::Uuid::new_v4().to_string()
}

/// The current time, `chrono::Utc::now().to_rfc3339()`. Which time comes out
/// is left open, as it depends on the clock; its shape is stated.
#[verifier::external_body]
pub(crate) fn now_rfc3339() -> (r: String)
    ensures
        is_utc_timestamp_text(r@),
{
    Utc::now().to_rfc3339()
}

fn search_session(s: &Vec<Session>, id: &str) -> (r: usize)
    ensures
        r == session_index(s@, id@),
        r <= s.len(),
{
    let mut i: usize = 0;
    proof {
        assert(s@.skip(0) =~= s@);
    }
    while i < s.len()
        invariant
            i <= s.len(),
            session_index(s@, id@) == i + session_index(s@.skip(i as int), id@),
        decreases s.len() - i,
    {
        proof {
            assert(s@.skip(i as int).drop_first() =~= s@.skip(i + 1));
            assert(s@.skip(i as int)[0] == s@[i as int]);
        }
        if str_equal(s[i].id.as_str(), id) {
            return i;
        }
        i = i + 1;
    }
    proof {
        assert(s@.skip(i as int) =~= Seq::<Session>::empty());
    }
    i
}

fn search_image(s: &Vec<ImageRecord>, id: &str) -> (r: usize)
    ensures
        r == image_index(s@, id@),
        r <= s.len(),
{
    let mut i: usize = 0;
    proof {
        assert(s@.skip(0) =~= s@);
    }
    while i < s.len()
        invariant
            i <= s.len(),
            image_index(s@, id@) == i + image_index(s@.skip(i as int), id@),
        decreases s.len() - i,
    {
        proof {
            assert(s@.skip(i as int).drop_first() =~= s@.skip(i + 1));
            assert(s@.skip(i as int)[0] == s@[i as int]);
        }
        if str_equal(s[i].id.as_str(), id) {
            return i;
        }
        i = i + 1;
    }
    proof {
        assert(s@.skip(i as int) =~= Seq::<ImageRecord>::empty());
    }
    i
}

impl AppState {
    /// The state right after start-up, from the stored sessions, key and logs.
    pub fn new(sessions: Vec<Session>, fal_key: Option<String>, logs: Vec<LogEntry>) -> (r: Self)
        ensures
            r.sessions == sessions,
            r.active_session_id is None,
            r.session_images@.len() == 0,
            r.selected_image_id is None,
            r.selected_style_idx == 0,
            r.status == GenerationStatus::Idle,
            r.fal_key == fal_key,
            r.logs == logs,
    {
        AppState {
            sessions,
            active_session_id: None,
            session_images: Vec::new(),
            selected_image_id: None,
            selected_style_idx: 0,
            status: GenerationStatus::Idle,
            fal_key,
            logs,
        }
    }

    /// Replaces the session list by a freshly read one.
    pub fn reload_sessions(&mut self, sessions: Vec<Session>)
        ensures
            *final(self) == (AppState { sessions, ..*old(self) }),
    {
        self.sessions = sessions;
    }

    /// Puts a new session with the given identity and times at the front of the list.
    pub fn insert_new_session(
        &mut self,
        id: String,
        name: &str,
        created_at: String,
        updated_at: String,
    ) -> (r: Session)
        ensures
            r == (Session { id, name: r.name, created_at, updated_at }),
            r.name@ == name@,
            final(self).sessions@ == seq![r].add(old(self).sessions@),
            *final(self) == (AppState { sessions: final(self).sessions, ..*old(self) }),
    {
        let session = Session { id, name: name.to_owned(), created_at, updated_at };
        self.sessions.insert(0, session.clone());
        proof {
            assert(self.sessions@ =~= seq![session].add(old(self).sessions@));
        }
        session
    }

    /// Creates a session named `name` with a fresh identifier and the current
    /// time, and puts it at the front of the list.
    pub fn create_session(&mut self, name: &str) -> (r: Session)
        ensures
            r.name@ == name@,
            is_v4_uuid_text(r.id@),
            is_utc_timestamp_text(r.created_at@),
            is_utc_timestamp_text(r.updated_at@),
            final(self).sessions@ == seq![r].add(old(self).sessions@),
            *final(self) == (AppState { sessions: final(self).sessions, ..*old(self) }),
    {
        let id = new_id();
        let created_at = now_rfc3339();
        let updated_at = now_rfc3339();
        self.insert_new_session(id, name, created_at, updated_at)
    }

    /// Makes `id` the active session, showing `images`, with no image selected.
    pub fn select_session(&mut self, id: &str, images: Vec<ImageRecord>)
        ensures
            opt_view(final(self).active_session_id) == Some(id@),
            final(self).selected_image_id is None,
            final(self).session_images == images,
            *final(self) == (AppState {
                active_session_id: final(self).active_session_id,
                selected_image_id: None,
                session_images: images,
                ..*old(self)
            }),
    {
        self.active_session_id = Some(id.to_owned());
        self.selected_image_id = None;
        self.session_images = images;
    }

    /// Drops session `id` from the list; if it was active, nothing is active afterwards.
    pub fn delete_session(&mut self, id: &str)
        ensures
            final(self).sessions@ == sessions_without(old(self).sessions@, id@),
            final(self).sessions@ == old(self).sessions@.filter(not_identified_by(id@)),
            opt_view(old(self).active_session_id) == Some(id@) ==> *final(self) == (AppState {
                sessions: final(self).sessions,
                active_session_id: None,
                session_images: final(self).session_images,
                selected_image_id: None,
                ..*old(self)
            }) && final(self).session_images@.len() == 0,
            opt_view(old(self).active_session_id) != Some(id@) ==> *final(self) == (AppState {
                sessions: final(self).sessions,
                ..*old(self)
            }),
    {
        let mut kept: Vec<Session> = Vec::new();
        let mut i: usize = 0;
        proof {
            assert(self.sessions@.take(0) =~= Seq::<Session>::empty());
        }
        while i < self.sessions.len()
            invariant
                i <= self.sessions.len(),
                self.sessions == old(self).sessions,
                kept@ == sessions_without(self.sessions@.take(i as int), id@),
            decreases self.sessions.len() - i,
        {
            proof {
                assert(self.sessions@.take(i + 1).drop_last() =~= self.sessions@.take(i as int));
                assert(self.sessions@.take(i + 1).last() == self.sessions@[i as int]);
            }
            if !str_equal(self.sessions[i].id.as_str(), id) {
                kept.push(self.sessions[i].clone());
            }
            i = i + 1;
        }
        proof {
            assert(self.sessions@.take(i as int) =~= self.sessions@);
            crate::state_laws::law_delete_keeps_order(self.sessions@, id@);
        }
        self.sessions = kept;
        let is_active = match &self.active_session_id {
            Some(active) => str_equal(active.as_str(), id),
            None => false,
        };
        if is_active {
            self.active_session_id = None;
            self.session_images = Vec::new();
            self.selected_image_id = None;
        }
    }

    /// Gives the first session with identifier `id` the name `name`.
    pub fn rename_session(&mut self, id: &str, name: &str)
        ensures
            ({
                let k = session_index(old(self).sessions@, id@);
                &&& k < old(self).sessions@.len() ==> final(self).sessions@ == old(
                    self,
                ).sessions@.update(k, final(self).sessions@[k])
                    && final(self).sessions@[k].name@ == name@ && final(self).sessions@[k]
                    == (Session { name: final(self).sessions@[k].name, ..old(self).sessions@[k] })
                &&& k == old(self).sessions@.len() ==> final(self).sessions == old(self).sessions
            }),
            *final(self) == (AppState { sessions: final(self).sessions, ..*old(self) }),
    {
        let k = search_session(&self.sessions, id);
        if k < self.sessions.len() {
            let old_session = &self.sessions[k];
            let renamed = Session {
                id: old_session.id.clone(),
                name: name.to_owned(),
                created_at: old_session.created_at.clone(),
                updated_at: old_session.updated_at.clone(),
            };
            self.sessions.set(k, renamed);
        }
    }

    /// Stores the API key.
    pub fn save_fal_key(&mut self, key: &str)
        ensures
            opt_view(final(self).fal_key) == Some(key@),
            *final(self) == (AppState { fal_key: final(self).fal_key, ..*old(self) }),
    {
        self.fal_key = Some(key.to_owned());
    }

    /// Appends a new image to the shown ones and selects it.
    pub fn add_image(&mut self, img: ImageRecord)
        ensures
            final(self).session_images@ == old(self).session_images@.push(img),
            opt_view(final(self).selected_image_id) == Some(img.id@),
            *final(self) == (AppState {
                session_images: final(self).session_images,
                selected_image_id: final(self).selected_image_id,
                ..*old(self)
            }),
    {
        let id = img.id.clone();
        self.session_images.push(img);
        self.selected_image_id = Some(id);
    }

    /// Puts a log entry at the front (newest first).
    pub fn add_log(&mut self, log: LogEntry)
        ensures
            final(self).logs@ == seq![log].add(old(self).logs@),
            *final(self) == (AppState { logs: final(self).logs, ..*old(self) }),
    {
        self.logs.insert(0, log);
        proof {
            assert(self.logs@ =~= seq![log].add(old(self).logs@));
        }
    }

    /// The selected image, if it is among the shown ones.
    pub fn selected_image(&self) -> (r: Option<&ImageRecord>)
        ensures
            match self.selected_image_id {
                None => r is None,
                Some(id) => {
                    let k = image_index(self.session_images@, id@);
                    if k < self.session_images@.len() {
                        r == Some(&self.session_images@[k])
                    } else {
                        r is None
                    }
                },
            },
    {
        match &self.selected_image_id {
            None => None,
            Some(id) => {
                let k = search_image(&self.session_images, id.as_str());
                if k < self.session_images.len() {
                    Some(&self.session_images[k])
                } else {
                    None
                }
            },
        }
    }

    /// The active session, if it is in the list.
    pub fn active_session(&self) -> (r: Option<&Session>)
        ensures
            match self.active_session_id {
                None => r is None,
                Some(id) => {
                    let k = session_index(self.sessions@, id@);
                    if k < self.sessions@.len() {
                        r == Some(&self.sessions@[k])
                    } else {
                        r is None
                    }
                },
            },
    {
        match &self.active_session_id {
            None => None,
            Some(id) => {
                let k = search_session(&self.sessions, id.as_str());
                if k < self.sessions.len() {
                    Some(&self.sessions[k])
                } else {
                    None
                }
            },
        }
    }

    /// The service's name of the chosen style.
    pub fn style_value(&self) -> (r: &str)
        requires
            self.selected_style_idx < STYLE_COUNT,
        ensures
            r@ == style_value_of(self.selected_style_idx as int),
    {
        style(self.selected_style_idx).0
    }

    /// Cycles to the next style.
    pub fn next_style(&mut self)
        requires
            old(self).selected_style_idx < usize::MAX,
        ensures
            final(self).selected_style_idx == (old(self).selected_style_idx + 1) % (STYLE_COUNT as int),
            *final(self) == (AppState {
                selected_style_idx: final(self).selected_style_idx,
                ..*old(self)
            }),
    {
        self.selected_style_idx = (self.selected_style_idx + 1) % STYLE_COUNT;
    }
}

} // verus!
