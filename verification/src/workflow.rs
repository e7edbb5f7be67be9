//! The decisions around a generation or an evolution: whether to start one,
//! with what, and how its outcome changes the application state.  Running the
//! request itself (network, files, threads) is left to the caller.
use vstd::prelude::*;

use crate::state::{
    image_index, opt_view, style_value_of, AppState, GenerationStatus, ImageRecord, LogEntry,
    STYLE_COUNT,
};
use crate::strings::{is_blank, trim, trimmed};

verus! {

/// Everything a logo generation needs.
#[derive(Debug)]
pub struct GenerationJob {
    pub api_key: String,
    pub session_id: String,
    pub prompt: String,
    pub style: String,
}

/// Everything an evolution of the selected logo needs.
#[derive(Debug)]
pub struct EvolutionJob {
    pub api_key: String,
    pub session_id: String,
    pub prompt: String,
    pub parent: ImageRecord,
}

/// What to do when the user asks for a generation or an evolution.
#[derive(Debug)]
pub enum Plan<J> {
    /// Nothing to do (empty prompt, or nothing to work on).
    Skip,
    /// No API key is stored; the status now says so.
    MissingKey,
    /// Start the job; the status is now `Generating`.
    Start(J),
}

/// How a generation ended.
#[derive(Debug)]
pub enum GenerationOutcome {
    /// The service produced an image and it was stored.
    Created { image: ImageRecord, log: LogEntry },
    /// The service call failed; the log holds the error.
    Failed { log: LogEntry },
    /// The image could not be stored.
    Aborted { error: String },
}

pub open spec fn no_key_message() -> Seq<char> {
    "No API key set"@
}

impl AppState {
    /// Decides whether a generation for `prompt` starts.
    pub fn plan_generation(&mut self, prompt: &str) -> (r: Plan<GenerationJob>)
        requires
            trimmed(prompt@).len() != 0 && old(self).fal_key is Some
                && old(self).active_session_id is Some ==> old(self).selected_style_idx < STYLE_COUNT,
        ensures
            trimmed(prompt@).len() == 0 ==> r is Skip && *final(self) == *old(self),
            trimmed(prompt@).len() != 0 && old(self).fal_key is None ==> ({
                &&& r is MissingKey
                &&& *final(self) == (AppState { status: final(self).status, ..*old(self) })
                &&& final(self).status matches GenerationStatus::Error(e) && e@ == no_key_message()
            }),
            trimmed(prompt@).len() != 0 && old(self).fal_key is Some
                && old(self).active_session_id is None ==> r is Skip && *final(self) == *old(self),
            trimmed(prompt@).len() != 0 && old(self).fal_key is Some
                && old(self).active_session_id is Some ==> ({
                &&& *final(self) == (AppState { status: GenerationStatus::Generating, ..*old(self) })
                &&& r matches Plan::Start(job) && Some(job.api_key) == old(self).fal_key
                    && Some(job.session_id) == old(self).active_session_id
                    && job.prompt@ == prompt@
                    && job.style@ == style_value_of(old(self).selected_style_idx as int)
            }),
    {
        if is_blank(prompt) {
            return Plan::Skip;
        }
        let api_key = match &self.fal_key {
            Some(k) => k.clone(),
            None => {
                self.status = GenerationStatus::Error(String::from_str("No API key set"));
                return Plan::MissingKey;
            },
        };
        let session_id = match &self.active_session_id {
            Some(s) => s.clone(),
            None => {
                return Plan::Skip;
            },
        };
        let style = self.style_value().to_owned();
        self.status = GenerationStatus::Generating;
        Plan::Start(GenerationJob { api_key, session_id, prompt: prompt.to_owned(), style })
    }

    /// Position of the selected image among the shown ones (their number if
    /// none is selected or it is not shown).
    pub open spec fn selected_position(self) -> int {
        match self.selected_image_id {
            Some(id) => image_index(self.session_images@, id@),
            None => self.session_images@.len() as int,
        }
    }

    /// An image is selected and shown, and a session is active.
    pub open spec fn can_evolve(self) -> bool {
        self.selected_position() < self.session_images@.len() && self.active_session_id is Some
    }

    /// Decides whether an evolution of the selected image by `prompt` starts.
    pub fn plan_evolution(&mut self, prompt: &str) -> (r: Plan<EvolutionJob>)
        ensures
            trimmed(prompt@).len() == 0 ==> r is Skip && *final(self) == *old(self),
            trimmed(prompt@).len() != 0 && old(self).fal_key is None ==> ({
                &&& r is MissingKey
                &&& *final(self) == (AppState { status: final(self).status, ..*old(self) })
                &&& final(self).status matches GenerationStatus::Error(e) && e@ == no_key_message()
            }),
            trimmed(prompt@).len() != 0 && old(self).fal_key is Some && !old(self).can_evolve()
                ==> r is Skip && *final(self) == *old(self),
            trimmed(prompt@).len() != 0 && old(self).fal_key is Some && old(self).can_evolve()
                ==> ({
                &&& *final(self) == (AppState { status: GenerationStatus::Generating, ..*old(self) })
                &&& r matches Plan::Start(job) && Some(job.api_key) == old(self).fal_key
                    && Some(job.session_id) == old(self).active_session_id
                    && job.prompt@ == prompt@
                    && job.parent == old(self).session_images@[old(self).selected_position()]
            }),
    {
        if is_blank(prompt) {
            return Plan::Skip;
        }
        let api_key = match &self.fal_key {
            Some(k) => k.clone(),
            None => {
                self.status = GenerationStatus::Error(String::from_str("No API key set"));
                return Plan::MissingKey;
            },
        };
        let parent = match self.selected_image() {
            Some(img) => img.clone(),
            None => {
                return Plan::Skip;
            },
        };
        let session_id = match &self.active_session_id {
            Some(s) => s.clone(),
            None => {
                return Plan::Skip;
            },
        };
        self.status = GenerationStatus::Generating;
        Plan::Start(EvolutionJob { api_key, session_id, prompt: prompt.to_owned(), parent })
    }

    /// Records how a generation ended: a new image is logged, added and selected;
    /// a failed call is logged and its error shown; a storage failure is shown.
    pub fn finish_generation(&mut self, outcome: GenerationOutcome)
        ensures
            match outcome {
                GenerationOutcome::Created { image, log } => {
                    &&& final(self).logs@ == seq![log].add(old(self).logs@)
                    &&& final(self).session_images@ == old(self).session_images@.push(image)
                    &&& opt_view(final(self).selected_image_id) == Some(image.id@)
                    &&& final(self).status == GenerationStatus::Idle
                    &&& *final(self) == (AppState {
                        logs: final(self).logs,
                        session_images: final(self).session_images,
                        selected_image_id: final(self).selected_image_id,
                        status: GenerationStatus::Idle,
                        ..*old(self)
                    })
                },
                GenerationOutcome::Failed { log } => {
                    &&& final(self).logs@ == seq![log].add(old(self).logs@)
                    &&& final(self).status matches GenerationStatus::Error(e) && e == log.detail
                    &&& *final(self) == (AppState {
                        logs: final(self).logs,
                        status: final(self).status,
                        ..*old(self)
                    })
                },
                GenerationOutcome::Aborted { error } => *final(self) == (AppState {
                    status: GenerationStatus::Error(error),
                    ..*old(self)
                }),
            },
    {
        match outcome {
            GenerationOutcome::Created { image, log } => {
                self.add_log(log);
                self.add_image(image);
                self.status = GenerationStatus::Idle;
            },
            GenerationOutcome::Failed { log } => {
                let err = log.detail.clone();
                self.add_log(log);
                self.status = GenerationStatus::Error(err);
            },
            GenerationOutcome::Aborted { error } => {
                self.status = GenerationStatus::Error(error);
            },
        }
    }

    /// Records how an evolution ended: the new image is added and selected, or
    /// the error is shown.
    pub fn finish_evolution(&mut self, result: Result<ImageRecord, String>)
        ensures
            match result {
                Ok(image) => {
                    &&& final(self).session_images@ == old(self).session_images@.push(image)
                    &&& opt_view(final(self).selected_image_id) == Some(image.id@)
                    &&& *final(self) == (AppState {
                        session_images: final(self).session_images,
                        selected_image_id: final(self).selected_image_id,
                        status: GenerationStatus::Idle,
                        ..*old(self)
                    })
                },
                Err(e) => *final(self) == (AppState {
                    status: GenerationStatus::Error(e),
                    ..*old(self)
                }),
            },
    {
        match result {
            Ok(image) => {
                self.add_image(image);
                self.status = GenerationStatus::Idle;
            },
            Err(e) => {
                self.status = GenerationStatus::Error(e);
            },
        }
    }

    /// Stores the key typed by the user, trimmed; a blank entry is ignored.
    /// Returns whether a key was stored.
    pub fn submit_api_key(&mut self, input: &str) -> (r: bool)
        ensures
            r == (trimmed(input@).len() != 0),
            r ==> opt_view(final(self).fal_key) == Some(trimmed(input@)) && *final(self) == (
            AppState { fal_key: final(self).fal_key, ..*old(self) }),
            !r ==> *final(self) == *old(self),
    {
        if is_blank(input) {
            return false;
        }
        let key = trim(input);
        self.save_fal_key(key.as_str());
        true
    }
}

impl GenerationStatus {
    /// The status line shown to the user.
    pub fn status_text(&self) -> (r: String)
        ensures
            r@ == match self {
                GenerationStatus::Idle => Seq::<char>::empty(),
                GenerationStatus::Generating => "Generating..."@,
                GenerationStatus::Error(e) => "Error: "@ + e@,
            },
    {
        match self {
            GenerationStatus::Idle => String::new(),
            GenerationStatus::Generating => String::from_str("Generating..."),
            GenerationStatus::Error(e) => crate::strings::concat2("Error: ", e.as_str()),
        }
    }
}

} // verus!
