//! Verified core of a logo-design desktop application: the text-editing
//! model behind its input fields, the session/image/log state, and the
//! decisions taken around requests to the image-generation service.
pub mod text_spec;
pub mod strings;
pub mod graphemes;
pub mod text_input;
pub mod text_laws;
pub mod state;
pub mod generation;
pub mod workflow;
pub mod views;
pub mod state_laws;
