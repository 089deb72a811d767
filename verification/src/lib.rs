//! Turn routing between a local edge model and a remote frontier model.

pub mod compact;
pub mod compact_laws;
pub mod confidence;
pub mod config;
pub mod hybrid;
pub mod hybrid_laws;
pub mod laws;
pub mod prompt;
pub mod prompt_laws;
pub mod reply;
pub mod router;
pub mod router_laws;
pub mod text;
pub mod text_laws;
pub mod text_lemmas;
pub mod tools;
