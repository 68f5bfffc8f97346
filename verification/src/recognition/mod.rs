//! Scoped face recognition: register embeddings globally or under a
//! specific event, and recognize against either.
//!
//! ```text
//! register(person, embedding, Global)        -> recognized under ANY context
//! register(person, embedding, Event("expo"))  -> recognized only under
//!                                                 RecognitionContext::Event("expo")
//! ```

pub mod laws;
pub mod registry_file;
pub mod scope;
pub mod store;
