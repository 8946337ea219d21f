//! Inference of the typesetting packages that a formula needs, composition of
//! the formula into a complete document, and the state machine of a render job.

pub mod error;
pub mod formula;
pub mod inference;
pub mod package;
pub mod registry;
pub mod render;
pub mod template;
pub mod text;
