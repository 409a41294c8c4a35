//! Core logic of a local code-review helper: it samples a codebase, pairs
//! the sample with a version-control diff, builds a review prompt, and
//! assembles the review text out of a line-delimited inference response.

pub mod diff;
pub mod prompt;
pub mod response;
pub mod settings;
pub mod snapshot;
pub mod tool;
