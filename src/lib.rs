//! Commit message generation: budgeting a staged change set into a prompt,
//! planning single-shot or summarised generation, and cleaning the generated
//! text against formatting policy.

pub mod text;
pub mod diff;
pub mod error;
pub mod config;
pub mod sanitize;
pub mod prompt;
pub mod git;
pub mod pipeline;
pub mod retry;
pub mod json;
pub mod cli;
pub mod providers;
