//! Conventional Commits linting: the commit message grammar, the validators
//! that explain why a message is rejected, and the decisions of the command
//! line tool, all with verified contracts.

pub mod text;
pub mod constants;
pub mod messages;
pub mod grammar;
pub mod validators;
pub mod utils;
pub mod cli;
pub mod config;
pub mod linter;
pub mod command;
pub mod git_helpers;
pub mod laws;
