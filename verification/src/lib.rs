//! A verified core for a terminal git staging tool: parsing of `git diff`
//! output, construction of the patches and commands that stage, unstage and
//! discard changes, and the state machine behind the interactive panels.

pub mod app;
pub mod git;
pub mod laws;
pub mod load;
pub mod parse;
pub mod text;
pub mod ui;
