//! Decision and text logic of the `asciii` command line front end: how the
//! sub-commands read their arguments, how projects are ordered for listing,
//! how numbers and paths are rendered, and what the error types report.

pub mod text;
pub mod decimal;
pub mod ordering;
pub mod paths;
pub mod errors;
pub mod listing;
pub mod clock;
pub mod commands;
pub mod reports;
pub mod laws;
