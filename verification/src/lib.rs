//! Verified core of a media library organiser: a heuristic release-name
//! parser, a confidence scorer with an auto-match decision rule, and the
//! planning logic of a resumable, concurrency-bounded transfer engine.

pub mod matcher;
pub mod naming;
pub mod parser;
pub mod scanner;
pub mod schema;
pub mod text;
pub mod tmdb;
pub mod transfer;
