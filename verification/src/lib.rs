//! Filtering and grouping of LaTeX/latexmk build logs: the log is joined
//! back into logical lines, scanned for file opens and closes, matched
//! against the known diagnostic shapes, and rendered grouped by file.

pub mod filter;
pub mod model;
pub mod output;
pub mod parser;
pub mod text;

pub use model::{Category, Event, LogMessage, MessageKind, PassKind};
