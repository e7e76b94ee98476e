//! A recursive text search: a compiled regular expression is applied line
//! by line to the text of each file, and every line with a match yields one
//! record that splits the line around its first match.

mod error;
mod file;
mod filter;
mod lines;
mod pattern;
mod scan;

pub use error::GrepError;
pub use file::FileGrep;
pub use filter::{glob_compiles, glob_matches, FileFilter, Visit};
pub use lines::{first_line_feed, split_lines, text_lines, trim_cr, CARRIAGE_RETURN, LINE_FEED};
pub use pattern::{compile, leftmost_match, regex_compiles, Pattern};
pub use scan::{
    empty_text_gives_no_records, hits, line_hit, no_match_gives_no_records, numbers_increase,
    records_rejoin, scan, scan_is_idempotent, scan_result, Hit, MatchRecord,
};
