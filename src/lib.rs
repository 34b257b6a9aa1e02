//! Utilities for small command-line text filters: splitting a line into
//! fields, picking one of them, and painting text with ANSI colors.
pub mod colors;
pub mod pipeline;
pub mod split;

pub use pipeline::{_read_stdin, clean_line, colorize, match_color, render_line, run, Cli, RunError};
pub use split::{get_field, split_by_delimiter};
