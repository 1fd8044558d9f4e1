//! A line filter: each input line is matched against a query in one of
//! several modes, and the line itself or the matched parts of it are kept.

mod matcher;
mod mode;
mod pattern;
mod text;

pub use matcher::{
    filter_lines, filter_text, lemma_complete_match, lemma_line_modes_filter, outputs,
    pick_matches, picked, search, search_result,
};
pub use mode::{mode_from_flag, mode_of_flag, MatchMode};
pub use pattern::{
    anchored, build_pattern, compiles, escaped_of, is_match_of, match_texts, pattern_for,
    PatternError, Query,
};
pub use text::{
    is_infix, is_single_line, join_lines, join_matches, lemma_split_join, split_lines,
    split_lines_of, views_of,
};
