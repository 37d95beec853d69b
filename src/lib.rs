//! A small substring search over the lines of a text.

mod config;
mod laws;
mod search;
mod text;

pub use config::{has_option, Config};
pub use laws::{
    lemma_case_insensitive, lemma_empty_query, lemma_invert_complements, lemma_select_idempotent,
};
pub use search::{
    contains_query, filter, keeps, Mode, line_matches, lower_of, search, search_case_insensitive,
    search_without_query, search_without_query_insensitive, select, selected,
};
pub use text::{contains, line_end, lines, split_lines, strip_cr, views};
