//! Text as a sequence of characters: searching, splitting into fields and
//! lines, and trimming.
//!
//! The spec functions work on `Seq<char>`, the view of `str` and `String`;
//! the executable functions work on `&[char]` and hand out sub-slices of
//! their argument.

pub mod fields;
pub mod lines;
pub mod search;
pub mod trim;

pub use crate::text::fields::{fields, lemma_fields_first, second_field, split_second};
pub use crate::text::lines::{
    find_line, first_containing, is_first_containing, lemma_first_containing,
    lemma_first_containing_concat, lemma_first_containing_found, lemma_lines_concat,
    lemma_lines_hold_no_line_feed, lines, strip_cr, without_cr,
};
pub use crate::text::search::{
    chars_of, contains, index_of, lemma_index_of, lemma_index_of_unique, matches_at, occurs_at,
    occurs_in, position,
};
pub use crate::text::trim::{
    all_whitespace, is_whitespace, is_whitespace_char, lemma_trimmed, lemma_trimmed_end,
    lemma_trimmed_start, trim, trimmed, trimmed_end, trimmed_start,
};
