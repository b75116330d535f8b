//! Verified building blocks for a family of small command-line tools in
//! the manner of the Unix classics.
//!
//! Each module holds what one tool decides and computes, on plain values:
//! the reading of its arguments and the text it prints. Opening files,
//! reading them and writing to the terminal is left to the caller.
//!
//! The heart of the crate is [`tail`]: parsing a count such as `-3`, `+3`
//! or `+0`, counting the lines and bytes of a file, resolving the count
//! against the totals and selecting the part of the file to print.

pub mod cal;
pub mod cat;
pub mod comm;
pub mod cut;
pub mod cut_ranges;
pub mod find;
pub mod fortune;
pub mod head;
pub mod ls;
pub mod paste;
pub mod pattern;
pub mod perm;
pub mod record;
pub mod tail;
pub mod tail_signed;
pub mod text;
pub mod uniq;
pub mod wc;
