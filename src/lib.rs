//! The completion and input engine of a single-line program launcher: the
//! edited line, the paged prefix matches over the program names, the
//! selection over those pages, and the key routing between the two cursors.

pub mod candidates;
pub mod config;
pub mod keys;
pub mod launcher;
pub mod pager;
pub mod strings;
pub mod text_input;
pub mod vector;
