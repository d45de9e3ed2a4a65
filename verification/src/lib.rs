//! Converts the linearised content of a scraped exercise page into structured
//! typesetting markup: a tree visitor, a segmenter that cuts the visited text
//! into one block per exercise, a rewriting stage that rebuilds the numbered
//! structure, and a header builder.

pub mod dom;
pub mod header;
pub mod markup;
pub mod nesting;
pub mod pipeline;
pub mod rewrite;
pub mod segment;
pub mod text;
