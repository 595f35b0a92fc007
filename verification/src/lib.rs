//! Styled terminal cells grouped into text runs, an incremental scanner that
//! finds URL-like substrings in the run stream, and the integer geometry that
//! turns decorations into per-row spans.

pub mod index;
pub mod cell;
pub mod text_run;
pub mod locator;
pub mod rects;
pub mod url;
