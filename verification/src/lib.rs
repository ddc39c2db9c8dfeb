//! Line-oriented compiler core for a Markdown-derived authoring format.
//!
//! The library turns document lines into component-based template markup: a
//! block dispatcher drives three stacks of open constructs, an inline
//! formatter rewrites emphasis, code spans and anchors, a heading processor
//! derives slugs, and a structured accumulator builds the guide model that is
//! serialized into the generated preamble.
pub mod html;
pub mod parser;
pub mod paths;
pub mod text;
pub mod utility;
