//! Renders a parsed Markdown document tree into a single styled text value
//! for display in a character-cell terminal, with syntax-highlighted fenced
//! code blocks.
//!
//! The renderer walks the tree iteratively with an explicit worklist of
//! (node, phase) entries, composes nested inline styles through an explicit
//! style stack, tracks per-level list numbering and indentation, and bridges
//! an external line tokenizer into the local style model. It degrades
//! gracefully on malformed input: a render call always completes and returns
//! a styled text for the whole tree.

pub mod style;
pub mod text;
pub mod chars;
pub mod node;
pub mod highlight;
pub mod render;
pub mod message;
