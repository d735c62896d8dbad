//! Renders ASCII-art diagrams found in documentation text as inline SVG images.
//!
//! Documentation text arrives in fragments. [`scanner::TextProcState`] finds the
//! fenced blocks tagged `svgbob`, collects their contents across fragments and
//! puts in their place a Markdown image whose `data:` URI holds the rendered
//! diagram. Everything else passes through untouched.

pub mod embed;
pub mod example;
pub mod fence;
pub mod scanner;
pub mod text;
pub mod theorems;
pub mod svg_text;
pub mod width;
