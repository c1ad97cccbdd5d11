//! A single-pass terminal formatter for a small markup dialect: ATX
//! headings introduced by `#`, emphasis by runs of `*`, and blockquotes
//! by `>`. A state machine classifies each character of the input into
//! the set of currently active styles, and a renderer turns each
//! character into a literal output fragment, suppressed or wrapped in
//! terminal style codes.

pub mod mode;
pub mod render;
mod style;
