//! The plain multi-line editor.

pub mod indent;
pub mod text;
