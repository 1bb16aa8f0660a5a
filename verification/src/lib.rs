//! Ducktape.

pub mod backend;
pub mod editor;
pub mod outside;
pub mod render;
pub mod shell;
pub mod text;
