//! A guest's view tree, as the host keeps it: what is mounted where, which
//! host state survives the next tree, and what a widget command reaches.

pub mod commands;
pub mod keyed;
pub mod layout;
pub mod scroll;
pub mod tree;
pub mod view;
