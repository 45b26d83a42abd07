//! A hidden-text editor: what is typed is kept, while a decoy buffer shows code.
pub mod clipboard;
pub mod clock;
pub mod editor;
pub mod editor_laws;
pub mod fake;
pub mod keys;
pub mod lines;
pub mod session;
pub mod text;
