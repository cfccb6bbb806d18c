//! A terminal text editor: buffers of lines, views with undo and search,
//! panes laid out in a binary split tree, and the command mapping that
//! drives them.
pub mod editor;
pub mod prelude;
