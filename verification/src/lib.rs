//! Core logic of a side-by-side diff and merge tool: file contents and their
//! line endings, the key-input state machine, and the layout arithmetic of
//! the two-pane view.

pub mod io;
pub mod viewport;
pub mod model;
pub mod app;
pub mod input;
pub mod input_laws;
pub mod layout;
pub mod text;
pub mod overlay;
pub mod view;
pub mod cells;
pub mod view_laws;
pub mod session;
