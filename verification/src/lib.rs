//! A small modal text editor core: a line buffer with a cursor and a scrolled
//! viewport, an ordered handler pipeline that turns input events into edits,
//! an ex-command interpreter, and a revision-keyed syntax-highlight cache.

pub mod editor;
pub mod event;
pub mod highlight;
pub mod pipeline;
pub mod plugins;
pub mod render;
pub mod text;
