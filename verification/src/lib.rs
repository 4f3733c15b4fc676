//! Terminal presentation and input layer for an interactive screen editor.
//!
//! The crate turns a grid of styled character cells into terminal control
//! bytes, turns a raw input byte stream into structured key events (telling a
//! lone escape keypress apart from the first byte of an escape sequence),
//! projects a stream of highlight events onto per-line styled text runs, and
//! fixes the order in which a single-threaded event loop serves its sources.
//! The text buffer, the highlighter engine, the command tables and the screen
//! compositor are outside collaborators: they are consumed only as plain
//! values through the types defined here.

pub mod style;
pub mod encode;
pub mod backend;
pub mod decode;
pub mod escape;
pub mod highlight;
pub mod event_loop;
pub mod motion;
pub mod server;
