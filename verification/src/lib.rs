//! An interactive, filterable terminal picker: the menu state engine.
//!
//! The crate holds the data model of a menu, the filter that narrows it, the
//! selection and scroll arithmetic, the composition of a frame to draw, and the
//! key-by-key state machine of a picking session. The contracts are proved by
//! Verus; the few calls into `tui_input` and into the standard library's case
//! folding are trusted and stated in `buffer` and `text`. Terminal handling,
//! process spawning and decoding of structured documents live with the caller.

pub mod app;
pub mod buffer;
pub mod config;
pub mod filter;
pub mod menu;
pub mod source;
pub mod text;
pub mod types;
pub mod ui;
