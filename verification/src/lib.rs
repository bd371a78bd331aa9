//! Dual-target Markdown rendering engine.
//!
//! The engine consumes a parsed Markdown document, given as a flat,
//! well-nested sequence of structural [`event::Event`]s, and renders it
//! either as a sanitized HTML fragment or as ANSI-styled plain text for a
//! terminal. Parsing the Markdown source and all I/O belong to the
//! surrounding program, not to this crate.

pub mod cli;
pub mod escape;
pub mod event;
pub mod footnote;
pub mod html;
pub mod style;
pub mod table;
pub mod term;
pub mod text;
pub mod theme;
