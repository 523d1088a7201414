//! A small personal card-collection manager built around a verified,
//! context-sensitive streaming JSON pretty-printer.
//!
//! The heart of the crate is [`archive_formatter::ArchiveFormatter`]: a
//! finite-state emitter that renders a two-level document (a mapping of
//! category names to lists of flat records) with the outer containers
//! expanded across indented lines and each record collapsed onto a single
//! line. Every formatting decision is made in one forward pass, and the
//! emitted text is pinned down exactly by the `render` specification.

pub mod archive;
pub mod archive_formatter;
pub mod document;
pub mod export;
pub mod input_parser;
pub mod legacy;
pub mod parse;
pub mod render;
pub mod scryfall;
pub mod serializer;
pub mod session;
pub mod text;
pub mod types;
