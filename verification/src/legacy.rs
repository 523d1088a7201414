//! Earlier iterations of the tool that current collections may still
//! depend on: the four-space formatters and the freeform addition-line
//! parser.

pub mod archive_formatter;
pub mod human_readable_formatter;
pub mod input_parser;
