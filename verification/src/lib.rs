//! Converts a card-inventory listing (comma-separated rows of quantity, name,
//! edition code and foil marker) into the plain-text deck list that a deck
//! builder imports, one line per card.

pub mod convert;
pub mod format;
pub mod header;
pub mod output;
pub mod parse;
pub mod reader;
pub mod record;

pub use convert::convert;
pub use format::format_records;
pub use header::{HEADER, has_header};
pub use output::join_lines;
pub use parse::{ParseError, decode_row, parse_csv};
pub use record::MtgRecord;
