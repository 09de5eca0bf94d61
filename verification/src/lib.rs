//! A reader for logs in the bunyan format: one JSON object on each line. A
//! line is read as a record, filtered by its level and by a comparison on
//! one of its fields, and rendered as text for a terminal.

pub mod compare;
pub mod digits;
pub mod error;
pub mod json;
pub mod level;
pub mod lookup;
pub mod number;
pub mod paint;
pub mod process;
pub mod record;
pub mod render;
pub mod style;
pub mod text;
pub mod time;

pub use compare::{do_compare, Comparitors, CompiledComparison};
pub use error::Error;
pub use level::{NamedLogLevel, NumericalLogLevel};
pub use number::Number;
pub use process::process_line;
pub use lookup::get_field_from_extras;
pub use record::{LogRecord, LogRecordTypes, ParseError};
pub use render::{format_extras, format_level, indent};
pub use style::Format;
pub use time::Timestamp;
