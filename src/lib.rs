//! Turns the lines of an assistant's log files into structured entries, sorts each
//! entry into a role of the office, and tracks how far each file has been read.
pub mod batch;
pub mod log_parser;
pub mod models;
pub mod tailer;
pub mod text;
