//! A terminal GPU status library: parses the CSV-like output of an external
//! telemetry provider into GPU and process records, joins the two record
//! lists by device uuid, and renders fixed-width ASCII status tables.
//!
//! All parsing, joining and formatting logic is verified; invoking the
//! external telemetry and process-lookup commands is left to the binary
//! that links this library.

pub mod digits;
pub mod layout;
pub mod records;
pub mod render;
pub mod text;
