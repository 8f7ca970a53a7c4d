//! The logic of a viewer for systemd journal exports.
//!
//! A journal export holds one entry on each line, and each entry names the
//! boot during which it was written. The viewer takes the entries of such a
//! file, leaves out those that the options do not ask for, formats the rest
//! and groups them by boot. Reading the file and writing to the terminal
//! are left to the program around this library. Every function here is
//! verified against its contract, but for the three calls into the calendar
//! that [`time`] holds.
//!
//! - [`opt`]: the options, read from what the command line held.
//! - [`entry`]: one journal entry, and the fallbacks among its fields.
//! - [`filter`]: which entries are shown.
//! - [`format`]: how an entry is shown; [`cursor`] decodes its sequence
//!   number, [`time`] its timestamp.
//! - [`parser`]: a parsed file, the boots in it, and the report on it.
//! - [`render`]: the lines that are written for a report.
//! - [`number`], [`text`]: reading numbers and searching texts.
//! - [`error`]: what can go wrong, and what is merely noted.

pub mod cursor;
pub mod entry;
pub mod error;
pub mod filter;
pub mod format;
pub mod number;
pub mod opt;
pub mod parser;
pub mod render;
pub mod text;
pub mod time;
