//! A small text-processing library: Unicode scalar-value counting, CSV
//! splitting with a visitor, argument parsing, and merging of named files
//! into one owned buffer whose ownership is handed over explicitly.

pub mod args;
pub mod bridge;
pub mod csv;
pub mod file;
pub mod text;
