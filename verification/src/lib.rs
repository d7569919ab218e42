//! Bulk renaming of files from properties computed about each source file.
//!
//! The library holds the typed property model, its formatting and
//! sanitising rules, the extraction of the property list of one file,
//! the table handed to the template engine, the per-file action state
//! machine and the planning of the empty-directory cleanup. Everything
//! that touches the filesystem lives with the caller.

pub mod action;
pub mod cleanup;
pub mod digest;
pub mod extract;
pub mod fields;
pub mod formatter;
pub mod mode;
pub mod paths;
pub mod pattern;
pub mod run;
pub mod table;
pub mod text;
pub mod timestamp;
pub mod value;
