//! Verified core of a downloads sorter: files are filed into category
//! directories by extension, on a recurring schedule, and never under
//! a name that a file of the directory already has.
//!
//! Two names are the same name only where every character is the
//! same: `REPORT.pdf` and `report.PDF` are two names here. On a file
//! system that holds such names for one file, a name that is free by
//! this measure may still lead to a file that is there.
//!
//! - `category`: the table from extensions to categories.
//! - `filename`: stems, extensions and copy names.
//! - `unique`: the first name that nothing occupies.
//! - `pass`: one sorting pass, step by step.
//! - `config`: the settings and their checks.
//! - `sorting`: the sorter and its schedule.
//! - `laws`: what holds of all of these, proved.
//! - `text`: reading a `&str` character by character.
//!
//! The library touches no file. Its caller scans directories and moves
//! files, and tells the library what it found and how each move went.

pub mod category;
pub mod config;
pub mod filename;
pub mod laws;
pub mod pass;
pub mod sorting;
pub mod text;
pub mod unique;
