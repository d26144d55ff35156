//! Sweeps the text files of a folder with regular expressions and reports
//! every match: as records for JSON export, and as a standalone HTML page.

pub mod globs;
pub mod laws;
pub mod paths;
pub mod patterns;
pub mod records;
pub mod report;
pub mod summary;
pub mod sweep;
pub mod template;
pub mod text;
