//! Incremental ingestion pipeline for a monthly statistical report.
//!
//! The library detects new editions of the report from a catalog page,
//! resolves and decodes the spreadsheet attached to each edition, and
//! loads the not-yet-seen records transactionally, notifying on change.
//! All decision logic is verified; calls into the HTML and spreadsheet
//! parsing crates stand behind narrow trusted wrappers.

pub mod catalog;
pub mod cells;
pub mod decode;
pub mod derivates;
pub mod errors;
pub mod months;
pub mod numbers;
pub mod run;
pub mod schedule;
pub mod store;
pub mod text;
pub mod xlsx;
