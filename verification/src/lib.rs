//! Verified core of a spreadsheet maintenance toolkit.
//!
//! The library models workbooks as ordered sheets of typed cells and
//! verifies the three operations built on that model: checking column
//! headers against a fixed vocabulary, transcribing a workbook's typed
//! cells into the modern container format, and partitioning an oversized
//! sheet into row-bounded output workbooks.  Opening, saving and walking
//! actual spreadsheet files is left to an unverified shell that feeds the
//! core plain values and executes the write plans it returns.

pub mod cell;
pub mod check;
pub mod format;
pub mod partition;
pub mod report;
pub mod text;
pub mod vocab;
pub mod workbook;
