//! The error kinds the toolkit reports, and the running batch counters.
//!
//! Failures are per-file and non-fatal to a batch: the shell records the
//! outcome here and goes on with the next file.

use vstd::prelude::*;
use vstd::string::StringExecFns;

verus! {

/// Why one file's operation failed.
#[derive(PartialEq, Eq, Debug)]
pub enum ToolError {
    /// The source workbook cannot be opened or parsed; holds a
    /// description of the cause.
    Read(String),
    /// The destination cannot be created or written — an invalid or
    /// duplicate sheet name included; holds a description of the cause.
    Write(String),
    /// The file's extension names no recognized spreadsheet format;
    /// holds the extension.
    UnsupportedFormat(String),
    /// A split was requested of a sheet with zero data rows.
    EmptyData,
    /// The manifest of problem files is malformed; holds a description.
    Manifest(String),
}

/// The one-line description of an error, with its cause appended.
pub open spec fn spec_error_message(e: ToolError) -> Seq<char> {
    match e {
        ToolError::Read(d) => "read error: "@ + d@,
        ToolError::Write(d) => "write error: "@ + d@,
        ToolError::UnsupportedFormat(ext) => "unsupported file format: "@ + ext@,
        ToolError::EmptyData => "no data rows to split"@,
        ToolError::Manifest(d) => "manifest error: "@ + d@,
    }
}

impl ToolError {
    /// Renders the error as one line of text for reporting.
    pub fn message(&self) -> (r: String)
        ensures
            r@ == spec_error_message(*self),
    {
        match self {
            ToolError::Read(d) => {
                let mut s = "read error: ".to_owned();
                s.append(d.as_str());
                s
            },
            ToolError::Write(d) => {
                let mut s = "write error: ".to_owned();
                s.append(d.as_str());
                s
            },
            ToolError::UnsupportedFormat(ext) => {
                let mut s = "unsupported file format: ".to_owned();
                s.append(ext.as_str());
                s
            },
            ToolError::EmptyData => "no data rows to split".to_owned(),
            ToolError::Manifest(d) => {
                let mut s = "manifest error: ".to_owned();
                s.append(d.as_str());
                s
            },
        }
    }
}

/// Success and failure counts of one batch operation.
#[derive(Clone, Copy, PartialEq, Eq, Debug)]
pub struct BatchStats {
    /// Files processed successfully.
    pub succeeded: u64,
    /// Files that failed; the batch goes on regardless.
    pub failed: u64,
}

impl BatchStats {
    /// Fresh counters.
    pub fn new() -> (r: BatchStats)
        ensures
            r.succeeded == 0,
            r.failed == 0,
    {
        BatchStats { succeeded: 0, failed: 0 }
    }

    /// Counts one success.
    pub fn record_success(&mut self)
        requires
            old(self).succeeded < u64::MAX,
        ensures
            final(self).succeeded == old(self).succeeded + 1,
            final(self).failed == old(self).failed,
    {
        self.succeeded = self.succeeded + 1;
    }

    /// Counts one failure.
    pub fn record_failure(&mut self)
        requires
            old(self).failed < u64::MAX,
        ensures
            final(self).failed == old(self).failed + 1,
            final(self).succeeded == old(self).succeeded,
    {
        self.failed = self.failed + 1;
    }
}

/// Running totals of a splitting batch: source files split, partition
/// files produced, and failures.
#[derive(Clone, Copy, PartialEq, Eq, Debug)]
pub struct SplitStats {
    /// Source files split successfully.
    pub sources_split: u64,
    /// Partition files produced over all sources.
    pub files_produced: u64,
    /// Source files whose split failed.
    pub failed: u64,
}

impl SplitStats {
    /// Fresh counters.
    pub fn new() -> (r: SplitStats)
        ensures
            r.sources_split == 0,
            r.files_produced == 0,
            r.failed == 0,
    {
        SplitStats { sources_split: 0, files_produced: 0, failed: 0 }
    }

    /// Counts one source split into `count` partition files.
    pub fn record_split(&mut self, count: u64)
        requires
            old(self).sources_split < u64::MAX,
            old(self).files_produced + count <= u64::MAX,
        ensures
            final(self).sources_split == old(self).sources_split + 1,
            final(self).files_produced == old(self).files_produced + count,
            final(self).failed == old(self).failed,
    {
        self.sources_split = self.sources_split + 1;
        self.files_produced = self.files_produced + count;
    }

    /// Counts one failed split.
    pub fn record_failure(&mut self)
        requires
            old(self).failed < u64::MAX,
        ensures
            final(self).failed == old(self).failed + 1,
            final(self).sources_split == old(self).sources_split,
            final(self).files_produced == old(self).files_produced,
    {
        self.failed = self.failed + 1;
    }
}

} // verus!
