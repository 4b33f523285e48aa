//! File-level errors: what went wrong with one candidate, kept as a record
//! rather than ending the scan.

use vstd::prelude::*;
use vstd::string::StringExecFns;

verus! {

/// Why a candidate could not be taken into account.
#[derive(Clone, Copy, Debug, PartialEq, Eq, Structural)]
pub enum ErrorCause {
    /// The file could not be opened.
    OpenFailure,
    /// A read of the opened file failed.
    ReadFailure,
    /// The path could not be represented as a string.
    EncodeFailure,
    /// The tree walker failed on this entry.
    EnumerationFailure,
    /// The report could not be turned into text or written; the path is the
    /// destination.
    ReportFailure,
}

/// An error record as a value of the model.
pub struct ErrorModel {
    pub path: Seq<char>,
    pub cause: ErrorCause,
    pub detail: Seq<char>,
}

/// One entry of the error log: the path, the classified cause, and what the
/// underlying failure said of itself (empty where it said nothing).
#[derive(Debug)]
pub struct ErrorRecord {
    pub path: String,
    pub cause: ErrorCause,
    pub detail: String,
}

impl View for ErrorRecord {
    type V = ErrorModel;

    open spec fn view(&self) -> ErrorModel {
        ErrorModel { path: self.path@, cause: self.cause, detail: self.detail@ }
    }
}

/// The models of a run of error records.
pub open spec fn error_models(records: Seq<ErrorRecord>) -> Seq<ErrorModel> {
    Seq::new(records.len(), |i: int| records[i]@)
}

/// The line that stands in the error log for a record.
pub open spec fn log_text(record: ErrorModel) -> Seq<char> {
    match record.cause {
        ErrorCause::OpenFailure => record.path + " could not open file"@,
        ErrorCause::ReadFailure => record.path + " "@ + record.detail,
        ErrorCause::EncodeFailure => "could not convert "@ + record.path + " to string"@,
        ErrorCause::EnumerationFailure => record.detail + " enumeration error"@,
        ErrorCause::ReportFailure => "could not write json report to "@ + record.path,
    }
}

impl ErrorRecord {
    /// A record for `path` with the given cause and detail.
    pub fn new(path: &str, cause: ErrorCause, detail: &str) -> (record: ErrorRecord)
        ensures
            record@ == (ErrorModel { path: path@, cause, detail: detail@ }),
    {
        ErrorRecord { path: String::from_str(path), cause, detail: String::from_str(detail) }
    }

    /// A copy of the record.
    pub fn duplicate(&self) -> (copy: ErrorRecord)
        ensures
            copy@ == self@,
    {
        ErrorRecord { path: self.path.clone(), cause: self.cause, detail: self.detail.clone() }
    }

    /// The line that stands in the error log for this record, without a line
    /// end.
    pub fn log_line(&self) -> (line: String)
        ensures
            line@ == log_text(self@),
    {
        match self.cause {
            ErrorCause::OpenFailure => {
                let mut line = self.path.clone();
                line.append(" could not open file");
                line
            },
            ErrorCause::ReadFailure => {
                let mut line = self.path.clone();
                line.append(" ");
                line.append(self.detail.as_str());
                line
            },
            ErrorCause::EncodeFailure => {
                let mut line = String::from_str("could not convert ");
                line.append(self.path.as_str());
                line.append(" to string");
                line
            },
            ErrorCause::EnumerationFailure => {
                let mut line = self.detail.clone();
                line.append(" enumeration error");
                line
            },
            ErrorCause::ReportFailure => {
                let mut line = String::from_str("could not write json report to ");
                line.append(self.path.as_str());
                line
            },
        }
    }
}

} // verus!
