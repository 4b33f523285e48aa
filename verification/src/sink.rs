//! The rules around a run: where the report may go, what is logged when it
//! cannot be written, and what becomes of the error log.
//!
//! Looking at the file system and writing to it are the caller's part; what
//! it finds there comes in as plain values.

use vstd::prelude::*;
use vstd::string::StringExecFns;
use crate::engine::{DuplicateDetectionEngine, EngineModel, ScanConfig, ScanPhase};
use crate::error::{ErrorCause, ErrorModel, ErrorRecord};
use crate::json::{report_text, ReportError};
use crate::report::FinalReport;

verus! {

/// What ends a run before it scans anything.
#[derive(Clone, Copy, Debug, PartialEq, Eq, Structural)]
pub enum FatalError {
    /// The destination of the report exists already.
    DestinationExists,
    /// The error log could not be created.
    ErrorLogUnavailable,
}

/// What is said of a fatal error.
pub open spec fn fatal_text(error: FatalError) -> Seq<char> {
    match error {
        FatalError::DestinationExists => "Output file already exists"@,
        FatalError::ErrorLogUnavailable => "Error log file could not be created"@,
    }
}

impl FatalError {
    /// What is said of the error.
    pub fn message(&self) -> (text: String)
        ensures
            text@ == fatal_text(*self),
    {
        match self {
            FatalError::DestinationExists => String::from_str("Output file already exists"),
            FatalError::ErrorLogUnavailable => String::from_str(
                "Error log file could not be created",
            ),
        }
    }
}

/// What becomes of the error log at the end of a run.
#[derive(Clone, Copy, Debug, PartialEq, Eq, Structural)]
pub enum LogDisposition {
    /// No error was recorded: the log is removed.
    Remove,
    /// Errors were recorded: the log stays, and the closing line names it.
    Keep,
}

/// The last line of a run.
pub open spec fn closing_text(had_errors: bool, error_log: Seq<char>) -> Seq<char> {
    if had_errors {
        "Duplication search completed, with reported errors, see "@ + error_log + "."@
    } else {
        "Duplication search completed without errors."@
    }
}

/// The error log is kept exactly where errors were recorded.
pub fn log_disposition(had_errors: bool) -> (disposition: LogDisposition)
    ensures
        disposition == if had_errors {
            LogDisposition::Keep
        } else {
            LogDisposition::Remove
        },
{
    if had_errors {
        LogDisposition::Keep
    } else {
        LogDisposition::Remove
    }
}

/// The last line of a run.
pub fn closing_line(had_errors: bool, error_log: &str) -> (line: String)
    ensures
        line@ == closing_text(had_errors, error_log@),
{
    if had_errors {
        let mut line = String::from_str("Duplication search completed, with reported errors, see ");
        line.append(error_log);
        line.append(".");
        line
    } else {
        String::from_str("Duplication search completed without errors.")
    }
}

/// The place that a report goes to. A sink exists only for a destination
/// that did not exist when the run began.
pub struct ReportSink {
    destination: String,
}

impl ReportSink {
    /// The path that the report goes to.
    pub closed spec fn place(&self) -> Seq<char> {
        self.destination@
    }

    /// The record that is logged when the report cannot be written.
    pub open spec fn failure(&self, detail: Seq<char>) -> ErrorModel {
        ErrorModel { path: self.place(), cause: ErrorCause::ReportFailure, detail }
    }

    /// Opens a sink for `destination`. An existing destination is refused:
    /// no report is ever written over another.
    pub fn open(destination: &str, already_exists: bool) -> (opened: Result<ReportSink, FatalError>)
        ensures
            match opened {
                Ok(sink) => !already_exists && sink.place() == destination@,
                Err(error) => already_exists && error == FatalError::DestinationExists,
            },
    {
        if already_exists {
            Err(FatalError::DestinationExists)
        } else {
            Ok(ReportSink { destination: String::from_str(destination) })
        }
    }

    /// The path that the report goes to.
    pub fn destination(&self) -> (path: &String)
        ensures
            path@ == self.place(),
    {
        &self.destination
    }

    /// Begins the scan that will fill this sink, once the error log stands.
    /// Without an error log the run ends here.
    pub fn begin_scan(&self, error_log_created: bool, config: ScanConfig) -> (begun: Result<
        DuplicateDetectionEngine,
        FatalError,
    >)
        requires
            config.wf(),
        ensures
            match begun {
                Ok(engine) => error_log_created && engine.wf() && engine@ == (EngineModel {
                    config,
                    phase: ScanPhase::Prefilter,
                    prefilter: Seq::empty(),
                    confirmed: Seq::empty(),
                    errors: Seq::empty(),
                    wasted: 0,
                    processed: 0,
                }),
                Err(error) => !error_log_created && error == FatalError::ErrorLogUnavailable,
            },
    {
        if error_log_created {
            Ok(DuplicateDetectionEngine::new(config))
        } else {
            Err(FatalError::ErrorLogUnavailable)
        }
    }

    /// The record that is logged when the report cannot be written.
    pub fn write_failure(&self, detail: &str) -> (record: ErrorRecord)
        ensures
            record@ == self.failure(detail@),
    {
        ErrorRecord::new(self.destination.as_str(), ErrorCause::ReportFailure, detail)
    }

    /// The text to write to the destination, or the record to log where the
    /// report cannot be turned into text.
    pub fn render(&self, report: &FinalReport) -> (rendered: Result<String, ErrorRecord>)
        ensures
            match rendered {
                Ok(text) => report_text(report@) == Some(text@),
                Err(record) => report_text(report@) is None && record@ == self.failure(
                    "serialization failed"@,
                ),
            },
    {
        match report.to_json() {
            Ok(text) => Ok(text),
            Err(ReportError::Serialization) => Err(self.write_failure("serialization failed")),
        }
    }
}

} // verus!
