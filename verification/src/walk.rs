//! What to do with an entry that a tree walker hands out.
//!
//! The walker itself is the caller's; it describes each entry as a
//! [`WalkEntry`] and gets back what the scan does with it.

use vstd::prelude::*;
use crate::error::{ErrorCause, ErrorModel, ErrorRecord};

verus! {

/// One entry of a walk, as far as the scan looks at it.
#[derive(Debug)]
pub enum WalkEntry {
    /// The walker failed on an entry; `detail` is what it said of the failure.
    Failed { detail: String },
    /// A directory.
    Directory,
    /// Anything else. `path` is the path as a string, if it can be written as
    /// one; `shown` is the path as it can be shown to a reader in any case.
    File { path: Option<String>, shown: String },
}

/// What the scan does with an entry.
#[derive(Debug)]
pub enum EntryPlan {
    /// Nothing: the entry is no candidate.
    Skip,
    /// The path is a candidate: hash it.
    Hash { path: String },
    /// The entry cannot be a candidate: log the record and go on.
    Log { record: ErrorRecord },
}

/// What the scan does with an entry, as values of the model.
pub enum PlanModel {
    Skip,
    Hash { path: Seq<char> },
    Log { record: ErrorModel },
}

impl View for EntryPlan {
    type V = PlanModel;

    open spec fn view(&self) -> PlanModel {
        match self {
            EntryPlan::Skip => PlanModel::Skip,
            EntryPlan::Hash { path } => PlanModel::Hash { path: path@ },
            EntryPlan::Log { record } => PlanModel::Log { record: record@ },
        }
    }
}

/// Directories are passed over, a file with a path that can be written as a
/// string is a candidate, and everything else is logged: a failure of the
/// walker with what it said, a path that cannot be written as a string with
/// the form in which it can be shown.
pub open spec fn planned(entry: WalkEntry) -> PlanModel {
    match entry {
        WalkEntry::Failed { detail } => PlanModel::Log {
            record: ErrorModel {
                path: Seq::empty(),
                cause: ErrorCause::EnumerationFailure,
                detail: detail@,
            },
        },
        WalkEntry::Directory => PlanModel::Skip,
        WalkEntry::File { path: Some(path), .. } => PlanModel::Hash { path: path@ },
        WalkEntry::File { path: None, shown } => PlanModel::Log {
            record: ErrorModel {
                path: shown@,
                cause: ErrorCause::EncodeFailure,
                detail: Seq::empty(),
            },
        },
    }
}

/// Decides what the scan does with an entry. No entry ends the scan.
pub fn plan_entry(entry: WalkEntry) -> (plan: EntryPlan)
    ensures
        plan@ == planned(entry),
{
    match entry {
        WalkEntry::Failed { detail } => EntryPlan::Log {
            record: ErrorRecord {
                path: String::new(),
                cause: ErrorCause::EnumerationFailure,
                detail,
            },
        },
        WalkEntry::Directory => EntryPlan::Skip,
        WalkEntry::File { path: Some(path), .. } => EntryPlan::Hash { path },
        WalkEntry::File { path: None, shown } => EntryPlan::Log {
            record: ErrorRecord {
                path: shown,
                cause: ErrorCause::EncodeFailure,
                detail: String::new(),
            },
        },
    }
}

} // verus!
