use dupdup::engine::{DuplicateDetectionEngine, ScanConfig};
use dupdup::error::{ErrorCause, ErrorRecord};
use dupdup::walk::{plan_entry, EntryPlan, WalkEntry};

#[test]
fn directories_are_passed_over() {
    assert!(matches!(plan_entry(WalkEntry::Directory), EntryPlan::Skip));
}

#[test]
fn a_file_with_a_string_path_is_a_candidate() {
    let entry = WalkEntry::File { path: Some("dir/a".to_string()), shown: "dir/a".to_string() };
    match plan_entry(entry) {
        EntryPlan::Hash { path } => assert_eq!(path, "dir/a"),
        other => panic!("unexpected plan {:?}", other),
    }
}

#[test]
fn a_path_that_is_no_string_is_logged_as_shown() {
    let entry = WalkEntry::File { path: None, shown: "dir/\u{fffd}".to_string() };
    match plan_entry(entry) {
        EntryPlan::Log { record } => {
            assert_eq!(record.path, "dir/\u{fffd}");
            assert_eq!(record.cause, ErrorCause::EncodeFailure);
            assert_eq!(record.detail, "");
            assert_eq!(record.log_line(), "could not convert dir/\u{fffd} to string");
        }
        other => panic!("unexpected plan {:?}", other),
    }
}

#[test]
fn a_failure_of_the_walker_is_logged_with_what_it_said() {
    match plan_entry(WalkEntry::Failed { detail: "loop found".to_string() }) {
        EntryPlan::Log { record } => {
            assert_eq!(record.path, "");
            assert_eq!(record.cause, ErrorCause::EnumerationFailure);
            assert_eq!(record.log_line(), "loop found enumeration error");
        }
        other => panic!("unexpected plan {:?}", other),
    }
}

#[test]
fn only_paths_that_were_to_be_hashed_count_as_processed() {
    let mut engine = DuplicateDetectionEngine::new(ScanConfig::standard());
    engine.record_failure(ErrorRecord::new("", ErrorCause::EnumerationFailure, "x"));
    engine.record_failure(ErrorRecord::new("p", ErrorCause::EncodeFailure, ""));
    assert_eq!(engine.processed(), 0);
    engine.record_failure(ErrorRecord::new("q", ErrorCause::OpenFailure, ""));
    engine.record_failure(ErrorRecord::new("r", ErrorCause::ReadFailure, "y"));
    assert_eq!(engine.processed(), 2);
    assert!(engine.had_errors());
    assert_eq!(engine.finish().errors.len(), 4);
}
