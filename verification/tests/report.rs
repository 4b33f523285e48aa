use dupdup::bucket::Bucketer;
use dupdup::digest::ContentDigest;
use dupdup::error::{ErrorCause, ErrorRecord};
use dupdup::json::{assemble_object, QuotedGroup};
use dupdup::report::FinalReport;
use dupdup::sink::{closing_line, log_disposition, FatalError, LogDisposition, ReportSink};
use dupdup::engine::ScanConfig;

fn digest(value: u128) -> ContentDigest {
    ContentDigest { value }
}

fn sample_report() -> FinalReport {
    let mut buckets = Bucketer::new();
    buckets.insert(digest(1), "a/one".to_string());
    buckets.insert(digest(2), "b \"two\"".to_string());
    buckets.insert(digest(1), "c\\three".to_string());
    buckets.insert(digest(3), "d".to_string());
    buckets.insert(digest(3), "é\n".to_string());
    FinalReport::of(&buckets)
}

#[test]
fn report_holds_the_groups_with_two_members_in_first_seen_order() {
    let report = sample_report();
    assert_eq!(report.group_count(), 2);
    assert!(!report.is_empty());
    let groups = report.groups();
    assert_eq!(groups[0].digest, digest(1));
    assert_eq!(groups[0].paths, vec!["a/one".to_string(), "c\\three".to_string()]);
    assert_eq!(groups[1].digest, digest(3));
    assert_eq!(groups[1].paths, vec!["d".to_string(), "é\n".to_string()]);
}

#[test]
fn report_text_is_one_json_object_of_hex_digests_and_path_arrays() {
    let text = sample_report().to_json().unwrap();
    assert_eq!(
        text,
        "{\"00000000000000000000000000000001\":[\"a/one\",\"c\\\\three\"],\
         \"00000000000000000000000000000003\":[\"d\",\"é\\n\"]}"
    );
    let parsed: std::collections::BTreeMap<String, Vec<String>> =
        serde_json::from_str(&text).unwrap();
    let mut expected = std::collections::BTreeMap::new();
    expected.insert(
        "00000000000000000000000000000001".to_string(),
        vec!["a/one".to_string(), "c\\three".to_string()],
    );
    expected.insert(
        "00000000000000000000000000000003".to_string(),
        vec!["d".to_string(), "é\n".to_string()],
    );
    assert_eq!(parsed, expected);
    assert_eq!(text, serde_json::to_string(&expected).unwrap());
}

#[test]
fn empty_report_is_an_empty_json_object() {
    let report = FinalReport::of(&Bucketer::new());
    assert!(report.is_empty());
    assert_eq!(report.to_json().unwrap(), "{}");
}

#[test]
fn assemble_object_frames_keys_and_arrays() {
    let groups = vec![
        QuotedGroup { key: "\"k\"".to_string(), values: vec![] },
        QuotedGroup { key: "\"l\"".to_string(), values: vec!["\"x\"".to_string()] },
        QuotedGroup {
            key: "\"m\"".to_string(),
            values: vec!["\"y\"".to_string(), "\"z\"".to_string()],
        },
    ];
    assert_eq!(assemble_object(&groups), "{\"k\":[],\"l\":[\"x\"],\"m\":[\"y\",\"z\"]}");
    assert_eq!(assemble_object(&Vec::new()), "{}");
}

#[test]
fn sink_refuses_an_existing_destination() {
    match ReportSink::open("results.json", true) {
        Err(error) => {
            assert_eq!(error, FatalError::DestinationExists);
            assert_eq!(error.message(), "Output file already exists");
        }
        Ok(_) => panic!("an existing destination was accepted"),
    }
}

#[test]
fn sink_for_a_fresh_destination_begins_a_scan_once_the_log_stands() {
    let sink = ReportSink::open("results.json", false).unwrap();
    assert_eq!(sink.destination(), "results.json");
    match sink.begin_scan(false, ScanConfig::standard()) {
        Err(error) => {
            assert_eq!(error, FatalError::ErrorLogUnavailable);
            assert_eq!(error.message(), "Error log file could not be created");
        }
        Ok(_) => panic!("a scan began without an error log"),
    }
    let engine = sink.begin_scan(true, ScanConfig::standard()).unwrap();
    assert_eq!(engine.processed(), 0);
    assert_eq!(engine.wasted(), 0);
    assert!(!engine.had_errors());
}

#[test]
fn sink_renders_the_report_and_names_itself_in_a_write_failure() {
    let sink = ReportSink::open("out.json", false).unwrap();
    let text = sink.render(&sample_report()).unwrap();
    assert!(text.starts_with("{\"00000000000000000000000000000001\":["));
    let record = sink.write_failure("disk full");
    assert_eq!(record.path, "out.json");
    assert_eq!(record.cause, ErrorCause::ReportFailure);
    assert_eq!(record.detail, "disk full");
    assert_eq!(record.log_line(), "could not write json report to out.json");
}

#[test]
fn error_log_is_kept_exactly_when_errors_were_recorded() {
    assert_eq!(log_disposition(false), LogDisposition::Remove);
    assert_eq!(log_disposition(true), LogDisposition::Keep);
    assert_eq!(closing_line(false, "error.log"), "Duplication search completed without errors.");
    assert_eq!(
        closing_line(true, "error.log"),
        "Duplication search completed, with reported errors, see error.log."
    );
}

#[test]
fn each_cause_has_its_log_line() {
    let line = |cause, detail: &str| ErrorRecord::new("p", cause, detail).log_line();
    assert_eq!(line(ErrorCause::OpenFailure, ""), "p could not open file");
    assert_eq!(line(ErrorCause::ReadFailure, "broken pipe"), "p broken pipe");
    assert_eq!(line(ErrorCause::EncodeFailure, ""), "could not convert p to string");
    assert_eq!(line(ErrorCause::EnumerationFailure, "loop found"), "loop found enumeration error");
    assert_eq!(line(ErrorCause::ReportFailure, ""), "could not write json report to p");
}
