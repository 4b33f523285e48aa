use dupdup::engine::{DuplicateDetectionEngine, ScanConfig, ScanPhase};
use dupdup::error::ErrorCause;
use dupdup::hasher::{hash_bytes, HashMode};
use dupdup::scan::{find_duplicates, process_file, run_pass};
use dupdup::tree::{FileState, MemoryTree};

fn md5_hex(data: &[u8]) -> String {
    format!("{:x}", md5::compute(data))
}

fn tree_of(files: &[(&str, Vec<u8>)]) -> MemoryTree {
    let mut tree = MemoryTree::new();
    for (path, content) in files {
        tree.insert(path.to_string(), FileState::Readable(content.clone()));
    }
    tree
}

#[test]
fn two_identical_files_and_one_that_differs_in_its_last_byte() {
    let a: Vec<u8> = (0..200u32).map(|i| (i % 251) as u8).collect();
    let b = a.clone();
    let mut c = a.clone();
    c[199] ^= 0xff;
    let tree = tree_of(&[("A", a.clone()), ("B", b), ("C", c)]);
    let outcome = find_duplicates(&tree.paths(), &tree, ScanConfig::standard());
    let groups = outcome.report.groups();
    assert_eq!(groups.len(), 1);
    assert_eq!(groups[0].digest.to_hex(), md5_hex(&a));
    assert_eq!(groups[0].paths, vec!["A".to_string(), "B".to_string()]);
    assert!(!outcome.had_errors());
    assert_eq!(outcome.wasted, 200);
}

#[test]
fn large_files_that_agree_on_the_window_only_are_not_reported() {
    let first: Vec<u8> = (0..1_000_000u32).map(|i| (i % 253) as u8).collect();
    let mut second = first.clone();
    second[5000] ^= 1;
    let tree = tree_of(&[("one", first), ("two", second)]);
    let mut engine = DuplicateDetectionEngine::new(ScanConfig::standard());
    run_pass(&mut engine, &tree.paths(), &tree);
    assert_eq!(engine.wasted(), 4096);
    let survivors = engine.begin_confirmation();
    assert_eq!(survivors, vec!["one".to_string(), "two".to_string()]);
    assert_eq!(engine.phase(), ScanPhase::Confirmation);
    assert_eq!(engine.wasted(), 0);
    run_pass(&mut engine, &survivors, &tree);
    let outcome = engine.finish();
    assert!(outcome.report.is_empty());
    assert_eq!(outcome.report.group_count(), 0);
    assert_eq!(outcome.wasted, 0);
    assert!(!outcome.had_errors());
}

#[test]
fn empty_tree_gives_an_empty_report_and_no_errors() {
    let tree = MemoryTree::new();
    let outcome = find_duplicates(&tree.paths(), &tree, ScanConfig::standard());
    assert!(outcome.report.is_empty());
    assert!(outcome.errors.is_empty());
    assert!(!outcome.had_errors());
    assert_eq!(outcome.wasted, 0);
}

#[test]
fn files_shorter_than_the_budget_have_equal_partial_and_full_digests() {
    let data: Vec<u8> = (0..4095u32).map(|i| (i % 7) as u8).collect();
    let partial = hash_bytes(&data, HashMode::Partial(4096), 4096);
    let full = hash_bytes(&data, HashMode::Full, 16384);
    assert_eq!(partial.digest, full.digest);
    assert_eq!(partial.bytes_read, 4095);
    assert_eq!(full.bytes_read, 4095);
    assert_eq!(full.digest.to_hex(), md5_hex(&data));
}

#[test]
fn groups_do_not_depend_on_the_order_of_enumeration() {
    let tree = tree_of(&[
        ("a", b"same".to_vec()),
        ("b", b"other".to_vec()),
        ("c", b"same".to_vec()),
        ("d", b"other".to_vec()),
        ("e", b"alone".to_vec()),
    ]);
    let forward: Vec<String> = tree.paths();
    let mut backward = forward.clone();
    backward.reverse();
    let one = find_duplicates(&forward, &tree, ScanConfig::standard());
    let two = find_duplicates(&backward, &tree, ScanConfig::standard());
    let as_sets = |outcome: &dupdup::engine::ScanOutcome| {
        let mut sets: Vec<(String, Vec<String>)> = outcome
            .report
            .groups()
            .iter()
            .map(|group| {
                let mut paths = group.paths.clone();
                paths.sort();
                (group.digest.to_hex(), paths)
            })
            .collect();
        sets.sort();
        sets
    };
    assert_eq!(as_sets(&one), as_sets(&two));
    let mut expected = vec![
        (md5_hex(b"same"), vec!["a".to_string(), "c".to_string()]),
        (md5_hex(b"other"), vec!["b".to_string(), "d".to_string()]),
    ];
    expected.sort();
    assert_eq!(as_sets(&one), expected);
    assert_eq!(one.report.groups()[0].paths, vec!["a".to_string(), "c".to_string()]);
    assert_eq!(two.report.groups()[0].paths, vec!["d".to_string(), "b".to_string()]);
}

#[test]
fn no_group_of_a_report_has_a_single_member() {
    let tree = tree_of(&[
        ("a", vec![1; 5000]),
        ("b", vec![1; 5000]),
        ("c", vec![1; 6000]),
        ("d", vec![2; 10]),
    ]);
    let outcome = find_duplicates(&tree.paths(), &tree, ScanConfig::standard());
    assert_eq!(outcome.report.group_count(), 1);
    for group in outcome.report.groups() {
        assert!(group.paths.len() >= 2);
    }
    assert_eq!(outcome.report.groups()[0].paths, vec!["a".to_string(), "b".to_string()]);
    assert_eq!(outcome.wasted, 5000);
}

#[test]
fn a_candidate_that_vanished_is_logged_once_and_left_out() {
    let mut tree = tree_of(&[("kept", b"twin".to_vec()), ("also", b"twin".to_vec())]);
    tree.insert("locked".to_string(), FileState::Unreadable("permission denied".to_string()));
    let mut candidates = tree.paths();
    candidates.insert(1, "gone".to_string());
    let outcome = find_duplicates(&candidates, &tree, ScanConfig::standard());
    assert!(outcome.had_errors());
    assert_eq!(outcome.errors.len(), 2);
    assert_eq!(outcome.errors[0].path, "gone");
    assert_eq!(outcome.errors[0].cause, ErrorCause::OpenFailure);
    assert_eq!(outcome.errors[0].log_line(), "gone could not open file");
    assert_eq!(outcome.errors[1].path, "locked");
    assert_eq!(outcome.errors[1].cause, ErrorCause::ReadFailure);
    assert_eq!(outcome.errors[1].log_line(), "locked permission denied");
    assert_eq!(outcome.report.group_count(), 1);
    for group in outcome.report.groups() {
        assert!(!group.paths.iter().any(|path| path == "gone" || path == "locked"));
    }
}

#[test]
fn process_file_reports_the_bytes_read_for_a_repeat_only() {
    let tree = tree_of(&[("x", vec![9; 300]), ("y", vec![9; 300])]);
    let mut engine = DuplicateDetectionEngine::new(ScanConfig::standard());
    assert_eq!(process_file(&mut engine, "x", &tree).unwrap(), 0);
    assert_eq!(process_file(&mut engine, "y", &tree).unwrap(), 300);
    let failed = process_file(&mut engine, "z", &tree).unwrap_err();
    assert_eq!(failed.path, "z");
    assert_eq!(failed.cause, ErrorCause::OpenFailure);
    assert_eq!(engine.processed(), 3);
    assert_eq!(engine.wasted(), 300);
    assert!(engine.had_errors());
}
