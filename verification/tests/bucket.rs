use dupdup::bucket::Bucketer;
use dupdup::digest::ContentDigest;
use dupdup::tree::{FileState, MemoryTree};

fn digest(value: u128) -> ContentDigest {
    ContentDigest { value }
}

#[test]
fn insert_reports_a_collision_from_the_second_member_on() {
    let mut buckets = Bucketer::new();
    assert!(!buckets.insert(digest(7), "a".to_string()));
    assert!(!buckets.insert(digest(8), "b".to_string()));
    assert!(buckets.insert(digest(7), "c".to_string()));
    assert!(buckets.insert(digest(7), "d".to_string()));
    assert_eq!(buckets.group_count(), 2);
}

#[test]
fn members_keep_the_order_of_discovery() {
    let mut buckets = Bucketer::new();
    for (value, path) in [(2u128, "x"), (1, "y"), (2, "z"), (1, "w"), (2, "v")] {
        buckets.insert(digest(value), path.to_string());
    }
    let first = buckets.group(digest(2)).unwrap();
    assert_eq!(first.paths, vec!["x".to_string(), "z".to_string(), "v".to_string()]);
    let second = buckets.group(digest(1)).unwrap();
    assert_eq!(second.paths, vec!["y".to_string(), "w".to_string()]);
    assert!(buckets.group(digest(3)).is_none());
}

#[test]
fn groups_with_multiple_members_leave_singletons_out() {
    let mut buckets = Bucketer::new();
    assert!(buckets.groups_with_multiple_members().is_empty());
    buckets.insert(digest(1), "only".to_string());
    buckets.insert(digest(2), "p".to_string());
    buckets.insert(digest(3), "lonely".to_string());
    buckets.insert(digest(2), "q".to_string());
    let groups = buckets.groups_with_multiple_members();
    assert_eq!(groups.len(), 1);
    assert_eq!(groups[0].digest, digest(2));
    assert_eq!(groups[0].paths, vec!["p".to_string(), "q".to_string()]);
}

#[test]
fn tree_keeps_one_state_for_each_path() {
    let mut tree = MemoryTree::new();
    assert_eq!(tree.len(), 0);
    tree.insert("a".to_string(), FileState::Readable(vec![1]));
    tree.insert("b".to_string(), FileState::Unreadable("locked".to_string()));
    tree.insert("a".to_string(), FileState::Readable(vec![2, 3]));
    assert_eq!(tree.len(), 2);
    assert_eq!(tree.paths(), vec!["a".to_string(), "b".to_string()]);
    match tree.lookup("a") {
        Some(FileState::Readable(content)) => assert_eq!(content, &vec![2, 3]),
        _ => panic!("a is readable"),
    }
    match tree.lookup("b") {
        Some(FileState::Unreadable(reason)) => assert_eq!(reason, "locked"),
        _ => panic!("b is unreadable"),
    }
    assert!(tree.lookup("c").is_none());
}
