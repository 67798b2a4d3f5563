use mahgit::log::{CommitTime, LogData, LogEntry};
use mahgit::repository::CommitChangeType;

fn entry() -> LogEntry {
    LogEntry {
        oid: git2::Oid::zero(),
        short_hash: "0000000".to_string(),
        summary: "commit".to_string(),
        message: "commit".to_string(),
        author_name: "Alice".to_string(),
        author_email: "alice@example.com".to_string(),
        time: CommitTime::new(1000, 0),
        committer_name: "Alice".to_string(),
        committer_email: "alice@example.com".to_string(),
        committer_time: CommitTime::new(1000, 0),
    }
}

#[test]
fn has_distinct_committer_false_when_identical() {
    assert!(!entry().has_distinct_committer());
}

#[test]
fn has_distinct_committer_true_when_name_differs() {
    let mut e = entry();
    e.committer_name = "Bob".to_string();
    assert!(e.has_distinct_committer());
}

#[test]
fn has_distinct_committer_true_when_email_differs() {
    let mut e = entry();
    e.committer_email = "bob@example.com".to_string();
    assert!(e.has_distinct_committer());
}

#[test]
fn has_distinct_committer_true_when_time_differs() {
    let mut e = entry();
    e.committer_time = CommitTime::new(2000, 0);
    assert!(e.has_distinct_committer());
}

#[test]
fn commit_time_sign_follows_offset() {
    assert_eq!(CommitTime::new(5, -60).sign, '-');
    assert_eq!(CommitTime::new(5, 0).sign, '+');
    assert_ne!(CommitTime::new(5, 60), CommitTime::new(5, 0));
}

#[test]
fn new_log_data_is_empty_and_expects_more() {
    let data = LogData::new("main".to_string());
    assert!(data.entries.is_empty());
    assert!(data.has_more);
    assert_eq!(data.total_loaded, 0);
    assert_eq!(data.branch_name, "main");
}

#[test]
fn change_types_are_shown_as_letters() {
    assert_eq!(CommitChangeType::Added.to_display_string(), "A");
    assert_eq!(CommitChangeType::Deleted.to_display_string(), "D");
    assert_eq!(CommitChangeType::Modified.to_display_string(), "M");
    assert_eq!(CommitChangeType::Renamed.to_display_string(), "R");
    assert_eq!(CommitChangeType::Other.to_display_string(), "?");
}
