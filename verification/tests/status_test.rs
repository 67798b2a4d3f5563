use mahgit::status::{sorted_paths, FileEntry, FileStatus, RepositoryStatus, StatusEntry, StatusFlags};

#[test]
fn test_repository_status_is_clean() {
    let status = RepositoryStatus {
        branch_name: "main".to_string(),
        staged: vec![],
        unstaged: vec![],
        untracked: vec![],
        conflicted: vec![],
    };
    assert!(status.is_clean());
}

#[test]
fn test_repository_status_is_not_clean_with_staged() {
    let status = RepositoryStatus {
        branch_name: "main".to_string(),
        staged: vec![FileEntry::new("file.txt".to_string(), FileStatus::Modified)],
        unstaged: vec![],
        untracked: vec![],
        conflicted: vec![],
    };
    assert!(!status.is_clean());
}

#[test]
fn test_repository_status_is_not_clean_with_unstaged() {
    let status = RepositoryStatus {
        branch_name: "main".to_string(),
        staged: vec![],
        unstaged: vec![FileEntry::new("file.txt".to_string(), FileStatus::Modified)],
        untracked: vec![],
        conflicted: vec![],
    };
    assert!(!status.is_clean());
}

#[test]
fn test_repository_status_is_not_clean_with_untracked() {
    let status = RepositoryStatus {
        branch_name: "main".to_string(),
        staged: vec![],
        unstaged: vec![],
        untracked: vec!["file.txt".to_string()],
        conflicted: vec![],
    };
    assert!(!status.is_clean());
}

#[test]
fn test_repository_status_is_not_clean_with_conflicted() {
    let status = RepositoryStatus {
        branch_name: "main".to_string(),
        staged: vec![],
        unstaged: vec![],
        untracked: vec![],
        conflicted: vec!["file.txt".to_string()],
    };
    assert!(!status.is_clean());
}

#[test]
fn test_file_entry_creation() {
    let entry = FileEntry::new("test.txt".to_string(), FileStatus::Added);
    assert_eq!(entry.path, "test.txt");
    assert_eq!(entry.status, FileStatus::Added);
}

#[test]
fn test_file_status_types() {
    let added = FileEntry::new("added.txt".to_string(), FileStatus::Added);
    let modified = FileEntry::new("modified.txt".to_string(), FileStatus::Modified);
    let deleted = FileEntry::new("deleted.txt".to_string(), FileStatus::Deleted);
    let renamed = FileEntry::new("renamed.txt".to_string(), FileStatus::Renamed);
    let typechange = FileEntry::new("typechange.txt".to_string(), FileStatus::Typechange);

    assert_eq!(added.status, FileStatus::Added);
    assert_eq!(modified.status, FileStatus::Modified);
    assert_eq!(deleted.status, FileStatus::Deleted);
    assert_eq!(renamed.status, FileStatus::Renamed);
    assert_eq!(typechange.status, FileStatus::Typechange);
}

#[test]
fn test_file_status_display_formats() {
    assert_eq!(FileStatus::Added.to_display_string(), "added");
    assert_eq!(FileStatus::Modified.to_display_string(), "modified");
    assert_eq!(FileStatus::Deleted.to_display_string(), "deleted");
    assert_eq!(FileStatus::Renamed.to_display_string(), "renamed");
    assert_eq!(FileStatus::Typechange.to_display_string(), "typechange");
}

#[test]
fn renamed_entry_keeps_both_paths() {
    let entry = FileEntry::new_renamed("old.txt".to_string(), "new.txt".to_string());
    assert_eq!(entry.path, "new.txt");
    assert_eq!(entry.old_path, Some("old.txt".to_string()));
    assert_eq!(entry.status, FileStatus::Renamed);
}

#[test]
fn empty_status_is_clean_on_main() {
    let status = RepositoryStatus::empty();
    assert_eq!(status.branch_name, "main");
    assert!(status.is_clean());
    let default_status = RepositoryStatus::default();
    assert_eq!(default_status.branch_name, "");
    assert!(default_status.is_clean());
}

fn no_flags() -> StatusFlags {
    StatusFlags {
        conflicted: false,
        wt_new: false,
        wt_modified: false,
        wt_deleted: false,
        wt_renamed: false,
        wt_typechange: false,
        index_new: false,
        index_modified: false,
        index_deleted: false,
        index_renamed: false,
        index_typechange: false,
    }
}

fn status_entry(path: &str, flags: StatusFlags) -> StatusEntry {
    StatusEntry { path: path.to_string(), flags, head_to_index: None, index_to_workdir: None }
}

#[test]
fn from_entries_sorts_report_into_sections() {
    let mut both = no_flags();
    both.index_modified = true;
    both.wt_deleted = true;
    let mut conflict = no_flags();
    conflict.conflicted = true;
    conflict.index_modified = true;
    let mut untracked = no_flags();
    untracked.wt_new = true;
    let mut renamed = no_flags();
    renamed.index_renamed = true;
    let mut renamed_entry = status_entry("new.rs", renamed);
    renamed_entry.head_to_index = Some(("old.rs".to_string(), "new.rs".to_string()));
    let mut added = no_flags();
    added.index_new = true;

    let entries = vec![
        status_entry("both.txt", both),
        status_entry("conflict.txt", conflict),
        status_entry("fresh.txt", untracked),
        renamed_entry,
        status_entry("added.txt", added),
    ];
    let status = RepositoryStatus::from_entries("main".to_string(), &entries);

    assert_eq!(status.branch_name, "main");
    assert_eq!(status.conflicted, vec!["conflict.txt".to_string()]);
    assert_eq!(status.untracked, vec!["fresh.txt".to_string()]);
    assert_eq!(
        status.staged,
        vec![
            FileEntry::new("both.txt".to_string(), FileStatus::Modified),
            FileEntry::new_renamed("old.rs".to_string(), "new.rs".to_string()),
            FileEntry::new("added.txt".to_string(), FileStatus::Added),
        ]
    );
    assert_eq!(status.unstaged, vec![FileEntry::new("both.txt".to_string(), FileStatus::Deleted)]);
}

#[test]
fn untracked_paths_sort_as_strings_do() {
    let paths: Vec<String> = ["src/b.rs", "a", "src/a.rs", "é", "z", "a", "ab"].iter().map(|s| s.to_string()).collect();
    let mut expected = paths.clone();
    expected.sort();
    assert_eq!(sorted_paths(paths), expected);
    assert!(sorted_paths(vec![]).is_empty());
}
