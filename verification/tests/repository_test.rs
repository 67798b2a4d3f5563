use mahgit::repository::{index_entries_under, plan_index_update, untracked_missing_error, IndexUpdate, RepositoryError};

#[test]
fn test_repository_error_display() {
    assert_eq!(RepositoryError::NotFound.to_display_string(), "Not in a Git repository");
    assert_eq!(RepositoryError::NotARepository.to_display_string(), "Not a Git repository");
    assert_eq!(RepositoryError::Corrupted("index".to_string()).to_display_string(), "Repository corrupted: index");
    assert_eq!(RepositoryError::AccessDenied.to_display_string(), "Access denied to repository");
    assert_eq!(
        RepositoryError::Other("custom error".to_string()).to_display_string(),
        "Repository error: custom error"
    );

    let git_error = git2::Error::from_str("test git error");
    let repo_error = RepositoryError::GitError(git_error);
    assert!(repo_error.to_display_string().contains("Git error"));

    let io_error = std::io::Error::other("test io error");
    let repo_error = RepositoryError::IoError(io_error);
    assert!(repo_error.to_display_string().contains("IO error"));
}

#[test]
fn staging_plans_follow_what_tree_index_and_head_hold() {
    assert_eq!(plan_index_update(true, false, false, false), IndexUpdate::AddFile);
    assert_eq!(plan_index_update(true, true, false, false), IndexUpdate::AddDirectory);
    assert_eq!(plan_index_update(false, false, true, true), IndexUpdate::RemoveEntry);
    assert_eq!(plan_index_update(false, false, false, true), IndexUpdate::RemoveEntriesUnder);
    assert_eq!(plan_index_update(false, false, false, false), IndexUpdate::Refuse);
}

#[test]
fn missing_untracked_path_is_refused_with_its_name() {
    match untracked_missing_error("gone.txt") {
        RepositoryError::Other(m) => assert_eq!(m, "File 'gone.txt' does not exist and is not tracked"),
        _ => panic!("expected Other"),
    }
}

#[test]
fn entries_under_a_deleted_directory() {
    let entries: Vec<String> =
        ["dir", "dir/a.txt", "dir/sub/b.txt", "dirt.txt", "other/dir/c.txt", "x"].iter().map(|s| s.to_string()).collect();
    assert_eq!(index_entries_under(&entries, "dir"), vec!["dir", "dir/a.txt", "dir/sub/b.txt"]);
    assert_eq!(index_entries_under(&entries, "dir/sub"), vec!["dir/sub/b.txt"]);
    assert!(index_entries_under(&entries, "missing").is_empty());
}
