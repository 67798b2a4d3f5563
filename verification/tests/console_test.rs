use mahgit::status::{FileEntry, FileStatus, RepositoryStatus};
use mahgit::ui::console::console_status_lines;

fn status_with(staged: Vec<FileEntry>, unstaged: Vec<FileEntry>, untracked: Vec<&str>, conflicted: Vec<&str>) -> RepositoryStatus {
    RepositoryStatus {
        branch_name: "main".to_string(),
        staged,
        unstaged,
        untracked: untracked.into_iter().map(String::from).collect(),
        conflicted: conflicted.into_iter().map(String::from).collect(),
    }
}

#[test]
fn clean_tree_reports_branch_and_nothing_to_commit() {
    let lines = console_status_lines(&status_with(vec![], vec![], vec![], vec![]));
    assert_eq!(lines, vec!["On branch main", "nothing to commit, working tree clean"]);
}

#[test]
fn sections_appear_in_order_and_only_when_filled() {
    let status = status_with(
        vec![FileEntry::new("a.rs".to_string(), FileStatus::Added)],
        vec![],
        vec!["new.txt"],
        vec!["both.txt"],
    );
    let lines = console_status_lines(&status);
    assert_eq!(
        lines,
        vec![
            "On branch main",
            "\nChanges to be committed:",
            "  (use \"git reset HEAD <file>...\" to unstage)",
            "\tadded: a.rs",
            "\nUntracked files:",
            "  (use \"git add <file>...\" to include in what will be committed)",
            "\tnew.txt",
            "\nConflicted files:",
            "  (fix conflicts and run \"git add <file>...\" to mark resolution)",
            "\tboth.txt",
        ]
    );
}

#[test]
fn unstaged_changes_list_status_and_path() {
    let status = status_with(vec![], vec![FileEntry::new("m.rs".to_string(), FileStatus::Modified)], vec![], vec![]);
    let lines = console_status_lines(&status);
    assert_eq!(lines[1], "\nChanges not staged for commit:");
    assert_eq!(lines[3], "\tmodified: m.rs");
    assert_eq!(lines.len(), 4);
}
