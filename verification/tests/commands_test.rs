use mahgit::diff::DiffContext;
use mahgit::status::{FileEntry, FileStatus, RepositoryStatus};
use mahgit::ui::commands::{
    DiscardRequest, HunkOperation, InlineHunkPlan, LogAction, StageAction, StatusAction, apply_whitespace_regeneration,
    merge_regenerated, narrowed_context, widened_context,
    discard_file_prompt, discard_hunk_index, discard_hunk_prompt, discard_request, staged_discard_refusal,
    cursor_after_hunk_operation, demoted_cursor,
    determine_diff_context, full_page_step, half_page_step, inline_hunk_applicable, inline_hunk_applicable_for_discard,
    jump_target, log_command_action, plan_inline_hunk_operation, should_load_more_log, status_command_action,
};
use mahgit::ui::input::{Command, CommitMode};
use mahgit::ui::log_navigation::LogCursor;
use mahgit::diff::{Diff, DiffHunk, DiffLine, HunkHeader, LineRange, LineType};
use mahgit::ui::navigation::{FileContext, FileDiffKey, NavigationState, SelectionCursor, StatusSection};

#[test]
fn status_commands_map_to_actions() {
    assert_eq!(status_command_action(Command::MoveUp, false), StatusAction::MoveCursorUp);
    assert_eq!(status_command_action(Command::ScrollDiffDown, false), StatusAction::MoveCursorDown);
    assert_eq!(status_command_action(Command::CloseHelp, true), StatusAction::HideHelp);
    assert_eq!(status_command_action(Command::CloseHelp, false), StatusAction::Quit);
    assert_eq!(status_command_action(Command::PageForward, false), StatusAction::PageDown);
    assert_eq!(status_command_action(Command::Commit(CommitMode::Amend), false), StatusAction::Commit(CommitMode::Amend));
    assert_eq!(status_command_action(Command::Unknown, false), StatusAction::Nothing);
}

#[test]
fn log_commands_map_to_actions() {
    assert_eq!(log_command_action(Command::MoveDownHierarchy, false), LogAction::ToggleExpansion);
    assert_eq!(log_command_action(Command::Quit, false), LogAction::CloseLog);
    assert_eq!(log_command_action(Command::ForceQuit, false), LogAction::Quit);
    assert_eq!(log_command_action(Command::CloseHelp, true), LogAction::HideHelp);
    assert_eq!(log_command_action(Command::CloseHelp, false), LogAction::CloseLog);
    assert_eq!(log_command_action(Command::PageForward, false), LogAction::PageDown);
    assert_eq!(log_command_action(Command::StageFile, false), LogAction::Nothing);
}

#[test]
fn more_commits_load_near_the_end() {
    assert!(should_load_more_log(Some(LogCursor::Commit { index: 90 }), 100, true));
    assert!(!should_load_more_log(Some(LogCursor::Commit { index: 89 }), 100, true));
    assert!(!should_load_more_log(Some(LogCursor::Commit { index: 95 }), 100, false));
    assert!(!should_load_more_log(Some(LogCursor::File { commit_index: 99, file_index: 0 }), 100, true));
    assert!(should_load_more_log(Some(LogCursor::Commit { index: 0 }), 5, true));
}

#[test]
fn diff_contexts_follow_sections() {
    assert_eq!(determine_diff_context(FileContext::Staged), DiffContext::IndexToHead);
    assert_eq!(determine_diff_context(FileContext::Unstaged), DiffContext::WorkingTreeToIndex);
    assert_eq!(determine_diff_context(FileContext::Untracked), DiffContext::WorkingTreeToIndex);
    assert_eq!(determine_diff_context(FileContext::Conflicted), DiffContext::WorkingTreeToHead);
}

#[test]
fn jumps_land_on_first_or_last_child() {
    assert_eq!(
        jump_target(StatusSection::Unstaged, 2, true, 3, 5, true),
        SelectionCursor::Hunk { section: StatusSection::Unstaged, file_index: 2, hunk_index: 2 }
    );
    assert_eq!(
        jump_target(StatusSection::Unstaged, 2, true, 0, 5, true),
        SelectionCursor::File { section: StatusSection::Unstaged, file_index: 2 }
    );
    assert_eq!(
        jump_target(StatusSection::Staged, 2, false, 0, 5, true),
        SelectionCursor::File { section: StatusSection::Staged, file_index: 4 }
    );
    assert_eq!(
        jump_target(StatusSection::Staged, 2, false, 0, 5, false),
        SelectionCursor::File { section: StatusSection::Staged, file_index: 0 }
    );
}

#[test]
fn page_steps_are_at_least_one_row() {
    assert_eq!(full_page_step(0), 1);
    assert_eq!(full_page_step(20), 20);
    assert_eq!(half_page_step(1), 1);
    assert_eq!(half_page_step(21), 10);
}

#[test]
fn inline_hunk_plans_pick_and_clamp_the_hunk() {
    let on_hunk = Some(SelectionCursor::Hunk { section: StatusSection::Unstaged, file_index: 0, hunk_index: 5 });
    assert_eq!(
        plan_inline_hunk_operation(on_hunk, FileContext::Unstaged, 0, 3),
        InlineHunkPlan::Apply { hunk_index: 2, operation: HunkOperation::Stage }
    );
    let on_file = Some(SelectionCursor::File { section: StatusSection::Staged, file_index: 0 });
    assert_eq!(
        plan_inline_hunk_operation(on_file, FileContext::Staged, 1, 3),
        InlineHunkPlan::Apply { hunk_index: 1, operation: HunkOperation::Unstage }
    );
    assert_eq!(
        plan_inline_hunk_operation(on_file, FileContext::Conflicted, 0, 1),
        InlineHunkPlan::Apply { hunk_index: 0, operation: HunkOperation::RefuseConflicted }
    );
    assert_eq!(plan_inline_hunk_operation(on_hunk, FileContext::Untracked, 0, 0), InlineHunkPlan::Nothing);
}

#[test]
fn cursor_after_hunk_operation_stays_in_place_or_falls_back_to_file() {
    assert_eq!(
        cursor_after_hunk_operation(StatusSection::Unstaged, 1, 2, 2),
        SelectionCursor::Hunk { section: StatusSection::Unstaged, file_index: 1, hunk_index: 1 }
    );
    assert_eq!(
        cursor_after_hunk_operation(StatusSection::Unstaged, 1, 0, 3),
        SelectionCursor::Hunk { section: StatusSection::Unstaged, file_index: 1, hunk_index: 0 }
    );
    assert_eq!(
        cursor_after_hunk_operation(StatusSection::Unstaged, 1, 0, 0),
        SelectionCursor::File { section: StatusSection::Unstaged, file_index: 1 }
    );
}

#[test]
fn inline_hunk_keys_apply_only_where_they_can() {
    assert!(inline_hunk_applicable(StageAction::Stage, true, Some(FileContext::Untracked)));
    assert!(!inline_hunk_applicable(StageAction::Stage, true, Some(FileContext::Staged)));
    assert!(inline_hunk_applicable(StageAction::Unstage, true, Some(FileContext::Staged)));
    assert!(!inline_hunk_applicable(StageAction::Unstage, false, Some(FileContext::Staged)));
    assert!(inline_hunk_applicable_for_discard(true, Some(FileContext::Conflicted)));
    assert!(!inline_hunk_applicable_for_discard(true, Some(FileContext::Staged)));
    assert!(!inline_hunk_applicable_for_discard(false, Some(FileContext::Unstaged)));
}

#[test]
fn closing_a_diff_demotes_a_hunk_cursor_inside_it() {
    let status = RepositoryStatus {
        branch_name: "main".to_string(),
        staged: vec![],
        unstaged: vec![FileEntry::new("f.txt".to_string(), FileStatus::Modified)],
        untracked: vec![],
        conflicted: vec![],
    };
    let mut navigation = NavigationState::new(&status);
    let key = FileDiffKey::new("f.txt".to_string(), FileContext::Unstaged);
    let hunk = DiffHunk {
        header: HunkHeader { raw: "@@ -1 +1 @@".to_string(), old_start: 1, old_lines: 1, new_start: 1, new_lines: 1 },
        lines: vec![DiffLine {
            content: "x".to_string(),
            line_type: LineType::Addition,
            old_line_no: None,
            new_line_no: Some(1),
            inline_diff: None,
        }],
        old_range: LineRange { start: 1, count: 1 },
        new_range: LineRange { start: 1, count: 1 },
        stageable: true,
        context_lines: 3,
    };
    let diff = Diff { file_path: "f.txt".to_string(), context: DiffContext::WorkingTreeToIndex, hunks: vec![hunk], binary: false };
    navigation.set_file_diff(key.clone(), diff, DiffContext::WorkingTreeToIndex);
    assert_eq!(demoted_cursor(&navigation, &status, &key), None);
    navigation.move_to_next(&status);
    assert_eq!(
        demoted_cursor(&navigation, &status, &key),
        Some(SelectionCursor::File { section: StatusSection::Unstaged, file_index: 0 })
    );
    let other = FileDiffKey::new("f.txt".to_string(), FileContext::Staged);
    assert_eq!(demoted_cursor(&navigation, &status, &other), None);
}

fn one_line_hunk(start: u32, content: &str) -> DiffHunk {
    DiffHunk {
        header: HunkHeader { raw: format!("@@ -{start} +{start} @@"), old_start: start, old_lines: 1, new_start: start, new_lines: 1 },
        lines: vec![DiffLine {
            content: content.to_string(),
            line_type: LineType::Addition,
            old_line_no: None,
            new_line_no: Some(start as usize),
            inline_diff: None,
        }],
        old_range: LineRange { start, count: 1 },
        new_range: LineRange { start, count: 1 },
        stageable: true,
        context_lines: 3,
    }
}

fn code_status() -> RepositoryStatus {
    RepositoryStatus {
        branch_name: "main".to_string(),
        staged: vec![],
        unstaged: vec![FileEntry::new("code.txt".to_string(), FileStatus::Modified)],
        untracked: vec![],
        conflicted: vec![],
    }
}

fn code_diff(hunks: Vec<DiffHunk>) -> Diff {
    Diff { file_path: "code.txt".to_string(), context: DiffContext::WorkingTreeToIndex, hunks, binary: false }
}

#[test]
fn whitespace_toggle_keeps_a_diff_with_the_same_hunk_count() {
    let status = code_status();
    let mut navigation = NavigationState::new(&status);
    let key = FileDiffKey::new("code.txt".to_string(), FileContext::Unstaged);
    navigation.set_file_diff(key.clone(), code_diff(vec![one_line_hunk(1, "let x = 1;")]), DiffContext::WorkingTreeToIndex);
    navigation.move_to_next(&status);
    let cursor_before = navigation.current_cursor();
    assert_eq!(cursor_before, Some(SelectionCursor::Hunk { section: StatusSection::Unstaged, file_index: 0, hunk_index: 0 }));

    apply_whitespace_regeneration(&mut navigation, &status, &key, Ok(code_diff(vec![one_line_hunk(1, "let x = 99;")])));

    let state = navigation.get_file_diff(&key).expect("state kept when the hunk count is unchanged");
    assert!(state.expanded);
    assert_eq!(state.diff.as_ref().unwrap().hunks.len(), 1);
    assert_eq!(state.diff.as_ref().unwrap().hunks[0].lines[0].content, "let x = 99;");
    assert_eq!(navigation.current_cursor(), cursor_before);
}

#[test]
fn whitespace_toggle_collapses_a_file_whose_hunk_count_changes() {
    let status = code_status();
    let mut navigation = NavigationState::new(&status);
    let key = FileDiffKey::new("code.txt".to_string(), FileContext::Unstaged);
    navigation.set_file_diff(key.clone(), code_diff(vec![one_line_hunk(1, "let     x = 1;")]), DiffContext::WorkingTreeToIndex);
    navigation.move_to_next(&status);

    apply_whitespace_regeneration(&mut navigation, &status, &key, Ok(code_diff(vec![])));

    assert!(navigation.get_file_diff(&key).is_none());
    assert_eq!(navigation.current_cursor(), Some(SelectionCursor::File { section: StatusSection::Unstaged, file_index: 0 }));
}

#[test]
fn whitespace_toggle_merges_before_counting_and_drops_on_failure() {
    let status = code_status();
    let mut navigation = NavigationState::new(&status);
    let key = FileDiffKey::new("code.txt".to_string(), FileContext::Unstaged);
    navigation.set_file_diff(key.clone(), code_diff(vec![one_line_hunk(1, "a")]), DiffContext::WorkingTreeToIndex);
    // Two touching hunks merge into one, so the count matches.
    apply_whitespace_regeneration(
        &mut navigation,
        &status,
        &key,
        Ok(code_diff(vec![one_line_hunk(1, "a"), one_line_hunk(2, "b")])),
    );
    assert_eq!(navigation.get_file_diff(&key).unwrap().diff.as_ref().unwrap().hunks.len(), 1);
    // A regeneration that fails drops the file's state; the cursor on the file row stays.
    apply_whitespace_regeneration(
        &mut navigation,
        &status,
        &key,
        Err(mahgit::diff::generator::DiffError::FileNotFound("code.txt".to_string())),
    );
    assert!(navigation.get_file_diff(&key).is_none());
    assert_eq!(navigation.current_cursor(), Some(SelectionCursor::File { section: StatusSection::Unstaged, file_index: 0 }));
    // A file without a kept state is left alone.
    let other = FileDiffKey::new("other.txt".to_string(), FileContext::Unstaged);
    apply_whitespace_regeneration(&mut navigation, &status, &other, Ok(code_diff(vec![])));
    assert!(navigation.cached_file_diff_keys().is_empty());
}

#[test]
fn discard_requests_follow_the_file_context() {
    assert_eq!(discard_request(FileContext::Staged, true), DiscardRequest::RefuseStaged);
    assert_eq!(discard_request(FileContext::Unstaged, true), DiscardRequest::ConfirmHunk);
    assert_eq!(discard_request(FileContext::Conflicted, false), DiscardRequest::ConfirmFile);
    assert_eq!(discard_request(FileContext::Untracked, true), DiscardRequest::ConfirmFile);
    assert_eq!(staged_discard_refusal(), "Cannot discard staged file. Unstage first with 'u'.");
}

#[test]
fn discard_prompts_name_the_file_and_lines() {
    assert_eq!(discard_file_prompt("a.rs", FileContext::Unstaged), "Discard all changes to 'a.rs'?");
    assert_eq!(discard_file_prompt("n.txt", FileContext::Untracked), "Delete untracked file 'n.txt'? (Cannot be undone)");
    assert_eq!(discard_hunk_prompt("a.rs", 10, 4), "Discard hunk in 'a.rs' (lines 10-14)?");
    let cursor = Some(SelectionCursor::Hunk { section: StatusSection::Unstaged, file_index: 0, hunk_index: 3 });
    assert_eq!(discard_hunk_index(cursor, 1), 3);
    assert_eq!(discard_hunk_index(Some(SelectionCursor::File { section: StatusSection::Unstaged, file_index: 0 }), 1), 1);
    assert_eq!(discard_hunk_index(None, 2), 2);
}

#[test]
fn hunk_context_moves_in_steps_of_three() {
    assert_eq!(widened_context(3), 6);
    assert_eq!(narrowed_context(9), Some(6));
    assert_eq!(narrowed_context(4), Some(1));
    assert_eq!(narrowed_context(3), None);
    assert_eq!(narrowed_context(0), None);
}

#[test]
fn regenerated_diffs_merge_when_ordered_and_keep_the_context_set() {
    let merged = merge_regenerated(code_diff(vec![one_line_hunk(1, "a"), one_line_hunk(2, "b")]));
    assert_eq!(merged.hunks.len(), 1);
    let unordered = merge_regenerated(code_diff(vec![one_line_hunk(5, "a"), one_line_hunk(1, "b")]));
    assert_eq!(unordered.hunks.len(), 2);

    let status = code_status();
    let mut navigation = NavigationState::new(&status);
    let key = FileDiffKey::new("code.txt".to_string(), FileContext::Unstaged);
    navigation.set_file_diff(key.clone(), code_diff(vec![one_line_hunk(1, "a")]), DiffContext::WorkingTreeToIndex);
    assert_eq!(navigation.get_file_diff(&key).unwrap().context_lines, 3);
    navigation.set_hunk_context(&key, 6, 0);
    let state = navigation.get_file_diff(&key).unwrap();
    assert_eq!(state.context_lines, 6);
    assert_eq!(state.current_hunk, 0);
    assert!(state.expanded);
}
