use vstd::prelude::*;
use crate::diff::{Diff, DiffContext, DiffModel, hunks_are_ordered, hunks_in_order, merge_adjacent_hunks, merge_all};
use crate::diff::generator::DiffError;
use crate::text::{decimal, owned, push_decimal, push_str};
use crate::ui::input::{Command, CommitMode};
use crate::ui::log_navigation::LogCursor;
use crate::status::RepositoryStatus;
use crate::ui::navigation::{
    FileContext, FileDiffKey, InlineDiffState, NavigationModel, NavigationState, SelectionCursor, StatusSection, context_of,
    diff_state_of, other_states_kept, status_path,
};

verus! {

/// What the status view does for a command.
#[derive(Debug, Clone, Copy, PartialEq, Eq, Structural)]
pub enum StatusAction {
    MoveCursorUp,
    MoveCursorDown,
    ScrollViewportUp,
    ScrollViewportDown,
    MoveToTop,
    MoveToBottom,
    Quit,
    Refresh,
    ToggleHelp,
    HideHelp,
    StageFile,
    UnstageFile,
    AddFile,
    DiscardFile,
    ConfirmDiscard,
    ToggleInlineDiff,
    OpenInEditor,
    ToggleAccordion,
    PageUp,
    PageDown,
    HalfPageUp,
    HalfPageDown,
    JumpToParentStart,
    JumpToParentEnd,
    IncreaseHunkContext,
    DecreaseHunkContext,
    ToggleWordWrap,
    ToggleIgnoreWhitespace,
    MoveUpHierarchy,
    MoveDownHierarchy,
    OpenCommitModal,
    Commit(CommitMode),
    OpenLogModal,
    OpenLog,
    Nothing,
}

/// What the log view does for a command.
#[derive(Debug, Clone, Copy, PartialEq, Eq, Structural)]
pub enum LogAction {
    MovePrevious,
    MoveNext,
    ScrollViewportUp,
    ScrollViewportDown,
    MoveToTop,
    MoveToBottom,
    ToggleExpansion,
    MoveUpHierarchy,
    PageUp,
    PageDown,
    ToggleHelp,
    HideHelp,
    CloseLog,
    Quit,
    Nothing,
}

/// The status view's action for a command; Escape hides the help when it
/// is shown and quits otherwise.
pub open spec fn status_action_spec(command: Command, show_help: bool) -> StatusAction {
    match command {
        Command::MoveUp | Command::ScrollDiffUp => StatusAction::MoveCursorUp,
        Command::MoveDown | Command::ScrollDiffDown => StatusAction::MoveCursorDown,
        Command::ScrollViewportUp => StatusAction::ScrollViewportUp,
        Command::ScrollViewportDown => StatusAction::ScrollViewportDown,
        Command::MoveToTop => StatusAction::MoveToTop,
        Command::MoveToBottom => StatusAction::MoveToBottom,
        Command::Quit | Command::ForceQuit => StatusAction::Quit,
        Command::RefreshStatus => StatusAction::Refresh,
        Command::ShowHelp => StatusAction::ToggleHelp,
        Command::CloseHelp => if show_help { StatusAction::HideHelp } else { StatusAction::Quit },
        Command::StageFile => StatusAction::StageFile,
        Command::UnstageFile => StatusAction::UnstageFile,
        Command::AddUntracked => StatusAction::AddFile,
        Command::DiscardFile => StatusAction::DiscardFile,
        Command::ConfirmDiscard => StatusAction::ConfirmDiscard,
        Command::EnterDiffView => StatusAction::ToggleInlineDiff,
        Command::OpenInEditor => StatusAction::OpenInEditor,
        Command::ToggleAccordion => StatusAction::ToggleAccordion,
        Command::PageDiffUp => StatusAction::PageUp,
        Command::PageDiffDown | Command::PageForward => StatusAction::PageDown,
        Command::PreviousHunk => StatusAction::HalfPageUp,
        Command::NextHunk => StatusAction::HalfPageDown,
        Command::JumpToPreviousHunk => StatusAction::JumpToParentStart,
        Command::JumpToNextHunk => StatusAction::JumpToParentEnd,
        Command::IncreaseHunkContext => StatusAction::IncreaseHunkContext,
        Command::DecreaseHunkContext => StatusAction::DecreaseHunkContext,
        Command::ToggleWordWrap => StatusAction::ToggleWordWrap,
        Command::ToggleIgnoreWhitespace => StatusAction::ToggleIgnoreWhitespace,
        Command::MoveUpHierarchy => StatusAction::MoveUpHierarchy,
        Command::MoveDownHierarchy => StatusAction::MoveDownHierarchy,
        Command::OpenCommitModal => StatusAction::OpenCommitModal,
        Command::Commit(mode) => StatusAction::Commit(mode),
        Command::OpenLogModal => StatusAction::OpenLogModal,
        Command::OpenLog => StatusAction::OpenLog,
        _ => StatusAction::Nothing,
    }
}

/// The log view's action for a command; Escape hides the help when it is
/// shown and leaves the log otherwise, and commands of the status view do
/// nothing here.
pub open spec fn log_action_spec(command: Command, show_help: bool) -> LogAction {
    match command {
        Command::MoveUp | Command::ScrollDiffUp => LogAction::MovePrevious,
        Command::MoveDown | Command::ScrollDiffDown => LogAction::MoveNext,
        Command::ScrollViewportUp => LogAction::ScrollViewportUp,
        Command::ScrollViewportDown => LogAction::ScrollViewportDown,
        Command::MoveToTop => LogAction::MoveToTop,
        Command::MoveToBottom => LogAction::MoveToBottom,
        Command::ToggleAccordion | Command::MoveDownHierarchy => LogAction::ToggleExpansion,
        Command::MoveUpHierarchy => LogAction::MoveUpHierarchy,
        Command::PageDiffUp => LogAction::PageUp,
        Command::PageDiffDown | Command::PageForward => LogAction::PageDown,
        Command::ShowHelp => LogAction::ToggleHelp,
        Command::CloseHelp => if show_help { LogAction::HideHelp } else { LogAction::CloseLog },
        Command::Quit => LogAction::CloseLog,
        Command::ForceQuit => LogAction::Quit,
        _ => LogAction::Nothing,
    }
}

/// The status view's action for a command.
pub fn status_command_action(command: Command, show_help: bool) -> (action: StatusAction)
    ensures
        action == status_action_spec(command, show_help),
{
    match command {
        Command::MoveUp | Command::ScrollDiffUp => StatusAction::MoveCursorUp,
        Command::MoveDown | Command::ScrollDiffDown => StatusAction::MoveCursorDown,
        Command::ScrollViewportUp => StatusAction::ScrollViewportUp,
        Command::ScrollViewportDown => StatusAction::ScrollViewportDown,
        Command::MoveToTop => StatusAction::MoveToTop,
        Command::MoveToBottom => StatusAction::MoveToBottom,
        Command::Quit | Command::ForceQuit => StatusAction::Quit,
        Command::RefreshStatus => StatusAction::Refresh,
        Command::ShowHelp => StatusAction::ToggleHelp,
        Command::CloseHelp => if show_help { StatusAction::HideHelp } else { StatusAction::Quit },
        Command::StageFile => StatusAction::StageFile,
        Command::UnstageFile => StatusAction::UnstageFile,
        Command::AddUntracked => StatusAction::AddFile,
        Command::DiscardFile => StatusAction::DiscardFile,
        Command::ConfirmDiscard => StatusAction::ConfirmDiscard,
        Command::EnterDiffView => StatusAction::ToggleInlineDiff,
        Command::OpenInEditor => StatusAction::OpenInEditor,
        Command::ToggleAccordion => StatusAction::ToggleAccordion,
        Command::PageDiffUp => StatusAction::PageUp,
        Command::PageDiffDown | Command::PageForward => StatusAction::PageDown,
        Command::PreviousHunk => StatusAction::HalfPageUp,
        Command::NextHunk => StatusAction::HalfPageDown,
        Command::JumpToPreviousHunk => StatusAction::JumpToParentStart,
        Command::JumpToNextHunk => StatusAction::JumpToParentEnd,
        Command::IncreaseHunkContext => StatusAction::IncreaseHunkContext,
        Command::DecreaseHunkContext => StatusAction::DecreaseHunkContext,
        Command::ToggleWordWrap => StatusAction::ToggleWordWrap,
        Command::ToggleIgnoreWhitespace => StatusAction::ToggleIgnoreWhitespace,
        Command::MoveUpHierarchy => StatusAction::MoveUpHierarchy,
        Command::MoveDownHierarchy => StatusAction::MoveDownHierarchy,
        Command::OpenCommitModal => StatusAction::OpenCommitModal,
        Command::Commit(mode) => StatusAction::Commit(mode),
        Command::OpenLogModal => StatusAction::OpenLogModal,
        Command::OpenLog => StatusAction::OpenLog,
        _ => StatusAction::Nothing,
    }
}

/// The log view's action for a command.
pub fn log_command_action(command: Command, show_help: bool) -> (action: LogAction)
    ensures
        action == log_action_spec(command, show_help),
{
    match command {
        Command::MoveUp | Command::ScrollDiffUp => LogAction::MovePrevious,
        Command::MoveDown | Command::ScrollDiffDown => LogAction::MoveNext,
        Command::ScrollViewportUp => LogAction::ScrollViewportUp,
        Command::ScrollViewportDown => LogAction::ScrollViewportDown,
        Command::MoveToTop => LogAction::MoveToTop,
        Command::MoveToBottom => LogAction::MoveToBottom,
        Command::ToggleAccordion | Command::MoveDownHierarchy => LogAction::ToggleExpansion,
        Command::MoveUpHierarchy => LogAction::MoveUpHierarchy,
        Command::PageDiffUp => LogAction::PageUp,
        Command::PageDiffDown | Command::PageForward => LogAction::PageDown,
        Command::ShowHelp => LogAction::ToggleHelp,
        Command::CloseHelp => if show_help { LogAction::HideHelp } else { LogAction::CloseLog },
        Command::Quit => LogAction::CloseLog,
        Command::ForceQuit => LogAction::Quit,
        _ => LogAction::Nothing,
    }
}

/// How close to the end of the loaded commits the cursor may come before
/// more are loaded.
pub const LOG_PRELOAD_MARGIN: usize = 10;

/// More commits are loaded when the cursor is on one of the last commits
/// loaded and the history goes on.
pub open spec fn should_load_more_spec(cursor: Option<LogCursor>, loaded: nat, has_more: bool) -> bool {
    has_more && (cursor matches Some(LogCursor::Commit { index }) && index + LOG_PRELOAD_MARGIN >= loaded)
}

/// Whether to load more commits after the cursor moved down.
pub fn should_load_more_log(cursor: Option<LogCursor>, loaded: usize, has_more: bool) -> (load: bool)
    ensures
        load == should_load_more_spec(cursor, loaded as nat, has_more),
{
    match cursor {
        Some(LogCursor::Commit { index }) => index >= loaded.saturating_sub(LOG_PRELOAD_MARGIN) && has_more,
        _ => false,
    }
}

/// The diff shown for a file of a section: staged files against HEAD,
/// unstaged and untracked files against the index, conflicted files
/// against HEAD.
pub open spec fn diff_context_spec(context: FileContext) -> DiffContext {
    match context {
        FileContext::Staged => DiffContext::IndexToHead,
        FileContext::Unstaged => DiffContext::WorkingTreeToIndex,
        FileContext::Untracked => DiffContext::WorkingTreeToIndex,
        FileContext::Conflicted => DiffContext::WorkingTreeToHead,
    }
}

/// The diff shown for a file of a section.
pub fn determine_diff_context(context: FileContext) -> (diff_context: DiffContext)
    ensures
        diff_context == diff_context_spec(context),
{
    match context {
        FileContext::Staged => DiffContext::IndexToHead,
        FileContext::Unstaged => DiffContext::WorkingTreeToIndex,
        FileContext::Untracked => DiffContext::WorkingTreeToIndex,
        FileContext::Conflicted => DiffContext::WorkingTreeToHead,
    }
}

/// The cursor a jump within the current parent lands on: the first or last
/// hunk of the file for a hunk cursor (the file itself when it shows no
/// hunks), the first or last file of the section for a file cursor.
pub open spec fn jump_target_spec(
    section: StatusSection,
    file_index: usize,
    on_hunk: bool,
    hunk_count: usize,
    file_count: usize,
    to_end: bool,
) -> SelectionCursor {
    if on_hunk {
        if hunk_count == 0 {
            SelectionCursor::File { section, file_index }
        } else {
            SelectionCursor::Hunk {
                section,
                file_index,
                hunk_index: if to_end { (hunk_count - 1) as usize } else { 0 },
            }
        }
    } else {
        SelectionCursor::File {
            section,
            file_index: if to_end && file_count > 0 { (file_count - 1) as usize } else { 0 },
        }
    }
}

/// The cursor of a jump to the start (`to_end` false) or end of the
/// current parent.
pub fn jump_target(
    section: StatusSection,
    file_index: usize,
    on_hunk: bool,
    hunk_count: usize,
    file_count: usize,
    to_end: bool,
) -> (cursor: SelectionCursor)
    ensures
        cursor == jump_target_spec(section, file_index, on_hunk, hunk_count, file_count, to_end),
{
    if on_hunk {
        if hunk_count == 0 {
            SelectionCursor::File { section, file_index }
        } else {
            SelectionCursor::Hunk { section, file_index, hunk_index: if to_end { hunk_count - 1 } else { 0 } }
        }
    } else {
        SelectionCursor::File { section, file_index: if to_end { file_count.saturating_sub(1) } else { 0 } }
    }
}

/// The rows a page scroll moves: the viewport's height, at least one.
pub fn full_page_step(viewport_height: usize) -> (step: usize)
    ensures
        step == if viewport_height >= 1 { viewport_height } else { 1 },
{
    if viewport_height >= 1 { viewport_height } else { 1 }
}

/// The rows a half-page scroll moves: half the viewport's height, at least one.
pub fn half_page_step(viewport_height: usize) -> (step: usize)
    ensures
        step == if viewport_height / 2 >= 1 { viewport_height / 2 } else { 1 },
{
    let height = if viewport_height >= 1 { viewport_height } else { 1 };
    let half = height / 2;
    if half >= 1 { half } else { 1 }
}

/// What an inline hunk operation does to a file of a context: stage the
/// hunk of an unstaged or untracked file, unstage that of a staged file, and
/// refuse for a conflicted one.
#[derive(Debug, Clone, Copy, PartialEq, Eq, Structural)]
pub enum HunkOperation {
    Stage,
    Unstage,
    RefuseConflicted,
}

/// The inline hunk operation on the hunk the cursor is on (or the file's
/// current hunk), clamped to the file's last hunk; none without hunks.
#[derive(Debug, Clone, Copy, PartialEq, Eq, Structural)]
pub enum InlineHunkPlan {
    Nothing,
    Apply { hunk_index: usize, operation: HunkOperation },
}

/// The operation an inline hunk action applies to a file of `context`.
pub open spec fn hunk_operation_spec(context: FileContext) -> HunkOperation {
    match context {
        FileContext::Unstaged | FileContext::Untracked => HunkOperation::Stage,
        FileContext::Staged => HunkOperation::Unstage,
        FileContext::Conflicted => HunkOperation::RefuseConflicted,
    }
}

/// The plan for an inline hunk operation on a file of `context` whose diff
/// has `hunk_count` hunks, `current_hunk` being the file's current hunk.
pub open spec fn inline_hunk_plan_spec(cursor: Option<SelectionCursor>, context: FileContext, current_hunk: usize, hunk_count: usize) -> InlineHunkPlan {
    if hunk_count == 0 {
        InlineHunkPlan::Nothing
    } else {
        let wanted = match cursor {
            Some(SelectionCursor::Hunk { hunk_index, .. }) => hunk_index,
            _ => current_hunk,
        };
        InlineHunkPlan::Apply {
            hunk_index: if wanted <= hunk_count - 1 { wanted } else { (hunk_count - 1) as usize },
            operation: hunk_operation_spec(context),
        }
    }
}

/// Plans an inline hunk operation (see `inline_hunk_plan_spec`).
pub fn plan_inline_hunk_operation(cursor: Option<SelectionCursor>, context: FileContext, current_hunk: usize, hunk_count: usize) -> (plan: InlineHunkPlan)
    ensures
        plan == inline_hunk_plan_spec(cursor, context, current_hunk, hunk_count),
{
    if hunk_count == 0 {
        return InlineHunkPlan::Nothing;
    }
    let wanted = match cursor {
        Some(SelectionCursor::Hunk { hunk_index, .. }) => hunk_index,
        _ => current_hunk,
    };
    let operation = match context {
        FileContext::Unstaged | FileContext::Untracked => HunkOperation::Stage,
        FileContext::Staged => HunkOperation::Unstage,
        FileContext::Conflicted => HunkOperation::RefuseConflicted,
    };
    InlineHunkPlan::Apply { hunk_index: if wanted <= hunk_count - 1 { wanted } else { hunk_count - 1 }, operation }
}

/// Where the cursor goes after a hunk operation, once the file's diff has
/// `remaining_hunks` hunks: the same hunk position (or the last hunk), or
/// the file itself when no hunk is left.
pub fn cursor_after_hunk_operation(section: StatusSection, file_index: usize, hunk_index: usize, remaining_hunks: usize) -> (cursor: SelectionCursor)
    ensures
        cursor == (if remaining_hunks == 0 {
            SelectionCursor::File { section, file_index }
        } else {
            SelectionCursor::Hunk {
                section,
                file_index,
                hunk_index: if hunk_index <= remaining_hunks - 1 { hunk_index } else { (remaining_hunks - 1) as usize },
            }
        }),
{
    if remaining_hunks == 0 {
        SelectionCursor::File { section, file_index }
    } else {
        SelectionCursor::Hunk { section, file_index, hunk_index: if hunk_index <= remaining_hunks - 1 { hunk_index } else { remaining_hunks - 1 } }
    }
}

/// The staging action asked for.
#[derive(Debug, Clone, Copy, PartialEq, Eq, Structural)]
pub enum StageAction {
    Stage,
    Unstage,
}

/// A stage or unstage key applies to the hunk (not the whole file) when the
/// inline diff has the focus and the file can take that action: staging an
/// unstaged or untracked file, unstaging a staged one.
pub fn inline_hunk_applicable(action: StageAction, inline_diff_focused: bool, context: Option<FileContext>) -> (applicable: bool)
    ensures
        applicable == (inline_diff_focused && match (action, context) {
            (StageAction::Stage, Some(FileContext::Unstaged)) => true,
            (StageAction::Stage, Some(FileContext::Untracked)) => true,
            (StageAction::Unstage, Some(FileContext::Staged)) => true,
            _ => false,
        }),
{
    if !inline_diff_focused {
        return false;
    }
    match (action, context) {
        (StageAction::Stage, Some(FileContext::Unstaged)) => true,
        (StageAction::Stage, Some(FileContext::Untracked)) => true,
        (StageAction::Unstage, Some(FileContext::Staged)) => true,
        _ => false,
    }
}

/// The discard key applies to the hunk when the inline diff has the focus
/// and the file is unstaged or conflicted.
pub fn inline_hunk_applicable_for_discard(inline_diff_focused: bool, context: Option<FileContext>) -> (applicable: bool)
    ensures
        applicable == (inline_diff_focused && (context == Some(FileContext::Unstaged) || context == Some(
            FileContext::Conflicted,
        ))),
{
    inline_diff_focused && match context {
        Some(FileContext::Unstaged) | Some(FileContext::Conflicted) => true,
        _ => false,
    }
}

/// The file row that a cursor on one of the file's hunks moves to when the
/// file's inline diff closes; none when the cursor is elsewhere.
pub open spec fn demoted_cursor_spec(
    m: NavigationModel,
    status: &RepositoryStatus,
    path: Seq<char>,
    context: FileContext,
) -> Option<SelectionCursor> {
    match m.cursor {
        Some(SelectionCursor::Hunk { section, file_index, .. }) => {
            if context_of(section) == context && status_path(status, section, file_index as int) == Some(path) {
                Some(SelectionCursor::File { section, file_index })
            } else {
                None
            }
        },
        _ => None,
    }
}

/// The cursor to put on a file whose inline diff is closed while the cursor
/// is on one of its hunks: the file itself; none when the cursor is
/// elsewhere.
pub fn demoted_cursor(navigation: &NavigationState, status: &RepositoryStatus, key: &FileDiffKey) -> (cursor: Option<SelectionCursor>)
    ensures
        cursor == demoted_cursor_spec(navigation@, status, key.path@, key.context),
{
    match navigation.current_cursor() {
        Some(SelectionCursor::Hunk { section, file_index, .. }) => {
            let same_context = match (section, key.context) {
                (StatusSection::Staged, FileContext::Staged) => true,
                (StatusSection::Unstaged, FileContext::Unstaged) => true,
                (StatusSection::Untracked, FileContext::Untracked) => true,
                (StatusSection::Conflicted, FileContext::Conflicted) => true,
                _ => false,
            };
            if !same_context {
                return None;
            }
            match navigation.file_path(status, section, file_index) {
                Some(path) => {
                    if crate::text::same_text(path.as_str(), key.path.as_str()) {
                        Some(SelectionCursor::File { section, file_index })
                    } else {
                        None
                    }
                },
                None => None,
            }
        },
        _ => None,
    }
}

/// The number of hunks a kept inline diff state shows: those of its diff,
/// none without one.
pub open spec fn shown_hunk_count(state: InlineDiffState) -> nat {
    match state.diff {
        Some(d) => d.hunks@.len(),
        None => 0,
    }
}

/// Whether a diff regenerated after the whitespace setting changed can take
/// the place of the kept one: it came back, git's order holds, and merged it
/// shows as many hunks as the kept state.
pub open spec fn regeneration_kept(state: InlineDiffState, regenerated: Result<Diff, DiffError>) -> bool {
    regenerated matches Ok(d) && hunks_in_order(d@.hunks) && merge_all(d@.hunks).len() == shown_hunk_count(state)
}

/// One file's part of toggling whitespace: where the regenerated diff,
/// merged, shows as many hunks as the kept one, it takes the kept diff's
/// place and the rest of the file's state stays; otherwise (another count,
/// or no diff came back) the file's state is dropped so that the file
/// collapses, and a cursor on one of its hunks moves to the file row.
/// Nothing changes for a file without a kept state.
pub fn apply_whitespace_regeneration(
    navigation: &mut NavigationState,
    status: &RepositoryStatus,
    key: &FileDiffKey,
    regenerated: Result<Diff, DiffError>,
)
    ensures
        match diff_state_of(old(navigation)@.file_diffs, key.path@, key.context) {
            None => final(navigation)@ == old(navigation)@,
            Some(state) => {
                &&& other_states_kept(old(navigation)@.file_diffs, final(navigation)@.file_diffs, key.path@, key.context)
                &&& final(navigation)@.sections == old(navigation)@.sections
                &&& final(navigation)@.section_collapsed == old(navigation)@.section_collapsed
                &&& final(navigation)@.scroll_offset == old(navigation)@.scroll_offset
                &&& final(navigation)@.viewport_height == old(navigation)@.viewport_height
                &&& final(navigation)@.max_scroll_offset == old(navigation)@.max_scroll_offset
                &&& if regeneration_kept(state, regenerated) {
                    &&& final(navigation)@ == (NavigationModel { file_diffs: final(navigation)@.file_diffs, ..old(navigation)@ })
                    &&& diff_state_of(final(navigation)@.file_diffs, key.path@, key.context) matches Some(kept)
                    &&& kept == (InlineDiffState { diff: kept.diff, ..state })
                    &&& kept.diff matches Some(d2)
                    &&& d2@ == (DiffModel { hunks: merge_all(regenerated->Ok_0@.hunks), ..regenerated->Ok_0@ })
                } else {
                    &&& diff_state_of(final(navigation)@.file_diffs, key.path@, key.context) is None
                    &&& !final(navigation)@.manual_scroll_active
                    &&& final(navigation)@.cursor == match demoted_cursor_spec(
                        old(navigation)@,
                        status,
                        key.path@,
                        key.context,
                    ) {
                        Some(c) => Some(c),
                        None => old(navigation)@.cursor,
                    }
                }
            },
        },
{
    let existing_count: usize = match navigation.get_file_diff(key) {
        None => {
            return;
        },
        Some(state) => match &state.diff {
            Some(d) => d.hunks.len(),
            None => 0,
        },
    };
    let ghost state = diff_state_of(navigation@.file_diffs, key.path@, key.context)->Some_0;
    let ghost start = navigation@;
    if let Ok(diff) = regenerated {
        if hunks_are_ordered(&diff.hunks) {
            let merged = merge_adjacent_hunks(diff);
            if merged.hunks.len() == existing_count {
                navigation.replace_file_diff(key, merged);
                return;
            }
        }
    }
    let demoted = demoted_cursor(navigation, status, key);
    navigation.remove_file_diff(key);
    if let Some(cursor) = demoted {
        navigation.apply_cursor(status, Some(cursor));
    }
}

/// What the discard key asks for on the selected file.
#[derive(Debug, Clone, Copy, PartialEq, Eq, Structural)]
pub enum DiscardRequest {
    /// A staged file cannot be discarded; it is to be unstaged first.
    RefuseStaged,
    /// Confirm discarding the hunk under the cursor.
    ConfirmHunk,
    /// Confirm discarding the whole file.
    ConfirmFile,
}

/// The discard request for a file: refused for a staged file, the hunk
/// where the inline diff has the focus on it, the whole file otherwise.
pub open spec fn discard_request_spec(context: FileContext, hunk_applicable: bool) -> DiscardRequest {
    match context {
        FileContext::Staged => DiscardRequest::RefuseStaged,
        FileContext::Unstaged | FileContext::Conflicted => if hunk_applicable {
            DiscardRequest::ConfirmHunk
        } else {
            DiscardRequest::ConfirmFile
        },
        FileContext::Untracked => DiscardRequest::ConfirmFile,
    }
}

/// Decides what the discard key asks for on the selected file.
pub fn discard_request(context: FileContext, hunk_applicable: bool) -> (request: DiscardRequest)
    ensures
        request == discard_request_spec(context, hunk_applicable),
{
    match context {
        FileContext::Staged => DiscardRequest::RefuseStaged,
        FileContext::Unstaged | FileContext::Conflicted => if hunk_applicable {
            DiscardRequest::ConfirmHunk
        } else {
            DiscardRequest::ConfirmFile
        },
        FileContext::Untracked => DiscardRequest::ConfirmFile,
    }
}

/// The message for the discard key on a staged file.
pub fn staged_discard_refusal() -> (message: String)
    ensures
        message@ == "Cannot discard staged file. Unstage first with 'u'."@,
{
    owned("Cannot discard staged file. Unstage first with 'u'.")
}

/// The question before discarding a whole file: its changes for a tracked
/// file, the file itself for an untracked one.
pub fn discard_file_prompt(path: &str, context: FileContext) -> (prompt: String)
    ensures
        prompt@ == if context == FileContext::Untracked {
            "Delete untracked file '"@ + path@ + "'? (Cannot be undone)"@
        } else {
            "Discard all changes to '"@ + path@ + "'?"@
        },
{
    match context {
        FileContext::Untracked => {
            let mut prompt = owned("Delete untracked file '");
            push_str(&mut prompt, path);
            push_str(&mut prompt, "'? (Cannot be undone)");
            prompt
        },
        _ => {
            let mut prompt = owned("Discard all changes to '");
            push_str(&mut prompt, path);
            push_str(&mut prompt, "'?");
            prompt
        },
    }
}

/// The question before discarding a hunk, naming its old line range.
pub fn discard_hunk_prompt(path: &str, old_start: u32, old_lines: u32) -> (prompt: String)
    ensures
        prompt@ == "Discard hunk in '"@ + path@ + "' (lines "@ + decimal(old_start as nat) + "-"@ + decimal(
            (old_start + old_lines) as nat,
        ) + ")?"@,
{
    let mut prompt = owned("Discard hunk in '");
    push_str(&mut prompt, path);
    push_str(&mut prompt, "' (lines ");
    push_decimal(&mut prompt, old_start as u64);
    push_str(&mut prompt, "-");
    push_decimal(&mut prompt, old_start as u64 + old_lines as u64);
    push_str(&mut prompt, ")?");
    prompt
}

/// The hunk a discard acts on: the one under the cursor, else the file's
/// selected hunk.
pub fn discard_hunk_index(cursor: Option<SelectionCursor>, current_hunk: usize) -> (index: usize)
    ensures
        index == match cursor {
            Some(SelectionCursor::Hunk { hunk_index, .. }) => hunk_index,
            _ => current_hunk,
        },
{
    match cursor {
        Some(SelectionCursor::Hunk { hunk_index, .. }) => hunk_index,
        _ => current_hunk,
    }
}

/// The context a diff widens to: three lines more.
pub fn widened_context(current: usize) -> (widened: usize)
    requires
        current + 3 <= usize::MAX,
    ensures
        widened == current + 3,
{
    current + 3
}

/// The context a diff narrows to: three lines less, and never to three
/// lines or fewer from there; none when it is already at three or fewer.
pub fn narrowed_context(current: usize) -> (narrowed: Option<usize>)
    ensures
        current > 3 ==> narrowed == Some((current - 3) as usize),
        current <= 3 ==> narrowed is None,
{
    if current > 3 {
        Some(current - 3)
    } else {
        None
    }
}

/// A regenerated diff with its adjacent hunks merged, where its hunks are
/// in git's order; as it came otherwise.
pub fn merge_regenerated(diff: Diff) -> (merged: Diff)
    ensures
        hunks_in_order(diff@.hunks) ==> merged@ == (DiffModel { hunks: merge_all(diff@.hunks), ..diff@ }),
        !hunks_in_order(diff@.hunks) ==> merged@ == diff@,
{
    if hunks_are_ordered(&diff.hunks) {
        merge_adjacent_hunks(diff)
    } else {
        diff
    }
}

} // verus!
