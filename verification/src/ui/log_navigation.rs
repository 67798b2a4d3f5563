use vstd::prelude::*;
use std::collections::{HashMap, HashSet};
use crate::diff::Diff;
use crate::log::{LogData, LogEntry};
use crate::ui::log_view::{commit_metadata_line_count, metadata_line_count_spec};
use crate::repository::CommitFileChange;

verus! {

#[derive(Debug, Clone, Copy, PartialEq, Eq, Structural)]
pub enum LogCursor {
    Commit { index: usize },
    File { commit_index: usize, file_index: usize },
    Hunk { commit_index: usize, file_index: usize, hunk_index: usize },
}

/// Expansion state for a single commit in the log
#[derive(Debug)]
pub struct CommitExpansion {
    pub expanded: bool,
    pub files: Vec<CommitFileChange>,
    pub file_diffs: HashMap<usize, Diff>,
    pub expanded_files: HashSet<usize>,
    pub collapsed_hunks: HashMap<usize, HashSet<usize>>,
}


/// What the log needs loaded to carry out an expansion.
#[derive(Debug, Clone, Copy, PartialEq, Eq, Structural)]
pub enum ExpansionRequest {
    /// Nothing to load: the expansion was done (or there was nothing to do).
    Nothing,
    /// The changed files of commit `commit_index` are needed.
    LoadCommitFiles { commit_index: usize },
    /// The diff of file `file_index` of commit `commit_index` is needed.
    LoadFileDiff { commit_index: usize, file_index: usize },
}

impl CommitExpansion {
    /// A freshly loaded, expanded commit with its changed files.
    pub fn with_files(files: Vec<CommitFileChange>) -> (expansion: Self)
        ensures
            expansion.expanded,
            expansion.files == files,
            expansion.file_diffs@ == Map::<usize, Diff>::empty(),
            expansion.expanded_files@ == Set::<usize>::empty(),
            expansion.collapsed_hunks@ == Map::<usize, HashSet<usize>>::empty(),
    {
        CommitExpansion {
            expanded: true,
            files,
            file_diffs: HashMap::new(),
            expanded_files: HashSet::new(),
            collapsed_hunks: HashMap::new(),
        }
    }
}

/// The mathematical state of the log view's navigation.
pub struct LogNavigationModel {
    pub cursor: Option<LogCursor>,
    pub expansions: Map<usize, CommitExpansion>,
    pub scroll_offset: usize,
    pub viewport_height: usize,
    pub max_scroll_offset: usize,
    pub manual_scroll_active: bool,
}

pub struct LogNavigationState {
    pub cursor: Option<LogCursor>,
    expansions: HashMap<usize, CommitExpansion>,
    scroll_offset: usize,
    viewport_height: usize,
    max_scroll_offset: usize,
    manual_scroll_active: bool,
}

impl View for LogNavigationState {
    type V = LogNavigationModel;

    closed spec fn view(&self) -> LogNavigationModel {
        LogNavigationModel {
            cursor: self.cursor,
            expansions: self.expansions@,
            scroll_offset: self.scroll_offset,
            viewport_height: self.viewport_height,
            max_scroll_offset: self.max_scroll_offset,
            manual_scroll_active: self.manual_scroll_active,
        }
    }
}

/// The number of files listed for commit `i` (none without an expansion).
pub open spec fn files_in(exps: Map<usize, CommitExpansion>, i: usize) -> nat {
    if exps.contains_key(i) {
        exps[i].files@.len()
    } else {
        0
    }
}

/// Commit `i` is expanded and lists at least one file.
pub open spec fn shows_files(exps: Map<usize, CommitExpansion>, i: usize) -> bool {
    exps.contains_key(i) && exps[i].expanded && exps[i].files@.len() > 0
}

/// The number of hunks of the loaded diff of file `f` of commit `i`, if one is loaded.
pub open spec fn file_hunks(exps: Map<usize, CommitExpansion>, i: usize, f: usize) -> Option<nat> {
    if exps.contains_key(i) && exps[i].file_diffs@.contains_key(f) {
        Some(exps[i].file_diffs@[f].hunks@.len())
    } else {
        None
    }
}

/// File `f` of commit `i` is expanded and its loaded diff has hunks.
pub open spec fn shows_hunks(exps: Map<usize, CommitExpansion>, i: usize, f: usize) -> bool {
    &&& exps.contains_key(i)
    &&& exps[i].expanded_files@.contains(f)
    &&& file_hunks(exps, i, f) matches Some(n) && n > 0
}

/// The number of hunks shown for file `f` of commit `i`.
pub open spec fn hunks_shown(exps: Map<usize, CommitExpansion>, i: usize, f: usize) -> nat {
    match file_hunks(exps, i, f) {
        Some(n) => n,
        None => 0,
    }
}

/// The last row the cursor can reach inside commit `i`: its last hunk when
/// its last file shows hunks, its last file when it shows files, the commit
/// row otherwise.
pub open spec fn last_item_spec(exps: Map<usize, CommitExpansion>, i: usize) -> LogCursor {
    if shows_files(exps, i) {
        let last_file = (exps[i].files@.len() - 1) as usize;
        if shows_hunks(exps, i, last_file) {
            LogCursor::Hunk {
                commit_index: i,
                file_index: last_file,
                hunk_index: (hunks_shown(exps, i, last_file) - 1) as usize,
            }
        } else {
            LogCursor::File { commit_index: i, file_index: last_file }
        }
    } else {
        LogCursor::Commit { index: i }
    }
}

/// The row after `c` in a log of `n` commits: into a commit's files or a
/// file's hunks where they are shown, else on to the next file or commit;
/// the last row stays where it is.
pub open spec fn next_cursor_spec(exps: Map<usize, CommitExpansion>, n: nat, c: LogCursor) -> LogCursor {
    match c {
        LogCursor::Commit { index } => {
            if shows_files(exps, index) {
                LogCursor::File { commit_index: index, file_index: 0 }
            } else if index + 1 < n {
                LogCursor::Commit { index: (index + 1) as usize }
            } else {
                c
            }
        },
        LogCursor::File { commit_index, file_index } => {
            if shows_hunks(exps, commit_index, file_index) {
                LogCursor::Hunk { commit_index, file_index, hunk_index: 0 }
            } else if file_index + 1 < files_in(exps, commit_index) {
                LogCursor::File { commit_index, file_index: (file_index + 1) as usize }
            } else if commit_index + 1 < n {
                LogCursor::Commit { index: (commit_index + 1) as usize }
            } else {
                c
            }
        },
        LogCursor::Hunk { commit_index, file_index, hunk_index } => {
            if file_hunks(exps, commit_index, file_index) matches Some(t) && hunk_index + 1 < t {
                LogCursor::Hunk { commit_index, file_index, hunk_index: (hunk_index + 1) as usize }
            } else if file_index + 1 < files_in(exps, commit_index) {
                LogCursor::File { commit_index, file_index: (file_index + 1) as usize }
            } else if commit_index + 1 < n {
                LogCursor::Commit { index: (commit_index + 1) as usize }
            } else {
                c
            }
        },
    }
}

/// The row before `c`: the last row of the previous commit or file, the
/// file of a first hunk, the commit of a first file; the first commit stays.
pub open spec fn previous_cursor_spec(exps: Map<usize, CommitExpansion>, c: LogCursor) -> LogCursor {
    match c {
        LogCursor::Commit { index } => {
            if index == 0 {
                c
            } else {
                last_item_spec(exps, (index - 1) as usize)
            }
        },
        LogCursor::File { commit_index, file_index } => {
            if file_index == 0 {
                LogCursor::Commit { index: commit_index }
            } else if shows_hunks(exps, commit_index, (file_index - 1) as usize) {
                LogCursor::Hunk {
                    commit_index,
                    file_index: (file_index - 1) as usize,
                    hunk_index: (hunks_shown(exps, commit_index, (file_index - 1) as usize) - 1) as usize,
                }
            } else {
                LogCursor::File { commit_index, file_index: (file_index - 1) as usize }
            }
        },
        LogCursor::Hunk { commit_index, file_index, hunk_index } => {
            if hunk_index > 0 {
                LogCursor::Hunk { commit_index, file_index, hunk_index: (hunk_index - 1) as usize }
            } else {
                LogCursor::File { commit_index, file_index }
            }
        },
    }
}

/// The cursor names a row that is shown in a log of `n` commits.
pub open spec fn valid_log_cursor(exps: Map<usize, CommitExpansion>, n: nat, c: LogCursor) -> bool {
    match c {
        LogCursor::Commit { index } => index < n,
        LogCursor::File { commit_index, file_index } => {
            &&& commit_index < n
            &&& shows_files(exps, commit_index)
            &&& file_index < files_in(exps, commit_index)
        },
        LogCursor::Hunk { commit_index, file_index, hunk_index } => {
            &&& commit_index < n
            &&& shows_files(exps, commit_index)
            &&& file_index < files_in(exps, commit_index)
            &&& shows_hunks(exps, commit_index, file_index)
            &&& hunk_index < hunks_shown(exps, commit_index, file_index)
        },
    }
}

/// The cursor after one step down: onto the first commit when there was
/// none and the log has commits.
pub open spec fn step_down(exps: Map<usize, CommitExpansion>, n: nat, cursor: Option<LogCursor>) -> Option<LogCursor> {
    match cursor {
        Some(c) => Some(next_cursor_spec(exps, n, c)),
        None => if n > 0 {
            Some(LogCursor::Commit { index: 0 })
        } else {
            None
        },
    }
}

/// The cursor after one step up.
pub open spec fn step_up(exps: Map<usize, CommitExpansion>, n: nat, cursor: Option<LogCursor>) -> Option<LogCursor> {
    match cursor {
        Some(c) => Some(previous_cursor_spec(exps, c)),
        None => if n > 0 {
            Some(LogCursor::Commit { index: 0 })
        } else {
            None
        },
    }
}

/// Up to `k` steps down, stopping early where a step no longer moves.
pub open spec fn steps_down(exps: Map<usize, CommitExpansion>, n: nat, cursor: Option<LogCursor>, k: nat) -> Option<LogCursor>
    decreases k,
{
    if k == 0 || step_down(exps, n, cursor) == cursor {
        cursor
    } else {
        steps_down(exps, n, step_down(exps, n, cursor), (k - 1) as nat)
    }
}

/// Up to `k` steps up, stopping early where a step no longer moves.
pub open spec fn steps_up(exps: Map<usize, CommitExpansion>, n: nat, cursor: Option<LogCursor>, k: nat) -> Option<LogCursor>
    decreases k,
{
    if k == 0 || step_up(exps, n, cursor) == cursor {
        cursor
    } else {
        steps_up(exps, n, step_up(exps, n, cursor), (k - 1) as nat)
    }
}

/// The number of cursor moves a page scroll makes: the viewport height less
/// two, at least one.
pub open spec fn page_size(viewport_height: usize) -> nat {
    if viewport_height > 3 {
        (viewport_height - 2) as nat
    } else {
        1
    }
}

/// Hunk `h` of file `f` is collapsed in this expansion.
pub open spec fn hunk_collapsed_in(exp: CommitExpansion, f: usize, h: usize) -> bool {
    exp.collapsed_hunks@.contains_key(f) && exp.collapsed_hunks@[f]@.contains(h)
}

/// The cursor `ensure_cursor_valid` leaves: none for an empty log, the last
/// commit for a commit row past the end, the first commit for none.
pub open spec fn valid_cursor_for(n: nat, cursor: Option<LogCursor>) -> Option<LogCursor> {
    if n == 0 {
        None
    } else {
        match cursor {
            Some(LogCursor::Commit { index }) => if index >= n {
                Some(LogCursor::Commit { index: (n - 1) as usize })
            } else {
                cursor
            },
            None => Some(LogCursor::Commit { index: 0 }),
            _ => cursor,
        }
    }
}

/// The cursor after moving up the hierarchy: hunk to file, file to commit.
pub open spec fn up_hierarchy(cursor: Option<LogCursor>) -> Option<LogCursor> {
    match cursor {
        Some(LogCursor::Hunk { commit_index, file_index, .. }) => Some(LogCursor::File { commit_index, file_index }),
        Some(LogCursor::File { commit_index, .. }) => Some(LogCursor::Commit { index: commit_index }),
        _ => cursor,
    }
}

/// `after` is `before` with file `f` no longer expanded.
pub open spec fn file_collapsed_from(before: CommitExpansion, after: CommitExpansion, f: usize) -> bool {
    &&& after.expanded == before.expanded
    &&& after.files == before.files
    &&& after.file_diffs == before.file_diffs
    &&& after.collapsed_hunks == before.collapsed_hunks
    &&& after.expanded_files@ == before.expanded_files@.remove(f)
}

/// The collapsed hunks recorded for file `f`, none where nothing is recorded.
pub open spec fn collapsed_set(exp: CommitExpansion, f: usize) -> Set<usize> {
    if exp.collapsed_hunks@.contains_key(f) {
        exp.collapsed_hunks@[f]@
    } else {
        Set::empty()
    }
}

/// `after` is `before` with hunk `h` of file `f` flipped between collapsed
/// and expanded, and a (possibly empty) record kept for file `f`.
pub open spec fn hunk_toggled_from(before: CommitExpansion, after: CommitExpansion, f: usize, h: usize) -> bool {
    &&& after.expanded == before.expanded
    &&& after.files == before.files
    &&& after.file_diffs == before.file_diffs
    &&& after.expanded_files == before.expanded_files
    &&& after.collapsed_hunks@.dom() == before.collapsed_hunks@.dom().insert(f)
    &&& forall|g: usize| #![trigger after.collapsed_hunks@[g]]
        g != f && before.collapsed_hunks@.contains_key(g) ==> after.collapsed_hunks@[g] == before.collapsed_hunks@[g]
    &&& after.collapsed_hunks@[f]@ == if collapsed_set(before, f).contains(h) {
        collapsed_set(before, f).remove(h)
    } else {
        collapsed_set(before, f).insert(h)
    }
}

/// `after` holds the same expansions as `before` but for commit `i`, whose
/// expansion (where there is one) is related to the old one by `changed`.
pub open spec fn only_expansion_changed(
    before: Map<usize, CommitExpansion>,
    after: Map<usize, CommitExpansion>,
    i: usize,
) -> bool {
    &&& after.dom() == before.dom()
    &&& forall|k: usize| #![trigger after[k]] k != i && before.contains_key(k) ==> after[k] == before[k]
}


/// The rows one hunk of file `f` takes in the log: its header, its lines
/// unless it is collapsed, and a separator when the file has several hunks.
pub open spec fn hunk_rows(exp: CommitExpansion, f: usize, diff: Diff, h: int) -> nat {
    1 + (if hunk_collapsed_in(exp, f, h as usize) {
        0nat
    } else {
        diff.hunks@[h].lines@.len()
    }) + (if diff.hunks@.len() > 1 {
        1nat
    } else {
        0nat
    })
}

/// The rows of the first `k` hunks of file `f`.
pub open spec fn hunk_rows_before(exp: CommitExpansion, f: usize, diff: Diff, k: int) -> nat
    decreases k,
{
    if k <= 0 {
        0
    } else {
        hunk_rows_before(exp, f, diff, k - 1) + hunk_rows(exp, f, diff, k - 1)
    }
}

/// File `f` shows its diff: it is expanded and its diff is loaded.
pub open spec fn file_diff_shown(exp: CommitExpansion, f: usize) -> bool {
    exp.expanded_files@.contains(f) && exp.file_diffs@.contains_key(f)
}

/// The rows file `f` takes: its own row, then its hunks where it shows them.
pub open spec fn file_rows(exp: CommitExpansion, f: int) -> nat {
    1 + if file_diff_shown(exp, f as usize) {
        let diff = exp.file_diffs@[f as usize];
        hunk_rows_before(exp, f as usize, diff, diff.hunks@.len() as int)
    } else {
        0nat
    }
}

/// The rows of the first `k` files of a commit.
pub open spec fn file_rows_before(exp: CommitExpansion, k: int) -> nat
    decreases k,
{
    if k <= 0 {
        0
    } else {
        file_rows_before(exp, k - 1) + file_rows(exp, k - 1)
    }
}

/// The rows commit `i` takes: its own row, then, when it is expanded, its
/// metadata block and its files.
pub open spec fn commit_rows(exps: Map<usize, CommitExpansion>, entries: Seq<LogEntry>, i: int) -> nat {
    1 + if exps.contains_key(i as usize) && exps[i as usize].expanded {
        metadata_line_count_spec(&entries[i]) + file_rows_before(exps[i as usize], exps[i as usize].files@.len() as int)
    } else {
        0nat
    }
}

/// The rows of the first `k` commits.
pub open spec fn commit_rows_before(exps: Map<usize, CommitExpansion>, entries: Seq<LogEntry>, k: int) -> nat
    decreases k,
{
    if k <= 0 {
        0
    } else {
        commit_rows_before(exps, entries, k - 1) + commit_rows(exps, entries, k - 1)
    }
}

/// The row of the log list that the cursor names, where it names one that is shown.
pub open spec fn flat_index_spec(
    exps: Map<usize, CommitExpansion>,
    entries: Seq<LogEntry>,
    cursor: Option<LogCursor>,
) -> Option<nat> {
    match cursor {
        None => None,
        Some(LogCursor::Commit { index }) => if index < entries.len() {
            Some(commit_rows_before(exps, entries, index as int))
        } else {
            None
        },
        Some(LogCursor::File { commit_index: ci, file_index: fi }) => {
            if ci < entries.len() && exps.contains_key(ci) && exps[ci].expanded && fi < exps[ci].files@.len() {
                Some(commit_rows_before(exps, entries, ci as int) + 1 + metadata_line_count_spec(&entries[ci as int])
                    + file_rows_before(exps[ci], fi as int))
            } else {
                None
            }
        },
        Some(LogCursor::Hunk { commit_index: ci, file_index: fi, hunk_index: hi }) => {
            if ci < entries.len() && exps.contains_key(ci) && exps[ci].expanded && fi < exps[ci].files@.len()
                && file_diff_shown(exps[ci], fi) && hi < exps[ci].file_diffs@[fi].hunks@.len() {
                Some(commit_rows_before(exps, entries, ci as int) + 1 + metadata_line_count_spec(&entries[ci as int])
                    + file_rows_before(exps[ci], fi as int) + 1 + hunk_rows_before(
                    exps[ci],
                    fi,
                    exps[ci].file_diffs@[fi],
                    hi as int,
                ))
            } else {
                None
            }
        },
    }
}

proof fn lemma_hunk_rows_monotone(exp: CommitExpansion, f: usize, diff: Diff, i: int, j: int)
    requires
        0 <= i <= j,
    ensures
        hunk_rows_before(exp, f, diff, i) <= hunk_rows_before(exp, f, diff, j),
    decreases j - i,
{
    if i < j {
        lemma_hunk_rows_monotone(exp, f, diff, i, j - 1);
    }
}

proof fn lemma_file_rows_monotone(exp: CommitExpansion, i: int, j: int)
    requires
        0 <= i <= j,
    ensures
        file_rows_before(exp, i) <= file_rows_before(exp, j),
    decreases j - i,
{
    if i < j {
        lemma_file_rows_monotone(exp, i, j - 1);
    }
}

proof fn lemma_commit_rows_monotone(exps: Map<usize, CommitExpansion>, entries: Seq<LogEntry>, i: int, j: int)
    requires
        0 <= i <= j,
    ensures
        commit_rows_before(exps, entries, i) <= commit_rows_before(exps, entries, j),
    decreases j - i,
{
    if i < j {
        lemma_commit_rows_monotone(exps, entries, i, j - 1);
    }
}

/// The commit a cursor lies in.
pub open spec fn cursor_commit(c: LogCursor) -> usize {
    match c {
        LogCursor::Commit { index } => index,
        LogCursor::File { commit_index, .. } => commit_index,
        LogCursor::Hunk { commit_index, .. } => commit_index,
    }
}

proof fn lemma_cursor_lengths_fit(exps: Map<usize, CommitExpansion>, c: LogCursor)
    ensures
        exps.contains_key(cursor_commit(c)) ==> exps[cursor_commit(c)].files@.len() <= usize::MAX,
        match c {
            LogCursor::Hunk { commit_index, file_index, .. } => exps.contains_key(commit_index)
                && exps[commit_index].file_diffs@.contains_key(file_index) ==> exps[commit_index].file_diffs@[file_index].hunks@.len()
                <= usize::MAX,
            LogCursor::File { commit_index, file_index } => exps.contains_key(commit_index)
                && exps[commit_index].file_diffs@.contains_key(file_index) ==> exps[commit_index].file_diffs@[file_index].hunks@.len()
                <= usize::MAX,
            _ => true,
        },
{
    let ci = cursor_commit(c);
    if exps.contains_key(ci) {
        assert(exps[ci].files@.len() == exps[ci].files.len());
    }
    match c {
        LogCursor::Hunk { commit_index, file_index, .. } => {
            if exps.contains_key(commit_index) && exps[commit_index].file_diffs@.contains_key(file_index) {
                let d = exps[commit_index].file_diffs@[file_index];
                assert(d.hunks@.len() == d.hunks.len());
            }
        },
        LogCursor::File { commit_index, file_index } => {
            if exps.contains_key(commit_index) && exps[commit_index].file_diffs@.contains_key(file_index) {
                let d = exps[commit_index].file_diffs@[file_index];
                assert(d.hunks@.len() == d.hunks.len());
            }
            if file_index > 0 && exps.contains_key(commit_index)
                && exps[commit_index].file_diffs@.contains_key((file_index - 1) as usize) {
                let d = exps[commit_index].file_diffs@[(file_index - 1) as usize];
                assert(d.hunks@.len() == d.hunks.len());
            }
        },
        _ => {},
    }
}

/// Moving down and then back up returns to the same row, for every row that
/// is shown and is not the last one.
pub proof fn lemma_log_up_undoes_down(exps: Map<usize, CommitExpansion>, n: nat, c: LogCursor)
    requires
        n <= usize::MAX,
        valid_log_cursor(exps, n, c),
        next_cursor_spec(exps, n, c) != c,
    ensures
        previous_cursor_spec(exps, next_cursor_spec(exps, n, c)) == c,
{
    let next = next_cursor_spec(exps, n, c);
    lemma_cursor_lengths_fit(exps, c);
    match c {
        LogCursor::Commit { index } => {
            if !shows_files(exps, index) {
                assert(next == LogCursor::Commit { index: (index + 1) as usize });
                assert(((index + 1) as usize - 1) as usize == index);
            }
        },
        LogCursor::File { commit_index, file_index } => {
            if !shows_hunks(exps, commit_index, file_index) {
                if file_index + 1 < files_in(exps, commit_index) {
                    assert(((file_index + 1) as usize - 1) as usize == file_index);
                } else {
                    assert(((commit_index + 1) as usize - 1) as usize == commit_index);
                    assert(file_index == exps[commit_index].files@.len() - 1);
                }
            }
        },
        LogCursor::Hunk { commit_index, file_index, hunk_index } => {
            let t = hunks_shown(exps, commit_index, file_index);
            if hunk_index + 1 < t {
                assert(((hunk_index + 1) as usize - 1) as usize == hunk_index);
            } else if file_index + 1 < files_in(exps, commit_index) {
                assert(((file_index + 1) as usize - 1) as usize == file_index);
                assert(hunk_index == t - 1);
            } else {
                assert(((commit_index + 1) as usize - 1) as usize == commit_index);
                assert(file_index == exps[commit_index].files@.len() - 1);
                assert(hunk_index == t - 1);
            }
        },
    }
}

/// Moving up and then back down returns to the same row, for every row that
/// is shown and is not the first one.
pub proof fn lemma_log_down_undoes_up(exps: Map<usize, CommitExpansion>, n: nat, c: LogCursor)
    requires
        n <= usize::MAX,
        valid_log_cursor(exps, n, c),
        previous_cursor_spec(exps, c) != c,
    ensures
        next_cursor_spec(exps, n, previous_cursor_spec(exps, c)) == c,
{
    lemma_cursor_lengths_fit(exps, c);
    match c {
        LogCursor::Commit { index } => {
            let p = (index - 1) as usize;
            assert((p + 1) as usize == index);
            assert(previous_cursor_spec(exps, c) == last_item_spec(exps, p));
            if shows_files(exps, p) {
                assert(exps[p].files@.len() == exps[p].files.len());
                let lf = (exps[p].files@.len() - 1) as usize;
                assert(!(lf + 1 < files_in(exps, p)));
                if shows_hunks(exps, p, lf) {
                    let d = exps[p].file_diffs@[lf];
                    assert(d.hunks@.len() == d.hunks.len());
                    let h = (d.hunks@.len() - 1) as usize;
                    assert(file_hunks(exps, p, lf) == Some(d.hunks@.len()));
                    assert(last_item_spec(exps, p) == LogCursor::Hunk { commit_index: p, file_index: lf, hunk_index: h });
                    assert(!(h + 1 < d.hunks@.len()));
                    assert(next_cursor_spec(exps, n, LogCursor::Hunk { commit_index: p, file_index: lf, hunk_index: h }) == c);
                } else {
                    assert(last_item_spec(exps, p) == LogCursor::File { commit_index: p, file_index: lf });
                    assert(next_cursor_spec(exps, n, LogCursor::File { commit_index: p, file_index: lf }) == c);
                }
            } else {
                assert(last_item_spec(exps, p) == LogCursor::Commit { index: p });
                assert(next_cursor_spec(exps, n, LogCursor::Commit { index: p }) == c);
            }
        },
        LogCursor::File { commit_index, file_index } => {
            if file_index == 0 {
                assert(next_cursor_spec(exps, n, LogCursor::Commit { index: commit_index }) == c);
            } else {
                let pf = (file_index - 1) as usize;
                assert((pf + 1) as usize == file_index);
                assert(file_index < files_in(exps, commit_index));
                if shows_hunks(exps, commit_index, pf) {
                    let d = exps[commit_index].file_diffs@[pf];
                    assert(d.hunks@.len() == d.hunks.len());
                    let h = (d.hunks@.len() - 1) as usize;
                    assert(file_hunks(exps, commit_index, pf) == Some(d.hunks@.len()));
                    assert(!(h + 1 < d.hunks@.len()));
                    assert(next_cursor_spec(exps, n, LogCursor::Hunk { commit_index, file_index: pf, hunk_index: h })
                        == c);
                } else {
                    assert(next_cursor_spec(exps, n, LogCursor::File { commit_index, file_index: pf }) == c);
                }
            }
        },
        LogCursor::Hunk { commit_index, file_index, hunk_index } => {
            if hunk_index > 0 {
                assert(((hunk_index - 1) as usize + 1) as usize == hunk_index);
            } else {
                assert(next_cursor_spec(exps, n, LogCursor::File { commit_index, file_index }) == c);
            }
        },
    }
}

/// A step in either direction from a row that is shown lands on a row that is shown.
pub proof fn lemma_log_steps_stay_valid(exps: Map<usize, CommitExpansion>, n: nat, c: LogCursor)
    requires
        n <= usize::MAX,
        valid_log_cursor(exps, n, c),
    ensures
        valid_log_cursor(exps, n, next_cursor_spec(exps, n, c)),
        valid_log_cursor(exps, n, previous_cursor_spec(exps, c)),
{
}

/// The row of every shown cursor is within the list's rows.
pub proof fn lemma_flat_index_of_valid_cursor(
    exps: Map<usize, CommitExpansion>,
    entries: Seq<LogEntry>,
    c: LogCursor,
)
    requires
        valid_log_cursor(exps, entries.len(), c),
    ensures
        flat_index_spec(exps, entries, Some(c)) matches Some(i) && i < commit_rows_before(
            exps,
            entries,
            entries.len() as int,
        ),
{
    let ci = cursor_commit(c);
    lemma_commit_rows_monotone(exps, entries, ci + 1, entries.len() as int);
    match c {
        LogCursor::Commit { index } => {},
        LogCursor::File { commit_index, file_index } => {
            let exp = exps[commit_index];
            lemma_file_rows_monotone(exp, file_index + 1, exp.files@.len() as int);
        },
        LogCursor::Hunk { commit_index, file_index, hunk_index } => {
            let exp = exps[commit_index];
            let d = exp.file_diffs@[file_index];
            lemma_file_rows_monotone(exp, file_index + 1, exp.files@.len() as int);
            lemma_hunk_rows_monotone(exp, file_index, d, hunk_index + 1, d.hunks@.len() as int);
        },
    }
}


/// `after` is `before` with only its expanded flag set to `expanded`.
pub open spec fn expanded_set_from(before: CommitExpansion, after: CommitExpansion, expanded: bool) -> bool {
    &&& after.expanded == expanded
    &&& after.files == before.files
    &&& after.file_diffs == before.file_diffs
    &&& after.expanded_files == before.expanded_files
    &&& after.collapsed_hunks == before.collapsed_hunks
}

/// `after` is `before` with file `f` expanded and, when `diff` is given,
/// that diff loaded for it.
pub open spec fn file_expanded_from(before: CommitExpansion, after: CommitExpansion, f: usize, diff: Option<Diff>) -> bool {
    &&& after.expanded == before.expanded
    &&& after.files == before.files
    &&& after.file_diffs@ == match diff {
        Some(d) => before.file_diffs@.insert(f, d),
        None => before.file_diffs@,
    }
    &&& after.expanded_files@ == before.expanded_files@.insert(f)
    &&& after.collapsed_hunks == before.collapsed_hunks
}

/// `HashMap::get_mut`: a mutable borrow of the expansion of commit `key`, if
/// there is one; what is written through it is what the map holds afterwards.
#[verifier::external_body]
fn expansion_entry(map: &mut HashMap<usize, CommitExpansion>, key: usize) -> (entry: Option<&mut CommitExpansion>)
    ensures
        old(map)@.contains_key(key) == entry is Some,
        entry is None ==> final(map)@ == old(map)@,
        entry matches Some(e) ==> *e == old(map)@[key] && final(map)@ == old(map)@.insert(key, *final(e)),
{
    map.get_mut(&key)
}

impl Default for LogNavigationState {
    fn default() -> (state: Self)
        ensures
            state@.cursor == Some(LogCursor::Commit { index: 0 }),
            state@.expansions == Map::<usize, CommitExpansion>::empty(),
            state@.scroll_offset == 0,
            state@.viewport_height == 1,
            state@.max_scroll_offset == 0,
            !state@.manual_scroll_active,
    {
        Self::new()
    }
}

/// What toggling the row under the cursor does, in a log of `n` commits:
/// the cursor and the viewport stay; a commit's file list opens or closes,
/// a file's diff opens or closes, or a hunk flips between collapsed and
/// expanded; where the commit's files or the file's diff are not loaded,
/// nothing changes and `request` names what to load.
pub open spec fn toggle_outcome(
    before: LogNavigationModel,
    after: LogNavigationModel,
    request: ExpansionRequest,
    n: nat,
) -> bool {
    &&& (after.cursor == before.cursor)
    &&& (after.scroll_offset == before.scroll_offset)
    &&& (after.viewport_height == before.viewport_height)
    &&& (after.max_scroll_offset == before.max_scroll_offset)
    &&& (match before.cursor {
        None => request == ExpansionRequest::Nothing && after == before,
        Some(LogCursor::Commit { index }) => {
            if before.expansions.contains_key(index) {
                &&& request == ExpansionRequest::Nothing
                &&& only_expansion_changed(before.expansions, after.expansions, index)
                &&& expanded_set_from(
                    before.expansions[index],
                    after.expansions[index],
                    !before.expansions[index].expanded,
                )
                &&& after.manual_scroll_active == before.manual_scroll_active
            } else {
                &&& after == before
                &&& request == if index < n {
                    ExpansionRequest::LoadCommitFiles { commit_index: index }
                } else {
                    ExpansionRequest::Nothing
                }
            }
        },
        Some(LogCursor::File { commit_index, file_index }) => {
            let exps = before.expansions;
            if exps.contains_key(commit_index) && exps[commit_index].expanded_files@.contains(file_index) {
                &&& request == ExpansionRequest::Nothing
                &&& only_expansion_changed(exps, after.expansions, commit_index)
                &&& file_collapsed_from(exps[commit_index], after.expansions[commit_index], file_index)
                &&& !after.manual_scroll_active
            } else if exps.contains_key(commit_index) && exps[commit_index].file_diffs@.contains_key(
                file_index,
            ) {
                &&& request == ExpansionRequest::Nothing
                &&& only_expansion_changed(exps, after.expansions, commit_index)
                &&& file_expanded_from(
                    exps[commit_index],
                    after.expansions[commit_index],
                    file_index,
                    None,
                )
                &&& after.manual_scroll_active == before.manual_scroll_active
            } else {
                &&& after == before
                &&& request == if commit_index < n && exps.contains_key(commit_index)
                    && file_index < exps[commit_index].files@.len() {
                    ExpansionRequest::LoadFileDiff { commit_index, file_index }
                } else {
                    ExpansionRequest::Nothing
                }
            }
        },
        Some(LogCursor::Hunk { commit_index, file_index, hunk_index }) => {
            &&& request == ExpansionRequest::Nothing
            &&& only_expansion_changed(before.expansions, after.expansions, commit_index)
            &&& before.expansions.contains_key(commit_index) ==> hunk_toggled_from(
                before.expansions[commit_index],
                after.expansions[commit_index],
                file_index,
                hunk_index,
            )
            &&& !after.manual_scroll_active
        },
    })
}

impl LogNavigationState {
    pub fn new() -> (state: Self)
        ensures
            state@.cursor == Some(LogCursor::Commit { index: 0 }),
            state@.expansions == Map::<usize, CommitExpansion>::empty(),
            state@.scroll_offset == 0,
            state@.viewport_height == 1,
            state@.max_scroll_offset == 0,
            !state@.manual_scroll_active,
    {
        Self {
            cursor: Some(LogCursor::Commit { index: 0 }),
            expansions: HashMap::new(),
            scroll_offset: 0,
            viewport_height: 1,
            max_scroll_offset: 0,
            manual_scroll_active: false,
        }
    }

    pub fn current_cursor(&self) -> (cursor: Option<LogCursor>)
        ensures
            cursor == self@.cursor,
    {
        self.cursor
    }

    pub fn get_expansion(&self, commit_index: usize) -> (expansion: Option<&CommitExpansion>)
        ensures
            match expansion {
                Some(e) => self@.expansions.contains_key(commit_index) && *e == self@.expansions[commit_index],
                None => !self@.expansions.contains_key(commit_index),
            },
    {
        self.expansions.get(&commit_index)
    }

    pub fn set_expansion(&mut self, commit_index: usize, expansion: CommitExpansion)
        ensures
            final(self)@ == (LogNavigationModel {
                expansions: old(self)@.expansions.insert(commit_index, expansion),
                ..old(self)@
            }),
    {
        self.expansions.insert(commit_index, expansion);
    }

    pub fn get_expansion_mut(&mut self, commit_index: usize) -> (expansion: Option<&mut CommitExpansion>)
        ensures
            old(self)@.expansions.contains_key(commit_index) == expansion is Some,
            expansion is None ==> final(self)@ == old(self)@,
            expansion matches Some(e) ==> *e == old(self)@.expansions[commit_index] && final(self)@ == (
            LogNavigationModel {
                expansions: old(self)@.expansions.insert(commit_index, *final(e)),
                ..old(self)@
            }),
    {
        expansion_entry(&mut self.expansions, commit_index)
    }

    pub fn collapse_file(&mut self, commit_index: usize, file_index: usize)
        ensures
            only_expansion_changed(old(self)@.expansions, final(self)@.expansions, commit_index),
            old(self)@.expansions.contains_key(commit_index) ==> file_collapsed_from(
                old(self)@.expansions[commit_index],
                final(self)@.expansions[commit_index],
                file_index,
            ),
            final(self)@.cursor == match old(self)@.cursor {
                Some(LogCursor::Hunk { commit_index: c, file_index: f, .. }) => if c == commit_index && f
                    == file_index {
                    Some(LogCursor::File { commit_index, file_index })
                } else {
                    old(self)@.cursor
                },
                _ => old(self)@.cursor,
            },
            final(self)@.scroll_offset == old(self)@.scroll_offset,
            final(self)@.viewport_height == old(self)@.viewport_height,
            final(self)@.max_scroll_offset == old(self)@.max_scroll_offset,
            !final(self)@.manual_scroll_active,
    {
        self.clear_manual_scroll();
        let ghost before = self.expansions@;
        match self.expansions.remove(&commit_index) {
            Some(mut expansion) => {
                expansion.expanded_files.remove(&file_index);
                self.expansions.insert(commit_index, expansion);
                assert(self.expansions@.dom() =~= before.dom());
            },
            None => {
                assert(self.expansions@ =~= before);
            },
        }
        match self.cursor {
            Some(LogCursor::Hunk { commit_index: c, file_index: f, .. }) => {
                if c == commit_index && f == file_index {
                    self.cursor = Some(LogCursor::File { commit_index, file_index });
                }
            },
            _ => {},
        }
    }

    pub fn toggle_hunk_collapsed(&mut self, commit_index: usize, file_index: usize, hunk_index: usize)
        ensures
            only_expansion_changed(old(self)@.expansions, final(self)@.expansions, commit_index),
            old(self)@.expansions.contains_key(commit_index) ==> hunk_toggled_from(
                old(self)@.expansions[commit_index],
                final(self)@.expansions[commit_index],
                file_index,
                hunk_index,
            ),
            final(self)@.cursor == old(self)@.cursor,
            final(self)@.scroll_offset == old(self)@.scroll_offset,
            final(self)@.viewport_height == old(self)@.viewport_height,
            final(self)@.max_scroll_offset == old(self)@.max_scroll_offset,
            !final(self)@.manual_scroll_active,
    {
        self.clear_manual_scroll();
        let ghost before = self.expansions@;
        match self.expansions.remove(&commit_index) {
            Some(mut expansion) => {
                let ghost old_exp = expansion;
                let mut hunks = match expansion.collapsed_hunks.remove(&file_index) {
                    Some(set) => set,
                    None => HashSet::new(),
                };
                assert(hunks@ == collapsed_set(old_exp, file_index));
                if hunks.contains(&hunk_index) {
                    hunks.remove(&hunk_index);
                } else {
                    hunks.insert(hunk_index);
                }
                expansion.collapsed_hunks.insert(file_index, hunks);
                assert(expansion.collapsed_hunks@.dom() =~= old_exp.collapsed_hunks@.dom().insert(file_index));
                self.expansions.insert(commit_index, expansion);
                assert(self.expansions@.dom() =~= before.dom());
            },
            None => {
                assert(self.expansions@ =~= before);
            },
        }
    }

    /// Expands or collapses the row under the cursor: a commit's file list,
    /// a file's diff, or a hunk. Where the commit's files or the file's diff
    /// have not been loaded yet, nothing changes and the request says what
    /// to load; the loaded data is then handed to `set_expansion` or
    /// `attach_file_diff`.
    pub fn toggle_expansion(&mut self, log_data: &LogData) -> (request: ExpansionRequest)
        ensures
            toggle_outcome(old(self)@, final(self)@, request, log_data.entries@.len()),
    {
        let cursor = match self.cursor {
            Some(c) => c,
            None => return ExpansionRequest::Nothing,
        };
        let ghost before = self.expansions@;
        match cursor {
            LogCursor::Commit { index } => {
                match self.expansions.remove(&index) {
                    Some(mut expansion) => {
                        expansion.expanded = !expansion.expanded;
                        self.expansions.insert(index, expansion);
                        assert(self.expansions@.dom() =~= before.dom());
                        ExpansionRequest::Nothing
                    },
                    None => {
                        assert(self.expansions@ =~= before);
                        if index < log_data.entries.len() {
                            ExpansionRequest::LoadCommitFiles { commit_index: index }
                        } else {
                            ExpansionRequest::Nothing
                        }
                    },
                }
            },
            LogCursor::File { commit_index, file_index } => {
                if self.is_file_expanded(commit_index, file_index) {
                    self.collapse_file(commit_index, file_index);
                    return ExpansionRequest::Nothing;
                }
                match self.expansions.remove(&commit_index) {
                    Some(mut expansion) => {
                        if expansion.file_diffs.contains_key(&file_index) {
                            expansion.expanded_files.insert(file_index);
                            self.expansions.insert(commit_index, expansion);
                            assert(self.expansions@.dom() =~= before.dom());
                            ExpansionRequest::Nothing
                        } else {
                            let listed = file_index < expansion.files.len();
                            self.expansions.insert(commit_index, expansion);
                            assert(self.expansions@ =~= before);
                            if commit_index < log_data.entries.len() && listed {
                                ExpansionRequest::LoadFileDiff { commit_index, file_index }
                            } else {
                                ExpansionRequest::Nothing
                            }
                        }
                    },
                    None => {
                        assert(self.expansions@ =~= before);
                        ExpansionRequest::Nothing
                    },
                }
            },
            LogCursor::Hunk { commit_index, file_index, hunk_index } => {
                self.toggle_hunk_collapsed(commit_index, file_index, hunk_index);
                ExpansionRequest::Nothing
            },
        }
    }

    /// Stores a loaded diff for file `file_index` of commit `commit_index`
    /// and expands the file; nothing happens without an expansion for the commit.
    pub fn attach_file_diff(&mut self, commit_index: usize, file_index: usize, diff: Diff)
        ensures
            final(self)@.cursor == old(self)@.cursor,
            final(self)@.scroll_offset == old(self)@.scroll_offset,
            final(self)@.viewport_height == old(self)@.viewport_height,
            final(self)@.max_scroll_offset == old(self)@.max_scroll_offset,
            final(self)@.manual_scroll_active == old(self)@.manual_scroll_active,
            only_expansion_changed(old(self)@.expansions, final(self)@.expansions, commit_index),
            old(self)@.expansions.contains_key(commit_index) ==> file_expanded_from(
                old(self)@.expansions[commit_index],
                final(self)@.expansions[commit_index],
                file_index,
                Some(diff),
            ),
    {
        let ghost before = self.expansions@;
        match self.expansions.remove(&commit_index) {
            Some(mut expansion) => {
                expansion.file_diffs.insert(file_index, diff);
                expansion.expanded_files.insert(file_index);
                self.expansions.insert(commit_index, expansion);
                assert(self.expansions@.dom() =~= before.dom());
            },
            None => {
                assert(self.expansions@ =~= before);
            },
        }
    }

    pub fn is_commit_expanded(&self, commit_index: usize) -> (expanded: bool)
        ensures
            expanded == (self@.expansions.contains_key(commit_index) && self@.expansions[commit_index].expanded),
    {
        match self.expansions.get(&commit_index) {
            Some(e) => e.expanded,
            None => false,
        }
    }

    pub fn is_file_expanded(&self, commit_index: usize, file_index: usize) -> (expanded: bool)
        ensures
            expanded == (self@.expansions.contains_key(commit_index)
                && self@.expansions[commit_index].expanded_files@.contains(file_index)),
    {
        match self.expansions.get(&commit_index) {
            Some(e) => e.expanded_files.contains(&file_index),
            None => false,
        }
    }

    pub fn is_hunk_collapsed(&self, commit_index: usize, file_index: usize, hunk_index: usize) -> (collapsed: bool)
        ensures
            collapsed == (self@.expansions.contains_key(commit_index) && hunk_collapsed_in(
                self@.expansions[commit_index],
                file_index,
                hunk_index,
            )),
    {
        match self.expansions.get(&commit_index) {
            Some(e) => match e.collapsed_hunks.get(&file_index) {
                Some(hunks) => hunks.contains(&hunk_index),
                None => false,
            },
            None => false,
        }
    }

    fn files_at(&self, i: usize) -> (count: usize)
        ensures
            count == files_in(self@.expansions, i),
    {
        match self.expansions.get(&i) {
            Some(e) => e.files.len(),
            None => 0,
        }
    }

    fn shows_files_at(&self, i: usize) -> (shown: bool)
        ensures
            shown == shows_files(self@.expansions, i),
    {
        match self.expansions.get(&i) {
            Some(e) => e.expanded && e.files.len() > 0,
            None => false,
        }
    }

    fn hunks_at(&self, i: usize, f: usize) -> (count: Option<usize>)
        ensures
            match count {
                Some(t) => file_hunks(self@.expansions, i, f) == Some(t as nat),
                None => file_hunks(self@.expansions, i, f) is None,
            },
    {
        match self.expansions.get(&i) {
            Some(e) => match e.file_diffs.get(&f) {
                Some(d) => Some(d.hunks.len()),
                None => None,
            },
            None => None,
        }
    }

    fn shows_hunks_at(&self, i: usize, f: usize) -> (shown: bool)
        ensures
            shown == shows_hunks(self@.expansions, i, f),
    {
        match self.expansions.get(&i) {
            Some(e) => {
                if e.expanded_files.contains(&f) {
                    match e.file_diffs.get(&f) {
                        Some(d) => d.hunks.len() > 0,
                        None => false,
                    }
                } else {
                    false
                }
            },
            None => false,
        }
    }

    fn last_item_of_commit(&self, commit_index: usize) -> (cursor: LogCursor)
        ensures
            cursor == last_item_spec(self@.expansions, commit_index),
    {
        if self.shows_files_at(commit_index) {
            let last_file = self.files_at(commit_index) - 1;
            if self.shows_hunks_at(commit_index, last_file) {
                let total = match self.hunks_at(commit_index, last_file) {
                    Some(t) => t,
                    None => 1,
                };
                return LogCursor::Hunk { commit_index, file_index: last_file, hunk_index: total - 1 };
            }
            return LogCursor::File { commit_index, file_index: last_file };
        }
        LogCursor::Commit { index: commit_index }
    }

    fn next_cursor(&self, log_data: &LogData, cursor: &LogCursor) -> (next: Option<LogCursor>)
        ensures
            next == Some(next_cursor_spec(self@.expansions, log_data.entries@.len(), *cursor)),
    {
        let n = log_data.entries.len();
        match *cursor {
            LogCursor::Commit { index } => {
                if self.shows_files_at(index) {
                    return Some(LogCursor::File { commit_index: index, file_index: 0 });
                }
                if n > 0 && index < n - 1 {
                    Some(LogCursor::Commit { index: index + 1 })
                } else {
                    Some(*cursor)
                }
            },
            LogCursor::File { commit_index, file_index } => {
                if self.shows_hunks_at(commit_index, file_index) {
                    return Some(LogCursor::Hunk { commit_index, file_index, hunk_index: 0 });
                }
                let files = self.files_at(commit_index);
                if files > 0 && file_index < files - 1 {
                    return Some(LogCursor::File { commit_index, file_index: file_index + 1 });
                }
                if n > 0 && commit_index < n - 1 {
                    Some(LogCursor::Commit { index: commit_index + 1 })
                } else {
                    Some(*cursor)
                }
            },
            LogCursor::Hunk { commit_index, file_index, hunk_index } => {
                match self.hunks_at(commit_index, file_index) {
                    Some(total) => {
                        if total > 0 && hunk_index < total - 1 {
                            return Some(LogCursor::Hunk { commit_index, file_index, hunk_index: hunk_index + 1 });
                        }
                    },
                    None => {},
                }
                let files = self.files_at(commit_index);
                if files > 0 && file_index < files - 1 {
                    return Some(LogCursor::File { commit_index, file_index: file_index + 1 });
                }
                if n > 0 && commit_index < n - 1 {
                    Some(LogCursor::Commit { index: commit_index + 1 })
                } else {
                    Some(*cursor)
                }
            },
        }
    }

    fn previous_cursor(&self, cursor: &LogCursor) -> (previous: Option<LogCursor>)
        ensures
            previous == Some(previous_cursor_spec(self@.expansions, *cursor)),
    {
        match *cursor {
            LogCursor::Commit { index } => {
                if index == 0 {
                    return Some(*cursor);
                }
                Some(self.last_item_of_commit(index - 1))
            },
            LogCursor::File { commit_index, file_index } => {
                if file_index == 0 {
                    return Some(LogCursor::Commit { index: commit_index });
                }
                let prev_file = file_index - 1;
                if self.shows_hunks_at(commit_index, prev_file) {
                    let total = match self.hunks_at(commit_index, prev_file) {
                        Some(t) => t,
                        None => 1,
                    };
                    return Some(LogCursor::Hunk { commit_index, file_index: prev_file, hunk_index: total - 1 });
                }
                Some(LogCursor::File { commit_index, file_index: prev_file })
            },
            LogCursor::Hunk { commit_index, file_index, hunk_index } => {
                if hunk_index > 0 {
                    Some(LogCursor::Hunk { commit_index, file_index, hunk_index: hunk_index - 1 })
                } else {
                    Some(LogCursor::File { commit_index, file_index })
                }
            },
        }
    }

    pub fn move_to_next(&mut self, log_data: &LogData)
        ensures
            final(self)@ == (LogNavigationModel {
                cursor: step_down(old(self)@.expansions, log_data.entries@.len(), old(self)@.cursor),
                manual_scroll_active: false,
                ..old(self)@
            }),
    {
        self.clear_manual_scroll();
        match self.cursor {
            Some(cursor) => {
                self.cursor = self.next_cursor(log_data, &cursor);
            },
            None => {
                if log_data.entries.len() > 0 {
                    self.cursor = Some(LogCursor::Commit { index: 0 });
                }
            },
        }
    }

    pub fn move_to_previous(&mut self, log_data: &LogData)
        ensures
            final(self)@ == (LogNavigationModel {
                cursor: step_up(old(self)@.expansions, log_data.entries@.len(), old(self)@.cursor),
                manual_scroll_active: false,
                ..old(self)@
            }),
    {
        self.clear_manual_scroll();
        match self.cursor {
            Some(cursor) => {
                self.cursor = self.previous_cursor(&cursor);
            },
            None => {
                if log_data.entries.len() > 0 {
                    self.cursor = Some(LogCursor::Commit { index: 0 });
                }
            },
        }
    }

    pub fn move_to_top(&mut self, log_data: &LogData)
        ensures
            final(self)@ == (LogNavigationModel {
                cursor: if log_data.entries@.len() > 0 {
                    Some(LogCursor::Commit { index: 0 })
                } else {
                    old(self)@.cursor
                },
                manual_scroll_active: false,
                ..old(self)@
            }),
    {
        self.clear_manual_scroll();
        if log_data.entries.len() > 0 {
            self.cursor = Some(LogCursor::Commit { index: 0 });
        }
    }

    pub fn move_to_bottom(&mut self, log_data: &LogData)
        ensures
            final(self)@ == (LogNavigationModel {
                cursor: if log_data.entries@.len() > 0 {
                    Some(last_item_spec(old(self)@.expansions, (log_data.entries@.len() - 1) as usize))
                } else {
                    old(self)@.cursor
                },
                manual_scroll_active: false,
                ..old(self)@
            }),
    {
        self.clear_manual_scroll();
        if log_data.entries.len() > 0 {
            let last_commit = log_data.entries.len() - 1;
            self.cursor = Some(self.last_item_of_commit(last_commit));
        }
    }

    /// Move cursor up in the hierarchy (hunk -> file -> commit).
    pub fn move_up_hierarchy(&mut self)
        ensures
            final(self)@ == (LogNavigationModel { cursor: up_hierarchy(old(self)@.cursor), ..old(self)@ }),
    {
        match self.cursor {
            Some(LogCursor::Hunk { commit_index, file_index, .. }) => {
                self.cursor = Some(LogCursor::File { commit_index, file_index });
            },
            Some(LogCursor::File { commit_index, .. }) => {
                self.cursor = Some(LogCursor::Commit { index: commit_index });
            },
            _ => {},
        }
    }

    /// Compute the flat list index of the current cursor for scroll tracking.
    pub fn cursor_flat_index(&self, log_data: &LogData) -> (index: Option<usize>)
        requires
            commit_rows_before(self@.expansions, log_data.entries@, log_data.entries@.len() as int) <= usize::MAX,
        ensures
            match index {
                Some(i) => flat_index_spec(self@.expansions, log_data.entries@, self@.cursor) == Some(i as nat),
                None => flat_index_spec(self@.expansions, log_data.entries@, self@.cursor) is None,
            },
    {
        let cursor = match self.cursor {
            Some(c) => c,
            None => return None,
        };
        let ghost exps = self@.expansions;
        let ghost entries = log_data.entries@;
        let n = log_data.entries.len();
        let mut flat_index: usize = 0;
        let mut commit_idx: usize = 0;
        while commit_idx < n
            invariant
                n == entries.len(),
                entries == log_data.entries@,
                exps == self@.expansions,
                self@.cursor == Some(cursor),
                commit_idx <= n,
                commit_rows_before(exps, entries, n as int) <= usize::MAX,
                flat_index == commit_rows_before(exps, entries, commit_idx as int),
                flat_index_spec(exps, entries, Some(cursor)) is Some ==> cursor_commit(cursor) >= commit_idx,
            decreases n - commit_idx,
        {
            proof {
                lemma_commit_rows_monotone(exps, entries, commit_idx + 1, n as int);
            }
            match cursor {
                LogCursor::Commit { index } => {
                    if index == commit_idx {
                        return Some(flat_index);
                    }
                },
                _ => {},
            }
            flat_index += 1;
            match self.expansions.get(&commit_idx) {
                Some(expansion) => {
                    if expansion.expanded {
                        let entry = &log_data.entries[commit_idx];
                        flat_index += commit_metadata_line_count(entry);
                        let ghost exp = *expansion;
                        let file_count = expansion.files.len();
                        let mut file_idx: usize = 0;
                        while file_idx < file_count
                            invariant
                                n == entries.len(),
                                entries == log_data.entries@,
                                exps == self@.expansions,
                                self@.cursor == Some(cursor),
                                commit_idx < n,
                                exps.contains_key(commit_idx),
                                exp == exps[commit_idx],
                                *expansion == exp,
                                exp.expanded,
                                file_count == exp.files@.len(),
                                file_idx <= file_count,
                                commit_rows_before(exps, entries, commit_idx + 1) <= usize::MAX,
                                flat_index == commit_rows_before(exps, entries, commit_idx as int) + 1
                                    + metadata_line_count_spec(&entries[commit_idx as int]) + file_rows_before(
                                    exp,
                                    file_idx as int,
                                ),
                                flat_index_spec(exps, entries, Some(cursor)) is Some ==> cursor_commit(cursor)
                                    >= commit_idx,
                                flat_index_spec(exps, entries, Some(cursor)) is Some && cursor_commit(cursor)
                                    == commit_idx ==> match cursor {
                                    LogCursor::Commit { .. } => false,
                                    LogCursor::File { file_index, .. } => file_index >= file_idx,
                                    LogCursor::Hunk { file_index, .. } => file_index >= file_idx,
                                },
                            decreases file_count - file_idx,
                        {
                            proof {
                                lemma_file_rows_monotone(exp, file_idx + 1, file_count as int);
                            }
                            match cursor {
                                LogCursor::File { commit_index, file_index } => {
                                    if commit_index == commit_idx && file_index == file_idx {
                                        return Some(flat_index);
                                    }
                                },
                                _ => {},
                            }
                            flat_index += 1;
                            if expansion.expanded_files.contains(&file_idx) {
                                match expansion.file_diffs.get(&file_idx) {
                                    Some(diff) => {
                                        let ghost d = *diff;
                                        let hunk_count = diff.hunks.len();
                                        let mut hunk_idx: usize = 0;
                                        while hunk_idx < hunk_count
                                            invariant
                                                n == entries.len(),
                                                entries == log_data.entries@,
                                                exps == self@.expansions,
                                                self@.cursor == Some(cursor),
                                                commit_idx < n,
                                                exps.contains_key(commit_idx),
                                                exp == exps[commit_idx],
                                                *expansion == exp,
                                                exp.expanded,
                                                file_count == exp.files@.len(),
                                                file_idx < file_count,
                                                file_diff_shown(exp, file_idx),
                                                exp.file_diffs@[file_idx] == d,
                                                *diff == d,
                                                hunk_count == d.hunks@.len(),
                                                hunk_idx <= hunk_count,
                                                commit_rows_before(exps, entries, commit_idx + 1) <= usize::MAX,
                                                file_rows_before(exp, file_idx + 1) <= file_rows_before(
                                                    exp,
                                                    file_count as int,
                                                ),
                                                flat_index == commit_rows_before(exps, entries, commit_idx as int)
                                                    + 1 + metadata_line_count_spec(&entries[commit_idx as int])
                                                    + file_rows_before(exp, file_idx as int) + 1 + hunk_rows_before(
                                                    exp,
                                                    file_idx,
                                                    d,
                                                    hunk_idx as int,
                                                ),
                                                flat_index_spec(exps, entries, Some(cursor)) is Some ==> cursor_commit(
                                                    cursor,
                                                ) >= commit_idx,
                                                flat_index_spec(exps, entries, Some(cursor)) is Some && cursor_commit(
                                                    cursor,
                                                ) == commit_idx ==> match cursor {
                                                    LogCursor::Commit { .. } => false,
                                                    LogCursor::File { file_index, .. } => file_index > file_idx,
                                                    LogCursor::Hunk { file_index, hunk_index, .. } => file_index
                                                        > file_idx || (file_index == file_idx && hunk_index
                                                        >= hunk_idx),
                                                },
                                            decreases hunk_count - hunk_idx,
                                        {
                                            proof {
                                                lemma_hunk_rows_monotone(exp, file_idx, d, hunk_idx + 1, hunk_count as int);
                                            }
                                            match cursor {
                                                LogCursor::Hunk { commit_index, file_index, hunk_index } => {
                                                    if commit_index == commit_idx && file_index == file_idx
                                                        && hunk_index == hunk_idx {
                                                        return Some(flat_index);
                                                    }
                                                },
                                                _ => {},
                                            }
                                            flat_index += 1;
                                            if !self.is_hunk_collapsed(commit_idx, file_idx, hunk_idx) {
                                                flat_index += diff.hunks[hunk_idx].lines.len();
                                            }
                                            if hunk_count > 1 {
                                                flat_index += 1;
                                            }
                                            hunk_idx += 1;
                                        }
                                    },
                                    None => {},
                                }
                            }
                            file_idx += 1;
                        }
                    }
                },
                None => {},
            }
            commit_idx += 1;
        }
        None
    }

    fn page_moves(&self) -> (moves: usize)
        ensures
            moves == page_size(self@.viewport_height),
            moves >= 1,
    {
        let page = self.viewport_height.saturating_sub(2);
        if page >= 1 { page } else { 1 }
    }

    /// Moves the cursor up by a page: as many steps as the viewport holds
    /// rows less two, stopping where a step no longer moves.
    pub fn page_up(&mut self, log_data: &LogData)
        ensures
            final(self)@ == (LogNavigationModel {
                cursor: steps_up(
                    old(self)@.expansions,
                    log_data.entries@.len(),
                    old(self)@.cursor,
                    page_size(old(self)@.viewport_height),
                ),
                manual_scroll_active: false,
                ..old(self)@
            }),
    {
        let page_size = self.page_moves();
        let ghost exps = self@.expansions;
        let ghost n = log_data.entries@.len();
        let ghost target = steps_up(exps, n, self@.cursor, page_size as nat);
        let mut moved: usize = 0;
        while moved < page_size
            invariant_except_break
                page_size >= 1,
                moved <= page_size,
                steps_up(exps, n, self@.cursor, (page_size - moved) as nat) == target,
                moved > 0 ==> self@ == (LogNavigationModel { cursor: self@.cursor, manual_scroll_active: false, ..old(self)@ }),
                moved == 0 ==> self@ == old(self)@,
                exps == old(self)@.expansions,
                n == log_data.entries@.len(),
            ensures
                self@.cursor == target,
                self@ == (LogNavigationModel { cursor: self@.cursor, manual_scroll_active: false, ..old(self)@ }),
            decreases page_size - moved,
        {
            let prev = self.cursor;
            self.move_to_previous(log_data);
            moved += 1;
            if self.cursor == prev {
                break;
            }
        }
    }

    /// Moves the cursor down by a page: as many steps as the viewport holds
    /// rows less two, stopping where a step no longer moves.
    pub fn page_down(&mut self, log_data: &LogData)
        ensures
            final(self)@ == (LogNavigationModel {
                cursor: steps_down(
                    old(self)@.expansions,
                    log_data.entries@.len(),
                    old(self)@.cursor,
                    page_size(old(self)@.viewport_height),
                ),
                manual_scroll_active: false,
                ..old(self)@
            }),
    {
        let page_size = self.page_moves();
        let ghost exps = self@.expansions;
        let ghost n = log_data.entries@.len();
        let ghost target = steps_down(exps, n, self@.cursor, page_size as nat);
        let mut moved: usize = 0;
        while moved < page_size
            invariant_except_break
                page_size >= 1,
                moved <= page_size,
                steps_down(exps, n, self@.cursor, (page_size - moved) as nat) == target,
                moved > 0 ==> self@ == (LogNavigationModel { cursor: self@.cursor, manual_scroll_active: false, ..old(self)@ }),
                moved == 0 ==> self@ == old(self)@,
                exps == old(self)@.expansions,
                n == log_data.entries@.len(),
            ensures
                self@.cursor == target,
                self@ == (LogNavigationModel { cursor: self@.cursor, manual_scroll_active: false, ..old(self)@ }),
            decreases page_size - moved,
        {
            let prev = self.cursor;
            self.move_to_next(log_data);
            moved += 1;
            if self.cursor == prev {
                break;
            }
        }
    }

    pub fn scroll_offset(&self) -> (offset: usize)
        ensures
            offset == self@.scroll_offset,
    {
        self.scroll_offset
    }

    pub fn scroll_viewport_up(&mut self, lines: usize)
        ensures
            final(self)@ == (LogNavigationModel {
                scroll_offset: if old(self)@.scroll_offset >= lines {
                    (old(self)@.scroll_offset - lines) as usize
                } else {
                    0
                },
                manual_scroll_active: true,
                ..old(self)@
            }),
    {
        self.scroll_offset = self.scroll_offset.saturating_sub(lines);
        self.manual_scroll_active = true;
    }

    pub fn scroll_viewport_down(&mut self, lines: usize)
        ensures
            final(self)@ == (LogNavigationModel {
                scroll_offset: if old(self)@.scroll_offset + lines <= old(self)@.max_scroll_offset {
                    (old(self)@.scroll_offset + lines) as usize
                } else {
                    old(self)@.max_scroll_offset
                },
                manual_scroll_active: true,
                ..old(self)@
            }),
    {
        let moved = self.scroll_offset.saturating_add(lines);
        self.scroll_offset = if moved <= self.max_scroll_offset { moved } else { self.max_scroll_offset };
        self.manual_scroll_active = true;
    }

    pub fn is_manual_scroll_active(&self) -> (active: bool)
        ensures
            active == self@.manual_scroll_active,
    {
        self.manual_scroll_active
    }

    pub fn clear_manual_scroll(&mut self)
        ensures
            final(self)@ == (LogNavigationModel { manual_scroll_active: false, ..old(self)@ }),
    {
        self.manual_scroll_active = false;
    }

    pub fn update_viewport_metrics(&mut self, viewport_height: usize, total_items: usize)
        ensures
            ({
                let max = if total_items >= viewport_height { (total_items - viewport_height) as usize } else { 0 };
                final(self)@ == (LogNavigationModel {
                    viewport_height,
                    max_scroll_offset: max,
                    scroll_offset: if old(self)@.scroll_offset > max { max } else { old(self)@.scroll_offset },
                    ..old(self)@
                })
            }),
    {
        self.viewport_height = viewport_height;
        let max = total_items.saturating_sub(viewport_height);
        self.max_scroll_offset = max;
        if self.scroll_offset > max {
            self.scroll_offset = max;
        }
    }

    pub fn viewport_height(&self) -> (height: usize)
        ensures
            height == self@.viewport_height,
    {
        self.viewport_height
    }

    pub fn ensure_cursor_valid(&mut self, log_data: &LogData)
        ensures
            final(self)@ == (LogNavigationModel {
                cursor: valid_cursor_for(log_data.entries@.len(), old(self)@.cursor),
                ..old(self)@
            }),
    {
        let n = log_data.entries.len();
        if n == 0 {
            self.cursor = None;
            return;
        }
        match self.cursor {
            Some(LogCursor::Commit { index }) => {
                if index >= n {
                    self.cursor = Some(LogCursor::Commit { index: n - 1 });
                }
            },
            None => {
                self.cursor = Some(LogCursor::Commit { index: 0 });
            },
            _ => {},
        }
    }
}

} // verus!

verus! {

/// The row after `c` lies further down the list than `c`, or the cursor
/// stays on the last row of the last commit.
pub open spec fn next_row_further_down(exps: Map<usize, CommitExpansion>, entries: Seq<LogEntry>, c: LogCursor) -> bool {
    let next = next_cursor_spec(exps, entries.len(), c);
    ||| (next == c && entries.len() > 0 && c == last_item_spec(exps, (entries.len() - 1) as usize))
    ||| (flat_index_spec(exps, entries, Some(next)) matches Some(k2) && (flat_index_spec(exps, entries, Some(c)) matches Some(
        k1,
    ) && k1 < k2))
}

/// Moving down never goes back up the list: from a shown row, the next row
/// lies further down, or the cursor stays, which happens only on the last
/// row of the last commit.
pub proof fn lemma_next_row_is_further_down(exps: Map<usize, CommitExpansion>, entries: Seq<LogEntry>, c: LogCursor)
    requires
        valid_log_cursor(exps, entries.len(), c),
        entries.len() <= usize::MAX,
    ensures
        next_row_further_down(exps, entries, c),
{
    let n = entries.len();
    let next = next_cursor_spec(exps, n, c);
    lemma_flat_index_of_valid_cursor(exps, entries, c);
    match c {
        LogCursor::Commit { index } => {
            if shows_files(exps, index) {
                assert(file_rows_before(exps[index], 0) == 0);
                assert(flat_index_spec(exps, entries, Some(next)) == Some(
                    commit_rows_before(exps, entries, index as int) + 1 + metadata_line_count_spec(&entries[index as int]),
                ));
                assert(flat_index_spec(exps, entries, Some(c)) == Some(commit_rows_before(exps, entries, index as int)));
            } else if index + 1 < n {
                assert(commit_rows_before(exps, entries, index + 1) == commit_rows_before(exps, entries, index as int)
                    + commit_rows(exps, entries, index as int));
                assert(next == LogCursor::Commit { index: (index + 1) as usize });
                assert(flat_index_spec(exps, entries, Some(next)) == Some(commit_rows_before(exps, entries, index + 1)));
            } else {
                assert(index == (n - 1) as usize);
                assert(next == c);
                assert(c == last_item_spec(exps, (n - 1) as usize));
            }
        },
        LogCursor::File { commit_index: ci, file_index: fi } => {
            let exp = exps[ci];
            assert(exp.files@.len() == exp.files.len());
            if shows_hunks(exps, ci, fi) {
                assert(hunk_rows_before(exp, fi, exp.file_diffs@[fi], 0) == 0);
            } else if fi + 1 < files_in(exps, ci) {
                assert(file_rows_before(exp, fi + 1) == file_rows_before(exp, fi as int) + file_rows(exp, fi as int));
            } else if ci + 1 < n {
                assert(file_rows_before(exp, fi + 1) == file_rows_before(exp, fi as int) + file_rows(exp, fi as int));
                lemma_file_rows_monotone(exp, fi + 1, exp.files@.len() as int);
                assert(commit_rows_before(exps, entries, ci + 1) == commit_rows_before(exps, entries, ci as int)
                    + commit_rows(exps, entries, ci as int));
            }
        },
        LogCursor::Hunk { commit_index: ci, file_index: fi, hunk_index: hi } => {
            let exp = exps[ci];
            let d = exp.file_diffs@[fi];
            assert(exp.files@.len() == exp.files.len());
            assert(d.hunks@.len() == d.hunks.len());
            assert(hunk_rows_before(exp, fi, d, hi + 1) == hunk_rows_before(exp, fi, d, hi as int) + hunk_rows(
                exp,
                fi,
                d,
                hi as int,
            ));
            if file_hunks(exps, ci, fi) matches Some(t) && hi + 1 < t {
            } else {
                lemma_hunk_rows_monotone(exp, fi, d, hi + 1, d.hunks@.len() as int);
                assert(file_rows_before(exp, fi + 1) == file_rows_before(exp, fi as int) + file_rows(exp, fi as int));
                if fi + 1 < files_in(exps, ci) {
                } else if ci + 1 < n {
                    lemma_file_rows_monotone(exp, fi + 1, exp.files@.len() as int);
                    assert(commit_rows_before(exps, entries, ci + 1) == commit_rows_before(exps, entries, ci as int)
                        + commit_rows(exps, entries, ci as int));
                }
            }
        },
    }
}

} // verus!

verus! {

/// Toggling the same row twice restores what is shown: where neither toggle
/// had to wait for data to load, the cursor is where it was, every commit's
/// file list and every file's diff are open or closed as before, and every
/// hunk is collapsed or expanded as before.
pub proof fn lemma_toggle_twice_restores(
    m0: LogNavigationModel,
    m1: LogNavigationModel,
    m2: LogNavigationModel,
    n: nat,
)
    requires
        m0.cursor matches Some(c) && valid_log_cursor(m0.expansions, n, c),
        toggle_outcome(m0, m1, ExpansionRequest::Nothing, n),
        toggle_outcome(m1, m2, ExpansionRequest::Nothing, n),
    ensures
        m2.cursor == m0.cursor,
        m2.expansions.dom() == m0.expansions.dom(),
        forall|k: usize|
            #![trigger m2.expansions[k]]
            m0.expansions.contains_key(k) ==> {
                &&& m2.expansions[k].expanded == m0.expansions[k].expanded
                &&& m2.expansions[k].files == m0.expansions[k].files
                &&& m2.expansions[k].file_diffs@ == m0.expansions[k].file_diffs@
                &&& m2.expansions[k].expanded_files@ == m0.expansions[k].expanded_files@
            },
        forall|k: usize, f: usize, h: usize|
            #![trigger hunk_collapsed_in(m2.expansions[k], f, h)]
            m0.expansions.contains_key(k) ==> hunk_collapsed_in(m2.expansions[k], f, h) == hunk_collapsed_in(
                m0.expansions[k],
                f,
                h,
            ),
{
    let c = m0.cursor->Some_0;
    let i = cursor_commit(c);
    assert forall|k: usize| k != i && #[trigger] m0.expansions.contains_key(k) implies m2.expansions[k]
        == m0.expansions[k] by {
        assert(m1.expansions[k] == m0.expansions[k]);
    }
    match c {
        LogCursor::Commit { index } => {
            assert(m0.expansions.contains_key(index));
            assert(m1.expansions.contains_key(index));
            let e0 = m0.expansions[index];
            let e2 = m2.expansions[index];
            assert(e2.expanded == e0.expanded && e2.files == e0.files && e2.file_diffs@ == e0.file_diffs@
                && e2.expanded_files@ == e0.expanded_files@);
            assert(e2.collapsed_hunks == e0.collapsed_hunks);
        },
        LogCursor::File { commit_index, file_index } => {
            assert(m0.expansions.contains_key(commit_index));
            assert(m1.expansions.contains_key(commit_index));
            let e0 = m0.expansions[commit_index];
            let e1 = m1.expansions[commit_index];
            let e2 = m2.expansions[commit_index];
            if e0.expanded_files@.contains(file_index) {
                assert(!e1.expanded_files@.contains(file_index));
                assert(e1.file_diffs@.contains_key(file_index));
                assert(e2.expanded_files@ =~= e0.expanded_files@);
            } else {
                assert(e0.file_diffs@.contains_key(file_index));
                assert(e1.expanded_files@.contains(file_index));
                assert(e2.expanded_files@ =~= e0.expanded_files@);
            }
            assert(e2.expanded == e0.expanded && e2.files == e0.files && e2.file_diffs@ == e0.file_diffs@);
            assert(e2.collapsed_hunks == e0.collapsed_hunks);
        },
        LogCursor::Hunk { commit_index, file_index, hunk_index } => {
            let e0 = m0.expansions[commit_index];
            let e1 = m1.expansions[commit_index];
            let e2 = m2.expansions[commit_index];
            assert(m0.expansions.contains_key(commit_index));
            assert(m1.expansions.contains_key(commit_index));
            assert(collapsed_set(e1, file_index) == e1.collapsed_hunks@[file_index]@);
            assert(e2.expanded == e0.expanded && e2.files == e0.files && e2.file_diffs@ == e0.file_diffs@
                && e2.expanded_files == e0.expanded_files);
            assert(e2.collapsed_hunks@[file_index]@ =~= collapsed_set(e0, file_index));
            assert forall|f: usize, h: usize| #[trigger] hunk_collapsed_in(e2, f, h) == hunk_collapsed_in(e0, f, h) by {
                if f != file_index && e0.collapsed_hunks@.contains_key(f) {
                    assert(e1.collapsed_hunks@[f] == e0.collapsed_hunks@[f]);
                    assert(e2.collapsed_hunks@[f] == e1.collapsed_hunks@[f]);
                }
            }
        },
    }
}

} // verus!
