use vstd::prelude::*;
use crate::diff::{Diff, DiffContext};
use crate::status::RepositoryStatus;
use std::collections::HashSet;

verus! {

#[derive(Debug, Clone, Copy, PartialEq, Eq, Structural)]
pub enum SelectionCursor {
    File { section: StatusSection, file_index: usize },
    Hunk { section: StatusSection, file_index: usize, hunk_index: usize },
}

#[derive(Debug, Clone)]
pub struct SelectedFile {
    pub path: String,
    pub context: FileContext,
}

#[derive(Debug, Clone, Copy, PartialEq, Eq, Hash, Structural)]
pub enum FileContext {
    Staged,
    Unstaged,
    Untracked,
    Conflicted,
}

#[derive(Debug, Clone, PartialEq, Eq, Hash)]
pub struct FileDiffKey {
    pub path: String,
    pub context: FileContext,
}

impl FileDiffKey {
    pub fn new(path: String, context: FileContext) -> (key: Self)
        ensures
            key.path == path,
            key.context == context,
    {
        Self { path, context }
    }
}

#[derive(Debug, Clone, Copy, PartialEq, Eq, Structural)]
pub enum OperationContext {
    CanStage,
    CanUnstage,
    CanAdd,
    ReadOnly,
}

#[derive(Clone, Copy, PartialEq, Eq, Debug, Structural)]
pub struct SectionCollapsedState {
    pub conflicted: bool,
    pub unstaged: bool,
    pub untracked: bool,
    pub staged: bool,
}

impl Default for SectionCollapsedState {
    fn default() -> (state: Self)
        ensures
            !state.conflicted && !state.unstaged && !state.untracked && !state.staged,
    {
        SectionCollapsedState { conflicted: false, unstaged: false, untracked: false, staged: false }
    }
}

/// A copy of a set of hunk indices (`HashSet::clone`): the same indices.
#[verifier::external_body]
fn clone_index_set(set: &HashSet<usize>) -> (copy: HashSet<usize>)
    ensures
        copy@ == set@,
{
    set.clone()
}

#[derive(Debug)]
pub struct InlineDiffState {
    pub file_path: String,
    pub file_context: FileContext,
    pub diff_context: DiffContext,
    pub diff: Option<Diff>,
    pub expanded: bool,
    pub current_hunk: usize,
    /// Tracks which hunks are collapsed (true = collapsed, false = expanded)
    /// Hunks are expanded by default
    pub collapsed_hunks: HashSet<usize>,
    /// The lines of context around each change the diff was made with.
    pub context_lines: usize,
}

impl Clone for InlineDiffState {
    fn clone(&self) -> (copy: Self)
        ensures
            copy.file_path == self.file_path,
            copy.file_context == self.file_context,
            copy.diff_context == self.diff_context,
            copy.expanded == self.expanded,
            copy.current_hunk == self.current_hunk,
            copy.collapsed_hunks@ == self.collapsed_hunks@,
            copy.diff is Some == self.diff is Some,
            copy.context_lines == self.context_lines,
    {
        InlineDiffState {
            file_path: self.file_path.clone(),
            file_context: self.file_context,
            diff_context: self.diff_context,
            diff: match &self.diff {
                Some(d) => Some(d.clone()),
                None => None,
            },
            expanded: self.expanded,
            current_hunk: self.current_hunk,
            collapsed_hunks: clone_index_set(&self.collapsed_hunks),
            context_lines: self.context_lines,
        }
    }
}

#[derive(Clone, Copy, PartialEq, Eq, Debug, Structural)]
pub enum StatusSection {
    Staged,
    Unstaged,
    Untracked,
    Conflicted,
}

/// The file context of the files listed in a section.
pub open spec fn context_of(section: StatusSection) -> FileContext {
    match section {
        StatusSection::Staged => FileContext::Staged,
        StatusSection::Unstaged => FileContext::Unstaged,
        StatusSection::Untracked => FileContext::Untracked,
        StatusSection::Conflicted => FileContext::Conflicted,
    }
}

pub(crate) fn file_context_for(section: StatusSection) -> (context: FileContext)
    ensures
        context == context_of(section),
{
    match section {
        StatusSection::Staged => FileContext::Staged,
        StatusSection::Unstaged => FileContext::Unstaged,
        StatusSection::Untracked => FileContext::Untracked,
        StatusSection::Conflicted => FileContext::Conflicted,
    }
}

impl From<StatusSection> for FileContext {
    fn from(section: StatusSection) -> (context: Self) {
        file_context_for(section)
    }
}

impl vstd::std_specs::convert::FromSpecImpl<StatusSection> for FileContext {
    open spec fn obeys_from_spec() -> bool {
        true
    }

    open spec fn from_spec(section: StatusSection) -> FileContext {
        context_of(section)
    }
}

/// Where a section stands in the order in which sections are shown:
/// conflicted, unstaged, untracked, staged.
pub open spec fn section_rank(section: StatusSection) -> int {
    match section {
        StatusSection::Conflicted => 0,
        StatusSection::Unstaged => 1,
        StatusSection::Untracked => 2,
        StatusSection::Staged => 3,
    }
}

/// The section at a rank of the display order.
pub open spec fn section_at(rank: int) -> StatusSection {
    if rank == 0 {
        StatusSection::Conflicted
    } else if rank == 1 {
        StatusSection::Unstaged
    } else if rank == 2 {
        StatusSection::Untracked
    } else {
        StatusSection::Staged
    }
}

/// The paths listed in a section of a status, in order.
pub open spec fn section_paths(status: &RepositoryStatus, section: StatusSection) -> Seq<Seq<char>> {
    match section {
        StatusSection::Staged => status.staged@.map_values(|e: crate::status::FileEntry| e.path@),
        StatusSection::Unstaged => status.unstaged@.map_values(|e: crate::status::FileEntry| e.path@),
        StatusSection::Untracked => status.untracked@.map_values(|p: String| p@),
        StatusSection::Conflicted => status.conflicted@.map_values(|p: String| p@),
    }
}

/// The number of files in a section of a status.
pub open spec fn section_count(status: &RepositoryStatus, section: StatusSection) -> nat {
    section_paths(status, section).len()
}

/// The path of file `i` of a section, if the section has such a file.
pub open spec fn status_path(status: &RepositoryStatus, section: StatusSection, i: int) -> Option<Seq<char>> {
    if 0 <= i < section_count(status, section) {
        Some(section_paths(status, section)[i])
    } else {
        None
    }
}

/// The first index at or after `k` at which `path` is listed.
pub open spec fn first_index_from(paths: Seq<Seq<char>>, path: Seq<char>, k: int) -> Option<int>
    decreases paths.len() - k,
{
    if k < 0 || k >= paths.len() {
        None
    } else if paths[k] == path {
        Some(k)
    } else {
        first_index_from(paths, path, k + 1)
    }
}

/// The first non-empty section at rank `rank` or later.
pub open spec fn nonempty_section_from(status: &RepositoryStatus, rank: int) -> Option<StatusSection>
    decreases 4 - rank,
{
    if rank < 0 || rank >= 4 {
        None
    } else if section_count(status, section_at(rank)) > 0 {
        Some(section_at(rank))
    } else {
        nonempty_section_from(status, rank + 1)
    }
}

/// The last non-empty section at rank `rank` or earlier.
pub open spec fn nonempty_section_upto(status: &RepositoryStatus, rank: int) -> Option<StatusSection>
    decreases rank + 1,
{
    if rank < 0 || rank >= 4 {
        None
    } else if section_count(status, section_at(rank)) > 0 {
        Some(section_at(rank))
    } else {
        nonempty_section_upto(status, rank - 1)
    }
}

/// The non-empty sections from rank `rank` on, in display order.
pub open spec fn nonempty_sections_from(status: &RepositoryStatus, rank: int) -> Seq<StatusSection>
    decreases 4 - rank,
{
    if rank < 0 || rank >= 4 {
        Seq::empty()
    } else if section_count(status, section_at(rank)) > 0 {
        seq![section_at(rank)] + nonempty_sections_from(status, rank + 1)
    } else {
        nonempty_sections_from(status, rank + 1)
    }
}

/// The state is kept for the file with this path and context.
pub open spec fn key_matches(state: InlineDiffState, path: Seq<char>, context: FileContext) -> bool {
    state.file_path@ == path && state.file_context == context
}

/// No two states are kept for the same file.
pub open spec fn keys_unique(diffs: Seq<InlineDiffState>) -> bool {
    forall|i: int, j: int|
        #![trigger diffs[i], diffs[j]]
        0 <= i < diffs.len() && 0 <= j < diffs.len() && key_matches(
            diffs[i],
            diffs[j].file_path@,
            diffs[j].file_context,
        ) ==> i == j
}

/// The position of the state kept for a file.
pub open spec fn diff_index_of(diffs: Seq<InlineDiffState>, path: Seq<char>, context: FileContext) -> Option<int> {
    if exists|i: int| 0 <= i < diffs.len() && key_matches(#[trigger] diffs[i], path, context) {
        Some(choose|i: int| 0 <= i < diffs.len() && key_matches(#[trigger] diffs[i], path, context))
    } else {
        None
    }
}

/// The inline diff state kept for a file, if any.
pub open spec fn diff_state_of(diffs: Seq<InlineDiffState>, path: Seq<char>, context: FileContext) -> Option<
    InlineDiffState,
> {
    match diff_index_of(diffs, path, context) {
        Some(i) => Some(diffs[i]),
        None => None,
    }
}

/// The mathematical state of the status view's navigation.
pub struct NavigationModel {
    pub cursor: Option<SelectionCursor>,
    pub sections: Seq<StatusSection>,
    pub section_collapsed: SectionCollapsedState,
    pub file_diffs: Seq<InlineDiffState>,
    pub scroll_offset: usize,
    pub viewport_height: usize,
    pub max_scroll_offset: usize,
    pub manual_scroll_active: bool,
}

/// The number of hunks shown for file `i` of a section: those of its cached
/// diff when its inline diff is expanded, none otherwise.
pub open spec fn hunk_count(m: NavigationModel, status: &RepositoryStatus, section: StatusSection, i: int) -> nat {
    match status_path(status, section, i) {
        None => 0,
        Some(path) => match diff_state_of(m.file_diffs, path, context_of(section)) {
            None => 0,
            Some(state) => if !state.expanded {
                0
            } else {
                match state.diff {
                    Some(d) => d.hunks@.len(),
                    None => 0,
                }
            },
        },
    }
}

/// The cursor on the file after file `i` of a section: the next file of the
/// section, or the first file of the next non-empty section.
pub open spec fn next_file_cursor_spec(status: &RepositoryStatus, section: StatusSection, i: int) -> Option<
    SelectionCursor,
> {
    if i + 1 < section_count(status, section) {
        Some(SelectionCursor::File { section, file_index: (i + 1) as usize })
    } else {
        match nonempty_section_from(status, section_rank(section) + 1) {
            Some(next) => Some(SelectionCursor::File { section: next, file_index: 0 }),
            None => None,
        }
    }
}

/// Where moving down from `cursor` leads: into the first hunk of an expanded
/// file, to the next hunk of the same file, or on to the next file.
pub open spec fn next_cursor_spec(m: NavigationModel, status: &RepositoryStatus, cursor: SelectionCursor) -> Option<
    SelectionCursor,
> {
    match cursor {
        SelectionCursor::File { section, file_index } => {
            if hunk_count(m, status, section, file_index as int) > 0 {
                Some(SelectionCursor::Hunk { section, file_index, hunk_index: 0 })
            } else {
                next_file_cursor_spec(status, section, file_index as int)
            }
        },
        SelectionCursor::Hunk { section, file_index, hunk_index } => {
            if hunk_index + 1 < hunk_count(m, status, section, file_index as int) {
                Some(SelectionCursor::Hunk { section, file_index, hunk_index: (hunk_index + 1) as usize })
            } else {
                next_file_cursor_spec(status, section, file_index as int)
            }
        },
    }
}

/// The cursor on the last visible item of file `i` of a section: its last
/// hunk when it shows hunks, the file itself otherwise.
pub open spec fn last_item_of_file(m: NavigationModel, status: &RepositoryStatus, section: StatusSection, i: int) -> SelectionCursor {
    let count = hunk_count(m, status, section, i);
    if count > 0 {
        SelectionCursor::Hunk { section, file_index: i as usize, hunk_index: (count - 1) as usize }
    } else {
        SelectionCursor::File { section, file_index: i as usize }
    }
}

/// Where moving up from `cursor` leads: to the previous hunk, from the first
/// hunk to its file, from a file to the last item of the file above it.
pub open spec fn previous_cursor_spec(m: NavigationModel, status: &RepositoryStatus, cursor: SelectionCursor) -> Option<
    SelectionCursor,
> {
    match cursor {
        SelectionCursor::File { section, file_index } => {
            if file_index == 0 {
                match nonempty_section_upto(status, section_rank(section) - 1) {
                    None => None,
                    Some(previous) => Some(
                        last_item_of_file(m, status, previous, section_count(status, previous) - 1),
                    ),
                }
            } else {
                Some(last_item_of_file(m, status, section, file_index - 1))
            }
        },
        SelectionCursor::Hunk { section, file_index, hunk_index } => {
            if hunk_index > 0 {
                Some(SelectionCursor::Hunk { section, file_index, hunk_index: (hunk_index - 1) as usize })
            } else {
                Some(SelectionCursor::File { section, file_index })
            }
        },
    }
}

/// The cursor on the first file of the first recorded section.
pub open spec fn first_file_cursor_spec(m: NavigationModel) -> Option<SelectionCursor> {
    if m.sections.len() == 0 {
        None
    } else {
        Some(SelectionCursor::File { section: m.sections[0], file_index: 0 })
    }
}

/// The cursor on the last file of the last non-empty section.
pub open spec fn last_file_cursor_spec(status: &RepositoryStatus) -> Option<SelectionCursor> {
    match nonempty_section_upto(status, 3) {
        None => None,
        Some(section) => Some(
            SelectionCursor::File { section, file_index: (section_count(status, section) - 1) as usize },
        ),
    }
}

/// The section and file a cursor is on.
pub open spec fn cursor_file(cursor: SelectionCursor) -> (StatusSection, usize) {
    match cursor {
        SelectionCursor::File { section, file_index } => (section, file_index),
        SelectionCursor::Hunk { section, file_index, .. } => (section, file_index),
    }
}

/// The indices of a cursor leave room for one more step down.
pub open spec fn cursor_steppable(cursor: Option<SelectionCursor>) -> bool {
    match cursor {
        Some(SelectionCursor::File { file_index, .. }) => file_index < usize::MAX,
        Some(SelectionCursor::Hunk { file_index, hunk_index, .. }) => file_index < usize::MAX && hunk_index
            < usize::MAX,
        None => true,
    }
}

/// The file diff states after `cursor` was applied: when it is on a hunk of
/// a file with a kept state, that state's current hunk becomes the hunk,
/// clamped to the last hunk of its diff.
pub open spec fn diffs_after_cursor(
    diffs: Seq<InlineDiffState>,
    status: &RepositoryStatus,
    cursor: Option<SelectionCursor>,
) -> Seq<InlineDiffState> {
    match cursor {
        Some(SelectionCursor::Hunk { section, file_index, hunk_index }) => match status_path(
            status,
            section,
            file_index as int,
        ) {
            Some(path) => match diff_index_of(diffs, path, context_of(section)) {
                Some(k) => {
                    let state = diffs[k];
                    let max_index: int = match state.diff {
                        Some(d) => if d.hunks@.len() > 0 { d.hunks@.len() - 1 } else { 0 },
                        None => 0,
                    };
                    let current = if hunk_index <= max_index { hunk_index as int } else { max_index };
                    diffs.update(k, InlineDiffState { current_hunk: current as usize, ..state })
                },
                None => diffs,
            },
            None => diffs,
        },
        _ => diffs,
    }
}

/// The cursor moved onto a status: onto the first listing of the path it
/// is on, keeping its hunk (clamped to the file's hunks) while the file shows
/// hunks; `None` when the cursor is on no file of the status.
pub open spec fn mapped_cursor_spec(m: NavigationModel, status: &RepositoryStatus, cursor: SelectionCursor) -> Option<
    SelectionCursor,
> {
    let (section, file_index) = cursor_file(cursor);
    match status_path(status, section, file_index as int) {
        None => None,
        Some(path) => match first_index_from(section_paths(status, section), path, 0) {
            None => None,
            Some(new_index) => {
                let count = hunk_count(m, status, section, new_index);
                match cursor {
                    SelectionCursor::Hunk { hunk_index, .. } => if count > 0 {
                        Some(
                            SelectionCursor::Hunk {
                                section,
                                file_index: new_index as usize,
                                hunk_index: if hunk_index <= count - 1 {
                                    hunk_index
                                } else {
                                    (count - 1) as usize
                                },
                            },
                        )
                    } else {
                        Some(SelectionCursor::File { section, file_index: new_index as usize })
                    },
                    SelectionCursor::File { .. } => Some(
                        SelectionCursor::File { section, file_index: new_index as usize },
                    ),
                }
            },
        },
    }
}

/// The cursor made valid for a status: back to the first file when it is on
/// no file of the status, down to its file when the file shows no hunks, and
/// onto the last hunk when it is past the file's hunks.
pub open spec fn valid_cursor_spec(m: NavigationModel, status: &RepositoryStatus) -> Option<SelectionCursor> {
    match m.cursor {
        None => first_file_cursor_spec(m),
        Some(cursor) => {
            let (section, file_index) = cursor_file(cursor);
            if file_index >= section_count(status, section) {
                first_file_cursor_spec(m)
            } else {
                match cursor {
                    SelectionCursor::Hunk { hunk_index, .. } => {
                        let count = hunk_count(m, status, section, file_index as int);
                        if count == 0 {
                            Some(SelectionCursor::File { section, file_index })
                        } else if hunk_index >= count {
                            Some(
                                SelectionCursor::Hunk {
                                    section,
                                    file_index,
                                    hunk_index: (count - 1) as usize,
                                },
                            )
                        } else {
                            Some(cursor)
                        }
                    },
                    SelectionCursor::File { .. } => Some(cursor),
                }
            }
        },
    }
}

#[derive(Clone, Copy, Debug, PartialEq, Eq, Structural)]
struct SectionInfo {
    section_type: StatusSection,
}

pub struct NavigationState {
    cursor: Option<SelectionCursor>,
    sections: Vec<SectionInfo>,
    section_collapsed: SectionCollapsedState,
    file_diffs: Vec<InlineDiffState>,
    scroll_offset: usize,
    viewport_height: usize,
    max_scroll_offset: usize,
    manual_scroll_active: bool,
}

impl View for NavigationState {
    type V = NavigationModel;

    closed spec fn view(&self) -> NavigationModel {
        NavigationModel {
            cursor: self.cursor,
            sections: self.sections@.map_values(|s: SectionInfo| s.section_type),
            section_collapsed: self.section_collapsed,
            file_diffs: self.file_diffs@,
            scroll_offset: self.scroll_offset,
            viewport_height: self.viewport_height,
            max_scroll_offset: self.max_scroll_offset,
            manual_scroll_active: self.manual_scroll_active,
        }
    }
}

impl NavigationState {
    #[verifier::type_invariant]
    spec fn well_formed(self) -> bool {
        keys_unique(self.file_diffs@)
    }
}

} // verus!

verus! {

proof fn lemma_nonempty_upto(status: &RepositoryStatus, rank: int)
    ensures
        nonempty_section_upto(status, rank) matches Some(s) ==> section_count(status, s) > 0,
    decreases rank + 1,
{
    if 0 <= rank < 4 && section_count(status, section_at(rank)) == 0 {
        lemma_nonempty_upto(status, rank - 1);
    }
}

proof fn lemma_nonempty_from(status: &RepositoryStatus, rank: int)
    ensures
        nonempty_section_from(status, rank) matches Some(s) ==> section_count(status, s) > 0,
    decreases 4 - rank,
{
    if 0 <= rank < 4 && section_count(status, section_at(rank)) == 0 {
        lemma_nonempty_from(status, rank + 1);
    }
}

proof fn lemma_diff_index_unique(diffs: Seq<InlineDiffState>, path: Seq<char>, context: FileContext, k: int)
    requires
        keys_unique(diffs),
        0 <= k < diffs.len(),
        key_matches(diffs[k], path, context),
    ensures
        diff_index_of(diffs, path, context) == Some(k),
{
    let c = choose|i: int| 0 <= i < diffs.len() && key_matches(#[trigger] diffs[i], path, context);
    assert(key_matches(diffs[c], diffs[k].file_path@, diffs[k].file_context));
}

proof fn lemma_no_diff_index(diffs: Seq<InlineDiffState>, path: Seq<char>, context: FileContext)
    requires
        forall|i: int| 0 <= i < diffs.len() ==> !key_matches(#[trigger] diffs[i], path, context),
    ensures
        diff_index_of(diffs, path, context) is None,
{
}

impl NavigationState {
    pub fn new(status: &RepositoryStatus) -> (nav: Self)
        ensures
            nav@.sections == nonempty_sections_from(status, 0),
            nav@.cursor == first_file_cursor_spec(nav@),
            nav@.section_collapsed == (SectionCollapsedState {
                conflicted: false,
                unstaged: false,
                untracked: false,
                staged: false,
            }),
            nav@.file_diffs.len() == 0,
            nav@.scroll_offset == 0,
            nav@.viewport_height == 1,
            nav@.max_scroll_offset == 0,
            !nav@.manual_scroll_active,
    {
        let sections = Self::build_sections(status);
        let cursor = Self::first_file_cursor_from_sections(&sections);

        Self {
            cursor,
            sections,
            section_collapsed: SectionCollapsedState::default(),
            file_diffs: Vec::new(),
            scroll_offset: 0,
            viewport_height: 1,
            max_scroll_offset: 0,
            manual_scroll_active: false,
        }
    }

    fn section_order() -> (order: [StatusSection; 4])
        ensures
            forall|r: int| 0 <= r < 4 ==> #[trigger] order@[r] == section_at(r),
    {
        [StatusSection::Conflicted, StatusSection::Unstaged, StatusSection::Untracked, StatusSection::Staged]
    }

    fn build_sections(status: &RepositoryStatus) -> (sections: Vec<SectionInfo>)
        ensures
            sections@.map_values(|s: SectionInfo| s.section_type) == nonempty_sections_from(status, 0),
    {
        let mut sections: Vec<SectionInfo> = Vec::new();
        let order = Self::section_order();
        let mut r: usize = 0;
        while r < 4
            invariant
                r <= 4,
                forall|k: int| 0 <= k < 4 ==> #[trigger] order@[k] == section_at(k),
                sections@.map_values(|s: SectionInfo| s.section_type) + nonempty_sections_from(status, r as int)
                    == nonempty_sections_from(status, 0),
            decreases 4 - r,
        {
            let section = order[r];
            let count = Self::section_file_count_for_status(status, section);
            let ghost before = sections@.map_values(|s: SectionInfo| s.section_type);
            if count > 0 {
                sections.push(SectionInfo { section_type: section });
                assert(sections@.map_values(|s: SectionInfo| s.section_type) =~= before.push(section));
                assert(before + nonempty_sections_from(status, r as int) =~= before.push(section)
                    + nonempty_sections_from(status, r + 1));
            }
            r += 1;
        }
        assert(nonempty_sections_from(status, 4) =~= Seq::<StatusSection>::empty());
        assert(sections@.map_values(|s: SectionInfo| s.section_type) =~= sections@.map_values(
            |s: SectionInfo| s.section_type) + Seq::<StatusSection>::empty());
        sections
    }

    fn section_file_count_for_status(status: &RepositoryStatus, section: StatusSection) -> (count: usize)
        ensures
            count == section_count(status, section),
    {
        match section {
            StatusSection::Staged => status.staged_files().len(),
            StatusSection::Unstaged => status.unstaged_files().len(),
            StatusSection::Untracked => status.untracked_files().len(),
            StatusSection::Conflicted => status.conflicted_files().len(),
        }
    }

    pub(crate) fn file_path(&self, status: &RepositoryStatus, section: StatusSection, file_index: usize) -> (path: Option<String>)
        ensures
            path matches Some(p) ==> status_path(status, section, file_index as int) == Some(p@),
            path is None ==> status_path(status, section, file_index as int) is None,
    {
        match section {
            StatusSection::Staged => if file_index < status.staged.len() {
                Some(status.staged[file_index].path.clone())
            } else {
                None
            },
            StatusSection::Unstaged => if file_index < status.unstaged.len() {
                Some(status.unstaged[file_index].path.clone())
            } else {
                None
            },
            StatusSection::Untracked => if file_index < status.untracked.len() {
                Some(status.untracked[file_index].clone())
            } else {
                None
            },
            StatusSection::Conflicted => if file_index < status.conflicted.len() {
                Some(status.conflicted[file_index].clone())
            } else {
                None
            },
        }
    }

    fn path_at(status: &RepositoryStatus, section: StatusSection, i: usize) -> (path: &String)
        requires
            i < section_count(status, section),
        ensures
            path@ == section_paths(status, section)[i as int],
    {
        match section {
            StatusSection::Staged => &status.staged[i].path,
            StatusSection::Unstaged => &status.unstaged[i].path,
            StatusSection::Untracked => &status.untracked[i],
            StatusSection::Conflicted => &status.conflicted[i],
        }
    }

    fn find_file_index(&self, status: &RepositoryStatus, section: StatusSection, path: &String) -> (index: Option<usize>)
        ensures
            index matches Some(k) ==> first_index_from(section_paths(status, section), path@, 0) == Some(k as int),
            index is None ==> first_index_from(section_paths(status, section), path@, 0) is None,
    {
        let count = Self::section_file_count_for_status(status, section);
        let mut i: usize = 0;
        while i < count
            invariant
                count == section_count(status, section),
                i <= count,
                first_index_from(section_paths(status, section), path@, 0) == first_index_from(
                    section_paths(status, section),
                    path@,
                    i as int,
                ),
            decreases count - i,
        {
            if *Self::path_at(status, section, i) == *path {
                return Some(i);
            }
            i += 1;
        }
        None
    }

    fn next_non_empty_section(&self, status: &RepositoryStatus, section: StatusSection) -> (next: Option<StatusSection>)
        ensures
            next == nonempty_section_from(status, section_rank(section) + 1),
    {
        let order = Self::section_order();
        let mut r: usize = match section {
            StatusSection::Conflicted => 1,
            StatusSection::Unstaged => 2,
            StatusSection::Untracked => 3,
            StatusSection::Staged => 4,
        };
        while r < 4
            invariant
                r <= 4,
                forall|k: int| 0 <= k < 4 ==> #[trigger] order@[k] == section_at(k),
                nonempty_section_from(status, section_rank(section) + 1) == nonempty_section_from(status, r as int),
            decreases 4 - r,
        {
            if Self::section_file_count_for_status(status, order[r]) > 0 {
                return Some(order[r]);
            }
            r += 1;
        }
        None
    }

    fn previous_non_empty_section(&self, status: &RepositoryStatus, section: StatusSection) -> (previous: Option<
        StatusSection,
    >)
        ensures
            previous == nonempty_section_upto(status, section_rank(section) - 1),
    {
        let order = Self::section_order();
        let mut r: usize = match section {
            StatusSection::Conflicted => 0,
            StatusSection::Unstaged => 1,
            StatusSection::Untracked => 2,
            StatusSection::Staged => 3,
        };
        while r > 0
            invariant
                r <= 3,
                forall|k: int| 0 <= k < 4 ==> #[trigger] order@[k] == section_at(k),
                nonempty_section_upto(status, section_rank(section) - 1) == nonempty_section_upto(status, r - 1),
            decreases r,
        {
            if Self::section_file_count_for_status(status, order[r - 1]) > 0 {
                return Some(order[r - 1]);
            }
            r -= 1;
        }
        None
    }

    pub fn section_file_count(&self, status: &RepositoryStatus, section: StatusSection) -> (count: usize)
        ensures
            count == section_count(status, section),
    {
        Self::section_file_count_for_status(status, section)
    }

    fn find_diff_index(&self, path: &String, context: FileContext) -> (index: Option<usize>)
        ensures
            index matches Some(k) ==> diff_index_of(self@.file_diffs, path@, context) == Some(k as int),
            index is None ==> diff_index_of(self@.file_diffs, path@, context) is None,
    {
        proof {
            use_type_invariant(self);
        }
        let n = self.file_diffs.len();
        let mut i: usize = 0;
        while i < n
            invariant
                n == self.file_diffs@.len(),
                i <= n,
                keys_unique(self.file_diffs@),
                forall|k: int| 0 <= k < i ==> !key_matches(#[trigger] self.file_diffs@[k], path@, context),
            decreases n - i,
        {
            if self.file_diffs[i].file_path == *path && self.file_diffs[i].file_context == context {
                proof {
                    lemma_diff_index_unique(self.file_diffs@, path@, context, i as int);
                }
                return Some(i);
            }
            i += 1;
        }
        None
    }
}

} // verus!

verus! {

impl NavigationState {
    fn first_file_cursor_from_sections(sections: &Vec<SectionInfo>) -> (cursor: Option<SelectionCursor>)
        ensures
            sections@.len() == 0 ==> cursor is None,
            sections@.len() > 0 ==> cursor == Some(
                SelectionCursor::File { section: sections@[0].section_type, file_index: 0 },
            ),
    {
        if sections.len() > 0 {
            Some(SelectionCursor::File { section: sections[0].section_type, file_index: 0 })
        } else {
            None
        }
    }

    pub fn hunk_count_for_file(&self, status: &RepositoryStatus, section: StatusSection, file_index: usize) -> (count: usize)
        ensures
            count == hunk_count(self@, status, section, file_index as int),
    {
        let path = match self.file_path(status, section, file_index) {
            Some(p) => p,
            None => return 0,
        };
        match self.find_diff_index(&path, file_context_for(section)) {
            Some(k) => {
                let state = &self.file_diffs[k];
                if !state.expanded {
                    return 0;
                }
                match &state.diff {
                    Some(diff) => diff.hunks.len(),
                    None => 0,
                }
            },
            None => 0,
        }
    }

    fn file_diff_key_for(&self, status: &RepositoryStatus, section: StatusSection, file_index: usize) -> (key: Option<
        FileDiffKey,
    >)
        ensures
            key matches Some(k) ==> status_path(status, section, file_index as int) == Some(k.path@)
                && k.context == context_of(section),
            key is None ==> status_path(status, section, file_index as int) is None,
    {
        let path = self.file_path(status, section, file_index)?;
        Some(FileDiffKey::new(path, file_context_for(section)))
    }

    pub fn is_file_diff_expanded(&self, key: &FileDiffKey) -> (expanded: bool)
        ensures
            expanded == (diff_state_of(self@.file_diffs, key.path@, key.context) matches Some(state)
                && state.expanded),
    {
        match self.find_diff_index(&key.path, key.context) {
            Some(k) => self.file_diffs[k].expanded,
            None => false,
        }
    }

    pub fn has_cached_diff_for(&self, key: &FileDiffKey, context: &DiffContext) -> (cached: bool)
        ensures
            cached == (diff_state_of(self@.file_diffs, key.path@, key.context) matches Some(state)
                && state.diff is Some && state.diff_context == *context),
    {
        match self.find_diff_index(&key.path, key.context) {
            Some(k) => self.file_diffs[k].diff.is_some() && self.file_diffs[k].diff_context == *context,
            None => false,
        }
    }

    pub fn get_file_diff(&self, key: &FileDiffKey) -> (state: Option<&InlineDiffState>)
        ensures
            state matches Some(s) ==> diff_state_of(self@.file_diffs, key.path@, key.context) == Some(*s),
            state is None ==> diff_state_of(self@.file_diffs, key.path@, key.context) is None,
    {
        match self.find_diff_index(&key.path, key.context) {
            Some(k) => Some(&self.file_diffs[k]),
            None => None,
        }
    }

    pub fn first_file_cursor(&self, status: &RepositoryStatus) -> (cursor: Option<SelectionCursor>)
        ensures
            cursor == first_file_cursor_spec(self@),
    {
        if self.sections.is_empty() {
            return None;
        }
        Self::first_file_cursor_from_sections(&self.sections)
    }

    pub fn last_file_cursor(&self, status: &RepositoryStatus) -> (cursor: Option<SelectionCursor>)
        ensures
            cursor == last_file_cursor_spec(status),
    {
        proof {
            lemma_nonempty_upto(status, 2);
        }
        let section = if Self::section_file_count_for_status(status, StatusSection::Staged) > 0 {
            StatusSection::Staged
        } else {
            match self.previous_non_empty_section(status, StatusSection::Staged) {
                Some(s) => s,
                None => return None,
            }
        };
        let last_index = Self::section_file_count_for_status(status, section).saturating_sub(1);
        Some(SelectionCursor::File { section, file_index: last_index })
    }

    fn next_file_cursor(&self, status: &RepositoryStatus, section: StatusSection, file_index: usize) -> (cursor: Option<
        SelectionCursor,
    >)
        requires
            file_index < usize::MAX,
        ensures
            cursor == next_file_cursor_spec(status, section, file_index as int),
    {
        let count = Self::section_file_count_for_status(status, section);
        if file_index + 1 < count {
            return Some(SelectionCursor::File { section, file_index: file_index + 1 });
        }

        let next_section = self.next_non_empty_section(status, section)?;
        Some(SelectionCursor::File { section: next_section, file_index: 0 })
    }

    fn next_cursor(&self, status: &RepositoryStatus, cursor: &SelectionCursor) -> (next: Option<SelectionCursor>)
        requires
            cursor_steppable(Some(*cursor)),
        ensures
            next == next_cursor_spec(self@, status, *cursor),
    {
        match *cursor {
            SelectionCursor::File { section, file_index } => {
                let key = self.file_diff_key_for(status, section, file_index);
                if let Some(key) = key {
                    if self.is_file_diff_expanded(&key) {
                        let hunk_count = self.hunk_count_for_file(status, section, file_index);
                        if hunk_count > 0 {
                            return Some(SelectionCursor::Hunk { section, file_index, hunk_index: 0 });
                        }
                    }
                }
                self.next_file_cursor(status, section, file_index)
            },
            SelectionCursor::Hunk { section, file_index, hunk_index } => {
                let hunk_count = self.hunk_count_for_file(status, section, file_index);
                if hunk_index + 1 < hunk_count {
                    return Some(
                        SelectionCursor::Hunk { section, file_index, hunk_index: hunk_index + 1 },
                    );
                }
                self.next_file_cursor(status, section, file_index)
            },
        }
    }

    fn last_item_cursor(&self, status: &RepositoryStatus, section: StatusSection, file_index: usize) -> (cursor:
        SelectionCursor)
        ensures
            cursor == last_item_of_file(self@, status, section, file_index as int),
    {
        let key = self.file_diff_key_for(status, section, file_index);
        if let Some(key) = key {
            if self.is_file_diff_expanded(&key) {
                let hunk_count = self.hunk_count_for_file(status, section, file_index);
                if hunk_count > 0 {
                    return SelectionCursor::Hunk {
                        section,
                        file_index,
                        hunk_index: hunk_count.saturating_sub(1),
                    };
                }
            }
        }
        SelectionCursor::File { section, file_index }
    }

    fn previous_cursor(&self, status: &RepositoryStatus, cursor: &SelectionCursor) -> (previous: Option<
        SelectionCursor,
    >)
        ensures
            previous == previous_cursor_spec(self@, status, *cursor),
    {
        match *cursor {
            SelectionCursor::File { section, file_index } => {
                if file_index == 0 {
                    let prev_section = self.previous_non_empty_section(status, section)?;
                    proof {
                        lemma_nonempty_upto(status, section_rank(section) - 1);
                    }
                    let prev_count = Self::section_file_count_for_status(status, prev_section);
                    if prev_count == 0 {
                        return None;
                    }
                    let prev_index = prev_count.saturating_sub(1);
                    return Some(self.last_item_cursor(status, prev_section, prev_index));
                }
                let prev_index = file_index - 1;
                Some(self.last_item_cursor(status, section, prev_index))
            },
            SelectionCursor::Hunk { section, file_index, hunk_index } => {
                if hunk_index > 0 {
                    return Some(
                        SelectionCursor::Hunk { section, file_index, hunk_index: hunk_index - 1 },
                    );
                }
                Some(SelectionCursor::File { section, file_index })
            },
        }
    }
}

} // verus!

verus! {

impl NavigationState {
    fn map_cursor_to_status(&self, status: &RepositoryStatus, cursor: SelectionCursor) -> (mapped: Option<
        SelectionCursor,
    >)
        ensures
            mapped == mapped_cursor_spec(self@, status, cursor),
    {
        let (section, file_index) = match cursor {
            SelectionCursor::File { section, file_index } => (section, file_index),
            SelectionCursor::Hunk { section, file_index, .. } => (section, file_index),
        };
        let path = self.file_path(status, section, file_index)?;
        let new_index = self.find_file_index(status, section, &path)?;

        if let SelectionCursor::Hunk { hunk_index, .. } = cursor {
            let hunk_count = self.hunk_count_for_file(status, section, new_index);
            if hunk_count > 0 {
                let last = hunk_count - 1;
                let clamped = if hunk_index < last { hunk_index } else { last };
                return Some(SelectionCursor::Hunk { section, file_index: new_index, hunk_index: clamped });
            }
        }

        Some(SelectionCursor::File { section, file_index: new_index })
    }

    pub fn apply_cursor(&mut self, status: &RepositoryStatus, cursor: Option<SelectionCursor>)
        ensures
            final(self)@ == (NavigationModel {
                cursor,
                file_diffs: diffs_after_cursor(old(self)@.file_diffs, status, cursor),
                ..old(self)@
            }),
    {
        proof {
            use_type_invariant(&*self);
        }
        if let Some(SelectionCursor::Hunk { section, file_index, hunk_index }) = cursor {
            if let Some(key) = self.file_diff_key_for(status, section, file_index) {
                if let Some(k) = self.find_diff_index(&key.path, key.context) {
                    let max_index = match &self.file_diffs[k].diff {
                        Some(d) => d.hunks.len().saturating_sub(1),
                        None => 0,
                    };
                    let current = if hunk_index < max_index { hunk_index } else { max_index };
                    let ghost before = self.file_diffs@;
                    let mut diffs: Vec<InlineDiffState> = Vec::new();
                    std::mem::swap(&mut diffs, &mut self.file_diffs);
                    diffs[k].current_hunk = current;
                    proof {
                        assert(diffs@ =~= before.update(
                            k as int,
                            InlineDiffState { current_hunk: current, ..before[k as int] },
                        ));
                        assert forall|i: int, j: int|
                            #![trigger diffs@[i], diffs@[j]]
                            0 <= i < diffs@.len() && 0 <= j < diffs@.len() && key_matches(
                                diffs@[i],
                                diffs@[j].file_path@,
                                diffs@[j].file_context,
                            ) implies i == j by {
                            assert(key_matches(before[i], before[j].file_path@, before[j].file_context));
                        }
                    }
                    self.file_diffs = diffs;
                }
            }
        }

        self.cursor = cursor;
    }

    pub fn ensure_cursor_valid(&mut self, status: &RepositoryStatus)
        ensures
            final(self)@ == (NavigationModel { cursor: valid_cursor_spec(old(self)@, status), ..old(self)@ }),
    {
        proof {
            use_type_invariant(&*self);
        }
        let cursor = match self.cursor {
            Some(c) => c,
            None => {
                self.cursor = self.first_file_cursor(status);
                return;
            },
        };

        let (section, file_index) = match cursor {
            SelectionCursor::File { section, file_index } => (section, file_index),
            SelectionCursor::Hunk { section, file_index, .. } => (section, file_index),
        };

        let file_exists = file_index < Self::section_file_count_for_status(status, section)
            && self.file_path(status, section, file_index).is_some();
        if !file_exists {
            self.cursor = self.first_file_cursor(status);
            return;
        }

        if let SelectionCursor::Hunk { section, file_index, hunk_index } = cursor {
            let hunk_count = self.hunk_count_for_file(status, section, file_index);
            if hunk_count == 0 {
                self.cursor = Some(SelectionCursor::File { section, file_index });
                return;
            }
            if hunk_index >= hunk_count {
                self.cursor = Some(
                    SelectionCursor::Hunk { section, file_index, hunk_index: hunk_count.saturating_sub(1) },
                );
                return;
            }
        }

        self.cursor = Some(cursor);
    }

    fn reset_scroll_position(&mut self)
        ensures
            final(self)@ == (NavigationModel { scroll_offset: 0, manual_scroll_active: false, ..old(self)@ }),
    {
        proof {
            use_type_invariant(&*self);
        }
        self.scroll_offset = 0;
        self.clear_manual_scroll();
    }

    pub fn update_status(&mut self, status: &RepositoryStatus)
        ensures
            ({
                let with_sections = NavigationModel {
                    sections: nonempty_sections_from(status, 0),
                    ..old(self)@
                };
                let mapped = match old(self)@.cursor {
                    Some(c) => mapped_cursor_spec(with_sections, status, c),
                    None => None,
                };
                let candidate = if mapped is Some { mapped } else { first_file_cursor_spec(with_sections) };
                let with_cursor = NavigationModel {
                    cursor: if candidate is Some { candidate } else { old(self)@.cursor },
                    ..with_sections
                };
                final(self)@ == NavigationModel {
                    cursor: valid_cursor_spec(with_cursor, status),
                    scroll_offset: 0,
                    manual_scroll_active: false,
                    ..with_cursor
                }
            }),
    {
        proof {
            use_type_invariant(&*self);
        }
        let new_sections = Self::build_sections(status);
        let prev_cursor = self.cursor;
        self.sections = new_sections;

        let mapped = match prev_cursor {
            Some(c) => self.map_cursor_to_status(status, c),
            None => None,
        };
        let candidate = match mapped {
            Some(c) => Some(c),
            None => Self::first_file_cursor_from_sections(&self.sections),
        };
        if let Some(cursor) = candidate {
            self.cursor = Some(cursor);
        }

        self.ensure_cursor_valid(status);
        self.reset_scroll_position();
        self.clear_manual_scroll();
    }

    pub fn move_to_previous(&mut self, status: &RepositoryStatus)
        ensures
            ({
                let cleared = NavigationModel { manual_scroll_active: false, ..old(self)@ };
                let target = match old(self)@.cursor {
                    Some(c) => previous_cursor_spec(old(self)@, status, c),
                    None => first_file_cursor_spec(old(self)@),
                };
                if old(self)@.cursor is Some && target is None {
                    final(self)@ == cleared
                } else {
                    final(self)@ == (NavigationModel {
                        cursor: target,
                        file_diffs: diffs_after_cursor(old(self)@.file_diffs, status, target),
                        ..cleared
                    })
                }
            }),
    {
        proof {
            use_type_invariant(&*self);
        }
        self.clear_manual_scroll();
        if let Some(cursor) = self.current_cursor() {
            if let Some(prev) = self.previous_cursor(status, &cursor) {
                self.apply_cursor(status, Some(prev));
            }
        } else {
            let first = self.first_file_cursor(status);
            self.apply_cursor(status, first);
        }
    }

    pub fn move_to_next(&mut self, status: &RepositoryStatus)
        requires
            cursor_steppable(old(self)@.cursor),
        ensures
            ({
                let cleared = NavigationModel { manual_scroll_active: false, ..old(self)@ };
                let target = match old(self)@.cursor {
                    Some(c) => next_cursor_spec(old(self)@, status, c),
                    None => first_file_cursor_spec(old(self)@),
                };
                if old(self)@.cursor is Some && target is None {
                    final(self)@ == cleared
                } else {
                    final(self)@ == (NavigationModel {
                        cursor: target,
                        file_diffs: diffs_after_cursor(old(self)@.file_diffs, status, target),
                        ..cleared
                    })
                }
            }),
    {
        proof {
            use_type_invariant(&*self);
        }
        self.clear_manual_scroll();
        if let Some(cursor) = self.current_cursor() {
            if let Some(next) = self.next_cursor(status, &cursor) {
                self.apply_cursor(status, Some(next));
            }
        } else {
            let first = self.first_file_cursor(status);
            self.apply_cursor(status, first);
        }
    }

    pub fn move_to_top(&mut self, status: &RepositoryStatus)
        ensures
            ({
                let target = first_file_cursor_spec(old(self)@);
                final(self)@ == (NavigationModel {
                    cursor: target,
                    file_diffs: diffs_after_cursor(old(self)@.file_diffs, status, target),
                    manual_scroll_active: false,
                    ..old(self)@
                })
            }),
    {
        proof {
            use_type_invariant(&*self);
        }
        self.clear_manual_scroll();
        let first = self.first_file_cursor(status);
        self.apply_cursor(status, first);
    }

    pub fn move_to_bottom(&mut self, status: &RepositoryStatus)
        ensures
            ({
                let target = last_file_cursor_spec(status);
                final(self)@ == (NavigationModel {
                    cursor: target,
                    file_diffs: diffs_after_cursor(old(self)@.file_diffs, status, target),
                    manual_scroll_active: false,
                    ..old(self)@
                })
            }),
    {
        proof {
            use_type_invariant(&*self);
        }
        self.clear_manual_scroll();
        let last = self.last_file_cursor(status);
        self.apply_cursor(status, last);
    }

    pub fn current_section(&self) -> (section: Option<StatusSection>)
        ensures
            section == match self@.cursor {
                Some(c) => Some(cursor_file(c).0),
                None => None,
            },
    {
        match self.cursor {
            Some(SelectionCursor::File { section, .. }) => Some(section),
            Some(SelectionCursor::Hunk { section, .. }) => Some(section),
            None => None,
        }
    }

    pub fn selected_index(&self) -> (index: Option<usize>)
        ensures
            index == match self@.cursor {
                Some(c) => Some(cursor_file(c).1),
                None => None,
            },
    {
        match self.cursor {
            Some(SelectionCursor::File { file_index, .. }) => Some(file_index),
            Some(SelectionCursor::Hunk { file_index, .. }) => Some(file_index),
            None => None,
        }
    }

    pub fn current_cursor(&self) -> (cursor: Option<SelectionCursor>)
        ensures
            cursor == self@.cursor,
    {
        self.cursor
    }

    pub fn cursor_position(&self) -> (position: Option<(StatusSection, usize, Option<usize>)>)
        ensures
            position == match self@.cursor {
                Some(SelectionCursor::File { section, file_index }) => Some((section, file_index, None)),
                Some(SelectionCursor::Hunk { section, file_index, hunk_index }) => Some(
                    (section, file_index, Some(hunk_index)),
                ),
                None => None,
            },
    {
        match self.cursor? {
            SelectionCursor::File { section, file_index } => Some((section, file_index, None)),
            SelectionCursor::Hunk { section, file_index, hunk_index } => Some(
                (section, file_index, Some(hunk_index)),
            ),
        }
    }

    pub fn has_selections(&self) -> (selected: bool)
        ensures
            selected == self@.cursor is Some,
    {
        self.cursor.is_some()
    }

    pub fn get_selected_file(&self, status: &RepositoryStatus) -> (selected: Option<SelectedFile>)
        ensures
            match self@.cursor {
                None => selected is None,
                Some(c) => {
                    let (section, file_index) = cursor_file(c);
                    match status_path(status, section, file_index as int) {
                        None => selected is None,
                        Some(path) => selected matches Some(f) && f.path@ == path && f.context == context_of(
                            section,
                        ),
                    }
                },
            },
    {
        let cursor = self.cursor?;
        let (section, file_index) = match cursor {
            SelectionCursor::File { section, file_index } => (section, file_index),
            SelectionCursor::Hunk { section, file_index, .. } => (section, file_index),
        };

        let path = self.file_path(status, section, file_index)?;
        let context = file_context_for(section);

        Some(SelectedFile { path, context })
    }

    pub fn get_operation_context(&self) -> (context: OperationContext)
        ensures
            context == match self@.cursor {
                Some(c) => match cursor_file(c).0 {
                    StatusSection::Staged => OperationContext::CanUnstage,
                    StatusSection::Unstaged => OperationContext::CanStage,
                    StatusSection::Untracked => OperationContext::CanAdd,
                    StatusSection::Conflicted => OperationContext::ReadOnly,
                },
                None => OperationContext::ReadOnly,
            },
    {
        match self.current_section() {
            Some(StatusSection::Staged) => OperationContext::CanUnstage,
            Some(StatusSection::Unstaged) => OperationContext::CanStage,
            Some(StatusSection::Untracked) => OperationContext::CanAdd,
            Some(StatusSection::Conflicted) => OperationContext::ReadOnly,
            None => OperationContext::ReadOnly,
        }
    }

    pub fn is_section_collapsed(&self, section: StatusSection) -> (collapsed: bool)
        ensures
            collapsed == match section {
                StatusSection::Conflicted => self@.section_collapsed.conflicted,
                StatusSection::Unstaged => self@.section_collapsed.unstaged,
                StatusSection::Untracked => self@.section_collapsed.untracked,
                StatusSection::Staged => self@.section_collapsed.staged,
            },
    {
        match section {
            StatusSection::Conflicted => self.section_collapsed.conflicted,
            StatusSection::Unstaged => self.section_collapsed.unstaged,
            StatusSection::Untracked => self.section_collapsed.untracked,
            StatusSection::Staged => self.section_collapsed.staged,
        }
    }

    pub fn toggle_section_collapsed(&mut self, section: StatusSection)
        ensures
            final(self)@ == (NavigationModel {
                section_collapsed: match section {
                    StatusSection::Conflicted => SectionCollapsedState {
                        conflicted: !old(self)@.section_collapsed.conflicted,
                        ..old(self)@.section_collapsed
                    },
                    StatusSection::Unstaged => SectionCollapsedState {
                        unstaged: !old(self)@.section_collapsed.unstaged,
                        ..old(self)@.section_collapsed
                    },
                    StatusSection::Untracked => SectionCollapsedState {
                        untracked: !old(self)@.section_collapsed.untracked,
                        ..old(self)@.section_collapsed
                    },
                    StatusSection::Staged => SectionCollapsedState {
                        staged: !old(self)@.section_collapsed.staged,
                        ..old(self)@.section_collapsed
                    },
                },
                manual_scroll_active: false,
                ..old(self)@
            }),
    {
        proof {
            use_type_invariant(&*self);
        }
        match section {
            StatusSection::Conflicted => {
                self.section_collapsed.conflicted = !self.section_collapsed.conflicted
            },
            StatusSection::Unstaged => { self.section_collapsed.unstaged = !self.section_collapsed.unstaged },
            StatusSection::Untracked => {
                self.section_collapsed.untracked = !self.section_collapsed.untracked
            },
            StatusSection::Staged => { self.section_collapsed.staged = !self.section_collapsed.staged },
        }
        self.clear_manual_scroll();
    }

    pub fn scroll_offset(&self) -> (offset: usize)
        ensures
            offset == self@.scroll_offset,
    {
        self.scroll_offset
    }

    pub fn viewport_height(&self) -> (height: usize)
        ensures
            height == self@.viewport_height,
    {
        self.viewport_height
    }

    pub fn set_scroll_offset(&mut self, offset: usize)
        ensures
            final(self)@ == (NavigationModel { scroll_offset: offset, ..old(self)@ }),
    {
        proof {
            use_type_invariant(&*self);
        }
        self.scroll_offset = offset;
    }

    pub fn scroll_viewport_up(&mut self, lines: usize)
        ensures
            lines == 0 ==> final(self)@ == old(self)@,
            lines > 0 ==> final(self)@ == (NavigationModel {
                scroll_offset: if old(self)@.scroll_offset >= lines {
                    (old(self)@.scroll_offset - lines) as usize
                } else {
                    0
                },
                manual_scroll_active: true,
                ..old(self)@
            }),
    {
        proof {
            use_type_invariant(&*self);
        }
        if lines == 0 {
            return;
        }
        let current = self.scroll_offset;
        let new_offset = current.saturating_sub(lines);
        self.scroll_offset = new_offset;
        self.manual_scroll_active = true;
    }

    pub fn scroll_viewport_down(&mut self, lines: usize)
        ensures
            lines == 0 ==> final(self)@ == old(self)@,
            lines > 0 ==> final(self)@ == (NavigationModel {
                scroll_offset: if old(self)@.scroll_offset + lines <= usize::MAX {
                    (old(self)@.scroll_offset + lines) as usize
                } else {
                    usize::MAX
                },
                manual_scroll_active: true,
                ..old(self)@
            }),
    {
        proof {
            use_type_invariant(&*self);
        }
        if lines == 0 {
            return;
        }
        let current = self.scroll_offset;
        let new_offset = current.saturating_add(lines);
        self.scroll_offset = new_offset;
        self.manual_scroll_active = true;
    }

    pub fn is_manual_scroll_active(&self) -> (active: bool)
        ensures
            active == self@.manual_scroll_active,
    {
        self.manual_scroll_active
    }

    pub fn set_manual_scroll_active(&mut self, active: bool)
        ensures
            final(self)@ == (NavigationModel { manual_scroll_active: active, ..old(self)@ }),
    {
        proof {
            use_type_invariant(&*self);
        }
        self.manual_scroll_active = active;
    }

    pub fn clear_manual_scroll(&mut self)
        ensures
            final(self)@ == (NavigationModel { manual_scroll_active: false, ..old(self)@ }),
    {
        proof {
            use_type_invariant(&*self);
        }
        self.manual_scroll_active = false;
    }
}

} // verus!

verus! {

proof fn lemma_state_at(diffs: Seq<InlineDiffState>, path: Seq<char>, context: FileContext, k: int)
    requires
        keys_unique(diffs),
        0 <= k < diffs.len(),
        key_matches(diffs[k], path, context),
    ensures
        diff_state_of(diffs, path, context) == Some(diffs[k]),
{
    lemma_diff_index_unique(diffs, path, context, k);
}

/// The other files keep their inline diff states.
pub open spec fn other_states_kept(
    before: Seq<InlineDiffState>,
    after: Seq<InlineDiffState>,
    path: Seq<char>,
    context: FileContext,
) -> bool {
    forall|p: Seq<char>, c: FileContext|
        !(p == path && c == context) ==> #[trigger] diff_state_of(after, p, c) == diff_state_of(before, p, c)
}

/// The lines of context a file's diff starts with, git's default.
pub const DEFAULT_CONTEXT_LINES: usize = 3;

/// `state` is a fresh state for a file: its key, the diff context given,
/// no hunk selected beyond the first, and no hunk collapsed.
pub open spec fn fresh_state(
    state: InlineDiffState,
    path: Seq<char>,
    context: FileContext,
    diff_context: DiffContext,
) -> bool {
    &&& state.file_path@ == path
    &&& state.file_context == context
    &&& state.diff_context == diff_context
    &&& state.expanded
    &&& state.current_hunk == 0
    &&& state.collapsed_hunks@ == Set::<usize>::empty()
    &&& state.context_lines == DEFAULT_CONTEXT_LINES
}

proof fn lemma_update_keeps_others(
    before: Seq<InlineDiffState>,
    k: int,
    state: InlineDiffState,
    path: Seq<char>,
    context: FileContext,
)
    requires
        keys_unique(before),
        0 <= k < before.len(),
        key_matches(before[k], path, context),
        key_matches(state, path, context),
    ensures
        keys_unique(before.update(k, state)),
        other_states_kept(before, before.update(k, state), path, context),
        diff_state_of(before.update(k, state), path, context) == Some(state),
{
    let after = before.update(k, state);
    assert forall|i: int, j: int|
        #![trigger after[i], after[j]]
        0 <= i < after.len() && 0 <= j < after.len() && key_matches(
            after[i],
            after[j].file_path@,
            after[j].file_context,
        ) implies i == j by {
        assert(key_matches(before[i], before[j].file_path@, before[j].file_context));
    }
    lemma_state_at(after, path, context, k);
    assert forall|p: Seq<char>, c: FileContext| !(p == path && c == context) implies #[trigger] diff_state_of(
        after,
        p,
        c,
    ) == diff_state_of(before, p, c) by {
        if exists|i: int| 0 <= i < before.len() && key_matches(#[trigger] before[i], p, c) {
            let i = choose|i: int| 0 <= i < before.len() && key_matches(#[trigger] before[i], p, c);
            lemma_state_at(before, p, c, i);
            assert(i != k);
            lemma_state_at(after, p, c, i);
        } else {
            assert forall|i: int| 0 <= i < after.len() implies !key_matches(#[trigger] after[i], p, c) by {
                if i != k {
                    assert(after[i] == before[i]);
                }
            }
        }
    }
}

proof fn lemma_push_keeps_others(before: Seq<InlineDiffState>, state: InlineDiffState, path: Seq<char>, context: FileContext)
    requires
        keys_unique(before),
        forall|i: int| 0 <= i < before.len() ==> !key_matches(#[trigger] before[i], path, context),
        key_matches(state, path, context),
    ensures
        keys_unique(before.push(state)),
        other_states_kept(before, before.push(state), path, context),
        diff_state_of(before.push(state), path, context) == Some(state),
{
    let after = before.push(state);
    assert forall|i: int, j: int|
        #![trigger after[i], after[j]]
        0 <= i < after.len() && 0 <= j < after.len() && key_matches(
            after[i],
            after[j].file_path@,
            after[j].file_context,
        ) implies i == j by {
        if i < before.len() && j < before.len() {
            assert(key_matches(before[i], before[j].file_path@, before[j].file_context));
        } else if i < before.len() {
            assert(after[j] == state);
        } else if j < before.len() {
            assert(key_matches(before[j], path, context));
        }
    }
    lemma_state_at(after, path, context, before.len() as int);
    assert forall|p: Seq<char>, c: FileContext| !(p == path && c == context) implies #[trigger] diff_state_of(
        after,
        p,
        c,
    ) == diff_state_of(before, p, c) by {
        if exists|i: int| 0 <= i < before.len() && key_matches(#[trigger] before[i], p, c) {
            let i = choose|i: int| 0 <= i < before.len() && key_matches(#[trigger] before[i], p, c);
            lemma_state_at(before, p, c, i);
            lemma_state_at(after, p, c, i);
        } else {
            assert forall|i: int| 0 <= i < after.len() implies !key_matches(#[trigger] after[i], p, c) by {
                if i < before.len() {
                    assert(after[i] == before[i]);
                }
            }
        }
    }
}

proof fn lemma_remove_keeps_others(before: Seq<InlineDiffState>, k: int, path: Seq<char>, context: FileContext)
    requires
        keys_unique(before),
        0 <= k < before.len(),
        key_matches(before[k], path, context),
    ensures
        keys_unique(before.remove(k)),
        other_states_kept(before, before.remove(k), path, context),
        diff_state_of(before.remove(k), path, context) is None,
{
    let after = before.remove(k);
    assert forall|i: int, j: int|
        #![trigger after[i], after[j]]
        0 <= i < after.len() && 0 <= j < after.len() && key_matches(
            after[i],
            after[j].file_path@,
            after[j].file_context,
        ) implies i == j by {
        let bi = if i < k { i } else { i + 1 };
        let bj = if j < k { j } else { j + 1 };
        assert(after[i] == before[bi]);
        assert(after[j] == before[bj]);
        assert(key_matches(before[bi], before[bj].file_path@, before[bj].file_context));
    }
    assert forall|i: int| 0 <= i < after.len() implies !key_matches(#[trigger] after[i], path, context) by {
        let bi = if i < k { i } else { i + 1 };
        assert(after[i] == before[bi]);
        if key_matches(before[bi], path, context) {
            assert(key_matches(before[bi], before[k].file_path@, before[k].file_context));
        }
    }
    assert forall|p: Seq<char>, c: FileContext| !(p == path && c == context) implies #[trigger] diff_state_of(
        after,
        p,
        c,
    ) == diff_state_of(before, p, c) by {
        if exists|i: int| 0 <= i < before.len() && key_matches(#[trigger] before[i], p, c) {
            let i = choose|i: int| 0 <= i < before.len() && key_matches(#[trigger] before[i], p, c);
            lemma_state_at(before, p, c, i);
            assert(i != k);
            let ai = if i < k { i } else { i - 1 };
            assert(after[ai] == before[i]);
            lemma_state_at(after, p, c, ai);
        } else {
            assert forall|i: int| 0 <= i < after.len() implies !key_matches(#[trigger] after[i], p, c) by {
                let bi = if i < k { i } else { i + 1 };
                assert(after[i] == before[bi]);
            }
        }
    }
}

fn empty_index_set() -> (set: HashSet<usize>)
    ensures
        set@ == Set::<usize>::empty(),
{
    HashSet::new()
}

impl NavigationState {
    pub fn toggle_file_diff_expanded(&mut self, key: FileDiffKey, diff_context: DiffContext)
        ensures
            final(self)@ == (NavigationModel {
                file_diffs: final(self)@.file_diffs,
                manual_scroll_active: false,
                ..old(self)@
            }),
            other_states_kept(old(self)@.file_diffs, final(self)@.file_diffs, key.path@, key.context),
            match diff_state_of(old(self)@.file_diffs, key.path@, key.context) {
                Some(state) => diff_state_of(final(self)@.file_diffs, key.path@, key.context) == Some(
                    InlineDiffState { expanded: !state.expanded, ..state },
                ),
                None => diff_state_of(final(self)@.file_diffs, key.path@, key.context) matches Some(state)
                    && fresh_state(state, key.path@, key.context, diff_context) && state.diff is None,
            },
    {
        proof {
            use_type_invariant(&*self);
        }
        let ghost before = self.file_diffs@;
        let mut diffs: Vec<InlineDiffState> = Vec::new();
        std::mem::swap(&mut diffs, &mut self.file_diffs);
        match self.find_index_in(&diffs, &key.path, key.context) {
            Some(k) => {
                proof {
                    lemma_state_at(before, key.path@, key.context, k as int);
                }
                let expanded = diffs[k].expanded;
                diffs[k].expanded = !expanded;
                proof {
                    let state = InlineDiffState { expanded: !before[k as int].expanded, ..before[k as int] };
                    assert(diffs@ =~= before.update(k as int, state));
                    lemma_update_keeps_others(before, k as int, state, key.path@, key.context);
                }
            },
            None => {
                let state = InlineDiffState {
                    file_path: key.path.clone(),
                    file_context: key.context,
                    diff_context,
                    diff: None,
                    expanded: true,
                    current_hunk: 0,
                    collapsed_hunks: empty_index_set(),
                    context_lines: DEFAULT_CONTEXT_LINES,
                };
                proof {
                    lemma_push_keeps_others(before, state, key.path@, key.context);
                }
                diffs.push(state);
            },
        }
        self.file_diffs = diffs;
        self.clear_manual_scroll();
    }

    fn find_index_in(&self, diffs: &Vec<InlineDiffState>, path: &String, context: FileContext) -> (index: Option<usize>)
        requires
            keys_unique(diffs@),
        ensures
            index matches Some(k) ==> k < diffs@.len() && key_matches(diffs@[k as int], path@, context),
            index is None ==> forall|i: int| 0 <= i < diffs@.len() ==> !key_matches(
                #[trigger] diffs@[i],
                path@,
                context,
            ),
    {
        let n = diffs.len();
        let mut i: usize = 0;
        while i < n
            invariant
                n == diffs@.len(),
                i <= n,
                forall|k: int| 0 <= k < i ==> !key_matches(#[trigger] diffs@[k], path@, context),
            decreases n - i,
        {
            if diffs[i].file_path == *path && diffs[i].file_context == context {
                return Some(i);
            }
            i += 1;
        }
        None
    }

    pub fn set_file_diff(&mut self, key: FileDiffKey, diff: Diff, diff_context: DiffContext)
        ensures
            final(self)@ == (NavigationModel {
                file_diffs: final(self)@.file_diffs,
                manual_scroll_active: false,
                ..old(self)@
            }),
            other_states_kept(old(self)@.file_diffs, final(self)@.file_diffs, key.path@, key.context),
            diff_state_of(final(self)@.file_diffs, key.path@, key.context) matches Some(state) && fresh_state(
                state,
                key.path@,
                key.context,
                diff_context,
            ) && state.diff == Some(diff),
    {
        proof {
            use_type_invariant(&*self);
        }
        let ghost before = self.file_diffs@;
        let mut diffs: Vec<InlineDiffState> = Vec::new();
        std::mem::swap(&mut diffs, &mut self.file_diffs);
        let state = InlineDiffState {
            file_path: key.path.clone(),
            file_context: key.context,
            diff_context,
            diff: Some(diff),
            expanded: true,
            current_hunk: 0,
            collapsed_hunks: empty_index_set(),
            context_lines: DEFAULT_CONTEXT_LINES,
        };
        match self.find_index_in(&diffs, &key.path, key.context) {
            Some(k) => {
                proof {
                    lemma_update_keeps_others(before, k as int, state, key.path@, key.context);
                }
                diffs.set(k, state);
            },
            None => {
                proof {
                    lemma_push_keeps_others(before, state, key.path@, key.context);
                }
                diffs.push(state);
            },
        }
        self.file_diffs = diffs;
        self.clear_manual_scroll();
    }

    pub fn clear_diff_cache(&mut self)
        ensures
            final(self)@ == (NavigationModel { file_diffs: Seq::empty(), ..old(self)@ }),
    {
        proof {
            use_type_invariant(&*self);
        }
        self.file_diffs = Vec::new();
    }

    pub fn reset_inline_diff_selection(&mut self, key: &FileDiffKey)
        ensures
            match diff_state_of(old(self)@.file_diffs, key.path@, key.context) {
                Some(state) => {
                    &&& final(self)@ == (NavigationModel {
                        file_diffs: final(self)@.file_diffs,
                        manual_scroll_active: false,
                        ..old(self)@
                    })
                    &&& other_states_kept(old(self)@.file_diffs, final(self)@.file_diffs, key.path@, key.context)
                    &&& diff_state_of(final(self)@.file_diffs, key.path@, key.context) == Some(
                        InlineDiffState { current_hunk: 0, ..state },
                    )
                },
                None => final(self)@ == old(self)@,
            },
    {
        proof {
            use_type_invariant(&*self);
        }
        let ghost before = self.file_diffs@;
        match self.find_index_in(&self.file_diffs, &key.path, key.context) {
            Some(k) => {
                let mut diffs: Vec<InlineDiffState> = Vec::new();
                std::mem::swap(&mut diffs, &mut self.file_diffs);
                diffs[k].current_hunk = 0;
                proof {
                    lemma_state_at(before, key.path@, key.context, k as int);
                    let state = InlineDiffState { current_hunk: 0, ..before[k as int] };
                    assert(diffs@ =~= before.update(k as int, state));
                    lemma_update_keeps_others(before, k as int, state, key.path@, key.context);
                }
                self.file_diffs = diffs;
                self.clear_manual_scroll();
            },
            None => {
                proof {
                    lemma_no_diff_index(before, key.path@, key.context);
                }
            },
        }
    }

    pub fn toggle_hunk_collapsed(&mut self, key: &FileDiffKey, hunk_index: usize)
        ensures
            match diff_state_of(old(self)@.file_diffs, key.path@, key.context) {
                Some(state) => {
                    &&& final(self)@ == (NavigationModel {
                        file_diffs: final(self)@.file_diffs,
                        manual_scroll_active: false,
                        ..old(self)@
                    })
                    &&& other_states_kept(old(self)@.file_diffs, final(self)@.file_diffs, key.path@, key.context)
                    &&& diff_state_of(final(self)@.file_diffs, key.path@, key.context) matches Some(after)
                        && after.file_path == state.file_path && after.file_context == state.file_context
                        && after.diff_context == state.diff_context && after.diff == state.diff
                        && after.expanded == state.expanded && after.current_hunk == state.current_hunk
                        && after.collapsed_hunks@ == if state.collapsed_hunks@.contains(hunk_index) {
                        state.collapsed_hunks@.remove(hunk_index)
                    } else {
                        state.collapsed_hunks@.insert(hunk_index)
                    }
                },
                None => final(self)@ == old(self)@,
            },
    {
        proof {
            use_type_invariant(&*self);
        }
        let ghost before = self.file_diffs@;
        match self.find_index_in(&self.file_diffs, &key.path, key.context) {
            Some(k) => {
                let mut diffs: Vec<InlineDiffState> = Vec::new();
                std::mem::swap(&mut diffs, &mut self.file_diffs);
                if diffs[k].collapsed_hunks.contains(&hunk_index) {
                    diffs[k].collapsed_hunks.remove(&hunk_index);
                } else {
                    diffs[k].collapsed_hunks.insert(hunk_index);
                }
                proof {
                    lemma_state_at(before, key.path@, key.context, k as int);
                    let state = diffs@[k as int];
                    assert(diffs@ =~= before.update(k as int, state));
                    lemma_update_keeps_others(before, k as int, state, key.path@, key.context);
                }
                self.file_diffs = diffs;
                self.clear_manual_scroll();
            },
            None => {
                proof {
                    lemma_no_diff_index(before, key.path@, key.context);
                }
            },
        }
    }

    pub fn is_hunk_collapsed(&self, key: &FileDiffKey, hunk_index: usize) -> (collapsed: bool)
        ensures
            collapsed == (diff_state_of(self@.file_diffs, key.path@, key.context) matches Some(state)
                && state.collapsed_hunks@.contains(hunk_index)),
    {
        match self.find_diff_index(&key.path, key.context) {
            Some(k) => self.file_diffs[k].collapsed_hunks.contains(&hunk_index),
            None => false,
        }
    }

    pub fn remove_file_diff(&mut self, key: &FileDiffKey)
        ensures
            final(self)@ == (NavigationModel {
                file_diffs: final(self)@.file_diffs,
                manual_scroll_active: false,
                ..old(self)@
            }),
            other_states_kept(old(self)@.file_diffs, final(self)@.file_diffs, key.path@, key.context),
            diff_state_of(final(self)@.file_diffs, key.path@, key.context) is None,
    {
        proof {
            use_type_invariant(&*self);
        }
        let ghost before = self.file_diffs@;
        match self.find_index_in(&self.file_diffs, &key.path, key.context) {
            Some(k) => {
                let mut diffs: Vec<InlineDiffState> = Vec::new();
                std::mem::swap(&mut diffs, &mut self.file_diffs);
                diffs.remove(k);
                proof {
                    lemma_remove_keeps_others(before, k as int, key.path@, key.context);
                }
                self.file_diffs = diffs;
            },
            None => {
                proof {
                    lemma_no_diff_index(before, key.path@, key.context);
                }
            },
        }
        self.clear_manual_scroll();
    }
    /// The keys of the files whose inline diff state is kept, in order.
    pub fn cached_file_diff_keys(&self) -> (keys: Vec<FileDiffKey>)
        ensures
            keys@.len() == self@.file_diffs.len(),
            forall|i: int|
                0 <= i < keys@.len() ==> key_matches(self@.file_diffs[i], (#[trigger] keys@[i]).path@, keys@[i].context),
    {
        let mut keys: Vec<FileDiffKey> = Vec::new();
        let n = self.file_diffs.len();
        let mut i: usize = 0;
        while i < n
            invariant
                n == self@.file_diffs.len(),
                i <= n,
                keys@.len() == i,
                forall|j: int|
                    0 <= j < i ==> key_matches(self@.file_diffs[j], (#[trigger] keys@[j]).path@, keys@[j].context),
            decreases n - i,
        {
            let state = &self.file_diffs[i];
            keys.push(FileDiffKey::new(state.file_path.clone(), state.file_context));
            i += 1;
        }
        keys
    }

    /// Sets the context lines and the selected hunk of a file's kept state,
    /// leaving the rest of it; nothing changes for a file without one.
    pub fn set_hunk_context(&mut self, key: &FileDiffKey, context_lines: usize, current_hunk: usize)
        ensures
            final(self)@ == (NavigationModel { file_diffs: final(self)@.file_diffs, ..old(self)@ }),
            other_states_kept(old(self)@.file_diffs, final(self)@.file_diffs, key.path@, key.context),
            match diff_state_of(old(self)@.file_diffs, key.path@, key.context) {
                Some(state) => diff_state_of(final(self)@.file_diffs, key.path@, key.context) == Some(
                    InlineDiffState { context_lines, current_hunk, ..state },
                ),
                None => final(self)@ == old(self)@,
            },
    {
        proof {
            use_type_invariant(&*self);
        }
        let ghost before = self.file_diffs@;
        match self.find_index_in(&self.file_diffs, &key.path, key.context) {
            Some(k) => {
                proof {
                    lemma_state_at(before, key.path@, key.context, k as int);
                }
                let mut diffs: Vec<InlineDiffState> = Vec::new();
                std::mem::swap(&mut diffs, &mut self.file_diffs);
                diffs[k].context_lines = context_lines;
                diffs[k].current_hunk = current_hunk;
                proof {
                    let state = InlineDiffState { context_lines, current_hunk, ..before[k as int] };
                    assert(diffs@ =~= before.update(k as int, state));
                    lemma_update_keeps_others(before, k as int, state, key.path@, key.context);
                }
                self.file_diffs = diffs;
            },
            None => {
                proof {
                    lemma_no_diff_index(before, key.path@, key.context);
                }
            },
        }
    }

    /// Puts a new diff in a file's kept state and leaves the rest of that
    /// state (expansion, selected hunk, collapsed hunks) as it was; nothing
    /// changes for a file without a kept state.
    pub fn replace_file_diff(&mut self, key: &FileDiffKey, diff: Diff)
        ensures
            final(self)@ == (NavigationModel { file_diffs: final(self)@.file_diffs, ..old(self)@ }),
            other_states_kept(old(self)@.file_diffs, final(self)@.file_diffs, key.path@, key.context),
            match diff_state_of(old(self)@.file_diffs, key.path@, key.context) {
                Some(state) => diff_state_of(final(self)@.file_diffs, key.path@, key.context) == Some(
                    InlineDiffState { diff: Some(diff), ..state },
                ),
                None => final(self)@ == old(self)@,
            },
    {
        proof {
            use_type_invariant(&*self);
        }
        let ghost before = self.file_diffs@;
        match self.find_index_in(&self.file_diffs, &key.path, key.context) {
            Some(k) => {
                proof {
                    lemma_state_at(before, key.path@, key.context, k as int);
                }
                let mut diffs: Vec<InlineDiffState> = Vec::new();
                std::mem::swap(&mut diffs, &mut self.file_diffs);
                diffs[k].diff = Some(diff);
                proof {
                    let state = InlineDiffState { diff: Some(diff), ..before[k as int] };
                    assert(diffs@ =~= before.update(k as int, state));
                    lemma_update_keeps_others(before, k as int, state, key.path@, key.context);
                }
                self.file_diffs = diffs;
            },
            None => {
                proof {
                    lemma_no_diff_index(before, key.path@, key.context);
                }
            },
        }
    }
}


} // verus!

verus! {

/// `a - b`, or zero when `b` is larger.
pub open spec fn sat_sub(a: usize, b: usize) -> usize {
    if a >= b { (a - b) as usize } else { 0 }
}

/// `a + b`, or `usize::MAX` when the sum does not fit.
pub open spec fn sat_add(a: usize, b: usize) -> usize {
    if a + b <= usize::MAX { (a + b) as usize } else { usize::MAX }
}

/// The smaller of two numbers.
pub open spec fn min_usize(a: usize, b: usize) -> usize {
    if a <= b { a } else { b }
}

/// One step of bringing targets into view: a target above the viewport or
/// below its last line moves the offset to just above the target (by
/// `margin` lines), never past `max_offset`.
pub open spec fn reveal_step(offset: usize, target: usize, height: usize, max_offset: usize, margin: usize) -> usize {
    if target < offset {
        min_usize(sat_sub(target, margin), max_offset)
    } else if target > sat_add(offset, sat_sub(height, 1)) {
        min_usize(sat_sub(target, margin), max_offset)
    } else {
        offset
    }
}

/// The offset after bringing each target into view in turn.
pub open spec fn reveal_all(targets: Seq<usize>, offset: usize, height: usize, max_offset: usize, margin: usize) -> usize
    decreases targets.len(),
{
    if targets.len() == 0 {
        offset
    } else {
        reveal_all(
            targets.drop_first(),
            reveal_step(offset, targets[0], height, max_offset, margin),
            height,
            max_offset,
            margin,
        )
    }
}

/// The scroll offset that `ensure_targets_visible` leaves: the current
/// offset clamped to the maximum, then moved to bring each target into view.
pub open spec fn targets_visible_offset(m: NavigationModel, targets: Seq<usize>) -> usize {
    let height: usize = if m.viewport_height >= 1 { m.viewport_height } else { 1 };
    let offset = min_usize(m.scroll_offset, m.max_scroll_offset);
    if targets.len() == 0 {
        offset
    } else {
        let margin: usize = if height <= 1 { 0 } else { 1 };
        let moved = reveal_all(targets, offset, height, m.max_scroll_offset, margin);
        if m.max_scroll_offset == 0 { 0 } else { min_usize(moved, m.max_scroll_offset) }
    }
}

impl NavigationState {
    pub fn update_viewport_metrics(&mut self, viewport_height: usize, total_items: usize, visibility_targets: &[usize])
        ensures
            ({
                let height: usize = if viewport_height >= 1 { viewport_height } else { 1 };
                let max_offset = sat_sub(total_items, height);
                let clamped = NavigationModel {
                    viewport_height: height,
                    max_scroll_offset: max_offset,
                    scroll_offset: min_usize(old(self)@.scroll_offset, max_offset),
                    ..old(self)@
                };
                final(self)@ == if old(self)@.manual_scroll_active {
                    clamped
                } else {
                    NavigationModel {
                        scroll_offset: targets_visible_offset(clamped, visibility_targets@),
                        ..clamped
                    }
                }
            }),
    {
        proof {
            use_type_invariant(&*self);
        }
        let clamped_height = if viewport_height >= 1 { viewport_height } else { 1 };
        self.viewport_height = clamped_height;
        let max_offset = total_items.saturating_sub(clamped_height);
        self.max_scroll_offset = max_offset;
        let clamped_offset = if self.scroll_offset <= max_offset { self.scroll_offset } else { max_offset };
        self.scroll_offset = clamped_offset;
        if !self.manual_scroll_active {
            self.ensure_targets_visible(visibility_targets);
        }
    }

    pub fn ensure_targets_visible(&mut self, visibility_targets: &[usize])
        ensures
            final(self)@ == (NavigationModel {
                scroll_offset: targets_visible_offset(old(self)@, visibility_targets@),
                ..old(self)@
            }),
    {
        proof {
            use_type_invariant(&*self);
        }
        let height = if self.viewport_height >= 1 { self.viewport_height } else { 1 };
        let max_offset = self.max_scroll_offset;
        let mut offset = if self.scroll_offset <= max_offset { self.scroll_offset } else { max_offset };

        if visibility_targets.len() == 0 {
            if max_offset == 0 {
                offset = 0;
            }
            if offset > max_offset {
                offset = max_offset;
            }
            self.scroll_offset = offset;
            return;
        }

        let base_margin = 1usize;
        let margin = if height <= base_margin { 0 } else { base_margin };
        let mut effective_offset = offset;
        let ghost targets = visibility_targets@;
        let n = visibility_targets.len();
        let mut i: usize = 0;
        proof {
            assert(targets.skip(0) =~= targets);
        }
        while i < n
            invariant
                n == targets.len(),
                targets == visibility_targets@,
                i <= n,
                reveal_all(targets, offset, height, max_offset, margin) == reveal_all(
                    targets.skip(i as int),
                    effective_offset,
                    height,
                    max_offset,
                    margin,
                ),
            decreases n - i,
        {
            let target = visibility_targets[i];
            proof {
                assert(targets.skip(i as int).drop_first() =~= targets.skip(i + 1));
            }
            if target < effective_offset {
                let desired = target.saturating_sub(margin);
                effective_offset = if desired <= max_offset { desired } else { max_offset };
            } else {
                let visible_end = effective_offset.saturating_add(height.saturating_sub(1));
                if target > visible_end {
                    let desired = target.saturating_sub(margin);
                    effective_offset = if desired <= max_offset { desired } else { max_offset };
                }
            }
            i += 1;
        }
        proof {
            assert(targets.skip(n as int) =~= Seq::<usize>::empty());
        }

        let clamped_offset = if max_offset == 0 {
            0
        } else if effective_offset <= max_offset {
            effective_offset
        } else {
            max_offset
        };

        self.scroll_offset = clamped_offset;
    }
}

} // verus!

verus! {

/// The cursor is on a file of the status and, when on a hunk, on one of the
/// hunks that file shows.
pub open spec fn cursor_valid(m: NavigationModel, status: &RepositoryStatus, cursor: SelectionCursor) -> bool {
    match cursor {
        SelectionCursor::File { section, file_index } => file_index < section_count(status, section),
        SelectionCursor::Hunk { section, file_index, hunk_index } => file_index < section_count(status, section)
            && hunk_index < hunk_count(m, status, section, file_index as int),
    }
}

/// The navigation state after the cursor moved to `target`.
pub open spec fn moved_to(m: NavigationModel, status: &RepositoryStatus, target: SelectionCursor) -> NavigationModel {
    NavigationModel {
        cursor: Some(target),
        file_diffs: diffs_after_cursor(m.file_diffs, status, Some(target)),
        manual_scroll_active: false,
        ..m
    }
}

proof fn lemma_moving_keeps_hunk_counts(m: NavigationModel, status: &RepositoryStatus, target: SelectionCursor)
    requires
        keys_unique(m.file_diffs),
    ensures
        forall|s: StatusSection, i: int| #[trigger] hunk_count(moved_to(m, status, target), status, s, i)
            == hunk_count(m, status, s, i),
{
    let after = moved_to(m, status, target);
    assert forall|s: StatusSection, i: int| #[trigger] hunk_count(after, status, s, i) == hunk_count(m, status, s, i) by {
        match target {
            SelectionCursor::Hunk { section, file_index, hunk_index } => {
                match status_path(status, section, file_index as int) {
                    Some(path) => match diff_index_of(m.file_diffs, path, context_of(section)) {
                        Some(k) => {
                            let state = m.file_diffs[k];
                            let new_state = after.file_diffs[k];
                            assert(key_matches(state, path, context_of(section)));
                            lemma_update_keeps_others(m.file_diffs, k, new_state, path, context_of(section));
                        },
                        None => {},
                    },
                    None => {},
                }
            },
            _ => {},
        }
    }
}

proof fn lemma_section_neighbours(status: &RepositoryStatus, s: StatusSection)
    requires
        section_count(status, s) > 0,
    ensures
        nonempty_section_from(status, section_rank(s) + 1) matches Some(n) ==> nonempty_section_upto(
            status,
            section_rank(n) - 1,
        ) == Some(s),
        nonempty_section_upto(status, section_rank(s) - 1) matches Some(p) ==> nonempty_section_from(
            status,
            section_rank(p) + 1,
        ) == Some(s),
{
    reveal_with_fuel(nonempty_section_from, 5);
    reveal_with_fuel(nonempty_section_upto, 5);
}

proof fn lemma_section_count_fits(status: &RepositoryStatus, s: StatusSection)
    ensures
        section_count(status, s) <= usize::MAX,
{
    assert(status.staged@.len() == status.staged.len());
    assert(status.unstaged@.len() == status.unstaged.len());
    assert(status.untracked@.len() == status.untracked.len());
    assert(status.conflicted@.len() == status.conflicted.len());
}

proof fn lemma_hunk_count_fits(m: NavigationModel, status: &RepositoryStatus, s: StatusSection, i: int)
    ensures
        hunk_count(m, status, s, i) <= usize::MAX,
{
    match status_path(status, s, i) {
        Some(path) => match diff_state_of(m.file_diffs, path, context_of(s)) {
            Some(state) => match state.diff {
                Some(d) => {
                    assert(d.hunks@.len() == d.hunks.len());
                },
                None => {},
            },
            None => {},
        },
        None => {},
    }
}

/// Moving down and then up again brings the cursor back to where it was,
/// whenever it was on a valid place and there was somewhere to move down to.
pub proof fn lemma_up_undoes_down(m: NavigationModel, status: &RepositoryStatus, cursor: SelectionCursor)
    requires
        keys_unique(m.file_diffs),
        cursor_valid(m, status, cursor),
        next_cursor_spec(m, status, cursor) is Some,
    ensures
        previous_cursor_spec(
            moved_to(m, status, next_cursor_spec(m, status, cursor)->0),
            status,
            next_cursor_spec(m, status, cursor)->0,
        ) == Some(cursor),
{
    let next = next_cursor_spec(m, status, cursor)->0;
    let after = moved_to(m, status, next);
    lemma_moving_keeps_hunk_counts(m, status, next);
    let (s, i) = cursor_file(cursor);
    lemma_section_neighbours(status, s);
    lemma_nonempty_from(status, section_rank(s) + 1);
    assert(hunk_count(after, status, s, i as int) == hunk_count(m, status, s, i as int));
    let hc = hunk_count(m, status, s, i as int);
    lemma_section_count_fits(status, s);
    lemma_hunk_count_fits(m, status, s, i as int);
    let moves_within_file = match cursor {
        SelectionCursor::File { .. } => hc > 0,
        SelectionCursor::Hunk { hunk_index, .. } => hunk_index + 1 < hc,
    };
    if !moves_within_file {
        assert(Some(next) == next_file_cursor_spec(status, s, i as int));
        if i + 1 < section_count(status, s) {
            assert(next == SelectionCursor::File { section: s, file_index: (i + 1) as usize });
            assert(hunk_count(after, status, s, i + 1 - 1) == hc);
            assert(next->File_file_index - 1 == i);
        } else {
            let n = nonempty_section_from(status, section_rank(s) + 1)->0;
            assert(next == SelectionCursor::File { section: n, file_index: 0 });
            assert(i == section_count(status, s) - 1);
            assert(hunk_count(after, status, s, section_count(status, s) - 1) == hc);
        }
    }
}

/// Moving up and then down again brings the cursor back to where it was,
/// whenever it was on a valid place and there was somewhere to move up to.
pub proof fn lemma_down_undoes_up(m: NavigationModel, status: &RepositoryStatus, cursor: SelectionCursor)
    requires
        keys_unique(m.file_diffs),
        cursor_valid(m, status, cursor),
        previous_cursor_spec(m, status, cursor) is Some,
    ensures
        next_cursor_spec(
            moved_to(m, status, previous_cursor_spec(m, status, cursor)->0),
            status,
            previous_cursor_spec(m, status, cursor)->0,
        ) == Some(cursor),
{
    let previous = previous_cursor_spec(m, status, cursor)->0;
    let after = moved_to(m, status, previous);
    lemma_moving_keeps_hunk_counts(m, status, previous);
    let (s, i) = cursor_file(cursor);
    lemma_section_neighbours(status, s);
    lemma_nonempty_upto(status, section_rank(s) - 1);
    assert(hunk_count(after, status, s, i as int) == hunk_count(m, status, s, i as int));
    lemma_section_count_fits(status, s);
    match cursor {
        SelectionCursor::File { .. } => {
            if i > 0 {
                assert(hunk_count(after, status, s, i - 1) == hunk_count(m, status, s, i - 1));
                assert(previous == last_item_of_file(m, status, s, i - 1));
                let hcp = hunk_count(m, status, s, i - 1);
                lemma_hunk_count_fits(m, status, s, i - 1);
                if hcp > 0 {
                    assert(previous == SelectionCursor::Hunk { section: s, file_index: (i - 1) as usize, hunk_index: (hcp - 1) as usize });
                    assert(next_cursor_spec(after, status, previous) == next_file_cursor_spec(status, s, i - 1));
                } else {
                    assert(previous == SelectionCursor::File { section: s, file_index: (i - 1) as usize });
                    assert(next_cursor_spec(after, status, previous) == next_file_cursor_spec(status, s, i - 1));
                }
            } else {
                let p = nonempty_section_upto(status, section_rank(s) - 1)->0;
                lemma_section_count_fits(status, p);
                let last = section_count(status, p) - 1;
                lemma_hunk_count_fits(m, status, p, last);
                assert(hunk_count(after, status, p, last) == hunk_count(m, status, p, last));
                assert(previous == last_item_of_file(m, status, p, last));
                assert(next_cursor_spec(after, status, previous) == next_file_cursor_spec(status, p, last));
            }
        },
        SelectionCursor::Hunk { .. } => {},
    }
}

} // verus!

verus! {

proof fn lemma_nonempty_sections(status: &RepositoryStatus, rank: int)
    requires
        rank >= 0,
    ensures
        forall|k: int| 0 <= k < nonempty_sections_from(status, rank).len() ==> section_count(
            status,
            #[trigger] nonempty_sections_from(status, rank)[k],
        ) > 0,
        nonempty_sections_from(status, rank).len() == 0 ==> forall|r: int| rank <= r < 4 ==> section_count(
            status,
            #[trigger] section_at(r),
        ) == 0,
    decreases 4 - rank,
{
    if 0 <= rank < 4 {
        lemma_nonempty_sections(status, rank + 1);
        let rest = nonempty_sections_from(status, rank + 1);
        if section_count(status, section_at(rank)) > 0 {
            let all = seq![section_at(rank)] + rest;
            assert forall|k: int| 0 <= k < all.len() implies section_count(status, #[trigger] all[k]) > 0 by {
                if k > 0 {
                    assert(all[k] == rest[k - 1]);
                }
            }
        }
    }
}

/// Once the sections come from a status, making the cursor valid leaves it
/// on a file of that status (and, on a hunk, on a hunk that file shows), and
/// leaves no cursor only when the status lists no file at all.
pub proof fn lemma_valid_cursor_is_valid(m: NavigationModel, status: &RepositoryStatus)
    requires
        m.sections == nonempty_sections_from(status, 0),
    ensures
        valid_cursor_spec(m, status) matches Some(c) ==> cursor_valid(m, status, c),
        valid_cursor_spec(m, status) is None ==> forall|s: StatusSection| section_count(status, s) == 0,
{
    lemma_nonempty_sections(status, 0);
    if m.sections.len() == 0 {
        assert forall|s: StatusSection| section_count(status, s) == 0 by {
            assert(s == section_at(section_rank(s)));
        }
    }
}

} // verus!
