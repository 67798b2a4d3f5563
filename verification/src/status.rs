use vstd::prelude::*;
use crate::text::owned;

verus! {

#[derive(Debug, Clone, Copy, PartialEq, Eq, Structural)]
pub enum FileStatus {
    Added,
    Modified,
    Deleted,
    Renamed,
    Typechange,
}

/// The word that names a file status.
pub open spec fn file_status_text(status: FileStatus) -> Seq<char> {
    match status {
        FileStatus::Added => "added"@,
        FileStatus::Modified => "modified"@,
        FileStatus::Deleted => "deleted"@,
        FileStatus::Renamed => "renamed"@,
        FileStatus::Typechange => "typechange"@,
    }
}

impl FileStatus {
    /// The word that names the status, as the status is displayed.
    pub fn to_display_string(&self) -> (text: String)
        ensures
            text@ == file_status_text(*self),
    {
        let status_str = match self {
            FileStatus::Added => "added",
            FileStatus::Modified => "modified",
            FileStatus::Deleted => "deleted",
            FileStatus::Renamed => "renamed",
            FileStatus::Typechange => "typechange",
        };
        owned(status_str)
    }
}

#[derive(Debug, Clone, PartialEq)]
pub struct FileEntry {
    pub path: String,
    pub status: FileStatus,
    pub old_path: Option<String>,
}

impl FileEntry {
    pub fn new(path: String, status: FileStatus) -> (entry: Self)
        ensures
            entry.path == path,
            entry.status == status,
            entry.old_path is None,
    {
        Self { path, status, old_path: None }
    }

    pub fn new_renamed(old_path: String, new_path: String) -> (entry: Self)
        ensures
            entry.path == new_path,
            entry.status == FileStatus::Renamed,
            entry.old_path == Some(old_path),
    {
        Self { path: new_path, status: FileStatus::Renamed, old_path: Some(old_path) }
    }
}

#[derive(Debug)]
pub struct RepositoryStatus {
    pub branch_name: String,
    pub staged: Vec<FileEntry>,
    pub unstaged: Vec<FileEntry>,
    pub untracked: Vec<String>,
    pub conflicted: Vec<String>,
}

impl Default for RepositoryStatus {
    fn default() -> (status: Self)
        ensures
            status.branch_name@ == Seq::<char>::empty(),
            status.staged@.len() == 0,
            status.unstaged@.len() == 0,
            status.untracked@.len() == 0,
            status.conflicted@.len() == 0,
    {
        RepositoryStatus {
            branch_name: String::new(),
            staged: Vec::new(),
            unstaged: Vec::new(),
            untracked: Vec::new(),
            conflicted: Vec::new(),
        }
    }
}

impl RepositoryStatus {
    /// No file is staged, unstaged, untracked or conflicted.
    pub open spec fn spec_is_clean(&self) -> bool {
        &&& self.staged@.len() == 0
        &&& self.unstaged@.len() == 0
        &&& self.untracked@.len() == 0
        &&& self.conflicted@.len() == 0
    }

    pub fn is_clean(&self) -> (clean: bool)
        ensures
            clean == self.spec_is_clean(),
    {
        self.staged.is_empty() && self.unstaged.is_empty() && self.untracked.is_empty()
            && self.conflicted.is_empty()
    }

    pub fn staged_files(&self) -> (files: &Vec<FileEntry>)
        ensures
            files == &self.staged,
    {
        &self.staged
    }

    pub fn unstaged_files(&self) -> (files: &Vec<FileEntry>)
        ensures
            files == &self.unstaged,
    {
        &self.unstaged
    }

    pub fn untracked_files(&self) -> (files: &Vec<String>)
        ensures
            files == &self.untracked,
    {
        &self.untracked
    }

    pub fn conflicted_files(&self) -> (files: &Vec<String>)
        ensures
            files == &self.conflicted,
    {
        &self.conflicted
    }

    pub fn empty() -> (status: Self)
        ensures
            status.branch_name@ == "main"@,
            status.spec_is_clean(),
    {
        RepositoryStatus {
            branch_name: owned("main"),
            staged: Vec::new(),
            unstaged: Vec::new(),
            untracked: Vec::new(),
            conflicted: Vec::new(),
        }
    }
}

} // verus!

verus! {

/// The status bits of one path, as git reports them.
#[derive(Debug, Clone, Copy, PartialEq, Eq, Structural)]
pub struct StatusFlags {
    pub conflicted: bool,
    pub wt_new: bool,
    pub wt_modified: bool,
    pub wt_deleted: bool,
    pub wt_renamed: bool,
    pub wt_typechange: bool,
    pub index_new: bool,
    pub index_modified: bool,
    pub index_deleted: bool,
    pub index_renamed: bool,
    pub index_typechange: bool,
}

/// One path of git's status report: its path, its bits, and the old and
/// new paths of its index and working-tree changes where git gives them.
#[derive(Debug, Clone)]
pub struct StatusEntry {
    pub path: String,
    pub flags: StatusFlags,
    pub head_to_index: Option<(String, String)>,
    pub index_to_workdir: Option<(String, String)>,
}

/// The file entry for a rename, from the change's (old, new) paths if git
/// gave them, else for the path alone.
pub open spec fn renamed_entry_ok(entry: FileEntry, path: Seq<char>, paths: Option<(String, String)>) -> bool {
    match paths {
        Some((old_path, new_path)) => entry.path@ == new_path@ && entry.status == FileStatus::Renamed
            && (entry.old_path matches Some(o) && o@ == old_path@),
        None => entry.path@ == path && entry.status == FileStatus::Renamed && entry.old_path is None,
    }
}

/// The staged status of an entry: the first of new, modified, deleted,
/// renamed and type change that its index bits show, if any.
pub open spec fn staged_status(f: StatusFlags) -> Option<FileStatus> {
    if f.index_new {
        Some(FileStatus::Added)
    } else if f.index_modified {
        Some(FileStatus::Modified)
    } else if f.index_deleted {
        Some(FileStatus::Deleted)
    } else if f.index_renamed {
        Some(FileStatus::Renamed)
    } else if f.index_typechange {
        Some(FileStatus::Typechange)
    } else {
        None
    }
}

/// The unstaged status of an entry: the first of modified, deleted, renamed
/// and type change that its working-tree bits show, if any.
pub open spec fn unstaged_status(f: StatusFlags) -> Option<FileStatus> {
    if f.wt_modified {
        Some(FileStatus::Modified)
    } else if f.wt_deleted {
        Some(FileStatus::Deleted)
    } else if f.wt_renamed {
        Some(FileStatus::Renamed)
    } else if f.wt_typechange {
        Some(FileStatus::Typechange)
    } else {
        None
    }
}

/// The file entry for a change of `status`: a rename takes its paths from
/// the change, any other status is the entry's path.
pub open spec fn change_entry_ok(entry: FileEntry, e: StatusEntry, status: FileStatus, paths: Option<(String, String)>) -> bool {
    if status == FileStatus::Renamed {
        renamed_entry_ok(entry, e.path@, paths)
    } else {
        entry.path@ == e.path@ && entry.status == status && entry.old_path is None
    }
}

/// The sections a status report sorts into, in report order.
pub struct SortedStatus {
    pub staged: Seq<FileEntry>,
    pub unstaged: Seq<FileEntry>,
    pub untracked: Seq<Seq<char>>,
    pub conflicted: Seq<Seq<char>>,
}

/// Each entry sorted into its sections: a conflict only as such, a new
/// untracked file only as such, any other entry by its index bits into
/// staged and by its working-tree bits into unstaged.
pub open spec fn sorted_prefix_ok(entries: Seq<StatusEntry>, k: int, s: SortedStatus) -> bool
    decreases k,
{
    if k <= 0 {
        s.staged.len() == 0 && s.unstaged.len() == 0 && s.untracked.len() == 0 && s.conflicted.len() == 0
    } else {
        let e = entries[k - 1];
        if e.flags.conflicted {
            s.conflicted.len() > 0 && s.conflicted.last() == e.path@ && sorted_prefix_ok(
                entries,
                k - 1,
                SortedStatus { conflicted: s.conflicted.drop_last(), ..s },
            )
        } else if e.flags.wt_new {
            s.untracked.len() > 0 && s.untracked.last() == e.path@ && sorted_prefix_ok(
                entries,
                k - 1,
                SortedStatus { untracked: s.untracked.drop_last(), ..s },
            )
        } else {
            let staged_ok = match staged_status(e.flags) {
                Some(st) => s.staged.len() > 0 && change_entry_ok(s.staged.last(), e, st, e.head_to_index),
                None => true,
            };
            let unstaged_ok = match unstaged_status(e.flags) {
                Some(st) => s.unstaged.len() > 0 && change_entry_ok(s.unstaged.last(), e, st, e.index_to_workdir),
                None => true,
            };
            let rest = SortedStatus {
                staged: if staged_status(e.flags) is Some { s.staged.drop_last() } else { s.staged },
                unstaged: if unstaged_status(e.flags) is Some { s.unstaged.drop_last() } else { s.unstaged },
                ..s
            };
            staged_ok && unstaged_ok && sorted_prefix_ok(entries, k - 1, rest)
        }
    }
}

fn change_entry(e: &StatusEntry, status: FileStatus, paths: &Option<(String, String)>) -> (entry: FileEntry)
    ensures
        change_entry_ok(entry, *e, status, *paths),
{
    match status {
        FileStatus::Renamed => match paths {
            Some((old_path, new_path)) => FileEntry::new_renamed(old_path.clone(), new_path.clone()),
            None => FileEntry::new(e.path.clone(), FileStatus::Renamed),
        },
        _ => FileEntry::new(e.path.clone(), status),
    }
}

fn staged_status_of(f: StatusFlags) -> (status: Option<FileStatus>)
    ensures
        status == staged_status(f),
{
    if f.index_new {
        Some(FileStatus::Added)
    } else if f.index_modified {
        Some(FileStatus::Modified)
    } else if f.index_deleted {
        Some(FileStatus::Deleted)
    } else if f.index_renamed {
        Some(FileStatus::Renamed)
    } else if f.index_typechange {
        Some(FileStatus::Typechange)
    } else {
        None
    }
}

fn unstaged_status_of(f: StatusFlags) -> (status: Option<FileStatus>)
    ensures
        status == unstaged_status(f),
{
    if f.wt_modified {
        Some(FileStatus::Modified)
    } else if f.wt_deleted {
        Some(FileStatus::Deleted)
    } else if f.wt_renamed {
        Some(FileStatus::Renamed)
    } else if f.wt_typechange {
        Some(FileStatus::Typechange)
    } else {
        None
    }
}

impl RepositoryStatus {
    /// Sorts git's status report into the four sections, keeping report
    /// order within each; the untracked paths are as reported (directories
    /// are expanded by the caller).
    pub fn from_entries(branch_name: String, entries: &Vec<StatusEntry>) -> (status: Self)
        ensures
            status.branch_name == branch_name,
            sorted_prefix_ok(entries@, entries@.len() as int, SortedStatus {
                staged: status.staged@,
                unstaged: status.unstaged@,
                untracked: status.untracked@.map_values(|p: String| p@),
                conflicted: status.conflicted@.map_values(|p: String| p@),
            }),
    {
        let mut staged: Vec<FileEntry> = Vec::new();
        let mut unstaged: Vec<FileEntry> = Vec::new();
        let mut untracked: Vec<String> = Vec::new();
        let mut conflicted: Vec<String> = Vec::new();
        let mut k: usize = 0;
        while k < entries.len()
            invariant
                k <= entries@.len(),
                sorted_prefix_ok(entries@, k as int, SortedStatus {
                    staged: staged@,
                    unstaged: unstaged@,
                    untracked: untracked@.map_values(|p: String| p@),
                    conflicted: conflicted@.map_values(|p: String| p@),
                }),
            decreases entries.len() - k,
        {
            let e = &entries[k];
            let ghost before = SortedStatus {
                staged: staged@,
                unstaged: unstaged@,
                untracked: untracked@.map_values(|p: String| p@),
                conflicted: conflicted@.map_values(|p: String| p@),
            };
            if e.flags.conflicted {
                conflicted.push(e.path.clone());
                proof {
                    let after = SortedStatus {
                        staged: staged@,
                        unstaged: unstaged@,
                        untracked: untracked@.map_values(|p: String| p@),
                        conflicted: conflicted@.map_values(|p: String| p@),
                    };
                    assert(after.conflicted.drop_last() =~= before.conflicted);
                    assert(SortedStatus { conflicted: after.conflicted.drop_last(), ..after } == before);
                }
            } else if e.flags.wt_new {
                untracked.push(e.path.clone());
                proof {
                    let after = SortedStatus {
                        staged: staged@,
                        unstaged: unstaged@,
                        untracked: untracked@.map_values(|p: String| p@),
                        conflicted: conflicted@.map_values(|p: String| p@),
                    };
                    assert(after.untracked.drop_last() =~= before.untracked);
                    assert(SortedStatus { untracked: after.untracked.drop_last(), ..after } == before);
                }
            } else {
                match staged_status_of(e.flags) {
                    Some(st) => staged.push(change_entry(e, st, &e.head_to_index)),
                    None => {},
                }
                match unstaged_status_of(e.flags) {
                    Some(st) => unstaged.push(change_entry(e, st, &e.index_to_workdir)),
                    None => {},
                }
                proof {
                    let after = SortedStatus {
                        staged: staged@,
                        unstaged: unstaged@,
                        untracked: untracked@.map_values(|p: String| p@),
                        conflicted: conflicted@.map_values(|p: String| p@),
                    };
                    let rest = SortedStatus {
                        staged: if staged_status(e.flags) is Some { after.staged.drop_last() } else { after.staged },
                        unstaged: if unstaged_status(e.flags) is Some {
                            after.unstaged.drop_last()
                        } else {
                            after.unstaged
                        },
                        ..after
                    };
                    assert(rest.staged =~= before.staged);
                    assert(rest.unstaged =~= before.unstaged);
                    assert(rest == before);
                }
            }
            k += 1;
            proof {
                assert(entries@[k - 1] == *e);
            }
        }
        RepositoryStatus { branch_name, staged, unstaged, untracked, conflicted }
    }
}

/// Some file of `files` has path `path` and status `status`.
pub open spec fn lists_change(files: Seq<FileEntry>, path: Seq<char>, status: FileStatus) -> bool {
    exists|j: int| 0 <= j < files.len() && (#[trigger] files[j]).path@ == path && files[j].status == status
}

/// Some file of `files` has status `status`.
pub open spec fn lists_status(files: Seq<FileEntry>, status: FileStatus) -> bool {
    exists|j: int| 0 <= j < files.len() && (#[trigger] files[j]).status == status
}

/// Where a status report entry must be found among the sections, read off
/// its bits: a conflict among the conflicts, a new untracked file among the
/// untracked ones; any other path among the staged files with the status
/// its first index bit (new, modified, deleted, renamed, type change)
/// names, and among the unstaged files with the status its first
/// working-tree bit (modified, deleted, renamed, type change) names,
/// whatever its bits on the other side.
pub open spec fn entry_listed(e: StatusEntry, s: SortedStatus) -> bool {
    let f = e.flags;
    let p = e.path@;
    &&& f.conflicted ==> s.conflicted.contains(p)
    &&& !f.conflicted && f.wt_new ==> s.untracked.contains(p)
    &&& !f.conflicted && !f.wt_new ==> {
        &&& f.index_new ==> lists_change(s.staged, p, FileStatus::Added)
        &&& !f.index_new && f.index_modified ==> lists_change(s.staged, p, FileStatus::Modified)
        &&& !f.index_new && !f.index_modified && f.index_deleted ==> lists_change(s.staged, p, FileStatus::Deleted)
        &&& !f.index_new && !f.index_modified && !f.index_deleted && f.index_renamed ==> lists_status(
            s.staged,
            FileStatus::Renamed,
        )
        &&& !f.index_new && !f.index_modified && !f.index_deleted && !f.index_renamed && f.index_typechange
            ==> lists_change(s.staged, p, FileStatus::Typechange)
        &&& f.wt_modified ==> lists_change(s.unstaged, p, FileStatus::Modified)
        &&& !f.wt_modified && f.wt_deleted ==> lists_change(s.unstaged, p, FileStatus::Deleted)
        &&& !f.wt_modified && !f.wt_deleted && f.wt_renamed ==> lists_status(s.unstaged, FileStatus::Renamed)
        &&& !f.wt_modified && !f.wt_deleted && !f.wt_renamed && f.wt_typechange ==> lists_change(
            s.unstaged,
            p,
            FileStatus::Typechange,
        )
    }
}

/// `small` is a prefix of `big`.
pub open spec fn is_start_of<A>(small: Seq<A>, big: Seq<A>) -> bool {
    small.len() <= big.len() && forall|j: int| 0 <= j < small.len() ==> small[j] == big[j]
}

proof fn lemma_listed_in_longer(e: StatusEntry, small: SortedStatus, big: SortedStatus)
    requires
        entry_listed(e, small),
        is_start_of(small.staged, big.staged),
        is_start_of(small.unstaged, big.unstaged),
        is_start_of(small.untracked, big.untracked),
        is_start_of(small.conflicted, big.conflicted),
    ensures
        entry_listed(e, big),
{
    assert forall|p: Seq<char>, st: FileStatus| lists_change(small.staged, p, st) implies lists_change(
        big.staged,
        p,
        st,
    ) by {
        let j = choose|j: int| 0 <= j < small.staged.len() && (#[trigger] small.staged[j]).path@ == p
            && small.staged[j].status == st;
        assert(big.staged[j] == small.staged[j]);
    }
    assert forall|p: Seq<char>, st: FileStatus| lists_change(small.unstaged, p, st) implies lists_change(
        big.unstaged,
        p,
        st,
    ) by {
        let j = choose|j: int| 0 <= j < small.unstaged.len() && (#[trigger] small.unstaged[j]).path@ == p
            && small.unstaged[j].status == st;
        assert(big.unstaged[j] == small.unstaged[j]);
    }
    assert forall|st: FileStatus| lists_status(small.staged, st) implies lists_status(big.staged, st) by {
        let j = choose|j: int| 0 <= j < small.staged.len() && (#[trigger] small.staged[j]).status == st;
        assert(big.staged[j] == small.staged[j]);
    }
    assert forall|st: FileStatus| lists_status(small.unstaged, st) implies lists_status(big.unstaged, st) by {
        let j = choose|j: int| 0 <= j < small.unstaged.len() && (#[trigger] small.unstaged[j]).status == st;
        assert(big.unstaged[j] == small.unstaged[j]);
    }
    assert forall|p: Seq<char>| small.conflicted.contains(p) implies big.conflicted.contains(p) by {
        let j = choose|j: int| 0 <= j < small.conflicted.len() && small.conflicted[j] == p;
        assert(big.conflicted[j] == small.conflicted[j]);
    }
    assert forall|p: Seq<char>| small.untracked.contains(p) implies big.untracked.contains(p) by {
        let j = choose|j: int| 0 <= j < small.untracked.len() && small.untracked[j] == p;
        assert(big.untracked[j] == small.untracked[j]);
    }
}

proof fn lemma_sorted_prefix_lists(entries: Seq<StatusEntry>, k: int, s: SortedStatus)
    requires
        0 <= k <= entries.len(),
        sorted_prefix_ok(entries, k, s),
    ensures
        forall|i: int| 0 <= i < k ==> entry_listed(#[trigger] entries[i], s),
    decreases k,
{
    if k > 0 {
        let e = entries[k - 1];
        let rest = if e.flags.conflicted {
            SortedStatus { conflicted: s.conflicted.drop_last(), ..s }
        } else if e.flags.wt_new {
            SortedStatus { untracked: s.untracked.drop_last(), ..s }
        } else {
            SortedStatus {
                staged: if staged_status(e.flags) is Some { s.staged.drop_last() } else { s.staged },
                unstaged: if unstaged_status(e.flags) is Some { s.unstaged.drop_last() } else { s.unstaged },
                ..s
            }
        };
        lemma_sorted_prefix_lists(entries, k - 1, rest);
        assert forall|i: int| 0 <= i < k implies entry_listed(#[trigger] entries[i], s) by {
            if i < k - 1 {
                lemma_listed_in_longer(entries[i], rest, s);
            } else {
                if e.flags.conflicted {
                    assert(s.conflicted[s.conflicted.len() - 1] == e.path@);
                } else if e.flags.wt_new {
                    assert(s.untracked[s.untracked.len() - 1] == e.path@);
                } else {
                    if staged_status(e.flags) is Some {
                        assert(s.staged[s.staged.len() - 1] == s.staged.last());
                    }
                    if unstaged_status(e.flags) is Some {
                        assert(s.unstaged[s.unstaged.len() - 1] == s.unstaged.last());
                    }
                }
            }
        }
    }
}

/// Every entry of git's status report is found where its bits say: a
/// conflict among the conflicts, a new untracked file among the untracked
/// ones, and any other path among the staged files by its first index bit
/// and, at the same time, among the unstaged files by its first
/// working-tree bit. A file with some changes staged and others not is in
/// both sections.
pub proof fn lemma_every_entry_is_listed(entries: Seq<StatusEntry>, status: SortedStatus)
    requires
        sorted_prefix_ok(entries, entries.len() as int, status),
    ensures
        forall|i: int| 0 <= i < entries.len() ==> entry_listed(#[trigger] entries[i], status),
{
    lemma_sorted_prefix_lists(entries, entries.len() as int, status);
}

/// Some index bit of the entry is set.
pub open spec fn has_index_change(f: StatusFlags) -> bool {
    f.index_new || f.index_modified || f.index_deleted || f.index_renamed || f.index_typechange
}

/// Some working-tree bit of the entry other than "new" is set.
pub open spec fn has_worktree_change(f: StatusFlags) -> bool {
    f.wt_modified || f.wt_deleted || f.wt_renamed || f.wt_typechange
}

/// Among the first `k` entries of a report: how many are neither conflicts
/// nor new untracked files and have an index change, how many such have a
/// working-tree change, how many are new untracked files, and how many are
/// conflicts.
pub open spec fn entry_counts(entries: Seq<StatusEntry>, k: int) -> (nat, nat, nat, nat)
    decreases k,
{
    if k <= 0 {
        (0, 0, 0, 0)
    } else {
        let (staged, unstaged, untracked, conflicted) = entry_counts(entries, k - 1);
        let f = entries[k - 1].flags;
        if f.conflicted {
            (staged, unstaged, untracked, conflicted + 1)
        } else if f.wt_new {
            (staged, unstaged, untracked + 1, conflicted)
        } else {
            (
                if has_index_change(f) { staged + 1 } else { staged },
                if has_worktree_change(f) { unstaged + 1 } else { unstaged },
                untracked,
                conflicted,
            )
        }
    }
}

proof fn lemma_sorted_prefix_sizes(entries: Seq<StatusEntry>, k: int, s: SortedStatus)
    requires
        0 <= k <= entries.len(),
        sorted_prefix_ok(entries, k, s),
    ensures
        entry_counts(entries, k) == (s.staged.len(), s.unstaged.len(), s.untracked.len(), s.conflicted.len()),
    decreases k,
{
    if k > 0 {
        let e = entries[k - 1];
        let rest = if e.flags.conflicted {
            SortedStatus { conflicted: s.conflicted.drop_last(), ..s }
        } else if e.flags.wt_new {
            SortedStatus { untracked: s.untracked.drop_last(), ..s }
        } else {
            SortedStatus {
                staged: if staged_status(e.flags) is Some { s.staged.drop_last() } else { s.staged },
                unstaged: if unstaged_status(e.flags) is Some { s.unstaged.drop_last() } else { s.unstaged },
                ..s
            }
        };
        lemma_sorted_prefix_sizes(entries, k - 1, rest);
    }
}

/// The sections hold nothing the report does not give: one conflict per
/// conflicted entry, one untracked path per new untracked entry, and one
/// staged (unstaged) file per other entry with an index (working-tree)
/// change.
pub proof fn lemma_section_sizes(entries: Seq<StatusEntry>, status: SortedStatus)
    requires
        sorted_prefix_ok(entries, entries.len() as int, status),
    ensures
        entry_counts(entries, entries.len() as int) == (
            status.staged.len(),
            status.unstaged.len(),
            status.untracked.len(),
            status.conflicted.len(),
        ),
{
    lemma_sorted_prefix_sizes(entries, entries.len() as int, status);
}

} // verus!

verus! {

/// `a` comes no later than `b` in the order of `str`'s comparison: the
/// first character where they differ decides (by code point, which is the
/// order of their UTF-8 bytes), and a text comes before its extensions.
pub open spec fn text_le(a: Seq<char>, b: Seq<char>) -> bool
    decreases a.len(),
{
    if a.len() == 0 {
        true
    } else if b.len() == 0 {
        false
    } else if a[0] != b[0] {
        a[0] < b[0]
    } else {
        text_le(a.drop_first(), b.drop_first())
    }
}

/// The texts are in ascending order.
pub open spec fn texts_sorted(s: Seq<Seq<char>>) -> bool {
    forall|i: int, j: int| 0 <= i < j < s.len() ==> text_le(#[trigger] s[i], #[trigger] s[j])
}

/// The texts of a list of strings.
pub open spec fn texts_of(v: Seq<String>) -> Seq<Seq<char>> {
    v.map_values(|s: String| s@)
}

/// Of two texts, one comes no later than the other.
pub proof fn lemma_text_le_total(a: Seq<char>, b: Seq<char>)
    ensures
        text_le(a, b) || text_le(b, a),
    decreases a.len(),
{
    if a.len() > 0 && b.len() > 0 {
        if a[0] == b[0] {
            lemma_text_le_total(a.drop_first(), b.drop_first());
        } else {
            assert(a[0] < b[0] || b[0] < a[0]);
        }
    }
}

/// The order of texts is transitive.
pub proof fn lemma_text_le_transitive(a: Seq<char>, b: Seq<char>, c: Seq<char>)
    requires
        text_le(a, b),
        text_le(b, c),
    ensures
        text_le(a, c),
    decreases a.len(),
{
    if a.len() > 0 && b.len() > 0 && c.len() > 0 && a[0] == b[0] && b[0] == c[0] {
        lemma_text_le_transitive(a.drop_first(), b.drop_first(), c.drop_first());
    }
}

fn text_le_exec(a: &str, b: &str) -> (le: bool)
    ensures
        le == text_le(a@, b@),
{
    let x = crate::text::chars_vec(a);
    let y = crate::text::chars_vec(b);
    let mut i: usize = 0;
    assert(a@.skip(0) =~= a@ && b@.skip(0) =~= b@);
    while i < x.len() && i < y.len()
        invariant
            x@ == a@,
            y@ == b@,
            i <= x@.len(),
            i <= y@.len(),
            text_le(a@, b@) == text_le(a@.skip(i as int), b@.skip(i as int)),
        decreases x.len() - i,
    {
        assert(a@.skip(i as int)[0] == x@[i as int] && b@.skip(i as int)[0] == y@[i as int]);
        if x[i] != y[i] {
            return x[i] < y[i];
        }
        assert(a@.skip(i as int).drop_first() =~= a@.skip(i + 1));
        assert(b@.skip(i as int).drop_first() =~= b@.skip(i + 1));
        i += 1;
    }
    i == x.len()
}

/// The paths in ascending order (`slice::sort` on strings): the same paths,
/// each as often as before, sorted.
pub fn sorted_paths(paths: Vec<String>) -> (sorted: Vec<String>)
    ensures
        texts_sorted(texts_of(sorted@)),
        texts_of(sorted@).to_multiset() == texts_of(paths@).to_multiset(),
{
    let ghost input = texts_of(paths@);
    let mut sorted: Vec<String> = Vec::new();
    assert(texts_of(sorted@) =~= input.take(0));
    let mut i: usize = 0;
    while i < paths.len()
        invariant
            i <= paths@.len(),
            input == texts_of(paths@),
            texts_sorted(texts_of(sorted@)),
            texts_of(sorted@).to_multiset() == input.take(i as int).to_multiset(),
        decreases paths.len() - i,
    {
        let x = paths[i].clone();
        let ghost before = texts_of(sorted@);
        let mut j: usize = 0;
        while j < sorted.len() && text_le_exec(sorted[j].as_str(), x.as_str())
            invariant
                j <= sorted@.len(),
                before == texts_of(sorted@),
                forall|k: int| 0 <= k < j ==> text_le(#[trigger] before[k], x@),
            decreases sorted.len() - j,
        {
            j += 1;
        }
        proof {
            if j < before.len() {
                lemma_text_le_total(before[j as int], x@);
            }
        }
        sorted.insert(j, x);
        proof {
            let after = texts_of(sorted@);
            assert(after =~= before.insert(j as int, x@));
            assert forall|p: int, q: int| 0 <= p < q < after.len() implies text_le(
                #[trigger] after[p],
                #[trigger] after[q],
            ) by {
                if q < j {
                    assert(after[p] == before[p] && after[q] == before[q]);
                } else if q == j {
                    assert(after[p] == before[p]);
                } else if p == j {
                    assert(after[q] == before[q - 1]);
                    if q - 1 > j {
                        lemma_text_le_transitive(x@, before[j as int], before[q - 1]);
                    }
                } else if p < j {
                    assert(after[p] == before[p] && after[q] == before[q - 1]);
                } else {
                    assert(after[p] == before[p - 1] && after[q] == before[q - 1]);
                }
            }
            assert(input.take(i + 1) =~= input.take(i as int).push(x@));
            vstd::seq_lib::to_multiset_build(input.take(i as int), x@);
            vstd::seq_lib::to_multiset_insert(before, j as int, x@);
        }
        i += 1;
    }
    assert(input.take(paths@.len() as int) =~= input);
    sorted
}

} // verus!
