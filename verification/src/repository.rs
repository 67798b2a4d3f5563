use vstd::prelude::*;
use crate::text::{owned, push_char, push_str, split_on};

verus! {

#[derive(Debug, Clone)]
pub struct CommitFileChange {
    pub path: String,
    pub old_path: Option<String>,
    pub change_type: CommitChangeType,
}

#[derive(Debug, Clone, Copy, PartialEq, Eq, Structural)]
pub enum CommitChangeType {
    Added,
    Deleted,
    Modified,
    Renamed,
    Other,
}

/// The letter that marks a change in the log.
pub open spec fn change_letter(change: CommitChangeType) -> char {
    match change {
        CommitChangeType::Added => 'A',
        CommitChangeType::Deleted => 'D',
        CommitChangeType::Modified => 'M',
        CommitChangeType::Renamed => 'R',
        CommitChangeType::Other => '?',
    }
}

impl CommitChangeType {
    /// The letter that marks the change, as it is displayed.
    pub fn to_display_string(&self) -> (text: String)
        ensures
            text@ == seq![change_letter(*self)],
    {
        let mut text = String::new();
        crate::text::push_char(&mut text, match self {
            CommitChangeType::Added => 'A',
            CommitChangeType::Deleted => 'D',
            CommitChangeType::Modified => 'M',
            CommitChangeType::Renamed => 'R',
            CommitChangeType::Other => '?',
        });
        text
    }
}


#[derive(Debug)]
pub enum RepositoryError {
    NotFound,
    NotARepository,
    Corrupted(String),
    AccessDenied,
    GitError(git2::Error),
    IoError(std::io::Error),
    Other(String),
}

/// The text a git error displays (`git2::Error`'s `Display`).
#[verifier::external_body]
pub(crate) fn git_error_text(error: &git2::Error) -> String {
    error.to_string()
}

/// The text an I/O error displays (`std::io::Error`'s `Display`).
#[verifier::external_body]
pub(crate) fn io_error_text(error: &std::io::Error) -> String {
    error.to_string()
}

impl RepositoryError {
    /// The message the error is shown with; a git or I/O error's own message
    /// follows its prefix.
    pub fn to_display_string(&self) -> (text: String)
        ensures
            self matches RepositoryError::NotFound ==> text@ == "Not in a Git repository"@,
            self matches RepositoryError::NotARepository ==> text@ == "Not a Git repository"@,
            self matches RepositoryError::Corrupted(m) ==> text@ == "Repository corrupted: "@ + m@,
            self matches RepositoryError::AccessDenied ==> text@ == "Access denied to repository"@,
            self matches RepositoryError::GitError(_) ==> "Git error: "@.is_prefix_of(text@),
            self matches RepositoryError::IoError(_) ==> "IO error: "@.is_prefix_of(text@),
            self matches RepositoryError::Other(m) ==> text@ == "Repository error: "@ + m@,
    {
        match self {
            RepositoryError::NotFound => owned("Not in a Git repository"),
            RepositoryError::NotARepository => owned("Not a Git repository"),
            RepositoryError::Corrupted(msg) => {
                let mut text = owned("Repository corrupted: ");
                push_str(&mut text, msg.as_str());
                text
            },
            RepositoryError::AccessDenied => owned("Access denied to repository"),
            RepositoryError::GitError(e) => {
                let mut text = owned("Git error: ");
                let detail = git_error_text(e);
                let ghost head = text@;
                push_str(&mut text, detail.as_str());
                assert(text@.subrange(0, head.len() as int) =~= head);
                text
            },
            RepositoryError::IoError(e) => {
                let mut text = owned("IO error: ");
                let detail = io_error_text(e);
                let ghost head = text@;
                push_str(&mut text, detail.as_str());
                assert(text@.subrange(0, head.len() as int) =~= head);
                text
            },
            RepositoryError::Other(msg) => {
                let mut text = owned("Repository error: ");
                push_str(&mut text, msg.as_str());
                text
            },
        }
    }
}

/// The components a relative path resolves to: empty and `.` components
/// dropped, each `..` removing the component before it (or kept when there
/// is none).
pub open spec fn resolve_components(parts: Seq<Seq<char>>) -> Seq<Seq<char>>
    decreases parts.len(),
{
    if parts.len() == 0 {
        Seq::empty()
    } else {
        let before = resolve_components(parts.drop_last());
        let part = parts.last();
        if part.len() == 0 || part == "."@ {
            before
        } else if part == ".."@ {
            if before.len() > 0 {
                before.drop_last()
            } else {
                before.push(".."@)
            }
        } else {
            before.push(part)
        }
    }
}

/// Components joined with `/`.
pub open spec fn join_components(parts: Seq<Seq<char>>) -> Seq<char>
    decreases parts.len(),
{
    if parts.len() == 0 {
        Seq::empty()
    } else if parts.len() == 1 {
        parts[0]
    } else {
        join_components(parts.drop_last()) + "/"@ + parts.last()
    }
}

/// The message for a path that is not relative to the repository root.
pub open spec fn not_relative_message(path: Seq<char>) -> Seq<char> {
    "Path '"@ + path + "' must be relative to repository root"@
}

fn join_parts(parts: &Vec<String>) -> (joined: String)
    ensures
        joined@ == join_components(parts@.map_values(|p: String| p@)),
{
    let mut joined = String::new();
    let mut i: usize = 0;
    while i < parts.len()
        invariant
            i <= parts@.len(),
            joined@ == join_components(parts@.map_values(|p: String| p@).take(i as int)),
        decreases parts.len() - i,
    {
        let ghost views = parts@.map_values(|p: String| p@);
        assert(views.take(i + 1).drop_last() =~= views.take(i as int));
        proof {
            reveal_strlit("/");
        }
        if i > 0 {
            push_char(&mut joined, '/');
        }
        push_str(&mut joined, parts[i].as_str());
        i += 1;
        assert(views.take(i as int).last() == parts@[i - 1]@);
        assert(joined@ =~= join_components(views.take(i as int)));
    }
    assert(parts@.map_values(|p: String| p@).take(parts@.len() as int) =~= parts@.map_values(|p: String| p@));
    joined
}

/// A repository-relative path in normal form: `.` and empty components
/// dropped and `..` resolved, joined with `/`. An absolute path is an error,
/// and so is a path that resolves to nothing unless `allow_empty` is set.
pub fn normalize_repo_relative_path_with_options(path: &str, allow_empty: bool) -> (result: Result<String, RepositoryError>)
    ensures
        path@.len() > 0 && path@[0] == '/' ==> (result matches Err(RepositoryError::Other(m)) && m@
            == not_relative_message(path@)),
        !(path@.len() > 0 && path@[0] == '/') ==> ({
            let parts = resolve_components(split_on(path@, '/'));
            &&& parts.len() == 0 && !allow_empty ==> (result matches Err(RepositoryError::Other(m)) && m@
                == "Path cannot be empty"@)
            &&& !(parts.len() == 0 && !allow_empty) ==> (result matches Ok(p) && p@ == join_components(parts))
        }),
{
    let chars = crate::text::chars_vec(path);
    if chars.len() > 0 && chars[0] == '/' {
        let mut message = owned("Path '");
        push_str(&mut message, path);
        push_str(&mut message, "' must be relative to repository root");
        return Err(RepositoryError::Other(message));
    }
    let pieces = crate::text::split_text(path, '/');
    let ghost views = pieces@.map_values(|p: String| p@);
    let mut stack: Vec<String> = Vec::new();
    let mut i: usize = 0;
    while i < pieces.len()
        invariant
            i <= pieces@.len(),
            views == pieces@.map_values(|p: String| p@),
            stack@.map_values(|p: String| p@) == resolve_components(views.take(i as int)),
        decreases pieces.len() - i,
    {
        let part = &pieces[i];
        assert(views.take(i + 1).drop_last() =~= views.take(i as int));
        assert(views.take(i + 1).last() == part@);
        let ghost before = stack@.map_values(|p: String| p@);
        let n = part.as_str().unicode_len();
        let is_dot = n == 1 && part.as_str().get_char(0) == '.';
        let is_dot_dot = n == 2 && part.as_str().get_char(0) == '.' && part.as_str().get_char(1) == '.';
        proof {
            reveal_strlit(".");
            reveal_strlit("..");
            if is_dot {
                assert(part@ =~= "."@);
            } else if part@ == "."@ {
                assert(part@[0] == '.');
            }
            if is_dot_dot {
                assert(part@ =~= ".."@);
            } else if part@ == ".."@ {
                assert(part@[0] == '.' && part@[1] == '.');
            }
        }
        if n == 0 || is_dot {
        } else if is_dot_dot {
            if stack.len() > 0 {
                stack.pop();
                assert(stack@.map_values(|p: String| p@) =~= before.drop_last());
            } else {
                stack.push(owned(".."));
                assert(stack@.map_values(|p: String| p@) =~= before.push(".."@));
            }
        } else {
            stack.push(part.clone());
            assert(stack@.map_values(|p: String| p@) =~= before.push(part@));
        }
        i += 1;
    }
    assert(views.take(pieces@.len() as int) =~= views);
    assert(stack@.len() == stack@.map_values(|p: String| p@).len());
    if stack.len() == 0 && !allow_empty {
        return Err(RepositoryError::Other(owned("Path cannot be empty")));
    }
    Ok(join_parts(&stack))
}

/// What staging a path does to the index, by what the working tree, the
/// index and HEAD hold of it.
#[derive(Debug, Clone, Copy, PartialEq, Eq, Structural)]
pub enum IndexUpdate {
    /// The file is there: add it.
    AddFile,
    /// A directory is there: add every file below it.
    AddDirectory,
    /// The path is gone but in the index: remove its entry, staging the deletion.
    RemoveEntry,
    /// The path is gone, not in the index, but in HEAD (a deleted tracked
    /// directory): remove the entries below it.
    RemoveEntriesUnder,
    /// The path is gone and was never tracked.
    Refuse,
}

/// The index update for a path: a missing path is removed where the index
/// or HEAD knows it and refused otherwise; a present one is added, as a
/// directory or as a file.
pub open spec fn index_update_spec(exists: bool, is_directory: bool, in_index: bool, tracked_in_head: bool) -> IndexUpdate {
    if !exists {
        if in_index {
            IndexUpdate::RemoveEntry
        } else if tracked_in_head {
            IndexUpdate::RemoveEntriesUnder
        } else {
            IndexUpdate::Refuse
        }
    } else if is_directory {
        IndexUpdate::AddDirectory
    } else {
        IndexUpdate::AddFile
    }
}

/// Decides how staging a path updates the index.
pub fn plan_index_update(exists: bool, is_directory: bool, in_index: bool, tracked_in_head: bool) -> (update: IndexUpdate)
    ensures
        update == index_update_spec(exists, is_directory, in_index, tracked_in_head),
{
    if !exists {
        if in_index {
            IndexUpdate::RemoveEntry
        } else if tracked_in_head {
            IndexUpdate::RemoveEntriesUnder
        } else {
            IndexUpdate::Refuse
        }
    } else if is_directory {
        IndexUpdate::AddDirectory
    } else {
        IndexUpdate::AddFile
    }
}

/// The error for staging a path that is neither in the working tree nor
/// tracked.
pub fn untracked_missing_error(path: &str) -> (error: RepositoryError)
    ensures
        error matches RepositoryError::Other(m) && m@ == "File '"@ + path@ + "' does not exist and is not tracked"@,
{
    let mut message = owned("File '");
    push_str(&mut message, path);
    push_str(&mut message, "' does not exist and is not tracked");
    RepositoryError::Other(message)
}

/// An index entry at `path` itself or anywhere below it.
pub open spec fn entry_under(entry: Seq<char>, path: Seq<char>) -> bool {
    entry == path || (path + "/"@).is_prefix_of(entry)
}

/// The entries at or below `path`, in order.
pub open spec fn entries_under(entries: Seq<Seq<char>>, path: Seq<char>) -> Seq<Seq<char>>
    decreases entries.len(),
{
    if entries.len() == 0 {
        Seq::empty()
    } else {
        entries_under(entries.drop_last(), path) + if entry_under(entries.last(), path) {
            seq![entries.last()]
        } else {
            Seq::empty()
        }
    }
}

fn is_entry_under(entry: &str, path: &str) -> (under: bool)
    ensures
        under == entry_under(entry@, path@),
{
    let e = crate::text::chars_vec(entry);
    let p = crate::text::chars_vec(path);
    proof {
        reveal_strlit("/");
    }
    if e.len() == p.len() {
        let mut i: usize = 0;
        while i < e.len()
            invariant
                e@ == entry@,
                p@ == path@,
                e@.len() == p@.len(),
                i <= e@.len(),
                forall|k: int| 0 <= k < i ==> e@[k] == p@[k],
            decreases e.len() - i,
        {
            if e[i] != p[i] {
                assert(!((path@ + "/"@).is_prefix_of(entry@)));
                return false;
            }
            i += 1;
        }
        assert(e@ =~= p@);
        return true;
    }
    if e.len() <= p.len() || e[p.len()] != '/' {
        assert(entry@ != path@);
        assert(!((path@ + "/"@).is_prefix_of(entry@)) || entry@[path@.len() as int] == (path@ + "/"@)[path@.len() as int]);
        return false;
    }
    let mut i: usize = 0;
    while i < p.len()
        invariant
            e@ == entry@,
            p@ == path@,
            e@.len() > p@.len(),
            e@[p@.len() as int] == '/',
            i <= p@.len(),
            forall|k: int| 0 <= k < i ==> e@[k] == p@[k],
        decreases p.len() - i,
    {
        if e[i] != p[i] {
            assert(entry@[i as int] != (path@ + "/"@)[i as int]);
            return false;
        }
        i += 1;
    }
    assert((path@ + "/"@).is_prefix_of(entry@)) by {
        assert forall|k: int| 0 <= k < (path@ + "/"@).len() implies (path@ + "/"@)[k] == entry@[k] by {
            if k < path@.len() {
                assert(e@[k] == p@[k]);
            }
        }
    }
    true
}

/// The index entries to remove to stage the deletion of a tracked
/// directory: those at `path` or below it, in index order.
pub fn index_entries_under(entries: &Vec<String>, path: &str) -> (under: Vec<String>)
    ensures
        under@.map_values(|e: String| e@) == entries_under(entries@.map_values(|e: String| e@), path@),
{
    let ghost views = entries@.map_values(|e: String| e@);
    let mut under: Vec<String> = Vec::new();
    let mut i: usize = 0;
    while i < entries.len()
        invariant
            i <= entries@.len(),
            views == entries@.map_values(|e: String| e@),
            under@.map_values(|e: String| e@) == entries_under(views.take(i as int), path@),
        decreases entries.len() - i,
    {
        assert(views.take(i + 1).drop_last() =~= views.take(i as int));
        assert(views.take(i + 1).last() == entries@[i as int]@);
        let ghost before = under@.map_values(|e: String| e@);
        if is_entry_under(entries[i].as_str(), path) {
            under.push(entries[i].clone());
            assert(under@.map_values(|e: String| e@) =~= before.push(entries@[i as int]@));
        }
        i += 1;
        assert(under@.map_values(|e: String| e@) =~= entries_under(views.take(i as int), path@));
    }
    assert(views.take(entries@.len() as int) =~= views);
    under
}


} // verus!
