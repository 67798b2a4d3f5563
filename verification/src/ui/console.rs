use vstd::prelude::*;
use crate::status::{FileEntry, RepositoryStatus, file_status_text};
use crate::text::{owned, push_str};

verus! {

/// A changed file as the console lists it: a tab, its status, its path.
pub open spec fn entry_line(entry: FileEntry) -> Seq<char> {
    "\t"@ + file_status_text(entry.status) + ": "@ + entry.path@
}

/// A path as the console lists it, after a tab.
pub open spec fn path_line(path: Seq<char>) -> Seq<char> {
    "\t"@ + path
}

/// A section of the report: after a blank line its header and the hint of
/// the git command that acts on it, then one line per file; nothing for a
/// section without files.
pub open spec fn report_section(header: Seq<char>, hint: Seq<char>, items: Seq<Seq<char>>) -> Seq<Seq<char>> {
    if items.len() == 0 {
        Seq::empty()
    } else {
        seq!["\n"@ + header, hint] + items
    }
}

/// The lines the console prints for a status: the branch, then either that
/// the tree is clean or the staged, unstaged, untracked and conflicted
/// sections in that order.
pub open spec fn console_report(status: &RepositoryStatus) -> Seq<Seq<char>> {
    seq!["On branch "@ + status.branch_name@] + if status.spec_is_clean() {
        seq!["nothing to commit, working tree clean"@]
    } else {
        report_section(
            "Changes to be committed:"@,
            "  (use \"git reset HEAD <file>...\" to unstage)"@,
            status.staged@.map_values(|e: FileEntry| entry_line(e)),
        ) + report_section(
            "Changes not staged for commit:"@,
            "  (use \"git add <file>...\" to update what will be committed)"@,
            status.unstaged@.map_values(|e: FileEntry| entry_line(e)),
        ) + report_section(
            "Untracked files:"@,
            "  (use \"git add <file>...\" to include in what will be committed)"@,
            status.untracked@.map_values(|p: String| path_line(p@)),
        ) + report_section(
            "Conflicted files:"@,
            "  (fix conflicts and run \"git add <file>...\" to mark resolution)"@,
            status.conflicted@.map_values(|p: String| path_line(p@)),
        )
    }
}

fn push_section_head(lines: &mut Vec<String>, header: &str, hint: &str)
    ensures
        final(lines)@.map_values(|l: String| l@) == old(lines)@.map_values(|l: String| l@) + seq![
            "\n"@ + header@,
            hint@,
        ],
{
    let mut head = owned("\n");
    push_str(&mut head, header);
    let ghost before = lines@.map_values(|l: String| l@);
    lines.push(head);
    lines.push(owned(hint));
    assert(lines@.map_values(|l: String| l@) =~= before + seq!["\n"@ + header@, hint@]);
}

fn push_entry_section(lines: &mut Vec<String>, header: &str, hint: &str, entries: &Vec<FileEntry>)
    ensures
        final(lines)@.map_values(|l: String| l@) == old(lines)@.map_values(|l: String| l@) + report_section(
            header@,
            hint@,
            entries@.map_values(|e: FileEntry| entry_line(e)),
        ),
{
    let ghost start = lines@.map_values(|l: String| l@);
    let ghost items = entries@.map_values(|e: FileEntry| entry_line(e));
    if entries.len() == 0 {
        assert(items.len() == 0);
        assert(lines@.map_values(|l: String| l@) =~= start + report_section(header@, hint@, items));
        return;
    }
    push_section_head(lines, header, hint);
    let mut i: usize = 0;
    while i < entries.len()
        invariant
            i <= entries@.len(),
            items == entries@.map_values(|e: FileEntry| entry_line(e)),
            lines@.map_values(|l: String| l@) == start + seq!["\n"@ + header@, hint@] + items.take(i as int),
        decreases entries.len() - i,
    {
        let ghost before = lines@.map_values(|l: String| l@);
        let mut line = owned("\t");
        push_str(&mut line, entries[i].status.to_display_string().as_str());
        push_str(&mut line, ": ");
        push_str(&mut line, entries[i].path.as_str());
        lines.push(line);
        assert(items.take(i + 1) =~= items.take(i as int).push(items[i as int]));
        assert(lines@.map_values(|l: String| l@) =~= before.push(items[i as int]));
        i += 1;
    }
    assert(items.take(entries@.len() as int) =~= items);
    assert(lines@.map_values(|l: String| l@) =~= start + report_section(header@, hint@, items));
}

fn push_path_section(lines: &mut Vec<String>, header: &str, hint: &str, paths: &Vec<String>)
    ensures
        final(lines)@.map_values(|l: String| l@) == old(lines)@.map_values(|l: String| l@) + report_section(
            header@,
            hint@,
            paths@.map_values(|p: String| path_line(p@)),
        ),
{
    let ghost start = lines@.map_values(|l: String| l@);
    let ghost items = paths@.map_values(|p: String| path_line(p@));
    if paths.len() == 0 {
        assert(items.len() == 0);
        assert(lines@.map_values(|l: String| l@) =~= start + report_section(header@, hint@, items));
        return;
    }
    push_section_head(lines, header, hint);
    let mut i: usize = 0;
    while i < paths.len()
        invariant
            i <= paths@.len(),
            items == paths@.map_values(|p: String| path_line(p@)),
            lines@.map_values(|l: String| l@) == start + seq!["\n"@ + header@, hint@] + items.take(i as int),
        decreases paths.len() - i,
    {
        let ghost before = lines@.map_values(|l: String| l@);
        let mut line = owned("\t");
        push_str(&mut line, paths[i].as_str());
        lines.push(line);
        assert(items.take(i + 1) =~= items.take(i as int).push(items[i as int]));
        assert(lines@.map_values(|l: String| l@) =~= before.push(items[i as int]));
        i += 1;
    }
    assert(items.take(paths@.len() as int) =~= items);
    assert(lines@.map_values(|l: String| l@) =~= start + report_section(header@, hint@, items));
}

/// The lines `--console` prints for a status, one string per line.
pub fn console_status_lines(status: &RepositoryStatus) -> (lines: Vec<String>)
    ensures
        lines@.map_values(|l: String| l@) == console_report(status),
{
    let mut lines: Vec<String> = Vec::new();
    let mut first = owned("On branch ");
    push_str(&mut first, status.branch_name.as_str());
    lines.push(first);
    assert(lines@.map_values(|l: String| l@) =~= seq!["On branch "@ + status.branch_name@]);
    if status.is_clean() {
        lines.push(owned("nothing to commit, working tree clean"));
        assert(lines@.map_values(|l: String| l@) =~= console_report(status));
        return lines;
    }
    push_entry_section(
        &mut lines,
        "Changes to be committed:",
        "  (use \"git reset HEAD <file>...\" to unstage)",
        &status.staged,
    );
    push_entry_section(
        &mut lines,
        "Changes not staged for commit:",
        "  (use \"git add <file>...\" to update what will be committed)",
        &status.unstaged,
    );
    push_path_section(
        &mut lines,
        "Untracked files:",
        "  (use \"git add <file>...\" to include in what will be committed)",
        &status.untracked,
    );
    push_path_section(
        &mut lines,
        "Conflicted files:",
        "  (fix conflicts and run \"git add <file>...\" to mark resolution)",
        &status.conflicted,
    );
    assert(lines@.map_values(|l: String| l@) =~= console_report(status));
    lines
}

} // verus!
