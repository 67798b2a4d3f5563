use vstd::prelude::*;
use crate::diff::{DiffHunk, DiffLine, LineType};
use crate::operations::OperationResult;
use crate::operations::staging::{HunkPatch, hunk_message, hunk_message_text, patch_file_header, push_patch_file_header};
use crate::repository::RepositoryError;
use crate::text::{owned, push_str, trim_spec, trimmed};

verus! {

/// A line of a patch applied in reverse: its marker and content as they
/// stand (the content keeps its own line feed), or the no-newline note.
pub open spec fn discard_line(line: DiffLine) -> Seq<char> {
    match line.line_type {
        LineType::NoNewlineEOF => "\\ No newline at end of file\n"@,
        LineType::Addition => "+"@ + line.content@,
        LineType::Deletion => "-"@ + line.content@,
        LineType::Context => " "@ + line.content@,
    }
}

/// The body of a discard patch.
pub open spec fn discard_body(lines: Seq<DiffLine>) -> Seq<char>
    decreases lines.len(),
{
    if lines.len() == 0 {
        Seq::empty()
    } else {
        discard_body(lines.drop_last()) + discard_line(lines.last())
    }
}

/// The patch whose reverse discards a hunk from the working tree.
pub open spec fn discard_patch_text(path: Seq<char>, hunk: DiffHunk) -> Seq<char> {
    patch_file_header(path) + trim_spec(hunk.header.raw@) + "\n"@ + discard_body(hunk.lines@)
}

/// The message for a hunk that cannot be discarded.
pub open spec fn not_discardable_message() -> Seq<char> {
    "Hunk is not discardable (e.g., binary file or conflict)"@
}

/// The patch to apply in reverse to discard a hunk from the working tree.
pub fn generate_discard_patch(file_path: &str, hunk: &DiffHunk) -> (patch: String)
    ensures
        patch@ == discard_patch_text(file_path@, *hunk),
{
    let mut patch = String::new();
    push_patch_file_header(&mut patch, file_path);
    let header = trimmed(hunk.header.raw.as_str());
    push_str(&mut patch, header.as_str());
    push_str(&mut patch, "\n");
    let ghost start = patch@;
    let lines = &hunk.lines;
    let mut i: usize = 0;
    while i < lines.len()
        invariant
            i <= lines@.len(),
            *lines == hunk.lines,
            patch@ == start + discard_body(lines@.take(i as int)),
        decreases lines.len() - i,
    {
        let line = &lines[i];
        assert(lines@.take(i + 1).drop_last() =~= lines@.take(i as int));
        match line.line_type {
            LineType::NoNewlineEOF => push_str(&mut patch, "\\ No newline at end of file\n"),
            LineType::Addition => {
                push_str(&mut patch, "+");
                push_str(&mut patch, line.content.as_str());
            },
            LineType::Deletion => {
                push_str(&mut patch, "-");
                push_str(&mut patch, line.content.as_str());
            },
            LineType::Context => {
                push_str(&mut patch, " ");
                push_str(&mut patch, line.content.as_str());
            },
        }
        i += 1;
        assert(patch@ =~= start + discard_body(lines@.take(i as int)));
    }
    assert(lines@.take(lines@.len() as int) =~= lines@);
    assert(patch@ =~= discard_patch_text(file_path@, *hunk));
    patch
}

/// The patch that discards a hunk and the message for it, or an error for a
/// hunk that cannot be discarded.
pub fn discard_hunk_plan(file_path: &str, hunk: &DiffHunk) -> (plan: Result<HunkPatch, RepositoryError>)
    ensures
        !hunk.stageable ==> (plan matches Err(RepositoryError::Other(m)) && m@ == not_discardable_message()),
        hunk.stageable ==> (plan matches Ok(p) && p.patch@ == discard_patch_text(file_path@, *hunk) && p.message@
            == hunk_message("Discarded"@, file_path@, hunk.header.old_start, hunk.header.old_lines)),
{
    if !hunk.stageable {
        return Err(RepositoryError::Other(owned("Hunk is not discardable (e.g., binary file or conflict)")));
    }
    Ok(HunkPatch {
        patch: generate_discard_patch(file_path, hunk),
        message: hunk_message_text("Discarded", file_path, hunk.header.old_start, hunk.header.old_lines),
    })
}

/// The result of discarding a whole file: its changes for a tracked file,
/// the file itself for an untracked one.
pub fn discard_file_result(path: &str, in_history: bool) -> (result: OperationResult)
    ensures
        result.message@ == if in_history {
            "Discarded changes to "@ + path@
        } else {
            "Deleted untracked file "@ + path@
        },
{
    let mut message = if in_history { owned("Discarded changes to ") } else { owned("Deleted untracked file ") };
    push_str(&mut message, path);
    OperationResult::new(message)
}

} // verus!
