use vstd::prelude::*;
use crate::diff::{DiffHunk, DiffLine, LineRange, LineType, hunk_header_text, generate_hunk_header};
use crate::operations::OperationResult;
use crate::repository::RepositoryError;
use crate::text::{decimal, owned, push_decimal, push_str, trim_spec, trimmed};

verus! {

/// A patch for one hunk, with the message shown once it has been applied.
pub struct HunkPatch {
    pub patch: String,
    pub message: String,
}

/// The file header of a one-file patch, with placeholder object names.
pub open spec fn patch_file_header(path: Seq<char>) -> Seq<char> {
    "diff --git a/"@ + path + " b/"@ + path + "\n"@ + "index 0000000..0000000 100644\n"@ + "--- a/"@ + path
        + "\n"@ + "+++ b/"@ + path + "\n"@
}

/// The marker a line is written with in a patch; `reverse` swaps additions
/// and deletions.
pub open spec fn patch_prefix(line_type: LineType, reverse: bool) -> Seq<char> {
    match line_type {
        LineType::Addition => if reverse { "-"@ } else { "+"@ },
        LineType::Deletion => if reverse { "+"@ } else { "-"@ },
        LineType::Context => " "@,
        LineType::NoNewlineEOF => "\\"@,
    }
}

/// The body of a patch: each line with its marker, then a line feed.
pub open spec fn patch_body(lines: Seq<DiffLine>, reverse: bool) -> Seq<char>
    decreases lines.len(),
{
    if lines.len() == 0 {
        Seq::empty()
    } else {
        patch_body(lines.drop_last(), reverse) + patch_prefix(lines.last().line_type, reverse)
            + lines.last().content@ + "\n"@
    }
}

/// The patch that stages a hunk: the file header, the hunk's own header
/// (trimmed), and its lines.
pub open spec fn stage_patch_text(path: Seq<char>, hunk: DiffHunk) -> Seq<char> {
    patch_file_header(path) + trim_spec(hunk.header.raw@) + "\n"@ + patch_body(hunk.lines@, false)
}

/// The patch that unstages a hunk: the file header, a header with the two
/// sides swapped, and the lines with additions and deletions swapped.
pub open spec fn unstage_patch_text(path: Seq<char>, hunk: DiffHunk) -> Seq<char> {
    patch_file_header(path) + hunk_header_text(
        LineRange { start: hunk.header.new_start, count: hunk.header.new_lines },
        LineRange { start: hunk.header.old_start, count: hunk.header.old_lines },
    ) + "\n"@ + patch_body(hunk.lines@, true)
}

/// `"<verb> hunk in <path> (lines <start>-<start + count>)"`.
pub open spec fn hunk_message(verb: Seq<char>, path: Seq<char>, start: u32, count: u32) -> Seq<char> {
    verb + " hunk in "@ + path + " (lines "@ + decimal(start as nat) + "-"@ + decimal((start + count) as nat)
        + ")"@
}

/// The message for a hunk that cannot be staged.
pub open spec fn not_stageable_message() -> Seq<char> {
    "Hunk is not stageable (e.g., binary file or conflict)"@
}

pub fn push_patch_file_header(patch: &mut String, file_path: &str)
    ensures
        final(patch)@ == old(patch)@ + patch_file_header(file_path@),
{
    let ghost start = patch@;
    push_str(patch, "diff --git a/");
    push_str(patch, file_path);
    push_str(patch, " b/");
    push_str(patch, file_path);
    push_str(patch, "\n");
    push_str(patch, "index 0000000..0000000 100644\n");
    push_str(patch, "--- a/");
    push_str(patch, file_path);
    push_str(patch, "\n");
    push_str(patch, "+++ b/");
    push_str(patch, file_path);
    push_str(patch, "\n");
    assert(patch@ =~= start + patch_file_header(file_path@));
}

fn prefix_str(line_type: LineType, reverse: bool) -> (prefix: &'static str)
    ensures
        prefix@ == patch_prefix(line_type, reverse),
{
    match line_type {
        LineType::Addition => if reverse { "-" } else { "+" },
        LineType::Deletion => if reverse { "+" } else { "-" },
        LineType::Context => " ",
        LineType::NoNewlineEOF => "\\",
    }
}

fn push_patch_body(patch: &mut String, lines: &Vec<DiffLine>, reverse: bool)
    ensures
        final(patch)@ == old(patch)@ + patch_body(lines@, reverse),
{
    let ghost start = patch@;
    let mut i: usize = 0;
    while i < lines.len()
        invariant
            i <= lines@.len(),
            patch@ == start + patch_body(lines@.take(i as int), reverse),
        decreases lines.len() - i,
    {
        let line = &lines[i];
        assert(lines@.take(i + 1).drop_last() =~= lines@.take(i as int));
        push_str(patch, prefix_str(line.line_type, reverse));
        push_str(patch, line.content.as_str());
        push_str(patch, "\n");
        i += 1;
        assert(patch@ =~= start + patch_body(lines@.take(i as int), reverse));
    }
    assert(lines@.take(lines@.len() as int) =~= lines@);
}

/// The patch that stages a hunk into the index.
pub fn generate_stage_patch(file_path: &str, hunk: &DiffHunk) -> (patch: String)
    ensures
        patch@ == stage_patch_text(file_path@, *hunk),
{
    let mut patch = String::new();
    push_patch_file_header(&mut patch, file_path);
    let header = trimmed(hunk.header.raw.as_str());
    push_str(&mut patch, header.as_str());
    push_str(&mut patch, "\n");
    push_patch_body(&mut patch, &hunk.lines, false);
    assert(patch@ =~= stage_patch_text(file_path@, *hunk));
    patch
}

/// The reverse patch that takes a hunk back out of the index.
pub fn generate_unstage_patch(file_path: &str, hunk: &DiffHunk) -> (patch: String)
    ensures
        patch@ == unstage_patch_text(file_path@, *hunk),
{
    let mut patch = String::new();
    push_patch_file_header(&mut patch, file_path);
    let header = generate_hunk_header(
        &LineRange { start: hunk.header.new_start, count: hunk.header.new_lines },
        &LineRange { start: hunk.header.old_start, count: hunk.header.old_lines },
    );
    push_str(&mut patch, header.raw.as_str());
    push_str(&mut patch, "\n");
    push_patch_body(&mut patch, &hunk.lines, true);
    assert(patch@ =~= unstage_patch_text(file_path@, *hunk));
    patch
}

/// `"<verb> hunk in <path> (lines <start>-<end>)"`.
pub fn hunk_message_text(verb: &str, file_path: &str, start: u32, count: u32) -> (message: String)
    ensures
        message@ == hunk_message(verb@, file_path@, start, count),
{
    let mut message = owned(verb);
    push_str(&mut message, " hunk in ");
    push_str(&mut message, file_path);
    push_str(&mut message, " (lines ");
    push_decimal(&mut message, start as u64);
    push_str(&mut message, "-");
    push_decimal(&mut message, start as u64 + count as u64);
    push_str(&mut message, ")");
    assert(message@ =~= hunk_message(verb@, file_path@, start, count));
    message
}

/// The patch that stages a hunk and the message for it, or an error for a
/// hunk that cannot be staged.
pub fn stage_hunk_plan(file_path: &str, hunk: &DiffHunk) -> (plan: Result<HunkPatch, RepositoryError>)
    ensures
        !hunk.stageable ==> (plan matches Err(RepositoryError::Other(m)) && m@ == not_stageable_message()),
        hunk.stageable ==> (plan matches Ok(p) && p.patch@ == stage_patch_text(file_path@, *hunk) && p.message@
            == hunk_message("Staged"@, file_path@, hunk.header.old_start, hunk.header.old_lines)),
{
    if !hunk.stageable {
        return Err(RepositoryError::Other(owned("Hunk is not stageable (e.g., binary file or conflict)")));
    }
    Ok(HunkPatch {
        patch: generate_stage_patch(file_path, hunk),
        message: hunk_message_text("Staged", file_path, hunk.header.old_start, hunk.header.old_lines),
    })
}

/// The patch that unstages a hunk and the message for it, or an error for
/// a hunk that cannot be staged.
pub fn unstage_hunk_plan(file_path: &str, hunk: &DiffHunk) -> (plan: Result<HunkPatch, RepositoryError>)
    ensures
        !hunk.stageable ==> (plan matches Err(RepositoryError::Other(m)) && m@ == not_stageable_message()),
        hunk.stageable ==> (plan matches Ok(p) && p.patch@ == unstage_patch_text(file_path@, *hunk) && p.message@
            == hunk_message("Unstaged"@, file_path@, hunk.header.new_start, hunk.header.new_lines)),
{
    if !hunk.stageable {
        return Err(RepositoryError::Other(owned("Hunk is not stageable (e.g., binary file or conflict)")));
    }
    Ok(HunkPatch {
        patch: generate_unstage_patch(file_path, hunk),
        message: hunk_message_text("Unstaged", file_path, hunk.header.new_start, hunk.header.new_lines),
    })
}

/// `"<verb> <path>"`, the result of a whole-file operation.
pub fn file_operation_result(verb: &str, path: &str) -> (result: OperationResult)
    ensures
        result.message@ == verb@ + " "@ + path@,
{
    let mut message = owned(verb);
    push_str(&mut message, " ");
    push_str(&mut message, path);
    OperationResult::new(message)
}

} // verus!
