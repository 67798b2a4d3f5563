use vstd::prelude::*;
use crate::diff::{
    Diff, DiffContext, DiffHunk, DiffLine, HeaderModel, HunkHeader, HunkModel, LineRange, LineType,
    generate_hunk_header, header_for_ranges,
};
use crate::text::{decimal, is_control, is_control_char, lines_spec, owned, push_decimal, push_str, text_lines};

verus! {

#[verifier::external_type_specification]
#[verifier::external_body]
pub struct ExGitError(git2::Error);

#[verifier::external_type_specification]
#[verifier::external_body]
pub struct ExIoError(std::io::Error);

/// Largest file, in bytes, whose diff is shown.
pub const MAX_FILE_SIZE: u64 = 10485760;

/// Most diff lines shown for one file.
pub const MAX_LINES_PER_DIFF: usize = 10000;

/// How many leading bytes of a file are looked at to tell binary files.
pub const BINARY_SAMPLE_SIZE: usize = 512;

#[derive(Debug)]
pub enum DiffError {
    Git(git2::Error),
    FileNotFound(String),
    BinaryFile(String),
    FileTooLarge(u64, String),
    Io(std::io::Error),
    TerminalCompatibility(String),
}

/// The text a diff error is shown with; of a git or I/O error, the prefix
/// before the error's own message.
pub open spec fn diff_error_text_matches(error: &DiffError, text: Seq<char>) -> bool {
    match error {
        DiffError::Git(_) => "Git error: "@.is_prefix_of(text),
        DiffError::FileNotFound(path) => text == "File not found: "@ + path@,
        DiffError::BinaryFile(path) => text == "Binary file not supported for diff: "@ + path@,
        DiffError::FileTooLarge(size, path) => text == "File too large ("@ + decimal(*size as nat) + " bytes): "@
            + path@,
        DiffError::Io(_) => "I/O error: "@.is_prefix_of(text),
        DiffError::TerminalCompatibility(message) => text == "Terminal compatibility issue: "@ + message@,
    }
}

impl DiffError {
    /// The message the error is shown with.
    pub fn to_display_string(&self) -> (text: String)
        ensures
            diff_error_text_matches(self, text@),
    {
        match self {
            DiffError::Git(e) => {
                let mut text = owned("Git error: ");
                let ghost prefix = text@;
                push_str(&mut text, crate::repository::git_error_text(e).as_str());
                assert(text@.subrange(0, prefix.len() as int) =~= prefix);
                text
            },
            DiffError::FileNotFound(path) => {
                let mut text = owned("File not found: ");
                push_str(&mut text, path.as_str());
                text
            },
            DiffError::BinaryFile(path) => {
                let mut text = owned("Binary file not supported for diff: ");
                push_str(&mut text, path.as_str());
                text
            },
            DiffError::FileTooLarge(size, path) => {
                let mut text = owned("File too large (");
                push_decimal(&mut text, *size);
                push_str(&mut text, " bytes): ");
                push_str(&mut text, path.as_str());
                text
            },
            DiffError::Io(e) => {
                let mut text = owned("I/O error: ");
                let ghost prefix = text@;
                push_str(&mut text, crate::repository::io_error_text(e).as_str());
                assert(text@.subrange(0, prefix.len() as int) =~= prefix);
                text
            },
            DiffError::TerminalCompatibility(message) => {
                let mut text = owned("Terminal compatibility issue: ");
                push_str(&mut text, message.as_str());
                text
            },
        }
    }
}

/// The header of a hunk as the patch printer reports it.
#[derive(Debug, Clone)]
pub struct PatchHunk {
    pub header: String,
    pub old_start: u32,
    pub old_lines: u32,
    pub new_start: u32,
    pub new_lines: u32,
}

/// One report of the patch printer: whether the file is binary, the hunk
/// the line belongs to (if any), and the line with its origin marker.
#[derive(Debug, Clone)]
pub struct PatchEvent {
    pub binary: bool,
    pub hunk: Option<PatchHunk>,
    pub origin: char,
    pub content: String,
    pub old_lineno: Option<u32>,
    pub new_lineno: Option<u32>,
}

/// A character that could upset the terminal: a control character other
/// than tab, line feed and carriage return.
pub open spec fn is_problematic_char(c: char) -> bool {
    is_control_char(c) && c != '\t' && c != '\n' && c != '\r'
}

/// The text holds a character that could upset the terminal.
pub open spec fn has_problematic_chars(text: Seq<char>) -> bool {
    exists|i: int| 0 <= i < text.len() && is_problematic_char(#[trigger] text[i])
}

/// Whether `content` holds a character that could upset the terminal.
pub fn contains_problematic_chars(content: &str) -> (found: bool)
    ensures
        found == has_problematic_chars(content@),
{
    let mut found = false;
    for c in it: content.chars()
        invariant
            it.seq() == content@,
            found == exists|i: int| 0 <= i < it.index() && is_problematic_char(#[trigger] content@[i]),
    {
        if is_control(c) && c != '\t' && c != '\n' && c != '\r' {
            found = true;
        }
    }
    found
}

/// The origin markers of the lines that make up a hunk's body.
pub open spec fn is_content_origin(origin: char) -> bool {
    origin == '+' || origin == '-' || origin == ' ' || origin == '\\'
}

/// The line type of a body line's origin marker.
pub open spec fn line_type_of(origin: char) -> LineType {
    if origin == '+' {
        LineType::Addition
    } else if origin == '-' {
        LineType::Deletion
    } else if origin == '\\' {
        LineType::NoNewlineEOF
    } else {
        LineType::Context
    }
}

/// A line number from the patch printer as an index.
pub open spec fn line_number(n: Option<u32>) -> Option<usize> {
    match n {
        Some(k) => Some(k as usize),
        None => None,
    }
}

/// The diff line a body line of the patch becomes.
pub open spec fn patch_line(e: PatchEvent) -> DiffLine {
    DiffLine {
        content: e.content,
        line_type: line_type_of(e.origin),
        old_line_no: line_number(e.old_lineno),
        new_line_no: line_number(e.new_lineno),
        inline_diff: None,
    }
}

/// A new, empty hunk for a hunk header of the patch.
pub open spec fn patch_hunk_model(h: PatchHunk) -> HunkModel {
    HunkModel {
        header: HeaderModel {
            raw: h.header@,
            old_start: h.old_start,
            old_lines: h.old_lines,
            new_start: h.new_start,
            new_lines: h.new_lines,
        },
        lines: Seq::empty(),
        old_range: LineRange { start: h.old_start, count: h.old_lines },
        new_range: LineRange { start: h.new_start, count: h.new_lines },
        stageable: true,
        context_lines: 3,
    }
}

/// What the diff assembled so far holds.
pub struct AssemblerModel {
    pub hunks: Seq<HunkModel>,
    pub binary: bool,
    pub line_count: nat,
}

/// `hunks` with `line` appended to its last hunk, if it has one.
pub open spec fn append_to_last(hunks: Seq<HunkModel>, line: DiffLine) -> Seq<HunkModel> {
    if hunks.len() == 0 {
        hunks
    } else {
        hunks.update(
            hunks.len() - 1,
            HunkModel { lines: hunks.last().lines.push(line), ..hunks.last() },
        )
    }
}

/// One report taken in: the new state, and whether to go on. A binary file
/// stops at once; a hunk header not seen last opens a new hunk; a body line
/// is counted and appended to the last hunk, and stops the assembly when it
/// is one line too many or holds a character that could upset the terminal.
pub open spec fn assemble_step(m: AssemblerModel, e: PatchEvent) -> (AssemblerModel, bool) {
    if e.binary {
        (AssemblerModel { binary: true, ..m }, false)
    } else {
        let hunks = match e.hunk {
            Some(h) => if m.hunks.len() == 0 || m.hunks.last().header.raw != h.header@ {
                m.hunks.push(patch_hunk_model(h))
            } else {
                m.hunks
            },
            None => m.hunks,
        };
        if is_content_origin(e.origin) {
            let count = m.line_count + 1;
            if count > MAX_LINES_PER_DIFF || has_problematic_chars(e.content@) {
                (AssemblerModel { hunks, line_count: count, ..m }, false)
            } else {
                (AssemblerModel { hunks: append_to_last(hunks, patch_line(e)), line_count: count, ..m }, true)
            }
        } else {
            (AssemblerModel { hunks, ..m }, true)
        }
    }
}

/// A body line of the patch (origin `+`, `-`, space or backslash), taken in
/// within the line limit and free of characters that could upset the
/// terminal, is appended to the last hunk: it keeps the event's text, has
/// the line type its origin names, and carries the event's old line number
/// and the event's new line number, each as reported. A hunk header not
/// seen last opens a new hunk with that header's ranges, which the line is
/// the first of; else the line joins the last hunk. The hunks before the
/// last are untouched and the assembly goes on.
pub proof fn lemma_accepted_line_keeps_the_event(m: AssemblerModel, e: PatchEvent)
    requires
        !e.binary,
        e.origin == '+' || e.origin == '-' || e.origin == ' ' || e.origin == '\\',
        m.line_count + 1 <= MAX_LINES_PER_DIFF,
        !has_problematic_chars(e.content@),
        m.hunks.len() > 0 || e.hunk is Some,
    ensures
        ({
            let (after, go_on) = assemble_step(m, e);
            let line = after.hunks.last().lines.last();
            let opens = e.hunk matches Some(h) && (m.hunks.len() == 0 || m.hunks.last().header.raw != h.header@);
            &&& opens ==> after.hunks.len() == m.hunks.len() + 1 && after.hunks.last().lines.len() == 1
                && after.hunks.last().header.raw == e.hunk->0.header@
                && after.hunks.last().old_range == (LineRange { start: e.hunk->0.old_start, count: e.hunk->0.old_lines })
                && after.hunks.last().new_range == (LineRange { start: e.hunk->0.new_start, count: e.hunk->0.new_lines })
            &&& !opens ==> after.hunks.len() == m.hunks.len() && after.hunks.last().lines == m.hunks.last().lines.push(line)
            &&& go_on
            &&& after.line_count == m.line_count + 1
            &&& after.hunks.len() >= m.hunks.len()
            &&& after.hunks.len() >= 1
            &&& after.hunks.last().lines.len() >= 1
            &&& line.content == e.content
            &&& line.old_line_no == (match e.old_lineno {
                Some(k) => Some(k as usize),
                None => None,
            })
            &&& line.new_line_no == (match e.new_lineno {
                Some(k) => Some(k as usize),
                None => None,
            })
            &&& (line.line_type == LineType::Addition) == (e.origin == '+')
            &&& (line.line_type == LineType::Deletion) == (e.origin == '-')
            &&& (line.line_type == LineType::NoNewlineEOF) == (e.origin == '\\')
            &&& line.inline_diff is None
            &&& forall|i: int| 0 <= i < after.hunks.len() - 1 ==> #[trigger] after.hunks[i] == m.hunks[i]
        }),
{
    let hunks = match e.hunk {
        Some(h) => if m.hunks.len() == 0 || m.hunks.last().header.raw != h.header@ {
            m.hunks.push(patch_hunk_model(h))
        } else {
            m.hunks
        },
        None => m.hunks,
    };
    let (after, go_on) = assemble_step(m, e);
    assert(after.hunks == append_to_last(hunks, patch_line(e)));
    assert forall|i: int| 0 <= i < after.hunks.len() - 1 implies #[trigger] after.hunks[i] == m.hunks[i] by {
        assert(after.hunks[i] == hunks[i]);
    }
}

/// Builds a file's diff from the reports of the patch printer, one at a time.
pub struct DiffAssembler {
    hunks: Vec<DiffHunk>,
    binary: bool,
    line_count: usize,
}

impl View for DiffAssembler {
    type V = AssemblerModel;

    closed spec fn view(&self) -> AssemblerModel {
        AssemblerModel {
            hunks: self.hunks@.map_values(|h: DiffHunk| h@),
            binary: self.binary,
            line_count: self.line_count as nat,
        }
    }
}

/// The text of the error for a diff cut short by the line limit.
pub open spec fn truncated_message(file_path: Seq<char>) -> Seq<char> {
    "Diff truncated - "@ + file_path + " has too many changes (>"@ + decimal(MAX_LINES_PER_DIFF as nat)
        + " lines)"@
}

impl DiffAssembler {
    pub fn new() -> (assembler: Self)
        ensures
            assembler@.hunks.len() == 0,
            !assembler@.binary,
            assembler@.line_count == 0,
    {
        DiffAssembler { hunks: Vec::new(), binary: false, line_count: 0 }
    }

    /// Takes in one report; false once the assembly should stop.
    pub fn accept(&mut self, event: PatchEvent) -> (go_on: bool)
        requires
            old(self)@.line_count <= MAX_LINES_PER_DIFF,
        ensures
            (final(self)@, go_on) == assemble_step(old(self)@, event),
    {
        let ghost before = self@;
        let ghost e = event;
        if event.binary {
            self.binary = true;
            return false;
        }
        let PatchEvent { binary, hunk, origin, content, old_lineno, new_lineno } = event;
        match hunk {
            Some(h) => {
                let n = self.hunks.len();
                let is_new = n == 0 || self.hunks[n - 1].header.raw != h.header;
                if is_new {
                    let PatchHunk { header, old_start, old_lines, new_start, new_lines } = h;
                    let new_hunk = DiffHunk {
                        header: HunkHeader { raw: header, old_start, old_lines, new_start, new_lines },
                        lines: Vec::new(),
                        old_range: LineRange { start: old_start, count: old_lines },
                        new_range: LineRange { start: new_start, count: new_lines },
                        stageable: true,
                        context_lines: 3,
                    };
                    self.hunks.push(new_hunk);
                    proof {
                        assert(self.hunks@.map_values(|h: DiffHunk| h@) =~= before.hunks.push(
                            patch_hunk_model(e.hunk->0),
                        ));
                    }
                }
            },
            None => {},
        }
        let ghost mid = self.hunks@.map_values(|h: DiffHunk| h@);
        if origin == '+' || origin == '-' || origin == ' ' || origin == '\\' {
            self.line_count = self.line_count + 1;
            if self.line_count > MAX_LINES_PER_DIFF {
                return false;
            }
            if contains_problematic_chars(content.as_str()) {
                return false;
            }
            let line_type = if origin == '+' {
                LineType::Addition
            } else if origin == '-' {
                LineType::Deletion
            } else if origin == '\\' {
                LineType::NoNewlineEOF
            } else {
                LineType::Context
            };
            let old_line_no = match old_lineno {
                Some(k) => Some(k as usize),
                None => None,
            };
            let new_line_no = match new_lineno {
                Some(k) => Some(k as usize),
                None => None,
            };
            let line = DiffLine { content, line_type, old_line_no, new_line_no, inline_diff: None };
            let n = self.hunks.len();
            if n > 0 {
                let mut last = self.hunks.pop().unwrap();
                last.lines.push(line);
                self.hunks.push(last);
                proof {
                    assert(self.hunks@.map_values(|h: DiffHunk| h@) =~= append_to_last(mid, patch_line(e)));
                }
            }
        }
        true
    }

    /// The assembled diff, once the printer is done: an error for a binary
    /// file or for one cut short by the line limit.
    pub fn finish(self, file_path: &str, context: DiffContext) -> (result: Result<Diff, DiffError>)
        ensures
            self@.binary ==> (result matches Err(DiffError::BinaryFile(p)) && p@ == file_path@),
            !self@.binary && self@.line_count > MAX_LINES_PER_DIFF ==> (result matches Err(
                DiffError::TerminalCompatibility(message),
            ) && message@ == truncated_message(file_path@)),
            !self@.binary && self@.line_count <= MAX_LINES_PER_DIFF ==> (result matches Ok(diff) && diff@
                == crate::diff::DiffModel {
                file_path: file_path@,
                context,
                hunks: self@.hunks,
                binary: false,
            }),
    {
        if self.binary {
            return Err(DiffError::BinaryFile(owned(file_path)));
        }
        if self.line_count > MAX_LINES_PER_DIFF {
            let mut message = owned("Diff truncated - ");
            push_str(&mut message, file_path);
            push_str(&mut message, " has too many changes (>");
            push_decimal(&mut message, MAX_LINES_PER_DIFF as u64);
            push_str(&mut message, " lines)");
            return Err(DiffError::TerminalCompatibility(message));
        }
        Ok(Diff { file_path: owned(file_path), context, hunks: self.hunks, binary: false })
    }
}

/// A working-tree diff with no hunks may be a file git does not track yet.
pub fn wants_untracked_fallback(diff: &Diff) -> (wanted: bool)
    ensures
        wanted == (diff.hunks@.len() == 0 && diff.context == DiffContext::WorkingTreeToIndex),
{
    diff.hunks.len() == 0 && diff.context == DiffContext::WorkingTreeToIndex
}

/// Where the text of a file without a regular diff comes from.
#[derive(Debug, Clone, Copy, PartialEq, Eq, Structural)]
pub enum SyntheticSource {
    /// Untracked: the file in the working tree, shown as added.
    WorkingTree,
    /// Deleted from the working tree: the file in the index, shown as removed.
    Index,
}

/// Which synthetic diff a file gets, from where it exists: the working
/// tree alone, the index alone, or an error when it is in neither or both.
pub fn synthetic_diff_source(file_path: &str, in_working_tree: bool, in_index: bool) -> (source: Result<
    SyntheticSource,
    DiffError,
>)
    ensures
        in_working_tree && !in_index ==> source == Ok::<SyntheticSource, DiffError>(SyntheticSource::WorkingTree),
        !in_working_tree && in_index ==> source == Ok::<SyntheticSource, DiffError>(SyntheticSource::Index),
        !in_working_tree && !in_index ==> (source matches Err(DiffError::FileNotFound(p)) && p@ == file_path@),
        in_working_tree && in_index ==> (source matches Err(DiffError::FileNotFound(p)) && p@ == "File "@
            + file_path@ + " exists in both working tree and index"@),
{
    if in_working_tree && !in_index {
        Ok(SyntheticSource::WorkingTree)
    } else if !in_working_tree && in_index {
        Ok(SyntheticSource::Index)
    } else if !in_working_tree {
        Err(DiffError::FileNotFound(owned(file_path)))
    } else {
        let mut message = owned("File ");
        push_str(&mut message, file_path);
        push_str(&mut message, " exists in both working tree and index");
        Err(DiffError::FileNotFound(message))
    }
}

/// The message for a file that holds characters that could upset the terminal.
pub open spec fn problematic_message() -> Seq<char> {
    "File contains problematic characters that may cause terminal issues"@
}

/// The message for a file with too many lines to show.
pub open spec fn too_many_lines_message(count: nat) -> Seq<char> {
    "File too large ("@ + decimal(count) + " lines) - cannot display diff"@
}

/// The lines of a whole file shown as added (`added`) or removed lines,
/// numbered from one.
pub open spec fn whole_file_lines_ok(lines: Seq<DiffLine>, text: Seq<Seq<char>>, added: bool) -> bool {
    &&& lines.len() == text.len()
    &&& forall|i: int|
        0 <= i < lines.len() ==> {
            &&& (#[trigger] lines[i]).content@ == text[i]
            &&& lines[i].line_type == if added { LineType::Addition } else { LineType::Deletion }
            &&& lines[i].old_line_no == if added { None } else { Some((i + 1) as usize) }
            &&& lines[i].new_line_no == if added { Some((i + 1) as usize) } else { None }
            &&& lines[i].inline_diff is None
        }
}

/// The diff of a file shown whole, as one hunk of added (`added`) or
/// removed lines.
pub open spec fn whole_file_diff_ok(
    diff: Diff,
    file_path: Seq<char>,
    context: DiffContext,
    text: Seq<Seq<char>>,
    added: bool,
) -> bool {
    let n = text.len() as u32;
    let empty = LineRange { start: 0, count: 0 };
    let full = LineRange { start: 1, count: n };
    &&& diff.file_path@ == file_path
    &&& diff.context == context
    &&& !diff.binary
    &&& diff.hunks@.len() == 1
    &&& diff.hunks@[0].header@ == if added {
        header_for_ranges(empty, full)
    } else {
        header_for_ranges(full, empty)
    }
    &&& diff.hunks@[0].old_range == if added { empty } else { full }
    &&& diff.hunks@[0].new_range == if added { full } else { empty }
    &&& diff.hunks@[0].stageable
    &&& diff.hunks@[0].context_lines == 3
    &&& whole_file_lines_ok(diff.hunks@[0].lines@, text, added)
}

fn whole_file_diff(content: &str, file_path: &str, context: DiffContext, added: bool) -> (result: Result<
    Diff,
    DiffError,
>)
    ensures
        has_problematic_chars(content@) ==> (result matches Err(DiffError::TerminalCompatibility(m)) && m@
            == problematic_message()),
        !has_problematic_chars(content@) && lines_spec(content@).len() > MAX_LINES_PER_DIFF ==> (result matches Err(
            DiffError::TerminalCompatibility(m),
        ) && m@ == too_many_lines_message(lines_spec(content@).len())),
        !has_problematic_chars(content@) && lines_spec(content@).len() <= MAX_LINES_PER_DIFF ==> (result matches Ok(
            diff,
        ) && whole_file_diff_ok(diff, file_path@, context, lines_spec(content@), added)),
{
    if contains_problematic_chars(content) {
        return Err(DiffError::TerminalCompatibility(owned(
            "File contains problematic characters that may cause terminal issues",
        )));
    }
    let lines = text_lines(content);
    let ghost text = lines_spec(content@);
    assert(lines@.len() == text.len());
    let line_count = lines.len();
    if line_count > MAX_LINES_PER_DIFF {
        let mut message = owned("File too large (");
        push_decimal(&mut message, line_count as u64);
        push_str(&mut message, " lines) - cannot display diff");
        return Err(DiffError::TerminalCompatibility(message));
    }
    let empty = LineRange { start: 0, count: 0 };
    let full = LineRange { start: 1, count: line_count as u32 };
    let header = if added { generate_hunk_header(&empty, &full) } else { generate_hunk_header(&full, &empty) };
    let mut diff_lines: Vec<DiffLine> = Vec::new();
    let mut i: usize = 0;
    for line in it: lines
        invariant
            it.seq().map_values(|l: String| l@) == text,
            line_count == text.len(),
            line_count <= MAX_LINES_PER_DIFF,
            i == it.index(),
            whole_file_lines_ok(diff_lines@, text.take(i as int), added),
    {
        assert(it.seq()[i as int]@ == text[i as int]);
        let number = Some(i + 1);
        diff_lines.push(DiffLine {
            content: line,
            line_type: if added { LineType::Addition } else { LineType::Deletion },
            old_line_no: if added { None } else { number },
            new_line_no: if added { number } else { None },
            inline_diff: None,
        });
        i += 1;
        assert(whole_file_lines_ok(diff_lines@, text.take(i as int), added));
    }
    assert(text.take(line_count as int) =~= text);
    let hunk = DiffHunk {
        header,
        lines: diff_lines,
        old_range: if added { empty } else { full },
        new_range: if added { full } else { empty },
        stageable: true,
        context_lines: 3,
    };
    Ok(Diff { file_path: owned(file_path), context, hunks: vec![hunk], binary: false })
}

/// The diff of an untracked file: its whole text as added lines.
pub fn untracked_file_diff(content: &str, file_path: &str, context: DiffContext) -> (result: Result<Diff, DiffError>)
    ensures
        has_problematic_chars(content@) ==> (result matches Err(DiffError::TerminalCompatibility(m)) && m@
            == problematic_message()),
        !has_problematic_chars(content@) && lines_spec(content@).len() > MAX_LINES_PER_DIFF ==> (result matches Err(
            DiffError::TerminalCompatibility(m),
        ) && m@ == too_many_lines_message(lines_spec(content@).len())),
        !has_problematic_chars(content@) && lines_spec(content@).len() <= MAX_LINES_PER_DIFF ==> (result matches Ok(
            diff,
        ) && whole_file_diff_ok(diff, file_path@, context, lines_spec(content@), true)),
{
    whole_file_diff(content, file_path, context, true)
}

/// The diff of a file deleted from the working tree: its whole text, as the
/// index holds it, as removed lines.
pub fn deleted_file_diff(content: &str, file_path: &str, context: DiffContext) -> (result: Result<Diff, DiffError>)
    ensures
        has_problematic_chars(content@) ==> (result matches Err(DiffError::TerminalCompatibility(m)) && m@
            == problematic_message()),
        !has_problematic_chars(content@) && lines_spec(content@).len() > MAX_LINES_PER_DIFF ==> (result matches Err(
            DiffError::TerminalCompatibility(m),
        ) && m@ == too_many_lines_message(lines_spec(content@).len())),
        !has_problematic_chars(content@) && lines_spec(content@).len() <= MAX_LINES_PER_DIFF ==> (result matches Ok(
            diff,
        ) && whole_file_diff_ok(diff, file_path@, context, lines_spec(content@), false)),
{
    whole_file_diff(content, file_path, context, false)
}

/// A file too large to diff.
pub fn check_file_size(file_path: &str, file_size: u64) -> (result: Result<(), DiffError>)
    ensures
        file_size > MAX_FILE_SIZE ==> (result matches Err(DiffError::FileTooLarge(size, p)) && size == file_size
            && p@ == file_path@),
        file_size <= MAX_FILE_SIZE ==> result is Ok,
{
    if file_size > MAX_FILE_SIZE {
        Err(DiffError::FileTooLarge(file_size, owned(file_path)))
    } else {
        Ok(())
    }
}

/// The number of bytes of `bytes` that are zero.
pub open spec fn null_count(bytes: Seq<u8>) -> nat
    decreases bytes.len(),
{
    if bytes.len() == 0 {
        0
    } else {
        null_count(bytes.drop_last()) + if bytes.last() == 0 { 1nat } else { 0nat }
    }
}

/// A byte outside printable ASCII text: above 127, or a control byte other
/// than tab, line feed and carriage return.
pub open spec fn is_unusual_byte(b: u8) -> bool {
    b > 127 || (b < 32 && b != 9 && b != 10 && b != 13)
}

/// The number of unusual bytes of `bytes`.
pub open spec fn unusual_count(bytes: Seq<u8>) -> nat
    decreases bytes.len(),
{
    if bytes.len() == 0 {
        0
    } else {
        unusual_count(bytes.drop_last()) + if is_unusual_byte(bytes.last()) { 1nat } else { 0nat }
    }
}

/// The first bytes of a file look binary: more than one percent of them are
/// zero, or more than thirty percent are unusual.
pub open spec fn looks_binary_spec(sample: Seq<u8>) -> bool {
    null_count(sample) > sample.len() / 100 || unusual_count(sample) > sample.len() * 30 / 100
}

/// Whether the first bytes of a file look binary.
pub fn looks_binary(sample: &[u8]) -> (binary: bool)
    requires
        sample@.len() <= BINARY_SAMPLE_SIZE,
    ensures
        binary == looks_binary_spec(sample@),
{
    let n = sample.len();
    let mut nulls: usize = 0;
    let mut unusual: usize = 0;
    let mut i: usize = 0;
    while i < n
        invariant
            n == sample@.len(),
            n <= BINARY_SAMPLE_SIZE,
            i <= n,
            nulls == null_count(sample@.take(i as int)),
            unusual == unusual_count(sample@.take(i as int)),
            nulls <= i,
            unusual <= i,
        decreases n - i,
    {
        let b = sample[i];
        assert(sample@.take(i + 1).drop_last() =~= sample@.take(i as int));
        if b == 0 {
            nulls += 1;
        }
        if b > 127 || (b < 32 && b != 9 && b != 10 && b != 13) {
            unusual += 1;
        }
        i += 1;
    }
    assert(sample@.take(n as int) =~= sample@);
    nulls > n / 100 || unusual > n * 30 / 100
}

} // verus!
