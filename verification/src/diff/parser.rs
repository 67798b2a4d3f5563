use vstd::prelude::*;
use crate::diff::{Diff, DiffContext, DiffHunk, DiffLine, HunkHeader, HunkModel, LineRange, LineType};
use crate::diff::generator::{PatchEvent, PatchHunk, append_to_last, patch_hunk_model, line_number};
use crate::text::owned;

verus! {

#[derive(Debug)]
pub enum ParseError {
    Git(git2::Error),
    BinaryFile(String),
    InvalidFormat,
}

pub struct DiffParser;

/// The line type of an origin marker; unknown markers read as context.
pub open spec fn parsed_line_type(origin: char) -> LineType {
    if origin == '+' {
        LineType::Addition
    } else if origin == '-' {
        LineType::Deletion
    } else if origin == '\\' {
        LineType::NoNewlineEOF
    } else {
        LineType::Context
    }
}

/// The diff line a report's line becomes.
pub open spec fn parsed_line(e: PatchEvent) -> DiffLine {
    DiffLine {
        content: e.content,
        line_type: parsed_line_type(e.origin),
        old_line_no: line_number(e.old_lineno),
        new_line_no: line_number(e.new_lineno),
        inline_diff: None,
    }
}

/// The state of parsing after the reports taken in so far: the hunks, the
/// binary flag, and the index of the hunk opened last.
pub struct ParseModel {
    pub hunks: Seq<HunkModel>,
    pub binary: bool,
    pub current: Option<int>,
}

/// One report taken in: a binary report only sets the flag; a report with a
/// hunk opens a new hunk unless the hunk opened last is at the position the
/// next one would take; a line with an origin marker is appended to the last hunk.
pub open spec fn parse_step(m: ParseModel, e: PatchEvent) -> ParseModel {
    if e.binary {
        ParseModel { binary: true, ..m }
    } else {
        let opened = match e.hunk {
            Some(h) => if m.current != Some(m.hunks.len() as int) {
                ParseModel { hunks: m.hunks.push(patch_hunk_model(h)), current: Some(m.hunks.len() as int), ..m }
            } else {
                m
            },
            None => m,
        };
        if e.origin != '\0' {
            ParseModel { hunks: append_to_last(opened.hunks, parsed_line(e)), ..opened }
        } else {
            opened
        }
    }
}

/// The state after the first `k` reports.
pub open spec fn parse_prefix(events: Seq<PatchEvent>, k: int) -> ParseModel
    decreases k,
{
    if k <= 0 {
        ParseModel { hunks: Seq::empty(), binary: false, current: None }
    } else {
        parse_step(parse_prefix(events, k - 1), events[k - 1])
    }
}

impl DiffParser {
    pub fn new() -> Self {
        Self
    }

    /// Builds a file's diff from the reports of the patch printer; an
    /// error for a binary file.
    pub fn parse_events(&self, events: &Vec<PatchEvent>, file_path: &str, context: DiffContext) -> (result: Result<
        Diff,
        ParseError,
    >)
        ensures
            ({
                let m = parse_prefix(events@, events@.len() as int);
                &&& m.binary ==> (result matches Err(ParseError::BinaryFile(p)) && p@ == file_path@)
                &&& !m.binary ==> (result matches Ok(diff) && diff@ == crate::diff::DiffModel {
                    file_path: file_path@,
                    context,
                    hunks: m.hunks,
                    binary: false,
                })
            }),
    {
        let mut hunks: Vec<DiffHunk> = Vec::new();
        let mut binary = false;
        let mut current_hunk_index: Option<usize> = None;
        let n = events.len();
        let mut k: usize = 0;
        while k < n
            invariant
                n == events@.len(),
                k <= n,
                ({
                    let m = parse_prefix(events@, k as int);
                    &&& hunks@.map_values(|h: DiffHunk| h@) == m.hunks
                    &&& binary == m.binary
                    &&& match current_hunk_index {
                        Some(c) => m.current == Some(c as int),
                        None => m.current is None,
                    }
                }),
            decreases n - k,
        {
            let event = &events[k];
            let ghost before = hunks@.map_values(|h: DiffHunk| h@);
            if event.binary {
                binary = true;
            } else {
                match &event.hunk {
                    Some(h) => {
                        let len = hunks.len();
                        let differs = match current_hunk_index {
                            Some(c) => c != len,
                            None => true,
                        };
                        if differs {
                            hunks.push(Self::parse_hunk(h));
                            current_hunk_index = Some(hunks.len() - 1);
                            proof {
                                assert(hunks@.map_values(|h: DiffHunk| h@) =~= before.push(patch_hunk_model(*h)));
                            }
                        }
                    },
                    None => {},
                }
                let ghost mid = hunks@.map_values(|h: DiffHunk| h@);
                if event.origin != '\0' {
                    let line = Self::parse_line(event);
                    let count = hunks.len();
                    if count > 0 {
                        let mut last = hunks.pop().unwrap();
                        last.lines.push(line);
                        hunks.push(last);
                        proof {
                            assert(hunks@.map_values(|h: DiffHunk| h@) =~= append_to_last(mid, parsed_line(*event)));
                        }
                    }
                }
            }
            k += 1;
        }
        if binary {
            return Err(ParseError::BinaryFile(owned(file_path)));
        }
        Ok(Diff { file_path: owned(file_path), context, hunks, binary })
    }

    fn parse_hunk(hunk: &PatchHunk) -> (parsed: DiffHunk)
        ensures
            parsed@ == patch_hunk_model(*hunk),
    {
        DiffHunk {
            header: HunkHeader {
                raw: hunk.header.clone(),
                old_start: hunk.old_start,
                old_lines: hunk.old_lines,
                new_start: hunk.new_start,
                new_lines: hunk.new_lines,
            },
            lines: Vec::new(),
            old_range: LineRange { start: hunk.old_start, count: hunk.old_lines },
            new_range: LineRange { start: hunk.new_start, count: hunk.new_lines },
            stageable: true,
            context_lines: 3,
        }
    }

    fn parse_line(event: &PatchEvent) -> (line: DiffLine)
        ensures
            line == parsed_line(*event),
    {
        let line_type = match event.origin {
            '+' => LineType::Addition,
            '-' => LineType::Deletion,
            '\\' => LineType::NoNewlineEOF,
            _ => LineType::Context,
        };
        DiffLine {
            content: event.content.clone(),
            line_type,
            old_line_no: match event.old_lineno {
                Some(k) => Some(k as usize),
                None => None,
            },
            new_line_no: match event.new_lineno {
                Some(k) => Some(k as usize),
                None => None,
            },
            inline_diff: None,
        }
    }
}

impl Default for DiffParser {
    fn default() -> Self {
        Self::new()
    }
}

} // verus!
