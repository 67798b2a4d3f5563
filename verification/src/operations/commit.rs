use vstd::prelude::*;
use crate::ui::input::CommitMode;
use crate::repository::RepositoryError;
use crate::text::{chars_vec, is_whitespace, lines_spec, owned, push_char, push_str, text_lines, trim_spec, trim_start_spec, trimmed};

verus! {

/// Flags that control how a commit is executed
#[derive(Debug, Clone, Copy, PartialEq, Eq, Structural)]
pub struct CommitFlags {
    /// Skip pre-commit and commit-msg hooks (`--no-verify`)
    pub skip_hooks: bool,
    /// Amend the previous commit
    pub amend: bool,
    /// Skip editing the commit message (use as-is)
    pub no_edit: bool,
}

impl Default for CommitFlags {
    fn default() -> (flags: Self)
        ensures
            !flags.skip_hooks && !flags.amend && !flags.no_edit,
    {
        CommitFlags { skip_hooks: false, amend: false, no_edit: false }
    }
}

/// Prepared commit information ready for execution
#[derive(Debug, Clone)]
pub struct CommitPreparation {
    /// The commit mode being used
    pub mode: CommitMode,
    /// Template message for the editor (or final message if no_edit)
    pub message_template: String,
    /// Flags controlling commit behavior
    pub flags: CommitFlags,
}


/// The editor template of a normal commit when git has none configured.
pub open spec fn default_template_text() -> Seq<char> {
    "\n# Please enter the commit message for your changes. Lines starting\n# with '#' will be ignored, and an empty message aborts the commit.\n#\n"@
}

/// The editor template of a normal commit when git has none configured.
pub fn default_commit_template() -> (template: String)
    ensures
        template@ == default_template_text(),
{
    owned(
        "\n# Please enter the commit message for your changes. Lines starting\n# with '#' will be ignored, and an empty message aborts the commit.\n#\n",
    )
}

/// The modes that start from the message of the HEAD commit: all that
/// rewrite HEAD.
pub open spec fn starts_from_head_message(mode: CommitMode) -> bool {
    mode == CommitMode::Amend || mode == CommitMode::Extend || mode == CommitMode::Reword
}

/// Whether a mode starts from HEAD's message (rather than the template).
pub fn uses_head_message(mode: CommitMode) -> (head: bool)
    ensures
        head == starts_from_head_message(mode),
{
    match mode {
        CommitMode::Amend | CommitMode::Extend | CommitMode::Reword => true,
        CommitMode::Normal | CommitMode::NoVerify => false,
    }
}

/// The flags a mode commits with: amending for the modes that rewrite HEAD,
/// no editing for extend, no hooks for the no-verify mode.
pub open spec fn mode_flags(mode: CommitMode) -> CommitFlags {
    CommitFlags {
        skip_hooks: mode == CommitMode::NoVerify,
        amend: starts_from_head_message(mode),
        no_edit: mode == CommitMode::Extend,
    }
}

/// The preparation of a commit in `mode`, starting from `message_template`
/// (the configured or default template for a new commit, HEAD's message for
/// the modes that rewrite HEAD).
pub fn prepare_commit_with(mode: CommitMode, message_template: String) -> (preparation: CommitPreparation)
    ensures
        preparation.mode == mode,
        preparation.message_template == message_template,
        preparation.flags == mode_flags(mode),
{
    let flags = CommitFlags {
        skip_hooks: match mode {
            CommitMode::NoVerify => true,
            _ => false,
        },
        amend: uses_head_message(mode),
        no_edit: match mode {
            CommitMode::Extend => true,
            _ => false,
        },
    };
    CommitPreparation { mode, message_template, flags }
}

/// A line of the edited message that is a comment: `#` after any leading
/// white space.
pub open spec fn is_comment_line(line: Seq<char>) -> bool {
    trim_start_spec(line).len() > 0 && trim_start_spec(line)[0] == '#'
}

/// The lines that are not comments, in order.
pub open spec fn uncommented(lines: Seq<Seq<char>>) -> Seq<Seq<char>>
    decreases lines.len(),
{
    if lines.len() == 0 {
        Seq::empty()
    } else {
        uncommented(lines.drop_last()) + if is_comment_line(lines.last()) {
            Seq::empty()
        } else {
            seq![lines.last()]
        }
    }
}

/// Lines joined with line feeds.
pub open spec fn join_lines(lines: Seq<Seq<char>>) -> Seq<char>
    decreases lines.len(),
{
    if lines.len() == 0 {
        Seq::empty()
    } else if lines.len() == 1 {
        lines[0]
    } else {
        join_lines(lines.drop_last()) + "\n"@ + lines.last()
    }
}

/// The commit message an edited file holds: its lines without the comment
/// lines, joined again and trimmed.
pub open spec fn commit_message_of(content: Seq<char>) -> Seq<char> {
    trim_spec(join_lines(uncommented(lines_spec(content))))
}

fn is_comment(line: &str) -> (comment: bool)
    ensures
        comment == is_comment_line(line@),
{
    let chars = chars_vec(line);
    let mut i: usize = 0;
    assert(line@.subrange(0, line@.len() as int) =~= line@);
    while i < chars.len() && is_whitespace(chars[i])
        invariant
            chars@ == line@,
            i <= chars@.len(),
            trim_start_spec(line@) == trim_start_spec(line@.subrange(i as int, line@.len() as int)),
        decreases chars.len() - i,
    {
        proof {
            let rest = line@.subrange(i as int, line@.len() as int);
            assert(rest.drop_first() =~= line@.subrange(i + 1, line@.len() as int));
        }
        i += 1;
    }
    proof {
        assert(line@.subrange(0, line@.len() as int) =~= line@);
        let rest = line@.subrange(i as int, line@.len() as int);
        if i < chars@.len() {
            assert(rest[0] == chars@[i as int]);
        }
    }
    i < chars.len() && chars[i] == '#'
}

/// The commit message an edited message file holds, or an error when
/// nothing but comments and white space is left.
pub fn read_message_from_text(content: &str) -> (message: Result<String, RepositoryError>)
    ensures
        commit_message_of(content@).len() == 0 ==> (message matches Err(RepositoryError::Other(m)) && m@
            == "Aborting commit due to empty commit message"@),
        commit_message_of(content@).len() > 0 ==> (message matches Ok(m) && m@ == commit_message_of(content@)),
{
    let lines = text_lines(content);
    let ghost all = lines@.map_values(|l: String| l@);
    let mut joined = String::new();
    let mut any_kept = false;
    let mut i: usize = 0;
    while i < lines.len()
        invariant
            all == lines@.map_values(|l: String| l@),
            i <= lines@.len(),
            any_kept == (uncommented(all.take(i as int)).len() > 0),
            joined@ == join_lines(uncommented(all.take(i as int))),
        decreases lines.len() - i,
    {
        let line = &lines[i];
        assert(all.take(i + 1).drop_last() =~= all.take(i as int));
        assert(all.take(i + 1).last() == line@);
        let ghost before = uncommented(all.take(i as int));
        if !is_comment(line.as_str()) {
            if any_kept {
                push_char(&mut joined, '\n');
            }
            push_str(&mut joined, line.as_str());
            any_kept = true;
            proof {
                reveal_strlit("\n");
                let after = uncommented(all.take(i + 1));
                assert(after =~= before.push(line@));
                assert(after.drop_last() =~= before);
                assert(joined@ =~= join_lines(after));
            }
        } else {
            assert(uncommented(all.take(i + 1)) =~= before);
        }
        i += 1;
    }
    assert(all.take(lines@.len() as int) =~= all);
    let message = trimmed(joined.as_str());
    if message.as_str().unicode_len() == 0 {
        return Err(RepositoryError::Other(owned("Aborting commit due to empty commit message")));
    }
    Ok(message)
}

} // verus!
