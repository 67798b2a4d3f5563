use vstd::prelude::*;
use crate::repository::RepositoryError;
use crate::text::{chars_vec, is_unicode_whitespace, is_whitespace, owned, push_char, trim_spec, trimmed};

verus! {

/// A setting names an editor when it is there and not blank.
pub open spec fn names_editor(setting: Option<String>) -> bool {
    setting matches Some(s) && trim_spec(s@).len() > 0
}

/// The editor by git's precedence: `$GIT_EDITOR`, then `core.editor`, then
/// `$VISUAL`, then `$EDITOR`, each only where it is not blank, and `vi`
/// where none is set.
pub open spec fn chosen_editor(
    git_editor: Option<String>,
    core_editor: Option<String>,
    visual: Option<String>,
    editor: Option<String>,
) -> Seq<char> {
    if names_editor(git_editor) {
        git_editor->Some_0@
    } else if names_editor(core_editor) {
        core_editor->Some_0@
    } else if names_editor(visual) {
        visual->Some_0@
    } else if names_editor(editor) {
        editor->Some_0@
    } else {
        "vi"@
    }
}

fn names_editor_exec(setting: &Option<String>) -> (names: bool)
    ensures
        names == names_editor(*setting),
{
    match setting {
        Some(s) => trimmed(s.as_str()).as_str().unicode_len() > 0,
        None => false,
    }
}

/// Picks the editor command from the settings that can name one, in git's
/// order of precedence.
pub fn choose_editor(
    git_editor: Option<String>,
    core_editor: Option<String>,
    visual: Option<String>,
    editor: Option<String>,
) -> (chosen: String)
    ensures
        chosen@ == chosen_editor(git_editor, core_editor, visual, editor),
{
    if names_editor_exec(&git_editor) {
        return git_editor.unwrap();
    }
    if names_editor_exec(&core_editor) {
        return core_editor.unwrap();
    }
    if names_editor_exec(&visual) {
        return visual.unwrap();
    }
    if names_editor_exec(&editor) {
        return editor.unwrap();
    }
    owned("vi")
}

/// The words of `s` read so far: the finished ones, and the one being read.
pub open spec fn words_so_far(s: Seq<char>) -> (Seq<Seq<char>>, Seq<char>)
    decreases s.len(),
{
    if s.len() == 0 {
        (Seq::empty(), Seq::empty())
    } else {
        let (done, current) = words_so_far(s.drop_last());
        if is_unicode_whitespace(s.last()) {
            if current.len() > 0 {
                (done.push(current), Seq::empty())
            } else {
                (done, Seq::empty())
            }
        } else {
            (done, current.push(s.last()))
        }
    }
}

/// The maximal runs of characters that are not white space, in order
/// (`str::split_whitespace`).
pub open spec fn words(s: Seq<char>) -> Seq<Seq<char>> {
    let (done, current) = words_so_far(s);
    if current.len() > 0 {
        done.push(current)
    } else {
        done
    }
}

fn split_words(text: &str) -> (pieces: Vec<String>)
    ensures
        pieces@.map_values(|p: String| p@) == words(text@),
{
    let chars = chars_vec(text);
    let mut done: Vec<String> = Vec::new();
    let mut current = String::new();
    let mut i: usize = 0;
    while i < chars.len()
        invariant
            chars@ == text@,
            i <= chars@.len(),
            (done@.map_values(|p: String| p@), current@) == words_so_far(text@.take(i as int)),
        decreases chars.len() - i,
    {
        assert(text@.take(i + 1).drop_last() =~= text@.take(i as int));
        assert(text@.take(i + 1).last() == chars@[i as int]);
        let ghost before = done@.map_values(|p: String| p@);
        if is_whitespace(chars[i]) {
            if current.as_str().unicode_len() > 0 {
                let finished = current;
                current = String::new();
                done.push(finished);
                assert(done@.map_values(|p: String| p@) =~= before.push(words_so_far(text@.take(i as int)).1));
            }
        } else {
            push_char(&mut current, chars[i]);
        }
        i += 1;
    }
    assert(text@.take(chars@.len() as int) =~= text@);
    if current.as_str().unicode_len() > 0 {
        let ghost before = done@.map_values(|p: String| p@);
        done.push(current);
        assert(done@.map_values(|p: String| p@) =~= before.push(words_so_far(text@).1));
    }
    done
}

/// The program an editor command runs and the arguments before the file's
/// path (for commands such as `code --wait`); an error for a command with
/// no word.
pub fn editor_command(command: &str) -> (parts: Result<(String, Vec<String>), RepositoryError>)
    ensures
        words(command@).len() == 0 ==> (parts matches Err(RepositoryError::Other(m)) && m@
            == "Editor command is empty"@),
        words(command@).len() > 0 ==> (parts matches Ok((program, args)) && program@ == words(command@)[0]
            && args@.map_values(|a: String| a@) == words(command@).drop_first()),
{
    let mut pieces = split_words(command);
    if pieces.len() == 0 {
        return Err(RepositoryError::Other(owned("Editor command is empty")));
    }
    let ghost all = pieces@.map_values(|p: String| p@);
    let program = pieces.remove(0);
    assert(pieces@.map_values(|p: String| p@) =~= all.drop_first());
    Ok((program, pieces))
}

} // verus!
