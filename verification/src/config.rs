use vstd::prelude::*;
use crate::text::{owned, spaces, push_char};
use crate::theme::{Theme, github_dark_spec};
use std::path::PathBuf;

verus! {

/// The text of `line` with every tab replaced by the spaces that reach the
/// next multiple of `tab_width` columns, counting columns of the output.
pub open spec fn expand_tabs_spec(line: Seq<char>, tab_width: nat) -> Seq<char>
    decreases line.len(),
{
    if line.len() == 0 {
        Seq::empty()
    } else {
        let prefix = expand_tabs_spec(line.drop_last(), tab_width);
        if line.last() == '\t' {
            prefix + spaces((tab_width - prefix.len() % tab_width) as nat)
        } else {
            prefix.push(line.last())
        }
    }
}

/// Expanding a longer prefix never gives a shorter text.
pub proof fn lemma_expand_tabs_monotone(line: Seq<char>, tab_width: nat, i: int, j: int)
    requires
        0 <= i <= j <= line.len(),
        tab_width > 0 || !line.contains('\t'),
    ensures
        expand_tabs_spec(line.take(i), tab_width).len() <= expand_tabs_spec(line.take(j), tab_width).len(),
    decreases j - i,
{
    if i < j {
        lemma_expand_tabs_monotone(line, tab_width, i, j - 1);
        assert(line.take(j).drop_last() =~= line.take(j - 1));
    }
}

proof fn lemma_expand_tabs_tab_free(line: Seq<char>, tab_width: nat)
    requires
        tab_width > 0,
    ensures
        !expand_tabs_spec(line, tab_width).contains('\t'),
        !line.contains('\t') ==> expand_tabs_spec(line, tab_width) == line,
    decreases line.len(),
{
    if line.len() > 0 {
        let rest = line.drop_last();
        lemma_expand_tabs_tab_free(rest, tab_width);
        let prefix = expand_tabs_spec(rest, tab_width);
        let out = expand_tabs_spec(line, tab_width);
        assert(!out.contains('\t')) by {
            if out.contains('\t') {
                let k = choose|k: int| 0 <= k < out.len() && #[trigger] out[k] == '\t';
                if k < prefix.len() {
                    assert(out[k] == prefix[k]);
                }
            }
        }
        if !line.contains('\t') {
            assert(!rest.contains('\t')) by {
                if rest.contains('\t') {
                    let k = choose|k: int| 0 <= k < rest.len() && #[trigger] rest[k] == '\t';
                    assert(line[k] == rest[k]);
                }
            }
            assert(line.last() != '\t');
            assert(out =~= line);
        }
    }
}

/// Expanding tabs with a positive width leaves no tab, keeps a text without
/// tabs as it is, and so changes nothing the second time.
pub proof fn lemma_expand_tabs_law(line: Seq<char>, tab_width: nat)
    requires
        tab_width > 0,
    ensures
        !expand_tabs_spec(line, tab_width).contains('\t'),
        !line.contains('\t') ==> expand_tabs_spec(line, tab_width) == line,
        expand_tabs_spec(expand_tabs_spec(line, tab_width), tab_width) == expand_tabs_spec(line, tab_width),
{
    lemma_expand_tabs_tab_free(line, tab_width);
    lemma_expand_tabs_tab_free(expand_tabs_spec(line, tab_width), tab_width);
}

/// Expands tabs in a string to spaces based on the given tab_width.
/// Tracks column position to expand tabs to the next multiple of tab_width.
pub fn expand_tabs_with_width(line: &str, tab_width: usize) -> (result: String)
    requires
        tab_width > 0 || !line@.contains('\t'),
        expand_tabs_spec(line@, tab_width as nat).len() <= usize::MAX,
    ensures
        result@ == expand_tabs_spec(line@, tab_width as nat),
{
    let mut result = String::new();
    let mut col: usize = 0;
    let ghost text = line@;
    for ch in it: line.chars()
        invariant
            it.seq() == text,
            text == line@,
            tab_width > 0 || !text.contains('\t'),
            expand_tabs_spec(text, tab_width as nat).len() <= usize::MAX,
            result@ == expand_tabs_spec(text.take(it.index() as int), tab_width as nat),
            col == result@.len(),
    {
        assert(text.take(it.index() + 1).drop_last() =~= text.take(it.index() as int));
        proof {
            lemma_expand_tabs_monotone(text, tab_width as nat, it.index() + 1, text.len() as int);
            assert(text.take(text.len() as int) =~= text);
        }
        if ch == '\t' {
            let spaces_needed = tab_width - (col % tab_width);
            let mut k: usize = 0;
            while k < spaces_needed
                invariant
                    k <= spaces_needed,
                    result@ == expand_tabs_spec(text.take(it.index() as int), tab_width as nat) + spaces(k as nat),
                decreases spaces_needed - k,
            {
                push_char(&mut result, ' ');
                k += 1;
                assert(result@ =~= expand_tabs_spec(text.take(it.index() as int), tab_width as nat) + spaces(k as nat));
            }
            col += spaces_needed;
        } else {
            push_char(&mut result, ch);
            col += 1;
        }
    }
    assert(text.take(text.len() as int) =~= text);
    result
}

/// ConfigFile represents the structure of the configuration file on disk:
/// the theme's name and the tab width, each defaulting when absent.
#[derive(Debug, Clone)]
pub struct ConfigFile {
    pub theme: String,
    pub tab_width: usize,
}

impl Default for ConfigFile {
    fn default() -> (config: Self)
        ensures
            config.theme@ == "gruvbox-dark"@,
            config.tab_width == 4,
    {
        Self { theme: owned("gruvbox-dark"), tab_width: 4 }
    }
}

#[verifier::external_type_specification]
#[verifier::external_body]
pub struct ExPathBuf(PathBuf);

#[verifier::external_type_specification]
#[verifier::external_body]
pub struct ExTomlError(toml::de::Error);

/// Config is the runtime configuration object that gets passed around.
/// It contains the resolved Theme object and other configuration values.
#[derive(Debug, Clone)]
pub struct Config {
    pub theme: Theme,
    pub tab_width: usize,
}

#[derive(Debug)]
pub enum ConfigError {
    NoConfigDir,
    ReadError(PathBuf, std::io::Error),
    ParseError(PathBuf, toml::de::Error),
    UnknownTheme(String),
}

impl ConfigError {
    /// The message the error is shown with; the path, I/O error and parse
    /// error follow the messages shown for those errors.
    pub fn to_display_string(&self) -> (text: String)
        ensures
            self matches ConfigError::NoConfigDir ==> text@ == "Failed to determine config directory"@,
            self matches ConfigError::UnknownTheme(name) ==> text@ == "Unknown theme: "@ + name@,
            self matches ConfigError::ReadError(..) ==> exists|path: Seq<char>, error: Seq<char>|
                text@ == file_error_message("Failed to read config file"@, path, error),
            self matches ConfigError::ParseError(..) ==> exists|path: Seq<char>, error: Seq<char>|
                text@ == file_error_message("Failed to parse config file"@, path, error),
    {
        match self {
            ConfigError::NoConfigDir => owned("Failed to determine config directory"),
            ConfigError::ReadError(path, error) => {
                let shown = path_display_text(path);
                let reason = crate::repository::io_error_text(error);
                let ghost (p, e) = (shown@, reason@);
                let text = file_error_text("Failed to read config file", shown, reason);
                assert(text@ == file_error_message("Failed to read config file"@, p, e));
                text
            },
            ConfigError::ParseError(path, error) => {
                let shown = path_display_text(path);
                let reason = toml_error_text(error);
                let ghost (p, e) = (shown@, reason@);
                let text = file_error_text("Failed to parse config file", shown, reason);
                assert(text@ == file_error_message("Failed to parse config file"@, p, e));
                text
            },
            ConfigError::UnknownTheme(name) => {
                let mut text = owned("Unknown theme: ");
                crate::text::push_str(&mut text, name.as_str());
                text
            },
        }
    }
}

/// The path as `Path::display` shows it (its text, with any part that is
/// not valid Unicode replaced). Nothing is stated of the text.
#[verifier::external_body]
fn path_display_text(path: &PathBuf) -> String {
    path.display().to_string()
}

/// The text a TOML parse error displays (`toml::de::Error`'s `Display`).
/// Nothing is stated of the text.
#[verifier::external_body]
fn toml_error_text(error: &toml::de::Error) -> String {
    error.to_string()
}

/// "<what> <path>: <error>", the message of a configuration file that
/// could not be read or parsed.
pub open spec fn file_error_message(what: Seq<char>, path: Seq<char>, error: Seq<char>) -> Seq<char> {
    what + " "@ + path + ": "@ + error
}

fn file_error_text(what: &str, path: String, error: String) -> (text: String)
    ensures
        text@ == file_error_message(what@, path@, error@),
{
    let mut text = owned(what);
    crate::text::push_str(&mut text, " ");
    crate::text::push_str(&mut text, path.as_str());
    crate::text::push_str(&mut text, ": ");
    crate::text::push_str(&mut text, error.as_str());
    text
}

impl Config {
    /// The runtime configuration a configuration file asks for: its theme,
    /// which must be known, and its tab width.
    pub fn from_file(config_file: ConfigFile) -> (config: Result<Config, ConfigError>)
        ensures
            config_file.theme@ == "github-dark"@ ==> (config matches Ok(c) && c.theme == github_dark_spec()
                && c.tab_width == config_file.tab_width),
            config_file.theme@ != "github-dark"@ ==> (config matches Err(ConfigError::UnknownTheme(name))
                && name@ == config_file.theme@),
    {
        match Theme::from_name(config_file.theme.as_str()) {
            Some(theme) => Ok(Config { theme, tab_width: config_file.tab_width }),
            None => Err(ConfigError::UnknownTheme(config_file.theme)),
        }
    }

    /// Expands tabs in a string to spaces based on the configured tab_width.
    /// Tracks column position to expand tabs to the next multiple of tab_width.
    pub fn expand_tabs(&self, line: &str) -> (result: String)
        requires
            self.tab_width > 0 || !line@.contains('\t'),
            expand_tabs_spec(line@, self.tab_width as nat).len() <= usize::MAX,
        ensures
            result@ == expand_tabs_spec(line@, self.tab_width as nat),
    {
        expand_tabs_with_width(line, self.tab_width)
    }
}

} // verus!
