use vstd::prelude::*;
use regex::Regex;
use crate::config::{expand_tabs_spec, expand_tabs_with_width};
use crate::diff::{Diff, DiffHunk, DiffLine, LineType};
use crate::text::{owned, push_char, push_str};

verus! {

#[derive(Debug, Clone, Copy, PartialEq, Eq, Structural)]
pub struct DiffSearchFlags {
    pub case_sensitive: bool,
    pub whole_word: bool,
    pub regex: bool,
}

impl Default for DiffSearchFlags {
    fn default() -> (flags: Self)
        ensures
            !flags.case_sensitive && !flags.whole_word && !flags.regex,
    {
        DiffSearchFlags { case_sensitive: false, whole_word: false, regex: false }
    }
}

#[derive(Debug, Clone, Copy, PartialEq, Eq, Structural)]
pub enum DiffSearchMode {
    Inactive,
    Editing,
    Viewing,
}

impl Default for DiffSearchMode {
    fn default() -> (mode: Self)
        ensures
            mode == DiffSearchMode::Inactive,
    {
        DiffSearchMode::Inactive
    }
}

#[derive(Debug, Clone, Copy, PartialEq, Eq, Structural)]
pub enum DiffLineKind {
    Header,
    Line { line_index: usize },
    Separator,
}

#[derive(Debug, Clone, Copy, PartialEq, Eq, Structural)]
pub struct DiffSearchMatch {
    /// Index of the hunk the match belongs to
    pub hunk_index: usize,
    /// Line index within the hunk
    pub line_index: usize,
    /// Column offset within the line
    pub column: usize,
    /// Length of the match
    pub length: usize,
}

#[derive(Debug, Clone, Copy, PartialEq, Eq, Structural)]
pub struct DiffLineLocation {
    /// Index of the hunk this visual line maps to
    pub hunk_index: usize,
    pub kind: DiffLineKind,
}

impl Default for DiffLineLocation {
    fn default() -> (location: Self)
        ensures
            location.hunk_index == 0,
            location.kind == DiffLineKind::Header,
    {
        Self { hunk_index: 0, kind: DiffLineKind::Header }
    }
}

#[derive(Debug, Clone)]
pub struct DiffSearchState {
    pub query: String,
    pub flags: DiffSearchFlags,
    pub matches: Vec<DiffSearchMatch>,
    pub active_match_index: Option<usize>,
    pub mode: DiffSearchMode,
    pub error: Option<String>,
    /// Indicates the query or flags changed and matches should be recomputed
    pub dirty: bool,
    /// Mapping from rendered lines to underlying diff positions
    pub line_locations: Vec<DiffLineLocation>,
}

impl Default for DiffSearchState {
    fn default() -> (state: Self)
        ensures
            state.query@.len() == 0,
            !state.flags.case_sensitive && !state.flags.whole_word && !state.flags.regex,
            state.matches@.len() == 0,
            state.active_match_index is None,
            state.mode == DiffSearchMode::Inactive,
            state.error is None,
            !state.dirty,
            state.line_locations@.len() == 0,
    {
        Self {
            query: String::new(),
            flags: DiffSearchFlags::default(),
            matches: Vec::new(),
            active_match_index: None,
            mode: DiffSearchMode::Inactive,
            error: None,
            dirty: false,
            line_locations: Vec::new(),
        }
    }
}

#[derive(Debug)]
pub enum DiffSearchError {
    InvalidPattern(String),
}

impl DiffSearchError {
    /// The error as it is shown to the user.
    pub fn to_display_string(&self) -> (text: String)
        ensures
            text@ == match self {
                DiffSearchError::InvalidPattern(message) => "Invalid search pattern: "@ + message@,
            },
    {
        match self {
            DiffSearchError::InvalidPattern(message) => {
                let mut text = owned("Invalid search pattern: ");
                push_str(&mut text, message.as_str());
                text
            },
        }
    }
}

#[verifier::external_type_specification]
#[verifier::external_body]
pub struct ExRegex(Regex);

/// The characters the regex syntax gives a meaning of their own.
pub open spec fn is_regex_meta(c: char) -> bool {
    c == '\\' || c == '.' || c == '+' || c == '*' || c == '?' || c == '(' || c == ')' || c == '|' || c == '['
        || c == ']' || c == '{' || c == '}' || c == '^' || c == '$' || c == '#' || c == '&' || c == '-' || c
        == '~'
}

/// `text` with a backslash before each meta character, so that it matches itself.
pub open spec fn escaped_spec(text: Seq<char>) -> Seq<char>
    decreases text.len(),
{
    if text.len() == 0 {
        Seq::empty()
    } else {
        escaped_spec(text.drop_last()) + if is_regex_meta(text.last()) {
            seq!['\\', text.last()]
        } else {
            seq![text.last()]
        }
    }
}

/// `regex::escape`: the text with a backslash put before each of the regex
/// meta characters (as `regex_syntax::escape_into` writes it).
#[verifier::external_body]
fn escape_literal(text: &str) -> (escaped: String)
    ensures
        escaped@ == escaped_spec(text@),
{
    regex::escape(text)
}

/// What `RegexBuilder::build` gives for a pattern and a case setting: `None`
/// when the pattern compiles, else the text of the error.
pub uninterp spec fn regex_build_outcome(pattern: Seq<char>, case_insensitive: bool) -> Option<Seq<char>>;

/// The matches `Regex::find_iter` finds in `haystack`, as (first character,
/// number of characters).
pub uninterp spec fn regex_find_spans(pattern: Seq<char>, case_insensitive: bool, haystack: Seq<char>) -> Seq<(usize, usize)>;

/// `str::to_lowercase`: the text in lowercase as std's Unicode tables map
/// it (a character may become several).
pub uninterp spec fn lowercase_text(text: Seq<char>) -> Seq<char>;

/// A compiled regular expression, with the pattern and case setting it was
/// compiled from.
pub struct CompiledRegex {
    regex: Regex,
    pattern: Ghost<Seq<char>>,
    case_insensitive: Ghost<bool>,
}

impl CompiledRegex {
    pub closed spec fn pattern(&self) -> Seq<char> {
        self.pattern@
    }

    pub closed spec fn case_insensitive(&self) -> bool {
        self.case_insensitive@
    }
}

/// `RegexBuilder::new(pattern).case_insensitive(..).build()`: the compiled
/// expression, or the error's text (`Error::to_string`). Which of the two
/// comes back, and the error's text, are named by `regex_build_outcome`.
#[verifier::external_body]
fn build_regex(pattern: &str, case_insensitive: bool) -> (compiled: Result<CompiledRegex, String>)
    ensures
        match compiled {
            Ok(r) => regex_build_outcome(pattern@, case_insensitive) is None && r.pattern() == pattern@
                && r.case_insensitive() == case_insensitive,
            Err(message) => regex_build_outcome(pattern@, case_insensitive) == Some(message@),
        },
{
    match regex::RegexBuilder::new(pattern).case_insensitive(case_insensitive).build() {
        Ok(regex) => Ok(CompiledRegex { regex, pattern: Ghost(pattern@), case_insensitive: Ghost(case_insensitive) }),
        Err(e) => Err(e.to_string()),
    }
}

/// `Regex::find_iter`: the matches in `haystack`, each converted from byte
/// offsets to (first character, number of characters).
#[verifier::external_body]
fn find_regex_spans(compiled: &CompiledRegex, haystack: &str) -> (spans: Vec<(usize, usize)>)
    ensures
        spans@ == regex_find_spans(compiled.pattern(), compiled.case_insensitive(), haystack@),
{
    compiled
        .regex
        .find_iter(haystack)
        .map(|m| (haystack[..m.start()].chars().count(), m.as_str().chars().count()))
        .collect()
}

/// `Regex::clone`: a copy that matches as its source does; nothing more is
/// stated of it.
#[verifier::external_body]
fn clone_regex(regex: &Regex) -> Regex {
    regex.clone()
}

/// `str::to_lowercase`.
#[verifier::external_body]
fn to_lowercase(text: &str) -> (lower: String)
    ensures
        lower@ == lowercase_text(text@),
{
    text.to_lowercase()
}

impl Clone for CompiledRegex {
    fn clone(&self) -> (copy: Self)
        ensures
            copy.pattern() == self.pattern(),
            copy.case_insensitive() == self.case_insensitive(),
    {
        CompiledRegex {
            regex: clone_regex(&self.regex),
            pattern: Ghost(self.pattern@),
            case_insensitive: Ghost(self.case_insensitive@),
        }
    }
}

/// How a prepared search matches: a literal needle, or a regular expression.
pub enum MatcherModel {
    Literal { needle: Seq<char>, case_sensitive: bool },
    Regex { pattern: Seq<char>, case_insensitive: bool },
}

#[derive(Clone)]
enum SearchMatcher {
    Literal { needle: String, case_sensitive: bool },
    Regex(CompiledRegex),
}

#[derive(Clone)]
pub struct PreparedSearch {
    matcher: SearchMatcher,
}

impl PreparedSearch {
    /// How this search matches.
    pub closed spec fn model(&self) -> MatcherModel {
        match self.matcher {
            SearchMatcher::Literal { needle, case_sensitive } => MatcherModel::Literal {
                needle: needle@,
                case_sensitive,
            },
            SearchMatcher::Regex(r) => MatcherModel::Regex {
                pattern: r.pattern(),
                case_insensitive: r.case_insensitive(),
            },
        }
    }
}

/// `needle` occurs in `haystack` starting at character `i`.
pub open spec fn occurs_at(haystack: Seq<char>, needle: Seq<char>, i: int) -> bool {
    0 <= i && i + needle.len() <= haystack.len() && haystack.subrange(i, i + needle.len()) == needle
}

/// The non-overlapping occurrences of a non-empty needle from character `k`
/// on, leftmost first, as (first character, length).
pub open spec fn literal_spans_from(haystack: Seq<char>, needle: Seq<char>, k: int) -> Seq<(usize, usize)>
    decreases haystack.len() - k,
{
    if needle.len() == 0 || k < 0 || k + needle.len() > haystack.len() {
        Seq::empty()
    } else if occurs_at(haystack, needle, k) {
        seq![(k as usize, needle.len() as usize)] + literal_spans_from(haystack, needle, k + needle.len())
    } else {
        literal_spans_from(haystack, needle, k + 1)
    }
}

/// The number of bytes of a character's UTF-8 encoding.
pub open spec fn utf8_width(c: char) -> nat {
    if c <= '\u{7f}' {
        1
    } else if c <= '\u{7ff}' {
        2
    } else if c <= '\u{ffff}' {
        3
    } else {
        4
    }
}

/// The number of bytes of a text's UTF-8 encoding.
pub open spec fn utf8_len(text: Seq<char>) -> nat
    decreases text.len(),
{
    if text.len() == 0 {
        0
    } else {
        utf8_len(text.drop_last()) + utf8_width(text.last())
    }
}

/// The number of characters of `text` whose encoding is exactly its first
/// `bytes` bytes; none where byte `bytes` falls inside a character or past
/// the end.
pub open spec fn chars_in_bytes(text: Seq<char>, bytes: nat) -> Option<nat>
    decreases text.len(),
{
    if utf8_len(text) == bytes {
        Some(text.len())
    } else if text.len() == 0 {
        None
    } else {
        chars_in_bytes(text.drop_last(), bytes)
    }
}

/// The columns of matches found in `lower`, the lowercase form of `text`:
/// a match that starts at byte `b` of `lower` is given the column that byte
/// `b` has in `text`, and keeps its length in `lower`. None where some byte
/// `b` is no character boundary of `text`.
pub open spec fn columns_in_text(text: Seq<char>, lower: Seq<char>, spans: Seq<(usize, usize)>) -> Option<
    Seq<(usize, usize)>,
>
    decreases spans.len(),
{
    if spans.len() == 0 {
        Some(Seq::empty())
    } else {
        match (
            columns_in_text(text, lower, spans.drop_last()),
            chars_in_bytes(text, utf8_len(lower.take(spans.last().0 as int))),
        ) {
            (Some(rest), Some(column)) => Some(rest.push((column as usize, spans.last().1))),
            _ => None,
        }
    }
}

/// The matches a search finds in a text, as (column, length); none where a
/// case-insensitive literal match starts at a byte of the lowercase text that
/// is no character boundary of the text itself.
pub open spec fn search_columns(m: MatcherModel, text: Seq<char>) -> Option<Seq<(usize, usize)>> {
    match m {
        MatcherModel::Literal { needle, case_sensitive } => {
            if needle.len() == 0 {
                Some(Seq::empty())
            } else if case_sensitive {
                Some(literal_spans_from(text, needle, 0))
            } else {
                columns_in_text(
                    text,
                    lowercase_text(text),
                    literal_spans_from(lowercase_text(text), lowercase_text(needle), 0),
                )
            }
        },
        MatcherModel::Regex { pattern, case_insensitive } => Some(regex_find_spans(pattern, case_insensitive, text)),
    }
}

/// The matches a search finds in a text, where `search_columns` gives them.
pub open spec fn model_spans(m: MatcherModel, text: Seq<char>) -> Seq<(usize, usize)> {
    match search_columns(m, text) {
        Some(spans) => spans,
        None => Seq::empty(),
    }
}

/// The pattern a query compiles to: a regular expression taken as written
/// or an escaped literal, bounded at word boundaries for whole-word search.
pub open spec fn search_pattern(query: Seq<char>, flags: DiffSearchFlags) -> Seq<char> {
    if flags.regex {
        if flags.whole_word {
            "\\b(?:"@ + query + ")\\b"@
        } else {
            query
        }
    } else if flags.whole_word {
        "\\b"@ + escaped_spec(query) + "\\b"@
    } else {
        escaped_spec(query)
    }
}

pub fn build_regex_pattern(query: &str, flags: &DiffSearchFlags) -> (pattern: String)
    ensures
        pattern@ == search_pattern(query@, *flags),
{
    if flags.regex {
        if flags.whole_word {
            let mut pattern = owned("\\b(?:");
            push_str(&mut pattern, query);
            push_str(&mut pattern, ")\\b");
            pattern
        } else {
            owned(query)
        }
    } else if flags.whole_word {
        let mut pattern = owned("\\b");
        let escaped = escape_literal(query);
        push_str(&mut pattern, escaped.as_str());
        push_str(&mut pattern, "\\b");
        pattern
    } else {
        escape_literal(query)
    }
}

fn chars_of(text: &str) -> (chars: Vec<char>)
    ensures
        chars@ == text@,
{
    let mut chars: Vec<char> = Vec::new();
    for ch in it: text.chars()
        invariant
            it.seq() == text@,
            chars@ == text@.take(it.index() as int),
    {
        chars.push(ch);
        assert(chars@ =~= text@.take(it.index() + 1));
    }
    assert(text@.take(text@.len() as int) =~= text@);
    chars
}

fn occurs_at_exec(haystack: &Vec<char>, needle: &Vec<char>, i: usize) -> (found: bool)
    requires
        i + needle@.len() <= haystack@.len(),
    ensures
        found == occurs_at(haystack@, needle@, i as int),
{
    let mut k: usize = 0;
    assert(haystack@.len() == haystack.len());
    while k < needle.len()
        invariant
            i + needle@.len() <= haystack@.len(),
            haystack@.len() <= usize::MAX,
            k <= needle@.len(),
            forall|j: int| 0 <= j < k ==> haystack@[i + j] == needle@[j],
        decreases needle.len() - k,
    {
        if haystack[i + k] != needle[k] {
            assert(haystack@.subrange(i as int, i + needle@.len())[k as int] != needle@[k as int]);
            return false;
        }
        k += 1;
    }
    assert(haystack@.subrange(i as int, i + needle@.len()) =~= needle@);
    true
}

fn literal_spans(haystack: &Vec<char>, needle: &Vec<char>) -> (spans: Vec<(usize, usize)>)
    ensures
        spans@ == literal_spans_from(haystack@, needle@, 0),
{
    let mut spans: Vec<(usize, usize)> = Vec::new();
    let n = needle.len();
    let h = haystack.len();
    if n == 0 || n > h {
        return spans;
    }
    let mut k: usize = 0;
    while k <= h - n
        invariant
            n == needle@.len(),
            h == haystack@.len(),
            0 < n <= h,
            k <= h - n + n,
            spans@ + literal_spans_from(haystack@, needle@, k as int) == literal_spans_from(haystack@, needle@, 0),
        decreases h - k,
    {
        if occurs_at_exec(haystack, needle, k) {
            spans.push((k, n));
            proof {
                assert(spans@ + literal_spans_from(haystack@, needle@, k + n) =~= literal_spans_from(
                    haystack@,
                    needle@,
                    0,
                ));
            }
            k += n;
        } else {
            k += 1;
        }
    }
    assert(literal_spans_from(haystack@, needle@, k as int) =~= Seq::<(usize, usize)>::empty());
    assert(spans@ =~= spans@ + Seq::<(usize, usize)>::empty());
    spans
}

proof fn lemma_literal_spans_in_bounds(haystack: Seq<char>, needle: Seq<char>, k: int)
    requires
        haystack.len() <= usize::MAX,
    ensures
        forall|i: int|
            0 <= i < literal_spans_from(haystack, needle, k).len() ==> {
                let s = #[trigger] literal_spans_from(haystack, needle, k)[i];
                s.0 + s.1 <= haystack.len()
            },
    decreases haystack.len() - k,
{
    if needle.len() == 0 || k < 0 || k + needle.len() > haystack.len() {
    } else if occurs_at(haystack, needle, k) {
        let rest = literal_spans_from(haystack, needle, k + needle.len());
        lemma_literal_spans_in_bounds(haystack, needle, k + needle.len());
        let all = literal_spans_from(haystack, needle, k);
        assert(all == seq![(k as usize, needle.len() as usize)] + rest);
        assert forall|i: int| 0 <= i < all.len() implies #[trigger] all[i].0 + all[i].1 <= haystack.len() by {
            if i > 0 {
                assert(all[i] == rest[i - 1]);
            } else {
                assert(all[0] == (k as usize, needle.len() as usize));
            }
        }
        assert(all == literal_spans_from(haystack, needle, k));
    } else {
        lemma_literal_spans_in_bounds(haystack, needle, k + 1);
        assert(literal_spans_from(haystack, needle, k) == literal_spans_from(haystack, needle, k + 1));
    }
}

proof fn lemma_utf8_len_take_grows(text: Seq<char>, j: int, k: int)
    requires
        0 <= j < k <= text.len(),
    ensures
        utf8_len(text.take(j)) < utf8_len(text.take(k)),
    decreases k - j,
{
    assert(text.take(k).drop_last() =~= text.take(k - 1));
    if j < k - 1 {
        lemma_utf8_len_take_grows(text, j, k - 1);
    }
}

proof fn lemma_chars_in_bytes(text: Seq<char>, bytes: nat)
    ensures
        chars_in_bytes(text, bytes) matches Some(k) ==> k <= text.len() && utf8_len(text.take(k as int)) == bytes,
        forall|k: int| 0 <= k <= text.len() && utf8_len(#[trigger] text.take(k)) == bytes ==> chars_in_bytes(text, bytes) == Some(k as nat),
    decreases text.len(),
{
    assert(text.take(text.len() as int) =~= text);
    if utf8_len(text) == bytes {
        assert forall|k: int| 0 <= k <= text.len() && utf8_len(#[trigger] text.take(k)) == bytes implies k == text.len() by {
            if k < text.len() {
                lemma_utf8_len_take_grows(text, k, text.len() as int);
            }
        }
    } else if text.len() == 0 {
        assert(text.take(0) =~= text);
    } else {
        let shorter = text.drop_last();
        lemma_chars_in_bytes(shorter, bytes);
        assert forall|k: int| 0 <= k <= shorter.len() implies #[trigger] shorter.take(k) == text.take(k) by {
            assert(shorter.take(k) =~= text.take(k));
        }
        if let Some(k) = chars_in_bytes(text, bytes) {
            assert(shorter.take(k as int) == text.take(k as int));
        }
        assert forall|k: int| 0 <= k <= text.len() && utf8_len(#[trigger] text.take(k)) == bytes implies chars_in_bytes(
            text,
            bytes,
        ) == Some(k as nat) by {
            if k < text.len() {
                assert(shorter.take(k) == text.take(k));
            }
        }
    }
}

fn char_width(c: char) -> (width: u128)
    ensures
        width == utf8_width(c),
{
    if c <= '\u{7f}' {
        1
    } else if c <= '\u{7ff}' {
        2
    } else if c <= '\u{ffff}' {
        3
    } else {
        4
    }
}

/// The number of bytes of the first `k` characters.
fn prefix_bytes(chars: &Vec<char>, k: usize) -> (bytes: u128)
    requires
        k <= chars@.len(),
    ensures
        bytes == utf8_len(chars@.take(k as int)),
{
    let mut bytes: u128 = 0;
    let mut i: usize = 0;
    assert(chars@.take(0) =~= Seq::<char>::empty());
    while i < k
        invariant
            k <= chars@.len(),
            i <= k,
            bytes == utf8_len(chars@.take(i as int)),
            bytes <= 4 * i,
        decreases k - i,
    {
        assert(chars@.take(i + 1).drop_last() =~= chars@.take(i as int));
        bytes = bytes + char_width(chars[i]);
        i += 1;
    }
    bytes
}

/// The number of characters whose encoding is exactly the first `bytes`
/// bytes, if there is one.
fn chars_in_bytes_exec(chars: &Vec<char>, bytes: u128) -> (count: Option<usize>)
    ensures
        match count {
            Some(k) => chars_in_bytes(chars@, bytes as nat) == Some(k as nat),
            None => chars_in_bytes(chars@, bytes as nat) is None,
        },
{
    let n = chars.len();
    let mut k: usize = 0;
    let mut acc: u128 = 0;
    assert(chars@.take(0) =~= Seq::<char>::empty());
    while k < n && acc < bytes
        invariant
            n == chars@.len(),
            k <= n,
            acc == utf8_len(chars@.take(k as int)),
            acc <= 4 * k,
            forall|j: int| 0 <= j < k ==> utf8_len(#[trigger] chars@.take(j)) < bytes,
        decreases n - k,
    {
        assert(chars@.take(k + 1).drop_last() =~= chars@.take(k as int));
        acc = acc + char_width(chars[k]);
        k += 1;
    }
    proof {
        lemma_chars_in_bytes(chars@, bytes as nat);
    }
    if acc == bytes {
        Some(k)
    } else {
        proof {
            if let Some(v) = chars_in_bytes(chars@, bytes as nat) {
                if v > k {
                    lemma_utf8_len_take_grows(chars@, k as int, v as int);
                }
            }
        }
        None
    }
}

/// The columns in `text` of matches found in its lowercase form `lower`.
fn columns_in_text_exec(text: &Vec<char>, lower: &Vec<char>, spans: &Vec<(usize, usize)>) -> (columns: Option<
    Vec<(usize, usize)>,
>)
    requires
        forall|i: int| 0 <= i < spans@.len() ==> (#[trigger] spans@[i]).0 <= lower@.len(),
    ensures
        match columns {
            Some(c) => columns_in_text(text@, lower@, spans@) == Some(c@),
            None => columns_in_text(text@, lower@, spans@) is None,
        },
{
    let mut columns: Vec<(usize, usize)> = Vec::new();
    let mut i: usize = 0;
    assert(spans@.take(0) =~= Seq::<(usize, usize)>::empty());
    while i < spans.len()
        invariant
            i <= spans@.len(),
            forall|j: int| 0 <= j < spans@.len() ==> (#[trigger] spans@[j]).0 <= lower@.len(),
            columns_in_text(text@, lower@, spans@.take(i as int)) == Some(columns@),
        decreases spans.len() - i,
    {
        let (start, length) = spans[i];
        let bytes = prefix_bytes(lower, start);
        let ghost taken = spans@.take(i + 1);
        assert(taken.drop_last() =~= spans@.take(i as int));
        assert(taken.last() == spans@[i as int]);
        match chars_in_bytes_exec(text, bytes) {
            Some(column) => {
                columns.push((column, length));
                assert(columns_in_text(text@, lower@, taken) == Some(columns@));
            },
            None => {
                assert(columns_in_text(text@, lower@, taken) is None);
                proof {
                    lemma_columns_in_text_prefix(text@, lower@, spans@, i + 1);
                }
                return None;
            },
        }
        i += 1;
    }
    assert(spans@.take(spans@.len() as int) =~= spans@);
    Some(columns)
}

proof fn lemma_columns_in_text_prefix(text: Seq<char>, lower: Seq<char>, spans: Seq<(usize, usize)>, k: int)
    requires
        0 <= k <= spans.len(),
        columns_in_text(text, lower, spans.take(k)) is None,
    ensures
        columns_in_text(text, lower, spans) is None,
    decreases spans.len() - k,
{
    if k < spans.len() {
        assert(spans.take(k + 1).drop_last() =~= spans.take(k));
        lemma_columns_in_text_prefix(text, lower, spans, k + 1);
    } else {
        assert(spans.take(k) =~= spans);
    }
}

fn find_literal_matches(haystack: &str, needle: &str, case_sensitive: bool) -> (spans: Option<Vec<(usize, usize)>>)
    ensures
        match spans {
            Some(found) => search_columns(MatcherModel::Literal { needle: needle@, case_sensitive }, haystack@)
                == Some(found@),
            None => search_columns(MatcherModel::Literal { needle: needle@, case_sensitive }, haystack@) is None,
        },
{
    if needle.unicode_len() == 0 {
        return Some(Vec::new());
    }
    if case_sensitive {
        let h = chars_of(haystack);
        let n = chars_of(needle);
        Some(literal_spans(&h, &n))
    } else {
        let needle_lower = to_lowercase(needle);
        let haystack_lower = to_lowercase(haystack);
        let text = chars_of(haystack);
        let h = chars_of(haystack_lower.as_str());
        let n = chars_of(needle_lower.as_str());
        let spans = literal_spans(&h, &n);
        proof {
            assert(h@.len() == h.len());
            lemma_literal_spans_in_bounds(h@, n@, 0);
            assert forall|i: int| 0 <= i < spans@.len() implies (#[trigger] spans@[i]).0 <= h@.len() by {
                let s = literal_spans_from(h@, n@, 0)[i];
                assert(s.0 + s.1 <= h@.len());
            }
        }
        columns_in_text_exec(&text, &h, &spans)
    }
}

impl PreparedSearch {
    /// Prepares a query: a regular expression (for regex or whole-word
    /// search), which may fail to compile, or a literal needle.
    pub fn new(query: &str, flags: &DiffSearchFlags) -> (prepared: Result<Self, DiffSearchError>)
        ensures
            flags.regex || flags.whole_word ==> match regex_build_outcome(
                search_pattern(query@, *flags),
                !flags.case_sensitive,
            ) {
                None => prepared matches Ok(p) && p.model() == (MatcherModel::Regex {
                    pattern: search_pattern(query@, *flags),
                    case_insensitive: !flags.case_sensitive,
                }),
                Some(message) => prepared matches Err(DiffSearchError::InvalidPattern(m)) && m@ == message,
            },
            !(flags.regex || flags.whole_word) ==> (prepared matches Ok(p) && p.model() == (MatcherModel::Literal {
                needle: query@,
                case_sensitive: flags.case_sensitive,
            })),
    {
        if flags.regex || flags.whole_word {
            let pattern = build_regex_pattern(query, flags);
            match build_regex(pattern.as_str(), !flags.case_sensitive) {
                Ok(regex) => Ok(Self { matcher: SearchMatcher::Regex(regex) }),
                Err(message) => Err(DiffSearchError::InvalidPattern(message)),
            }
        } else {
            Ok(Self { matcher: SearchMatcher::Literal { needle: owned(query), case_sensitive: flags.case_sensitive } })
        }
    }

    /// The matches in `haystack`, as (column, number of characters); none
    /// where a case-insensitive literal match has no column in `haystack`
    /// (see `search_columns`).
    pub fn try_find_in(&self, haystack: &str) -> (spans: Option<Vec<(usize, usize)>>)
        ensures
            match spans {
                Some(found) => search_columns(self.model(), haystack@) == Some(found@),
                None => search_columns(self.model(), haystack@) is None,
            },
    {
        match &self.matcher {
            SearchMatcher::Literal { needle, case_sensitive } => find_literal_matches(
                haystack,
                needle.as_str(),
                *case_sensitive,
            ),
            SearchMatcher::Regex(regex) => Some(find_regex_spans(regex, haystack)),
        }
    }

    /// The matches in `haystack`, as (column, number of characters), where
    /// every match has a column.
    pub fn find_in(&self, haystack: &str) -> (spans: Vec<(usize, usize)>)
        requires
            search_columns(self.model(), haystack@) is Some,
        ensures
            spans@ == model_spans(self.model(), haystack@),
    {
        match self.try_find_in(haystack) {
            Some(found) => found,
            None => Vec::new(),
        }
    }
}

/// The character a diff line is shown with before its text.
pub open spec fn line_prefix(line_type: LineType) -> char {
    match line_type {
        LineType::Addition => '+',
        LineType::Deletion => '-',
        LineType::Context => ' ',
        LineType::NoNewlineEOF => '\\',
    }
}

/// The text a diff line is searched in: its prefix, then its content with
/// tabs expanded.
pub open spec fn line_search_text(line: DiffLine, tab_width: nat) -> Seq<char> {
    seq![line_prefix(line.line_type)] + expand_tabs_spec(line.content@, tab_width)
}

/// The matches found in line `l` of hunk `h`.
pub open spec fn line_matches(h: int, l: int, spans: Seq<(usize, usize)>) -> Seq<DiffSearchMatch> {
    spans.map_values(
        |s: (usize, usize)|
            DiffSearchMatch { hunk_index: h as usize, line_index: l as usize, column: s.0, length: s.1 },
    )
}

/// The matches found in the first `k` lines of hunk `h`.
pub open spec fn lines_matches(h: int, lines: Seq<DiffLine>, m: MatcherModel, tab_width: nat, k: int) -> Seq<
    DiffSearchMatch,
>
    decreases k,
{
    if k <= 0 {
        Seq::empty()
    } else {
        lines_matches(h, lines, m, tab_width, k - 1) + line_matches(
            h,
            k - 1,
            model_spans(m, line_search_text(lines[k - 1], tab_width)),
        )
    }
}

/// The matches found in the first `k` hunks, hunk by hunk, line by line.
pub open spec fn hunks_matches(hunks: Seq<DiffHunk>, m: MatcherModel, tab_width: nat, k: int) -> Seq<DiffSearchMatch>
    decreases k,
{
    if k <= 0 {
        Seq::empty()
    } else {
        hunks_matches(hunks, m, tab_width, k - 1) + lines_matches(
            k - 1,
            hunks[k - 1].lines@,
            m,
            tab_width,
            hunks[k - 1].lines@.len() as int,
        )
    }
}

/// Every line of the diff can have its tabs expanded: the width is positive
/// or the line has no tab, and the searched text fits in memory.
pub open spec fn lines_searchable(hunks: Seq<DiffHunk>, tab_width: nat) -> bool {
    forall|h: int, l: int|
        0 <= h < hunks.len() && 0 <= l < hunks[h].lines@.len() ==> {
            &&& (tab_width > 0 || !(#[trigger] hunks[h].lines@[l]).content@.contains('\t'))
            &&& expand_tabs_spec(hunks[h].lines@[l].content@, tab_width).len() < usize::MAX
        }
}

fn line_search_string(line: &DiffLine, tab_width: usize) -> (text: String)
    requires
        tab_width > 0 || !line.content@.contains('\t'),
        expand_tabs_spec(line.content@, tab_width as nat).len() < usize::MAX,
    ensures
        text@ == line_search_text(*line, tab_width as nat),
{
    let prefix = match line.line_type {
        LineType::Addition => '+',
        LineType::Deletion => '-',
        LineType::Context => ' ',
        LineType::NoNewlineEOF => '\\',
    };
    let expanded = expand_tabs_with_width(line.content.as_str(), tab_width);
    let mut text = String::new();
    push_char(&mut text, prefix);
    push_str(&mut text, expanded.as_str());
    assert(text@ =~= line_search_text(*line, tab_width as nat));
    text
}

/// Every case-insensitive literal match in the diff's lines has a column in
/// its line (see `search_columns`).
pub open spec fn diff_columns_defined(hunks: Seq<DiffHunk>, m: MatcherModel, tab_width: nat) -> bool {
    forall|h: int, l: int|
        0 <= h < hunks.len() && 0 <= l < hunks[h].lines@.len() ==> search_columns(
            m,
            line_search_text(#[trigger] hunks[h].lines@[l], tab_width),
        ) is Some
}

/// A literal query (not a regular expression, not whole-word) that is not
/// empty has a column for each of its matches in the diff.
pub open spec fn query_columns_defined(hunks: Seq<DiffHunk>, query: Seq<char>, flags: DiffSearchFlags, tab_width: nat) -> bool {
    query.len() > 0 && !(flags.regex || flags.whole_word) ==> diff_columns_defined(
        hunks,
        MatcherModel::Literal { needle: query, case_sensitive: flags.case_sensitive },
        tab_width,
    )
}

/// What searching a diff for a query gives: no matches for an empty query;
/// for a regular expression or whole-word search, the error text where the
/// pattern does not compile; else the matches, hunk by hunk, line by line.
pub open spec fn diff_search_result(
    hunks: Seq<DiffHunk>,
    query: Seq<char>,
    flags: DiffSearchFlags,
    tab_width: nat,
    result: Result<Vec<DiffSearchMatch>, DiffSearchError>,
) -> bool {
    &&& query.len() == 0 ==> (result matches Ok(found) && found@.len() == 0)
    &&& query.len() > 0 && (flags.regex || flags.whole_word) ==> match regex_build_outcome(
        search_pattern(query, flags),
        !flags.case_sensitive,
    ) {
        None => result matches Ok(found) && found@ == hunks_matches(
            hunks,
            MatcherModel::Regex { pattern: search_pattern(query, flags), case_insensitive: !flags.case_sensitive },
            tab_width,
            hunks.len() as int,
        ),
        Some(message) => result matches Err(DiffSearchError::InvalidPattern(m)) && m@ == message,
    }
    &&& query.len() > 0 && !(flags.regex || flags.whole_word) ==> (result matches Ok(found) && found@
        == hunks_matches(
        hunks,
        MatcherModel::Literal { needle: query, case_sensitive: flags.case_sensitive },
        tab_width,
        hunks.len() as int,
    ))
}

/// The matches of a query in a diff, hunk by hunk and line by line, each
/// line searched as it is shown: its prefix, then its text with tabs
/// expanded. No matches for an empty query; an error for a pattern that does
/// not compile.
pub fn find_matches_in_diff(diff: &Diff, query: &str, flags: &DiffSearchFlags, tab_width: usize) -> (result:
    Result<Vec<DiffSearchMatch>, DiffSearchError>)
    requires
        lines_searchable(diff.hunks@, tab_width as nat),
        query_columns_defined(diff.hunks@, query@, *flags, tab_width as nat),
    ensures
        diff_search_result(diff.hunks@, query@, *flags, tab_width as nat, result),
{
    if query.unicode_len() == 0 {
        return Ok(Vec::new());
    }
    let matcher = match PreparedSearch::new(query, flags) {
        Ok(m) => m,
        Err(e) => return Err(e),
    };
    let ghost m = matcher.model();
    let mut matches: Vec<DiffSearchMatch> = Vec::new();
    let hunk_count = diff.hunks.len();
    let mut hunk_index: usize = 0;
    while hunk_index < hunk_count
        invariant
            hunk_count == diff.hunks@.len(),
            hunk_index <= hunk_count,
            lines_searchable(diff.hunks@, tab_width as nat),
            m == matcher.model(),
            m is Regex || diff_columns_defined(diff.hunks@, m, tab_width as nat),
            matches@ == hunks_matches(diff.hunks@, m, tab_width as nat, hunk_index as int),
        decreases hunk_count - hunk_index,
    {
        let hunk = &diff.hunks[hunk_index];
        let line_count = hunk.lines.len();
        let ghost before = matches@;
        let mut line_index: usize = 0;
        while line_index < line_count
            invariant
                hunk_count == diff.hunks@.len(),
                hunk_index < hunk_count,
                *hunk == diff.hunks@[hunk_index as int],
                line_count == hunk.lines@.len(),
                line_index <= line_count,
                lines_searchable(diff.hunks@, tab_width as nat),
                m == matcher.model(),
                m is Regex || diff_columns_defined(diff.hunks@, m, tab_width as nat),
                before == hunks_matches(diff.hunks@, m, tab_width as nat, hunk_index as int),
                matches@ == before + lines_matches(
                    hunk_index as int,
                    hunk.lines@,
                    m,
                    tab_width as nat,
                    line_index as int,
                ),
            decreases line_count - line_index,
        {
            let line = &hunk.lines[line_index];
            assert(diff.hunks@[hunk_index as int].lines@[line_index as int] == *line);
            let text = line_search_string(line, tab_width);
            assert(search_columns(m, text@) is Some);
            let spans = matcher.find_in(text.as_str());
            let ghost mid = matches@;
            let mut s: usize = 0;
            while s < spans.len()
                invariant
                    s <= spans@.len(),
                    matches@ == mid + line_matches(hunk_index as int, line_index as int, spans@.take(s as int)),
                decreases spans.len() - s,
            {
                let (column, length) = spans[s];
                matches.push(DiffSearchMatch { hunk_index, line_index, column, length });
                assert(spans@.take(s + 1) =~= spans@.take(s as int).push(spans@[s as int]));
                assert(matches@ =~= mid + line_matches(hunk_index as int, line_index as int, spans@.take(s + 1)));
                s += 1;
            }
            assert(spans@.take(spans@.len() as int) =~= spans@);
            assert(matches@ =~= before + lines_matches(
                hunk_index as int,
                hunk.lines@,
                m,
                tab_width as nat,
                line_index + 1,
            ));
            line_index += 1;
        }
        hunk_index += 1;
    }
    Ok(matches)
}

/// Searches a diff as `find_matches_in_diff` does, after making sure that a
/// literal query has a column for each of its matches: none where some
/// case-insensitive match starts at a byte of the lowercase line that is no
/// character boundary of the line itself.
pub fn find_matches_in_diff_checked(diff: &Diff, query: &str, flags: &DiffSearchFlags, tab_width: usize) -> (result:
    Option<Result<Vec<DiffSearchMatch>, DiffSearchError>>)
    requires
        lines_searchable(diff.hunks@, tab_width as nat),
    ensures
        result is None <==> !query_columns_defined(diff.hunks@, query@, *flags, tab_width as nat),
        result matches Some(r) ==> diff_search_result(diff.hunks@, query@, *flags, tab_width as nat, r),
{
    if query.unicode_len() > 0 && !(flags.regex || flags.whole_word) {
        let matcher = match PreparedSearch::new(query, flags) {
            Ok(m) => m,
            Err(e) => return Some(Err(e)),
        };
        let ghost m = matcher.model();
        let hunk_count = diff.hunks.len();
        let mut hunk_index: usize = 0;
        while hunk_index < hunk_count
            invariant
                hunk_count == diff.hunks@.len(),
                hunk_index <= hunk_count,
                lines_searchable(diff.hunks@, tab_width as nat),
                m == matcher.model(),
                m == (MatcherModel::Literal { needle: query@, case_sensitive: flags.case_sensitive }),
                query@.len() > 0 && !(flags.regex || flags.whole_word),
                forall|h: int, l: int|
                    0 <= h < hunk_index && 0 <= l < diff.hunks@[h].lines@.len() ==> search_columns(
                        m,
                        line_search_text(#[trigger] diff.hunks@[h].lines@[l], tab_width as nat),
                    ) is Some,
            decreases hunk_count - hunk_index,
        {
            let hunk = &diff.hunks[hunk_index];
            let line_count = hunk.lines.len();
            let mut line_index: usize = 0;
            while line_index < line_count
                invariant
                    hunk_count == diff.hunks@.len(),
                    hunk_index < hunk_count,
                    *hunk == diff.hunks@[hunk_index as int],
                    line_count == hunk.lines@.len(),
                    line_index <= line_count,
                    lines_searchable(diff.hunks@, tab_width as nat),
                    m == matcher.model(),
                    m == (MatcherModel::Literal { needle: query@, case_sensitive: flags.case_sensitive }),
                    query@.len() > 0 && !(flags.regex || flags.whole_word),
                    forall|h: int, l: int|
                        0 <= h < hunk_index && 0 <= l < diff.hunks@[h].lines@.len() ==> search_columns(
                            m,
                            line_search_text(#[trigger] diff.hunks@[h].lines@[l], tab_width as nat),
                        ) is Some,
                    forall|l: int|
                        0 <= l < line_index ==> search_columns(
                            m,
                            line_search_text(#[trigger] diff.hunks@[hunk_index as int].lines@[l], tab_width as nat),
                        ) is Some,
                decreases line_count - line_index,
            {
                let line = &hunk.lines[line_index];
                assert(diff.hunks@[hunk_index as int].lines@[line_index as int] == *line);
                let text = line_search_string(line, tab_width);
                if matcher.try_find_in(text.as_str()).is_none() {
                    assert(search_columns(m, line_search_text(diff.hunks@[hunk_index as int].lines@[line_index as int], tab_width as nat)) is None);
                    assert(!diff_columns_defined(diff.hunks@, m, tab_width as nat));
                    return None;
                }
                line_index += 1;
            }
            hunk_index += 1;
        }
    }
    Some(find_matches_in_diff(diff, query, flags, tab_width))
}

} // verus!
