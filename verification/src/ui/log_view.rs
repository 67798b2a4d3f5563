use vstd::prelude::*;
use crate::diff::{Diff, DiffLine};
use crate::calendar::{absolute_time_text, format_absolute_time};
use crate::log::{CommitTime, LogData, LogEntry, distinct_committer};
use crate::repository::{CommitChangeType, CommitFileChange, change_letter};
use crate::ui::diff_renderer::{DiffRenderSettings, DiffRenderer, diff_drawable, diff_line_pieces};
use crate::ui::log_navigation::{
    CommitExpansion, LogCursor, LogNavigationModel, LogNavigationState, commit_rows, commit_rows_before, file_diff_shown,
    file_rows, file_rows_before, flat_index_spec, hunk_collapsed_in, hunk_rows, hunk_rows_before,
};
use crate::ui::status_view::{RowView, collapse_icon, hunk_header_style, note_row, number_widths};
use crate::ui::styled::{
    BaseStyle, StyledText, TextStyle, ThemeColor, colored, colored_spec, line_view, piece, plain, plain_spec,
    selected_spec, selected_style,
};
use git2::Oid;
use crate::text::{decimal, owned, push_char, push_decimal, push_str, spaces, split_on, trim_end_spec, trimmed_lines};

verus! {

/// The display lines of a commit message: trailing blank lines trimmed,
/// split at line feeds.
pub open spec fn message_lines_spec(message: Seq<char>) -> Seq<Seq<char>> {
    split_on(trim_end_spec(message), '\n')
}

/// The number of list lines the metadata block of a commit occupies: the
/// commit and author lines, a committer line when the committer differs, a
/// blank separator, then the message lines.
pub open spec fn metadata_line_count_spec(entry: &LogEntry) -> nat {
    2 + (if distinct_committer(entry) { 1nat } else { 0nat }) + 1 + message_lines_spec(entry.message@).len()
}

/// Full commit message split into display lines (trailing blank lines trimmed).
pub fn commit_message_lines(message: &str) -> (lines: Vec<String>)
    ensures
        lines@.map_values(|l: String| l@) == message_lines_spec(message@),
{
    trimmed_lines(message)
}

/// Number of list lines the metadata block occupies for a commit. Single source
/// of truth shared with `commit_metadata_lines` and the flat-index accounting in
/// `log_navigation`.
pub fn commit_metadata_line_count(entry: &LogEntry) -> (count: usize)
    requires
        metadata_line_count_spec(entry) <= usize::MAX,
    ensures
        count == metadata_line_count_spec(entry),
{
    let lines = commit_message_lines(entry.message.as_str());
    assert(lines@.len() == lines@.map_values(|l: String| l@).len());
    let committer: usize = if entry.has_distinct_committer() { 1 } else { 0 };
    2 + committer + 1 + lines.len()
}

/// `n` of a unit, as "1 minute ago" or "5 minutes ago".
pub open spec fn units_ago(n: nat, unit: Seq<char>) -> Seq<char> {
    if n == 1 {
        "1 "@ + unit + " ago"@
    } else {
        decimal(n) + " "@ + unit + "s ago"@
    }
}

/// How long ago a commit was made, `delta` seconds before now, in words.
pub open spec fn relative_time_text(delta: int) -> Seq<char> {
    if delta < 0 {
        "in the future"@
    } else if delta < 60 {
        "just now"@
    } else if delta < 3600 {
        units_ago((delta / 60) as nat, "minute"@)
    } else if delta < 86400 {
        units_ago((delta / 3600) as nat, "hour"@)
    } else if delta < 604800 {
        units_ago((delta / 86400) as nat, "day"@)
    } else if delta < 2592000 {
        units_ago((delta / 604800) as nat, "week"@)
    } else if delta < 31536000 {
        units_ago((delta / 2592000) as nat, "month"@)
    } else {
        units_ago((delta / 31536000) as nat, "year"@)
    }
}

fn units_ago_string(n: u64, unit: &str) -> (text: String)
    ensures
        text@ == units_ago(n as nat, unit@),
{
    if n == 1 {
        let mut text = owned("1 ");
        push_str(&mut text, unit);
        push_str(&mut text, " ago");
        proof {
            reveal_strlit("1 ");
            reveal_strlit(" ago");
        }
        assert(text@ =~= units_ago(n as nat, unit@));
        text
    } else {
        let mut text = String::new();
        push_decimal(&mut text, n);
        push_str(&mut text, " ");
        push_str(&mut text, unit);
        push_str(&mut text, "s ago");
        assert(text@ =~= units_ago(n as nat, unit@));
        text
    }
}

/// Describes how long before `now` a commit made at `commit_time` was made,
/// both in seconds since the Unix epoch.
pub fn relative_time(now: i64, commit_time: i64) -> (text: String)
    requires
        i64::MIN <= now - commit_time <= i64::MAX,
    ensures
        text@ == relative_time_text(now - commit_time),
{
    let delta = now - commit_time;
    if delta < 0 {
        return owned("in the future");
    }
    if delta < 60 {
        return owned("just now");
    }
    let d = delta as u64;
    if delta < 3600 {
        return units_ago_string(d / 60, "minute");
    }
    if delta < 86400 {
        return units_ago_string(d / 3600, "hour");
    }
    if delta < 604800 {
        return units_ago_string(d / 86400, "day");
    }
    if delta < 2592000 {
        return units_ago_string(d / 604800, "week");
    }
    if delta < 31536000 {
        return units_ago_string(d / 2592000, "month");
    }
    units_ago_string(d / 31536000, "year")
}

/// The text of a commit id (its `Display` form).
pub uninterp spec fn oid_hex(oid: Oid) -> Seq<char>;

/// The text of a commit id (`git2::Oid`'s `Display`, the hex form).
#[verifier::external_body]
fn oid_text(oid: &Oid) -> (text: String)
    ensures
        text@ == oid_hex(*oid),
{
    oid.to_string()
}

/// A commit time can be formatted: its local time fits an `i64`.
pub open spec fn time_formattable(time: CommitTime) -> bool {
    i64::MIN <= time.seconds + time.offset_minutes * 60 <= i64::MAX
}

/// A label of the metadata block, indented and padded to the widest label.
pub open spec fn label_piece(label: Seq<char>) -> (Seq<char>, TextStyle) {
    (
        "      "@ + label + (if label.len() < 9 { spaces((9 - label.len()) as nat) } else { Seq::empty() }) + " "@,
        colored_spec(ThemeColor::LogDate),
    )
}

/// Who made a commit, and when.
pub open spec fn identity_pieces(name: Seq<char>, email: Seq<char>, time: CommitTime) -> RowView {
    seq![
        (name + " <"@ + email + ">"@, colored_spec(ThemeColor::LogAuthor)),
        ("  "@ + absolute_time_text(time.seconds as int, time.offset_minutes as int), colored_spec(ThemeColor::LogDate)),
    ]
}

/// The metadata block of a commit: its id, its author, its committer where
/// it differs, a blank row, then its message.
pub open spec fn metadata_rows(entry: &LogEntry) -> Seq<RowView> {
    let head: Seq<RowView> = seq![
        seq![label_piece("Commit"@), (oid_hex(entry.oid), colored_spec(ThemeColor::LogHash))],
        seq![label_piece("Author"@)] + identity_pieces(entry.author_name@, entry.author_email@, entry.time),
    ];
    let committer: Seq<RowView> = if distinct_committer(entry) {
        seq![seq![label_piece("Committer"@)] + identity_pieces(entry.committer_name@, entry.committer_email@, entry.committer_time)]
    } else {
        Seq::empty()
    };
    head + committer + seq![Seq::empty()] + message_lines_spec(entry.message@).map_values(
        |l: Seq<char>| seq![("      "@ + l, colored_spec(ThemeColor::DiffContext))],
    )
}

fn label_text(label: &str) -> (text: String)
    requires
        label@.len() <= 9,
    ensures
        (text@, colored_spec(ThemeColor::LogDate)) == label_piece(label@),
{
    let mut text = owned("      ");
    push_str(&mut text, label);
    let len = label.unicode_len();
    let mut k: usize = len;
    while k < 9
        invariant
            len == label@.len(),
            len <= k <= 9,
            text@ == "      "@ + label@ + spaces((k - len) as nat),
        decreases 9 - k,
    {
        push_char(&mut text, ' ');
        k += 1;
        assert(text@ =~= "      "@ + label@ + spaces((k - len) as nat));
    }
    push_str(&mut text, " ");
    assert(text@ =~= label_piece(label@).0);
    text
}

fn identity_spans(name: &String, email: &String, time: &CommitTime) -> (spans: Vec<StyledText>)
    requires
        time_formattable(*time),
    ensures
        line_view(spans@) == identity_pieces(name@, email@, *time),
{
    let mut who = name.clone();
    push_str(&mut who, " <");
    push_str(&mut who, email.as_str());
    push_str(&mut who, ">");
    let mut when = owned("  ");
    let absolute = format_absolute_time(time);
    push_str(&mut when, absolute.as_str());
    let mut spans: Vec<StyledText> = Vec::new();
    spans.push(piece(who, colored(ThemeColor::LogAuthor)));
    spans.push(piece(when, colored(ThemeColor::LogDate)));
    assert(line_view(spans@) =~= identity_pieces(name@, email@, *time));
    spans
}

/// Build the metadata block shown under an expanded commit row.
pub fn commit_metadata_lines(entry: &LogEntry) -> (lines: Vec<Vec<StyledText>>)
    requires
        time_formattable(entry.time),
        time_formattable(entry.committer_time),
    ensures
        lines@.map_values(|r: Vec<StyledText>| line_view(r@)) == metadata_rows(entry),
{
    proof {
        reveal_strlit("Commit");
        reveal_strlit("Author");
        reveal_strlit("Committer");
    }
    let mut lines: Vec<Vec<StyledText>> = Vec::new();
    let mut commit_row: Vec<StyledText> = Vec::new();
    commit_row.push(piece(label_text("Commit"), colored(ThemeColor::LogDate)));
    commit_row.push(piece(oid_text(&entry.oid), colored(ThemeColor::LogHash)));
    let ghost commit_view = line_view(commit_row@);
    assert(commit_view =~= seq![label_piece("Commit"@), (oid_hex(entry.oid), colored_spec(ThemeColor::LogHash))]);
    lines.push(commit_row);
    let mut author_row: Vec<StyledText> = Vec::new();
    author_row.push(piece(label_text("Author"), colored(ThemeColor::LogDate)));
    let mut author_identity = identity_spans(&entry.author_name, &entry.author_email, &entry.time);
    let ghost author_identity_view = author_identity@;
    author_row.append(&mut author_identity);
    let ghost author_view = line_view(author_row@);
    assert(author_view =~= seq![label_piece("Author"@)] + line_view(author_identity_view));
    lines.push(author_row);
    let ghost head: Seq<RowView> = seq![commit_view, author_view];
    assert(lines@.map_values(|r: Vec<StyledText>| line_view(r@)) =~= head);
    if entry.has_distinct_committer() {
        let mut committer_row: Vec<StyledText> = Vec::new();
        committer_row.push(piece(label_text("Committer"), colored(ThemeColor::LogDate)));
        let mut committer_identity = identity_spans(&entry.committer_name, &entry.committer_email, &entry.committer_time);
        let ghost committer_identity_view = committer_identity@;
        committer_row.append(&mut committer_identity);
        let ghost committer_view = line_view(committer_row@);
        assert(committer_view =~= seq![label_piece("Committer"@)] + line_view(committer_identity_view));
        lines.push(committer_row);
        assert(lines@.map_values(|r: Vec<StyledText>| line_view(r@)) =~= head.push(committer_view));
    }
    let ghost before_blank = lines@.map_values(|r: Vec<StyledText>| line_view(r@));
    let blank: Vec<StyledText> = Vec::new();
    assert(line_view(blank@) =~= Seq::empty());
    lines.push(blank);
    assert(lines@.map_values(|r: Vec<StyledText>| line_view(r@)) =~= before_blank.push(Seq::empty()));
    let ghost before_message = lines@.map_values(|r: Vec<StyledText>| line_view(r@));
    let message = commit_message_lines(entry.message.as_str());
    let ghost msg = message_lines_spec(entry.message@);
    let mut i: usize = 0;
    while i < message.len()
        invariant
            i <= message@.len(),
            message@.map_values(|l: String| l@) == msg,
            lines@.map_values(|r: Vec<StyledText>| line_view(r@)) == before_message + msg.take(i as int).map_values(
                |l: Seq<char>| seq![("      "@ + l, colored_spec(ThemeColor::DiffContext))],
            ),
        decreases message.len() - i,
    {
        let ghost prev = lines@.map_values(|r: Vec<StyledText>| line_view(r@));
        let mut text = owned("      ");
        push_str(&mut text, message[i].as_str());
        let mut row: Vec<StyledText> = Vec::new();
        row.push(piece(text, colored(ThemeColor::DiffContext)));
        let ghost row_view = line_view(row@);
        lines.push(row);
        assert(msg[i as int] == message@[i as int]@);
        assert(row_view =~= seq![("      "@ + msg[i as int], colored_spec(ThemeColor::DiffContext))]);
        assert(msg.take(i + 1) =~= msg.take(i as int).push(msg[i as int]));
        assert(msg.take(i + 1).map_values(|l: Seq<char>| seq![("      "@ + l, colored_spec(ThemeColor::DiffContext))])
            =~= msg.take(i as int).map_values(|l: Seq<char>| seq![("      "@ + l, colored_spec(ThemeColor::DiffContext))]).push(
            seq![("      "@ + msg[i as int], colored_spec(ThemeColor::DiffContext))]));
        assert(lines@.map_values(|r: Vec<StyledText>| line_view(r@)) =~= prev.push(row_view));
        assert(lines@.map_values(|r: Vec<StyledText>| line_view(r@)) =~= before_message + msg.take(i + 1).map_values(
            |l: Seq<char>| seq![("      "@ + l, colored_spec(ThemeColor::DiffContext))],
        ));
        i += 1;
    }
    assert(message@.map_values(|l: String| l@).len() == message@.len());
    assert(msg.take(msg.len() as int) =~= msg);
    let ghost committer_rows: Seq<RowView> = if distinct_committer(entry) {
        seq![seq![label_piece("Committer"@)] + identity_pieces(entry.committer_name@, entry.committer_email@, entry.committer_time)]
    } else {
        Seq::empty()
    };
    assert(before_message =~= seq![commit_view, author_view] + committer_rows + seq![Seq::empty()]);
    assert(lines@.map_values(|r: Vec<StyledText>| line_view(r@)) =~= metadata_rows(entry));
    lines
}

/// The metadata block takes as many rows as its count says.
pub proof fn lemma_metadata_rows_counted(entry: &LogEntry)
    ensures
        metadata_rows(entry).len() == metadata_line_count_spec(entry),
{
}

/// The drawn log list: its rows and the selected row.
pub struct LogListModel {
    pub rows: Seq<RowView>,
    pub selected: Option<usize>,
}

/// The log list as drawn.
pub struct LogList {
    pub rows: Vec<Vec<StyledText>>,
    pub selected: Option<usize>,
}

impl View for LogList {
    type V = LogListModel;

    open spec fn view(&self) -> LogListModel {
        LogListModel { rows: self.rows@.map_values(|r: Vec<StyledText>| line_view(r@)), selected: self.selected }
    }
}

/// What every row of the log list depends on: the navigation, how diff
/// lines are drawn, and the time now (seconds since the epoch).
pub struct LogRowContext {
    pub nav: LogNavigationModel,
    pub settings: DiffRenderSettings,
    pub now: i64,
}

/// The list with rows added.
pub open spec fn log_add_rows(list: LogListModel, rows: Seq<RowView>) -> LogListModel {
    LogListModel { rows: list.rows + rows, ..list }
}

/// The selection style for a selected piece, `style` otherwise.
pub open spec fn selectable(selected: bool, style: TextStyle) -> TextStyle {
    if selected { selected_spec() } else { style }
}

/// The row of a commit: the selection marker, its icon, short hash,
/// summary, author and how long ago it was made.
pub open spec fn commit_line(entry: &LogEntry, selected: bool, icon: Seq<char>, now: int) -> RowView {
    seq![
        (if selected { "> "@ } else { "  "@ }, selectable(selected, plain_spec())),
        (icon + " "@, selectable(selected, colored_spec(ThemeColor::LogDate))),
        (entry.short_hash@, selectable(selected, colored_spec(ThemeColor::LogHash))),
        (" "@, selectable(selected, plain_spec())),
        (entry.summary@, selectable(selected, colored_spec(ThemeColor::DiffContext))),
        (" "@, selectable(selected, plain_spec())),
        (entry.author_name@, selectable(selected, colored_spec(ThemeColor::LogAuthor))),
        (" "@, selectable(selected, plain_spec())),
        (relative_time_text(now - entry.time.seconds), selectable(selected, colored_spec(ThemeColor::LogDate))),
    ]
}

/// The color a change is listed in.
pub open spec fn change_color(change: CommitChangeType) -> ThemeColor {
    match change {
        CommitChangeType::Added => ThemeColor::Staged,
        CommitChangeType::Deleted => ThemeColor::Unstaged,
        CommitChangeType::Modified => ThemeColor::DiffContext,
        CommitChangeType::Renamed => ThemeColor::Untracked,
        CommitChangeType::Other => ThemeColor::DiffContext,
    }
}

/// The row of a changed file: the selection marker, its icon, its change
/// letter and its path.
pub open spec fn file_line(change: CommitFileChange, selected: bool, expanded: bool) -> RowView {
    seq![
        (if selected { "  > "@ } else { "    "@ }, selectable(selected, plain_spec())),
        (collapse_icon(!expanded) + " "@, selectable(selected, colored_spec(ThemeColor::LogDate))),
        (seq![change_letter(change.change_type)] + " "@, selectable(selected, colored_spec(change_color(change.change_type)))),
        (change.path@, selectable(selected, colored_spec(ThemeColor::DiffContext))),
    ]
}

/// The list with hunk `h` of the diff of file `fi` of commit `ci` added:
/// its header (selected when the cursor is on it), its lines unless it is
/// collapsed, and a blank separator when the diff has several hunks.
pub open spec fn log_add_hunk(list: LogListModel, nav: LogNavigationModel, settings: DiffRenderSettings, ci: usize, fi: usize, diff: Diff, h: int) -> LogListModel {
    let hunk = diff.hunks@[h];
    let start = list.rows.len();
    let selected = nav.cursor == Some(LogCursor::Hunk { commit_index: ci, file_index: fi, hunk_index: h as usize });
    let collapsed = nav.expansions.contains_key(ci) && hunk_collapsed_in(nav.expansions[ci], fi, h as usize);
    let marked = if selected { LogListModel { selected: Some(start as usize), ..list } } else { list };
    let header: RowView = seq![
        ("      "@ + collapse_icon(collapsed) + " "@ + hunk.header.raw@, selectable(selected, hunk_header_style())),
    ];
    let lines: Seq<RowView> = if collapsed {
        Seq::empty()
    } else {
        hunk.lines@.map_values(|l: DiffLine| diff_line_pieces(l, number_widths(diff, settings), selected, Some("        "@), settings.tab_width as nat))
    };
    let separator: Seq<RowView> = if diff.hunks@.len() > 1 { seq![Seq::empty()] } else { Seq::empty() };
    log_add_rows(marked, seq![header] + lines + separator)
}

/// The list with the first `k` hunks of a file's diff added.
pub open spec fn log_add_hunks(list: LogListModel, nav: LogNavigationModel, settings: DiffRenderSettings, ci: usize, fi: usize, diff: Diff, k: int) -> LogListModel
    decreases k,
{
    if k <= 0 {
        list
    } else {
        log_add_hunk(log_add_hunks(list, nav, settings, ci, fi, diff, k - 1), nav, settings, ci, fi, diff, k - 1)
    }
}

/// The list with a file's diff added: a note for a binary file, its hunks otherwise.
pub open spec fn log_add_file_diff(list: LogListModel, nav: LogNavigationModel, settings: DiffRenderSettings, ci: usize, fi: usize, diff: Diff) -> LogListModel {
    if diff.binary {
        log_add_rows(list, seq![note_row("      Binary file (not shown)"@)])
    } else {
        log_add_hunks(list, nav, settings, ci, fi, diff, diff.hunks@.len() as int)
    }
}

/// The list with file `f` of an expanded commit `ci` added: its row, then
/// its diff when it is expanded and loaded.
pub open spec fn log_add_file(list: LogListModel, nav: LogNavigationModel, settings: DiffRenderSettings, ci: usize, exp: CommitExpansion, f: int) -> LogListModel {
    let selected = nav.cursor == Some(LogCursor::File { commit_index: ci, file_index: f as usize });
    let index = list.rows.len();
    let marked = if selected { LogListModel { selected: Some(index as usize), ..list } } else { list };
    let expanded = exp.expanded_files@.contains(f as usize);
    let after = log_add_rows(marked, seq![file_line(exp.files@[f], selected, expanded)]);
    if expanded && exp.file_diffs@.contains_key(f as usize) {
        log_add_file_diff(after, nav, settings, ci, f as usize, exp.file_diffs@[f as usize])
    } else {
        after
    }
}

/// The list with the first `k` files of an expanded commit added.
pub open spec fn log_add_files(list: LogListModel, nav: LogNavigationModel, settings: DiffRenderSettings, ci: usize, exp: CommitExpansion, k: int) -> LogListModel
    decreases k,
{
    if k <= 0 {
        list
    } else {
        log_add_file(log_add_files(list, nav, settings, ci, exp, k - 1), nav, settings, ci, exp, k - 1)
    }
}

/// The list with commit `i` added: its row, then, when it is expanded, its
/// metadata block and its files.
pub open spec fn log_add_commit(list: LogListModel, ctx: LogRowContext, entries: Seq<LogEntry>, i: int) -> LogListModel {
    let entry = entries[i];
    let selected = ctx.nav.cursor == Some(LogCursor::Commit { index: i as usize });
    let index = list.rows.len();
    let marked = if selected { LogListModel { selected: Some(index as usize), ..list } } else { list };
    let expanded = ctx.nav.expansions.contains_key(i as usize) && ctx.nav.expansions[i as usize].expanded;
    let after = log_add_rows(marked, seq![commit_line(&entry, selected, collapse_icon(!expanded), ctx.now as int)]);
    if expanded {
        let exp = ctx.nav.expansions[i as usize];
        log_add_files(log_add_rows(after, metadata_rows(&entry)), ctx.nav, ctx.settings, i as usize, exp, exp.files@.len() as int)
    } else {
        after
    }
}

/// The list with the first `k` commits added.
pub open spec fn log_add_commits(list: LogListModel, ctx: LogRowContext, entries: Seq<LogEntry>, k: int) -> LogListModel
    decreases k,
{
    if k <= 0 {
        list
    } else {
        log_add_commit(log_add_commits(list, ctx, entries, k - 1), ctx, entries, k - 1)
    }
}

/// The whole log list: each commit with what it shows, then a row asking to
/// scroll for more when more commits can be loaded.
pub open spec fn log_list(data: &LogData, ctx: LogRowContext) -> LogListModel {
    let commits = log_add_commits(LogListModel { rows: Seq::empty(), selected: None }, ctx, data.entries@, data.entries@.len() as int);
    if data.has_more {
        log_add_rows(commits, seq![seq![("  ... (scroll down to load more)"@, colored_spec(ThemeColor::LogDate))]])
    } else {
        commits
    }
}

/// The log can be drawn at time `now`: each commit's age is an `i64`, the
/// times of expanded commits can be formatted, and every loaded diff can be
/// drawn.
pub open spec fn log_drawable(entries: Seq<LogEntry>, nav: LogNavigationModel, tab_width: nat, now: i64) -> bool {
    &&& forall|i: int| 0 <= i < entries.len() ==> i64::MIN <= now - (#[trigger] entries[i]).time.seconds <= i64::MAX
    &&& forall|i: int|
        0 <= i < entries.len() && nav.expansions.contains_key(i as usize) && nav.expansions[i as usize].expanded
            ==> time_formattable((#[trigger] entries[i]).time) && time_formattable(entries[i].committer_time)
    &&& log_diffs_drawable(nav, tab_width)
}

/// Every diff loaded in the log's expansions can be drawn.
pub open spec fn log_diffs_drawable(nav: LogNavigationModel, tab_width: nat) -> bool {
    forall|ci: usize, f: usize|
        nav.expansions.contains_key(ci) && #[trigger] nav.expansions[ci].file_diffs@.contains_key(f) ==> diff_drawable(
            nav.expansions[ci].file_diffs@[f].hunks@,
            tab_width,
        )
}

fn log_push_row(list: &mut LogList, row: Vec<StyledText>)
    ensures
        final(list)@ == log_add_rows(old(list)@, seq![line_view(row@)]),
{
    let ghost before = list@;
    let ghost row_view = line_view(row@);
    list.rows.push(row);
    assert(list@.rows =~= before.rows + seq![row_view]);
}

fn selection(selected: bool, style: TextStyle) -> (result: TextStyle)
    ensures
        result == selectable(selected, style),
{
    if selected { selected_style() } else { style }
}

/// Draws the commit log.
pub struct LogView<'a> {
    log_data: &'a LogData,
    navigation: &'a LogNavigationState,
    settings: DiffRenderSettings,
}

impl<'a> LogView<'a> {
    /// The log drawn.
    pub closed spec fn log_data_spec(&self) -> &'a LogData {
        self.log_data
    }

    /// The navigation the list follows.
    pub closed spec fn navigation_spec(&self) -> &'a LogNavigationState {
        self.navigation
    }

    /// How diff lines are drawn.
    pub closed spec fn settings_spec(&self) -> DiffRenderSettings {
        self.settings
    }

    pub fn new(log_data: &'a LogData, navigation: &'a LogNavigationState, settings: DiffRenderSettings) -> (view: Self)
        ensures
            view.log_data_spec() == log_data,
            view.navigation_spec() == navigation,
            view.settings_spec() == settings,
    {
        Self { log_data, navigation, settings }
    }

    /// Draws the row of a commit, `now` being the time in seconds since the epoch.
    pub fn format_commit_line(&self, entry: &LogEntry, is_selected: bool, expand_icon: &str, now: i64) -> (spans: Vec<StyledText>)
        requires
            i64::MIN <= now - entry.time.seconds <= i64::MAX,
        ensures
            line_view(spans@) == commit_line(entry, is_selected, expand_icon@, now as int),
    {
        let mut spans: Vec<StyledText> = Vec::new();
        spans.push(piece(owned(if is_selected { "> " } else { "  " }), selection(is_selected, plain())));
        let mut icon = owned(expand_icon);
        push_str(&mut icon, " ");
        spans.push(piece(icon, selection(is_selected, colored(ThemeColor::LogDate))));
        spans.push(piece(entry.short_hash.clone(), selection(is_selected, colored(ThemeColor::LogHash))));
        spans.push(piece(owned(" "), selection(is_selected, plain())));
        spans.push(piece(entry.summary.clone(), selection(is_selected, colored(ThemeColor::DiffContext))));
        spans.push(piece(owned(" "), selection(is_selected, plain())));
        spans.push(piece(entry.author_name.clone(), selection(is_selected, colored(ThemeColor::LogAuthor))));
        spans.push(piece(owned(" "), selection(is_selected, plain())));
        spans.push(piece(relative_time(now, entry.time.seconds), selection(is_selected, colored(ThemeColor::LogDate))));
        assert(line_view(spans@) =~= commit_line(entry, is_selected, expand_icon@, now as int));
        spans
    }

    /// Draws the row of a changed file.
    pub fn format_file_line(&self, file_change: &CommitFileChange, is_selected: bool, is_expanded: bool) -> (spans: Vec<StyledText>)
        ensures
            line_view(spans@) == file_line(*file_change, is_selected, is_expanded),
    {
        let change_color = match file_change.change_type {
            CommitChangeType::Added => ThemeColor::Staged,
            CommitChangeType::Deleted => ThemeColor::Unstaged,
            CommitChangeType::Modified => ThemeColor::DiffContext,
            CommitChangeType::Renamed => ThemeColor::Untracked,
            CommitChangeType::Other => ThemeColor::DiffContext,
        };
        let mut spans: Vec<StyledText> = Vec::new();
        spans.push(piece(owned(if is_selected { "  > " } else { "    " }), selection(is_selected, plain())));
        let mut icon = owned(if is_expanded { "▾" } else { "▸" });
        push_str(&mut icon, " ");
        spans.push(piece(icon, selection(is_selected, colored(ThemeColor::LogDate))));
        let mut change = file_change.change_type.to_display_string();
        push_str(&mut change, " ");
        spans.push(piece(change, selection(is_selected, colored(change_color))));
        spans.push(piece(file_change.path.clone(), selection(is_selected, colored(ThemeColor::DiffContext))));
        assert(line_view(spans@) =~= file_line(*file_change, is_selected, is_expanded));
        spans
    }

    /// Adds the rows of a file's diff: a note for a binary file, else each
    /// hunk's header, its lines unless collapsed, and a separator between
    /// hunks; marks the selected hunk.
    fn add_inline_diff_items(&self, list: &mut LogList, diff: &Diff, commit_idx: usize, file_idx: usize)
        requires
            diff_drawable(diff.hunks@, self.settings_spec().tab_width as nat),
        ensures
            final(list)@ == log_add_file_diff(old(list)@, self.navigation_spec()@, self.settings_spec(), commit_idx, file_idx, *diff),
    {
        let ghost nav = self.navigation_spec()@;
        if diff.binary {
            let mut row: Vec<StyledText> = Vec::new();
            row.push(piece(owned("      Binary file (not shown)"), TextStyle { fg: Some(ThemeColor::DiffNoNewline), italic: true, ..plain() }));
            assert(line_view(row@) =~= note_row("      Binary file (not shown)"@));
            log_push_row(list, row);
            return;
        }
        let cursor = self.navigation.current_cursor();
        let renderer = DiffRenderer::new(self.settings);
        let widths = if self.settings.show_line_numbers {
            Some(DiffRenderer::calculate_line_number_widths(diff))
        } else {
            None
        };
        let ghost start_list = list@;
        let mut hunk_idx: usize = 0;
        while hunk_idx < diff.hunks.len()
            invariant
                hunk_idx <= diff.hunks@.len(),
                !diff.binary,
                diff_drawable(diff.hunks@, self.settings_spec().tab_width as nat),
                nav == self.navigation_spec()@,
                cursor == nav.cursor,
                renderer.settings == self.settings_spec(),
                widths == number_widths(*diff, self.settings_spec()),
                list@ == log_add_hunks(start_list, nav, self.settings_spec(), commit_idx, file_idx, *diff, hunk_idx as int),
            decreases diff.hunks.len() - hunk_idx,
        {
            let hunk = &diff.hunks[hunk_idx];
            let is_collapsed = self.navigation.is_hunk_collapsed(commit_idx, file_idx, hunk_idx);
            let is_hunk_selected = match cursor {
                Some(LogCursor::Hunk { commit_index, file_index, hunk_index }) => commit_index == commit_idx && file_index == file_idx && hunk_index == hunk_idx,
                _ => false,
            };
            let ghost before = list@;
            let start = list.rows.len();
            if is_hunk_selected {
                list.selected = Some(start);
            }
            let mut header_text = owned("      ");
            push_str(&mut header_text, if is_collapsed { "▸" } else { "▾" });
            push_str(&mut header_text, " ");
            push_str(&mut header_text, hunk.header.raw.as_str());
            let ghost header_view = header_text@;
            let header_style = selection(is_hunk_selected, TextStyle { base: BaseStyle::HunkHeader, ..plain() });
            let mut header: Vec<StyledText> = Vec::new();
            header.push(piece(header_text, header_style));
            assert(line_view(header@) =~= seq![(header_view, header_style)]);
            log_push_row(list, header);
            let ghost with_header = list@;
            if !is_collapsed {
                let mut l: usize = 0;
                while l < hunk.lines.len()
                    invariant
                        hunk_idx < diff.hunks@.len(),
                        *hunk == diff.hunks@[hunk_idx as int],
                        l <= hunk.lines@.len(),
                        diff_drawable(diff.hunks@, self.settings_spec().tab_width as nat),
                        renderer.settings == self.settings_spec(),
                        widths == number_widths(*diff, self.settings_spec()),
                        list@ == log_add_rows(with_header, hunk.lines@.take(l as int).map_values(|dl: DiffLine| diff_line_pieces(dl, number_widths(*diff, self.settings_spec()), is_hunk_selected, Some("        "@), self.settings_spec().tab_width as nat))),
                    decreases hunk.lines.len() - l,
                {
                    let row = renderer.format_diff_line(&hunk.lines[l], widths.as_ref(), is_hunk_selected, Some("        "));
                    log_push_row(list, row);
                    assert(hunk.lines@.take(l + 1).map_values(|dl: DiffLine| diff_line_pieces(dl, number_widths(*diff, self.settings_spec()), is_hunk_selected, Some("        "@), self.settings_spec().tab_width as nat))
                        =~= hunk.lines@.take(l as int).map_values(|dl: DiffLine| diff_line_pieces(dl, number_widths(*diff, self.settings_spec()), is_hunk_selected, Some("        "@), self.settings_spec().tab_width as nat)).push(
                            diff_line_pieces(hunk.lines@[l as int], number_widths(*diff, self.settings_spec()), is_hunk_selected, Some("        "@), self.settings_spec().tab_width as nat)));
                    assert(list@.rows =~= log_add_rows(with_header, hunk.lines@.take(l + 1).map_values(|dl: DiffLine| diff_line_pieces(dl, number_widths(*diff, self.settings_spec()), is_hunk_selected, Some("        "@), self.settings_spec().tab_width as nat))).rows);
                    l += 1;
                }
                assert(hunk.lines@.take(hunk.lines@.len() as int) =~= hunk.lines@);
            }
            let ghost lines_spec: Seq<RowView> = if is_collapsed {
                Seq::empty()
            } else {
                hunk.lines@.map_values(|dl: DiffLine| diff_line_pieces(dl, number_widths(*diff, self.settings_spec()), is_hunk_selected, Some("        "@), self.settings_spec().tab_width as nat))
            };
            assert(list@.rows =~= with_header.rows + lines_spec);
            let ghost with_lines = list@;
            if diff.hunks.len() > 1 {
                let empty: Vec<StyledText> = Vec::new();
                assert(line_view(empty@) =~= Seq::empty());
                log_push_row(list, empty);
            }
            let ghost separator: Seq<RowView> = if diff.hunks@.len() > 1 { seq![Seq::empty()] } else { Seq::empty() };
            assert(list@.rows =~= with_lines.rows + separator);
            proof {
                let target = log_add_hunk(before, nav, self.settings_spec(), commit_idx, file_idx, *diff, hunk_idx as int);
                let collapsed = nav.expansions.contains_key(commit_idx) && hunk_collapsed_in(nav.expansions[commit_idx], file_idx, hunk_idx);
                assert(collapsed == is_collapsed);
                let sel = nav.cursor == Some(LogCursor::Hunk { commit_index: commit_idx, file_index: file_idx, hunk_index: hunk_idx });
                assert(sel == is_hunk_selected);
                assert(with_header.rows =~= before.rows + seq![seq![("      "@ + collapse_icon(collapsed) + " "@ + hunk.header.raw@, selectable(sel, hunk_header_style()))]]);
                assert(list@.rows =~= target.rows);
            }
            hunk_idx += 1;
        }
    }

    /// Adds the rows of the files of an expanded commit, each followed by its
    /// diff when expanded and loaded; marks the selected file.
    fn add_file_items(&self, list: &mut LogList, commit_idx: usize, expansion: &CommitExpansion)
        requires
            self.navigation_spec()@.expansions.contains_key(commit_idx),
            *expansion == self.navigation_spec()@.expansions[commit_idx],
            log_diffs_drawable(self.navigation_spec()@, self.settings_spec().tab_width as nat),
        ensures
            final(list)@ == log_add_files(old(list)@, self.navigation_spec()@, self.settings_spec(), commit_idx, *expansion, expansion.files@.len() as int),
    {
        let ghost nav = self.navigation_spec()@;
        let cursor = self.navigation.current_cursor();
        let ghost start_list = list@;
        let mut file_idx: usize = 0;
        while file_idx < expansion.files.len()
            invariant
                file_idx <= expansion.files@.len(),
                nav == self.navigation_spec()@,
                nav.expansions.contains_key(commit_idx),
                *expansion == nav.expansions[commit_idx],
                cursor == nav.cursor,
                log_diffs_drawable(nav, self.settings_spec().tab_width as nat),
                list@ == log_add_files(start_list, nav, self.settings_spec(), commit_idx, *expansion, file_idx as int),
            decreases expansion.files.len() - file_idx,
        {
            let ghost before = list@;
            let is_file_selected = match cursor {
                Some(LogCursor::File { commit_index, file_index }) => commit_index == commit_idx && file_index == file_idx,
                _ => false,
            };
            if is_file_selected {
                list.selected = Some(list.rows.len());
            }
            let file_expanded = self.navigation.is_file_expanded(commit_idx, file_idx);
            let file_line = self.format_file_line(&expansion.files[file_idx], is_file_selected, file_expanded);
            log_push_row(list, file_line);
            if file_expanded {
                match expansion.file_diffs.get(&file_idx) {
                    Some(diff) => {
                        assert(nav.expansions[commit_idx].file_diffs@.contains_key(file_idx));
                        self.add_inline_diff_items(list, diff, commit_idx, file_idx);
                    },
                    None => {},
                }
            }
            file_idx += 1;
        }
    }

    /// Adds the row of commit `commit_idx`, then, when it is expanded, its
    /// metadata block and its files; marks the row when the cursor is on it.
    fn add_commit_items(&self, list: &mut LogList, commit_idx: usize, now: i64)
        requires
            commit_idx < self.log_data_spec().entries@.len(),
            log_drawable(self.log_data_spec().entries@, self.navigation_spec()@, self.settings_spec().tab_width as nat, now),
        ensures
            final(list)@ == log_add_commit(
                old(list)@,
                LogRowContext { nav: self.navigation_spec()@, settings: self.settings_spec(), now },
                self.log_data_spec().entries@,
                commit_idx as int,
            ),
    {
        let ghost ctx = LogRowContext { nav: self.navigation_spec()@, settings: self.settings_spec(), now };
        let ghost entries = self.log_data.entries@;
        let cursor = self.navigation.current_cursor();
        let entry = &self.log_data.entries[commit_idx];
        let is_selected = match cursor {
            Some(LogCursor::Commit { index }) => index == commit_idx,
            _ => false,
        };
        if is_selected {
            list.selected = Some(list.rows.len());
        }
        let expanded = self.navigation.is_commit_expanded(commit_idx);
        let expand_icon = if expanded { "▾" } else { "▸" };
        assert(i64::MIN <= now - entries[commit_idx as int].time.seconds <= i64::MAX);
        let line = self.format_commit_line(entry, is_selected, expand_icon, now);
        log_push_row(list, line);
        if expanded {
            match self.navigation.get_expansion(commit_idx) {
                Some(expansion) => {
                    assert(time_formattable(entries[commit_idx as int].time));
                    let metadata = commit_metadata_lines(entry);
                    let ghost metadata_view = metadata@.map_values(|r: Vec<StyledText>| line_view(r@));
                    let ghost before_metadata = list@;
                    for row in it: metadata
                        invariant
                            it.seq().map_values(|r: Vec<StyledText>| line_view(r@)) == metadata_view,
                            list@ == log_add_rows(before_metadata, metadata_view.take(it.index() as int)),
                    {
                        log_push_row(list, row);
                        assert(metadata_view.take(it.index() + 1) =~= metadata_view.take(it.index() as int).push(metadata_view[it.index() as int]));
                        assert(list@.rows =~= log_add_rows(before_metadata, metadata_view.take(it.index() + 1)).rows);
                    }
                    assert(metadata_view.take(metadata_view.len() as int) =~= metadata_view);
                    self.add_file_items(list, commit_idx, expansion);
                },
                None => {},
            }
        }
    }

    /// The rows of the log list and the selected row, at time `now`: each
    /// commit's row, then for an expanded commit its metadata block and its
    /// files; a row asking to scroll for more when more can be loaded.
    pub fn list_items(&self, now: i64) -> (list: LogList)
        requires
            log_drawable(self.log_data_spec().entries@, self.navigation_spec()@, self.settings_spec().tab_width as nat, now),
        ensures
            list@ == log_list(self.log_data_spec(), LogRowContext { nav: self.navigation_spec()@, settings: self.settings_spec(), now }),
    {
        let ghost ctx = LogRowContext { nav: self.navigation_spec()@, settings: self.settings_spec(), now };
        let ghost entries = self.log_data.entries@;
        let mut list = LogList { rows: Vec::new(), selected: None };
        assert(list@.rows =~= Seq::empty());
        let mut commit_idx: usize = 0;
        while commit_idx < self.log_data.entries.len()
            invariant
                commit_idx <= entries.len(),
                entries == self.log_data_spec().entries@,
                ctx == (LogRowContext { nav: self.navigation_spec()@, settings: self.settings_spec(), now }),
                log_drawable(entries, ctx.nav, self.settings_spec().tab_width as nat, now),
                list@ == log_add_commits(LogListModel { rows: Seq::empty(), selected: None }, ctx, entries, commit_idx as int),
            decreases entries.len() - commit_idx,
        {
            self.add_commit_items(&mut list, commit_idx, now);
            commit_idx += 1;
        }
        if self.log_data.has_more {
            let mut row: Vec<StyledText> = Vec::new();
            row.push(piece(owned("  ... (scroll down to load more)"), colored(ThemeColor::LogDate)));
            assert(line_view(row@) =~= seq![("  ... (scroll down to load more)"@, colored_spec(ThemeColor::LogDate))]);
            log_push_row(&mut list, row);
        }
        list
    }
}

/// No diff the log list shows is binary (a binary diff is shown as a note
/// row, which the cursor's row accounting does not count).
pub open spec fn no_binary_shown(nav: LogNavigationModel, n: nat) -> bool {
    forall|ci: usize, f: usize|
        ci < n && nav.expansions.contains_key(ci) && nav.expansions[ci].expanded && f
            < nav.expansions[ci].files@.len() && #[trigger] file_diff_shown(nav.expansions[ci], f)
            ==> !nav.expansions[ci].file_diffs@[f].binary
}

proof fn lemma_log_hunks_shape(list: LogListModel, nav: LogNavigationModel, settings: DiffRenderSettings, ci: usize, fi: usize, diff: Diff, k: int)
    requires
        nav.expansions.contains_key(ci),
        0 <= k <= diff.hunks@.len(),
    ensures
        log_add_hunks(list, nav, settings, ci, fi, diff, k).rows.len() == list.rows.len() + hunk_rows_before(
            nav.expansions[ci],
            fi,
            diff,
            k,
        ),
        log_add_hunks(list, nav, settings, ci, fi, diff, k).selected == match nav.cursor {
            Some(LogCursor::Hunk { commit_index, file_index, hunk_index }) => if commit_index == ci && file_index == fi
                && hunk_index < k {
                Some((list.rows.len() + hunk_rows_before(nav.expansions[ci], fi, diff, hunk_index as int)) as usize)
            } else {
                list.selected
            },
            _ => list.selected,
        },
    decreases k,
{
    assert(diff.hunks@.len() == diff.hunks.len());
    if k > 0 {
        lemma_log_hunks_shape(list, nav, settings, ci, fi, diff, k - 1);
        let before = log_add_hunks(list, nav, settings, ci, fi, diff, k - 1);
        let hunk = diff.hunks@[k - 1];
        let collapsed = nav.expansions.contains_key(ci) && hunk_collapsed_in(nav.expansions[ci], fi, (k - 1) as usize);
        let selected = nav.cursor == Some(LogCursor::Hunk { commit_index: ci, file_index: fi, hunk_index: (k - 1) as usize });
        let lines: Seq<RowView> = if collapsed {
            Seq::empty()
        } else {
            hunk.lines@.map_values(|l: DiffLine| diff_line_pieces(l, number_widths(diff, settings), selected, Some("        "@), settings.tab_width as nat))
        };
        assert(lines.len() == if collapsed { 0 } else { hunk.lines@.len() });
    }
}

proof fn lemma_log_file_shape(list: LogListModel, nav: LogNavigationModel, settings: DiffRenderSettings, ci: usize, exp: CommitExpansion, f: int)
    requires
        nav.expansions.contains_key(ci),
        exp == nav.expansions[ci],
        0 <= f < exp.files@.len(),
        file_diff_shown(exp, f as usize) ==> !exp.file_diffs@[f as usize].binary,
    ensures
        log_add_file(list, nav, settings, ci, exp, f).rows.len() == list.rows.len() + file_rows(exp, f),
        log_add_file(list, nav, settings, ci, exp, f).selected == match nav.cursor {
            Some(LogCursor::File { commit_index, file_index }) => if commit_index == ci && file_index == f {
                Some(list.rows.len() as usize)
            } else {
                list.selected
            },
            Some(LogCursor::Hunk { commit_index, file_index, hunk_index }) => if commit_index == ci && file_index == f
                && file_diff_shown(exp, f as usize) && hunk_index < exp.file_diffs@[f as usize].hunks@.len() {
                Some((list.rows.len() + 1 + hunk_rows_before(exp, f as usize, exp.file_diffs@[f as usize], hunk_index as int)) as usize)
            } else {
                list.selected
            },
            _ => list.selected,
        },
{
    assert(exp.files@.len() == exp.files.len());
    assert(exp.files@.len() == exp.files.len());
    let selected = nav.cursor == Some(LogCursor::File { commit_index: ci, file_index: f as usize });
    let index = list.rows.len();
    let marked = if selected { LogListModel { selected: Some(index as usize), ..list } } else { list };
    let expanded = exp.expanded_files@.contains(f as usize);
    let after = log_add_rows(marked, seq![file_line(exp.files@[f], selected, expanded)]);
    if expanded && exp.file_diffs@.contains_key(f as usize) {
        let diff = exp.file_diffs@[f as usize];
        lemma_log_hunks_shape(after, nav, settings, ci, f as usize, diff, diff.hunks@.len() as int);
    }
}

proof fn lemma_log_files_shape(list: LogListModel, nav: LogNavigationModel, settings: DiffRenderSettings, ci: usize, exp: CommitExpansion, k: int)
    requires
        nav.expansions.contains_key(ci),
        exp == nav.expansions[ci],
        0 <= k <= exp.files@.len(),
        forall|f: usize| f < k && #[trigger] file_diff_shown(exp, f) ==> !exp.file_diffs@[f].binary,
    ensures
        log_add_files(list, nav, settings, ci, exp, k).rows.len() == list.rows.len() + file_rows_before(exp, k),
        log_add_files(list, nav, settings, ci, exp, k).selected == match nav.cursor {
            Some(LogCursor::File { commit_index, file_index }) => if commit_index == ci && file_index < k {
                Some((list.rows.len() + file_rows_before(exp, file_index as int)) as usize)
            } else {
                list.selected
            },
            Some(LogCursor::Hunk { commit_index, file_index, hunk_index }) => if commit_index == ci && file_index < k
                && file_diff_shown(exp, file_index) && hunk_index < exp.file_diffs@[file_index].hunks@.len() {
                Some((list.rows.len() + file_rows_before(exp, file_index as int) + 1 + hunk_rows_before(
                    exp,
                    file_index,
                    exp.file_diffs@[file_index],
                    hunk_index as int,
                )) as usize)
            } else {
                list.selected
            },
            _ => list.selected,
        },
    decreases k,
{
    assert(exp.files@.len() == exp.files.len());
    if k > 0 {
        lemma_log_files_shape(list, nav, settings, ci, exp, k - 1);
        let before = log_add_files(list, nav, settings, ci, exp, k - 1);
        assert(file_diff_shown(exp, (k - 1) as usize) ==> !exp.file_diffs@[(k - 1) as usize].binary);
        lemma_log_file_shape(before, nav, settings, ci, exp, k - 1);
    }
}

/// The cursor's row among the first `k` commits, where it is there and shown.
pub open spec fn flat_index_below(exps: Map<usize, CommitExpansion>, entries: Seq<LogEntry>, cursor: Option<LogCursor>, k: int) -> Option<usize> {
    let target = match cursor {
        Some(LogCursor::Commit { index }) => index as int,
        Some(LogCursor::File { commit_index, .. }) => commit_index as int,
        Some(LogCursor::Hunk { commit_index, .. }) => commit_index as int,
        None => k,
    };
    if target < k {
        match flat_index_spec(exps, entries, cursor) {
            Some(n) => Some(n as usize),
            None => None,
        }
    } else {
        None
    }
}

proof fn lemma_log_commit_shape(list: LogListModel, ctx: LogRowContext, entries: Seq<LogEntry>, i: int)
    requires
        0 <= i < entries.len() <= usize::MAX,
        no_binary_shown(ctx.nav, entries.len()),
    ensures
        log_add_commit(list, ctx, entries, i).rows.len() == list.rows.len() + commit_rows(ctx.nav.expansions, entries, i),
        ({
            let exps = ctx.nav.expansions;
            let rows_before = list.rows.len();
            let expanded = exps.contains_key(i as usize) && exps[i as usize].expanded;
            log_add_commit(list, ctx, entries, i).selected == match ctx.nav.cursor {
                Some(LogCursor::Commit { index }) => if index == i { Some(rows_before as usize) } else { list.selected },
                Some(LogCursor::File { commit_index, file_index }) => if commit_index == i && expanded && file_index
                    < exps[i as usize].files@.len() {
                    Some((rows_before + 1 + metadata_line_count_spec(&entries[i]) + file_rows_before(exps[i as usize], file_index as int)) as usize)
                } else {
                    list.selected
                },
                Some(LogCursor::Hunk { commit_index, file_index, hunk_index }) => if commit_index == i && expanded
                    && file_index < exps[i as usize].files@.len() && file_diff_shown(exps[i as usize], file_index)
                    && hunk_index < exps[i as usize].file_diffs@[file_index].hunks@.len() {
                    Some((rows_before + 1 + metadata_line_count_spec(&entries[i]) + file_rows_before(exps[i as usize], file_index as int) + 1
                        + hunk_rows_before(exps[i as usize], file_index, exps[i as usize].file_diffs@[file_index], hunk_index as int)) as usize)
                } else {
                    list.selected
                },
                None => list.selected,
            }
        }),
{
    let entry = entries[i];
    let exps = ctx.nav.expansions;
    let selected = ctx.nav.cursor == Some(LogCursor::Commit { index: i as usize });
    let index = list.rows.len();
    let marked = if selected { LogListModel { selected: Some(index as usize), ..list } } else { list };
    let expanded = exps.contains_key(i as usize) && exps[i as usize].expanded;
    let after = log_add_rows(marked, seq![commit_line(&entry, selected, collapse_icon(!expanded), ctx.now as int)]);
    if expanded {
        let exp = exps[i as usize];
        let with_metadata = log_add_rows(after, metadata_rows(&entry));
        lemma_metadata_rows_counted(&entry);
        assert forall|f: usize| f < exp.files@.len() && #[trigger] file_diff_shown(exp, f) implies !exp.file_diffs@[f].binary by {
            assert(file_diff_shown(ctx.nav.expansions[i as usize], f));
        }
        lemma_log_files_shape(with_metadata, ctx.nav, ctx.settings, i as usize, exp, exp.files@.len() as int);
    }
}

proof fn lemma_log_commits_shape(ctx: LogRowContext, entries: Seq<LogEntry>, k: int)
    requires
        0 <= k <= entries.len() <= usize::MAX,
        no_binary_shown(ctx.nav, entries.len()),
    ensures
        log_add_commits(LogListModel { rows: Seq::empty(), selected: None }, ctx, entries, k).rows.len()
            == commit_rows_before(ctx.nav.expansions, entries, k),
        log_add_commits(LogListModel { rows: Seq::empty(), selected: None }, ctx, entries, k).selected
            == flat_index_below(ctx.nav.expansions, entries, ctx.nav.cursor, k),
    decreases k,
{
    if k > 0 {
        lemma_log_commits_shape(ctx, entries, k - 1);
        let before = log_add_commits(LogListModel { rows: Seq::empty(), selected: None }, ctx, entries, k - 1);
        lemma_log_commit_shape(before, ctx, entries, k - 1);
    }
}

/// The log list selects the row that the navigation counts for its cursor
/// (see `LogNavigationState::cursor_flat_index`), and has one row per
/// counted row, plus one asking for more when more can be loaded, where no
/// shown diff is binary.
pub proof fn lemma_log_list_matches_navigation(data: &LogData, ctx: LogRowContext)
    requires
        no_binary_shown(ctx.nav, data.entries@.len()),
    ensures
        log_list(data, ctx).rows.len() == commit_rows_before(ctx.nav.expansions, data.entries@, data.entries@.len() as int)
            + (if data.has_more { 1int } else { 0int }),
        log_list(data, ctx).selected == match flat_index_spec(ctx.nav.expansions, data.entries@, ctx.nav.cursor) {
            Some(n) => Some(n as usize),
            None => None::<usize>,
        },
{
    assert(data.entries@.len() == data.entries.len());
    lemma_log_commits_shape(ctx, data.entries@, data.entries@.len() as int);
}

} // verus!
