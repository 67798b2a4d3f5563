use vstd::prelude::*;
use crate::diff::{Diff, DiffLine};
use crate::status::{FileEntry, RepositoryStatus, file_status_text};
use crate::text::{decimal, owned, push_decimal, push_str};
use crate::ui::diff_renderer::{
    DiffRenderSettings, DiffRenderer, LineNumberWidths, diff_drawable, diff_line_pieces, max_hunk_line_number,
};
use crate::ui::navigation::{
    FileDiffKey, NavigationModel, NavigationState, SelectionCursor, StatusSection, context_of, diff_state_of,
    file_context_for,
};
use crate::ui::styled::{
    BaseStyle, StyledText, TextStyle, ThemeColor, colored, line_view, note_spec, piece, plain, plain_spec,
    selected_spec, selected_style,
};

verus! {

/// The texts and styles of one drawn row.
pub type RowView = Seq<(Seq<char>, TextStyle)>;

/// A hunk of an inline diff as the list shows it: its rows, where it sits,
/// and what a pinned header names.
pub struct OverlayModel {
    pub start_line: usize,
    pub end_line: usize,
    pub section_label: Seq<char>,
    pub file_path: Seq<char>,
    pub header: Seq<char>,
    pub selected: bool,
}

/// The rows of a hunk of an inline diff, and what its pinned header shows.
#[derive(Debug, Clone)]
pub struct HunkOverlay {
    pub start_line: usize,
    pub end_line: usize,
    pub section_label: String,
    pub file_path: String,
    pub header: String,
    pub selected: bool,
}

impl View for HunkOverlay {
    type V = OverlayModel;

    open spec fn view(&self) -> OverlayModel {
        OverlayModel {
            start_line: self.start_line,
            end_line: self.end_line,
            section_label: self.section_label@,
            file_path: self.file_path@,
            header: self.header@,
            selected: self.selected,
        }
    }
}

/// The drawn status list: its rows, the selected row, the rows to keep in
/// view, and the hunks of the inline diffs.
pub struct ListModel {
    pub rows: Seq<RowView>,
    pub selected: Option<usize>,
    pub targets: Seq<usize>,
    pub overlays: Seq<OverlayModel>,
}

/// The status list as drawn.
pub struct StatusList {
    pub rows: Vec<Vec<StyledText>>,
    pub selected: Option<usize>,
    pub scroll_targets: Vec<usize>,
    pub overlays: Vec<HunkOverlay>,
}

impl View for StatusList {
    type V = ListModel;

    open spec fn view(&self) -> ListModel {
        ListModel {
            rows: self.rows@.map_values(|r: Vec<StyledText>| line_view(r@)),
            selected: self.selected,
            targets: self.scroll_targets@,
            overlays: self.overlays@.map_values(|o: HunkOverlay| o@),
        }
    }
}

/// What every row of the list depends on: the navigation, the cursor,
/// whether the selection is kept in view, and how diff lines are drawn.
pub struct RowContext {
    pub nav: NavigationModel,
    pub cursor: Option<SelectionCursor>,
    pub track: bool,
    pub settings: DiffRenderSettings,
}

/// The label a section is named by.
pub open spec fn section_label_text(section: StatusSection) -> Seq<char> {
    match section {
        StatusSection::Staged => "Staged changes"@,
        StatusSection::Unstaged => "Unstaged changes"@,
        StatusSection::Untracked => "Untracked files"@,
        StatusSection::Conflicted => "Conflicted files"@,
    }
}

/// The icon of a collapsed (`▸`) or expanded (`▾`) item.
pub open spec fn collapse_icon(collapsed: bool) -> Seq<char> {
    if collapsed { "▸"@ } else { "▾"@ }
}

/// The style of a hunk header that is not selected.
pub open spec fn hunk_header_style() -> TextStyle {
    TextStyle { base: BaseStyle::HunkHeader, ..plain_spec() }
}

/// A row of one muted, italic note.
pub open spec fn note_row(text: Seq<char>) -> RowView {
    seq![(text, note_spec())]
}

/// The widths of the line-number columns when the settings show them.
pub open spec fn number_widths(diff: Diff, settings: DiffRenderSettings) -> Option<LineNumberWidths> {
    if settings.show_line_numbers {
        Some(
            LineNumberWidths {
                old: decimal(max_hunk_line_number(diff.hunks@, true)).len() as usize,
                new: decimal(max_hunk_line_number(diff.hunks@, false)).len() as usize,
            },
        )
    } else {
        None
    }
}

/// Hunk `h` of the diff of a file in `section` is collapsed.
pub open spec fn hunk_is_collapsed(nav: NavigationModel, diff: Diff, section: StatusSection, h: int) -> bool {
    diff_state_of(nav.file_diffs, diff.file_path@, context_of(section)) matches Some(state)
        && state.collapsed_hunks@.contains(h as usize)
}

/// The list with row `index` selected, and kept in view when tracking.
pub open spec fn select_row(list: ListModel, index: nat, track: bool) -> ListModel {
    ListModel {
        selected: Some(index as usize),
        targets: if track { list.targets.push(index as usize) } else { list.targets },
        ..list
    }
}

/// The list with rows added.
pub open spec fn add_rows(list: ListModel, rows: Seq<RowView>) -> ListModel {
    ListModel { rows: list.rows + rows, ..list }
}

/// The list with hunk `h` of the diff of file `file_index` of `section`
/// added: its header (selected when the cursor is on it), its lines unless
/// it is collapsed, a blank separator when the diff has several hunks, and
/// its overlay.
pub open spec fn add_hunk(list: ListModel, ctx: RowContext, section: StatusSection, file_index: usize, diff: Diff, h: int) -> ListModel {
    let hunk = diff.hunks@[h];
    let start = list.rows.len();
    let selected = ctx.cursor == Some(
        SelectionCursor::Hunk { section: section, file_index: file_index, hunk_index: h as usize },
    );
    let collapsed = hunk_is_collapsed(ctx.nav, diff, section, h);
    let marked = if selected { select_row(list, start, ctx.track) } else { list };
    let header: RowView = seq![
        ("    "@ + collapse_icon(collapsed) + " "@ + hunk.header.raw@, if selected { selected_spec() } else { hunk_header_style() }),
    ];
    let lines: Seq<RowView> = if collapsed {
        Seq::empty()
    } else {
        hunk.lines@.map_values(|l: DiffLine| diff_line_pieces(l, number_widths(diff, ctx.settings), selected, Some("      "@), ctx.settings.tab_width as nat))
    };
    let separator: Seq<RowView> = if diff.hunks@.len() > 1 { seq![Seq::empty()] } else { Seq::empty() };
    let after = add_rows(marked, seq![header] + lines + separator);
    ListModel {
        overlays: after.overlays.push(
            OverlayModel {
                start_line: start as usize,
                end_line: after.rows.len() as usize,
                section_label: section_label_text(section),
                file_path: diff.file_path@,
                header: hunk.header.raw@,
                selected: selected,
            },
        ),
        ..after
    }
}

/// The list with the first `k` hunks of a diff added.
pub open spec fn add_hunks(list: ListModel, ctx: RowContext, section: StatusSection, file_index: usize, diff: Diff, k: int) -> ListModel
    decreases k,
{
    if k <= 0 {
        list
    } else {
        add_hunk(add_hunks(list, ctx, section, file_index, diff, k - 1), ctx, section, file_index, diff, k - 1)
    }
}

/// The list with the inline diff of a file added: a note for a binary file,
/// its hunks otherwise.
pub open spec fn add_inline_diff(list: ListModel, ctx: RowContext, section: StatusSection, file_index: usize, diff: Diff) -> ListModel {
    if diff.binary {
        add_rows(list, seq![note_row("    Binary file (not shown)"@)])
    } else {
        add_hunks(list, ctx, section, file_index, diff, diff.hunks@.len() as int)
    }
}

/// Every diff the navigation keeps can be drawn.
pub open spec fn diffs_drawable(nav: NavigationModel, tab_width: nat) -> bool {
    forall|i: int|
        0 <= i < nav.file_diffs.len() ==> ((#[trigger] nav.file_diffs[i]).diff matches Some(d) ==> diff_drawable(
            d.hunks@,
            tab_width,
        ))
}

/// The style of the files listed in a section.
pub open spec fn file_style(section: StatusSection) -> TextStyle {
    TextStyle {
        fg: Some(
            match section {
                StatusSection::Staged => ThemeColor::Staged,
                StatusSection::Unstaged => ThemeColor::Unstaged,
                StatusSection::Untracked => ThemeColor::Untracked,
                StatusSection::Conflicted => ThemeColor::Conflicted,
            },
        ),
        ..plain_spec()
    }
}

/// The style of a file's inline-diff icon: the hunk-header color when its
/// diff is expanded, a muted one otherwise, on the selection background
/// and bold when the file is selected.
pub open spec fn indicator_style(expanded: bool, selected: bool) -> TextStyle {
    let base = TextStyle {
        fg: Some(if expanded { ThemeColor::HunkHeaderFg } else { ThemeColor::DiffNoNewline }),
        ..plain_spec()
    };
    if selected {
        TextStyle { bg: Some(ThemeColor::SelectedBg), bold: true, ..base }
    } else {
        base
    }
}

/// The row of a file: the selection marker, an indent, the inline-diff icon,
/// then the file's text.
pub open spec fn file_row(selected: bool, expanded: bool, display: Seq<char>, style: TextStyle) -> RowView {
    seq![
        if selected {
            ("> "@, TextStyle { fg: Some(ThemeColor::HunkHeaderFg), ..plain_spec() })
        } else {
            ("  "@, plain_spec())
        },
        ("  "@, plain_spec()),
        (collapse_icon(!expanded) + " "@, indicator_style(expanded, selected)),
        (display, if selected { selected_spec() } else { style }),
    ]
}

/// The list with file `i` of `section`, at `path`, added: its row (selected
/// when the cursor is on it), then, when its inline diff is expanded, the
/// diff or a note that it is loading.
pub open spec fn add_file(list: ListModel, ctx: RowContext, section: StatusSection, i: usize, path: Seq<char>, display: Seq<char>) -> ListModel {
    let selected = ctx.cursor == Some(SelectionCursor::File { section: section, file_index: i });
    let index = list.rows.len();
    let marked = if selected { select_row(list, index, ctx.track) } else { list };
    let state = diff_state_of(ctx.nav.file_diffs, path, context_of(section));
    let expanded = state matches Some(s) && s.expanded;
    let after = add_rows(marked, seq![file_row(selected, expanded, display, file_style(section))]);
    if let Some(s) = state {
        if s.expanded {
            match s.diff {
                Some(d) => add_inline_diff(after, ctx, section, i, d),
                None => add_rows(after, seq![note_row("    Loading diff..."@)]),
            }
        } else {
            after
        }
    } else {
        after
    }
}

/// How a file entry is shown: its status, then its path, or its old and new
/// paths for a rename.
pub open spec fn entry_display(entry: FileEntry) -> Seq<char> {
    file_status_text(entry.status) + " "@ + match entry.old_path {
        Some(old) => old@ + " -> "@ + entry.path@,
        None => entry.path@,
    }
}

/// The last component of a path, as `std::path::Path::file_name` gives it.
pub uninterp spec fn path_file_name(path: Seq<char>) -> Option<Seq<char>>;

/// The word put before the files of a section listed by path.
pub open spec fn file_indicator_text(section: StatusSection) -> Seq<char> {
    match section {
        StatusSection::Staged => "staged"@,
        StatusSection::Unstaged => "modified"@,
        StatusSection::Untracked => "new"@,
        StatusSection::Conflicted => "conflict"@,
    }
}

/// How a file listed by path is shown: the section's word, then the whole
/// path for an untracked file and the file name otherwise.
pub open spec fn path_display(section: StatusSection, path: Seq<char>) -> Seq<char> {
    file_indicator_text(section) + " "@ + if section == StatusSection::Untracked {
        path
    } else {
        match path_file_name(path) {
            Some(name) => name,
            None => path,
        }
    }
}

/// The list with the first `k` file entries of a section added.
pub open spec fn add_entry_files(list: ListModel, ctx: RowContext, section: StatusSection, entries: Seq<FileEntry>, k: int) -> ListModel
    decreases k,
{
    if k <= 0 {
        list
    } else {
        add_file(
            add_entry_files(list, ctx, section, entries, k - 1),
            ctx,
            section,
            (k - 1) as usize,
            entries[k - 1].path@,
            entry_display(entries[k - 1]),
        )
    }
}

/// The list with the first `k` files of a section listed by path added.
pub open spec fn add_path_files(list: ListModel, ctx: RowContext, section: StatusSection, files: Seq<String>, k: int) -> ListModel
    decreases k,
{
    if k <= 0 {
        list
    } else {
        add_file(
            add_path_files(list, ctx, section, files, k - 1),
            ctx,
            section,
            (k - 1) as usize,
            files[k - 1]@,
            path_display(section, files[k - 1]@),
        )
    }
}

/// The section is collapsed in the navigation.
pub open spec fn section_collapsed(nav: NavigationModel, section: StatusSection) -> bool {
    match section {
        StatusSection::Conflicted => nav.section_collapsed.conflicted,
        StatusSection::Unstaged => nav.section_collapsed.unstaged,
        StatusSection::Untracked => nav.section_collapsed.untracked,
        StatusSection::Staged => nav.section_collapsed.staged,
    }
}

/// The header row of a section: its icon, its title and its file count.
pub open spec fn section_header_row(collapsed: bool, title: Seq<char>, count: nat) -> RowView {
    seq![
        (
            collapse_icon(collapsed) + " "@ + title + " ("@ + decimal(count) + ")"@,
            TextStyle { base: BaseStyle::SectionHeader, ..plain_spec() },
        ),
    ]
}

/// The list with a section of file entries added, unless it is empty: its
/// header, its files unless it is collapsed, then a blank row.
pub open spec fn add_entry_section(list: ListModel, ctx: RowContext, section: StatusSection, title: Seq<char>, entries: Seq<FileEntry>) -> ListModel {
    let collapsed = section_collapsed(ctx.nav, section);
    let with_header = add_rows(list, seq![section_header_row(collapsed, title, entries.len())]);
    let with_files = if collapsed { with_header } else { add_entry_files(with_header, ctx, section, entries, entries.len() as int) };
    if entries.len() == 0 { list } else { add_rows(with_files, seq![Seq::empty()]) }
}

/// The list with a section of files listed by path added, unless it is
/// empty: its header, its files unless it is collapsed, then a blank row.
pub open spec fn add_path_section(list: ListModel, ctx: RowContext, section: StatusSection, title: Seq<char>, files: Seq<String>) -> ListModel {
    let collapsed = section_collapsed(ctx.nav, section);
    let with_header = add_rows(list, seq![section_header_row(collapsed, title, files.len())]);
    let with_files = if collapsed { with_header } else { add_path_files(with_header, ctx, section, files, files.len() as int) };
    if files.len() == 0 { list } else { add_rows(with_files, seq![Seq::empty()]) }
}

/// The whole status list: conflicted, unstaged, untracked and staged files,
/// in that order.
pub open spec fn status_list(status: &RepositoryStatus, ctx: RowContext) -> ListModel {
    let empty = ListModel { rows: Seq::empty(), selected: None, targets: Seq::empty(), overlays: Seq::empty() };
    let conflicted = add_path_section(empty, ctx, StatusSection::Conflicted, "Conflicted files"@, status.conflicted@);
    let unstaged = add_entry_section(conflicted, ctx, StatusSection::Unstaged, "Unstaged changes"@, status.unstaged@);
    let untracked = add_path_section(unstaged, ctx, StatusSection::Untracked, "Untracked files"@, status.untracked@);
    add_entry_section(untracked, ctx, StatusSection::Staged, "Staged changes"@, status.staged@)
}

/// The file name of a path (`std::path::Path::file_name`), where it has one
/// that is valid text.
#[verifier::external_body]
fn file_name_of(path: &str) -> (name: Option<String>)
    ensures
        match name {
            Some(n) => path_file_name(path@) == Some(n@),
            None => path_file_name(path@) is None,
        },
{
    std::path::Path::new(path).file_name().and_then(|n| n.to_str()).map(|n| n.to_string())
}

fn push_row(list: &mut StatusList, row: Vec<StyledText>)
    ensures
        final(list)@ == add_rows(old(list)@, seq![line_view(row@)]),
{
    let ghost before = list@;
    let ghost row_view = line_view(row@);
    list.rows.push(row);
    assert(list@.rows =~= before.rows + seq![row_view]);
}

fn select_in(list: &mut StatusList, index: usize, track: bool)
    ensures
        final(list)@ == select_row(old(list)@, index as nat, track),
{
    list.selected = Some(index);
    if track {
        list.scroll_targets.push(index);
    }
}

fn push_overlay(list: &mut StatusList, overlay: HunkOverlay)
    ensures
        final(list)@ == (ListModel { overlays: old(list)@.overlays.push(overlay@), ..old(list)@ }),
{
    let ghost before = list@;
    let ghost overlay_view = overlay@;
    list.overlays.push(overlay);
    assert(list@.overlays =~= before.overlays.push(overlay_view));
}

/// A one-piece row.
fn single_row(text: String, style: TextStyle) -> (row: Vec<StyledText>)
    ensures
        line_view(row@) == seq![(text@, style)],
{
    let mut row: Vec<StyledText> = Vec::new();
    row.push(piece(text, style));
    assert(line_view(row@) =~= seq![(text@, style)]);
    row
}

fn file_style_of(section: StatusSection) -> (style: TextStyle)
    ensures
        style == file_style(section),
{
    match section {
        StatusSection::Staged => colored(ThemeColor::Staged),
        StatusSection::Unstaged => colored(ThemeColor::Unstaged),
        StatusSection::Untracked => colored(ThemeColor::Untracked),
        StatusSection::Conflicted => colored(ThemeColor::Conflicted),
    }
}

fn inline_diff_indicator_style(expanded: bool, is_selected: bool) -> (style: TextStyle)
    ensures
        style == indicator_style(expanded, is_selected),
{
    let base = colored(if expanded { ThemeColor::HunkHeaderFg } else { ThemeColor::DiffNoNewline });
    if is_selected {
        TextStyle { bg: Some(ThemeColor::SelectedBg), bold: true, ..base }
    } else {
        base
    }
}

fn section_header_text(collapsed: bool, title: &str, count: usize) -> (text: String)
    ensures
        seq![(text@, TextStyle { base: BaseStyle::SectionHeader, ..plain_spec() })] == section_header_row(collapsed, title@, count as nat),
{
    let mut text = owned(if collapsed { "▸" } else { "▾" });
    push_str(&mut text, " ");
    push_str(&mut text, title);
    push_str(&mut text, " (");
    push_decimal(&mut text, count as u64);
    push_str(&mut text, ")");
    assert(text@ =~= collapse_icon(collapsed) + " "@ + title@ + " ("@ + decimal(count as nat) + ")"@);
    text
}

fn entry_display_text(entry: &FileEntry) -> (text: String)
    ensures
        text@ == entry_display(*entry),
{
    let mut text = entry.status.to_display_string();
    push_str(&mut text, " ");
    match &entry.old_path {
        Some(old_path) => {
            push_str(&mut text, old_path.as_str());
            push_str(&mut text, " -> ");
            push_str(&mut text, entry.path.as_str());
        },
        None => {
            push_str(&mut text, entry.path.as_str());
        },
    }
    assert(text@ =~= entry_display(*entry));
    text
}

fn path_display_text(section: StatusSection, path: &String) -> (text: String)
    ensures
        text@ == path_display(section, path@),
{
    let mut text = owned(
        match section {
            StatusSection::Staged => "staged",
            StatusSection::Unstaged => "modified",
            StatusSection::Untracked => "new",
            StatusSection::Conflicted => "conflict",
        },
    );
    push_str(&mut text, " ");
    match section {
        StatusSection::Untracked => push_str(&mut text, path.as_str()),
        _ => match file_name_of(path.as_str()) {
            Some(name) => push_str(&mut text, name.as_str()),
            None => push_str(&mut text, path.as_str()),
        },
    }
    assert(text@ =~= path_display(section, path@));
    text
}

/// Draws the status of the repository as a list.
pub struct StatusView<'a> {
    status: &'a RepositoryStatus,
    navigation: &'a NavigationState,
    settings: DiffRenderSettings,
}

impl<'a> StatusView<'a> {
    /// The status drawn.
    pub closed spec fn status_spec(&self) -> &'a RepositoryStatus {
        self.status
    }

    /// The navigation the list follows.
    pub closed spec fn navigation_spec(&self) -> &'a NavigationState {
        self.navigation
    }

    /// How diff lines are drawn.
    pub closed spec fn settings_spec(&self) -> DiffRenderSettings {
        self.settings
    }

    /// What every row depends on.
    pub open spec fn row_context(&self) -> RowContext {
        RowContext {
            nav: self.navigation_spec()@,
            cursor: self.navigation_spec()@.cursor,
            track: !self.navigation_spec()@.manual_scroll_active,
            settings: self.settings_spec(),
        }
    }

    pub fn new(status: &'a RepositoryStatus, navigation: &'a NavigationState, settings: DiffRenderSettings) -> (view: Self)
        ensures
            view.status_spec() == status,
            view.navigation_spec() == navigation,
            view.settings_spec() == settings,
    {
        Self { status, navigation, settings }
    }

    /// Adds the rows of a file's inline diff: a note for a binary file, else
    /// each hunk's header, its lines unless collapsed, and a separator
    /// between hunks; records each hunk's overlay and marks the selected hunk.
    fn add_inline_diff_items_with_selection(
        &self,
        list: &mut StatusList,
        diff: &Diff,
        section: StatusSection,
        file_index: usize,
    )
        requires
            diff_drawable(diff.hunks@, self.settings_spec().tab_width as nat),
        ensures
            final(list)@ == add_inline_diff(old(list)@, self.row_context(), section, file_index, *diff),
    {
        if diff.binary {
            push_row(list, single_row(owned("    Binary file (not shown)"), TextStyle { fg: Some(ThemeColor::DiffNoNewline), italic: true, ..plain() }));
            return;
        }
        let ghost ctx = self.row_context();
        let cursor = self.navigation.current_cursor();
        let track = !self.navigation.is_manual_scroll_active();
        let renderer = DiffRenderer::new(self.settings);
        let widths = if self.settings.show_line_numbers {
            Some(DiffRenderer::calculate_line_number_widths(diff))
        } else {
            None
        };
        let ghost start_list = list@;
        let mut idx: usize = 0;
        while idx < diff.hunks.len()
            invariant
                idx <= diff.hunks@.len(),
                !diff.binary,
                diff_drawable(diff.hunks@, self.settings_spec().tab_width as nat),
                ctx == self.row_context(),
                cursor == ctx.cursor,
                track == ctx.track,
                renderer.settings == self.settings_spec(),
                widths == number_widths(*diff, ctx.settings),
                list@ == add_hunks(start_list, ctx, section, file_index, *diff, idx as int),
            decreases diff.hunks.len() - idx,
        {
            let hunk = &diff.hunks[idx];
            let key = FileDiffKey::new(diff.file_path.clone(), file_context_for(section));
            let is_collapsed = self.navigation.is_hunk_collapsed(&key, idx);
            let start_line = list.rows.len();
            let is_selected = match cursor {
                Some(SelectionCursor::Hunk { section: s, file_index: fi, hunk_index: hi }) => s == section && fi == file_index && hi == idx,
                _ => false,
            };
            let ghost before = list@;
            assert(before.rows.len() == start_line);
            if is_selected {
                select_in(list, start_line, track);
            }
            let header_style = if is_selected { selected_style() } else { TextStyle { base: BaseStyle::HunkHeader, ..plain() } };
            let icon = if is_collapsed { "▸" } else { "▾" };
            let mut header_text = owned("    ");
            push_str(&mut header_text, icon);
            push_str(&mut header_text, " ");
            push_str(&mut header_text, hunk.header.raw.as_str());
            push_row(list, single_row(header_text, header_style));
            let ghost with_header = list@;
            if !is_collapsed {
                let mut l: usize = 0;
                while l < hunk.lines.len()
                    invariant
                        idx < diff.hunks@.len(),
                        *hunk == diff.hunks@[idx as int],
                        l <= hunk.lines@.len(),
                        diff_drawable(diff.hunks@, self.settings_spec().tab_width as nat),
                        renderer.settings == self.settings_spec(),
                        ctx == self.row_context(),
                        widths == number_widths(*diff, ctx.settings),
                        list@ == add_rows(with_header, hunk.lines@.take(l as int).map_values(|dl: DiffLine| diff_line_pieces(dl, number_widths(*diff, ctx.settings), is_selected, Some("      "@), ctx.settings.tab_width as nat))),
                    decreases hunk.lines.len() - l,
                {
                    let row = renderer.format_diff_line(&hunk.lines[l], widths.as_ref(), is_selected, Some("      "));
                    let ghost mid = list@;
                    push_row(list, row);
                    assert(hunk.lines@.take(l + 1).map_values(|dl: DiffLine| diff_line_pieces(dl, number_widths(*diff, ctx.settings), is_selected, Some("      "@), ctx.settings.tab_width as nat))
                        =~= hunk.lines@.take(l as int).map_values(|dl: DiffLine| diff_line_pieces(dl, number_widths(*diff, ctx.settings), is_selected, Some("      "@), ctx.settings.tab_width as nat)).push(
                            diff_line_pieces(hunk.lines@[l as int], number_widths(*diff, ctx.settings), is_selected, Some("      "@), ctx.settings.tab_width as nat)));
                    assert(list@.rows =~= add_rows(with_header, hunk.lines@.take(l + 1).map_values(|dl: DiffLine| diff_line_pieces(dl, number_widths(*diff, ctx.settings), is_selected, Some("      "@), ctx.settings.tab_width as nat))).rows);
                    l += 1;
                }
                assert(hunk.lines@.take(hunk.lines@.len() as int) =~= hunk.lines@);
            }
            let ghost lines_spec: Seq<RowView> = if is_collapsed {
                Seq::empty()
            } else {
                hunk.lines@.map_values(|dl: DiffLine| diff_line_pieces(dl, number_widths(*diff, ctx.settings), is_selected, Some("      "@), ctx.settings.tab_width as nat))
            };
            assert(list@.rows =~= with_header.rows + lines_spec);
            let ghost with_lines = list@;
            if diff.hunks.len() > 1 {
                let empty: Vec<StyledText> = Vec::new();
                assert(line_view(empty@) =~= Seq::empty());
                push_row(list, empty);
            }
            let ghost separator: Seq<RowView> = if diff.hunks@.len() > 1 { seq![Seq::empty()] } else { Seq::empty() };
            assert(list@.rows =~= with_lines.rows + separator);
            let end_line = list.rows.len();
            push_overlay(list, HunkOverlay {
                start_line,
                end_line,
                section_label: section_label(section),
                file_path: diff.file_path.clone(),
                header: hunk.header.raw.clone(),
                selected: is_selected,
            });
            proof {
                let target = add_hunk(before, ctx, section, file_index, *diff, idx as int);
                assert(diff@.hunks[idx as int] == hunk@);
                let collapsed = hunk_is_collapsed(ctx.nav, *diff, section, idx as int);
                assert(collapsed == is_collapsed);
                let sel = ctx.cursor == Some(SelectionCursor::Hunk { section: section, file_index: file_index, hunk_index: idx });
                assert(sel == is_selected);
                let marked = if sel { select_row(before, start_line as nat, ctx.track) } else { before };
                assert(with_header.rows =~= marked.rows + seq![seq![("    "@ + collapse_icon(collapsed) + " "@ + hunk.header.raw@, if sel { selected_spec() } else { hunk_header_style() })]]);
                assert(list@.rows =~= target.rows);
                assert(list@.overlays =~= target.overlays);
            }
            idx += 1;
        }
    }

    /// Adds the row of file `file_index` of `section`, at `path`, shown as
    /// `display`, then its inline diff when expanded (or a note that it is
    /// loading); marks the row when the cursor is on it.
    fn add_file_item(&self, list: &mut StatusList, section: StatusSection, file_index: usize, path: &String, display: String)
        requires
            diffs_drawable(self.navigation_spec()@, self.settings_spec().tab_width as nat),
        ensures
            final(list)@ == add_file(old(list)@, self.row_context(), section, file_index, path@, display@),
    {
        let ghost ctx = self.row_context();
        let ghost start = list@;
        let cursor = self.navigation.current_cursor();
        let track = !self.navigation.is_manual_scroll_active();
        let is_selected = match cursor {
            Some(SelectionCursor::File { section: s, file_index: idx }) => s == section && idx == file_index,
            _ => false,
        };
        let index = list.rows.len();
        if is_selected {
            select_in(list, index, track);
        }
        let style = if is_selected { selected_style() } else { file_style_of(section) };
        let diff_key = FileDiffKey::new(path.clone(), file_context_for(section));
        let expanded = self.navigation.is_file_diff_expanded(&diff_key);
        let icon_style = inline_diff_indicator_style(expanded, is_selected);
        let mut row: Vec<StyledText> = Vec::new();
        if is_selected {
            row.push(piece(owned("> "), colored(ThemeColor::HunkHeaderFg)));
        } else {
            row.push(piece(owned("  "), plain()));
        }
        row.push(piece(owned("  "), plain()));
        let mut icon_text = owned(if expanded { "▾" } else { "▸" });
        push_str(&mut icon_text, " ");
        row.push(piece(icon_text, icon_style));
        row.push(piece(display, style));
        let ghost display_view = display@;
        assert(line_view(row@) =~= file_row(is_selected, expanded, display_view, file_style(section)));
        push_row(list, row);
        match self.navigation.get_file_diff(&diff_key) {
            Some(diff_state) => {
                if diff_state.expanded {
                    match &diff_state.diff {
                        Some(diff) => {
                            proof {
                                let files = self.navigation_spec()@.file_diffs;
                                let k = crate::ui::navigation::diff_index_of(files, path@, context_of(section));
                                assert(files[k->0] == *diff_state);
                            }
                            self.add_inline_diff_items_with_selection(list, diff, section, file_index);
                        },
                        None => {
                            push_row(
                                list,
                                single_row(owned("    Loading diff..."), TextStyle { fg: Some(ThemeColor::DiffNoNewline), italic: true, ..plain() }),
                            );
                        },
                    }
                }
            },
            None => {},
        }
    }

    /// Adds a section of file entries, unless it is empty: its header, its
    /// files unless collapsed, and a blank row.
    fn add_section_items_with_entries(&self, list: &mut StatusList, section: StatusSection, header: &str, entries: &Vec<FileEntry>)
        requires
            diffs_drawable(self.navigation_spec()@, self.settings_spec().tab_width as nat),
        ensures
            final(list)@ == add_entry_section(old(list)@, self.row_context(), section, header@, entries@),
    {
        if entries.len() == 0 {
            return;
        }
        let ghost ctx = self.row_context();
        let is_collapsed = self.navigation.is_section_collapsed(section);
        push_row(list, single_row(section_header_text(is_collapsed, header, entries.len()), TextStyle { base: BaseStyle::SectionHeader, ..plain() }));
        let ghost with_header = list@;
        if !is_collapsed {
            let mut file_index: usize = 0;
            while file_index < entries.len()
                invariant
                    file_index <= entries@.len(),
                    ctx == self.row_context(),
                    diffs_drawable(self.navigation_spec()@, self.settings_spec().tab_width as nat),
                    list@ == add_entry_files(with_header, ctx, section, entries@, file_index as int),
                decreases entries.len() - file_index,
            {
                let entry = &entries[file_index];
                self.add_file_item(list, section, file_index, &entry.path, entry_display_text(entry));
                file_index += 1;
            }
        }
        let empty: Vec<StyledText> = Vec::new();
        assert(line_view(empty@) =~= Seq::empty());
        push_row(list, empty);
    }

    /// Adds a section of files listed by path, unless it is empty: its
    /// header, its files unless collapsed, and a blank row.
    fn add_section_items(&self, list: &mut StatusList, section: StatusSection, header: &str, files: &Vec<String>)
        requires
            diffs_drawable(self.navigation_spec()@, self.settings_spec().tab_width as nat),
        ensures
            final(list)@ == add_path_section(old(list)@, self.row_context(), section, header@, files@),
    {
        if files.len() == 0 {
            return;
        }
        let ghost ctx = self.row_context();
        let is_collapsed = self.navigation.is_section_collapsed(section);
        push_row(list, single_row(section_header_text(is_collapsed, header, files.len()), TextStyle { base: BaseStyle::SectionHeader, ..plain() }));
        let ghost with_header = list@;
        if !is_collapsed {
            let mut file_index: usize = 0;
            while file_index < files.len()
                invariant
                    file_index <= files@.len(),
                    ctx == self.row_context(),
                    diffs_drawable(self.navigation_spec()@, self.settings_spec().tab_width as nat),
                    list@ == add_path_files(with_header, ctx, section, files@, file_index as int),
                decreases files.len() - file_index,
            {
                let file = &files[file_index];
                self.add_file_item(list, section, file_index, file, path_display_text(section, file));
                file_index += 1;
            }
        }
        let empty: Vec<StyledText> = Vec::new();
        assert(line_view(empty@) =~= Seq::empty());
        push_row(list, empty);
    }

    /// The rows of the status list, with the selected row, the rows to keep
    /// in view and the hunk overlays: conflicted, unstaged, untracked and
    /// staged files in turn.
    pub fn status_items(&self) -> (list: StatusList)
        requires
            diffs_drawable(self.navigation_spec()@, self.settings_spec().tab_width as nat),
        ensures
            list@ == status_list(self.status_spec(), self.row_context()),
            list_consistent(list@, self.row_context().track),
    {
        let mut list = StatusList { rows: Vec::new(), selected: None, scroll_targets: Vec::new(), overlays: Vec::new() };
        assert(list@.rows =~= Seq::empty());
        assert(list@.targets =~= Seq::empty());
        assert(list@.overlays =~= Seq::empty());
        self.add_section_items(&mut list, StatusSection::Conflicted, "Conflicted files", &self.status.conflicted);
        self.add_section_items_with_entries(&mut list, StatusSection::Unstaged, "Unstaged changes", &self.status.unstaged);
        self.add_section_items(&mut list, StatusSection::Untracked, "Untracked files", &self.status.untracked);
        self.add_section_items_with_entries(&mut list, StatusSection::Staged, "Staged changes", &self.status.staged);
        let row_count = list.rows.len();
        proof {
            assert(list@.rows.len() == row_count);
            lemma_status_list_consistent(self.status_spec(), self.row_context());
        }
        list
    }
}

/// The label a section is named by.
pub fn section_label(section: StatusSection) -> (label: String)
    ensures
        label@ == section_label_text(section),
{
    match section {
        StatusSection::Staged => owned("Staged changes"),
        StatusSection::Unstaged => owned("Unstaged changes"),
        StatusSection::Untracked => owned("Untracked files"),
        StatusSection::Conflicted => owned("Conflicted files"),
    }
}

/// Two half-open ranges of rows overlap.
pub fn ranges_intersect(a_start: usize, a_end: usize, b_start: usize, b_end: usize) -> (meet: bool)
    ensures
        meet == (a_start < b_end && b_start < a_end),
{
    a_start < b_end && b_start < a_end
}

/// The end of the rows in view from `start`, `height` rows on (saturating).
pub open spec fn view_end(start: usize, height: usize) -> int {
    if start + height > usize::MAX { usize::MAX as int } else { start + height }
}

/// The first overlay from `i` on whose rows meet the rows in view (only a
/// selected one, where asked).
pub open spec fn first_overlay_in_view(overlays: Seq<OverlayModel>, start: usize, height: usize, selected_only: bool, i: int) -> Option<int>
    decreases overlays.len() - i,
{
    if i < 0 || i >= overlays.len() {
        None
    } else if (!selected_only || overlays[i].selected) && overlays[i].start_line < view_end(start, height)
        && start < overlays[i].end_line {
        Some(i)
    } else {
        first_overlay_in_view(overlays, start, height, selected_only, i + 1)
    }
}

/// The overlay whose header a sticky row shows: the first selected one in
/// view, else the first in view, else the first.
pub open spec fn active_overlay_spec(overlays: Seq<OverlayModel>, start: usize, height: usize) -> Option<int> {
    match first_overlay_in_view(overlays, start, height, true, 0) {
        Some(i) => Some(i),
        None => match first_overlay_in_view(overlays, start, height, false, 0) {
            Some(i) => Some(i),
            None => if overlays.len() > 0 { Some(0) } else { None },
        },
    }
}

fn first_in_view(overlays: &Vec<HunkOverlay>, visible_start: usize, height: usize, selected_only: bool) -> (found: Option<usize>)
    ensures
        match found {
            Some(i) => first_overlay_in_view(overlays@.map_values(|o: HunkOverlay| o@), visible_start, height, selected_only, 0) == Some(i as int),
            None => first_overlay_in_view(overlays@.map_values(|o: HunkOverlay| o@), visible_start, height, selected_only, 0) is None,
        },
{
    let ghost models = overlays@.map_values(|o: HunkOverlay| o@);
    let visible_end = visible_start.saturating_add(height);
    let mut i: usize = overlays.len();
    let mut found: Option<usize> = None;
    // Scanning from the back leaves the first match found.
    while i > 0
        invariant
            i <= overlays@.len(),
            models == overlays@.map_values(|o: HunkOverlay| o@),
            visible_end == view_end(visible_start, height),
            match found {
                Some(k) => first_overlay_in_view(models, visible_start, height, selected_only, i as int) == Some(k as int),
                None => first_overlay_in_view(models, visible_start, height, selected_only, i as int) is None,
            },
        decreases i,
    {
        i -= 1;
        let o = &overlays[i];
        assert(models[i as int] == o@);
        if (!selected_only || o.selected) && ranges_intersect(o.start_line, o.end_line, visible_start, visible_end) {
            found = Some(i);
        }
    }
    found
}

/// The overlay to pin above the rows in view (see `active_overlay_spec`).
pub fn active_overlay(overlays: &Vec<HunkOverlay>, visible_start: usize, height: usize) -> (active: Option<usize>)
    ensures
        match active {
            Some(i) => active_overlay_spec(overlays@.map_values(|o: HunkOverlay| o@), visible_start, height) == Some(i as int),
            None => active_overlay_spec(overlays@.map_values(|o: HunkOverlay| o@), visible_start, height) is None,
        },
{
    match first_in_view(overlays, visible_start, height, true) {
        Some(i) => Some(i),
        None => match first_in_view(overlays, visible_start, height, false) {
            Some(i) => Some(i),
            None => if overlays.len() > 0 { Some(0) } else { None },
        },
    }
}

/// One row for the pinned header when the active overlay starts above the
/// rows in view and the list has room for more than one row; none otherwise.
pub fn sticky_header_height(overlays: &Vec<HunkOverlay>, active: Option<usize>, visible_start: usize, list_height: u16) -> (height: u16)
    ensures
        height == (if active matches Some(i) && i < overlays@.len() && overlays@[i as int].start_line < visible_start && list_height > 1 {
            1u16
        } else {
            0u16
        }),
{
    match active {
        Some(i) => {
            if i < overlays.len() && overlays[i].start_line < visible_start && list_height > 1 {
                1
            } else {
                0
            }
        },
        None => 0,
    }
}

/// The pinned header of a hunk: its section, its file and its header.
pub open spec fn overlay_pieces(overlay: OverlayModel) -> RowView {
    seq![
        (overlay.section_label, TextStyle { base: BaseStyle::SectionHeader, ..plain_spec() }),
        (" • "@, plain_spec()),
        (overlay.file_path, TextStyle { fg: Some(ThemeColor::SelectedFg), ..plain_spec() }),
        (" • "@, plain_spec()),
        (overlay.header, hunk_header_style()),
    ]
}

/// Draws the pinned header of a hunk.
pub fn sticky_overlay_line(overlay: &HunkOverlay) -> (row: Vec<StyledText>)
    ensures
        line_view(row@) == overlay_pieces(overlay@),
{
    let mut row: Vec<StyledText> = Vec::new();
    row.push(piece(overlay.section_label.clone(), TextStyle { base: BaseStyle::SectionHeader, ..plain() }));
    row.push(piece(owned(" • "), plain()));
    row.push(piece(overlay.file_path.clone(), colored(ThemeColor::SelectedFg)));
    row.push(piece(owned(" • "), plain()));
    row.push(piece(overlay.header.clone(), TextStyle { base: BaseStyle::HunkHeader, ..plain() }));
    assert(line_view(row@) =~= overlay_pieces(overlay@));
    row
}

/// The hunk overlays lie within the list, each over at least its header
/// row, in order and without overlap; when the selection is kept in view,
/// the selected row is among the rows to keep in view.
pub open spec fn list_consistent(list: ListModel, track: bool) -> bool {
    &&& forall|i: int|
        0 <= i < list.overlays.len() ==> #[trigger] list.overlays[i].start_line < list.overlays[i].end_line
            <= list.rows.len()
    &&& forall|i: int, j: int|
        #![trigger list.overlays[i], list.overlays[j]]
        0 <= i < j < list.overlays.len() ==> list.overlays[i].end_line <= list.overlays[j].start_line
    &&& track ==> (list.selected matches Some(r) ==> list.targets.contains(r))
}

proof fn lemma_consistent_add_rows(list: ListModel, rows: Seq<RowView>, track: bool)
    requires
        list_consistent(list, track),
    ensures
        list_consistent(add_rows(list, rows), track),
{
    let after = add_rows(list, rows);
    assert(after.rows.len() == list.rows.len() + rows.len());
    assert(after.overlays == list.overlays);
}

proof fn lemma_consistent_select(list: ListModel, index: nat, track: bool)
    requires
        list_consistent(list, track),
    ensures
        list_consistent(select_row(list, index, track), track),
{
    let after = select_row(list, index, track);
    if track {
        assert(after.targets[after.targets.len() - 1] == index as usize);
    }
}

proof fn lemma_consistent_hunk(list: ListModel, ctx: RowContext, section: StatusSection, file_index: usize, diff: Diff, h: int)
    requires
        list_consistent(list, ctx.track),
        add_hunk(list, ctx, section, file_index, diff, h).rows.len() <= usize::MAX,
    ensures
        list_consistent(add_hunk(list, ctx, section, file_index, diff, h), ctx.track),
        list.rows.len() < add_hunk(list, ctx, section, file_index, diff, h).rows.len(),
{
    let hunk = diff.hunks@[h];
    let start = list.rows.len();
    let selected = ctx.cursor == Some(
        SelectionCursor::Hunk { section: section, file_index: file_index, hunk_index: h as usize },
    );
    let marked = if selected { select_row(list, start, ctx.track) } else { list };
    if selected {
        lemma_consistent_select(list, start, ctx.track);
    }
    let collapsed = hunk_is_collapsed(ctx.nav, diff, section, h);
    let header: RowView = seq![
        ("    "@ + collapse_icon(collapsed) + " "@ + hunk.header.raw@, if selected { selected_spec() } else { hunk_header_style() }),
    ];
    let lines: Seq<RowView> = if collapsed {
        Seq::empty()
    } else {
        hunk.lines@.map_values(|l: DiffLine| diff_line_pieces(l, number_widths(diff, ctx.settings), selected, Some("      "@), ctx.settings.tab_width as nat))
    };
    let separator: Seq<RowView> = if diff.hunks@.len() > 1 { seq![Seq::empty()] } else { Seq::empty() };
    let added = seq![header] + lines + separator;
    let after = add_rows(marked, added);
    assert(added.len() >= 1);
    assert(after.rows.len() == marked.rows.len() + added.len());
    assert(marked.rows == list.rows);
    assert(after.overlays == marked.overlays);
    let result = add_hunk(list, ctx, section, file_index, diff, h);
    assert(result.rows == after.rows);
    assert(result.overlays == after.overlays.push(
        OverlayModel {
            start_line: start as usize,
            end_line: after.rows.len() as usize,
            section_label: section_label_text(section),
            file_path: diff.file_path@,
            header: hunk.header.raw@,
            selected: selected,
        },
    ));
    let n = result.overlays.len();
    assert forall|i: int| 0 <= i < n implies #[trigger] result.overlays[i].start_line < result.overlays[i].end_line
        <= result.rows.len() by {
        if i < n - 1 {
            assert(result.overlays[i] == list.overlays[i]);
            assert(list.overlays[i].start_line < list.overlays[i].end_line);
        } else {
            assert(list.rows.len() < after.rows.len() <= usize::MAX);
            assert(result.overlays[i].start_line == list.rows.len());
            assert(result.overlays[i].end_line == after.rows.len());
        }
    }
    assert forall|i: int, j: int| 0 <= i < j < n implies #[trigger] result.overlays[i].end_line
        <= #[trigger] result.overlays[j].start_line by {
        assert(result.overlays[i] == list.overlays[i]);
        assert(list.overlays[i].start_line < list.overlays[i].end_line);
        if j < n - 1 {
            assert(result.overlays[j] == marked.overlays[j]);
        }
    }
}

proof fn lemma_consistent_hunks(list: ListModel, ctx: RowContext, section: StatusSection, file_index: usize, diff: Diff, k: int)
    requires
        list_consistent(list, ctx.track),
        add_hunks(list, ctx, section, file_index, diff, k).rows.len() <= usize::MAX,
    ensures
        list_consistent(add_hunks(list, ctx, section, file_index, diff, k), ctx.track),
        list.rows.len() <= add_hunks(list, ctx, section, file_index, diff, k).rows.len(),
    decreases k,
{
    if k > 0 {
        let before = add_hunks(list, ctx, section, file_index, diff, k - 1);
        assert(before.rows.len() <= add_hunk(before, ctx, section, file_index, diff, k - 1).rows.len());
        lemma_consistent_hunks(list, ctx, section, file_index, diff, k - 1);
        lemma_consistent_hunk(before, ctx, section, file_index, diff, k - 1);
    }
}

proof fn lemma_consistent_file(list: ListModel, ctx: RowContext, section: StatusSection, i: usize, path: Seq<char>, display: Seq<char>)
    requires
        list_consistent(list, ctx.track),
        add_file(list, ctx, section, i, path, display).rows.len() <= usize::MAX,
    ensures
        list_consistent(add_file(list, ctx, section, i, path, display), ctx.track),
        list.rows.len() <= add_file(list, ctx, section, i, path, display).rows.len(),
{
    let selected = ctx.cursor == Some(SelectionCursor::File { section: section, file_index: i });
    let index = list.rows.len();
    let marked = if selected { select_row(list, index, ctx.track) } else { list };
    if selected {
        lemma_consistent_select(list, index, ctx.track);
    }
    let state = diff_state_of(ctx.nav.file_diffs, path, context_of(section));
    let expanded = state matches Some(s) && s.expanded;
    let row = seq![file_row(selected, expanded, display, file_style(section))];
    let after = add_rows(marked, row);
    lemma_consistent_add_rows(marked, row, ctx.track);
    if let Some(s) = state {
        if s.expanded {
            match s.diff {
                Some(d) => {
                    if d.binary {
                        lemma_consistent_add_rows(after, seq![note_row("    Binary file (not shown)"@)], ctx.track);
                    } else {
                        lemma_consistent_hunks(after, ctx, section, i, d, d.hunks@.len() as int);
                    }
                },
                None => {
                    lemma_consistent_add_rows(after, seq![note_row("    Loading diff..."@)], ctx.track);
                },
            }
        }
    }
}

proof fn lemma_consistent_entry_files(list: ListModel, ctx: RowContext, section: StatusSection, entries: Seq<FileEntry>, k: int)
    requires
        list_consistent(list, ctx.track),
        add_entry_files(list, ctx, section, entries, k).rows.len() <= usize::MAX,
    ensures
        list_consistent(add_entry_files(list, ctx, section, entries, k), ctx.track),
        list.rows.len() <= add_entry_files(list, ctx, section, entries, k).rows.len(),
    decreases k,
{
    if k > 0 {
        let before = add_entry_files(list, ctx, section, entries, k - 1);
        lemma_file_rows_grow(before, ctx, section, (k - 1) as usize, entries[k - 1].path@, entry_display(entries[k - 1]));
        lemma_consistent_entry_files(list, ctx, section, entries, k - 1);
        lemma_consistent_file(before, ctx, section, (k - 1) as usize, entries[k - 1].path@, entry_display(entries[k - 1]));
    }
}

proof fn lemma_consistent_path_files(list: ListModel, ctx: RowContext, section: StatusSection, files: Seq<String>, k: int)
    requires
        list_consistent(list, ctx.track),
        add_path_files(list, ctx, section, files, k).rows.len() <= usize::MAX,
    ensures
        list_consistent(add_path_files(list, ctx, section, files, k), ctx.track),
        list.rows.len() <= add_path_files(list, ctx, section, files, k).rows.len(),
    decreases k,
{
    if k > 0 {
        let before = add_path_files(list, ctx, section, files, k - 1);
        lemma_file_rows_grow(before, ctx, section, (k - 1) as usize, files[k - 1]@, path_display(section, files[k - 1]@));
        lemma_consistent_path_files(list, ctx, section, files, k - 1);
        lemma_consistent_file(before, ctx, section, (k - 1) as usize, files[k - 1]@, path_display(section, files[k - 1]@));
    }
}

proof fn lemma_hunk_rows_grow(list: ListModel, ctx: RowContext, section: StatusSection, file_index: usize, diff: Diff, k: int)
    ensures
        list.rows.len() <= add_hunks(list, ctx, section, file_index, diff, k).rows.len(),
    decreases k,
{
    if k > 0 {
        lemma_hunk_rows_grow(list, ctx, section, file_index, diff, k - 1);
    }
}

proof fn lemma_file_rows_grow(list: ListModel, ctx: RowContext, section: StatusSection, i: usize, path: Seq<char>, display: Seq<char>)
    ensures
        list.rows.len() <= add_file(list, ctx, section, i, path, display).rows.len(),
{
    let selected = ctx.cursor == Some(SelectionCursor::File { section: section, file_index: i });
    let index = list.rows.len();
    let marked = if selected { select_row(list, index, ctx.track) } else { list };
    let state = diff_state_of(ctx.nav.file_diffs, path, context_of(section));
    let expanded = state matches Some(s) && s.expanded;
    let after = add_rows(marked, seq![file_row(selected, expanded, display, file_style(section))]);
    if let Some(s) = state {
        if let Some(d) = s.diff {
            lemma_hunk_rows_grow(after, ctx, section, i, d, d.hunks@.len() as int);
        }
    }
}

proof fn lemma_entry_files_grow(list: ListModel, ctx: RowContext, section: StatusSection, entries: Seq<FileEntry>, k: int)
    ensures
        list.rows.len() <= add_entry_files(list, ctx, section, entries, k).rows.len(),
    decreases k,
{
    if k > 0 {
        lemma_entry_files_grow(list, ctx, section, entries, k - 1);
        lemma_file_rows_grow(add_entry_files(list, ctx, section, entries, k - 1), ctx, section, (k - 1) as usize, entries[k - 1].path@, entry_display(entries[k - 1]));
    }
}

proof fn lemma_path_files_grow(list: ListModel, ctx: RowContext, section: StatusSection, files: Seq<String>, k: int)
    ensures
        list.rows.len() <= add_path_files(list, ctx, section, files, k).rows.len(),
    decreases k,
{
    if k > 0 {
        lemma_path_files_grow(list, ctx, section, files, k - 1);
        lemma_file_rows_grow(add_path_files(list, ctx, section, files, k - 1), ctx, section, (k - 1) as usize, files[k - 1]@, path_display(section, files[k - 1]@));
    }
}

proof fn lemma_consistent_entry_section(list: ListModel, ctx: RowContext, section: StatusSection, title: Seq<char>, entries: Seq<FileEntry>)
    requires
        list_consistent(list, ctx.track),
        add_entry_section(list, ctx, section, title, entries).rows.len() <= usize::MAX,
    ensures
        list_consistent(add_entry_section(list, ctx, section, title, entries), ctx.track),
        list.rows.len() <= add_entry_section(list, ctx, section, title, entries).rows.len(),
{
    if entries.len() > 0 {
        let collapsed = section_collapsed(ctx.nav, section);
        let header = seq![section_header_row(collapsed, title, entries.len())];
        let with_header = add_rows(list, header);
        lemma_consistent_add_rows(list, header, ctx.track);
        if !collapsed {
            lemma_entry_files_grow(with_header, ctx, section, entries, entries.len() as int);
            lemma_consistent_entry_files(with_header, ctx, section, entries, entries.len() as int);
            lemma_consistent_add_rows(add_entry_files(with_header, ctx, section, entries, entries.len() as int), seq![Seq::empty()], ctx.track);
        } else {
            lemma_consistent_add_rows(with_header, seq![Seq::empty()], ctx.track);
        }
    }
}

proof fn lemma_consistent_path_section(list: ListModel, ctx: RowContext, section: StatusSection, title: Seq<char>, files: Seq<String>)
    requires
        list_consistent(list, ctx.track),
        add_path_section(list, ctx, section, title, files).rows.len() <= usize::MAX,
    ensures
        list_consistent(add_path_section(list, ctx, section, title, files), ctx.track),
        list.rows.len() <= add_path_section(list, ctx, section, title, files).rows.len(),
{
    if files.len() > 0 {
        let collapsed = section_collapsed(ctx.nav, section);
        let header = seq![section_header_row(collapsed, title, files.len())];
        let with_header = add_rows(list, header);
        lemma_consistent_add_rows(list, header, ctx.track);
        if !collapsed {
            lemma_path_files_grow(with_header, ctx, section, files, files.len() as int);
            lemma_consistent_path_files(with_header, ctx, section, files, files.len() as int);
            lemma_consistent_add_rows(add_path_files(with_header, ctx, section, files, files.len() as int), seq![Seq::empty()], ctx.track);
        } else {
            lemma_consistent_add_rows(with_header, seq![Seq::empty()], ctx.track);
        }
    }
}

proof fn lemma_entry_section_grows(list: ListModel, ctx: RowContext, section: StatusSection, title: Seq<char>, entries: Seq<FileEntry>)
    ensures
        list.rows.len() <= add_entry_section(list, ctx, section, title, entries).rows.len(),
{
    let collapsed = section_collapsed(ctx.nav, section);
    let with_header = add_rows(list, seq![section_header_row(collapsed, title, entries.len())]);
    lemma_entry_files_grow(with_header, ctx, section, entries, entries.len() as int);
}

proof fn lemma_path_section_grows(list: ListModel, ctx: RowContext, section: StatusSection, title: Seq<char>, files: Seq<String>)
    ensures
        list.rows.len() <= add_path_section(list, ctx, section, title, files).rows.len(),
{
    let collapsed = section_collapsed(ctx.nav, section);
    let with_header = add_rows(list, seq![section_header_row(collapsed, title, files.len())]);
    lemma_path_files_grow(with_header, ctx, section, files, files.len() as int);
}

/// The hunk overlays of the status list lie within it, in order and without
/// overlap, each over its hunk's rows; when the selection is kept in view,
/// the selected row is among the rows to keep in view.
pub proof fn lemma_status_list_consistent(status: &RepositoryStatus, ctx: RowContext)
    requires
        status_list(status, ctx).rows.len() <= usize::MAX,
    ensures
        list_consistent(status_list(status, ctx), ctx.track),
{
    let empty = ListModel { rows: Seq::empty(), selected: None, targets: Seq::empty(), overlays: Seq::empty() };
    let conflicted = add_path_section(empty, ctx, StatusSection::Conflicted, "Conflicted files"@, status.conflicted@);
    let unstaged = add_entry_section(conflicted, ctx, StatusSection::Unstaged, "Unstaged changes"@, status.unstaged@);
    let untracked = add_path_section(unstaged, ctx, StatusSection::Untracked, "Untracked files"@, status.untracked@);
    lemma_entry_section_grows(untracked, ctx, StatusSection::Staged, "Staged changes"@, status.staged@);
    lemma_path_section_grows(unstaged, ctx, StatusSection::Untracked, "Untracked files"@, status.untracked@);
    lemma_entry_section_grows(conflicted, ctx, StatusSection::Unstaged, "Unstaged changes"@, status.unstaged@);
    lemma_consistent_path_section(empty, ctx, StatusSection::Conflicted, "Conflicted files"@, status.conflicted@);
    lemma_consistent_entry_section(conflicted, ctx, StatusSection::Unstaged, "Unstaged changes"@, status.unstaged@);
    lemma_consistent_path_section(unstaged, ctx, StatusSection::Untracked, "Untracked files"@, status.untracked@);
    lemma_consistent_entry_section(untracked, ctx, StatusSection::Staged, "Staged changes"@, status.staged@);
}

} // verus!
